//! What goes to the kernel and to devices, byte by byte.

use vstd::prelude::*;
use vstd::string::*;
use crate::uapi::alsa::{fixed_interval, interval_offset, state_of, State};
use crate::uapi::bytes::{
    as_signed, byte_of, packed, u16_at, u32_at, u64_at, with_u32, with_u64, zeros,
};
use crate::uapi::drm::{geometry_fits, high_word, is_flip, low_word};
use crate::uapi::kobject::{drm_field, field_at, has_field, hotplug_field};
use crate::uapi::process::{
    launch_list, launchable, slave_path, status_of, ExecStatusError,
};
use crate::uapi::request::request_number;
use crate::uapi::unix::{aligned, any_negative, descriptors_at, scan};
use crate::uapi::virgl::command::{
    half_bits, header_word, highest_bit, nearest_even, packet, power, shader_body, terminated,
    text_word, text_words, ObjectKind, SamplerFilter, SamplerWrap, ShaderStage,
};
use crate::uapi::virgl::{pixel_bytes, texture_spec, Transfer};
use crate::text::decimal;

verus! {

/// The first byte of a number counts least, and each one after it counts as much
/// as all those before it can, and one more.
pub proof fn small_bytes_come_first(a: u8, b: u8, c: u8, d: u8)
    ensures
        u16_at(seq![a, b], 0) == a + 256 * b,
        u32_at(seq![a, b, c, d], 0) == a + 256 * (b + 256 * (c + 256 * d)),
        u64_at(seq![a, b, c, d, 0u8, 0u8, 0u8, 0u8], 0) == u32_at(seq![a, b, c, d], 0),
        u64_at(seq![0u8, 0u8, 0u8, 0u8, a, b, c, d], 0) == 0x1_0000_0000 * u32_at(
            seq![a, b, c, d],
            0,
        ),
        packed(seq![a as u32]) == seq![a, 0u8, 0u8, 0u8],
{
    let words = seq![a as u32];
    assert(words.drop_last() =~= Seq::empty());
    assert(packed(words.drop_last()) =~= Seq::empty());
    assert(packed(words) =~= seq![a, 0u8, 0u8, 0u8]);
}

/// A number with its highest bit set stands for one below zero.
pub proof fn high_numbers_are_negative(n: int)
    requires
        0 <= n < 0x1_0000_0000,
    ensures
        i32::MIN <= as_signed(n) <= i32::MAX,
        as_signed(n) >= 0 ==> as_signed(n) == n,
        as_signed(n) < 0 ==> as_signed(n) + 0x1_0000_0000 == n,
{
}

/// A written number takes four bytes, or eight, and leaves the others alone.
pub proof fn writing_leaves_the_rest_alone(bytes: Seq<u8>, at: int, value: int, k: int)
    requires
        0 <= at,
        at + 8 <= bytes.len(),
        0 <= k < bytes.len(),
    ensures
        with_u32(bytes, at, value).len() == bytes.len(),
        with_u64(bytes, at, value).len() == bytes.len(),
        k < at || at + 4 <= k ==> with_u32(bytes, at, value)[k] == bytes[k],
        k < at || at + 8 <= k ==> with_u64(bytes, at, value)[k] == bytes[k],
        with_u32(bytes, at, value)[at] == byte_of(value, 0),
        0 <= value < 256 ==> with_u32(bytes, at, value)[at] == value && with_u32(
            bytes,
            at,
            value,
        )[at + 1] == 0 && with_u32(bytes, at, value)[at + 2] == 0 && with_u32(
            bytes,
            at,
            value,
        )[at + 3] == 0,
{
}

/// A message of the kernel has a field where the field stands between zeros.
pub proof fn fields_stand_between_zeros(before: Seq<u8>, text: Seq<u8>, after: Seq<u8>)
    requires
        forall|i: int| 0 <= i < text.len() ==> text[i] != 0,
    ensures
        has_field(before + seq![0u8] + text + seq![0u8] + after, text),
        has_field(text + seq![0u8] + after, text),
        has_field(text, text),
        forall|i: int| 0 <= i < drm_field().len() ==> "SUBSYSTEM=drm"@[i] as u8 == #[trigger] drm_field()[i],
        forall|i: int|
            0 <= i < hotplug_field().len() ==> "HOTPLUG=1"@[i] as u8 == #[trigger] hotplug_field()[i],
        drm_field().len() == "SUBSYSTEM=drm"@.len(),
        hotplug_field().len() == "HOTPLUG=1"@.len(),
{
    reveal_strlit("SUBSYSTEM=drm");
    reveal_strlit("HOTPLUG=1");
    let all = before + seq![0u8] + text + seq![0u8] + after;
    let start = before.len() as int + 1;
    let end = start + text.len();
    assert(all.subrange(start, end) =~= text);
    assert forall|k: int| start <= k < end implies all[k] != 0 by {
        assert(all[k] == text[k - start]);
    }
    assert(field_at(all, start, end));
    let front = text + seq![0u8] + after;
    let length = text.len() as int;
    assert(front.subrange(0, length) =~= text);
    assert forall|k: int| 0 <= k < length implies front[k] != 0 by {
        assert(front[k] == text[k]);
    }
    assert(field_at(front, 0, length));
    assert(text.subrange(0, length) =~= text);
    assert(field_at(text, 0, length));
}

/// A program that started says nothing; one that did not says at which stage it
/// failed and why. Anything else is no such message.
pub proof fn failures_are_reported(stage: u8, a: u8, b: u8, c: u8, d: u8, header: Seq<u8>)
    ensures
        status_of(Seq::empty()) == Ok::<(), ExecStatusError>(()),
        ({
            let frame = seq![76u8, 83, 69, 88, 1, stage, a, b, c, d];
            let errno = a + 256 * (b + 256 * (c + 256 * d));
            &&& 1 <= stage <= 6 && 0 < errno < 0x8000_0000 ==> status_of(frame) == Err::<
                (),
                ExecStatusError,
            >(ExecStatusError::Failed { stage, errno: errno as i32 })
            &&& 1 <= stage <= 6 && (errno == 0 || errno >= 0x8000_0000) ==> status_of(frame)
                == Err::<(), ExecStatusError>(ExecStatusError::InvalidErrno)
            &&& stage == 0 || stage > 6 ==> status_of(frame) == Err::<(), ExecStatusError>(
                ExecStatusError::Truncated,
            )
            &&& status_of(frame.push(a)) == Err::<(), ExecStatusError>(ExecStatusError::Exceeded)
        }),
        header.len() == 5 && header != seq![76u8, 83, 69, 88, 1] ==> status_of(
            header + seq![stage, a, b, c, d],
        ) == Err::<(), ExecStatusError>(ExecStatusError::Truncated),
{
    let frame = seq![76u8, 83, 69, 88, 1, stage, a, b, c, d];
    assert(frame.subrange(0, 5) =~= seq![76u8, 83, 69, 88, 1]);
    assert(u32_at(frame, 6) == a + 256 * (b + 256 * (c + 256 * d)));
    if header.len() == 5 {
        let other = header + seq![stage, a, b, c, d];
        assert(other.subrange(0, 5) =~= header);
    }
}

/// A program is started with its own arguments in order, behind who started it;
/// only a path from the root can be started.
pub proof fn programs_get_their_arguments(
    parent: nat,
    program: Seq<char>,
    arguments: Seq<Seq<char>>,
    i: int,
)
    requires
        0 <= i < arguments.len(),
    ensures
        launch_list(parent, program, arguments).len() == arguments.len() + 3,
        launch_list(parent, program, arguments)[0] == decimal(parent),
        launch_list(parent, program, arguments)[2] == program,
        launch_list(parent, program, arguments)[i + 3] == arguments[i],
        launchable(program) <==> program.len() > 0 && program[0] == '/',
        slave_path(parent) == "/dev/pts/"@ + decimal(parent),
{
}

/// Messages start at multiples of eight.
pub proof fn messages_are_aligned(length: int)
    requires
        0 <= length,
    ensures
        aligned(length) % 8 == 0,
        length <= aligned(length) < length + 8,
{
}

proof fn all_descriptors_are_read(bytes: Seq<u8>, at: int, count: int, i: int)
    requires
        0 <= i < count,
        forall|k: int| 0 <= k < count ==> as_signed(#[trigger] u32_at(bytes, at + 4 * k)) >= 0,
    ensures
        descriptors_at(bytes, at, count).len() == count,
        descriptors_at(bytes, at, count)[i] == as_signed(u32_at(bytes, at + 4 * i)) as i32,
        !any_negative(bytes, at, count),
    decreases count,
{
    assert(as_signed(u32_at(bytes, at + 4 * (count - 1))) >= 0);
    if count > 1 {
        if i < count - 1 {
            all_descriptors_are_read(bytes, at, count - 1, i);
        } else {
            all_descriptors_are_read(bytes, at, count - 1, 0);
        }
    } else {
        assert(descriptors_at(bytes, at, 0) =~= Seq::empty());
        assert(!any_negative(bytes, at, 0));
    }
}

/// The descriptors of a message are all received, in their order.
pub proof fn descriptors_are_received(bytes: Seq<u8>, count: int, i: int)
    requires
        0 <= i < count,
        bytes.len() >= 16 + 4 * count,
        u64_at(bytes, 0) == 16 + 4 * count,
        u32_at(bytes, 8) == 1,
        u32_at(bytes, 12) == 1,
        forall|k: int| 0 <= k < count ==> as_signed(#[trigger] u32_at(bytes, 16 + 4 * k)) >= 0,
    ensures
        scan(bytes, 16 + 4 * count, 0).0.len() == count,
        scan(bytes, 16 + 4 * count, 0).0[i] == u32_at(bytes, 16 + 4 * i),
        !scan(bytes, 16 + 4 * count, 0).1,
{
    let length = 16 + 4 * count;
    all_descriptors_are_read(bytes, 16, count, i);
    assert(as_signed(u32_at(bytes, 16 + 4 * i)) >= 0);
    assert(aligned(length) + 16 > length);
    assert(scan(bytes, length, 0 + aligned(length)) == (Seq::<i32>::empty(), false));
    assert((length - 16) % 4 == 0);
    assert((length - 16) / 4 == count);
    assert(scan(bytes, length, 0).0 =~= descriptors_at(bytes, 16, count));
    assert(u32_at(bytes, 16 + 4 * i) <= i32::MAX);
}

/// A message of another kind, or one that does not fit, is refused.
pub proof fn other_messages_are_refused(bytes: Seq<u8>, length: int)
    requires
        16 <= length <= bytes.len(),
    ensures
        u64_at(bytes, 0) > length ==> scan(bytes, length, 0).1 && scan(bytes, length, 0).0.len()
            == 0,
        u64_at(bytes, 0) < 16 ==> scan(bytes, length, 0).1,
        16 <= u64_at(bytes, 0) <= length && u32_at(bytes, 8) != 1 && u32_at(bytes, 8) >= 0
            && u32_at(bytes, 8) < 0x8000_0000 ==> scan(bytes, length, 0).1,
        16 <= u64_at(bytes, 0) <= length && u32_at(bytes, 12) != 1 && u32_at(bytes, 12) >= 0
            && u32_at(bytes, 12) < 0x8000_0000 ==> scan(bytes, length, 0).1,
{
}

/// A request names its direction, its size, its kind and its number, each in bits
/// of its own.
pub proof fn requests_name_their_parts(direction: int, kind: int, number: int, size: int)
    requires
        0 <= direction < 4,
        0 <= kind < 0x100,
        0 <= number < 0x100,
        0 <= size < 0x4000,
    ensures
        request_number(direction, kind, number, size) % 0x100 == number,
        request_number(direction, kind, number, size) / 0x100 % 0x100 == kind,
        request_number(direction, kind, number, size) / 0x1_0000 % 0x4000 == size,
        request_number(direction, kind, number, size) / 0x4000_0000 == direction,
{
    let n = request_number(direction, kind, number, size);
    assert(n / 0x100 == direction * 0x40_0000 + size * 0x100 + kind);
    assert(n / 0x1_0000 == direction * 0x4000 + size);
}

/// A picture fits in memory where a row holds its pixels, four bytes each, and the
/// memory holds its rows.
pub proof fn pictures_fit_their_memory(width: int, height: int, pitch: int, size: int)
    requires
        0 <= width,
        0 <= height,
        0 <= pitch,
        4 * width <= usize::MAX,
        pitch * height <= usize::MAX,
    ensures
        geometry_fits(width, height, pitch, size) <==> 4 * width <= pitch && pitch * height <= size,
{
}

/// A flip is told by its kind and its size.
pub proof fn flips_are_told_by_kind_and_size(bytes: Seq<u8>)
    requires
        bytes.len() == 32,
    ensures
        is_flip(bytes) <==> bytes.subrange(0, 8) == seq![2u8, 0, 0, 0, 32, 0, 0, 0],
{
    let head = bytes.subrange(0, 8);
    assert(forall|i: int| 0 <= i < 8 ==> head[i] == bytes[i]);
    if is_flip(bytes) {
        assert(bytes[0] == 2 && bytes[1] == 0 && bytes[2] == 0 && bytes[3] == 0);
        assert(bytes[4] == 32 && bytes[5] == 0 && bytes[6] == 0 && bytes[7] == 0);
        assert(head =~= seq![2u8, 0, 0, 0, 32, 0, 0, 0]);
    }
    if head == seq![2u8, 0, 0, 0, 32, 0, 0, 0] {
        assert(head[0] == 2 && head[1] == 0 && head[2] == 0 && head[3] == 0);
        assert(head[4] == 32 && head[5] == 0 && head[6] == 0 && head[7] == 0);
    }
}

/// The two words of a number make it up, the low one first.
pub proof fn words_make_up_a_number(n: u64)
    ensures
        low_word(n) + 0x1_0000_0000 * high_word(n) == n,
{
}

/// The states of a sound device have the kernel's numbers.
pub proof fn sound_states_have_numbers(raw: int)
    ensures
        state_of(raw) == Some(State::Open) <==> raw == 0,
        state_of(raw) == Some(State::Setup) <==> raw == 1,
        state_of(raw) == Some(State::Prepared) <==> raw == 2,
        state_of(raw) == Some(State::Running) <==> raw == 3,
        state_of(raw) == Some(State::Xrun) <==> raw == 4,
        state_of(raw) == Some(State::Disconnected) <==> raw == 8,
        state_of(raw) is None <==> raw < 0 || raw > 8 || 4 < raw < 8,
{
}

/// A parameter that is fixed has its value as the least and the greatest one; it
/// leaves other parameters alone.
pub proof fn parameters_are_fixed(bytes: Seq<u8>, parameter: int, value: int, k: int)
    requires
        8 <= parameter,
        0 <= value < 0x1_0000_0000,
        260 + 12 * (parameter - 8) + 12 <= bytes.len(),
        0 <= k < bytes.len(),
    ensures
        ({
            let at = 260 + 12 * (parameter - 8);
            let after = fixed_interval(bytes, parameter, value);
            &&& after.len() == bytes.len()
            &&& u32_at(after, at) == value
            &&& u32_at(after, at + 4) == value
            &&& u32_at(after, at + 8) == 4
            &&& k < at || at + 12 <= k ==> after[k] == bytes[k]
        }),
{
    let at = interval_offset(parameter);
    assert(at == 260 + 12 * (parameter - 8));
    let a = with_u32(bytes, at, value);
    let b = with_u32(a, at + 4, value);
    let c = with_u32(b, at + 8, 4);
    crate::uapi::bytes::written_u32_is_read_back(bytes, at, value, 0);
    crate::uapi::bytes::written_u32_is_read_back(a, at + 4, value, 0);
    crate::uapi::bytes::written_u32_is_read_back(b, at + 8, 4, 0);
    assert(forall|i: int| at <= i < at + 4 ==> c[i] == a[i]);
    assert(forall|i: int| at + 4 <= i < at + 8 ==> c[i] == b[i]);
}

/// The header of a command holds its number, its object and its length.
pub proof fn headers_hold_their_parts(command: u32, object: u32, length: u32)
    requires
        command < 0x100,
        object < 0x100,
        length < 0x1_0000,
    ensures
        header_word(command, object, length) == command + 0x100 * object + 0x1_0000 * length,
{
    assert(command | (object << 8) | (length << 16) == command + 0x100 * object + 0x1_0000 * length)
        by (bit_vector)
        requires
            command < 0x100,
            object < 0x100,
            length < 0x1_0000,
    ;
}

/// A command is its header, which counts the words behind it, and those words.
pub proof fn commands_count_their_words(command: u32, object: u32, body: Seq<u32>, i: int)
    requires
        command < 0x100,
        object < 0x100,
        body.len() < 0x1_0000,
        0 <= i < body.len(),
    ensures
        packet(command, object, body).len() == body.len() + 1,
        packet(command, object, body)[0] == command + 0x100 * object + 0x1_0000 * body.len(),
        packet(command, object, body)[i + 1] == body[i],
{
    headers_hold_their_parts(command, object, body.len() as u32);
}

/// Objects, stages and wraps have numbers of their own.
pub proof fn kinds_have_their_numbers(a: ObjectKind, b: ObjectKind, c: SamplerWrap, d: SamplerWrap)
    ensures
        a != b ==> a.number() != b.number(),
        1 <= a.number() <= 8,
        ObjectKind::Blend.number() == 1,
        ObjectKind::Rasterizer.number() == 2,
        ObjectKind::DepthStencilAlpha.number() == 3,
        ObjectKind::Shader.number() == 4,
        ObjectKind::VertexElements.number() == 5,
        ObjectKind::SamplerView.number() == 6,
        ObjectKind::SamplerState.number() == 7,
        ObjectKind::Surface.number() == 8,
        ShaderStage::Vertex.number() == 0,
        ShaderStage::Fragment.number() == 1,
        c != d ==> c.number() != d.number(),
        SamplerWrap::Repeat.number() == 0,
        SamplerWrap::ClampToEdge.number() == 2,
        SamplerWrap::ClampToBorder.number() == 3,
        SamplerFilter::Nearest.bits() == 0,
        SamplerFilter::Linear.bits() == 0x2a00,
{
    assert((1u32 << 9) | (1u32 << 11) | (1u32 << 13) == 0x2a00u32) by (bit_vector);
}

proof fn powers_are_positive(n: nat)
    ensures
        power(n) > 0,
    decreases n,
{
    if n > 0 {
        powers_are_positive((n - 1) as nat);
    }
}

proof fn the_highest_bit_bounds(n: nat)
    requires
        n > 0,
    ensures
        power(highest_bit(n)) <= n < 2 * power(highest_bit(n)),
    decreases n,
{
    if n >= 2 {
        the_highest_bit_bounds(n / 2);
        assert(highest_bit(n) == 1 + highest_bit(n / 2));
        assert(power(highest_bit(n)) == 2 * power(highest_bit(n / 2)));
    } else {
        assert(highest_bit(n) == 0);
        assert(power(0) == 1);
    }
}

/// The half of a number below two to the twenty-fourth is given exactly: its
/// fraction, scaled by its exponent, is the number.
pub proof fn small_halves_are_exact(n: nat)
    requires
        0 < n < 0x100_0000,
    ensures
        ({
            let exponent = half_bits(n) / 0x80_0000;
            let fraction = 0x80_0000 + half_bits(n) % 0x80_0000;
            &&& 126 <= exponent <= 149
            &&& fraction == n * power((149 - exponent) as nat)
        }),
        half_bits(0) == 0,
{
    let top = highest_bit(n);
    the_highest_bit_bounds(n);
    if top >= 24 {
        powers_grow(24, top);
        twenty_four_bits();
        assert(false);
    }
    let scale = power((23 - top) as nat);
    powers_multiply(top, (23 - top) as nat);
    twenty_four_bits();
    powers_are_positive((23 - top) as nat);
    let p = power(top);
    assert(p * scale == 0x80_0000);
    assert(0x80_0000 <= n * scale < 0x100_0000) by (nonlinear_arith)
        requires
            p <= n < 2 * p,
            p * scale == 0x80_0000,
            scale > 0,
    ;
    let bits = half_bits(n);
    assert(bits == (126 + top) * 0x80_0000 + n * scale - 0x80_0000);
    assert(bits / 0x80_0000 == 126 + top && bits % 0x80_0000 == n * scale - 0x80_0000);
}

proof fn twenty_four_bits()
    ensures
        power(23) == 0x80_0000,
        power(24) == 0x100_0000,
{
    reveal_with_fuel(power, 25);
}

proof fn powers_grow(a: nat, b: nat)
    requires
        a <= b,
    ensures
        power(a) <= power(b),
    decreases b,
{
    if a < b {
        powers_grow(a, (b - 1) as nat);
        powers_are_positive((b - 1) as nat);
    }
}

proof fn powers_multiply(a: nat, b: nat)
    ensures
        power(a) * power(b) == power(a + b),
    decreases b,
{
    if b == 0 {
        assert(power(0) == 1);
        assert(power(a) * 1 == power(a));
    } else {
        powers_multiply(a, (b - 1) as nat);
        let p = power(a);
        let q = power((b - 1) as nat);
        assert(p * (2 * q) == 2 * (p * q)) by (nonlinear_arith);
        assert(power(a + b) == 2 * power((a + b - 1) as nat));
    }
}

/// Rounding gives a number that is nearest, and the even one of two.
pub proof fn rounding_is_to_the_nearest(value: int, divisor: int)
    requires
        divisor > 0,
    ensures
        2 * value <= 2 * divisor * nearest_even(value, divisor) + divisor,
        2 * value >= 2 * divisor * nearest_even(value, divisor) - divisor,
        2 * value == 2 * divisor * nearest_even(value, divisor) + divisor || 2 * value == 2 * divisor
            * nearest_even(value, divisor) - divisor ==> nearest_even(value, divisor) % 2 == 0,
{
    let q = value / divisor;
    let r = value % divisor;
    assert(value == divisor * q + r && 0 <= r < divisor) by (nonlinear_arith)
        requires
            divisor > 0,
            q == value / divisor,
            r == value % divisor,
    ;
    assert(2 * divisor * q == 2 * (divisor * q)) by (nonlinear_arith);
    assert(2 * divisor * (q + 1) == 2 * (divisor * q) + 2 * divisor) by (nonlinear_arith);
}

/// A program for the device is sent with its length, with and without its end, and
/// with its bytes, four in a word and zeros behind them.
pub proof fn shaders_are_sent_whole(handle: u32, stage: ShaderStage, source: Seq<u8>, k: int)
    requires
        source.len() < 0x1_0000,
        0 <= k,
        4 * k + 3 < source.len(),
    ensures
        ({
            let body = shader_body(handle, stage, source);
            &&& body[0] == handle
            &&& body[1] == stage.number()
            &&& body[2] == source.len() + 1
            &&& body[3] == source.len()
            &&& 4 * (body.len() - 5) >= source.len() + 1
            &&& 4 * (body.len() - 6) < source.len() + 1
            &&& body[5 + k] == u32_at(source, 4 * k)
        }),
{
    let all = terminated(source);
    assert(all[4 * k] == source[4 * k] && all[4 * k + 1] == source[4 * k + 1] && all[4 * k + 2]
        == source[4 * k + 2] && all[4 * k + 3] == source[4 * k + 3]);
    let words = text_words(all);
    assert(words[k] == text_word(all, k));
    assert(shader_body(handle, stage, source)[5 + k] == words[k]);
}

/// A texture has as many bytes as its pixels take, row by row; one without pixels,
/// or in another format, is refused.
pub proof fn textures_hold_their_pixels(width: u32, height: u32, format: u32, bind: u32)
    ensures
        pixel_bytes(1) == Some(4int),
        pixel_bytes(2) == Some(4int),
        pixel_bytes(64) == Some(1int),
        width == 0 || height == 0 ==> texture_spec(width, height, format, bind) is Err,
        pixel_bytes(format) is None ==> texture_spec(width, height, format, bind) is Err,
        pixel_bytes(format) matches Some(bytes) ==> width > 0 && height > 0 && width * bytes * height
            <= u32::MAX ==> (texture_spec(width, height, format, bind) matches Ok(made)
            && made.format == format && made.bind == bind && made.width == width && made.height
            == height && made.stride == width * bytes && made.size == made.stride * height),
{
    if let Some(bytes) = pixel_bytes(format) {
        assert(width * bytes * height == 0 <==> width == 0 || height == 0) by (nonlinear_arith)
            requires
                bytes > 0,
                width >= 0,
                height >= 0,
        ;
        assert(height > 0 ==> width * bytes <= width * bytes * height) by (nonlinear_arith)
            requires
                bytes > 0,
                width >= 0,
                height >= 0,
        ;
    }
}

/// A transfer tells what goes where.
pub proof fn transfers_tell_what_goes_where(t: Transfer)
    ensures
        t.words().len() == 11,
        t.words()[0] == t.handle,
        t.words()[1] == t.x,
        t.words()[2] == t.y,
        t.words()[4] == t.width,
        t.words()[5] == t.height,
        t.words()[8] == t.offset,
        t.words()[9] == t.stride,
        t.words()[10] == t.layer_stride,
{
}

} // verus!
