//! How much there may be of things, and the numbers that others know them by.

use vstd::prelude::*;
use crate::uapi::alsa::{fixed_interval, format_masks, hardware_layout, interval_offset};
use crate::uapi::bytes::u32_at;

verus! {

/// The sound buffer holds whole periods of whole frames: a frame is one word for
/// each of two channels, and the counter wraps at a multiple of the buffer.
pub proof fn sound_comes_in_whole_frames()
    ensures
        crate::uapi::alsa::CHANNELS == 2,
        crate::uapi::alsa::FRAME_BYTES == 4 * crate::uapi::alsa::CHANNELS,
        crate::uapi::alsa::RATE == 48_000,
        crate::uapi::alsa::PERIOD_FRAMES == 256,
        crate::uapi::alsa::BUFFER_FRAMES == 4 * crate::uapi::alsa::PERIOD_FRAMES,
        crate::uapi::alsa::BUFFER_BYTES == crate::uapi::alsa::BUFFER_FRAMES
            * crate::uapi::alsa::FRAME_BYTES,
        crate::uapi::alsa::BOUNDARY == 0x8000_0000,
        crate::uapi::alsa::BOUNDARY as int % crate::uapi::alsa::BUFFER_FRAMES as int == 0,
        crate::uapi::alsa::HW_PARAMS_BYTES == 608,
        crate::uapi::alsa::SW_PARAMS_BYTES == 136,
        crate::uapi::alsa::STATUS_BYTES == 152,
        crate::uapi::alsa::SYNC_PTR_BYTES == 136,
        crate::uapi::alsa::SYNC_APPL_OFFSET == 72,
        crate::audio::CHANNELS == 2,
        crate::audio::RENDER_FRAMES == 128,
        crate::audio::RING_CAPACITY_FRAMES == crate::audio::PREFILL_BLOCKS
            * crate::audio::RENDER_FRAMES,
        crate::audio::PREFILL_BLOCKS == 64,
        crate::audio::samples::RENDER_LIMIT == crate::audio::RENDER_FRAMES,
        crate::audio::samples::COMPACT_SAMPLES == 16384,
        crate::audio::worker::UNIT_GAIN == 0x3f80_0000,
        crate::audio::worker::DECODE_ERROR == 3,
{
}

/// Two clicks within half a second and four pixels belong together.
pub proof fn input_is_measured()
    ensures
        crate::input::DOUBLE_CLICK_NS == 500 * 1_000_000,
        crate::input::DOUBLE_CLICK_SLOP == 4,
        crate::input::BTN_RIGHT == 0x111,
        crate::input::CURSOR_DEFAULT == 0,
        crate::input::key::KEY_ENTER == 28,
        crate::input::key::KEY_SPACE == 57,
        crate::host::DEVICE_SCALE_FACTOR == 2,
        crate::renderer::OPAQUE_BLACK == 0xff00_0000,
{
}

/// What is stored and told is bounded.
pub proof fn stores_are_bounded()
    ensures
        crate::font::LAYOUT_CACHE_CAPACITY == 512,
        crate::font::raster::GLYPH_CACHE_CAPACITY == 2048,
        crate::font::gpu::MAX_ATLAS_GLYPHS == 4096,
        crate::font::gpu::ATLAS_WIDTH == 2048,
        crate::host::filesystem::MAX_ENTRIES == 1000,
        crate::host::filesystem::MAX_BYTES == 64 * 1024,
        crate::host::filesystem::MAX_COPY_DEPTH == 64,
        crate::paint::control::SCREEN_LIMIT == i32::MAX,
{
}

/// The records of the kernel have the kernel's sizes and numbers.
pub proof fn records_have_the_kernels_sizes()
    ensures
        crate::uapi::evdev::EVENT_BYTES == 8 + 8 + 2 + 2 + 4,
        crate::uapi::drm::MODE_BYTES == 68,
        crate::uapi::drm::FLIP_EVENT_BYTES == 32,
        crate::uapi::unix::CREDENTIAL_BYTES == 3 * 4,
        crate::uapi::unix::HEADER_BYTES == 8 + 4 + 4,
        crate::uapi::unix::CMSG_FD_LEN == crate::uapi::unix::HEADER_BYTES + 4,
        crate::uapi::unix::CMSG_FD_SPACE == crate::uapi::unix::CMSG_FD_LEN + 4,
        crate::uapi::unix::SOL_SOCKET == 1,
        crate::uapi::unix::SCM_RIGHTS == 1,
        crate::uapi::unix::MSG_CTRUNC == 8,
        crate::uapi::request::IOC_WRITE == 1,
        crate::uapi::request::IOC_READ == 2,
        crate::uapi::request::DRM_KIND == 'd' as int,
        crate::uapi::request::EVDEV_KIND == 'E' as int,
        crate::uapi::request::DRM_IOCTL_DROP_MASTER == crate::uapi::request::request_number(
            0,
            'd' as int,
            0x1f,
            0,
        ),
        crate::uapi::process::EXEC_STATUS_ERROR_LEN == 5 + 1 + 4,
        crate::uapi::process::DEFAULT_ERRNO == 5,
{
}

/// The commands and formats of the graphics device have its numbers.
pub proof fn commands_have_the_devices_numbers()
    ensures
        crate::uapi::virgl::command::CREATE_OBJECT == 1,
        crate::uapi::virgl::command::BIND_OBJECT == 2,
        crate::uapi::virgl::command::DESTROY_OBJECT == 3,
        crate::uapi::virgl::command::SET_VIEWPORT == 4,
        crate::uapi::virgl::command::SET_FRAMEBUFFER == 5,
        crate::uapi::virgl::command::SET_VERTEX_BUFFERS == 6,
        crate::uapi::virgl::command::CLEAR == 7,
        crate::uapi::virgl::command::DRAW_VBO == 8,
        crate::uapi::virgl::command::SET_SAMPLER_VIEWS == 10,
        crate::uapi::virgl::command::SET_CONSTANT_BUFFER == 12,
        crate::uapi::virgl::command::BIND_SAMPLER_STATES == 18,
        crate::uapi::virgl::command::BIND_SHADER == 31,
        crate::uapi::virgl::command::LINK_SHADER == 52,
        crate::uapi::virgl::command::ONE_BITS == 127 * 0x80_0000,
        crate::uapi::virgl::command::HALF_BITS == 126 * 0x80_0000,
        crate::uapi::virgl::CAPSET_VIRGL2 == 2,
        crate::uapi::virgl::CAPSET_VIRGL2_VERSION == 2,
        crate::uapi::virgl::CAPSET_BYTES == 4096,
        crate::uapi::virgl::CONTEXT_PARAM_CAPSET_ID == 1,
        crate::uapi::virgl::CONTEXT_PARAM_DEBUG_NAME == 4,
        crate::uapi::virgl::WAIT_NOWAIT == 1,
        crate::uapi::virgl::PIPE_TEXTURE_2D == 2,
        crate::uapi::virgl::PIPE_BUFFER == 0,
        crate::uapi::virgl::FORMAT_B8G8R8A8_UNORM == 1,
        crate::uapi::virgl::FORMAT_B8G8R8X8_UNORM == 2,
        crate::uapi::virgl::FORMAT_R8_UNORM == 64,
        crate::uapi::virgl::BIND_RENDER_TARGET == 0x2,
        crate::uapi::virgl::BIND_SAMPLER_VIEW == 0x8,
        crate::uapi::virgl::BIND_VERTEX_BUFFER == 0x10,
        crate::uapi::virgl::BIND_DISPLAY_TARGET == 0x100,
        crate::uapi::virgl::BIND_SCANOUT == 0x4000,
        crate::uapi::virgl::RESOURCE_Y_0_TOP == 1,
{
}

proof fn other_words_stay(bytes: Seq<u8>, parameter: int, value: int, at: int)
    requires
        8 <= parameter,
        260 + 12 * (parameter - 8) + 12 <= bytes.len(),
        0 <= at,
        at + 4 <= 260 + 12 * (parameter - 8),
    ensures
        u32_at(fixed_interval(bytes, parameter, value), at) == u32_at(bytes, at),
        fixed_interval(bytes, parameter, value).len() == bytes.len(),
{
    let start = interval_offset(parameter);
    assert(start == 260 + 12 * (parameter - 8));
    let after = fixed_interval(bytes, parameter, value);
    assert(forall|i: int| 0 <= i < start ==> after[i] == bytes[i]);
}

/// The sound device is asked for words of thirty-two bits in frames of sixty-four,
/// for the rate and the channels that are played, and for the periods and the
/// buffer that are filled.
pub proof fn the_sound_device_is_asked_for_its_format()
    ensures
        hardware_layout().len() == 608,
        u32_at(hardware_layout(), 260) == 32,
        u32_at(hardware_layout(), 272) == 64,
        u32_at(hardware_layout(), 284) == 2,
        u32_at(hardware_layout(), 296) == 48_000,
        u32_at(hardware_layout(), 320) == 256,
        u32_at(hardware_layout(), 332) == 256 * 8,
        u32_at(hardware_layout(), 344) == 4,
        u32_at(hardware_layout(), 368) == 1024,
        u32_at(hardware_layout(), 380) == 1024 * 8,
{
    let a = fixed_interval(format_masks(), 8, 32);
    let b = fixed_interval(a, 9, 64);
    let c = fixed_interval(b, 10, 2);
    let d = fixed_interval(c, 11, 48_000);
    let e = fixed_interval(d, 13, 256);
    let f = fixed_interval(e, 14, 2048);
    let g = fixed_interval(f, 15, 4);
    let h = fixed_interval(g, 17, 1024);
    assert(format_masks().len() == 608);
    crate::laws::wires::parameters_are_fixed(format_masks(), 8, 32, 0);
    crate::laws::wires::parameters_are_fixed(a, 9, 64, 0);
    crate::laws::wires::parameters_are_fixed(b, 10, 2, 0);
    crate::laws::wires::parameters_are_fixed(c, 11, 48_000, 0);
    crate::laws::wires::parameters_are_fixed(d, 13, 256, 0);
    crate::laws::wires::parameters_are_fixed(e, 14, 2048, 0);
    crate::laws::wires::parameters_are_fixed(f, 15, 4, 0);
    crate::laws::wires::parameters_are_fixed(g, 17, 1024, 0);
    crate::laws::wires::parameters_are_fixed(h, 18, 8192, 0);
    other_words_stay(a, 9, 64, 260);
    words_up_to_nine(b, 260);
    words_up_to_nine(b, 272);
    words_up_to_ten(c, 284);
    words_up_to_eleven(d, 296);
    other_words_stay(e, 14, 2048, 320);
    other_words_stay(f, 15, 4, 320);
    other_words_stay(g, 17, 1024, 320);
    other_words_stay(h, 18, 8192, 320);
    other_words_stay(f, 15, 4, 332);
    other_words_stay(g, 17, 1024, 332);
    other_words_stay(h, 18, 8192, 332);
    other_words_stay(g, 17, 1024, 344);
    other_words_stay(h, 18, 8192, 344);
    other_words_stay(h, 18, 8192, 368);
}

proof fn words_up_to_nine(b: Seq<u8>, at: int)
    requires
        b.len() == 608,
        0 <= at,
        at + 4 <= 284,
    ensures
        ({
            let c = fixed_interval(b, 10, 2);
            let d = fixed_interval(c, 11, 48_000);
            let e = fixed_interval(d, 13, 256);
            let f = fixed_interval(e, 14, 2048);
            let g = fixed_interval(f, 15, 4);
            let h = fixed_interval(g, 17, 1024);
            u32_at(fixed_interval(h, 18, 8192), at) == u32_at(b, at)
        }),
{
    let c = fixed_interval(b, 10, 2);
    other_words_stay(b, 10, 2, at);
    words_up_to_ten(c, at);
}

proof fn words_up_to_ten(c: Seq<u8>, at: int)
    requires
        c.len() == 608,
        0 <= at,
        at + 4 <= 296,
    ensures
        ({
            let d = fixed_interval(c, 11, 48_000);
            let e = fixed_interval(d, 13, 256);
            let f = fixed_interval(e, 14, 2048);
            let g = fixed_interval(f, 15, 4);
            let h = fixed_interval(g, 17, 1024);
            u32_at(fixed_interval(h, 18, 8192), at) == u32_at(c, at)
        }),
{
    let d = fixed_interval(c, 11, 48_000);
    other_words_stay(c, 11, 48_000, at);
    words_up_to_eleven(d, at);
}

proof fn words_up_to_eleven(d: Seq<u8>, at: int)
    requires
        d.len() == 608,
        0 <= at,
        at + 4 <= 308,
    ensures
        ({
            let e = fixed_interval(d, 13, 256);
            let f = fixed_interval(e, 14, 2048);
            let g = fixed_interval(f, 15, 4);
            let h = fixed_interval(g, 17, 1024);
            u32_at(fixed_interval(h, 18, 8192), at) == u32_at(d, at)
        }),
{
    let e = fixed_interval(d, 13, 256);
    let f = fixed_interval(e, 14, 2048);
    let g = fixed_interval(f, 15, 4);
    let h = fixed_interval(g, 17, 1024);
    other_words_stay(d, 13, 256, at);
    other_words_stay(e, 14, 2048, at);
    other_words_stay(f, 15, 4, at);
    other_words_stay(g, 17, 1024, at);
    other_words_stay(h, 18, 8192, at);
}

} // verus!
