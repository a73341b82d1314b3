//! What script is told of files.

use vstd::prelude::*;
use vstd::string::*;
use vstd::utf8::*;
use crate::host::filesystem::{
    capacity_text, code_of, content_of, creates, file_size, hex_digit, json_char, json_chars,
    json_string, list_text, listed, listing_of, mutation_text, outcome_text, part_bytes, read_text,
    revokes, total_bytes, type_of_extension, type_of_path, unit_of, Code, EntryKind, EntryMetadata,
    FilesView, IoKind, RangeView, Probe, RawEntry, Statistics,
};
use crate::host::path::{behind_last, path_extension, path_file_name};
use crate::text::lower;

verus! {

/// A text is quoted piece by piece.
pub proof fn quoting_goes_piece_by_piece(a: Seq<char>, b: Seq<char>)
    ensures
        json_chars(a + b) == json_chars(a) + json_chars(b),
        json_string(a).len() == json_chars(a).len() + 2,
        json_string(a)[0] == '"',
        json_string(a).last() == '"',
        json_string(a).subrange(1, json_string(a).len() - 1) == json_chars(a),
    decreases b.len(),
{
    assert(json_string(a).subrange(1, json_string(a).len() - 1) =~= json_chars(a));
    if b.len() == 0 {
        assert(a + b =~= a);
        assert(json_chars(a) + json_chars(b) =~= json_chars(a));
    } else {
        quoting_goes_piece_by_piece(a, b.drop_last());
        assert((a + b).drop_last() =~= a + b.drop_last());
        assert((a + b).last() == b.last());
        assert(json_chars(a) + (json_chars(b.drop_last()) + json_char(b.last())) =~= (json_chars(a)
            + json_chars(b.drop_last())) + json_char(b.last()));
    }
}

/// A quoted character stands for itself unless it is a quote, a backslash or a
/// control character; those start with a backslash. No control character is left.
pub proof fn special_characters_are_escaped(c: char, i: int)
    ensures
        c != '"' && c != '\\' && c as u32 >= 32 ==> json_char(c) == seq![c],
        c == '"' || c == '\\' ==> json_char(c) == seq!['\\', c],
        json_char('\n') == seq!['\\', 'n'],
        json_char('\t') == seq!['\\', 't'],
        json_char('\r') == seq!['\\', 'r'],
        c as u32 <= 31 ==> json_char(c).len() >= 2 && json_char(c)[0] == '\\',
        c as u32 <= 31 && json_char(c).len() > 2 ==> json_char(c).len() == 6 && json_char(c)[1] == 'u'
            && json_char(c)[2] == '0' && json_char(c)[3] == '0' && json_char(c)[4] == hex_digit(
            c as u32 as int / 16,
        ) && json_char(c)[5] == hex_digit(c as u32 as int % 16),
        0 <= i < json_char(c).len() ==> json_char(c)[i] as u32 >= 32,
{
}

/// Failures have names of their own, and those of the system.
pub proof fn failures_have_names(a: IoKind, b: IoKind)
    ensures
        a != b ==> code_of(a) != code_of(b),
        code_of(IoKind::NotFound).label() == "ENOENT"@,
        code_of(IoKind::PermissionDenied).label() == "EACCES"@,
        code_of(IoKind::NotADirectory).label() == "ENOTDIR"@,
        code_of(IoKind::AlreadyExists).label() == "EEXIST"@,
        code_of(IoKind::DirectoryNotEmpty).label() == "ENOTEMPTY"@,
        code_of(IoKind::Other).label() == "IO"@,
        Code::Einval.label() == "EINVAL"@,
        Code::Eisdir.label() == "EISDIR"@,
        Code::NotText.label() == "not-text"@,
{
}

/// A path that does not start at the root is refused, whatever is on the disk.
pub proof fn relative_paths_are_refused(
    path: Seq<char>,
    probe: Probe,
    bytes: Result<Seq<u8>, IoKind>,
    raw: Result<Seq<RawEntry>, IoKind>,
    found: Result<Statistics, IoKind>,
)
    requires
        path.len() == 0 || path[0] != '/',
    ensures
        file_size(path, probe) == Err::<u64, Code>(Code::Einval),
        read_text(path, probe, bytes) == outcome_text(path, Some(Code::Einval)),
        list_text(path, raw) == outcome_text(path, Some(Code::Einval)),
        capacity_text(path, found) == outcome_text(path, Some(Code::Einval)),
{
}

/// A regular file has its size; a directory is told as one, and a failure as what
/// it is.
pub proof fn files_are_told_from_directories(path: Seq<char>, n: u64, kind: IoKind)
    requires
        path.len() > 0,
        path[0] == '/',
    ensures
        file_size(path, Probe::File(n)) == Ok::<u64, Code>(n),
        file_size(path, Probe::Directory) == Err::<u64, Code>(Code::Eisdir),
        file_size(path, Probe::Failed(kind)) == Err::<u64, Code>(code_of(kind)),
        read_text(path, Probe::Directory, Ok(Seq::empty())) == outcome_text(
            path,
            Some(Code::Eisdir),
        ),
        read_text(path, Probe::File(n), Err(kind)) == outcome_text(path, Some(code_of(kind))),
{
}

/// The bytes of a filesystem are its blocks times their size: all of them, those
/// that are not free, and those that may be taken.
pub proof fn capacity_counts_blocks(s: Statistics)
    requires
        s.free_blocks <= s.blocks,
        s.available_blocks <= s.blocks,
        s.blocks * (if s.fragment_size == 0 {
            s.block_size as int
        } else {
            s.fragment_size as int
        }) <= u64::MAX,
    ensures
        ({
            let unit = if s.fragment_size == 0 {
                s.block_size as int
            } else {
                s.fragment_size as int
            };
            &&& total_bytes(s) == s.blocks * unit
            &&& total_bytes(s) - part_bytes(s, s.free_blocks) == (s.blocks - s.free_blocks) * unit
            &&& part_bytes(s, s.available_blocks) == s.available_blocks * unit
        }),
{
    let unit = unit_of(s);
    let blocks = s.blocks as int;
    let free = s.free_blocks as int;
    let available = s.available_blocks as int;
    assert(0 <= free * unit <= blocks * unit && 0 <= available * unit <= blocks * unit && (blocks
        - free) * unit == blocks * unit - free * unit) by (nonlinear_arith)
        requires
            0 <= free <= blocks,
            0 <= available <= blocks,
            0 <= unit,
    ;
}

/// An entry is listed with its own name and as what it is: a link even if it leads
/// to a directory, a directory without a size, everything else with its own.
pub proof fn entries_are_listed_as_they_are(name: Seq<char>, m: EntryMetadata)
    ensures
        listed(name, m).name == name,
        m.is_symlink ==> listed(name, m).kind == EntryKind::Symlink,
        !m.is_symlink && m.is_dir ==> listed(name, m).kind == EntryKind::Directory && listed(
            name,
            m,
        ).size == 0,
        !m.is_symlink && !m.is_dir && m.is_file ==> listed(name, m).kind == EntryKind::File
            && listed(name, m).size == m.length,
        !m.is_symlink && !m.is_dir && !m.is_file ==> listed(name, m).kind == EntryKind::Other,
        m.modified matches Some(t) ==> listed(name, m).mtime == t,
        m.modified is None ==> listed(name, m).mtime == 0,
{
}

/// Up to a thousand readable entries are listed completely and in order; of more,
/// the first thousand are, and the rest is told to be missing.
pub proof fn listings_are_complete_up_to_the_limit(raw: Seq<RawEntry>, n: int)
    requires
        0 <= n <= raw.len(),
        forall|i: int| 0 <= i < n ==> (#[trigger] raw[i]).metadata is Some,
    ensures
        n <= 1000 ==> !listing_of(raw, n).1 && listing_of(raw, n).0.len() == n,
        n > 1000 ==> listing_of(raw, n).1 && listing_of(raw, n).0.len() == 1000,
        forall|i: int|
            0 <= i < listing_of(raw, n).0.len() ==> #[trigger] listing_of(raw, n).0[i] == listed(
                raw[i].name@,
                raw[i].metadata->0,
            ),
    decreases n,
{
    if n > 0 {
        listings_are_complete_up_to_the_limit(raw, n - 1);
        assert(raw[n - 1].metadata is Some);
    }
}

/// An entry that cannot be read is left out and changes nothing else.
pub proof fn unreadable_entries_are_left_out(raw: Seq<RawEntry>, n: int)
    requires
        0 < n <= raw.len(),
        raw[n - 1].metadata is None,
    ensures
        listing_of(raw, n).0 == listing_of(raw, n - 1).0,
{
}

/// Text that fits is given whole and said to be whole; longer text is cut and said
/// to be cut; bytes that are no text are not given.
pub proof fn contents_are_given_as_text(text: Seq<char>, bytes: Seq<u8>)
    ensures
        encode_utf8(text).len() <= 65536 ==> content_of(encode_utf8(text)) == Some((text, false)),
        content_of(bytes) matches Some(content) ==> content.1 == (bytes.len() > 65536),
        bytes.len() <= 65536 && !valid_utf8(bytes) ==> content_of(bytes) is None,
        bytes.len() > 65536 && valid_utf8(bytes) ==> content_of(bytes) is Some,
{
    encode_utf8_valid_utf8(text);
    encode_utf8_decode_utf8(text);
}

proof fn behind_the_last_mark(a: Seq<char>, mark: char, b: Seq<char>)
    requires
        forall|i: int| 0 <= i < b.len() ==> b[i] != mark,
    ensures
        behind_last(a + seq![mark] + b, mark) == a.len() + 1,
        behind_last(b, mark) == 0,
    decreases b.len(),
{
    let all = a + seq![mark] + b;
    if b.len() == 0 {
        assert(all.last() == mark);
    } else {
        let front = b.drop_last();
        behind_the_last_mark(a, mark, front);
        assert(all.last() == b.last());
        assert(b[b.len() - 1] != mark);
        assert(all.drop_last() =~= a + seq![mark] + front);
    }
}

/// The name of a path is what stands behind its last slash; a slash at the end,
/// and a dot behind it, change nothing.
pub proof fn names_stand_behind_the_last_slash(directory: Seq<char>, name: Seq<char>)
    requires
        name.len() > 0,
        forall|i: int| 0 <= i < name.len() ==> name[i] != '/',
        name != seq!['.'],
        name != seq!['.', '.'],
    ensures
        path_file_name(directory + seq!['/'] + name) == Some(name),
        path_file_name(name) == Some(name),
        path_file_name(directory + seq!['/'] + name + seq!['/']) == Some(name),
        path_file_name(directory + seq!['/'] + name + seq!['/', '.']) == Some(name),
        path_file_name(directory + seq!['/', '.', '.']) is None,
        path_file_name(seq!['/']) is None,
        path_file_name(Seq::empty()) is None,
{
    let all = directory + seq!['/'] + name;
    let none = Seq::<char>::empty();
    behind_the_last_mark(directory, '/', name);
    assert(all.skip(directory.len() as int + 1) =~= name);
    assert(name.skip(0) =~= name);
    let slash = all + seq!['/'];
    behind_the_last_mark(all, '/', none);
    assert(all + seq!['/'] + none =~= slash);
    assert(slash.skip(slash.len() as int) =~= none);
    assert(slash.take(slash.len() - 1) =~= all);
    let dot = seq!['.'];
    let dotted = all + seq!['/', '.'];
    behind_the_last_mark(all, '/', dot);
    assert(all + seq!['/'] + dot =~= dotted);
    assert(dotted.skip(all.len() as int + 1) =~= dot);
    assert(dotted.take(all.len() as int) =~= all);
    let two = seq!['.', '.'];
    let parent = directory + seq!['/', '.', '.'];
    behind_the_last_mark(directory, '/', two);
    assert(directory + seq!['/'] + two =~= parent);
    assert(parent.skip(directory.len() as int + 1) =~= two);
    assert(two.len() == 2 && dot.len() == 1);
    let root = seq!['/'];
    behind_the_last_mark(none, '/', none);
    assert(none + seq!['/'] + none =~= root);
    assert(root.skip(1) =~= none);
    assert(root.take(0) =~= none);
    assert(none.skip(0) =~= none);
    assert(path_file_name(none) is None);
}

/// The extension of a name is what stands behind its last dot, if something
/// stands before it.
pub proof fn extensions_stand_behind_the_last_dot(stem: Seq<char>, extension: Seq<char>)
    requires
        stem.len() > 0,
        forall|i: int| 0 <= i < stem.len() ==> stem[i] != '/',
        forall|i: int| 0 <= i < extension.len() ==> extension[i] != '/' && extension[i] != '.',
        extension.len() > 0,
    ensures
        path_extension(seq!['/'] + stem + seq!['.'] + extension) == Some(extension),
        path_extension(seq!['/', '.'] + extension) is None,
        path_extension(seq!['/'] + extension) is None,
{
    let name = stem + seq!['.'] + extension;
    let none = Seq::<char>::empty();
    assert forall|i: int| 0 <= i < name.len() implies name[i] != '/' by {
        if i < stem.len() {
            assert(name[i] == stem[i]);
        } else if i > stem.len() {
            assert(name[i] == extension[i - stem.len() - 1]);
        }
    }
    assert(name.last() == extension.last());
    assert(extension[extension.len() - 1] != '.');
    assert(name != seq!['.'] && name != seq!['.', '.']) by {
        assert(seq!['.'].last() == '.' && seq!['.', '.'].last() == '.');
    }
    names_stand_behind_the_last_slash(none, name);
    assert(none + seq!['/'] + name =~= seq!['/'] + stem + seq!['.'] + extension);
    behind_the_last_mark(stem, '.', extension);
    assert(name.skip(stem.len() as int + 1) =~= extension);
    let hidden = seq!['.'] + extension;
    assert forall|i: int| 0 <= i < hidden.len() implies hidden[i] != '/' by {
        if i > 0 {
            assert(hidden[i] == extension[i - 1]);
        }
    }
    assert(hidden.last() == extension.last());
    assert(hidden != seq!['.'] && hidden != seq!['.', '.']) by {
        assert(seq!['.'].last() == '.' && seq!['.', '.'].last() == '.');
    }
    names_stand_behind_the_last_slash(none, hidden);
    assert(none + seq!['/'] + hidden =~= seq!['/', '.'] + extension);
    behind_the_last_mark(none, '.', extension);
    assert(none + seq!['.'] + extension =~= hidden);
    assert(extension != seq!['.'] && extension != seq!['.', '.']) by {
        assert(seq!['.'].last() == '.' && seq!['.', '.'].last() == '.');
    }
    names_stand_behind_the_last_slash(none, extension);
    assert(none + seq!['/'] + extension =~= seq!['/'] + extension);
}

/// The media type of a file goes by its extension, in whatever case it is written.
pub proof fn types_go_by_the_extension(a: Seq<char>, b: Seq<char>)
    requires
        path_extension(a) matches Some(x) && path_extension(b) matches Some(y) && x.len() == y.len()
            && forall|i: int| 0 <= i < x.len() ==> lower(#[trigger] x[i]) == lower(y[i]),
    ensures
        type_of_path(a) == type_of_path(b),
        type_of_extension(Some("mp3"@)) == "audio/mpeg"@,
        type_of_extension(Some("wav"@)) == "audio/wav"@,
        type_of_extension(Some("flac"@)) == "audio/flac"@,
        type_of_extension(Some("ogg"@)) == "audio/ogg"@,
        type_of_extension(Some("m4a"@)) == "audio/mp4"@,
        type_of_extension(Some("webm"@)) == "audio/webm"@,
        type_of_extension(None) == "application/octet-stream"@,
{
    let x = path_extension(a)->0;
    let y = path_extension(b)->0;
    assert(crate::host::filesystem::lowered(x) =~= crate::host::filesystem::lowered(y));
    reveal_strlit("wav");
    reveal_strlit("aiff");
    reveal_strlit("aif");
    reveal_strlit("caf");
    reveal_strlit("flac");
    reveal_strlit("mp1");
    reveal_strlit("mp2");
    reveal_strlit("mp3");
    reveal_strlit("ogg");
    reveal_strlit("oga");
    reveal_strlit("m4a");
    reveal_strlit("mp4");
    reveal_strlit("mka");
    reveal_strlit("webm");
    assert("wav"@.len() == 3 && "aiff"@.len() == 4 && "aif"@.len() == 3 && "caf"@.len() == 3
        && "flac"@.len() == 4 && "mp1"@.len() == 3 && "mp2"@.len() == 3 && "mp3"@.len() == 3
        && "ogg"@.len() == 3 && "oga"@.len() == 3 && "m4a"@.len() == 3 && "mp4"@.len() == 3
        && "mka"@.len() == 3 && "webm"@.len() == 4);
    assert("wav"@[0] == 'w' && "aif"@[0] == 'a' && "caf"@[0] == 'c' && "mp1"@[0] == 'm' && "ogg"@[0]
        == 'o' && "m4a"@[0] == 'm' && "mp3"@[0] == 'm' && "mp2"@[0] == 'm' && "oga"@[0] == 'o');
    assert("mp1"@[2] == '1' && "mp2"@[2] == '2' && "mp3"@[2] == '3' && "m4a"@[1] == '4' && "mp1"@[1]
        == 'p' && "mp2"@[1] == 'p' && "mp3"@[1] == 'p');
    assert("aiff"@[0] == 'a' && "flac"@[0] == 'f' && "webm"@[0] == 'w');
    assert("mp4"@[1] == 'p' && "mka"@[1] == 'k' && "mp4"@[2] == '4');
}

/// A new address has a number that no address had before, and stands for its own
/// part of a file; the others stay what they are. One that is taken back is gone.
pub proof fn addresses_are_never_given_twice(
    before: FilesView,
    range: RangeView,
    after: FilesView,
    other: u64,
)
    requires
        before.wf(),
    ensures
        creates(before, range, after) ==> {
            &&& !before.ranges.contains_key(after.last)
            &&& after.last > before.last
            &&& after.ranges.contains_key(after.last)
            &&& after.ranges[after.last]@ == range
            &&& before.ranges.contains_key(other) ==> after.ranges.contains_key(other)
                && after.ranges[other] == before.ranges[other]
        },
        revokes(before, other, after) ==> {
            &&& before.ranges.contains_key(other)
            &&& !after.ranges.contains_key(other)
            &&& after.last == before.last
            &&& forall|n: u64|
                n != other ==> #[trigger] after.ranges.contains_key(n)
                    == before.ranges.contains_key(n)
        },
{
    if creates(before, range, after) && before.ranges.contains_key(other) {
        assert(after.ranges.remove(after.last).contains_key(other));
    }
}

/// A change that was made is told with its path alone, and one that failed with
/// what went wrong.
pub proof fn changes_are_answered(path: Seq<char>, kind: IoKind)
    ensures
        mutation_text(path, Ok(())) == outcome_text(path, None),
        mutation_text(path, Err(kind)) == outcome_text(path, Some(code_of(kind))),
        outcome_text(path, None) == "{\"path\":"@ + json_string(path) + "}"@,
        outcome_text(path, Some(code_of(kind))) == "{\"path\":"@ + json_string(path)
            + ",\"error\":"@ + json_string(code_of(kind).label()) + "}"@,
{
}

} // verus!
