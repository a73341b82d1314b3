//! Bounded filesystem capabilities exposed only to app sessions.
//!
//! The event loop touches the disk and hands over what it found; every decision
//! on it, and the text that script reads, is made here.

use std::collections::BTreeMap;
use vstd::prelude::*;
use vstd::string::*;
use vstd::utf8::*;
use crate::host::path::{extension, file_name, owned_view, path_extension, path_file_name};
use crate::text::{
    at_most, chars_of, decimal, decimal_text, lower, occurs_at, parse_u64, same, starts_with,
    string_of, strip_prefix, to_lower, unsigned_value,
};

verus! {

broadcast use {vstd::std_specs::btree::group_btree_axioms, vstd::utf8::encode_utf8_valid_utf8};

/// Most entries that one directory listing holds.
pub const MAX_ENTRIES: usize = 1000;

/// Most bytes of a text file that script is given.
pub const MAX_BYTES: usize = 65536;

/// Copy-recursion depth ceiling.
pub const MAX_COPY_DEPTH: usize = 64;

/// A stable error name.
#[derive(Clone, Copy, Debug, PartialEq, Eq, Structural)]
pub enum Code {
    Einval,
    Enoent,
    Eacces,
    Enotdir,
    Eexist,
    Enotempty,
    Eisdir,
    Emfile,
    Io,
    NotText,
}

impl Code {
    /// The name that script reads.
    pub open spec fn label(self) -> Seq<char> {
        match self {
            Code::Einval => "EINVAL"@,
            Code::Enoent => "ENOENT"@,
            Code::Eacces => "EACCES"@,
            Code::Enotdir => "ENOTDIR"@,
            Code::Eexist => "EEXIST"@,
            Code::Enotempty => "ENOTEMPTY"@,
            Code::Eisdir => "EISDIR"@,
            Code::Emfile => "EMFILE"@,
            Code::Io => "IO"@,
            Code::NotText => "not-text"@,
        }
    }

    /// Writes the name.
    pub fn name(self) -> (result: &'static str)
        ensures
            result@ == self.label(),
    {
        match self {
            Code::Einval => "EINVAL",
            Code::Enoent => "ENOENT",
            Code::Eacces => "EACCES",
            Code::Enotdir => "ENOTDIR",
            Code::Eexist => "EEXIST",
            Code::Enotempty => "ENOTEMPTY",
            Code::Eisdir => "EISDIR",
            Code::Emfile => "EMFILE",
            Code::Io => "IO",
            Code::NotText => "not-text",
        }
    }
}

/// How a filesystem call failed.
#[derive(Clone, Copy, Debug, PartialEq, Eq, Structural)]
pub enum IoKind {
    NotFound,
    PermissionDenied,
    NotADirectory,
    AlreadyExists,
    DirectoryNotEmpty,
    Other,
}

/// The name of a failure.
pub open spec fn code_of(kind: IoKind) -> Code {
    match kind {
        IoKind::NotFound => Code::Enoent,
        IoKind::PermissionDenied => Code::Eacces,
        IoKind::NotADirectory => Code::Enotdir,
        IoKind::AlreadyExists => Code::Eexist,
        IoKind::DirectoryNotEmpty => Code::Enotempty,
        IoKind::Other => Code::Io,
    }
}

/// Names a failure.
pub fn io_error_code(kind: IoKind) -> (result: Code)
    ensures
        result == code_of(kind),
{
    match kind {
        IoKind::NotFound => Code::Enoent,
        IoKind::PermissionDenied => Code::Eacces,
        IoKind::NotADirectory => Code::Enotdir,
        IoKind::AlreadyExists => Code::Eexist,
        IoKind::DirectoryNotEmpty => Code::Enotempty,
        IoKind::Other => Code::Io,
    }
}

/// The path is absolute.
pub open spec fn absolute(path: Seq<char>) -> bool {
    path.len() > 0 && path[0] == '/'
}

/// Whether a path is absolute.
pub fn is_absolute(path: &str) -> (result: bool)
    ensures
        result == absolute(path@),
{
    proof {
        reveal_strlit("/");
        assert("/"@ =~= seq!['/']);
        if path@.len() > 0 {
            assert(path@.subrange(0, 1) =~= seq![path@[0]]);
            assert(seq![path@[0]][0] == path@[0]);
            assert("/"@[0] == '/');
        }
    }
    starts_with(path, "/")
}

/// A hexadecimal digit in lower case.
pub open spec fn hex_digit(n: int) -> char {
    if n < 10 {
        (48 + n) as u8 as char
    } else {
        (87 + n) as u8 as char
    }
}

/// A character inside a JSON string literal: quotes, backslashes and control
/// characters are escaped.
pub open spec fn json_char(c: char) -> Seq<char> {
    let code = c as u32 as int;
    if c == '"' || c == '\\' {
        seq!['\\', c]
    } else if code == 8 {
        seq!['\\', 'b']
    } else if code == 9 {
        seq!['\\', 't']
    } else if code == 10 {
        seq!['\\', 'n']
    } else if code == 12 {
        seq!['\\', 'f']
    } else if code == 13 {
        seq!['\\', 'r']
    } else if code < 32 {
        seq!['\\', 'u', '0', '0', hex_digit(code / 16), hex_digit(code % 16)]
    } else {
        seq![c]
    }
}

/// The characters of a text inside a JSON string literal.
pub open spec fn json_chars(text: Seq<char>) -> Seq<char>
    decreases text.len(),
{
    if text.len() == 0 {
        Seq::empty()
    } else {
        json_chars(text.drop_last()) + json_char(text.last())
    }
}

/// The JSON string literal of a text.
pub open spec fn json_string(text: Seq<char>) -> Seq<char> {
    seq!['"'] + json_chars(text) + seq!['"']
}

/// `serde_json::to_string` of a text writes its JSON string literal: the text
/// between quotes, with a short escape for quotes, backslashes and five control
/// characters, and a four-digit escape for the other characters below the space.
#[verifier::external_body]
pub(crate) fn quote(text: &str) -> (result: String)
    ensures
        result@ == json_string(text@),
{
    serde_json::to_string(text).unwrap_or_default()
}

/// What a path lookup found, following links.
#[derive(Clone, Copy, Debug, PartialEq, Eq, Structural)]
pub enum Probe {
    Failed(IoKind),
    /// A directory.
    Directory,
    /// Neither a directory nor a regular file.
    Special,
    /// A regular file of this many bytes.
    File(u64),
}

/// The size of a regular file at an absolute path, or why there is none.
pub open spec fn file_size(path: Seq<char>, probe: Probe) -> Result<u64, Code> {
    if !absolute(path) {
        Err(Code::Einval)
    } else {
        match probe {
            Probe::Failed(kind) => Err(code_of(kind)),
            Probe::File(length) => Ok(length),
            _ => Err(Code::Eisdir),
        }
    }
}

/// Checks that a path is absolute and names a regular file.
pub fn file_metadata(path: &str, probe: Probe) -> (result: Result<u64, Code>)
    ensures
        result == file_size(path@, probe),
{
    if !is_absolute(path) {
        return Err(Code::Einval);
    }
    match probe {
        Probe::Failed(kind) => Err(io_error_code(kind)),
        Probe::File(length) => Ok(length),
        _ => Err(Code::Eisdir),
    }
}

/// One range of one file.
pub struct FileRange {
    pub path: String,
    pub offset: u64,
    pub length: u64,
}

/// What a [`FileRange`] holds.
pub struct RangeView {
    pub path: Seq<char>,
    pub offset: u64,
    pub length: u64,
}

impl View for FileRange {
    type V = RangeView;

    open spec fn view(&self) -> RangeView {
        RangeView { path: self.path@, offset: self.offset, length: self.length }
    }
}

/// The number in an object URL.
pub open spec fn url_number(source: Seq<char>) -> Option<u64> {
    if occurs_at(source, "blob:lite/"@, 0) {
        match at_most(unsigned_value(source.subrange(10, source.len() as int)), u64::MAX as int) {
            Some(n) => if n > 0 {
                Some(n as u64)
            } else {
                None
            },
            None => None,
        }
    } else {
        None
    }
}

/// Reads the number of an object URL.
pub fn object_url_identity(source: &str) -> (result: Result<u64, Code>)
    ensures
        match result {
            Ok(n) => url_number(source@) == Some(n),
            Err(code) => url_number(source@) is None && code == Code::Einval,
        },
{
    proof {
        reveal_strlit("blob:lite/");
    }
    match strip_prefix(source, "blob:lite/") {
        Some(rest) => match parse_u64(rest) {
            Some(n) => if n > 0 {
                Ok(n)
            } else {
                Err(Code::Einval)
            },
            None => Err(Code::Einval),
        },
        None => Err(Code::Einval),
    }
}

/// The object URL of a number.
pub open spec fn url_text(object: nat) -> Seq<char> {
    "blob:lite/"@ + decimal(object)
}

/// Live object URLs and what they stand for.
pub struct Files {
    next_object_url: u64,
    object_urls: BTreeMap<u64, FileRange>,
}

/// What a [`Files`] holds.
pub struct FilesView {
    /// The number last given out.
    pub last: u64,
    /// The ranges of the live URLs.
    pub ranges: Map<u64, FileRange>,
}

impl View for Files {
    type V = FilesView;

    closed spec fn view(&self) -> FilesView {
        FilesView { last: self.next_object_url, ranges: self.object_urls@ }
    }
}

impl FilesView {
    /// No live URL has a number that was not given out yet.
    pub open spec fn wf(self) -> bool {
        forall|n: u64| #[trigger] self.ranges.contains_key(n) ==> 0 < n <= self.last
    }
}

impl Default for Files {
    /// No URL was created yet.
    fn default() -> (result: Self)
        ensures
            result@.wf(),
            result@.last == 0,
            result@.ranges == Map::<u64, FileRange>::empty(),
    {
        Files { next_object_url: 0, object_urls: BTreeMap::new() }
    }
}

impl Files {
    /// Creates one opaque URL for a range of a regular file.
    pub fn create_object_url(&mut self, path: &str, offset: u64, length: u64, probe: Probe) -> (result:
        Result<String, Code>)
        requires
            old(self)@.wf(),
        ensures
            final(self)@.wf(),
            match result {
                Err(code) => {
                    &&& final(self)@ == old(self)@
                    &&& match file_size(path@, probe) {
                        Err(reason) => code == reason,
                        Ok(size) => if offset + length > size {
                            code == Code::Einval
                        } else {
                            old(self)@.last == u64::MAX && code == Code::Emfile
                        },
                    }
                },
                Ok(url) => {
                    let object = (old(self)@.last + 1) as u64;
                    &&& file_size(path@, probe) matches Ok(size) && offset + length <= size
                    &&& old(self)@.last < u64::MAX
                    &&& url@ == url_text(object as nat)
                    &&& creates(
                        old(self)@,
                        RangeView { path: path@, offset, length },
                        final(self)@,
                    )
                },
            },
    {
        let size: u64 = match file_metadata(path, probe) {
            Ok(size) => size,
            Err(code) => return Err(code),
        };
        let end: u64 = match offset.checked_add(length) {
            Some(end) => end,
            None => return Err(Code::Einval),
        };
        if end > size {
            return Err(Code::Einval);
        }
        if self.next_object_url == 0xffff_ffff_ffff_ffff {
            return Err(Code::Emfile);
        }
        let ghost before = self@;
        self.next_object_url = self.next_object_url + 1;
        let object: u64 = self.next_object_url;
        let range = FileRange { path: path.to_owned(), offset, length };
        self.object_urls.insert(object, range);
        assert(!before.ranges.contains_key(object));
        assert(self@.ranges.remove(object) =~= before.ranges);
        let mut url = "blob:lite/".to_owned();
        url.append(decimal_text(object).as_str());
        Ok(url)
    }

    /// Revokes exactly one URL.
    pub fn revoke_object_url(&mut self, source: &str) -> (result: Result<(), Code>)
        requires
            old(self)@.wf(),
        ensures
            final(self)@.wf(),
            match result {
                Err(code) => {
                    &&& final(self)@ == old(self)@
                    &&& match url_number(source@) {
                        None => code == Code::Einval,
                        Some(n) => code == Code::Enoent && !old(self)@.ranges.contains_key(n),
                    }
                },
                Ok(_) => {
                    url_number(source@) matches Some(n) && revokes(old(self)@, n, final(self)@)
                },
            },
    {
        let object: u64 = match object_url_identity(source) {
            Ok(object) => object,
            Err(code) => return Err(code),
        };
        let removed = self.object_urls.remove(&object);
        assert forall|n: u64| #[trigger] self@.ranges.contains_key(n) implies 0 < n
            <= self@.last by {
            assert(old(self)@.ranges.contains_key(n));
        }
        match removed {
            Some(_) => Ok(()),
            None => {
                assert(self@.ranges =~= old(self)@.ranges);
                Err(Code::Enoent)
            },
        }
    }

    /// Resolves a live URL; a revoked URL never stands for another range.
    pub fn resolve_blob(&self, source: &str) -> (result: Result<FileRange, Code>)
        ensures
            match result {
                Err(code) => match url_number(source@) {
                    None => code == Code::Einval,
                    Some(n) => code == Code::Enoent && !self@.ranges.contains_key(n),
                },
                Ok(range) => url_number(source@) matches Some(n) && self@.ranges.contains_key(n)
                    && range@ == self@.ranges[n]@,
            },
    {
        let object: u64 = match object_url_identity(source) {
            Ok(object) => object,
            Err(code) => return Err(code),
        };
        match self.object_urls.get(&object) {
            Some(range) => Ok(
                FileRange {
                    path: range.path.clone(),
                    offset: range.offset,
                    length: range.length,
                },
            ),
            None => Err(Code::Enoent),
        }
    }

    /// Number of live URLs.
    pub fn len(&self) -> (result: usize)
        ensures
            result == self@.ranges.len(),
    {
        self.object_urls.len()
    }
}

/// The URL created for a number reads back as that number.
pub proof fn url_reads_back(object: u64)
    requires
        object > 0,
    ensures
        url_number(url_text(object as nat)) == Some(object),
{
    reveal_strlit("blob:lite/");
    let text = url_text(object as nat);
    crate::text::written_number_is_read_back(object as nat);
    assert(text.subrange(0, 10) =~= "blob:lite/"@);
    assert(text.subrange(10, text.len() as int) =~= decimal(object as nat));
}

/// A URL was created for a range.
pub open spec fn creates(before: FilesView, range: RangeView, after: FilesView) -> bool {
    &&& after.last == before.last + 1
    &&& after.ranges.contains_key(after.last)
    &&& after.ranges[after.last]@ == range
    &&& after.ranges.remove(after.last) == before.ranges
}

/// The URL of a number was revoked.
pub open spec fn revokes(before: FilesView, object: u64, after: FilesView) -> bool {
    &&& before.ranges.contains_key(object)
    &&& after.ranges == before.ranges.remove(object)
    &&& after.last == before.last
}

/// A created URL stands for the range it was created for, and every URL that was
/// live before still stands for its own.
pub proof fn created_url_resolves(
    before: FilesView,
    range: RangeView,
    after: FilesView,
    other: u64,
)
    requires
        before.wf(),
        creates(before, range, after),
    ensures
        url_number(url_text(after.last as nat)) == Some(after.last),
        after.ranges[after.last]@ == range,
        before.ranges.contains_key(other) ==> after.ranges.contains_key(other)
            && after.ranges[other] == before.ranges[other],
{
    url_reads_back(after.last);
    if before.ranges.contains_key(other) {
        assert(after.ranges.remove(after.last).contains_key(other));
    }
}

/// A revoked URL stands for nothing, no URL created later brings it back, and
/// revoking it leaves every other one alive.
pub proof fn revoked_url_stays_dead(
    before: FilesView,
    object: u64,
    after: FilesView,
    range: RangeView,
    later: FilesView,
    other: u64,
)
    requires
        before.wf(),
        revokes(before, object, after),
        creates(after, range, later),
    ensures
        !after.ranges.contains_key(object),
        !later.ranges.contains_key(object),
        before.ranges.contains_key(other) && other != object ==> after.ranges.contains_key(other)
            && after.ranges[other] == before.ranges[other],
{
    assert(0 < object <= before.last);
    if later.ranges.contains_key(object) {
        assert(later.ranges.remove(later.last).contains_key(object));
    }
}

/// How many bytes a range read takes.
pub fn range_length(size: u64, offset: u64, length: usize) -> (result: usize)
    requires
        size <= usize::MAX,
    ensures
        result <= length,
        offset >= size ==> result == 0,
        offset < size ==> result == (if length <= size - offset {
            length as int
        } else {
            size - offset
        }),
{
    let available: u64 = if size > offset {
        size - offset
    } else {
        0
    };
    if length as u64 <= available {
        length
    } else {
        available as usize
    }
}

/// ASCII lower case of a text.
pub open spec fn lowered(text: Seq<char>) -> Seq<char> {
    Seq::new(text.len(), |i: int| lower(text[i]))
}

fn to_lower_text(text: &str) -> (result: String)
    ensures
        result@ == lowered(text@),
{
    let cs = chars_of(text);
    let mut out = String::new();
    let mut i: usize = 0;
    while i < cs.len()
        invariant
            cs@ == text@,
            i <= cs@.len(),
            out@ == lowered(text@).take(i as int),
        decreases cs@.len() - i,
    {
        out.push(to_lower(cs[i]));
        assert(lowered(text@).take(i + 1) =~= lowered(text@).take(i as int).push(
            lower(text@[i as int]),
        ));
        i = i + 1;
    }
    assert(lowered(text@).take(i as int) =~= lowered(text@));
    out
}

/// The media type of a file by its lower-case extension.
pub open spec fn type_of_extension(extension: Option<Seq<char>>) -> Seq<char> {
    match extension {
        None => "application/octet-stream"@,
        Some(e) => if e == "wav"@ {
            "audio/wav"@
        } else if e == "aiff"@ || e == "aif"@ {
            "audio/aiff"@
        } else if e == "caf"@ {
            "audio/x-caf"@
        } else if e == "flac"@ {
            "audio/flac"@
        } else if e == "mp1"@ || e == "mp2"@ || e == "mp3"@ {
            "audio/mpeg"@
        } else if e == "ogg"@ || e == "oga"@ {
            "audio/ogg"@
        } else if e == "m4a"@ || e == "mp4"@ {
            "audio/mp4"@
        } else if e == "mka"@ || e == "webm"@ {
            "audio/webm"@
        } else {
            "application/octet-stream"@
        },
    }
}

/// The media type of a lower-case extension.
pub fn extension_type(extension: Option<&str>) -> (result: &'static str)
    ensures
        result@ == type_of_extension(
            match extension {
                Some(e) => Some(e@),
                None => None,
            },
        ),
{
    let e = match extension {
        Some(e) => e,
        None => return "application/octet-stream",
    };
    if same(e, "wav") {
        "audio/wav"
    } else if same(e, "aiff") || same(e, "aif") {
        "audio/aiff"
    } else if same(e, "caf") {
        "audio/x-caf"
    } else if same(e, "flac") {
        "audio/flac"
    } else if same(e, "mp1") || same(e, "mp2") || same(e, "mp3") {
        "audio/mpeg"
    } else if same(e, "ogg") || same(e, "oga") {
        "audio/ogg"
    } else if same(e, "m4a") || same(e, "mp4") {
        "audio/mp4"
    } else if same(e, "mka") || same(e, "webm") {
        "audio/webm"
    } else {
        "application/octet-stream"
    }
}

/// The media type of a path.
pub open spec fn type_of_path(path: Seq<char>) -> Seq<char> {
    type_of_extension(
        match path_extension(path) {
            Some(e) => Some(lowered(e)),
            None => None,
        },
    )
}

/// The media type of a file by its name.
pub fn media_type(path: &str) -> (result: &'static str)
    ensures
        result@ == type_of_path(path@),
{
    match extension(path) {
        Some(e) => {
            let lower_case = to_lower_text(e.as_str());
            extension_type(Some(lower_case.as_str()))
        },
        None => extension_type(None),
    }
}

/// The description of a regular file.
pub open spec fn descriptor_text(path: Seq<char>, size: u64, modified: u64) -> Seq<char> {
    let name = match path_file_name(path) {
        Some(name) => name,
        None => "media"@,
    };
    "{\"path\":"@ + json_string(path) + ",\"name\":"@ + json_string(name) + ",\"size\":"@ + decimal(
        size as nat,
    ) + ",\"type\":"@ + json_string(type_of_path(path)) + ",\"lastModified\":"@ + decimal(
        modified as nat,
    ) + "}"@
}

/// Describes one regular file. `modified` is its modification time in
/// milliseconds, zero where it is unknown or before the epoch.
pub fn open(path: &str, probe: Probe, modified: u64) -> (result: Result<String, Code>)
    ensures
        match result {
            Ok(text) => file_size(path@, probe) matches Ok(size) && text@ == descriptor_text(
                path@,
                size,
                modified,
            ),
            Err(code) => file_size(path@, probe) == Err::<u64, Code>(code),
        },
{
    let size: u64 = match file_metadata(path, probe) {
        Ok(size) => size,
        Err(code) => return Err(code),
    };
    let mut out = "{\"path\":".to_owned();
    out.append(quote(path).as_str());
    out.append(",\"name\":");
    let name = match file_name(path) {
        Some(name) => name,
        None => "media".to_owned(),
    };
    out.append(quote(name.as_str()).as_str());
    out.append(",\"size\":");
    out.append(decimal_text(size).as_str());
    out.append(",\"type\":");
    out.append(quote(media_type(path)).as_str());
    out.append(",\"lastModified\":");
    out.append(decimal_text(modified).as_str());
    out.append("}");
    Ok(out)
}

/// The result of a mutation: the path and, on failure, the error name.
pub open spec fn outcome_text(path: Seq<char>, error: Option<Code>) -> Seq<char> {
    match error {
        None => "{\"path\":"@ + json_string(path) + "}"@,
        Some(code) => "{\"path\":"@ + json_string(path) + ",\"error\":"@ + json_string(code.label())
            + "}"@,
    }
}

/// Reports success at a path.
pub fn ok(path: &str) -> (result: String)
    ensures
        result@ == outcome_text(path@, None),
{
    let mut out = "{\"path\":".to_owned();
    out.append(quote(path).as_str());
    out.append("}");
    out
}

/// Reports failure at a path.
pub fn fail(path: &str, code: Code) -> (result: String)
    ensures
        result@ == outcome_text(path@, Some(code)),
{
    let mut out = "{\"path\":".to_owned();
    out.append(quote(path).as_str());
    out.append(",\"error\":");
    out.append(quote(code.name()).as_str());
    out.append("}");
    out
}

/// The result of a mutation that was tried, or was refused for a relative path.
pub open spec fn mutation_text(path: Seq<char>, result: Result<(), IoKind>) -> Seq<char> {
    match result {
        Ok(_) => outcome_text(path, None),
        Err(kind) => outcome_text(path, Some(code_of(kind))),
    }
}

/// Reports how a mutation at an accepted path went.
pub fn report(path: &str, result: Result<(), IoKind>) -> (text: String)
    ensures
        text@ == mutation_text(path@, result),
{
    match result {
        Ok(_) => ok(path),
        Err(kind) => fail(path, io_error_code(kind)),
    }
}

/// How a path is removed.
#[derive(Clone, Copy, Debug, PartialEq, Eq, Structural)]
pub enum Removal {
    /// With everything below it.
    Tree,
    /// As an empty directory.
    EmptyDirectory,
    /// As a file or link.
    File,
}

/// Chooses how to remove a path. A directory goes with its contents only on
/// request.
pub fn removal(is_directory: bool, recursive: bool) -> (result: Removal)
    ensures
        result == (if !is_directory {
            Removal::File
        } else if recursive {
            Removal::Tree
        } else {
            Removal::EmptyDirectory
        }),
{
    if is_directory {
        if recursive {
            Removal::Tree
        } else {
            Removal::EmptyDirectory
        }
    } else {
        Removal::File
    }
}

/// Checks the two paths of a rename or copy.
pub fn check_pair(from: &str, to: &str) -> (result: Result<(), Code>)
    ensures
        result is Ok <==> absolute(from@) && absolute(to@),
        result matches Err(code) ==> code == Code::Einval,
{
    if is_absolute(from) && is_absolute(to) {
        Ok(())
    } else {
        Err(Code::Einval)
    }
}

/// How one path is copied.
#[derive(Clone, Copy, Debug, PartialEq, Eq, Structural)]
pub enum CopyStep {
    /// The recursion is too deep.
    TooDeep,
    /// Create the directory and copy what it holds, one level deeper.
    Directory,
    /// Copy the file.
    File,
}

/// Chooses how to copy a path at a depth of the tree. The ceiling keeps a
/// pathological tree from exhausting the stack.
pub fn copy_step(depth: usize, is_directory: bool) -> (result: CopyStep)
    ensures
        result == (if depth > MAX_COPY_DEPTH {
            CopyStep::TooDeep
        } else if is_directory {
            CopyStep::Directory
        } else {
            CopyStep::File
        }),
{
    if depth > MAX_COPY_DEPTH {
        CopyStep::TooDeep
    } else if is_directory {
        CopyStep::Directory
    } else {
        CopyStep::File
    }
}

/// Block counts of one filesystem snapshot.
#[derive(Clone, Copy, Debug, PartialEq, Eq, Structural)]
pub struct Statistics {
    pub block_size: u64,
    pub fragment_size: u64,
    pub blocks: u64,
    pub free_blocks: u64,
    pub available_blocks: u64,
}

/// A product cut at the largest number.
pub open spec fn capped_product(a: int, b: int) -> int {
    if a * b > u64::MAX {
        u64::MAX as int
    } else {
        a * b
    }
}

/// The unit that blocks are counted in.
pub open spec fn unit_of(s: Statistics) -> int {
    if s.fragment_size == 0 {
        s.block_size as int
    } else {
        s.fragment_size as int
    }
}

/// Bytes of the filesystem.
pub open spec fn total_bytes(s: Statistics) -> int {
    capped_product(s.blocks as int, unit_of(s))
}

/// Bytes of so many blocks, at most those of the filesystem.
pub open spec fn part_bytes(s: Statistics, blocks: u64) -> int {
    let bytes = capped_product(blocks as int, unit_of(s));
    if bytes <= total_bytes(s) {
        bytes
    } else {
        total_bytes(s)
    }
}

fn saturating_product(a: u64, b: u64) -> (result: u64)
    ensures
        result == capped_product(a as int, b as int),
{
    match a.checked_mul(b) {
        Some(product) => product,
        None => 0xffff_ffff_ffff_ffff,
    }
}

/// The capacity of a filesystem in bytes.
#[derive(Clone, Copy, Debug, PartialEq, Eq, Structural)]
pub struct Capacity {
    pub total: u64,
    pub used: u64,
    pub available: u64,
}

/// Computes the capacity from one snapshot. Reserved blocks are unavailable but
/// not used.
pub fn capacity_bytes(s: Statistics) -> (result: Capacity)
    ensures
        result.total == total_bytes(s),
        result.used == total_bytes(s) - part_bytes(s, s.free_blocks),
        result.available == part_bytes(s, s.available_blocks),
        result.used <= result.total,
        result.available <= result.total,
{
    let unit: u64 = if s.fragment_size == 0 {
        s.block_size
    } else {
        s.fragment_size
    };
    let total: u64 = saturating_product(s.blocks, unit);
    let free: u64 = saturating_product(s.free_blocks, unit);
    let available: u64 = saturating_product(s.available_blocks, unit);
    proof {
        assert(0 <= s.free_blocks as int * unit as int) by (nonlinear_arith)
            requires
                0 <= s.free_blocks,
                0 <= unit,
        ;
    }
    Capacity {
        total,
        used: total - (if free < total {
            free
        } else {
            total
        }),
        available: if available < total {
            available
        } else {
            total
        },
    }
}

/// The capacity as script reads it.
pub open spec fn capacity_text(path: Seq<char>, found: Result<Statistics, IoKind>) -> Seq<char> {
    if !absolute(path) || path.contains('\0') {
        outcome_text(path, Some(Code::Einval))
    } else {
        match found {
            Err(kind) => outcome_text(path, Some(code_of(kind))),
            Ok(s) => "{\"path\":"@ + json_string(path) + ",\"totalBytes\":"@ + decimal(
                total_bytes(s) as nat,
            ) + ",\"usedBytes\":"@ + decimal(
                (total_bytes(s) - part_bytes(s, s.free_blocks)) as nat,
            ) + ",\"availableBytes\":"@ + decimal(part_bytes(s, s.available_blocks) as nat)
                + "}"@,
        }
    }
}

/// Whether a text holds a NUL character.
pub fn has_nul(path: &str) -> (result: bool)
    ensures
        result == path@.contains('\0'),
{
    let cs = chars_of(path);
    let mut i: usize = 0;
    while i < cs.len()
        invariant
            cs@ == path@,
            i <= cs@.len(),
            forall|k: int| 0 <= k < i ==> path@[k] != '\0',
        decreases cs@.len() - i,
    {
        if cs[i] == '\0' {
            assert(path@[i as int] == '\0');
            return true;
        }
        i = i + 1;
    }
    false
}

/// Whether a path can be handed to the system.
pub fn is_native_path(path: &str) -> (result: bool)
    ensures
        result == (absolute(path@) && !path@.contains('\0')),
{
    is_absolute(path) && !has_nul(path)
}

/// Reports the capacity of the filesystem that holds a path.
pub fn capacity(path: &str, found: Result<Statistics, IoKind>) -> (result: String)
    ensures
        result@ == capacity_text(path@, found),
{
    if !is_native_path(path) {
        return fail(path, Code::Einval);
    }
    match found {
        Err(kind) => fail(path, io_error_code(kind)),
        Ok(s) => {
            let c = capacity_bytes(s);
            let mut out = "{\"path\":".to_owned();
            out.append(quote(path).as_str());
            out.append(",\"totalBytes\":");
            out.append(decimal_text(c.total).as_str());
            out.append(",\"usedBytes\":");
            out.append(decimal_text(c.used).as_str());
            out.append(",\"availableBytes\":");
            out.append(decimal_text(c.available).as_str());
            out.append("}");
            out
        },
    }
}

/// What one directory entry is.
#[derive(Clone, Copy, Debug, PartialEq, Eq, Structural)]
pub enum EntryKind {
    Symlink,
    Directory,
    File,
    Other,
}

impl EntryKind {
    /// The name that script reads.
    pub open spec fn label(self) -> Seq<char> {
        match self {
            EntryKind::Symlink => "symlink"@,
            EntryKind::Directory => "dir"@,
            EntryKind::File => "file"@,
            EntryKind::Other => "other"@,
        }
    }

    fn name(self) -> (result: &'static str)
        ensures
            result@ == self.label(),
    {
        match self {
            EntryKind::Symlink => "symlink",
            EntryKind::Directory => "dir",
            EntryKind::File => "file",
            EntryKind::Other => "other",
        }
    }
}

/// The metadata of an entry itself: links are not followed. The modification
/// time is in seconds, absent where it is unknown or before the epoch.
#[derive(Clone, Copy, Debug, PartialEq, Eq, Structural)]
pub struct EntryMetadata {
    pub is_symlink: bool,
    pub is_dir: bool,
    pub is_file: bool,
    pub length: u64,
    pub modified: Option<u64>,
}

/// One entry as the directory was read; its metadata may be unreadable.
pub struct RawEntry {
    pub name: String,
    pub metadata: Option<EntryMetadata>,
}

/// One listed entry.
pub struct Entry {
    pub name: String,
    pub kind: EntryKind,
    pub size: u64,
    pub mtime: u64,
}

/// What an [`Entry`] holds.
pub struct EntryView {
    pub name: Seq<char>,
    pub kind: EntryKind,
    pub size: u64,
    pub mtime: u64,
}

impl View for Entry {
    type V = EntryView;

    open spec fn view(&self) -> EntryView {
        EntryView { name: self.name@, kind: self.kind, size: self.size, mtime: self.mtime }
    }
}

/// The views of listed entries.
pub open spec fn entry_views(entries: Seq<Entry>) -> Seq<EntryView> {
    Seq::new(entries.len(), |i: int| entries[i]@)
}

/// The kind of an entry; a link is a link whatever it points to.
pub open spec fn kind_of(m: EntryMetadata) -> EntryKind {
    if m.is_symlink {
        EntryKind::Symlink
    } else if m.is_dir {
        EntryKind::Directory
    } else if m.is_file {
        EntryKind::File
    } else {
        EntryKind::Other
    }
}

/// The listed form of an entry. A directory has no size.
pub open spec fn listed(name: Seq<char>, m: EntryMetadata) -> EntryView {
    EntryView {
        name,
        kind: kind_of(m),
        size: if kind_of(m) == EntryKind::Directory {
            0
        } else {
            m.length
        },
        mtime: match m.modified {
            Some(seconds) => seconds,
            None => 0,
        },
    }
}

/// The listing of the first `n` entries: those with readable metadata, up to
/// the limit, and whether any came after the limit was reached.
pub open spec fn listing_of(raw: Seq<RawEntry>, n: int) -> (Seq<EntryView>, bool)
    decreases n,
{
    if n <= 0 {
        (Seq::empty(), false)
    } else {
        let (entries, truncated) = listing_of(raw, n - 1);
        if truncated || entries.len() >= MAX_ENTRIES {
            (entries, true)
        } else {
            match raw[n - 1].metadata {
                Some(m) => (entries.push(listed(raw[n - 1].name@, m)), false),
                None => (entries, false),
            }
        }
    }
}

/// Collects entries until the listing is full.
pub struct Listing {
    entries: Vec<Entry>,
    truncated: bool,
}

impl Listing {
    /// The entries so far.
    pub closed spec fn entries(self) -> Seq<EntryView> {
        entry_views(self.entries@)
    }

    /// An entry came after the limit was reached.
    pub closed spec fn truncated(self) -> bool {
        self.truncated
    }

    /// An empty listing.
    pub fn new() -> (result: Self)
        ensures
            result.entries() == Seq::<EntryView>::empty(),
            !result.truncated(),
    {
        let made = Listing { entries: Vec::new(), truncated: false };
        assert(made.entries() =~= Seq::<EntryView>::empty());
        made
    }

    /// Adds one entry and tells whether more are wanted.
    pub fn offer(&mut self, raw: &RawEntry) -> (result: bool)
        ensures
            result == !final(self).truncated(),
            ({
                let full = old(self).truncated() || old(self).entries().len() >= MAX_ENTRIES;
                &&& final(self).truncated() == full
                &&& final(self).entries() == (if full || raw.metadata is None {
                    old(self).entries()
                } else {
                    old(self).entries().push(listed(raw.name@, raw.metadata->0))
                })
            }),
    {
        if self.truncated || self.entries.len() >= MAX_ENTRIES {
            self.truncated = true;
            return false;
        }
        if let Some(m) = &raw.metadata {
            let kind = if m.is_symlink {
                EntryKind::Symlink
            } else if m.is_dir {
                EntryKind::Directory
            } else if m.is_file {
                EntryKind::File
            } else {
                EntryKind::Other
            };
            let size: u64 = if kind == EntryKind::Directory {
                0
            } else {
                m.length
            };
            let mtime: u64 = match m.modified {
                Some(seconds) => seconds,
                None => 0,
            };
            let entry = Entry { name: raw.name.clone(), kind, size, mtime };
            self.entries.push(entry);
            assert(self.entries() =~= old(self).entries().push(entry@));
        }
        true
    }

    /// The finished listing of a path as script reads it.
    pub fn text(&self, path: &str) -> (result: String)
        ensures
            result@ == entries_text(path@, self.entries(), self.truncated()),
    {
        let mut out = "{\"path\":".to_owned();
        out.append(quote(path).as_str());
        out.append(",\"entries\":[");
        let ghost head = out@;
        let mut i: usize = 0;
        assert(head + Seq::<char>::empty() =~= head);
        while i < self.entries.len()
            invariant
                i <= self.entries@.len(),
                out@ == head + joined_entries(self.entries(), i as int),
            decreases self.entries@.len() - i,
        {
            let ghost before = joined_entries(self.entries(), i as int);
            let entry = &self.entries[i];
            assert(self.entries()[i as int] == entry@);
            if i > 0 {
                out.append(",");
            }
            let one = entry_json(entry);
            out.append(one.as_str());
            assert(out@ =~= head + joined_entries(self.entries(), i + 1));
            i = i + 1;
        }
        out.append("],\"truncated\":");
        out.append(if self.truncated {
            "true"
        } else {
            "false"
        });
        out.append("}");
        assert(out@ =~= entries_text(path@, self.entries(), self.truncated()));
        out
    }
}

/// One entry as script reads it.
pub open spec fn entry_text(e: EntryView) -> Seq<char> {
    "{\"name\":"@ + json_string(e.name) + ",\"kind\":"@ + json_string(e.kind.label())
        + ",\"size\":"@ + decimal(e.size as nat) + ",\"mtime\":"@ + decimal(e.mtime as nat) + "}"@
}

/// The first `n` entries with commas between them.
pub open spec fn joined_entries(entries: Seq<EntryView>, n: int) -> Seq<char>
    decreases n,
{
    if n <= 0 {
        Seq::empty()
    } else if n == 1 {
        entry_text(entries[0])
    } else {
        joined_entries(entries, n - 1) + ","@ + entry_text(entries[n - 1])
    }
}

/// A truth value as script reads it.
pub open spec fn bool_text(value: bool) -> Seq<char> {
    if value {
        "true"@
    } else {
        "false"@
    }
}

/// A listing as script reads it.
pub open spec fn entries_text(path: Seq<char>, entries: Seq<EntryView>, truncated: bool) -> Seq<char> {
    "{\"path\":"@ + json_string(path) + ",\"entries\":["@ + joined_entries(
        entries,
        entries.len() as int,
    ) + "],\"truncated\":"@ + bool_text(truncated) + "}"@
}

fn entry_json(entry: &Entry) -> (result: String)
    ensures
        result@ == entry_text(entry@),
{
    let mut out = "{\"name\":".to_owned();
    out.append(quote(entry.name.as_str()).as_str());
    out.append(",\"kind\":");
    out.append(quote(entry.kind.name()).as_str());
    out.append(",\"size\":");
    out.append(decimal_text(entry.size).as_str());
    out.append(",\"mtime\":");
    out.append(decimal_text(entry.mtime).as_str());
    out.append("}");
    out
}

/// The answer to a directory listing.
pub open spec fn list_text(path: Seq<char>, found: Result<Seq<RawEntry>, IoKind>) -> Seq<char> {
    if !absolute(path) {
        outcome_text(path, Some(Code::Einval))
    } else {
        match found {
            Err(kind) => outcome_text(path, Some(code_of(kind))),
            Ok(raw) => {
                let (entries, truncated) = listing_of(raw, raw.len() as int);
                entries_text(path, entries, truncated)
            },
        }
    }
}

/// Lists one absolute directory from the entries that were read of it.
pub fn list(path: &str, found: Result<Vec<RawEntry>, IoKind>) -> (result: String)
    ensures
        result@ == list_text(
            path@,
            match found {
                Ok(raw) => Ok(raw@),
                Err(kind) => Err(kind),
            },
        ),
{
    if !is_absolute(path) {
        return fail(path, Code::Einval);
    }
    let raw = match found {
        Ok(raw) => raw,
        Err(kind) => return fail(path, io_error_code(kind)),
    };
    let mut listing = Listing::new();
    let mut i: usize = 0;
    while i < raw.len()
        invariant
            i <= raw@.len(),
            (listing.entries(), listing.truncated()) == listing_of(raw@, i as int),
        decreases raw@.len() - i,
    {
        let _ = listing.offer(&raw[i]);
        i = i + 1;
    }
    listing.text(path)
}

/// A listing never exceeds its limit, and one that is not truncated misses no
/// entry whose metadata could be read.
pub proof fn listing_is_bounded(raw: Seq<RawEntry>, n: int)
    requires
        0 <= n <= raw.len(),
    ensures
        listing_of(raw, n).0.len() <= MAX_ENTRIES,
        listing_of(raw, n).0.len() <= n,
        !listing_of(raw, n).1 && (forall|k: int|
            0 <= k < n ==> (#[trigger] raw[k]).metadata is Some) ==> listing_of(raw, n).0.len() == n,
    decreases n,
{
    if n > 0 {
        listing_is_bounded(raw, n - 1);
    }
}

/// A text with the given bytes, where they are UTF-8.
pub open spec fn decodes(bytes: Seq<u8>, text: Option<Seq<char>>) -> bool {
    match text {
        Some(t) => valid_utf8(bytes) && encode_utf8(t) == bytes,
        None => !valid_utf8(bytes),
    }
}

/// `std::str::from_utf8` accepts exactly UTF-8 and gives the text that it
/// encodes.
#[verifier::external_body]
fn decode_text(bytes: &[u8]) -> (result: Option<String>)
    ensures
        decodes(bytes@, owned_view(result)),
{
    std::str::from_utf8(bytes).ok().map(str::to_owned)
}

/// The number of characters, at most `n`, in the longest prefix of a text whose
/// encoding has at most `limit` bytes.
pub open spec fn fitting(text: Seq<char>, n: int, limit: int) -> int
    decreases n,
{
    if n <= 0 {
        0
    } else if encode_utf8(text.take(n)).len() <= limit {
        n
    } else {
        fitting(text, n - 1, limit)
    }
}

/// The longest prefix of a text whose encoding has at most `limit` bytes.
pub open spec fn cut_text(text: Seq<char>, limit: int) -> Seq<char> {
    text.take(fitting(text, text.len() as int, limit))
}

/// The text of a file as script is given it, and whether it was cut. A cut at
/// the byte limit may split a character; then the whole file has to be text,
/// and is cut at the last character boundary within the limit.
pub open spec fn content_of(bytes: Seq<u8>) -> Option<(Seq<char>, bool)> {
    let cut = bytes.len() > MAX_BYTES;
    let slice = if cut {
        bytes.subrange(0, MAX_BYTES as int)
    } else {
        bytes
    };
    if valid_utf8(slice) {
        Some((decode_utf8(slice), cut))
    } else if cut && valid_utf8(bytes) {
        Some((cut_text(decode_utf8(bytes), MAX_BYTES as int), true))
    } else {
        None
    }
}

proof fn encode_one_more(text: Seq<char>, c: char)
    ensures
        encode_utf8(text.push(c)) == encode_utf8(text) + encode_scalar(c as u32),
    decreases text.len(),
{
    let longer = text.push(c);
    if text.len() == 0 {
        assert(longer.drop_first() =~= Seq::<char>::empty());
        assert(encode_utf8(longer.drop_first()) =~= Seq::<u8>::empty());
        assert(encode_utf8(longer) =~= encode_scalar(c as u32));
        assert(encode_utf8(text) + encode_scalar(c as u32) =~= encode_scalar(c as u32));
    } else {
        encode_one_more(text.drop_first(), c);
        assert(longer.drop_first() =~= text.drop_first().push(c));
        assert(longer[0] == text[0]);
        assert(encode_utf8(longer) =~= encode_utf8(text) + encode_scalar(c as u32));
    }
}

proof fn longer_prefixes_encode_longer(text: Seq<char>, n: int, m: int)
    requires
        0 <= n <= m <= text.len(),
    ensures
        encode_utf8(text.take(n)).len() <= encode_utf8(text.take(m)).len(),
    decreases m - n,
{
    if n < m {
        assert(text.take(m) =~= text.take(m - 1).push(text[m - 1]));
        encode_one_more(text.take(m - 1), text[m - 1]);
        longer_prefixes_encode_longer(text, n, m - 1);
    }
}

proof fn fitting_is_found(text: Seq<char>, n: int, limit: int, found: int)
    requires
        0 <= found <= n <= text.len(),
        found > 0 ==> encode_utf8(text.take(found)).len() <= limit,
        found < text.len() ==> encode_utf8(text.take(found + 1)).len() > limit,
    ensures
        fitting(text, n, limit) == found,
    decreases n,
{
    if found < n {
        longer_prefixes_encode_longer(text, found + 1, n);
        fitting_is_found(text, n - 1, limit, found);
    }
}

proof fn fitting_bounds(text: Seq<char>, n: int, limit: int)
    requires
        0 <= n <= text.len(),
        limit >= 0,
        n < text.len() ==> encode_utf8(text.take(n + 1)).len() > limit,
    ensures
        0 <= fitting(text, n, limit) <= n,
        encode_utf8(text.take(fitting(text, n, limit))).len() <= limit,
        fitting(text, n, limit) < text.len() ==> encode_utf8(
            text.take(fitting(text, n, limit) + 1),
        ).len() > limit,
    decreases n,
{
    if n == 0 {
        assert(text.take(0) =~= Seq::<char>::empty());
    } else if encode_utf8(text.take(n)).len() > limit {
        fitting_bounds(text, n - 1, limit);
    }
}

/// A cut text is a prefix that keeps within the limit, and one character more
/// would exceed it.
pub proof fn cut_text_fits(text: Seq<char>, limit: int)
    requires
        limit >= 0,
    ensures
        encode_utf8(cut_text(text, limit)).len() <= limit,
        ({
            let n = cut_text(text, limit).len() as int;
            &&& n <= text.len()
            &&& cut_text(text, limit) == text.take(n)
            &&& n < text.len() ==> encode_utf8(text.take(n + 1)).len() > limit
        }),
{
    fitting_bounds(text, text.len() as int, limit);
}

/// Whatever a file holds, script is given at most so many bytes of text as the
/// limit allows.
pub proof fn contents_fit_the_limit(bytes: Seq<u8>)
    ensures
        content_of(bytes) matches Some((text, truncated)) ==> {
            &&& encode_utf8(text).len() <= MAX_BYTES
            &&& truncated == (bytes.len() > MAX_BYTES)
        },
{
    let slice = if bytes.len() > MAX_BYTES {
        bytes.subrange(0, MAX_BYTES as int)
    } else {
        bytes
    };
    if valid_utf8(slice) {
        decode_utf8_encode_utf8(slice);
    } else if valid_utf8(bytes) {
        cut_text_fits(decode_utf8(bytes), MAX_BYTES as int);
    }
}

fn encoded_width(c: char) -> (result: usize)
    ensures
        result == encode_scalar(c as u32).len(),
{
    let code: u32 = c as u32;
    if code < 0x80 {
        1
    } else if code < 0x800 {
        2
    } else if code < 0x1_0000 {
        3
    } else {
        4
    }
}

fn cut_to_limit(text: &str) -> (result: String)
    ensures
        result@ == cut_text(text@, MAX_BYTES as int),
{
    let cs = chars_of(text);
    let mut kept: usize = 0;
    let mut used: usize = 0;
    assert(text@.take(0) =~= Seq::<char>::empty());
    while kept < cs.len()
        invariant
            cs@ == text@,
            kept <= cs@.len(),
            used <= MAX_BYTES,
            used == encode_utf8(text@.take(kept as int)).len(),
        ensures
            kept < cs@.len() ==> encode_utf8(text@.take(kept + 1)).len() > MAX_BYTES,
        decreases cs@.len() - kept,
    {
        let width: usize = encoded_width(cs[kept]);
        proof {
            assert(text@.take(kept + 1) =~= text@.take(kept as int).push(text@[kept as int]));
            encode_one_more(text@.take(kept as int), text@[kept as int]);
        }
        if used + width > MAX_BYTES {
            break ;
        }
        used = used + width;
        kept = kept + 1;
    }
    proof {
        fitting_is_found(text@, text@.len() as int, MAX_BYTES as int, kept as int);
    }
    let cut = string_of(&cs, 0, kept);
    assert(cut@ =~= text@.take(kept as int));
    cut
}

/// File contents as script reads them.
pub open spec fn content_text(path: Seq<char>, content: Seq<char>, truncated: bool) -> Seq<char> {
    "{\"path\":"@ + json_string(path) + ",\"content\":"@ + json_string(content)
        + ",\"truncated\":"@ + bool_text(truncated) + "}"@
}

/// The answer to a file read.
pub open spec fn read_text(path: Seq<char>, probe: Probe, found: Result<Seq<u8>, IoKind>) -> Seq<char> {
    if !absolute(path) {
        outcome_text(path, Some(Code::Einval))
    } else {
        match (probe, found) {
            (Probe::Failed(kind), _) => outcome_text(path, Some(code_of(kind))),
            (Probe::Directory, _) => outcome_text(path, Some(Code::Eisdir)),
            (_, Err(kind)) => outcome_text(path, Some(code_of(kind))),
            (_, Ok(bytes)) => match content_of(bytes) {
                Some((content, truncated)) => content_text(path, content, truncated),
                None => outcome_text(path, Some(Code::NotText)),
            },
        }
    }
}

proof fn decoded(bytes: Seq<u8>, text: Seq<char>)
    requires
        encode_utf8(text) == bytes,
    ensures
        decode_utf8(bytes) == text,
{
    encode_utf8_decode_utf8(text);
}

fn content(path: &str, text: &str, truncated: bool) -> (result: String)
    ensures
        result@ == content_text(path@, text@, truncated),
{
    let mut out = "{\"path\":".to_owned();
    out.append(quote(path).as_str());
    out.append(",\"content\":");
    out.append(quote(text).as_str());
    out.append(",\"truncated\":");
    out.append(if truncated {
        "true"
    } else {
        "false"
    });
    out.append("}");
    out
}

/// Reads one absolute text file under the byte limit.
pub fn read(path: &str, probe: Probe, found: Result<Vec<u8>, IoKind>) -> (result: String)
    ensures
        result@ == read_text(
            path@,
            probe,
            match found {
                Ok(bytes) => Ok(bytes@),
                Err(kind) => Err(kind),
            },
        ),
{
    if !is_absolute(path) {
        return fail(path, Code::Einval);
    }
    match probe {
        Probe::Failed(kind) => return fail(path, io_error_code(kind)),
        Probe::Directory => return fail(path, Code::Eisdir),
        _ => {},
    }
    let bytes = match found {
        Ok(bytes) => bytes,
        Err(kind) => return fail(path, io_error_code(kind)),
    };
    let truncated = bytes.len() > MAX_BYTES;
    let slice = if truncated {
        vstd::slice::slice_subrange(bytes.as_slice(), 0, MAX_BYTES)
    } else {
        bytes.as_slice()
    };
    if let Some(text) = decode_text(slice) {
        proof {
            decoded(slice@, text@);
        }
        return content(path, text.as_str(), truncated);
    }
    if !truncated {
        return fail(path, Code::NotText);
    }
    match decode_text(bytes.as_slice()) {
        Some(text) => {
            proof {
                decoded(bytes@, text@);
            }
            let cut = cut_to_limit(text.as_str());
            content(path, cut.as_str(), true)
        },
        None => fail(path, Code::NotText),
    }
}

} // verus!
