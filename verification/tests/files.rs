use lite_runtime::host::filesystem::{
    capacity, capacity_bytes, check_pair, copy_step, extension_type, fail, file_metadata, has_nul,
    io_error_code, is_absolute, is_native_path, list, media_type, ok, open, range_length, read,
    removal, report, Code, CopyStep, EntryMetadata, Files, IoKind, Probe, RawEntry, Removal,
    Statistics, MAX_BYTES, MAX_COPY_DEPTH, MAX_ENTRIES,
};
use lite_runtime::host::path::{extension, file_name};
use serde_json::Value;

fn parse(text: &str) -> Value {
    serde_json::from_str(text).expect("valid json")
}

fn error_of(text: &str) -> Option<String> {
    parse(text)
        .get("error")
        .and_then(Value::as_str)
        .map(str::to_owned)
}

#[test]
fn capacity_uses_one_real_filesystem_snapshot_and_rejects_relative_paths() {
    let snapshot = Statistics {
        block_size: 4096,
        fragment_size: 4096,
        blocks: 1000,
        free_blocks: 400,
        available_blocks: 350,
    };
    let reported = parse(&capacity("/tmp", Ok(snapshot)));
    let number = |name: &str| reported.get(name).and_then(Value::as_u64).expect("number");
    let total = number("totalBytes");
    let used = number("usedBytes");
    let available = number("availableBytes");
    assert_eq!((total, used, available), (4_096_000, 2_457_600, 1_433_600));
    assert!(total > 0);
    assert!(used <= total);
    assert!(available <= total);
    let bytes = capacity_bytes(snapshot);
    assert_eq!((bytes.total, bytes.used, bytes.available), (total, used, available));

    assert_eq!(error_of(&capacity("tmp", Ok(snapshot))).as_deref(), Some("EINVAL"));
    assert_eq!(
        error_of(&capacity("/gone", Err(IoKind::NotFound))).as_deref(),
        Some("ENOENT")
    );
}

#[test]
fn relative_paths_and_bad_json_are_rejected() {
    assert!(!is_absolute("relative/path"));
    assert!(is_absolute("/a"));
    assert_eq!(
        error_of(&fail("relative/path", Code::Einval)).as_deref(),
        Some("EINVAL")
    );
    assert_eq!(check_pair("/a", "relative"), Err(Code::Einval));
    assert_eq!(check_pair("relative", "/a"), Err(Code::Einval));
    assert_eq!(check_pair("/a", "/b"), Ok(()));
    assert!(has_nul("/a\0b"));
    assert!(!is_native_path("/a\0b"));
}

#[test]
fn repeated_source_replacement_reclaims_every_object_url() {
    let path = "/tmp/media.bin";
    let mut files = Files::default();
    for _ in 0..128 {
        let url = files
            .create_object_url(path, 7, 5, Probe::File(19))
            .expect("create object URL");
        let range = files.resolve_blob(&url).expect("resolve");
        assert_eq!(range.path, path);
        assert_eq!((range.offset, range.length), (7, 5));
        files.revoke_object_url(&url).expect("revoke");
        assert!(files.resolve_blob(&url).is_err());
    }
    assert_eq!(files.len(), 0);
    assert_eq!(range_length(19, 7, 5), 5);
    assert_eq!(range_length(19, 17, 5), 2);
    assert_eq!(range_length(19, 30, 5), 0);
}

#[test]
fn object_urls_need_a_file_and_a_range() {
    let mut files = Files::default();
    assert_eq!(
        files.create_object_url("tmp", 0, 1, Probe::File(9)),
        Err(Code::Einval)
    );
    assert!(files
        .create_object_url("/d", 0, 1, Probe::Directory)
        .is_err());
    assert!(files
        .create_object_url("/f", 8, 2, Probe::File(9))
        .is_err());
    assert!(files.resolve_blob("https://x").is_err());
    assert!(files.revoke_object_url("blob:nonsense").is_err());
}

#[test]
fn probes_decide_what_can_be_opened() {
    assert_eq!(file_metadata("/f", Probe::File(9)), Ok(9));
    assert_eq!(file_metadata("f", Probe::File(9)), Err(Code::Einval));
    assert_eq!(file_metadata("/d", Probe::Directory), Err(Code::Eisdir));
    assert_eq!(
        file_metadata("/g", Probe::Failed(IoKind::NotFound)),
        Err(Code::Enoent)
    );
    let descriptor = parse(&open("/home/a \"b\".MP3", Probe::File(12), 34).expect("open"));
    assert_eq!(descriptor["name"], Value::from("a \"b\".MP3"));
    assert_eq!(descriptor["path"], Value::from("/home/a \"b\".MP3"));
    assert_eq!(descriptor["size"], Value::from(12));
    assert_eq!(descriptor["type"], Value::from("audio/mpeg"));
}

#[test]
fn io_errors_have_codes() {
    for (kind, name) in [
        (IoKind::NotFound, "ENOENT"),
        (IoKind::PermissionDenied, "EACCES"),
        (IoKind::NotADirectory, "ENOTDIR"),
        (IoKind::AlreadyExists, "EEXIST"),
        (IoKind::DirectoryNotEmpty, "ENOTEMPTY"),
    ] {
        assert_eq!(io_error_code(kind).name(), name);
        assert_eq!(error_of(&report("/p", Err(kind))).as_deref(), Some(name));
    }
    assert_eq!(parse(&report("/p", Ok(()))), parse(&ok("/p")));
    assert_eq!(error_of(&ok("/p")), None);
}

#[test]
fn media_types_go_by_the_extension() {
    assert_eq!(media_type("/music/a.mp3"), "audio/mpeg");
    assert_eq!(media_type("/music/a.MP3"), "audio/mpeg");
    assert_eq!(media_type("/music/noext"), "application/octet-stream");
    assert_eq!(media_type("/music.mp3/noext"), "application/octet-stream");
    assert_eq!(media_type("/music/.mp3"), "application/octet-stream");
    assert_eq!(media_type("/music/a.mp3/."), "audio/mpeg");
    assert_eq!(media_type("/music/a.mp3/.."), "application/octet-stream");
    assert_eq!(media_type("/music/a."), "application/octet-stream");
    assert_eq!(extension_type(Some("flac")), "audio/flac");
    assert_eq!(extension_type(None), "application/octet-stream");
}

fn entry(name: &str, is_dir: bool, length: u64) -> RawEntry {
    RawEntry {
        name: name.to_owned(),
        metadata: Some(EntryMetadata {
            is_symlink: false,
            is_dir,
            is_file: !is_dir,
            length,
            modified: Some(1_700_000_000),
        }),
    }
}

#[test]
fn listings_quote_names_and_stop_at_the_limit() {
    let unreadable = RawEntry {
        name: "gone".to_owned(),
        metadata: None,
    };
    let text = list(
        "/d",
        Ok(vec![
            entry("a\"b\n", false, 3),
            unreadable,
            entry("sub", true, 4096),
        ]),
    );
    let listing = parse(&text);
    let entries = listing["entries"].as_array().expect("entries");
    assert_eq!(entries.len(), 2);
    assert_eq!(entries[0]["name"], Value::from("a\"b\n"));
    assert_eq!(entries[0]["size"], Value::from(3));
    assert_eq!(entries[0]["mtime"], Value::from(1_700_000_000u64));
    assert_eq!(entries[1]["size"], Value::from(0));
    assert_eq!(error_of(&list("d", Ok(Vec::new()))).as_deref(), Some("EINVAL"));
    let many = (0..=MAX_ENTRIES)
        .map(|index| entry(&format!("{index}"), false, 1))
        .collect::<Vec<_>>();
    let listing = parse(&list("/d", Ok(many)));
    assert_eq!(listing["entries"].as_array().map(Vec::len), Some(MAX_ENTRIES));
    assert_eq!(listing["truncated"], Value::from(true));
}

#[test]
fn reads_are_bounded_text() {
    let text = parse(&read("/f", Probe::File(3), Ok(b"a\"\n".to_vec())));
    assert_eq!(text["content"], Value::from("a\"\n"));
    assert!(error_of(&read("/f", Probe::File(2), Ok(vec![0xff, 0xfe]))).is_some());
    assert!(error_of(&read("f", Probe::File(1), Ok(vec![97]))).is_some());
    assert_eq!(
        error_of(&read("/d", Probe::Directory, Ok(Vec::new()))).as_deref(),
        Some("EISDIR")
    );
    let long = parse(&read(
        "/f",
        Probe::File(MAX_BYTES as u64 + 1),
        Ok(vec![97; MAX_BYTES + 1]),
    ));
    assert_eq!(long["truncated"], Value::from(true));
    assert_eq!(long["content"].as_str().map(str::len), Some(MAX_BYTES));
}

#[test]
fn long_text_is_cut_between_characters() {
    let mut bytes = vec![97; MAX_BYTES - 1];
    bytes.extend("\u{e9}tail".as_bytes());
    let cut = parse(&read("/f", Probe::File(bytes.len() as u64), Ok(bytes)));
    assert_eq!(cut.get("error"), None);
    assert_eq!(cut["truncated"], Value::from(true));
    assert_eq!(cut["content"].as_str().map(str::len), Some(MAX_BYTES - 1));
    // The limit may be a boundary, and it counts bytes.
    let whole = "\u{e9}".repeat(MAX_BYTES / 2 + 1).into_bytes();
    let cut = parse(&read("/f", Probe::File(whole.len() as u64), Ok(whole)));
    assert_eq!(cut["content"].as_str().map(str::len), Some(MAX_BYTES));
    let fits = "\u{e9}".repeat(MAX_BYTES / 2).into_bytes();
    let kept = parse(&read("/f", Probe::File(fits.len() as u64), Ok(fits)));
    assert_eq!(kept["content"].as_str().map(str::len), Some(MAX_BYTES));
    assert_ne!(kept.get("truncated"), Some(&Value::from(true)));
}

#[test]
fn strings_are_quoted() {
    let quoted = |path: &str| {
        let text = lite_runtime::host::filesystem::ok(path);
        text["{\"path\":".len()..text.len() - 1].to_owned()
    };
    assert_eq!(quoted("/a\"\\"), "\"/a\\\"\\\\\"");
    assert_eq!(quoted("\u{8}\t\n\u{c}\r"), "\"\\b\\t\\n\\f\\r\"");
    assert_eq!(quoted("\u{0}\u{b}\u{1f}\u{7f}"), "\"\\u0000\\u000b\\u001f\u{7f}\"");
    assert_eq!(quoted("\u{e9}/\u{1f600}"), "\"\u{e9}/\u{1f600}\"");
}

#[test]
fn removals_and_copies_are_planned() {
    assert_eq!(removal(true, true), Removal::Tree);
    assert_eq!(removal(true, false), Removal::EmptyDirectory);
    assert_eq!(removal(false, true), Removal::File);
    assert_eq!(copy_step(0, true), CopyStep::Directory);
    assert_eq!(copy_step(3, false), CopyStep::File);
    assert_eq!(copy_step(MAX_COPY_DEPTH, false), CopyStep::File);
    assert_eq!(copy_step(MAX_COPY_DEPTH + 1, false), CopyStep::TooDeep);
}

#[test]
fn names_of_paths_are_those_of_the_system() {
    let paths = [
        "", "/", "//", ".", "..", "/.", "/..", "a", "a/", "a//", "a/.", "a/./", "a/..", "a/../b", "./a",
        "/home/me/a b.tar.gz", "/x/.hidden", "/x/..two", "/x/...", "/x/dot.", "/\u{e9}t\u{e9}.m\u{e9}",
        "/a.b/c", "a\\b.c",
    ];
    for path in paths {
        let known = std::path::Path::new(path);
        let name = known.file_name().and_then(|part| part.to_str());
        let suffix = known.extension().and_then(|part| part.to_str());
        assert_eq!(file_name(path).as_deref(), name, "{path}");
        assert_eq!(extension(path).as_deref(), suffix, "{path}");
    }
}
