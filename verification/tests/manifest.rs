use folsum::manifest::{read_row, split_lines};
use folsum::text::text_chars;
use folsum::{
    load_previous_manifest, manifest_text, FileIntegrity, FoundFile, ManifestError, CSV_HEADERS,
};

fn entry(file_path: &str, md5_hash: &str) -> FoundFile {
    FoundFile::new(file_path.to_string(), md5_hash.to_string())
}

fn lines_as_text(text: &str) -> Vec<String> {
    split_lines(&text_chars(text)).into_iter().map(|line| line.into_iter().collect()).collect()
}

#[test]
fn header_is_the_first_line() {
    assert_eq!(CSV_HEADERS, "File Path, MD5 Hash\n");
    assert_eq!(load_previous_manifest(CSV_HEADERS), Ok(vec![]));
}

#[test]
fn load_reads_every_row() {
    let text = "File Path, MD5 Hash\na.txt,0cc175b9c0f1b6a831c399e269772661\nsub/dir/b.bin,92eb5ffee6ae2fec3ad71c777531578f\n";
    let loaded = load_previous_manifest(text).unwrap();
    assert_eq!(
        loaded,
        vec![
            entry("a.txt", "0cc175b9c0f1b6a831c399e269772661"),
            entry("sub/dir/b.bin", "92eb5ffee6ae2fec3ad71c777531578f"),
        ]
    );
    assert!(loaded.iter().all(|found_file| found_file.file_integrity == FileIntegrity::Unverified));
}

#[test]
fn load_rejects_an_empty_text() {
    assert_eq!(load_previous_manifest(""), Err(ManifestError::Empty));
}

#[test]
fn load_rejects_a_wrong_header() {
    let loaded = load_previous_manifest("File Extension, Occurrences\npdf,3\n");
    assert_eq!(
        loaded,
        Err(ManifestError::InvalidHeader {
            found: "File Extension, Occurrences".to_string(),
            expected: "File Path, MD5 Hash".to_string(),
        })
    );
    let message = loaded.unwrap_err().message();
    assert_eq!(
        message,
        "Invalid FolSum CSV export. Found File Extension, Occurrences when File Path, MD5 Hash was expected"
    );
}

#[test]
fn load_compares_the_header_exactly() {
    for text in [
        "File Path,MD5 Hash\n",
        " File Path, MD5 Hash\n",
        "File Path, MD5 Hash \n",
        "file path, md5 hash\n",
        "\nFile Path, MD5 Hash\n",
    ] {
        assert!(
            matches!(load_previous_manifest(text), Err(ManifestError::InvalidHeader { .. })),
            "{:?}",
            text
        );
    }
}

#[test]
fn load_rejects_a_row_without_comma() {
    let loaded = load_previous_manifest("File Path, MD5 Hash\na.txt,abc\nno items here\nb.txt,def\n");
    assert_eq!(loaded, Err(ManifestError::NoItems { row: "no items here".to_string() }));
    assert_eq!(
        loaded.unwrap_err().message(),
        "Didn't find any items in the CSV row: no items here"
    );
}

#[test]
fn load_rejects_a_row_with_two_commas() {
    let loaded = load_previous_manifest("File Path, MD5 Hash\na.txt,abc\nb,c.txt,def\n");
    assert_eq!(loaded, Err(ManifestError::TooManyItems { row: "b,c.txt,def".to_string() }));
    assert_eq!(
        loaded.unwrap_err().message(),
        "Found more than two items in the CSV row: b,c.txt,def"
    );
}

#[test]
fn load_stops_at_the_first_bad_row() {
    let loaded = load_previous_manifest("File Path, MD5 Hash\na,b,c\nnothing\n");
    assert_eq!(loaded, Err(ManifestError::TooManyItems { row: "a,b,c".to_string() }));
    let loaded = load_previous_manifest("File Path, MD5 Hash\nnothing\na,b,c\n");
    assert_eq!(loaded, Err(ManifestError::NoItems { row: "nothing".to_string() }));
}

#[test]
fn load_rejects_an_empty_row() {
    let loaded = load_previous_manifest("File Path, MD5 Hash\na.txt,abc\n\nb.txt,def\n");
    assert_eq!(loaded, Err(ManifestError::NoItems { row: String::new() }));
}

#[test]
fn load_trims_the_columns() {
    let loaded = load_previous_manifest("File Path, MD5 Hash\n  my file.txt \t, \u{a0}abc\u{3000}\n");
    assert_eq!(loaded, Ok(vec![entry("my file.txt", "abc")]));
}

#[test]
fn load_accepts_empty_columns() {
    assert_eq!(load_previous_manifest("File Path, MD5 Hash\n,\n"), Ok(vec![entry("", "")]));
    assert_eq!(load_previous_manifest("File Path, MD5 Hash\n , \n"), Ok(vec![entry("", "")]));
}

#[test]
fn load_accepts_carriage_returns() {
    let loaded = load_previous_manifest("File Path, MD5 Hash\r\na.txt,abc\r\nb.txt,def\r\n");
    assert_eq!(loaded, Ok(vec![entry("a.txt", "abc"), entry("b.txt", "def")]));
}

#[test]
fn load_accepts_a_last_line_without_line_feed() {
    let loaded = load_previous_manifest("File Path, MD5 Hash\na.txt,abc\nb.txt,def");
    assert_eq!(loaded, Ok(vec![entry("a.txt", "abc"), entry("b.txt", "def")]));
    assert_eq!(load_previous_manifest("File Path, MD5 Hash"), Ok(vec![]));
}

#[test]
fn lines_are_those_of_std() {
    let samples = [
        "",
        "\n",
        "a",
        "a\n",
        "a\nb",
        "a\r\nb\r\n",
        "a\r",
        "a\r\n\r\n",
        "\r\n",
        "a\r\r\nb",
        "\n\na\n\n",
        "é,😱\nx\ry\n",
    ];
    for sample in samples {
        let expected: Vec<String> = sample.lines().map(|line| line.to_string()).collect();
        if sample.ends_with('\r') {
            continue;
        }
        assert_eq!(lines_as_text(sample), expected, "{:?}", sample);
    }
    assert_eq!(lines_as_text("a\r"), vec!["a\r".to_string()]);
}

#[test]
fn row_is_path_comma_digest() {
    assert_eq!(read_row(&text_chars("a/b.txt,abc")), Ok(entry("a/b.txt", "abc")));
    assert_eq!(
        read_row(&text_chars("abc")),
        Err(ManifestError::NoItems { row: "abc".to_string() })
    );
    assert_eq!(
        read_row(&text_chars(",,")),
        Err(ManifestError::TooManyItems { row: ",,".to_string() })
    );
}

#[test]
fn round_trip_keeps_paths_and_digests() {
    let entries = vec![
        entry("a.txt", "0cc175b9c0f1b6a831c399e269772661"),
        entry("sub dir/b file.bin", "92eb5ffee6ae2fec3ad71c777531578f"),
        entry("naïve/😱.txt", "4a8a08f09d37b73795649038408b5f33"),
        entry("", ""),
        entry("deep/er/still/c", "not even hex"),
    ];
    let text = manifest_text(&entries).unwrap();
    let loaded = load_previous_manifest(&text).unwrap();
    assert_eq!(loaded, entries);
}

#[test]
fn round_trip_forgets_verdicts() {
    let mut verified = entry("a.txt", "abc");
    verified.file_integrity = FileIntegrity::NewlyAdded;
    let text = manifest_text(&vec![verified]).unwrap();
    assert_eq!(load_previous_manifest(&text), Ok(vec![entry("a.txt", "abc")]));
}

#[test]
fn round_trip_trims_white_space_around_values() {
    let entries = vec![entry(" padded.txt", "abc ")];
    let text = manifest_text(&entries).unwrap();
    assert_eq!(load_previous_manifest(&text), Ok(vec![entry("padded.txt", "abc")]));
}

#[test]
fn empty_fault_has_words() {
    assert_eq!(ManifestError::Empty.message(), "Found nothing in first line of file");
}
