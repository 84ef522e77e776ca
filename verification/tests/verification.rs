use folsum::file_date::read_number;
use folsum::text::{split_chars, text_chars};
use folsum::{
    export_file_name, manifest_to_audit, most_recent_manifest, FileDate, VerificationManifest,
};

fn dated(year: i32, month: u32, day: u32, hour: u32, minute: u32) -> FileDate {
    FileDate { year, month, day, hour, minute }
}

fn manifest_named(file_name: &str) -> Option<VerificationManifest> {
    VerificationManifest::new(format!("docs/{file_name}"), file_name)
}

fn parts_of(text: &str, separator: char) -> Vec<String> {
    split_chars(&text_chars(text), separator)
        .into_iter()
        .map(|part| part.into_iter().collect())
        .collect()
}

#[test]
fn parts_are_those_between_separators() {
    assert_eq!(parts_of("", '-'), vec![""]);
    assert_eq!(parts_of("abc", '-'), vec!["abc"]);
    assert_eq!(parts_of("a-b--c", '-'), vec!["a", "b", "", "c"]);
    assert_eq!(parts_of("-", '-'), vec!["", ""]);
    assert_eq!(parts_of("a-", '-'), vec!["a", ""]);
    assert_eq!(parts_of("2024-1-2-3-4", '-'), vec!["2024", "1", "2", "3", "4"]);
    for sample in ["", "x", "-x-", "a--b", "é-😱-"] {
        let expected: Vec<String> = sample.split('-').map(|part| part.to_string()).collect();
        assert_eq!(parts_of(sample, '-'), expected);
    }
}

#[test]
fn numbers_are_read_from_digits() {
    assert_eq!(read_number(&text_chars("0")), Some(0));
    assert_eq!(read_number(&text_chars("7")), Some(7));
    assert_eq!(read_number(&text_chars("007")), Some(7));
    assert_eq!(read_number(&text_chars("2024")), Some(2024));
    assert_eq!(read_number(&text_chars("999999999")), Some(999_999_999));
    assert_eq!(read_number(&text_chars("")), None);
    assert_eq!(read_number(&text_chars("1234567890")), None);
    assert_eq!(read_number(&text_chars("12a")), None);
    assert_eq!(read_number(&text_chars("+12")), None);
    assert_eq!(read_number(&text_chars("-12")), None);
    assert_eq!(read_number(&text_chars(" 12")), None);
    assert_eq!(read_number(&text_chars("１２")), None);
}

#[test]
fn prefix_is_read_as_it_is_written() {
    assert_eq!(
        FileDate::from_prefix(&text_chars("2024-12-25-8-5")),
        Some(dated(2024, 12, 25, 8, 5))
    );
    assert_eq!(FileDate::from_prefix(&text_chars("0987-1-2-0-0")), Some(dated(987, 1, 2, 0, 0)));
    for prefix in [
        "",
        "2024",
        "2024-12-25-8",
        "2024-12-25-8-5-0",
        "2024-12-25-08-05",
        "2024-012-25-8-5",
        "987-1-2-0-0",
        "02024-1-2-0-0",
        "2024-2-30-0-0",
        "2023-2-29-0-0",
        "2024-1-1-24-0",
        "2024-1-1-0-60",
        "2024-0-1-0-0",
        "2024-1-1-0-",
        "2024-1-1--0",
        "2024-1-1-0-x",
        " 2024-1-1-0-0",
        "2024_1_1_0_0",
    ] {
        assert_eq!(FileDate::from_prefix(&text_chars(prefix)), None, "{:?}", prefix);
    }
}

#[test]
fn every_written_prefix_is_read_back() {
    for year in [0, 1, 999, 1000, 1999, 2000, 2024, 9999] {
        for month in 1..=12 {
            for day in [1, 9, 10, 28, 29, 30, 31] {
                for (hour, minute) in [(0, 0), (9, 9), (10, 10), (23, 59)] {
                    let date = dated(year, month, day, hour, minute);
                    match date.file_prefix() {
                        Some(prefix) => {
                            assert!(date.check());
                            assert_eq!(FileDate::from_prefix(&text_chars(&prefix)), Some(date));
                        }
                        None => assert!(!date.check()),
                    }
                }
            }
        }
    }
}

#[test]
fn manifest_is_known_by_its_name() {
    assert_eq!(
        manifest_named("2024-12-25-8-5_docs.folsum.csv"),
        Some(VerificationManifest {
            file_path: "docs/2024-12-25-8-5_docs.folsum.csv".to_string(),
            date_created: dated(2024, 12, 25, 8, 5),
        })
    );
    assert_eq!(
        manifest_named("2024-1-2-3-4_my_own files.folsum.csv").map(|found| found.date_created),
        Some(dated(2024, 1, 2, 3, 4))
    );
    assert_eq!(
        manifest_named("2024-1-2-3-4_.folsum.csv").map(|found| found.date_created),
        Some(dated(2024, 1, 2, 3, 4))
    );
    assert_eq!(
        manifest_named("2024-1-2-3-4_.folsum.csv.folsum.csv").map(|found| found.date_created),
        Some(dated(2024, 1, 2, 3, 4))
    );
}

#[test]
fn other_names_are_no_manifests() {
    for file_name in [
        "",
        "docs.folsum.csv",
        "notes.txt",
        "2024-12-25-8-5_docs.csv",
        "2024-12-25-8-5_docs.folsum.csv.bak",
        "2024-12-25-8-5.folsum.csv",
        "2024-12-25-8-5_docs.FOLSUM.CSV",
        "2024-12-25-08-05_docs.folsum.csv",
        "2024-2-30-1-1_docs.folsum.csv",
        "24-1-1-1-1_docs.folsum.csv",
        "2024-1-1-1_docs.folsum.csv",
        "_2024-1-1-1-1_docs.folsum.csv",
        "2024-1-1-1-1_folsum.csv",
        ".folsum.csv",
        "_.folsum.csv",
    ] {
        assert_eq!(manifest_named(file_name), None, "{:?}", file_name);
    }
}

#[test]
fn exported_name_is_read_back() {
    for directory_name in ["docs", "", "my_files", "2020-1-1-1-1_old.folsum.csv", "é 😱"] {
        let date = dated(2025, 3, 7, 9, 5);
        let file_name = export_file_name(&date, directory_name).unwrap();
        let found = VerificationManifest::new(file_name.clone(), &file_name).unwrap();
        assert_eq!(found.date_created, date);
        assert_eq!(found.file_path, file_name);
        assert_eq!(found.clone(), found);
    }
}

#[test]
fn most_recent_manifest_is_the_latest() {
    let manifests: Vec<VerificationManifest> = [
        "2024-12-25-8-5_docs.folsum.csv",
        "2025-1-1-0-0_docs.folsum.csv",
        "2024-12-31-23-59_docs.folsum.csv",
        "2025-1-1-0-0_other.folsum.csv",
        "2023-6-6-6-6_docs.folsum.csv",
    ]
    .iter()
    .map(|file_name| manifest_named(file_name).unwrap())
    .collect();
    assert_eq!(most_recent_manifest(&manifests), Some(1));
    assert_eq!(most_recent_manifest(&manifests[2..].to_vec()), Some(1));
    assert_eq!(most_recent_manifest(&manifests[..1].to_vec()), Some(0));
    assert_eq!(most_recent_manifest(&vec![]), None);
}

#[test]
fn later_is_by_date_and_not_by_text() {
    let manifests: Vec<VerificationManifest> =
        ["2024-9-30-1-1_d.folsum.csv", "2024-10-2-1-1_d.folsum.csv", "2024-10-11-0-0_d.folsum.csv"]
            .iter()
            .map(|file_name| manifest_named(file_name).unwrap())
            .collect();
    assert_eq!(most_recent_manifest(&manifests), Some(2));
}

#[test]
fn audit_is_held_against_the_chosen_manifest() {
    let discovered: Vec<VerificationManifest> =
        ["2024-12-25-8-5_docs.folsum.csv", "2025-1-1-0-0_docs.folsum.csv"]
            .iter()
            .map(|file_name| manifest_named(file_name).unwrap())
            .collect();
    assert_eq!(
        manifest_to_audit(&Some("elsewhere/chosen.csv".to_string()), &discovered),
        Some("elsewhere/chosen.csv".to_string())
    );
    assert_eq!(
        manifest_to_audit(&None, &discovered),
        Some("docs/2025-1-1-0-0_docs.folsum.csv".to_string())
    );
    assert_eq!(manifest_to_audit(&None, &vec![]), None);
    assert_eq!(
        manifest_to_audit(&Some("chosen.csv".to_string()), &vec![]),
        Some("chosen.csv".to_string())
    );
}
