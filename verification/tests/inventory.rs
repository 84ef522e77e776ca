use rand::distr::Alphanumeric;
use rand::{rng, Rng};

use folsum::inventory::NO_INVENTORY_PATH;
use folsum::{
    audit_directory_inventory, complete_inventory, entry_is_inventoried, get_md5_hash,
    inventory_directory,
    load_previous_manifest, manifest_text, record_found_file, DirectoryAuditStatus, FileIntegrity,
    FileIntegrityDetail, FoundFile, InventoryStatus, ManifestCreationStatus,
};

/// Create an "answer key" of fake file paths, each up to `max_depth`
/// directories deep.
fn generate_fake_file_paths(total_files: u32, max_depth: u16) -> Vec<String> {
    let mut random_number_generator = rng();
    let mut fake_paths = Vec::new();
    let file_extensions: Vec<&str> = vec![
        "pdf", "docx", "exe", "txt", "xlsx", "jpg", "png", "gif", "mp4", "avi", "mkv", "dll",
        "sys", "app", "dmg", "zip", "iso", "pages", "numbers", "7zip", "html", "py", "rs", "js",
        "rs",
    ];
    for _ in 0..total_files {
        let current_depth = random_number_generator.random_range(0..=max_depth);
        let mut components: Vec<String> = Vec::new();
        for _ in 0..current_depth {
            let dir_name: String =
                (&mut random_number_generator).sample_iter(&Alphanumeric).take(8).map(char::from).collect();
            components.push(dir_name);
        }
        let file_stem: String = rng().sample_iter(&Alphanumeric).take(10).map(char::from).collect();
        let this_extension = file_extensions[rng().random_range(0..file_extensions.len())];
        components.push(format!("{}.{}", file_stem, this_extension));
        fake_paths.push(components.join("/"));
    }
    fake_paths
}

/// Make up a hundred random characters for each path, so that each file has
/// another fingerprint.
fn create_fake_files(desired_filepaths: &Vec<String>) -> Vec<(String, Vec<u8>)> {
    desired_filepaths
        .iter()
        .map(|file_path| {
            let contents: Vec<u8> = rng().sample_iter(&Alphanumeric).take(100).collect();
            (file_path.clone(), contents)
        })
        .collect()
}

/// Inventory fake files from start to end, as a walk over them would.
fn perform_fake_inventory(expected_file_paths: &Vec<String>) -> (Vec<FoundFile>, Vec<String>) {
    let fake_files = create_fake_files(expected_file_paths);
    let expected_md5_hashes: Vec<String> =
        fake_files.iter().map(|(_, contents)| get_md5_hash(contents)).collect();

    let chosen_inventory_path = Some("testdir".to_string());
    let mut file_paths = vec![];
    let mut time_taken = 0;
    let mut inventory_status = InventoryStatus::NotStarted;
    let mut directory_audit_status = DirectoryAuditStatus::Unaudited;
    let mut manifest_creation_status = ManifestCreationStatus::NotStarted;

    inventory_directory(
        &chosen_inventory_path,
        &mut file_paths,
        &mut inventory_status,
        &mut directory_audit_status,
        &mut manifest_creation_status,
    )
    .unwrap();
    for (elapsed, (file_path, contents)) in fake_files.iter().enumerate() {
        record_found_file(
            &mut file_paths,
            &mut time_taken,
            file_path.clone(),
            contents,
            elapsed as u128,
        );
    }
    complete_inventory(&mut inventory_status);
    assert_eq!(inventory_status, InventoryStatus::Done);

    (file_paths, expected_md5_hashes)
}

#[test]
fn test_directory_inventory_integrity_valid() {
    let expected_file_paths = generate_fake_file_paths(20, 3);

    let (file_paths, expected_md5_hashes) = perform_fake_inventory(&expected_file_paths);

    assert_eq!(file_paths.len(), 20);
    for actual_found_file in file_paths.iter() {
        let actual_file_path = &actual_found_file.file_path;
        assert!(
            expected_file_paths.contains(actual_file_path),
            "Expected to find {actual_file_path:?} in {expected_file_paths:?}"
        );
        let actual_md5_hash = &actual_found_file.md5_hash;
        assert!(
            expected_md5_hashes.contains(actual_md5_hash),
            "Expected to find {actual_file_path:?} in {expected_file_paths:?}"
        );
    }
}

#[test]
fn test_directory_inventory_integrity_invalid() {
    let expected_file_paths = generate_fake_file_paths(20, 3);

    let (file_paths, mut expected_md5_hashes) = perform_fake_inventory(&expected_file_paths);

    let pre_perturbed_hash = expected_md5_hashes.first().unwrap().clone();
    *expected_md5_hashes.first_mut().unwrap() = "😱😱😱😱😱😱😱😱😱😱😱😱😱😱😱😱😱😱".to_string();

    let mut existence_check_failures: Vec<&String> = vec![];
    let mut hash_match_failures: Vec<&String> = vec![];
    for actual_found_file in file_paths.iter() {
        let actual_file_path = &actual_found_file.file_path;
        if !expected_file_paths.contains(actual_file_path) {
            existence_check_failures.push(actual_file_path);
        }
        let actual_md5_hash = &actual_found_file.md5_hash;
        if !expected_md5_hashes.contains(actual_md5_hash) {
            hash_match_failures.push(actual_md5_hash);
        }
    }

    assert!(
        existence_check_failures.is_empty(),
        "Didn't find file_path {existence_check_failures:?} in {expected_file_paths:?}"
    );
    println!("pre_perturbed_hash = {:#?}", pre_perturbed_hash);
    assert_eq!(
        hash_match_failures.len(),
        1,
        "Expected to find only one hash match failure in {expected_md5_hashes:?}"
    );
    let hash_match_failure = hash_match_failures.first().cloned().unwrap();
    assert!(
        pre_perturbed_hash == *hash_match_failure,
        "Expected the perturbed hash to be {pre_perturbed_hash:?} but found {hash_match_failure:?} instead."
    );
}

#[test]
fn audit_finds_the_perturbed_digest_of_an_exported_inventory() {
    let expected_file_paths = generate_fake_file_paths(20, 3);
    let (mut file_paths, _) = perform_fake_inventory(&expected_file_paths);

    let manifest = manifest_text(&file_paths).unwrap();
    let mut manifest_entries = load_previous_manifest(&manifest).unwrap();
    assert_eq!(manifest_entries.len(), 20);
    let perturbed_path = manifest_entries[0].file_path.clone();
    let perturbed_hash = "😱😱😱😱😱😱😱😱😱😱😱😱😱😱😱😱😱😱".to_string();
    manifest_entries[0].md5_hash = perturbed_hash.clone();
    let perturbed_manifest = manifest_text(&manifest_entries).unwrap();

    let mut directory_audit_status = DirectoryAuditStatus::Unaudited;
    let findings = audit_directory_inventory(
        &mut file_paths,
        &mut directory_audit_status,
        &Some(perturbed_manifest),
    );

    assert_eq!(findings, Ok(vec![]));
    assert_eq!(directory_audit_status, DirectoryAuditStatus::DiscrepanciesFound);
    let failed: Vec<&FoundFile> = file_paths
        .iter()
        .filter(|file| matches!(file.file_integrity, FileIntegrity::VerificationFailed(_)))
        .collect();
    assert_eq!(failed.len(), 1);
    assert_eq!(failed[0].file_path, perturbed_path);
    assert_eq!(
        failed[0].file_integrity,
        FileIntegrity::VerificationFailed(FileIntegrityDetail {
            file_path_matches: true,
            md5_hash_matches: false,
        })
    );
    let listed = manifest_entries.iter().find(|entry| entry.file_path == failed[0].file_path);
    assert_eq!(listed.unwrap().md5_hash, perturbed_hash);
    let verified = file_paths
        .iter()
        .filter(|file| matches!(file.file_integrity, FileIntegrity::Verified(_)))
        .count();
    assert_eq!(verified, 19);
}

#[test]
fn inventory_needs_a_chosen_directory() {
    let mut file_paths = vec![FoundFile::new("old.txt".to_string(), "abc".to_string())];
    let mut inventory_status = InventoryStatus::Done;
    let mut directory_audit_status = DirectoryAuditStatus::Audited;
    let mut manifest_creation_status = ManifestCreationStatus::Done("old.folsum.csv".to_string());

    let started = inventory_directory(
        &None,
        &mut file_paths,
        &mut inventory_status,
        &mut directory_audit_status,
        &mut manifest_creation_status,
    );

    assert_eq!(started, Err("No inventory path was provided"));
    assert_eq!(NO_INVENTORY_PATH, "No inventory path was provided");
    assert_eq!(file_paths, vec![FoundFile::new("old.txt".to_string(), "abc".to_string())]);
    assert_eq!(inventory_status, InventoryStatus::Done);
    assert_eq!(directory_audit_status, DirectoryAuditStatus::Audited);
    assert_eq!(
        manifest_creation_status,
        ManifestCreationStatus::Done("old.folsum.csv".to_string())
    );
}

#[test]
fn inventory_starts_afresh() {
    let mut file_paths = vec![FoundFile::new("old.txt".to_string(), "abc".to_string())];
    let mut inventory_status = InventoryStatus::Done;
    let mut directory_audit_status = DirectoryAuditStatus::DiscrepanciesFound;
    let mut manifest_creation_status = ManifestCreationStatus::Done("old.folsum.csv".to_string());

    let started = inventory_directory(
        &Some("docs".to_string()),
        &mut file_paths,
        &mut inventory_status,
        &mut directory_audit_status,
        &mut manifest_creation_status,
    );

    assert_eq!(started, Ok(()));
    assert!(file_paths.is_empty());
    assert_eq!(inventory_status, InventoryStatus::InProgress);
    assert_eq!(directory_audit_status, DirectoryAuditStatus::Unaudited);
    assert_eq!(manifest_creation_status, ManifestCreationStatus::NotStarted);
}

#[test]
fn found_file_is_recorded_with_its_fingerprint() {
    let mut file_paths = vec![];
    let mut time_taken = 0;

    record_found_file(&mut file_paths, &mut time_taken, "hello.txt".to_string(), b"Hello, world!", 12);
    record_found_file(&mut file_paths, &mut time_taken, "sub/empty".to_string(), b"", 40);

    assert_eq!(time_taken, 40);
    assert_eq!(
        file_paths,
        vec![
            FoundFile {
                file_path: "hello.txt".to_string(),
                md5_hash: "6cd3556deb0da54bca060b4c39479839".to_string(),
                file_integrity: FileIntegrity::Unverified,
            },
            FoundFile {
                file_path: "sub/empty".to_string(),
                md5_hash: "d41d8cd98f00b204e9800998ecf8427e".to_string(),
                file_integrity: FileIntegrity::Unverified,
            },
        ]
    );
}

#[test]
fn new_found_file_is_unverified() {
    let found_file = FoundFile::new("a/b.txt".to_string(), "abc".to_string());
    assert_eq!(found_file.file_path, "a/b.txt");
    assert_eq!(found_file.md5_hash, "abc");
    assert_eq!(found_file.file_integrity, FileIntegrity::Unverified);
    assert_eq!(found_file.clone(), found_file);

    let empty = FoundFile::default();
    assert_eq!(empty, FoundFile::new(String::new(), String::new()));
    assert_eq!(FileIntegrity::default(), FileIntegrity::Unverified);
    assert_eq!(
        FileIntegrityDetail::default(),
        FileIntegrityDetail { file_path_matches: false, md5_hash_matches: false }
    );
}

#[test]
fn creation_status_is_cloned_with_its_path() {
    for status in [
        ManifestCreationStatus::NotStarted,
        ManifestCreationStatus::InProgress,
        ManifestCreationStatus::Done("docs/2024-1-2-3-4_docs.folsum.csv".to_string()),
    ] {
        assert_eq!(status.clone(), status);
    }
}

#[test]
fn walk_records_files_below_the_directory() {
    assert!(entry_is_inventoried(1, false));
    assert!(entry_is_inventoried(4, false));
    assert!(!entry_is_inventoried(0, true));
    assert!(!entry_is_inventoried(0, false));
    assert!(!entry_is_inventoried(1, true));
    assert!(!entry_is_inventoried(3, true));
}
