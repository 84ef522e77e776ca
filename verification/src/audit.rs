//! Audit an inventory against a manifest from an earlier inventory: which
//! files are as listed, which have changed, which are new and which are gone.
use vstd::prelude::*;
use vstd::string::StringExecFns;

use crate::common::{
    chosen_text, DirectoryAuditStatus, FileIntegrity, FileIntegrityDetail, FoundFile,
    FoundFileView,
};
use crate::manifest::{
    load_previous_manifest, manifest_fault_text, parse_manifest, ManifestError, ManifestErrorView,
};

verus! {

/// Why an audit was not made.
#[derive(Debug, PartialEq, Eq)]
pub enum AuditError {
    /// No manifest was chosen to audit against.
    NoManifestChosen,
    /// The chosen manifest cannot be read as one.
    InvalidManifest(ManifestError),
}

/// An [`AuditError`] with the lines it names as text.
pub enum AuditErrorView {
    NoManifestChosen,
    InvalidManifest(ManifestErrorView),
}

impl View for AuditError {
    type V = AuditErrorView;

    open spec fn view(&self) -> AuditErrorView {
        match self {
            AuditError::NoManifestChosen => AuditErrorView::NoManifestChosen,
            AuditError::InvalidManifest(fault) => AuditErrorView::InvalidManifest(fault@),
        }
    }
}

/// What to tell the user of a fault.
pub open spec fn audit_fault_text(fault: AuditErrorView) -> Seq<char> {
    match fault {
        AuditErrorView::NoManifestChosen => "Expected to find a chosen manifest"@,
        AuditErrorView::InvalidManifest(fault) => manifest_fault_text(fault),
    }
}

impl AuditError {
    /// The fault in words.
    pub fn message(&self) -> (text: String)
        ensures
            text@ == audit_fault_text(self@),
    {
        match self {
            AuditError::NoManifestChosen => String::from_str("Expected to find a chosen manifest"),
            AuditError::InvalidManifest(fault) => fault.message(),
        }
    }
}

/// Whether one of `files` has the path `path`.
pub open spec fn holds_path(files: Seq<FoundFileView>, path: Seq<char>) -> bool {
    exists|i: int| 0 <= i < files.len() && #[trigger] files[i].file_path == path
}

/// The first of `manifest` with the path `path`.
pub open spec fn matching_entry(path: Seq<char>, manifest: Seq<FoundFileView>) -> Option<
    FoundFileView,
>
    decreases manifest.len(),
{
    if manifest.len() == 0 {
        None
    } else if manifest.first().file_path == path {
        Some(manifest.first())
    } else {
        matching_entry(path, manifest.drop_first())
    }
}

/// What comparing the digest of an inventoried file with the digest listed
/// for its path shows.
pub open spec fn digest_verdict(inventoried: Seq<char>, listed: Seq<char>) -> FileIntegrity {
    if inventoried == listed {
        FileIntegrity::Verified(
            FileIntegrityDetail { file_path_matches: true, md5_hash_matches: true },
        )
    } else {
        FileIntegrity::VerificationFailed(
            FileIntegrityDetail { file_path_matches: true, md5_hash_matches: false },
        )
    }
}

/// The verdict on an inventoried file: newly added where the manifest does
/// not list its path, else what its digest shows against the first entry that
/// does. What the file was held to be before plays no part.
pub open spec fn verdict_of(file: FoundFileView, manifest: Seq<FoundFileView>) -> FileIntegrity {
    match matching_entry(file.file_path, manifest) {
        Some(entry) => digest_verdict(file.md5_hash, entry.md5_hash),
        None => FileIntegrity::NewlyAdded,
    }
}

/// `file` with its verdict.
pub open spec fn audited_file(file: FoundFileView, manifest: Seq<FoundFileView>) -> FoundFileView {
    FoundFileView {
        file_path: file.file_path,
        md5_hash: file.md5_hash,
        file_integrity: verdict_of(file, manifest),
    }
}

/// `files`, each with its verdict.
pub open spec fn audited(files: Seq<FoundFileView>, manifest: Seq<FoundFileView>) -> Seq<
    FoundFileView,
> {
    Seq::new(files.len(), |i: int| audited_file(files[i], manifest))
}

/// Whether one of `files` failed verification.
pub open spec fn has_failure(files: Seq<FoundFileView>) -> bool {
    exists|i: int| 0 <= i < files.len() && #[trigger] files[i].file_integrity is VerificationFailed
}

/// The verdict on a directory whose files have theirs.
pub open spec fn directory_verdict(files: Seq<FoundFileView>) -> DirectoryAuditStatus {
    if has_failure(files) {
        DirectoryAuditStatus::DiscrepanciesFound
    } else {
        DirectoryAuditStatus::Audited
    }
}

/// The finding for a manifest entry whose file is gone: the entry's path and
/// digest, failed on both counts.
pub open spec fn missing_finding(entry: FoundFileView) -> FoundFileView {
    FoundFileView {
        file_path: entry.file_path,
        md5_hash: entry.md5_hash,
        file_integrity: FileIntegrity::VerificationFailed(
            FileIntegrityDetail { file_path_matches: false, md5_hash_matches: false },
        ),
    }
}

/// One finding for each entry of `manifest` whose path none of `files` has,
/// in the manifest's order.
pub open spec fn missing_files(manifest: Seq<FoundFileView>, files: Seq<FoundFileView>) -> Seq<
    FoundFileView,
>
    decreases manifest.len(),
{
    if manifest.len() == 0 {
        Seq::empty()
    } else if holds_path(files, manifest.last().file_path) {
        missing_files(manifest.drop_last(), files)
    } else {
        missing_files(manifest.drop_last(), files).push(missing_finding(manifest.last()))
    }
}

/// `matching_entry` finds an entry exactly where the manifest lists the path;
/// what it finds is an entry of the manifest with that path.
pub proof fn lemma_matching_entry(path: Seq<char>, manifest: Seq<FoundFileView>)
    ensures
        matching_entry(path, manifest) is Some <==> holds_path(manifest, path),
        matching_entry(path, manifest) matches Some(entry) ==> entry.file_path == path
            && manifest.contains(entry),
    decreases manifest.len(),
{
    if manifest.len() == 0 {
    } else if manifest.first().file_path == path {
        assert(manifest[0].file_path == path);
    } else {
        let rest = manifest.drop_first();
        lemma_matching_entry(path, rest);
        if holds_path(rest, path) {
            let i = choose|i: int| 0 <= i < rest.len() && #[trigger] rest[i].file_path == path;
            assert(manifest[i + 1].file_path == path);
        }
        if holds_path(manifest, path) {
            let i = choose|i: int|
                0 <= i < manifest.len() && #[trigger] manifest[i].file_path == path;
            assert(rest[i - 1].file_path == path);
        }
        if let Some(entry) = matching_entry(path, rest) {
            let i = choose|i: int| 0 <= i < rest.len() && rest[i] == entry;
            assert(manifest[i + 1] == entry);
        }
    }
}

/// An entry with the path, with none before it that has the path, is the one
/// that `matching_entry` finds.
pub proof fn lemma_first_listing(path: Seq<char>, manifest: Seq<FoundFileView>, at: int)
    requires
        0 <= at < manifest.len(),
        manifest[at].file_path == path,
        forall|j: int| 0 <= j < at ==> manifest[j].file_path != path,
    ensures
        matching_entry(path, manifest) == Some(manifest[at]),
    decreases manifest.len(),
{
    if at > 0 {
        let rest = manifest.drop_first();
        assert(manifest[0].file_path != path);
        assert forall|j: int| 0 <= j < at - 1 implies rest[j].file_path != path by {
            assert(rest[j] == manifest[j + 1]);
        }
        lemma_first_listing(path, rest, at - 1);
    }
}

/// Look up the path of an inventoried file in a manifest: the first entry
/// with exactly that path, if there is one.
pub fn lookup_manifest_entry(inventoried_file_path: &String, manifest_entries: &Vec<FoundFile>) -> (found:
    Option<FoundFile>)
    ensures
        match found {
            Some(entry) => matching_entry(inventoried_file_path@, manifest_entries.deep_view())
                == Some(entry@),
            None => matching_entry(inventoried_file_path@, manifest_entries.deep_view()) is None,
        },
{
    let ghost manifest = manifest_entries.deep_view();
    let mut at: usize = 0;
    while at < manifest_entries.len()
        invariant
            at <= manifest_entries@.len(),
            manifest == manifest_entries.deep_view(),
            forall|j: int| 0 <= j < at ==> manifest[j].file_path != inventoried_file_path@,
        decreases manifest_entries@.len() - at,
    {
        if manifest_entries[at].file_path == *inventoried_file_path {
            proof {
                assert(manifest[at as int] == manifest_entries[at as int]@);
                lemma_first_listing(inventoried_file_path@, manifest, at as int);
            }
            return Some(manifest_entries[at].clone());
        }
        at += 1;
    }
    proof {
        lemma_matching_entry(inventoried_file_path@, manifest);
    }
    None
}

/// Decide whether a file is as the manifest lists it. The paths are taken to
/// match, since the entry was found by the file's path; the file is verified
/// where the digests match too, and has failed where they do not.
pub fn assess_integrity(inventoried_file: &FoundFile, manifest_entry: &FoundFile) -> (integrity:
    FileIntegrity)
    ensures
        integrity == digest_verdict(inventoried_file@.md5_hash, manifest_entry@.md5_hash),
{
    let md5_hash_matches = manifest_entry.md5_hash == inventoried_file.md5_hash;
    let integrity_detail = FileIntegrityDetail { file_path_matches: true, md5_hash_matches };
    if integrity_detail.file_path_matches && integrity_detail.md5_hash_matches {
        FileIntegrity::Verified(integrity_detail)
    } else {
        FileIntegrity::VerificationFailed(integrity_detail)
    }
}

/// Whether one of `files` has the path `path`.
pub fn is_inventoried(path: &String, files: &Vec<FoundFile>) -> (inventoried: bool)
    ensures
        inventoried == holds_path(files.deep_view(), path@),
{
    let mut at: usize = 0;
    while at < files.len()
        invariant
            at <= files@.len(),
            forall|j: int| 0 <= j < at ==> (#[trigger] files.deep_view()[j]).file_path != path@,
        decreases files@.len() - at,
    {
        if files[at].file_path == *path {
            proof {
                assert(files.deep_view()[at as int].file_path == path@);
            }
            return true;
        }
        at += 1;
    }
    false
}

/// Whether one of `files` failed verification.
pub fn any_failed(files: &Vec<FoundFile>) -> (failed: bool)
    ensures
        failed == has_failure(files.deep_view()),
{
    let mut at: usize = 0;
    while at < files.len()
        invariant
            at <= files@.len(),
            forall|j: int|
                0 <= j < at ==> !((#[trigger] files.deep_view()[j]).file_integrity
                    is VerificationFailed),
        decreases files@.len() - at,
    {
        if let FileIntegrity::VerificationFailed(_) = files[at].file_integrity {
            proof {
                assert(files.deep_view()[at as int].file_integrity is VerificationFailed);
            }
            return true;
        }
        at += 1;
    }
    false
}

/// The files that the manifest lists and the inventory lacks: one finding
/// for each such entry, with the entry's path and digest.
pub fn find_missing_files(manifest_entries: &Vec<FoundFile>, inventoried_files: &Vec<FoundFile>) -> (missing:
    Vec<FoundFile>)
    ensures
        missing.deep_view() == missing_files(
            manifest_entries.deep_view(),
            inventoried_files.deep_view(),
        ),
{
    let ghost manifest = manifest_entries.deep_view();
    let ghost files = inventoried_files.deep_view();
    let mut missing: Vec<FoundFile> = Vec::new();
    let mut at: usize = 0;
    proof {
        assert(manifest.take(0) =~= Seq::<FoundFileView>::empty());
        assert(missing.deep_view() =~= Seq::<FoundFileView>::empty());
    }
    while at < manifest_entries.len()
        invariant
            at <= manifest_entries@.len(),
            manifest == manifest_entries.deep_view(),
            files == inventoried_files.deep_view(),
            missing.deep_view() == missing_files(manifest.take(at as int), files),
        decreases manifest_entries@.len() - at,
    {
        let entry = &manifest_entries[at];
        let ghost before = missing.deep_view();
        proof {
            assert(manifest.take(at + 1).drop_last() =~= manifest.take(at as int));
            assert(manifest.take(at + 1).last() == entry@);
        }
        if !is_inventoried(&entry.file_path, inventoried_files) {
            let finding = FoundFile {
                file_path: entry.file_path.clone(),
                md5_hash: entry.md5_hash.clone(),
                file_integrity: FileIntegrity::VerificationFailed(
                    FileIntegrityDetail { file_path_matches: false, md5_hash_matches: false },
                ),
            };
            missing.push(finding);
            proof {
                assert(missing.deep_view() =~= before.push(missing_finding(entry@)));
            }
        }
        at += 1;
    }
    proof {
        assert(manifest.take(manifest.len() as int) =~= manifest);
    }
    missing
}

/// Audit an inventory against the entries of a manifest.
///
/// Every inventoried file is judged. It is newly added where the manifest
/// does not list its path, verified where it lists the path with the same
/// digest, failed where it lists the path with another. The directory has
/// discrepancies where one of its inventoried files has failed, and is audited
/// otherwise. The entries whose files are gone come back as findings beside
/// the directory's verdict and do not change it.
pub fn audit_inventory(inventoried_files: &mut Vec<FoundFile>, manifest_entries: &Vec<FoundFile>) -> (outcome:
    (DirectoryAuditStatus, Vec<FoundFile>))
    ensures
        final(inventoried_files).deep_view() == audited(
            old(inventoried_files).deep_view(),
            manifest_entries.deep_view(),
        ),
        outcome.0 == directory_verdict(final(inventoried_files).deep_view()),
        outcome.1.deep_view() == missing_files(
            manifest_entries.deep_view(),
            old(inventoried_files).deep_view(),
        ),
        forall|i: int|
            0 <= i < final(inventoried_files)@.len()
                ==> (#[trigger] final(inventoried_files)@[i]).file_integrity.is_terminal(),
{
    let ghost before = inventoried_files.deep_view();
    let ghost manifest = manifest_entries.deep_view();
    let missing = find_missing_files(manifest_entries, inventoried_files);
    let count = inventoried_files.len();
    let mut at: usize = 0;
    while at < count
        invariant
            at <= count,
            count == inventoried_files@.len(),
            count == before.len(),
            manifest == manifest_entries.deep_view(),
            forall|j: int|
                0 <= j < at ==> (#[trigger] inventoried_files@[j])@ == audited_file(
                    before[j],
                    manifest,
                ),
            forall|j: int| at <= j < count ==> (#[trigger] inventoried_files@[j])@ == before[j],
        decreases count - at,
    {
        let found = lookup_manifest_entry(&inventoried_files[at].file_path, manifest_entries);
        let assessed_integrity = match found {
            Some(matching_manifest_entry) => assess_integrity(
                &inventoried_files[at],
                &matching_manifest_entry,
            ),
            None => FileIntegrity::NewlyAdded,
        };
        inventoried_files[at].file_integrity = assessed_integrity;
        at += 1;
    }
    proof {
        assert(inventoried_files.deep_view() =~= audited(before, manifest));
    }
    let status = if any_failed(inventoried_files) {
        DirectoryAuditStatus::DiscrepanciesFound
    } else {
        DirectoryAuditStatus::Audited
    };
    (status, missing)
}

/// What an audit against the text of a manifest comes to: the audited files,
/// the directory's verdict and the findings, or why there was no audit.
pub open spec fn audit_result(
    files: Seq<FoundFileView>,
    chosen_manifest: Option<Seq<char>>,
) -> Result<(Seq<FoundFileView>, DirectoryAuditStatus, Seq<FoundFileView>), AuditErrorView> {
    match chosen_manifest {
        None => Err(AuditErrorView::NoManifestChosen),
        Some(text) => match parse_manifest(text) {
            Err(fault) => Err(AuditErrorView::InvalidManifest(fault)),
            Ok(manifest) => Ok(
                (
                    audited(files, manifest),
                    directory_verdict(audited(files, manifest)),
                    missing_files(manifest, files),
                ),
            ),
        },
    }
}

/// Audit directory inventory against a manifest of an earlier inventory,
/// given as the text of the chosen manifest file.
///
/// Where no manifest was chosen nothing changes. Where the text is no
/// manifest the inventory stays as it is and the register is left in progress:
/// the audit began and came to no verdict. Otherwise every inventoried file
/// gets its verdict, the register gets the directory's, and the manifest
/// entries whose files are gone are returned as findings.
pub fn audit_directory_inventory(
    inventoried_files: &mut Vec<FoundFile>,
    directory_audit_status: &mut DirectoryAuditStatus,
    chosen_manifest: &Option<String>,
) -> (findings: Result<Vec<FoundFile>, AuditError>)
    ensures
        match audit_result(old(inventoried_files).deep_view(), chosen_text(*chosen_manifest)) {
            Ok((files, status, missing)) => {
                &&& findings matches Ok(found)
                &&& found.deep_view() == missing
                &&& final(inventoried_files).deep_view() == files
                &&& *final(directory_audit_status) == status
            },
            Err(fault) => {
                &&& findings matches Err(raised)
                &&& raised@ == fault
                &&& final(inventoried_files).deep_view() == old(inventoried_files).deep_view()
                &&& *final(directory_audit_status) == (if chosen_manifest is None {
                    *old(directory_audit_status)
                } else {
                    DirectoryAuditStatus::InProgress
                })
            },
        },
{
    let manifest_text = match chosen_manifest {
        Some(manifest_text) => manifest_text,
        None => {
            return Err(AuditError::NoManifestChosen);
        },
    };
    *directory_audit_status = DirectoryAuditStatus::InProgress;
    let manifest_entries = match load_previous_manifest(manifest_text.as_str()) {
        Ok(manifest_entries) => manifest_entries,
        Err(fault) => {
            return Err(AuditError::InvalidManifest(fault));
        },
    };
    let (status, missing) = audit_inventory(inventoried_files, &manifest_entries);
    *directory_audit_status = status;
    Ok(missing)
}

/// Whether `manifest` lists no path twice.
pub open spec fn lists_each_path_once(manifest: Seq<FoundFileView>) -> bool {
    forall|j: int, k: int|
        0 <= j < k < manifest.len() ==> (#[trigger] manifest[j]).file_path != (
        #[trigger] manifest[k]).file_path
}

/// Whether `manifest` lists the path of `file` with the digest of `file`.
pub open spec fn lists_file(manifest: Seq<FoundFileView>, file: FoundFileView) -> bool {
    exists|j: int|
        0 <= j < manifest.len() && (#[trigger] manifest[j]).file_path == file.file_path
            && manifest[j].md5_hash == file.md5_hash
}

/// Whether `manifest` lists the path of `file` with another digest than that
/// of `file`.
pub open spec fn lists_other_digest(manifest: Seq<FoundFileView>, file: FoundFileView) -> bool {
    exists|j: int|
        0 <= j < manifest.len() && (#[trigger] manifest[j]).file_path == file.file_path
            && manifest[j].md5_hash != file.md5_hash
}

/// The verdict on a file that passed on both counts.
pub open spec fn verified() -> FileIntegrity {
    FileIntegrity::Verified(FileIntegrityDetail { file_path_matches: true, md5_hash_matches: true })
}

/// The verdict on a file whose path is listed with another digest.
pub open spec fn digest_mismatch() -> FileIntegrity {
    FileIntegrity::VerificationFailed(
        FileIntegrityDetail { file_path_matches: true, md5_hash_matches: false },
    )
}

/// In a manifest that lists no path twice, any entry with the path is the one
/// that `matching_entry` finds.
pub proof fn lemma_only_listing(manifest: Seq<FoundFileView>, at: int)
    requires
        lists_each_path_once(manifest),
        0 <= at < manifest.len(),
    ensures
        matching_entry(manifest[at].file_path, manifest) == Some(manifest[at]),
{
    assert forall|j: int| 0 <= j < at implies manifest[j].file_path != manifest[at].file_path by {
        assert(manifest[j].file_path != manifest[at].file_path);
    }
    lemma_first_listing(manifest[at].file_path, manifest, at);
}

/// Every verdict of an audit is one that an audit may leave behind.
pub proof fn lemma_verdicts_are_terminal(files: Seq<FoundFileView>, manifest: Seq<FoundFileView>)
    ensures
        forall|i: int|
            0 <= i < files.len() ==> (#[trigger] audited(
                files,
                manifest,
            )[i]).file_integrity.is_terminal(),
{
}

/// A directory whose files are exactly those that the manifest lists, each
/// with the digest listed for it, passes: every file is verified, the
/// directory is audited, and no file is found missing.
pub proof fn lemma_unchanged_directory_is_audited(
    files: Seq<FoundFileView>,
    manifest: Seq<FoundFileView>,
)
    requires
        lists_each_path_once(manifest),
        forall|i: int| 0 <= i < files.len() ==> lists_file(manifest, #[trigger] files[i]),
        forall|j: int|
            0 <= j < manifest.len() ==> holds_path(files, (#[trigger] manifest[j]).file_path),
    ensures
        forall|i: int|
            0 <= i < files.len() ==> (#[trigger] audited(files, manifest)[i]).file_integrity
                == verified(),
        directory_verdict(audited(files, manifest)) == DirectoryAuditStatus::Audited,
        missing_files(manifest, files).len() == 0,
{
    lemma_listed_files_are_verified(files, manifest);
    lemma_nothing_missing(manifest, files, manifest.len() as int);
    assert(manifest.take(manifest.len() as int) =~= manifest);
}

/// Where the inventory holds the path of each of the first entries, none of
/// them is found missing.
pub proof fn lemma_nothing_missing(
    manifest: Seq<FoundFileView>,
    files: Seq<FoundFileView>,
    upto: int,
)
    requires
        0 <= upto <= manifest.len(),
        forall|j: int| 0 <= j < upto ==> holds_path(files, (#[trigger] manifest[j]).file_path),
    ensures
        missing_files(manifest.take(upto), files).len() == 0,
    decreases upto,
{
    if upto > 0 {
        lemma_nothing_missing(manifest, files, upto - 1);
        assert(manifest.take(upto).drop_last() =~= manifest.take(upto - 1));
        assert(manifest.take(upto).last() == manifest[upto - 1]);
    }
}

/// A file that the manifest lists with its digest is verified, and one whose
/// path it does not list is newly added, where the manifest lists no path
/// twice; a directory of such files is audited. So a newly added file alone
/// makes no discrepancy.
pub proof fn lemma_listed_files_are_verified(
    files: Seq<FoundFileView>,
    manifest: Seq<FoundFileView>,
)
    requires
        lists_each_path_once(manifest),
        forall|i: int|
            0 <= i < files.len() ==> lists_file(manifest, #[trigger] files[i]) || !holds_path(
                manifest,
                files[i].file_path,
            ),
    ensures
        forall|i: int|
            0 <= i < files.len() && lists_file(manifest, files[i]) ==> (#[trigger] audited(
                files,
                manifest,
            )[i]).file_integrity == verified(),
        forall|i: int|
            0 <= i < files.len() && !holds_path(manifest, files[i].file_path) ==> (
            #[trigger] audited(files, manifest)[i]).file_integrity == FileIntegrity::NewlyAdded,
        directory_verdict(audited(files, manifest)) == DirectoryAuditStatus::Audited,
{
    assert forall|i: int| 0 <= i < files.len() implies !((#[trigger] audited(
        files,
        manifest,
    )[i]).file_integrity is VerificationFailed) && (lists_file(manifest, files[i]) ==> audited(
        files,
        manifest,
    )[i].file_integrity == verified()) && (!holds_path(manifest, files[i].file_path) ==> audited(
        files,
        manifest,
    )[i].file_integrity == FileIntegrity::NewlyAdded) by {
        lemma_matching_entry(files[i].file_path, manifest);
        if lists_file(manifest, files[i]) {
            let j = choose|j: int|
                0 <= j < manifest.len() && (#[trigger] manifest[j]).file_path == files[i].file_path
                    && manifest[j].md5_hash == files[i].md5_hash;
            lemma_only_listing(manifest, j);
        }
    }
}

/// A file that the manifest does not list is newly added, whatever else the
/// audit finds.
pub proof fn lemma_unlisted_file_is_newly_added(
    files: Seq<FoundFileView>,
    manifest: Seq<FoundFileView>,
    added: int,
)
    requires
        0 <= added < files.len(),
        !holds_path(manifest, files[added].file_path),
    ensures
        audited(files, manifest)[added].file_integrity == FileIntegrity::NewlyAdded,
{
    lemma_matching_entry(files[added].file_path, manifest);
}

/// Where the manifest lists every file with its digest but for one, whose
/// path it lists with another digest, that file alone has failed, by its
/// digest and not by its path, every other file is verified, and the
/// directory has discrepancies.
pub proof fn lemma_one_changed_file_is_found(
    files: Seq<FoundFileView>,
    manifest: Seq<FoundFileView>,
    changed: int,
)
    requires
        lists_each_path_once(manifest),
        0 <= changed < files.len(),
        lists_other_digest(manifest, files[changed]),
        forall|i: int|
            0 <= i < files.len() && i != changed ==> lists_file(manifest, #[trigger] files[i]),
    ensures
        audited(files, manifest)[changed].file_integrity == digest_mismatch(),
        forall|i: int|
            0 <= i < files.len() && i != changed ==> (#[trigger] audited(
                files,
                manifest,
            )[i]).file_integrity == verified(),
        directory_verdict(audited(files, manifest)) == DirectoryAuditStatus::DiscrepanciesFound,
{
    let j = choose|j: int|
        0 <= j < manifest.len() && (#[trigger] manifest[j]).file_path == files[changed].file_path
            && manifest[j].md5_hash != files[changed].md5_hash;
    lemma_only_listing(manifest, j);
    assert forall|i: int| 0 <= i < files.len() && i != changed implies (#[trigger] audited(
        files,
        manifest,
    )[i]).file_integrity == verified() by {
        let k = choose|k: int|
            0 <= k < manifest.len() && (#[trigger] manifest[k]).file_path == files[i].file_path
                && manifest[k].md5_hash == files[i].md5_hash;
        lemma_only_listing(manifest, k);
    }
    assert(audited(files, manifest)[changed].file_integrity is VerificationFailed);
}

/// An entry of the manifest whose path no inventoried file has is among the
/// findings, with the entry's path and digest, failed by its path.
pub proof fn lemma_missing_file_is_found(
    manifest: Seq<FoundFileView>,
    files: Seq<FoundFileView>,
    gone: int,
)
    requires
        0 <= gone < manifest.len(),
        !holds_path(files, manifest[gone].file_path),
    ensures
        missing_files(manifest, files).contains(missing_finding(manifest[gone])),
    decreases manifest.len(),
{
    let found = missing_files(manifest, files);
    if gone == manifest.len() - 1 {
        assert(found[found.len() - 1] == missing_finding(manifest[gone]));
    } else {
        let front = manifest.drop_last();
        assert(front[gone] == manifest[gone]);
        lemma_missing_file_is_found(front, files, gone);
        let earlier = missing_files(front, files);
        let k = choose|k: int| 0 <= k < earlier.len() && earlier[k] == missing_finding(
            manifest[gone],
        );
        assert(found[k] == earlier[k]);
    }
}

/// Every finding stands for an entry of the manifest whose path no
/// inventoried file has.
pub proof fn lemma_findings_are_missing(
    manifest: Seq<FoundFileView>,
    files: Seq<FoundFileView>,
    at: int,
)
    requires
        0 <= at < missing_files(manifest, files).len(),
    ensures
        exists|j: int|
            0 <= j < manifest.len() && !holds_path(files, (#[trigger] manifest[j]).file_path)
                && missing_files(manifest, files)[at] == missing_finding(manifest[j]),
    decreases manifest.len(),
{
    let front = manifest.drop_last();
    let earlier = missing_files(front, files);
    if at < earlier.len() {
        lemma_findings_are_missing(front, files, at);
        let j = choose|j: int|
            0 <= j < front.len() && !holds_path(files, (#[trigger] front[j]).file_path)
                && earlier[at] == missing_finding(front[j]);
        assert(manifest[j] == front[j]);
    } else {
        assert(!holds_path(files, manifest[manifest.len() - 1].file_path));
    }
}

/// An audit changes no path, so the same paths are inventoried after it.
pub proof fn lemma_audit_keeps_paths(
    files: Seq<FoundFileView>,
    manifest: Seq<FoundFileView>,
    path: Seq<char>,
)
    ensures
        holds_path(audited(files, manifest), path) <==> holds_path(files, path),
{
    let after = audited(files, manifest);
    if holds_path(files, path) {
        let i = choose|i: int| 0 <= i < files.len() && #[trigger] files[i].file_path == path;
        assert(after[i].file_path == path);
    }
    if holds_path(after, path) {
        let i = choose|i: int| 0 <= i < after.len() && #[trigger] after[i].file_path == path;
        assert(files[i].file_path == path);
    }
}

/// The findings of an audit are the same before it and after it.
pub proof fn lemma_audit_keeps_findings(
    files: Seq<FoundFileView>,
    manifest: Seq<FoundFileView>,
    listed: Seq<FoundFileView>,
)
    ensures
        missing_files(listed, audited(files, manifest)) == missing_files(listed, files),
    decreases listed.len(),
{
    if listed.len() > 0 {
        lemma_audit_keeps_findings(files, manifest, listed.drop_last());
        lemma_audit_keeps_paths(files, manifest, listed.last().file_path);
    }
}

/// Auditing an audited inventory against the same manifest once more changes
/// nothing: the same verdict on every file and on the directory, and the same
/// findings.
pub proof fn lemma_audit_is_idempotent(files: Seq<FoundFileView>, manifest: Seq<FoundFileView>)
    ensures
        audited(audited(files, manifest), manifest) == audited(files, manifest),
        directory_verdict(audited(audited(files, manifest), manifest)) == directory_verdict(
            audited(files, manifest),
        ),
        missing_files(manifest, audited(files, manifest)) == missing_files(manifest, files),
{
    assert(audited(audited(files, manifest), manifest) =~= audited(files, manifest));
    lemma_audit_keeps_findings(files, manifest, manifest);
}

} // verus!
