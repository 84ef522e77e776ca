//! The records and status registers that the inventory, the manifest export
//! and the audit share.
use vstd::prelude::*;

verus! {

/// First line of every manifest, with the line feed that ends it.
pub const CSV_HEADERS: &'static str = "File Path, MD5 Hash\n";

/// Date pattern of the prefix of a manifest's file name: year, month, day,
/// hour and minute, joined by hyphens, only the year padded.
pub const FILEDATE_PREFIX_FORMAT: &'static str = "%Y-%-m-%-d-%-H-%-M";

/// End of every manifest's file name.
pub const FOLSUM_CSV_EXTENSION: &'static str = ".folsum.csv";

/// The text of a path that was chosen, if one was.
pub open spec fn chosen_text(chosen: Option<String>) -> Option<Seq<char>> {
    match chosen {
        Some(path) => Some(path@),
        None => None,
    }
}

/// Point in the process of inventorying a directory's contents.
#[derive(Clone, Copy, Debug, PartialEq, Eq, Structural)]
pub enum InventoryStatus {
    NotStarted,
    InProgress,
    Done,
}

/// Point in the process of creating a manifest export file.
#[derive(Debug, PartialEq, Eq)]
pub enum ManifestCreationStatus {
    NotStarted,
    InProgress,
    /// The manifest was written; holds the path of the file.
    Done(String),
}

/// What a [`ManifestCreationStatus`] says, with the path as text.
pub enum ManifestCreationStatusView {
    NotStarted,
    InProgress,
    Done(Seq<char>),
}

impl View for ManifestCreationStatus {
    type V = ManifestCreationStatusView;

    open spec fn view(&self) -> ManifestCreationStatusView {
        match self {
            ManifestCreationStatus::NotStarted => ManifestCreationStatusView::NotStarted,
            ManifestCreationStatus::InProgress => ManifestCreationStatusView::InProgress,
            ManifestCreationStatus::Done(path) => ManifestCreationStatusView::Done(path@),
        }
    }
}

impl Clone for ManifestCreationStatus {
    fn clone(&self) -> (copy: Self)
        ensures
            copy == *self,
    {
        match self {
            ManifestCreationStatus::NotStarted => ManifestCreationStatus::NotStarted,
            ManifestCreationStatus::InProgress => ManifestCreationStatus::InProgress,
            ManifestCreationStatus::Done(path) => ManifestCreationStatus::Done(path.clone()),
        }
    }
}

/// Integrity of the directory being inventoried.
#[derive(Clone, Copy, Debug, PartialEq, Eq, Structural)]
pub enum DirectoryAuditStatus {
    Unaudited,
    InProgress,
    /// Every inventoried file was reconciled without a failure.
    Audited,
    /// At least one inventoried file failed verification.
    DiscrepanciesFound,
}

/// Details about why a [`FoundFile`] succeeded or failed an audit.
#[derive(Clone, Copy, Debug, PartialEq, Eq, Structural)]
pub struct FileIntegrityDetail {
    pub file_path_matches: bool,
    pub md5_hash_matches: bool,
}

impl Default for FileIntegrityDetail {
    fn default() -> (detail: Self)
        ensures
            !detail.file_path_matches,
            !detail.md5_hash_matches,
    {
        FileIntegrityDetail { file_path_matches: false, md5_hash_matches: false }
    }
}

/// Integrity of a file in a directory that's being inventoried.
#[derive(Clone, Copy, Debug, PartialEq, Eq, Structural)]
pub enum FileIntegrity {
    InProgress,
    Unverified,
    Verified(FileIntegrityDetail),
    VerificationFailed(FileIntegrityDetail),
    NewlyAdded,
}

impl Default for FileIntegrity {
    fn default() -> (integrity: Self)
        ensures
            integrity is Unverified,
    {
        FileIntegrity::Unverified
    }
}

impl FileIntegrity {
    /// A verdict that an audit leaves behind: verified, failed or newly added.
    pub open spec fn is_terminal(self) -> bool {
        self is Verified || self is VerificationFailed || self is NewlyAdded
    }
}

/// Files found by FolSum.
#[derive(Debug, PartialEq, Eq)]
pub struct FoundFile {
    /// Relative path from the inventory directory to the file.
    pub file_path: String,
    /// MD5 digest as a hexadecimal string.
    pub md5_hash: String,
    /// Whether the file passed audit.
    pub file_integrity: FileIntegrity,
}

/// A [`FoundFile`] with its path and digest as text.
pub struct FoundFileView {
    pub file_path: Seq<char>,
    pub md5_hash: Seq<char>,
    pub file_integrity: FileIntegrity,
}

impl View for FoundFile {
    type V = FoundFileView;

    open spec fn view(&self) -> FoundFileView {
        FoundFileView {
            file_path: self.file_path@,
            md5_hash: self.md5_hash@,
            file_integrity: self.file_integrity,
        }
    }
}

impl DeepView for FoundFile {
    type V = FoundFileView;

    open spec fn deep_view(&self) -> FoundFileView {
        self@
    }
}

impl FoundFile {
    /// A file as the inventory first sees it: not yet held against a manifest.
    pub fn new(file_path: String, md5_hash: String) -> (found_file: Self)
        ensures
            found_file@.file_path == file_path@,
            found_file@.md5_hash == md5_hash@,
            found_file@.file_integrity is Unverified,
    {
        Self { file_path, md5_hash, file_integrity: FileIntegrity::Unverified }
    }
}

impl Clone for FoundFile {
    fn clone(&self) -> (copy: Self)
        ensures
            copy == *self,
    {
        FoundFile {
            file_path: self.file_path.clone(),
            md5_hash: self.md5_hash.clone(),
            file_integrity: self.file_integrity,
        }
    }
}

impl Default for FoundFile {
    fn default() -> (found_file: Self)
        ensures
            found_file@.file_path.len() == 0,
            found_file@.md5_hash.len() == 0,
            found_file@.file_integrity is Unverified,
    {
        FoundFile {
            file_path: String::new(),
            md5_hash: String::new(),
            file_integrity: FileIntegrity::Unverified,
        }
    }
}

} // verus!
