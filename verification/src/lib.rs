//! FolSum inventories a folder, fingerprints each file by content, writes the
//! result out as a manifest and later audits a fresh inventory against a saved
//! manifest.
//!
//! The crate holds the rules of that work as verified functions on plain
//! values: the caller walks the folder, reads and writes the files, keeps the
//! clock and shows the results.
use vstd::prelude::*;

pub mod audit;
pub mod common;
pub mod export_csv;
pub mod file_date;
pub mod gui;
pub mod hashers;
pub mod inventory;
pub mod manifest;
pub mod text;
pub mod utils;
pub mod verification;

pub use common::{
    DirectoryAuditStatus, FileIntegrity, FileIntegrityDetail, FoundFile, FoundFileView,
    InventoryStatus, ManifestCreationStatus, ManifestCreationStatusView, CSV_HEADERS,
    FILEDATE_PREFIX_FORMAT, FOLSUM_CSV_EXTENSION,
};

pub use audit::{
    assess_integrity, audit_directory_inventory, audit_inventory, lookup_manifest_entry, AuditError,
};
pub use export_csv::{
    conclude_export, create_export_path, export_file_name, export_inventory, manifest_text,
    ExportError, ManifestExport,
};
pub use file_date::FileDate;
pub use gui::{export_prerequisites_met, inventory_is_complete, FolsumGui};
pub use hashers::get_md5_hash;
pub use inventory::{
    complete_inventory, entry_is_inventoried, inventory_directory, record_found_file,
};
pub use manifest::{load_previous_manifest, ManifestError};
pub use utils::sort_counts;
pub use verification::{manifest_to_audit, most_recent_manifest, VerificationManifest};
