//! Inventory a directory: the steps of one run, for a caller that walks the
//! directory and reads its files.
//!
//! A run starts with [`inventory_directory`], records each file that the walk
//! finds with [`record_found_file`], and ends with [`complete_inventory`].
//! [`entry_is_inventoried`] says which of the entries that the walk comes by
//! are files to record.
use vstd::prelude::*;

use crate::common::{
    DirectoryAuditStatus, FileIntegrity, FoundFile, FoundFileView, InventoryStatus,
    ManifestCreationStatus,
};
use crate::hashers::{get_md5_hash, md5_hash_of};

verus! {

/// What [`inventory_directory`] answers where no directory was chosen.
pub const NO_INVENTORY_PATH: &'static str = "No inventory path was provided";

/// The record of a file with the path `file_path` that holds `contents`, as
/// the inventory first sees it.
pub open spec fn record_of(file_path: Seq<char>, contents: Seq<u8>) -> FoundFileView {
    FoundFileView {
        file_path,
        md5_hash: md5_hash_of(contents),
        file_integrity: FileIntegrity::Unverified,
    }
}

/// Start to inventory a directory.
///
/// Where a directory was chosen, the files of the last run are dropped, the
/// inventory is in progress, and what was known of an audit and of a manifest
/// is forgotten, since both spoke of the last run. Where none was chosen the
/// run does not start and nothing changes.
pub fn inventory_directory(
    chosen_inventory_path: &Option<String>,
    inventoried_files: &mut Vec<FoundFile>,
    inventory_status: &mut InventoryStatus,
    directory_audit_status: &mut DirectoryAuditStatus,
    manifest_creation_status: &mut ManifestCreationStatus,
) -> (started: Result<(), &'static str>)
    ensures
        started is Ok <==> chosen_inventory_path is Some,
        started is Ok ==> {
            &&& final(inventoried_files)@.len() == 0
            &&& *final(inventory_status) == InventoryStatus::InProgress
            &&& *final(directory_audit_status) == DirectoryAuditStatus::Unaudited
            &&& *final(manifest_creation_status) == ManifestCreationStatus::NotStarted
        },
        started matches Err(reason) ==> {
            &&& reason@ == NO_INVENTORY_PATH@
            &&& *final(inventoried_files) == *old(inventoried_files)
            &&& *final(inventory_status) == *old(inventory_status)
            &&& *final(directory_audit_status) == *old(directory_audit_status)
            &&& *final(manifest_creation_status) == *old(manifest_creation_status)
        },
{
    if chosen_inventory_path.is_none() {
        return Err(NO_INVENTORY_PATH);
    }
    inventoried_files.clear();
    *inventory_status = InventoryStatus::InProgress;
    *directory_audit_status = DirectoryAuditStatus::Unaudited;
    *manifest_creation_status = ManifestCreationStatus::NotStarted;
    Ok(())
}

/// Whether the walk records an entry that it finds `depth` levels below the
/// inventoried directory: the directory itself, at depth 0, is no item of
/// its own inventory, and directories at any depth are passed over.
pub fn entry_is_inventoried(depth: usize, is_directory: bool) -> (inventoried: bool)
    ensures
        inventoried <==> depth >= 1 && !is_directory,
{
    depth >= 1 && !is_directory
}

/// Record a file that the walk has found: `file_path` is its path relative
/// to the inventoried directory, `contents` what it holds, and `elapsed` the
/// milliseconds since the run started.
///
/// The file is added behind the files recorded so far, with the fingerprint
/// of its contents and unverified, and the time taken is brought up to date.
pub fn record_found_file(
    inventoried_files: &mut Vec<FoundFile>,
    time_taken: &mut u128,
    file_path: String,
    contents: &[u8],
    elapsed: u128,
)
    ensures
        final(inventoried_files).deep_view() == old(inventoried_files).deep_view().push(
            record_of(file_path@, contents@),
        ),
        *final(time_taken) == elapsed,
{
    let ghost before = inventoried_files.deep_view();
    let md5_hash = get_md5_hash(contents);
    let found_file = FoundFile::new(file_path, md5_hash);
    inventoried_files.push(found_file);
    *time_taken = elapsed;
    proof {
        assert(inventoried_files.deep_view() =~= before.push(record_of(file_path@, contents@)));
    }
}

/// Note that the walk has come to its end.
pub fn complete_inventory(inventory_status: &mut InventoryStatus)
    ensures
        *final(inventory_status) == InventoryStatus::Done,
{
    *inventory_status = InventoryStatus::Done;
}

} // verus!
