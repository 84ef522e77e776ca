//! What the window shows and when its buttons work: the state that a display
//! polls, the conditions under which an export or an audit may start, and the
//! words for each status.
use vstd::prelude::*;

use crate::audit::{audit_directory_inventory, audit_result, AuditError};
use crate::common::{
    chosen_text, DirectoryAuditStatus, FileIntegrity, FoundFile, InventoryStatus,
    ManifestCreationStatus,
};
use crate::inventory::{inventory_directory, NO_INVENTORY_PATH};

verus! {

/// Everything a display of FolSum reads.
#[derive(Debug, PartialEq, Eq)]
pub struct FolsumGui {
    /// The files that the inventory has found so far.
    pub inventoried_files: Vec<FoundFile>,
    /// The files that the last audit found listed in the manifest and gone
    /// from the directory.
    pub missing_files: Vec<FoundFile>,
    /// Number of files inventoried, as of the last refresh.
    pub total_files: u32,
    /// The directory that the user chose to inventory.
    pub chosen_inventory_path: Option<String>,
    /// The manifest file that the user chose to audit against.
    pub chosen_manifest: Option<String>,
    /// Milliseconds that the inventory has taken so far.
    pub time_taken: u128,
    pub inventory_status: InventoryStatus,
    pub directory_audit_status: DirectoryAuditStatus,
    pub manifest_creation_status: ManifestCreationStatus,
}

impl Default for FolsumGui {
    fn default() -> (gui: Self)
        ensures
            gui.inventoried_files@.len() == 0,
            gui.missing_files@.len() == 0,
            gui.total_files == 0,
            gui.chosen_inventory_path is None,
            gui.chosen_manifest is None,
            gui.time_taken == 0,
            gui.inventory_status == InventoryStatus::NotStarted,
            gui.directory_audit_status == DirectoryAuditStatus::Unaudited,
            gui.manifest_creation_status == ManifestCreationStatus::NotStarted,
    {
        FolsumGui {
            inventoried_files: Vec::new(),
            missing_files: Vec::new(),
            total_files: 0,
            chosen_inventory_path: None,
            chosen_manifest: None,
            time_taken: 0,
            inventory_status: InventoryStatus::NotStarted,
            directory_audit_status: DirectoryAuditStatus::Unaudited,
            manifest_creation_status: ManifestCreationStatus::NotStarted,
        }
    }
}

impl FolsumGui {
    /// Bring the count of inventoried files up to date. The count wraps round
    /// where there are more files than a `u32` can count.
    pub fn refresh_total_files(&mut self)
        ensures
            final(self).total_files == old(self).inventoried_files@.len() % 0x1_0000_0000,
            final(self).inventoried_files == old(self).inventoried_files,
            final(self).missing_files == old(self).missing_files,
            final(self).chosen_inventory_path == old(self).chosen_inventory_path,
            final(self).chosen_manifest == old(self).chosen_manifest,
            final(self).time_taken == old(self).time_taken,
            final(self).inventory_status == old(self).inventory_status,
            final(self).directory_audit_status == old(self).directory_audit_status,
            final(self).manifest_creation_status == old(self).manifest_creation_status,
    {
        let count: u64 = self.inventoried_files.len() as u64;
        self.total_files = (count % 0x1_0000_0000) as u32;
    }

    /// Start to inventory the chosen directory, as [`inventory_directory`]
    /// does. With the files of the last run, the findings of the last audit
    /// are dropped. Where no directory was chosen nothing changes.
    pub fn start_inventory(&mut self) -> (started: Result<(), &'static str>)
        ensures
            started is Ok <==> old(self).chosen_inventory_path is Some,
            started is Ok ==> {
                &&& final(self).inventoried_files@.len() == 0
                &&& final(self).missing_files@.len() == 0
                &&& final(self).inventory_status == InventoryStatus::InProgress
                &&& final(self).directory_audit_status == DirectoryAuditStatus::Unaudited
                &&& final(self).manifest_creation_status == ManifestCreationStatus::NotStarted
                &&& final(self).total_files == old(self).total_files
                &&& final(self).chosen_inventory_path == old(self).chosen_inventory_path
                &&& final(self).chosen_manifest == old(self).chosen_manifest
                &&& final(self).time_taken == old(self).time_taken
            },
            started matches Err(reason) ==> reason@ == NO_INVENTORY_PATH@ && *final(self) == *old(
                self,
            ),
    {
        let started = inventory_directory(
            &self.chosen_inventory_path,
            &mut self.inventoried_files,
            &mut self.inventory_status,
            &mut self.directory_audit_status,
            &mut self.manifest_creation_status,
        );
        if started.is_ok() {
            self.missing_files.clear();
        }
        started
    }

    /// Audit the inventory against the text of a manifest, as
    /// [`audit_directory_inventory`] does, and keep the findings for the
    /// display: after an audit they are the files that are gone, and where
    /// there was no audit they stay as they were.
    pub fn audit(&mut self, chosen_manifest: &Option<String>) -> (audited: Result<(), AuditError>)
        ensures
            match audit_result(
                old(self).inventoried_files.deep_view(),
                chosen_text(*chosen_manifest),
            ) {
                Ok((files, status, missing)) => {
                    &&& audited is Ok
                    &&& final(self).inventoried_files.deep_view() == files
                    &&& final(self).directory_audit_status == status
                    &&& final(self).missing_files.deep_view() == missing
                },
                Err(fault) => {
                    &&& audited matches Err(raised)
                    &&& raised@ == fault
                    &&& final(self).inventoried_files.deep_view() == old(
                        self,
                    ).inventoried_files.deep_view()
                    &&& final(self).missing_files == old(self).missing_files
                    &&& final(self).directory_audit_status == (if chosen_manifest is None {
                        old(self).directory_audit_status
                    } else {
                        DirectoryAuditStatus::InProgress
                    })
                },
            },
            final(self).total_files == old(self).total_files,
            final(self).chosen_inventory_path == old(self).chosen_inventory_path,
            final(self).chosen_manifest == old(self).chosen_manifest,
            final(self).time_taken == old(self).time_taken,
            final(self).inventory_status == old(self).inventory_status,
            final(self).manifest_creation_status == old(self).manifest_creation_status,
    {
        match audit_directory_inventory(
            &mut self.inventoried_files,
            &mut self.directory_audit_status,
            chosen_manifest,
        ) {
            Ok(missing_files) => {
                self.missing_files = missing_files;
                Ok(())
            },
            Err(fault) => Err(fault),
        }
    }
}

/// Check if inventory is done: only then is there something to audit.
pub fn inventory_is_complete(inventory_status: InventoryStatus) -> (complete: bool)
    ensures
        complete <==> inventory_status is Done,
{
    match inventory_status {
        InventoryStatus::NotStarted => false,
        InventoryStatus::InProgress => false,
        InventoryStatus::Done => true,
    }
}

/// Decide whether we're ready to create an export file: the inventory is
/// done, a directory was chosen, and no export was started for this
/// inventory, neither one that is still going nor one that is finished.
pub fn export_prerequisites_met(
    chosen_inventory_path: &Option<String>,
    inventory_status: &InventoryStatus,
    manifest_creation_status: &ManifestCreationStatus,
) -> (met: bool)
    ensures
        met <==> *inventory_status is Done && chosen_inventory_path is Some
            && *manifest_creation_status is NotStarted,
{
    let inventory_is_complete = inventory_is_complete(*inventory_status);
    let inventory_path_selected = chosen_inventory_path.is_some();
    let manifest_creator_ready = match manifest_creation_status {
        ManifestCreationStatus::NotStarted => true,
        ManifestCreationStatus::InProgress => false,
        ManifestCreationStatus::Done(_) => false,
    };
    inventory_is_complete && inventory_path_selected && manifest_creator_ready
}

/// The words for the status of an inventory.
pub open spec fn inventory_status_text(status: InventoryStatus) -> Seq<char> {
    match status {
        InventoryStatus::NotStarted => "not started."@,
        InventoryStatus::InProgress => "in progress."@,
        InventoryStatus::Done => "completed."@,
    }
}

/// The words for the status of the audit of a directory.
pub open spec fn audit_status_text(status: DirectoryAuditStatus) -> Seq<char> {
    match status {
        DirectoryAuditStatus::Unaudited => "not started."@,
        DirectoryAuditStatus::InProgress => "in progress..."@,
        DirectoryAuditStatus::Audited => "complete. Data integrity verified."@,
        DirectoryAuditStatus::DiscrepanciesFound => "complete. Data integrity compromised."@,
    }
}

/// The words for the outcome of an audit: those for the status, but that an
/// audited directory with files gone is not called verified.
pub open spec fn audit_outcome_text(status: DirectoryAuditStatus, missing: nat) -> Seq<char> {
    if status is Audited && missing > 0 {
        "complete. Files of the manifest are missing."@
    } else {
        audit_status_text(status)
    }
}

/// The words for the finding on a file. A failure is put down to a missing
/// file where the path does not match, and to the digest where the path
/// matches and the digest does not.
pub open spec fn file_integrity_text(integrity: FileIntegrity) -> Seq<char> {
    match integrity {
        FileIntegrity::Unverified => "Unverified"@,
        FileIntegrity::InProgress => "Verifying..."@,
        FileIntegrity::Verified(_) => "Verified"@,
        FileIntegrity::VerificationFailed(detail) => if !detail.file_path_matches {
            "Failed verification: file missing"@
        } else if !detail.md5_hash_matches {
            "Failed verification: MD5 hash mismatch"@
        } else {
            "Failed verification: unknown reason"@
        },
        FileIntegrity::NewlyAdded => "Newly added"@,
    }
}

/// How to show the status of an inventory.
pub fn describe_inventory_status(status: InventoryStatus) -> (words: &'static str)
    ensures
        words@ == inventory_status_text(status),
{
    match status {
        InventoryStatus::NotStarted => "not started.",
        InventoryStatus::InProgress => "in progress.",
        InventoryStatus::Done => "completed.",
    }
}

/// How to show the status of the audit of a directory.
pub fn describe_audit_status(status: DirectoryAuditStatus) -> (words: &'static str)
    ensures
        words@ == audit_status_text(status),
{
    match status {
        DirectoryAuditStatus::Unaudited => "not started.",
        DirectoryAuditStatus::InProgress => "in progress...",
        DirectoryAuditStatus::Audited => "complete. Data integrity verified.",
        DirectoryAuditStatus::DiscrepanciesFound => "complete. Data integrity compromised.",
    }
}

/// How to show the outcome of an audit that found `missing` files gone.
pub fn describe_audit_outcome(status: DirectoryAuditStatus, missing: usize) -> (words:
    &'static str)
    ensures
        words@ == audit_outcome_text(status, missing as nat),
{
    match status {
        DirectoryAuditStatus::Audited => {
            if missing > 0 {
                "complete. Files of the manifest are missing."
            } else {
                "complete. Data integrity verified."
            }
        },
        _ => describe_audit_status(status),
    }
}

/// How to show the finding on a file.
pub fn describe_file_integrity(integrity: &FileIntegrity) -> (words: &'static str)
    ensures
        words@ == file_integrity_text(*integrity),
{
    match integrity {
        FileIntegrity::Unverified => "Unverified",
        FileIntegrity::InProgress => "Verifying...",
        FileIntegrity::Verified(_) => "Verified",
        FileIntegrity::VerificationFailed(integrity_detail) => {
            if !integrity_detail.file_path_matches {
                "Failed verification: file missing"
            } else if !integrity_detail.md5_hash_matches {
                "Failed verification: MD5 hash mismatch"
            } else {
                "Failed verification: unknown reason"
            }
        },
        FileIntegrity::NewlyAdded => "Newly added",
    }
}

} // verus!
