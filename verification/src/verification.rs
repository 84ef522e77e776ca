//! Manifests of earlier inventories, as they are found beside the files they
//! list: which file names are those of manifests, when each was written, and
//! which one an audit is held against.
use vstd::prelude::*;
use vstd::string::StringExecFns;

use crate::common::FOLSUM_CSV_EXTENSION;
use crate::export_csv::export_name;
use crate::file_date::{
    date_of_prefix, date_prefix, lemma_prefix_has_no_underscore, lemma_prefix_round_trip, FileDate,
};
use crate::text::{copy_range, find_char, first_index_of, lemma_first_index_is, string_of, text_chars};

verus! {

/// Verification manifest from a previous run: where its file is, and when it
/// was written according to its name.
#[derive(Debug, PartialEq, Eq)]
pub struct VerificationManifest {
    /// Where the manifest's file is.
    pub file_path: String,
    /// When the manifest was written.
    pub date_created: FileDate,
}

/// The date in the name of a manifest's file: the name starts with what
/// stands for a valid date, goes on with an underscore, and ends with the
/// manifest extension behind it. Other names have none.
pub open spec fn manifest_date(file_name: Seq<char>) -> Option<FileDate> {
    let cut = first_index_of(file_name, '_');
    let extension = FOLSUM_CSV_EXTENSION@;
    if cut + 1 + extension.len() <= file_name.len() && file_name.skip(
        file_name.len() - extension.len(),
    ) == extension {
        date_of_prefix(file_name.take(cut))
    } else {
        None
    }
}

/// Whether the manifest at `at` is the most recent of `manifests`: none is
/// later, and it is the first of those that are as late.
pub open spec fn is_most_recent(manifests: Seq<VerificationManifest>, at: int) -> bool {
    &&& 0 <= at < manifests.len()
    &&& forall|j: int|
        0 <= j < manifests.len() ==> !(#[trigger] manifests[j]).date_created.is_after(
            &manifests[at].date_created,
        )
    &&& forall|j: int|
        0 <= j < at ==> manifests[at].date_created.is_after(&(#[trigger] manifests[j]).date_created)
}

impl VerificationManifest {
    /// The manifest in the file at `file_path`, whose name is `file_name`,
    /// where that is the name of a manifest.
    pub fn new(file_path: String, file_name: &str) -> (manifest: Option<Self>)
        ensures
            match manifest {
                Some(found) => found.file_path@ == file_path@ && manifest_date(file_name@) == Some(
                    found.date_created,
                ),
                None => manifest_date(file_name@) is None,
            },
    {
        let chars = text_chars(file_name);
        let extension = String::from_str(FOLSUM_CSV_EXTENSION);
        let ending = text_chars(FOLSUM_CSV_EXTENSION);
        let length = chars.len();
        let cut = find_char(&chars, 0, '_');
        proof {
            assert(chars@.skip(0) =~= chars@);
        }
        if cut >= length || length - cut - 1 < ending.len() {
            return None;
        }
        let tail = string_of(&chars, length - ending.len(), length);
        proof {
            assert(chars@.subrange(length - ending@.len(), length as int) =~= chars@.skip(
                length - ending@.len(),
            ));
        }
        if !(tail == extension) {
            return None;
        }
        let prefix = copy_range(&chars, 0, cut);
        proof {
            assert(chars@.take(cut as int) =~= chars@.subrange(0, cut as int));
        }
        match FileDate::from_prefix(&prefix) {
            Some(date_created) => Some(VerificationManifest { file_path, date_created }),
            None => None,
        }
    }
}

impl Clone for VerificationManifest {
    fn clone(&self) -> (copy: Self)
        ensures
            copy == *self,
    {
        VerificationManifest { file_path: self.file_path.clone(), date_created: self.date_created }
    }
}

/// The name that an export gives a manifest's file is read as the name of a
/// manifest written at the date of the export, whatever the directory is
/// called.
pub proof fn lemma_export_name_is_dated(date: FileDate, directory_name: Seq<char>)
    requires
        date.is_valid(),
    ensures
        manifest_date(export_name(date_prefix(date), directory_name)) == Some(date),
{
    let prefix = date_prefix(date);
    let extension = FOLSUM_CSV_EXTENSION@;
    let name = export_name(prefix, directory_name);
    lemma_prefix_has_no_underscore(date);
    assert forall|j: int| 0 <= j < prefix.len() implies name[j] != '_' by {
        assert(name[j] == prefix[j]);
        assert(prefix.contains(prefix[j]));
    }
    assert(name[prefix.len() as int] == '_');
    lemma_first_index_is(name, '_', prefix.len() as int);
    assert(name.skip(name.len() - extension.len()) =~= extension);
    assert(name.take(prefix.len() as int) =~= prefix);
    lemma_prefix_round_trip(date);
}

/// Pick the most recent of the manifests that were found: the one with the
/// latest date, and the first of them where several have it.
pub fn most_recent_manifest(manifests: &Vec<VerificationManifest>) -> (latest: Option<usize>)
    ensures
        latest is None <==> manifests@.len() == 0,
        latest matches Some(at) ==> is_most_recent(manifests@, at as int),
{
    if manifests.len() == 0 {
        return None;
    }
    let mut latest: usize = 0;
    let mut at: usize = 1;
    while at < manifests.len()
        invariant
            0 <= latest < at <= manifests@.len(),
            forall|j: int|
                0 <= j < at ==> !(#[trigger] manifests@[j]).date_created.is_after(
                    &manifests@[latest as int].date_created,
                ),
            forall|j: int|
                0 <= j < latest ==> manifests@[latest as int].date_created.is_after(
                    &(#[trigger] manifests@[j]).date_created,
                ),
        decreases manifests@.len() - at,
    {
        if manifests[at].date_created.later_than(&manifests[latest].date_created) {
            proof {
                let newer = manifests@[at as int].date_created;
                let older = manifests@[latest as int].date_created;
                assert forall|j: int| 0 <= j < at implies newer.is_after(
                    &(#[trigger] manifests@[j]).date_created,
                ) by {
                    assert(!manifests@[j].date_created.is_after(&older));
                }
            }
            latest = at;
        }
        at += 1;
    }
    Some(latest)
}

/// The manifest to hold an audit against: the one that was chosen, and the
/// most recent of those found where none was chosen.
pub fn manifest_to_audit(
    chosen_manifest: &Option<String>,
    discovered: &Vec<VerificationManifest>,
) -> (file_path: Option<String>)
    ensures
        match chosen_manifest {
            Some(chosen) => file_path matches Some(path) && path@ == chosen@,
            None => if discovered@.len() == 0 {
                file_path is None
            } else {
                file_path matches Some(path) && (exists|at: int|
                    is_most_recent(discovered@, at) && path@ == discovered@[at].file_path@)
            },
        },
{
    match chosen_manifest {
        Some(chosen) => Some(chosen.clone()),
        None => match most_recent_manifest(discovered) {
            Some(at) => Some(discovered[at].file_path.clone()),
            None => None,
        },
    }
}

} // verus!
