//! Exporting an inventory as a manifest: the text of the manifest, the name
//! and place of its file, and the register that follows the export.
use std::path::Path;
use vstd::prelude::*;
use vstd::string::StringExecFns;

use crate::common::{
    chosen_text, FoundFile, FoundFileView, ManifestCreationStatus, ManifestCreationStatusView,
    FOLSUM_CSV_EXTENSION,
};
use crate::file_date::{date_prefix, FileDate};
use crate::manifest::{first_unwritable, header_line, is_writable, render_manifest, render_rows, row_of};
use crate::text::{find_char, lemma_first_index_absent, text_chars};

verus! {

/// Why an inventory was not exported.
#[derive(Debug, PartialEq, Eq)]
pub enum ExportError {
    /// A path or digest holds a comma or a line feed, which a manifest cannot
    /// carry; `value` is that path or digest.
    ForbiddenCharacter { value: String },
    /// No directory was chosen, so there is no place for the manifest.
    NoInventoryPath,
    /// The date of the export is no valid date.
    InvalidDate,
    /// The path of the inventoried directory does not end in a name.
    NoDirectoryName,
}

/// An [`ExportError`] with the value it names as text.
pub enum ExportErrorView {
    ForbiddenCharacter { value: Seq<char> },
    NoInventoryPath,
    InvalidDate,
    NoDirectoryName,
}

impl View for ExportError {
    type V = ExportErrorView;

    open spec fn view(&self) -> ExportErrorView {
        match self {
            ExportError::ForbiddenCharacter { value } => ExportErrorView::ForbiddenCharacter {
                value: value@,
            },
            ExportError::NoInventoryPath => ExportErrorView::NoInventoryPath,
            ExportError::InvalidDate => ExportErrorView::InvalidDate,
            ExportError::NoDirectoryName => ExportErrorView::NoDirectoryName,
        }
    }
}

/// What to tell the user of a fault: the fault in words, with the value that
/// it is about.
pub open spec fn export_fault_text(fault: ExportErrorView) -> Seq<char> {
    match fault {
        ExportErrorView::ForbiddenCharacter { value } =>
            "Found a comma or a line feed, which a manifest cannot hold, in: "@ + value,
        ExportErrorView::NoInventoryPath => "No directory was chosen to export a manifest for"@,
        ExportErrorView::InvalidDate => "The date of the export is not a valid date"@,
        ExportErrorView::NoDirectoryName => "The path of the inventoried directory has no name"@,
    }
}

impl ExportError {
    /// The fault in words, naming the value that it is about.
    pub fn message(&self) -> (text: String)
        ensures
            text@ == export_fault_text(self@),
    {
        match self {
            ExportError::ForbiddenCharacter { value } => {
                let mut text = String::from_str(
                    "Found a comma or a line feed, which a manifest cannot hold, in: ",
                );
                text.append(value.as_str());
                text
            },
            ExportError::NoInventoryPath => String::from_str(
                "No directory was chosen to export a manifest for",
            ),
            ExportError::InvalidDate => String::from_str(
                "The date of the export is not a valid date",
            ),
            ExportError::NoDirectoryName => String::from_str(
                "The path of the inventoried directory has no name",
            ),
        }
    }
}

/// A manifest that is ready to be written: where, and what.
#[derive(Debug, PartialEq, Eq)]
pub struct ManifestExport {
    /// Path of the file to create.
    pub export_path: String,
    /// The whole text of the file.
    pub contents: String,
}

/// The name of a manifest's file: the date prefix, an underscore, the name of
/// the inventoried directory, and the extension.
pub open spec fn export_name(prefix: Seq<char>, directory_name: Seq<char>) -> Seq<char> {
    prefix + seq!['_'] + directory_name + FOLSUM_CSV_EXTENSION@
}

/// Whether `value` can stand in a column of a manifest.
pub fn value_is_writable(value: &String) -> (writable: bool)
    ensures
        writable == is_writable(value@),
{
    let chars = text_chars(value.as_str());
    let comma = find_char(&chars, 0, ',');
    let line_feed = find_char(&chars, 0, '\n');
    proof {
        assert(chars@.skip(0) =~= chars@);
        lemma_first_index_absent(chars@, ',');
        lemma_first_index_absent(chars@, '\n');
    }
    comma == chars.len() && line_feed == chars.len()
}

/// The text of the manifest of `file_paths`.
///
/// A path or digest with a comma or a line feed in it cannot be written: the
/// first such value ends the export, and the fault names it.
pub fn manifest_text(file_paths: &Vec<FoundFile>) -> (rendered: Result<String, ExportError>)
    ensures
        match rendered {
            Ok(text) => first_unwritable(file_paths.deep_view()) is None && text@
                == render_manifest(file_paths.deep_view()),
            Err(fault) => first_unwritable(file_paths.deep_view()) matches Some(value) && fault@
                == (ExportErrorView::ForbiddenCharacter { value }),
        },
{
    let ghost entries = file_paths.deep_view();
    let mut text = String::from_str("File Path, MD5 Hash");
    text.push('\n');
    let mut at: usize = 0;
    proof {
        assert(entries.take(0) =~= Seq::<FoundFileView>::empty());
        assert(text@ =~= header_line() + seq!['\n'] + render_rows(entries.take(0)));
    }
    while at < file_paths.len()
        invariant
            at <= file_paths@.len(),
            entries == file_paths.deep_view(),
            first_unwritable(entries.take(at as int)) is None,
            text@ == render_manifest(entries.take(at as int)),
        decreases file_paths@.len() - at,
    {
        let found_file = &file_paths[at];
        proof {
            assert(entries.take(at + 1).drop_last() =~= entries.take(at as int));
            assert(entries.take(at + 1).last() == found_file@);
        }
        if !value_is_writable(&found_file.file_path) {
            proof {
                lemma_first_unwritable_stays(entries, at + 1);
            }
            return Err(ExportError::ForbiddenCharacter { value: found_file.file_path.clone() });
        }
        if !value_is_writable(&found_file.md5_hash) {
            proof {
                lemma_first_unwritable_stays(entries, at + 1);
            }
            return Err(ExportError::ForbiddenCharacter { value: found_file.md5_hash.clone() });
        }
        let ghost before = text@;
        text.append(found_file.file_path.as_str());
        text.push(',');
        text.append(found_file.md5_hash.as_str());
        text.push('\n');
        proof {
            assert(text@ =~= before + row_of(found_file@) + seq!['\n']);
            assert(text@ =~= render_manifest(entries.take(at + 1)));
        }
        at += 1;
    }
    proof {
        assert(entries.take(entries.len() as int) =~= entries);
    }
    Ok(text)
}

/// An unwritable value among the first entries is the first of all entries.
pub proof fn lemma_first_unwritable_stays(entries: Seq<FoundFileView>, upto: int)
    requires
        0 <= upto <= entries.len(),
        first_unwritable(entries.take(upto)) is Some,
    ensures
        first_unwritable(entries) == first_unwritable(entries.take(upto)),
    decreases entries.len() - upto,
{
    if upto == entries.len() {
        assert(entries.take(upto) =~= entries);
    } else {
        assert(entries.take(upto + 1).drop_last() =~= entries.take(upto));
        lemma_first_unwritable_stays(entries, upto + 1);
    }
}

/// The name of the file of a manifest written at `created` for the directory
/// called `directory_name`, where `created` is a valid date.
pub fn export_file_name(created: &FileDate, directory_name: &str) -> (name: Option<String>)
    ensures
        name is Some <==> created.is_valid(),
        name matches Some(text) ==> text@ == export_name(date_prefix(*created), directory_name@),
{
    match created.file_prefix() {
        None => None,
        Some(prefix) => {
            let mut name = prefix;
            name.push('_');
            name.append(directory_name);
            name.append(FOLSUM_CSV_EXTENSION);
            Some(name)
        },
    }
}

/// The last component of `path` as `Path::file_name` of std gives it: the
/// name of the file or directory that the path ends in, and none where the
/// path ends in no name. It depends on the text of the path alone, by the
/// rules for paths of the platform that the library is built for.
pub uninterp spec fn last_component(path: Seq<char>) -> Option<Seq<char>>;

/// The path of `file_name` inside `directory` as `Path::join` of std gives
/// it. It depends on the two texts alone, by the rules for paths of the
/// platform that the library is built for.
pub uninterp spec fn joined_path(directory: Seq<char>, file_name: Seq<char>) -> Seq<char>;

/// `Path::file_name` of std returns the last component of `path`, if the path
/// ends in a name. It reads nothing but the path.
#[verifier::external_body]
fn directory_name_of(path: &str) -> (name: Option<String>)
    ensures
        match name {
            Some(found) => last_component(path@) == Some(found@),
            None => last_component(path@) is None,
        },
{
    Path::new(path).file_name().map(|name| name.to_string_lossy().into_owned())
}

/// `Path::join` of std returns the path of `file_name` adjoined to
/// `directory`. It reads nothing but the two paths.
#[verifier::external_body]
fn path_inside(directory: &str, file_name: &str) -> (path: String)
    ensures
        path@ == joined_path(directory@, file_name@),
{
    Path::new(directory).join(file_name).to_string_lossy().into_owned()
}

/// The path of the file of a manifest written at `created` for the directory
/// at `inventory_path`: inside that directory, and named after the date and
/// after the directory's own name. There is none without a directory, with a
/// date that is not valid, or for a directory whose path ends in no name.
pub open spec fn export_path_of(inventory_path: Option<Seq<char>>, created: FileDate) -> Result<
    Seq<char>,
    ExportErrorView,
> {
    match inventory_path {
        None => Err(ExportErrorView::NoInventoryPath),
        Some(directory) => if !created.is_valid() {
            Err(ExportErrorView::InvalidDate)
        } else {
            match last_component(directory) {
                None => Err(ExportErrorView::NoDirectoryName),
                Some(name) => Ok(
                    joined_path(directory, export_name(date_prefix(created), name)),
                ),
            }
        },
    }
}

/// What an export comes to: the path and the text of the manifest's file, or
/// why there is none. A value that cannot be written is found before a fault
/// of the path.
pub open spec fn export_of(
    files: Seq<FoundFileView>,
    inventory_path: Option<Seq<char>>,
    created: FileDate,
) -> Result<(Seq<char>, Seq<char>), ExportErrorView> {
    match first_unwritable(files) {
        Some(value) => Err(ExportErrorView::ForbiddenCharacter { value }),
        None => match export_path_of(inventory_path, created) {
            Err(fault) => Err(fault),
            Ok(export_path) => Ok((export_path, render_manifest(files))),
        },
    }
}

/// Create a path for a new export file, inside the directory that it
/// inventories.
///
/// The file is named by [`export_file_name`], after the last component of
/// `inventory_path`.
pub fn create_export_path(inventory_path: &Option<String>, created: &FileDate) -> (export_path:
    Result<String, ExportError>)
    ensures
        match export_path {
            Ok(path) => export_path_of(chosen_text(*inventory_path), *created) == Ok::<
                Seq<char>,
                ExportErrorView,
            >(path@),
            Err(fault) => export_path_of(chosen_text(*inventory_path), *created) == Err::<
                Seq<char>,
                ExportErrorView,
            >(fault@),
        },
{
    match inventory_path {
        None => Err(ExportError::NoInventoryPath),
        Some(directory) => {
            if !created.check() {
                return Err(ExportError::InvalidDate);
            }
            match directory_name_of(directory.as_str()) {
                None => Err(ExportError::NoDirectoryName),
                Some(directory_name) => match export_file_name(created, directory_name.as_str()) {
                    None => Err(ExportError::InvalidDate),
                    Some(file_name) => Ok(path_inside(directory.as_str(), file_name.as_str())),
                },
            }
        },
    }
}

/// Export the current inventory as a manifest: its text and the path of its
/// file, for the caller to write.
///
/// The register shows the export as in progress from here on, also where the
/// export fails; [`conclude_export`] closes it once the file is written.
pub fn export_inventory(
    file_paths: &Vec<FoundFile>,
    manifest_creation_status: &mut ManifestCreationStatus,
    inventory_path: &Option<String>,
    created: &FileDate,
) -> (exported: Result<ManifestExport, ExportError>)
    ensures
        final(manifest_creation_status)@ is InProgress,
        match exported {
            Ok(export) => export_of(
                file_paths.deep_view(),
                chosen_text(*inventory_path),
                *created,
            ) == Ok::<(Seq<char>, Seq<char>), ExportErrorView>(
                (export.export_path@, export.contents@),
            ),
            Err(fault) => export_of(
                file_paths.deep_view(),
                chosen_text(*inventory_path),
                *created,
            ) == Err::<(Seq<char>, Seq<char>), ExportErrorView>(fault@),
        },
{
    *manifest_creation_status = ManifestCreationStatus::InProgress;
    let contents = match manifest_text(file_paths) {
        Ok(contents) => contents,
        Err(fault) => {
            return Err(fault);
        },
    };
    match create_export_path(inventory_path, created) {
        Ok(export_path) => Ok(ManifestExport { export_path, contents }),
        Err(fault) => Err(fault),
    }
}

/// Note that the manifest was written to `export_path`.
pub fn conclude_export(manifest_creation_status: &mut ManifestCreationStatus, export_path: String)
    ensures
        final(manifest_creation_status)@ == ManifestCreationStatusView::Done(export_path@),
{
    *manifest_creation_status = ManifestCreationStatus::Done(export_path);
}

} // verus!
