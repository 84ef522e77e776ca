//! The manifest as text: what a manifest of given entries looks like, and
//! which entries, or which fault, a given text stands for.
//!
//! A manifest is the header line followed by one line per entry, the path and
//! the digest of the entry separated by one comma. No character is escaped.
use vstd::prelude::*;
use vstd::string::StringExecFns;

use crate::common::{FileIntegrity, FoundFile, FoundFileView};
use crate::text::{
    copy_range, count_char, find_char, first_index_of, lemma_first_index_absent,
    lemma_first_index_is, lemma_first_index_of, lemma_occurrences_concat, lemma_occurrences_zero,
    lemma_trimmed_unchanged, occurrences, string_of, text_chars, texts_of, trim_bounds, trimmed,
};

verus! {

/// The header of a manifest, without the line feed that ends it.
pub open spec fn header_line() -> Seq<char> {
    "File Path, MD5 Hash"@
}

/// Why a text is no manifest.
#[derive(Debug, PartialEq, Eq)]
pub enum ManifestError {
    /// The text holds no line at all.
    Empty,
    /// The first line is not the header.
    InvalidHeader { found: String, expected: String },
    /// A row holds no comma, so it has no second column.
    NoItems { row: String },
    /// A row holds more than one comma, so it has more than two columns.
    TooManyItems { row: String },
}

/// A [`ManifestError`] with the lines it names as text.
pub enum ManifestErrorView {
    Empty,
    InvalidHeader { found: Seq<char>, expected: Seq<char> },
    NoItems { row: Seq<char> },
    TooManyItems { row: Seq<char> },
}

impl View for ManifestError {
    type V = ManifestErrorView;

    open spec fn view(&self) -> ManifestErrorView {
        match self {
            ManifestError::Empty => ManifestErrorView::Empty,
            ManifestError::InvalidHeader { found, expected } => ManifestErrorView::InvalidHeader {
                found: found@,
                expected: expected@,
            },
            ManifestError::NoItems { row } => ManifestErrorView::NoItems { row: row@ },
            ManifestError::TooManyItems { row } => ManifestErrorView::TooManyItems { row: row@ },
        }
    }
}

/// What to tell the user of a fault: the fault in words, with the line that
/// it is about.
pub open spec fn manifest_fault_text(fault: ManifestErrorView) -> Seq<char> {
    match fault {
        ManifestErrorView::Empty => "Found nothing in first line of file"@,
        ManifestErrorView::InvalidHeader { found, expected } => "Invalid FolSum CSV export. Found "@
            + found + " when "@ + expected + " was expected"@,
        ManifestErrorView::NoItems { row } => "Didn't find any items in the CSV row: "@ + row,
        ManifestErrorView::TooManyItems { row } => "Found more than two items in the CSV row: "@
            + row,
    }
}

impl ManifestError {
    /// The fault in words, naming the line that it is about.
    pub fn message(&self) -> (text: String)
        ensures
            text@ == manifest_fault_text(self@),
    {
        match self {
            ManifestError::Empty => String::from_str("Found nothing in first line of file"),
            ManifestError::InvalidHeader { found, expected } => {
                let mut text = String::from_str("Invalid FolSum CSV export. Found ");
                text.append(found.as_str());
                text.append(" when ");
                text.append(expected.as_str());
                text.append(" was expected");
                text
            },
            ManifestError::NoItems { row } => {
                let mut text = String::from_str("Didn't find any items in the CSV row: ");
                text.append(row.as_str());
                text
            },
            ManifestError::TooManyItems { row } => {
                let mut text = String::from_str("Found more than two items in the CSV row: ");
                text.append(row.as_str());
                text
            },
        }
    }
}

/// `line` without the carriage return that it ends with, if it ends with one.
pub open spec fn without_carriage_return(line: Seq<char>) -> Seq<char> {
    if line.len() > 0 && line.last() == '\r' {
        line.drop_last()
    } else {
        line
    }
}

/// The lines of `text`. A line ends with a line feed, or with a carriage
/// return and a line feed, neither of which belongs to it; what follows the
/// last line feed is a line too, unless it is empty.
pub open spec fn lines_of(text: Seq<char>) -> Seq<Seq<char>>
    decreases text.len(),
{
    if text.len() == 0 {
        Seq::empty()
    } else {
        let end = first_index_of(text, '\n');
        if 0 <= end < text.len() {
            seq![without_carriage_return(text.take(end))] + lines_of(text.skip(end + 1))
        } else {
            seq![text]
        }
    }
}

/// The entry that a row stands for: what is before its one comma is the path,
/// what is behind it the digest, each without the white space around it.
pub open spec fn parse_row(row: Seq<char>) -> Result<FoundFileView, ManifestErrorView> {
    let commas = occurrences(row, ',');
    if commas == 0 {
        Err(ManifestErrorView::NoItems { row })
    } else if commas > 1 {
        Err(ManifestErrorView::TooManyItems { row })
    } else {
        let comma = first_index_of(row, ',');
        Ok(
            FoundFileView {
                file_path: trimmed(row.take(comma)),
                md5_hash: trimmed(row.skip(comma + 1)),
                file_integrity: FileIntegrity::Unverified,
            },
        )
    }
}

/// The entries that `rows` stand for, in their order, or the fault of the
/// first row that stands for none.
pub open spec fn parse_rows(rows: Seq<Seq<char>>) -> Result<Seq<FoundFileView>, ManifestErrorView>
    decreases rows.len(),
{
    if rows.len() == 0 {
        Ok(Seq::empty())
    } else {
        match parse_rows(rows.drop_last()) {
            Err(fault) => Err(fault),
            Ok(entries) => match parse_row(rows.last()) {
                Err(fault) => Err(fault),
                Ok(entry) => Ok(entries.push(entry)),
            },
        }
    }
}

/// The entries that `text` lists as a manifest, or why it is none.
pub open spec fn parse_manifest(text: Seq<char>) -> Result<Seq<FoundFileView>, ManifestErrorView> {
    let lines = lines_of(text);
    if lines.len() == 0 {
        Err(ManifestErrorView::Empty)
    } else if lines[0] != header_line() {
        Err(ManifestErrorView::InvalidHeader { found: lines[0], expected: header_line() })
    } else {
        parse_rows(lines.skip(1))
    }
}

/// The row of `entry`: its path, a comma, its digest.
pub open spec fn row_of(entry: FoundFileView) -> Seq<char> {
    entry.file_path + seq![','] + entry.md5_hash
}

/// The rows of `entries` in their order, each ended by a line feed.
pub open spec fn render_rows(entries: Seq<FoundFileView>) -> Seq<char>
    decreases entries.len(),
{
    if entries.len() == 0 {
        Seq::empty()
    } else {
        render_rows(entries.drop_last()) + row_of(entries.last()) + seq!['\n']
    }
}

/// The manifest of `entries`: the header line, then their rows.
pub open spec fn render_manifest(entries: Seq<FoundFileView>) -> Seq<char> {
    header_line() + seq!['\n'] + render_rows(entries)
}

/// Whether `value` can stand in a column: it holds neither a comma nor a line
/// feed.
pub open spec fn is_writable(value: Seq<char>) -> bool {
    !value.contains(',') && !value.contains('\n')
}

/// The first value of `entries` that cannot stand in a column, going through
/// the entries in order and taking the path of each before its digest.
pub open spec fn first_unwritable(entries: Seq<FoundFileView>) -> Option<Seq<char>>
    decreases entries.len(),
{
    if entries.len() == 0 {
        None
    } else {
        match first_unwritable(entries.drop_last()) {
            Some(value) => Some(value),
            None => if !is_writable(entries.last().file_path) {
                Some(entries.last().file_path)
            } else if !is_writable(entries.last().md5_hash) {
                Some(entries.last().md5_hash)
            } else {
                None
            },
        }
    }
}

/// The lines of `chars`.
pub fn split_lines(chars: &Vec<char>) -> (lines: Vec<Vec<char>>)
    ensures
        texts_of(lines@) == lines_of(chars@),
{
    let mut lines: Vec<Vec<char>> = Vec::new();
    let mut from: usize = 0;
    proof {
        assert(chars@.skip(0) =~= chars@);
        assert(texts_of(lines@) + lines_of(chars@) =~= lines_of(chars@));
    }
    while from < chars.len()
        invariant
            from <= chars@.len(),
            lines_of(chars@) == texts_of(lines@) + lines_of(chars@.skip(from as int)),
        decreases chars@.len() - from,
    {
        let ghost rest = chars@.skip(from as int);
        let ghost before = texts_of(lines@);
        let end = find_char(chars, from, '\n');
        if end < chars.len() {
            let stop = if end > from && chars[end - 1] == '\r' {
                end - 1
            } else {
                end
            };
            let line = copy_range(chars, from, stop);
            proof {
                assert(rest.take(end - from) =~= chars@.subrange(from as int, end as int));
                assert(rest.skip(end - from + 1) =~= chars@.skip(end + 1));
                if end > from {
                    assert(chars@.subrange(from as int, end as int).drop_last() =~= chars@.subrange(
                        from as int,
                        end - 1,
                    ));
                }
                assert(line@ == without_carriage_return(rest.take(end - from)));
            }
            lines.push(line);
            proof {
                assert(texts_of(lines@) =~= before.push(line@));
                assert(before + (seq![line@] + lines_of(chars@.skip(end + 1))) =~= before.push(
                    line@,
                ) + lines_of(chars@.skip(end + 1)));
            }
            from = end + 1;
        } else {
            let line = copy_range(chars, from, end);
            proof {
                assert(line@ =~= rest);
            }
            lines.push(line);
            proof {
                assert(texts_of(lines@) =~= before.push(line@));
                assert(chars@.skip(end as int) =~= Seq::<char>::empty());
                assert(before + seq![rest] =~= before.push(line@) + lines_of(
                    chars@.skip(end as int),
                ));
            }
            from = end;
        }
    }
    proof {
        assert(chars@.skip(from as int) =~= Seq::<char>::empty());
        assert(texts_of(lines@) + Seq::<Seq<char>>::empty() =~= texts_of(lines@));
    }
    lines
}

/// The entry that `row` stands for, or why it stands for none.
pub fn read_row(row: &Vec<char>) -> (read: Result<FoundFile, ManifestError>)
    ensures
        match read {
            Ok(entry) => parse_row(row@) == Ok::<FoundFileView, ManifestErrorView>(entry@),
            Err(fault) => parse_row(row@) == Err::<FoundFileView, ManifestErrorView>(fault@),
        },
{
    let commas = count_char(row, ',');
    let length = row.len();
    proof {
        assert(row@.subrange(0, length as int) =~= row@);
    }
    if commas == 0 {
        Err(ManifestError::NoItems { row: string_of(row, 0, length) })
    } else if commas > 1 {
        Err(ManifestError::TooManyItems { row: string_of(row, 0, length) })
    } else {
        let comma = find_char(row, 0, ',');
        proof {
            assert(row@.skip(0) =~= row@);
            lemma_occurrences_zero(row@, ',');
            lemma_first_index_absent(row@, ',');
            lemma_first_index_of(row@, ',');
        }
        let path_bounds = trim_bounds(row, 0, comma);
        let hash_bounds = trim_bounds(row, comma + 1, length);
        let file_path = string_of(row, path_bounds.0, path_bounds.1);
        let md5_hash = string_of(row, hash_bounds.0, hash_bounds.1);
        proof {
            assert(row@.take(comma as int) =~= row@.subrange(0, comma as int));
            assert(row@.skip(comma + 1) =~= row@.subrange(comma + 1, row@.len() as int));
        }
        Ok(FoundFile::new(file_path, md5_hash))
    }
}

/// The entries that a manifest lists.
///
/// The first line has to be the header, and every line after it has to hold
/// exactly one comma. The first line that breaks this ends the reading: the
/// fault names it, and no entry is returned.
pub fn load_previous_manifest(manifest_text: &str) -> (loaded: Result<Vec<FoundFile>, ManifestError>)
    ensures
        match loaded {
            Ok(entries) => parse_manifest(manifest_text@) == Ok::<
                Seq<FoundFileView>,
                ManifestErrorView,
            >(entries.deep_view()),
            Err(fault) => parse_manifest(manifest_text@) == Err::<
                Seq<FoundFileView>,
                ManifestErrorView,
            >(fault@),
        },
{
    let chars = text_chars(manifest_text);
    let lines = split_lines(&chars);
    if lines.len() == 0 {
        return Err(ManifestError::Empty);
    }
    let found = string_of(&lines[0], 0, lines[0].len());
    let expected = String::from_str("File Path, MD5 Hash");
    proof {
        assert(lines[0]@.subrange(0, lines[0]@.len() as int) =~= lines[0]@);
        assert(texts_of(lines@)[0] == lines[0]@);
    }
    if !(found == expected) {
        return Err(ManifestError::InvalidHeader { found, expected });
    }
    let ghost rows = texts_of(lines@).skip(1);
    let mut entries: Vec<FoundFile> = Vec::new();
    let mut at: usize = 1;
    proof {
        assert(rows.take(0) =~= Seq::<Seq<char>>::empty());
        assert(entries.deep_view() =~= Seq::<FoundFileView>::empty());
    }
    while at < lines.len()
        invariant
            1 <= at <= lines@.len(),
            parse_manifest(manifest_text@) == parse_rows(rows),
            rows == texts_of(lines@).skip(1),
            parse_rows(rows.take(at - 1)) == Ok::<Seq<FoundFileView>, ManifestErrorView>(
                entries.deep_view(),
            ),
        decreases lines@.len() - at,
    {
        let ghost before = entries.deep_view();
        proof {
            assert(rows.take(at as int).drop_last() =~= rows.take(at - 1));
            assert(rows.take(at as int).last() == lines[at as int]@);
        }
        match read_row(&lines[at]) {
            Ok(entry) => {
                entries.push(entry);
                proof {
                    assert(entries.deep_view() =~= before.push(entry@));
                }
            },
            Err(fault) => {
                proof {
                    lemma_parse_rows_fault(rows, at as int);
                }
                return Err(fault);
            },
        }
        at += 1;
    }
    proof {
        assert(rows.take(rows.len() as int) =~= rows);
    }
    Ok(entries)
}

/// A fault among the first rows is the fault of all the rows.
pub proof fn lemma_parse_rows_fault(rows: Seq<Seq<char>>, upto: int)
    requires
        0 <= upto <= rows.len(),
        parse_rows(rows.take(upto)) is Err,
    ensures
        parse_rows(rows) == parse_rows(rows.take(upto)),
    decreases rows.len() - upto,
{
    if upto == rows.len() {
        assert(rows.take(upto) =~= rows);
    } else {
        assert(rows.take(upto + 1).drop_last() =~= rows.take(upto));
        lemma_parse_rows_fault(rows, upto + 1);
    }
}

/// `entries` as a manifest hands them back: with their paths and digests, and
/// not yet verified.
pub open spec fn as_listed(entries: Seq<FoundFileView>) -> Seq<FoundFileView> {
    Seq::new(
        entries.len(),
        |i: int|
            FoundFileView {
                file_path: entries[i].file_path,
                md5_hash: entries[i].md5_hash,
                file_integrity: FileIntegrity::Unverified,
            },
    )
}

/// Whether a manifest hands `value` back as it was written: it can stand in a
/// column, and trimming leaves it as it is.
pub open spec fn is_kept(value: Seq<char>) -> bool {
    is_writable(value) && trimmed(value) == value
}

/// Whether a manifest hands the path and the digest of `entry` back as they
/// were written.
pub open spec fn is_kept_entry(entry: FoundFileView) -> bool {
    is_kept(entry.file_path) && is_kept(entry.md5_hash)
}

/// The header holds no line feed and does not end with a carriage return.
pub proof fn lemma_header_line()
    ensures
        header_line().len() == 19,
        !header_line().contains('\n'),
        without_carriage_return(header_line()) == header_line(),
{
    reveal_strlit("File Path, MD5 Hash");
    let header = header_line();
    assert forall|i: int| 0 <= i < header.len() implies header[i] != '\n' by {
        assert(header[i] == "File Path, MD5 Hash"@[i]);
    }
}

/// A text without a line feed, followed by one, is one line.
pub proof fn lemma_one_line(line: Seq<char>)
    requires
        !line.contains('\n'),
    ensures
        lines_of(line + seq!['\n']) == seq![without_carriage_return(line)],
{
    let text = line + seq!['\n'];
    assert forall|j: int| 0 <= j < line.len() implies text[j] != '\n' by {
        assert(line[j] == text[j]);
        assert(line.contains(line[j]));
    }
    lemma_first_index_is(text, '\n', line.len() as int);
    assert(text.take(line.len() as int) =~= line);
    assert(text.skip(line.len() as int + 1) =~= Seq::<char>::empty());
    assert(seq![without_carriage_return(line)] + lines_of(Seq::<char>::empty()) =~= seq![
        without_carriage_return(line),
    ]);
}

/// Behind a text that ends with a line feed, a second text starts a new
/// line: the lines of both are the lines of the first, then those of the
/// second.
pub proof fn lemma_lines_of_concat(left: Seq<char>, right: Seq<char>)
    requires
        left.len() > 0 ==> left.last() == '\n',
    ensures
        lines_of(left + right) == lines_of(left) + lines_of(right),
    decreases left.len(),
{
    if left.len() == 0 {
        assert(left + right =~= right);
        assert(lines_of(left) + lines_of(right) =~= lines_of(right));
    } else {
        let end = first_index_of(left, '\n');
        lemma_first_index_of(left, '\n');
        assert(left[left.len() - 1] == '\n');
        assert(end < left.len());
        let both = left + right;
        assert forall|j: int| 0 <= j < end implies both[j] != '\n' by {
            assert(both[j] == left[j]);
        }
        assert(both[end] == left[end]);
        lemma_first_index_is(both, '\n', end);
        let rest = left.skip(end + 1);
        assert(both.take(end) =~= left.take(end));
        assert(both.skip(end + 1) =~= rest + right);
        if rest.len() > 0 {
            assert(rest.last() == left.last());
        }
        lemma_lines_of_concat(rest, right);
        assert(seq![without_carriage_return(left.take(end))] + (lines_of(rest) + lines_of(right))
            =~= (seq![without_carriage_return(left.take(end))] + lines_of(rest)) + lines_of(
            right,
        ));
    }
}

/// A row that was written from a kept path and a kept digest stands for that
/// path and digest, and is a line of its own.
pub proof fn lemma_row_round_trip(entry: FoundFileView)
    requires
        is_kept(entry.file_path),
        is_kept(entry.md5_hash),
    ensures
        !row_of(entry).contains('\n'),
        without_carriage_return(row_of(entry)) == row_of(entry),
        parse_row(row_of(entry)) == Ok::<FoundFileView, ManifestErrorView>(
            FoundFileView {
                file_path: entry.file_path,
                md5_hash: entry.md5_hash,
                file_integrity: FileIntegrity::Unverified,
            },
        ),
{
    let path = entry.file_path;
    let digest = entry.md5_hash;
    let row = row_of(entry);
    let comma = seq![','];
    assert(row.len() == path.len() + 1 + digest.len());
    assert forall|j: int| 0 <= j < row.len() implies row[j] != '\n' by {
        if j < path.len() {
            assert(row[j] == path[j]);
            assert(path.contains(path[j]));
        } else if j > path.len() {
            assert(row[j] == digest[j - path.len() - 1]);
            assert(digest.contains(digest[j - path.len() - 1]));
        }
    }
    lemma_trimmed_unchanged(digest);
    if digest.len() > 0 {
        assert(row.last() == digest.last());
    } else {
        assert(row.last() == ',');
    }
    assert(comma.drop_last() =~= Seq::<char>::empty());
    assert(occurrences(comma.drop_last(), ',') == 0);
    assert(comma.last() == ',');
    assert(occurrences(comma, ',') == 1);
    lemma_occurrences_zero(path, ',');
    lemma_occurrences_zero(digest, ',');
    lemma_occurrences_concat(path, comma, ',');
    lemma_occurrences_concat(path + comma, digest, ',');
    assert forall|j: int| 0 <= j < path.len() implies row[j] != ',' by {
        assert(row[j] == path[j]);
        assert(path.contains(path[j]));
    }
    assert(row[path.len() as int] == ',');
    lemma_first_index_is(row, ',', path.len() as int);
    assert(row.take(path.len() as int) =~= path);
    assert(row.skip(path.len() as int + 1) =~= digest);
}

/// The rows written for kept entries are the lines of what was written, and
/// stand for the entries in their order.
pub proof fn lemma_rows_round_trip(entries: Seq<FoundFileView>)
    requires
        forall|i: int| 0 <= i < entries.len() ==> is_kept_entry(#[trigger] entries[i]),
    ensures
        render_rows(entries).len() > 0 ==> render_rows(entries).last() == '\n',
        parse_rows(lines_of(render_rows(entries))) == Ok::<Seq<FoundFileView>, ManifestErrorView>(
            as_listed(entries),
        ),
        first_unwritable(entries) is None,
    decreases entries.len(),
{
    if entries.len() == 0 {
        assert(as_listed(entries) =~= Seq::<FoundFileView>::empty());
    } else {
        let front = entries.drop_last();
        let last = entries.last();
        assert(is_kept_entry(entries[entries.len() - 1]));
        assert forall|i: int| 0 <= i < front.len() implies is_kept_entry(#[trigger] front[i]) by {
            assert(front[i] == entries[i]);
        }
        lemma_rows_round_trip(front);
        lemma_row_round_trip(last);
        let line = row_of(last) + seq!['\n'];
        assert(render_rows(entries) =~= render_rows(front) + line);
        lemma_one_line(row_of(last));
        lemma_lines_of_concat(render_rows(front), line);
        let lines = lines_of(render_rows(entries));
        assert(lines =~= lines_of(render_rows(front)).push(row_of(last)));
        assert(lines.drop_last() =~= lines_of(render_rows(front)));
        assert(as_listed(entries) =~= as_listed(front).push(
            FoundFileView {
                file_path: last.file_path,
                md5_hash: last.md5_hash,
                file_integrity: FileIntegrity::Unverified,
            },
        ));
    }
}

/// Writing entries as a manifest and reading the manifest back gives the
/// same paths and digests in the same order, each entry unverified. This holds
/// of entries whose paths and digests hold no comma and no line feed, and
/// neither start nor end with white space: the first the export refuses, the
/// second the reading trims.
pub proof fn lemma_manifest_round_trip(entries: Seq<FoundFileView>)
    requires
        forall|i: int| 0 <= i < entries.len() ==> is_kept_entry(#[trigger] entries[i]),
    ensures
        first_unwritable(entries) is None,
        parse_manifest(render_manifest(entries)) == Ok::<Seq<FoundFileView>, ManifestErrorView>(
            as_listed(entries),
        ),
{
    lemma_rows_round_trip(entries);
    lemma_header_line();
    lemma_one_line(header_line());
    let head = header_line() + seq!['\n'];
    lemma_lines_of_concat(head, render_rows(entries));
    let lines = lines_of(render_manifest(entries));
    assert(lines =~= seq![header_line()] + lines_of(render_rows(entries)));
    assert(lines.skip(1) =~= lines_of(render_rows(entries)));
}

/// A text whose first line is not the header is no manifest: the fault names
/// the line that was found and the header that was expected.
pub proof fn lemma_wrong_header(text: Seq<char>)
    requires
        lines_of(text).len() > 0,
        lines_of(text)[0] != header_line(),
    ensures
        parse_manifest(text) == Err::<Seq<FoundFileView>, ManifestErrorView>(
            ManifestErrorView::InvalidHeader { found: lines_of(text)[0], expected: header_line() },
        ),
{
}

/// A manifest with a row that does not hold exactly one comma is refused: the
/// fault names the first such row, as one without items where it holds no
/// comma and as one with too many where it holds several.
pub proof fn lemma_malformed_row(text: Seq<char>, at: int)
    requires
        1 <= at < lines_of(text).len(),
        lines_of(text)[0] == header_line(),
        occurrences(lines_of(text)[at], ',') != 1,
        forall|j: int| 1 <= j < at ==> occurrences(#[trigger] lines_of(text)[j], ',') == 1,
    ensures
        parse_manifest(text) == Err::<Seq<FoundFileView>, ManifestErrorView>(
            if occurrences(lines_of(text)[at], ',') == 0 {
                ManifestErrorView::NoItems { row: lines_of(text)[at] }
            } else {
                ManifestErrorView::TooManyItems { row: lines_of(text)[at] }
            },
        ),
{
    let rows = lines_of(text).skip(1);
    lemma_well_formed_rows(rows, at - 1);
    assert(rows.take(at).drop_last() =~= rows.take(at - 1));
    assert(rows.take(at).last() == lines_of(text)[at]);
    lemma_parse_rows_fault(rows, at);
}

/// Rows that each hold exactly one comma all stand for entries.
pub proof fn lemma_well_formed_rows(rows: Seq<Seq<char>>, upto: int)
    requires
        0 <= upto <= rows.len(),
        forall|j: int| 0 <= j < upto ==> occurrences(#[trigger] rows[j], ',') == 1,
    ensures
        parse_rows(rows.take(upto)) is Ok,
    decreases upto,
{
    if upto > 0 {
        lemma_well_formed_rows(rows, upto - 1);
        assert(rows.take(upto).drop_last() =~= rows.take(upto - 1));
        assert(rows.take(upto).last() == rows[upto - 1]);
    }
}

} // verus!
