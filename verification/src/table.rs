//! The tables that `winget` prints: fixed-width columns under a header.

use vstd::prelude::*;

use crate::package::{UpgradablePackage, UpgradablePackageModel, WingetPackage, WingetPackageModel};
use crate::list;
use crate::text;

verus! {

// ---------------------------------------------------------------------------
// Finding columns
// ---------------------------------------------------------------------------

/// `needle` stands in `hay` at `i`, up to the case of ASCII letters.
pub open spec fn matches_ci_at(hay: Seq<char>, needle: Seq<char>, i: int) -> bool {
    &&& 0 <= i
    &&& i + needle.len() <= hay.len()
    &&& forall|k: int|
        0 <= k < needle.len() ==> text::ascii_lower(hay[i + k]) == text::ascii_lower(
            #[trigger] needle[k],
        )
}

/// The first place from `from` on where `needle` stands in `hay`, up to the
/// case of ASCII letters.
pub open spec fn first_ci(hay: Seq<char>, needle: Seq<char>, from: int) -> Option<usize>
    decreases hay.len() - from,
{
    if from + needle.len() > hay.len() {
        None
    } else if matches_ci_at(hay, needle, from) {
        Some(from as usize)
    } else {
        first_ci(hay, needle, from + 1)
    }
}

/// The character index of the first occurrence of a label in a header.
pub open spec fn column_of(header: Seq<char>, label: Seq<char>) -> Option<usize> {
    if label.len() == 0 {
        None
    } else {
        first_ci(header, label, 0)
    }
}

fn is_ci_match(hay: &Vec<char>, needle: &Vec<char>, i: usize) -> (r: bool)
    requires
        i + needle@.len() <= hay@.len(),
    ensures
        r == matches_ci_at(hay@, needle@, i as int),
{
    let n: usize = hay.len();
    let mut k: usize = 0;
    while k < needle.len()
        invariant
            n == hay@.len(),
            k <= needle@.len(),
            i + needle@.len() <= n,
            forall|m: int|
                0 <= m < k ==> text::ascii_lower(hay@[i + m]) == text::ascii_lower(
                    #[trigger] needle@[m],
                ),
        decreases needle@.len() - k,
    {
        if !text::eq_ignore_ascii_case(hay[i + k], needle[k]) {
            return false;
        }
        k += 1;
    }
    true
}

/// Finds the *character* index (not byte index) of `needle` in `haystack`,
/// ASCII-case-insensitively.
///
/// Character indices, not byte offsets, are what make column positions
/// portable between the header and a data line: winget aligns columns by
/// display width, and two lines differ in how many bytes their characters take.
pub fn find_ci(haystack: &str, needle: &str) -> (r: Option<usize>)
    ensures
        r == column_of(haystack@, needle@),
{
    let hay: Vec<char> = text::chars_of(haystack);
    let label: Vec<char> = text::chars_of(needle);
    let n: usize = hay.len();
    let m: usize = label.len();
    if m == 0 || m > n {
        return None;
    }
    let mut i: usize = 0;
    while i <= n - m
        invariant
            hay@ == haystack@,
            label@ == needle@,
            n == hay@.len(),
            m == label@.len(),
            0 < m <= n,
            i <= n - m + 1,
            first_ci(haystack@, needle@, 0) == first_ci(haystack@, needle@, i as int),
        decreases n - i,
    {
        if is_ci_match(&hay, &label, i) {
            return Some(i);
        }
        i += 1;
    }
    None
}

/// The column of the first of several spellings that the header has.
pub open spec fn first_column(header: Seq<char>, spellings: Seq<Seq<char>>) -> Option<usize>
    decreases spellings.len(),
{
    if spellings.len() == 0 {
        None
    } else {
        match column_of(header, spellings[0]) {
            Some(i) => Some(i),
            None => first_column(header, spellings.drop_first()),
        }
    }
}

/// The column of each label, in order; `None` if one of them is missing.
pub open spec fn columns(header: Seq<char>, labels: Seq<Seq<Seq<char>>>) -> Option<Seq<usize>> {
    if forall|i: int| 0 <= i < labels.len() ==> first_column(header, #[trigger] labels[i]) is Some {
        Some(labels.map_values(|l: Seq<Seq<char>>| first_column(header, l)->0))
    } else {
        None
    }
}

fn locate_column(header: &str, spellings: &[&str]) -> (r: Option<usize>)
    ensures
        r == first_column(header@, spellings.deep_view()),
{
    let mut i: usize = 0;
    let ghost all = spellings.deep_view();
    assert(all.skip(0) =~= all);
    while i < spellings.len()
        invariant
            i <= spellings@.len(),
            all == spellings.deep_view(),
            first_column(header@, all) == first_column(header@, all.skip(i as int)),
        decreases spellings@.len() - i,
    {
        let found: Option<usize> = find_ci(header, spellings[i]);
        assert(all.skip(i as int)[0] == spellings@[i as int]@);
        if found.is_some() {
            return found;
        }
        assert(all.skip(i as int).drop_first() =~= all.skip(i + 1));
        i += 1;
    }
    None
}

/// Locates the start column (character index) of each header label in
/// `header`, in order. Each entry in `labels` lists the accepted spellings
/// for that column (e.g. English/Portuguese); the first one found is used.
/// `None` if any column's header can't be located.
pub fn locate_columns(header: &str, labels: &[&[&str]]) -> (r: Option<Vec<usize>>)
    ensures
        match r {
            Some(v) => columns(header@, labels.deep_view()) == Some(v@),
            None => columns(header@, labels.deep_view()) is None,
        },
{
    let mut v: Vec<usize> = Vec::new();
    let mut i: usize = 0;
    let ghost all = labels.deep_view();
    while i < labels.len()
        invariant
            i <= labels@.len(),
            all == labels.deep_view(),
            v@.len() == i,
            forall|k: int|
                0 <= k < i ==> first_column(header@, #[trigger] all[k]) == Some(v@[k]),
        decreases labels@.len() - i,
    {
        let found: Option<usize> = locate_column(header, labels[i]);
        assert(all[i as int] == labels@[i as int].deep_view());
        match found {
            Some(at) => v.push(at),
            None => {
                return None;
            },
        }
        i += 1;
    }
    assert(v@ =~= all.map_values(|l: Seq<Seq<char>>| first_column(header@, l)->0)) by {
        assert forall|k: int| 0 <= k < v@.len() implies v@[k] == all.map_values(
            |l: Seq<Seq<char>>| first_column(header@, l)->0,
        )[k] by {
            assert(first_column(header@, all[k]) == Some(v@[k]));
        }
    }
    Some(v)
}

// ---------------------------------------------------------------------------
// Cutting a line at the columns
// ---------------------------------------------------------------------------

/// The lesser of a column and the length of the line.
pub open spec fn within(line: Seq<char>, column: usize) -> int {
    if column <= line.len() {
        column as int
    } else {
        line.len() as int
    }
}

/// Where the cell that begins at column `i` ends: at the next column, or at the
/// end of the line for the last one; never before it begins.
pub open spec fn cell_end(line: Seq<char>, offsets: Seq<usize>, i: int) -> int {
    let end = if i + 1 < offsets.len() {
        within(line, offsets[i + 1])
    } else {
        line.len() as int
    };
    if end < within(line, offsets[i]) {
        within(line, offsets[i])
    } else {
        end
    }
}

/// The text of `line` in column `i`, without white space around it.
pub open spec fn cell(line: Seq<char>, offsets: Seq<usize>, i: int) -> Seq<char> {
    text::trimmed(line.subrange(within(line, offsets[i]), cell_end(line, offsets, i)))
}

/// The text of `line` in each column.
pub open spec fn cells(line: Seq<char>, offsets: Seq<usize>) -> Seq<Seq<char>> {
    Seq::new(offsets.len(), |i: int| cell(line, offsets, i))
}

/// Splits `line` into columns at the given fixed *character* offsets (from
/// `locate_columns`), trimming each.
///
/// winget's table columns are fixed-width and left-aligned under the header,
/// so slicing by position, not by runs of whitespace, is required: a genuinely
/// empty cell must not shift every later column left by one.
pub fn slice_columns<'a>(line: &'a str, offsets: &[usize]) -> (v: Vec<&'a str>)
    ensures
        v.deep_view() == cells(line@, offsets@),
{
    let n: usize = line.unicode_len();
    let mut v: Vec<&'a str> = Vec::new();
    let mut i: usize = 0;
    while i < offsets.len()
        invariant
            n == line@.len(),
            i <= offsets@.len(),
            v@.len() == i,
            forall|k: int| 0 <= k < i ==> #[trigger] v@[k]@ == cell(line@, offsets@, k),
        decreases offsets@.len() - i,
    {
        let start: usize = if offsets[i] <= n {
            offsets[i]
        } else {
            n
        };
        let next: usize = if i + 1 < offsets.len() && offsets[i + 1] <= n {
            offsets[i + 1]
        } else {
            n
        };
        let end: usize = if next < start {
            start
        } else {
            next
        };
        v.push(text::trim(line.substring_char(start, end)));
        i += 1;
    }
    assert(v.deep_view() =~= cells(line@, offsets@));
    v
}

proof fn lemma_cells(cols: Vec<&str>, line: Seq<char>, offsets: Seq<usize>)
    requires
        cols.deep_view() == cells(line, offsets),
    ensures
        cols@.len() == offsets.len(),
        forall|k: int| 0 <= k < offsets.len() ==> #[trigger] cols@[k]@ == cell(line, offsets, k),
{
    assert(cols@.len() == cols.deep_view().len());
    assert forall|k: int| 0 <= k < offsets.len() implies #[trigger] cols@[k]@ == cell(
        line,
        offsets,
        k,
    ) by {
        assert(cols.deep_view()[k] == cols@[k]@);
    }
}

// ---------------------------------------------------------------------------
// Header and rows
// ---------------------------------------------------------------------------

/// A text in lower case with both a name-ish and an id-ish label.
pub open spec fn has_labels(lower: Seq<char>) -> bool {
    &&& text::occurs_in(lower, "name"@) || text::occurs_in(lower, "nome"@)
    &&& text::occurs_in(lower, "id"@)
}

/// The line has both a name-ish and an id-ish label, whatever the case.
pub open spec fn is_header(line: Seq<char>) -> bool {
    has_labels(text::lower(line))
}

/// Whether a text in lower case has both a name-ish and an id-ish label.
pub fn mentions_labels(lower: &str) -> (r: bool)
    ensures
        r == has_labels(lower@),
{
    (text::contains(lower, "name") || text::contains(lower, "nome")) && text::contains(lower, "id")
}

/// The first header row from line `from` on.
pub open spec fn first_header(lines: Seq<Seq<char>>, from: int) -> Option<usize>
    decreases lines.len() - from,
{
    if from >= lines.len() {
        None
    } else if is_header(lines[from]) {
        Some(from as usize)
    } else {
        first_header(lines, from + 1)
    }
}

/// Finds the header row: the first line containing both a name-ish and an
/// id-ish column label.
pub fn find_header(lines: &Vec<String>) -> (r: Option<usize>)
    ensures
        r == first_header(lines.deep_view(), 0),
{
    let ghost all = lines.deep_view();
    let mut i: usize = 0;
    while i < lines.len()
        invariant
            i <= lines@.len(),
            all == lines.deep_view(),
            first_header(all, 0) == first_header(all, i as int),
        decreases lines@.len() - i,
    {
        let lower: String = text::to_lower(lines[i].as_str());
        assert(all[i as int] == lines@[i as int]@);
        if mentions_labels(lower.as_str()) {
            return Some(i);
        }
        i += 1;
    }
    None
}

/// The line has two spaces in a row somewhere.
pub open spec fn has_column_gap(line: Seq<char>) -> bool {
    exists|i: int| 0 <= i && i + 1 < line.len() && #[trigger] line[i] == ' ' && line[i + 1] == ' '
}

/// Best-effort check that `line` has real column structure, i.e. it's a
/// genuine data row, not a stray summary/warning line winget sometimes
/// prints right after the table with no blank-line separator.
///
/// Real rows are fixed-width columns, so there's essentially always at least
/// one run of 2+ consecutive spaces somewhere on the line. Ordinary prose never
/// double-spaces between words.
pub fn looks_like_row(line: &str) -> (r: bool)
    ensures
        r == has_column_gap(line@),
{
    let cs: Vec<char> = text::chars_of(line);
    let mut i: usize = 1;
    while i < cs.len()
        invariant
            1 <= i,
            cs@ == line@,
            forall|k: int|
                0 <= k && k + 1 < i && k + 1 < line@.len() ==> !(#[trigger] line@[k] == ' '
                    && line@[k + 1] == ' '),
        decreases cs@.len() - i,
    {
        if cs[i - 1] == ' ' && cs[i] == ' ' {
            assert(line@[i - 1] == ' ' && line@[i - 1 + 1] == ' ');
            return true;
        }
        i += 1;
    }
    false
}

/// A line under the header that holds a package: not blank, no rule of dashes,
/// with column structure.
pub open spec fn is_data_line(line: Seq<char>) -> bool {
    &&& text::trimmed(line).len() > 0
    &&& !text::begins_with(text::trimmed(line), "---"@)
    &&& has_column_gap(line)
}

fn is_data(line: &str) -> (r: bool)
    ensures
        r == is_data_line(line@),
{
    let trimmed: &str = text::trim(line);
    !trimmed.is_empty() && !text::starts_with(trimmed, "---") && looks_like_row(line)
}

/// A data line with a name.
pub open spec fn is_usable_row(line: Seq<char>, offsets: Seq<usize>) -> bool {
    is_data_line(line) && cell(line, offsets, 0).len() > 0
}

/// The usable rows among `lines`, each read by `read`.
pub open spec fn rows<T>(
    lines: Seq<Seq<char>>,
    offsets: Seq<usize>,
    read: spec_fn(Seq<char>) -> T,
) -> Seq<T> {
    lines.filter(|l: Seq<char>| is_usable_row(l, offsets)).map_values(read)
}

proof fn lemma_rows_step<T>(
    lines: Seq<Seq<char>>,
    offsets: Seq<usize>,
    read: spec_fn(Seq<char>) -> T,
    i: int,
)
    requires
        0 <= i < lines.len(),
    ensures
        rows(lines.take(i + 1), offsets, read) == if is_usable_row(lines[i], offsets) {
            rows(lines.take(i), offsets, read).push(read(lines[i]))
        } else {
            rows(lines.take(i), offsets, read)
        },
{
    let p = |l: Seq<char>| is_usable_row(l, offsets);
    let before = lines.take(i);
    before.lemma_filter_push(lines[i], p);
    assert(lines.take(i + 1) =~= before.push(lines[i]));
    assert(rows(lines.take(i + 1), offsets, read) =~= if is_usable_row(lines[i], offsets) {
        rows(before, offsets, read).push(read(lines[i]))
    } else {
        rows(before, offsets, read)
    });
}

/// A cell, or nothing when it is empty.
pub open spec fn non_empty(s: Seq<char>) -> Option<Seq<char>> {
    if s.len() == 0 {
        None
    } else {
        Some(s)
    }
}

fn non_empty_text(s: &str) -> (r: Option<String>)
    ensures
        r.deep_view() == non_empty(s@),
{
    if s.is_empty() {
        None
    } else {
        Some(text::copy_of(s))
    }
}

// ---------------------------------------------------------------------------
// `winget upgrade`
// ---------------------------------------------------------------------------

/// The labels of the upgrade table.
pub open spec fn upgrade_labels() -> Seq<Seq<Seq<char>>> {
    seq![
        seq!["Name"@, "Nome"@],
        seq!["Id"@],
        seq!["Version"@, "Versão"@],
        seq!["Available"@, "Disponível"@],
        seq!["Source"@, "Origem"@],
    ]
}

/// The package in a row of the upgrade table.
pub open spec fn upgradable_in(line: Seq<char>, offsets: Seq<usize>) -> UpgradablePackageModel {
    UpgradablePackageModel {
        name: cell(line, offsets, 0),
        id: cell(line, offsets, 1),
        installed_version: cell(line, offsets, 2),
        available_version: cell(line, offsets, 3),
        source: non_empty(cell(line, offsets, 4)),
    }
}

/// The packages in the output of `winget upgrade`: the usable rows under the
/// header. None if there is no header or a column is missing.
pub open spec fn upgrade_table(output: Seq<char>) -> Seq<UpgradablePackageModel> {
    let ls = text::lines(output);
    match first_header(ls, 0) {
        None => Seq::empty(),
        Some(h) => match columns(ls[h as int], upgrade_labels()) {
            None => Seq::empty(),
            Some(offsets) => rows(
                ls.skip(h + 1),
                offsets,
                |l: Seq<char>| upgradable_in(l, offsets),
            ),
        },
    }
}

fn locate_upgrade_columns(header: &str) -> (r: Option<Vec<usize>>)
    ensures
        match r {
            Some(v) => columns(header@, upgrade_labels()) == Some(v@),
            None => columns(header@, upgrade_labels()) is None,
        },
{
    let name: [&str; 2] = ["Name", "Nome"];
    let id: [&str; 1] = ["Id"];
    let version: [&str; 2] = ["Version", "Versão"];
    let available: [&str; 2] = ["Available", "Disponível"];
    let source: [&str; 2] = ["Source", "Origem"];
    let labels: [&[&str]; 5] = [&name, &id, &version, &available, &source];
    proof {
        assert(labels.deep_view() =~~= upgrade_labels());
    }
    locate_columns(header, &labels)
}

/// Parses the tabular output of `winget upgrade` (list mode).
///
/// Table format: Name, Id, Version, Available, Source
pub fn parse_upgrade_table(output: &str) -> (packages: Vec<UpgradablePackage>)
    ensures
        packages.deep_view() == upgrade_table(output@),
{
    let lines: Vec<String> = text::split_lines(output);
    let total: usize = lines.len();
    let ghost ls = lines.deep_view();
    let mut packages: Vec<UpgradablePackage> = Vec::new();
    let header: usize = match find_header(&lines) {
        Some(h) => h,
        None => {
            assert(packages.deep_view() =~= Seq::empty());
            return packages;
        },
    };
    proof {
        lemma_first_header(ls, 0);
    }
    let offsets: Vec<usize> = match locate_upgrade_columns(lines[header].as_str()) {
        Some(v) => v,
        None => {
            assert(packages.deep_view() =~= Seq::empty());
            return packages;
        },
    };
    let ghost body = ls.skip(header + 1);
    let ghost read = |l: Seq<char>| upgradable_in(l, offsets@);
    let mut i: usize = header + 1;
    assert(rows(body.take(0), offsets@, read) =~= packages.deep_view()) by {
        body.take(0).lemma_filter_len(|l: Seq<char>| is_usable_row(l, offsets@));
    }
    while i < total
        invariant
            header < i <= total == lines@.len(),
            ls == lines.deep_view(),
            body == ls.skip(header + 1),
            offsets@.len() == 5,
            read == (|l: Seq<char>| upgradable_in(l, offsets@)),
            packages.deep_view() == rows(body.take(i - header - 1), offsets@, read),
        decreases total - i,
    {
        let line: &str = lines[i].as_str();
        proof {
            assert(body[i - header - 1] == line@);
            lemma_rows_step(body, offsets@, read, i - header - 1);
        }
        i += 1;
        if is_data(line) {
            let cols: Vec<&str> = slice_columns(line, &offsets);
            proof {
                lemma_cells(cols, line@, offsets@);
            }
            if !cols[0].is_empty() {
                let package: UpgradablePackage = UpgradablePackage {
                    name: text::copy_of(cols[0]),
                    id: text::copy_of(cols[1]),
                    installed_version: text::copy_of(cols[2]),
                    available_version: text::copy_of(cols[3]),
                    source: non_empty_text(cols[4]),
                };
                list::add_item(&mut packages, package);
            }
        }
    }
    assert(body.take(i - header - 1) =~= body);
    packages
}

proof fn lemma_first_header(lines: Seq<Seq<char>>, from: int)
    requires
        0 <= from,
        lines.len() <= usize::MAX,
    ensures
        first_header(lines, from) matches Some(h) ==> from <= h < lines.len() && is_header(
            lines[h as int],
        ),
    decreases lines.len() - from,
{
    if from < lines.len() && !is_header(lines[from]) {
        lemma_first_header(lines, from + 1);
    }
}

// ---------------------------------------------------------------------------
// `winget search` and `winget list`
// ---------------------------------------------------------------------------

/// The labels that may stand between Version and Source.
pub open spec fn extra_labels() -> Seq<Seq<char>> {
    seq!["Available"@, "Disponível"@, "Match"@, "Correspondência"@]
}

/// Where the Version column ends: at an extra column between Version and
/// Source if the header has one there, else at Source.
pub open spec fn version_end(header: Seq<char>, version: usize, source: usize) -> usize {
    match first_column(header, extra_labels()) {
        Some(o) => if version < o < source {
            o
        } else {
            source
        },
        None => source,
    }
}

/// The columns Name, Id, Version, what follows Version, and Source.
pub open spec fn winget_columns(header: Seq<char>) -> Option<Seq<usize>> {
    match (
        first_column(header, seq!["Name"@, "Nome"@]),
        first_column(header, seq!["ID"@, "Id"@]),
        first_column(header, seq!["Version"@, "Versão"@]),
        first_column(header, seq!["Source"@, "Origem"@]),
    ) {
        (Some(name), Some(id), Some(version), Some(source)) => Some(
            seq![name, id, version, version_end(header, version, source), source],
        ),
        _ => None,
    }
}

/// The package in a row of the search or list table.
pub open spec fn package_in(line: Seq<char>, offsets: Seq<usize>) -> WingetPackageModel {
    WingetPackageModel {
        name: cell(line, offsets, 0),
        id: cell(line, offsets, 1),
        version: non_empty(cell(line, offsets, 2)),
        source: non_empty(cell(line, offsets, 4)),
    }
}

/// The packages in the output of `winget search` or `winget list`: the usable
/// rows under the header. None if there is no header or a column is missing.
pub open spec fn winget_table(output: Seq<char>) -> Seq<WingetPackageModel> {
    let ls = text::lines(output);
    match first_header(ls, 0) {
        None => Seq::empty(),
        Some(h) => match winget_columns(ls[h as int]) {
            None => Seq::empty(),
            Some(offsets) => rows(ls.skip(h + 1), offsets, |l: Seq<char>| package_in(l, offsets)),
        },
    }
}

fn locate_winget_columns(header: &str) -> (r: Option<Vec<usize>>)
    ensures
        match r {
            Some(v) => winget_columns(header@) == Some(v@),
            None => winget_columns(header@) is None,
        },
{
    let names: [&str; 2] = ["Name", "Nome"];
    let ids: [&str; 2] = ["ID", "Id"];
    let versions: [&str; 2] = ["Version", "Versão"];
    let sources: [&str; 2] = ["Source", "Origem"];
    let extras: [&str; 4] = ["Available", "Disponível", "Match", "Correspondência"];
    proof {
        assert(names.deep_view() =~= seq!["Name"@, "Nome"@]);
        assert(ids.deep_view() =~= seq!["ID"@, "Id"@]);
        assert(versions.deep_view() =~= seq!["Version"@, "Versão"@]);
        assert(sources.deep_view() =~= seq!["Source"@, "Origem"@]);
        assert(extras.deep_view() =~= extra_labels());
    }
    let name: Option<usize> = locate_column(header, &names);
    let id: Option<usize> = locate_column(header, &ids);
    let version: Option<usize> = locate_column(header, &versions);
    let source: Option<usize> = locate_column(header, &sources);
    match (name, id, version, source) {
        (Some(name), Some(id), Some(version), Some(source)) => {
            let end: usize = match locate_column(header, &extras) {
                Some(o) => if version < o && o < source {
                    o
                } else {
                    source
                },
                None => source,
            };
            let mut v: Vec<usize> = Vec::new();
            v.push(name);
            v.push(id);
            v.push(version);
            v.push(end);
            v.push(source);
            assert(v@ =~= seq![name, id, version, end, source]);
            Some(v)
        },
        _ => None,
    }
}

/// Parses the tabular output of `winget search` / `winget list` into structured records.
///
/// The table format is fixed-width columns under a header, e.g.:
/// ```text
/// Name                  ID                    Version           Source
/// ---------------------------------------------------------------
/// Google Chrome         Google.Chrome         134.0.6998.165    winget
/// ```
/// Columns are located by the header labels' positions (not by runs of
/// whitespace), so a row with a blank Id (or Version, or Source) keeps every
/// other column in its correct place instead of shifting left.
///
/// Depending on the winget version and subcommand, an extra column can
/// appear between Version and Source that this table has no field for: an
/// available update's version (`list`) or why a search result matched
/// (`search`). If present, it's located too, purely to correctly bound the
/// Version column, and its own text discarded.
pub fn parse_winget_table(output: &str) -> (packages: Vec<WingetPackage>)
    ensures
        packages.deep_view() == winget_table(output@),
{
    let lines: Vec<String> = text::split_lines(output);
    let total: usize = lines.len();
    let ghost ls = lines.deep_view();
    let mut packages: Vec<WingetPackage> = Vec::new();
    let header: usize = match find_header(&lines) {
        Some(h) => h,
        None => {
            assert(packages.deep_view() =~= Seq::empty());
            return packages;
        },
    };
    proof {
        lemma_first_header(ls, 0);
    }
    let offsets: Vec<usize> = match locate_winget_columns(lines[header].as_str()) {
        Some(v) => v,
        None => {
            assert(packages.deep_view() =~= Seq::empty());
            return packages;
        },
    };
    let ghost body = ls.skip(header + 1);
    let ghost read = |l: Seq<char>| package_in(l, offsets@);
    let mut i: usize = header + 1;
    assert(rows(body.take(0), offsets@, read) =~= packages.deep_view()) by {
        body.take(0).lemma_filter_len(|l: Seq<char>| is_usable_row(l, offsets@));
    }
    while i < total
        invariant
            header < i <= total == lines@.len(),
            ls == lines.deep_view(),
            body == ls.skip(header + 1),
            offsets@.len() == 5,
            read == (|l: Seq<char>| package_in(l, offsets@)),
            packages.deep_view() == rows(body.take(i - header - 1), offsets@, read),
        decreases total - i,
    {
        let line: &str = lines[i].as_str();
        proof {
            assert(body[i - header - 1] == line@);
            lemma_rows_step(body, offsets@, read, i - header - 1);
        }
        i += 1;
        if is_data(line) {
            let cols: Vec<&str> = slice_columns(line, &offsets);
            proof {
                lemma_cells(cols, line@, offsets@);
            }
            if !cols[0].is_empty() {
                let package: WingetPackage = WingetPackage {
                    name: text::copy_of(cols[0]),
                    id: text::copy_of(cols[1]),
                    version: non_empty_text(cols[2]),
                    source: non_empty_text(cols[4]),
                };
                list::add_item(&mut packages, package);
            }
        }
    }
    assert(body.take(i - header - 1) =~= body);
    packages
}

// ---------------------------------------------------------------------------
// Laws
// ---------------------------------------------------------------------------

proof fn lemma_first_ci(hay: Seq<char>, needle: Seq<char>, from: int)
    requires
        0 <= from,
        hay.len() <= usize::MAX,
    ensures
        match first_ci(hay, needle, from) {
            Some(i) => from <= i && matches_ci_at(hay, needle, i as int) && forall|j: int|
                from <= j < i ==> !#[trigger] matches_ci_at(hay, needle, j),
            None => forall|j: int| from <= j ==> !#[trigger] matches_ci_at(hay, needle, j),
        },
    decreases hay.len() - from,
{
    if from + needle.len() <= hay.len() && !matches_ci_at(hay, needle, from) {
        lemma_first_ci(hay, needle, from + 1);
    }
}

/// A label is found at its first occurrence, and it is found if it occurs at
/// all. The empty label is never found.
pub proof fn the_first_occurrence_is_found(header: Seq<char>, label: Seq<char>)
    requires
        header.len() <= usize::MAX,
        label.len() > 0,
    ensures
        match column_of(header, label) {
            Some(i) => matches_ci_at(header, label, i as int) && forall|j: int|
                0 <= j < i ==> !#[trigger] matches_ci_at(header, label, j),
            None => forall|j: int| !#[trigger] matches_ci_at(header, label, j),
        },
        column_of(header, Seq::empty()) is None,
{
    lemma_first_ci(header, label, 0);
}

/// The cell of a column is read from that column alone: lines that agree there
/// have the same cell, whatever stands in the other columns. So a blank cell
/// shifts nothing.
pub proof fn a_cell_is_read_from_its_column_alone(
    a: Seq<char>,
    b: Seq<char>,
    offsets: Seq<usize>,
    i: int,
)
    requires
        0 <= i,
        i + 1 < offsets.len(),
        offsets[i + 1] <= a.len(),
        offsets[i + 1] <= b.len(),
        forall|k: int| offsets[i] <= k < offsets[i + 1] ==> a[k] == b[k],
    ensures
        cell(a, offsets, i) == cell(b, offsets, i),
{
    if offsets[i] <= offsets[i + 1] {
        assert(a.subrange(offsets[i] as int, offsets[i + 1] as int) =~= b.subrange(
            offsets[i] as int,
            offsets[i + 1] as int,
        ));
    } else {
        assert(a.subrange(within(a, offsets[i]), cell_end(a, offsets, i)) =~= Seq::<
            char,
        >::empty());
        assert(b.subrange(within(b, offsets[i]), cell_end(b, offsets, i)) =~= Seq::<
            char,
        >::empty());
    }
}

/// A column with nothing but white space gives an empty cell.
pub proof fn a_blank_cell_is_empty(line: Seq<char>, offsets: Seq<usize>, i: int)
    requires
        0 <= i < offsets.len(),
        forall|k: int|
            within(line, offsets[i]) <= k < cell_end(line, offsets, i) ==> text::is_space(
                #[trigger] line[k],
            ),
    ensures
        cell(line, offsets, i).len() == 0,
{
    let part = line.subrange(within(line, offsets[i]), cell_end(line, offsets, i));
    assert forall|k: int| 0 <= k < part.len() implies text::is_space(#[trigger] part[k]) by {
        assert(part[k] == line[within(line, offsets[i]) + k]);
    }
    text::blank_text_trims_to_nothing(part);
}

/// Where the header has an extra column between Version and Source, the version
/// is read from what stands before that column: what stands from there on never
/// runs on into it.
pub proof fn an_extra_column_ends_the_version(
    header: Seq<char>,
    extra: usize,
    a: Seq<char>,
    b: Seq<char>,
)
    requires
        winget_columns(header) is Some,
        first_column(header, extra_labels()) == Some(extra),
        winget_columns(header)->0[2] < extra < winget_columns(header)->0[4],
        extra <= a.len(),
        extra <= b.len(),
        a.take(extra as int) == b.take(extra as int),
    ensures
        package_in(a, winget_columns(header)->0).version == package_in(
            b,
            winget_columns(header)->0,
        ).version,
{
    let offsets = winget_columns(header)->0;
    assert(offsets[3] == extra);
    assert forall|k: int| offsets[2] <= k < offsets[3] implies a[k] == b[k] by {
        assert(a[k] == a.take(extra as int)[k]);
        assert(b[k] == b.take(extra as int)[k]);
    }
    a_cell_is_read_from_its_column_alone(a, b, offsets, 2);
}

/// Every package that is read has a name.
pub proof fn parsed_packages_have_names(output: Seq<char>)
    ensures
        forall|i: int|
            0 <= i < winget_table(output).len() ==> (#[trigger] winget_table(output)[i]).name.len()
                > 0,
        forall|i: int|
            0 <= i < upgrade_table(output).len() ==> (#[trigger] upgrade_table(
                output,
            )[i]).name.len() > 0,
{
    broadcast use vstd::seq_lib::group_filter_ensures;

    let ls = text::lines(output);
    match first_header(ls, 0) {
        None => {},
        Some(h) => {
            let under = ls.skip(h + 1);
            match winget_columns(ls[h as int]) {
                None => {},
                Some(offsets) => {
                    let usable = under.filter(|l: Seq<char>| is_usable_row(l, offsets));
                    assert forall|i: int| 0 <= i < winget_table(output).len() implies (
                    #[trigger] winget_table(output)[i]).name.len() > 0 by {
                        assert(is_usable_row(usable[i], offsets));
                    }
                },
            }
            match columns(ls[h as int], upgrade_labels()) {
                None => {},
                Some(offsets) => {
                    let usable = under.filter(|l: Seq<char>| is_usable_row(l, offsets));
                    assert forall|i: int| 0 <= i < upgrade_table(output).len() implies (
                    #[trigger] upgrade_table(output)[i]).name.len() > 0 by {
                        assert(is_usable_row(usable[i], offsets));
                    }
                },
            }
        },
    }
}

/// A line without a column gap, such as the summary that follows a table, is no
/// package: the rows are the same without it.
pub proof fn a_line_without_a_gap_is_no_package<T>(
    before: Seq<Seq<char>>,
    line: Seq<char>,
    after: Seq<Seq<char>>,
    offsets: Seq<usize>,
    read: spec_fn(Seq<char>) -> T,
)
    requires
        !has_column_gap(line),
    ensures
        rows(before + seq![line] + after, offsets, read) == rows(before + after, offsets, read),
{
    broadcast use Seq::filter_distributes_over_add;

    let p = |l: Seq<char>| is_usable_row(l, offsets);
    assert(before + seq![line] =~= before.push(line));
    before.lemma_filter_push(line, p);
}

proof fn lemma_header_of_extension(lines: Seq<Seq<char>>, more: Seq<Seq<char>>, from: int)
    requires
        0 <= from,
        first_header(lines, from) is Some,
    ensures
        first_header(lines + more, from) == first_header(lines, from),
    decreases lines.len() - from,
{
    if from < lines.len() {
        assert((lines + more)[from] == lines[from]);
        if !is_header(lines[from]) {
            lemma_header_of_extension(lines, more, from + 1);
        }
    }
}

/// Lines are read on their own: lines appended to an output that has its header
/// append the packages that they hold, and change nothing of what was read
/// before.
pub proof fn appended_lines_append_packages(
    output: Seq<char>,
    longer: Seq<char>,
    more: Seq<Seq<char>>,
)
    requires
        text::lines(longer) == text::lines(output) + more,
        text::lines(output).len() <= usize::MAX,
        first_header(text::lines(output), 0) is Some,
    ensures
        ({
            let header = text::lines(output)[first_header(text::lines(output), 0)->0 as int];
            &&& winget_table(longer) == winget_table(output) + match winget_columns(header) {
                None => Seq::empty(),
                Some(offsets) => rows(more, offsets, |l: Seq<char>| package_in(l, offsets)),
            }
            &&& upgrade_table(longer) == upgrade_table(output) + match columns(
                header,
                upgrade_labels(),
            ) {
                None => Seq::empty(),
                Some(offsets) => rows(more, offsets, |l: Seq<char>| upgradable_in(l, offsets)),
            }
        }),
{
    let ls = text::lines(output);
    let h = first_header(ls, 0)->0;
    lemma_first_header(ls, 0);
    lemma_header_of_extension(ls, more, 0);
    let header = ls[h as int];
    let under = ls.skip(h + 1);
    assert((ls + more)[h as int] == header);
    assert((ls + more).skip(h + 1) =~= under + more);
    match winget_columns(header) {
        None => {
            assert(winget_table(longer) =~= winget_table(output) + Seq::empty());
        },
        Some(offsets) => {
            lemma_rows_of_both(under, more, offsets, |l: Seq<char>| package_in(l, offsets));
        },
    }
    match columns(header, upgrade_labels()) {
        None => {
            assert(upgrade_table(longer) =~= upgrade_table(output) + Seq::empty());
        },
        Some(offsets) => {
            lemma_rows_of_both(under, more, offsets, |l: Seq<char>| upgradable_in(l, offsets));
        },
    }
}

proof fn lemma_rows_of_both<T>(
    a: Seq<Seq<char>>,
    b: Seq<Seq<char>>,
    offsets: Seq<usize>,
    read: spec_fn(Seq<char>) -> T,
)
    ensures
        rows(a + b, offsets, read) == rows(a, offsets, read) + rows(b, offsets, read),
{
    let p = |l: Seq<char>| is_usable_row(l, offsets);
    Seq::filter_distributes_over_add(a, b, p);
    assert((a.filter(p) + b.filter(p)).map_values(read) =~= a.filter(p).map_values(read)
        + b.filter(p).map_values(read));
}

/// An output with a line more under its header, one without a column gap, lists
/// the same packages: summaries and notices do not become packages.
pub proof fn prose_under_the_header_is_no_package(
    output: Seq<char>,
    longer: Seq<char>,
    before: Seq<Seq<char>>,
    line: Seq<char>,
    after: Seq<Seq<char>>,
)
    requires
        text::lines(output) == before + after,
        text::lines(longer) == before + seq![line] + after,
        before.len() <= usize::MAX,
        first_header(before, 0) is Some,
        !has_column_gap(line),
    ensures
        winget_table(longer) == winget_table(output),
        upgrade_table(longer) == upgrade_table(output),
{
    let h = first_header(before, 0)->0;
    lemma_first_header(before, 0);
    lemma_header_of_extension(before, after, 0);
    lemma_header_of_extension(before, seq![line] + after, 0);
    assert(before + seq![line] + after =~= before + (seq![line] + after));
    let header = before[h as int];
    let under = before.skip(h + 1);
    assert((before + after).skip(h + 1) =~= under + after);
    assert((before + seq![line] + after).skip(h + 1) =~= under + seq![line] + after);
    match winget_columns(header) {
        None => {},
        Some(offsets) => {
            a_line_without_a_gap_is_no_package(
                under,
                line,
                after,
                offsets,
                |l: Seq<char>| package_in(l, offsets),
            );
        },
    }
    match columns(header, upgrade_labels()) {
        None => {},
        Some(offsets) => {
            a_line_without_a_gap_is_no_package(
                under,
                line,
                after,
                offsets,
                |l: Seq<char>| upgradable_in(l, offsets),
            );
        },
    }
}

/// A label stands at a place exactly when the text there is the label, up to the
/// case of ASCII letters.
pub proof fn labels_stand_where_their_letters_do(header: Seq<char>, label: Seq<char>, i: int)
    ensures
        matches_ci_at(header, label, i) <==> 0 <= i && i + label.len() <= header.len()
            && text::ascii_lowercase(header.subrange(i, i + label.len())) == text::ascii_lowercase(
            label,
        ),
{
    if 0 <= i && i + label.len() <= header.len() {
        let a = text::ascii_lowercase(header.subrange(i, i + label.len()));
        let b = text::ascii_lowercase(label);
        if matches_ci_at(header, label, i) {
            assert forall|k: int| 0 <= k < a.len() implies a[k] == b[k] by {
                assert(text::ascii_lower(header[i + k]) == text::ascii_lower(label[k]));
            }
            assert(a =~= b);
        }
        if a == b {
            assert forall|k: int| 0 <= k < label.len() implies text::ascii_lower(header[i + k])
                == text::ascii_lower(#[trigger] label[k]) by {
                assert(a[k] == b[k]);
            }
        }
    }
}

/// The column of a label with two spellings: the first spelling that the header
/// has counts.
pub open spec fn spelled(header: Seq<char>, a: Seq<char>, b: Seq<char>) -> Option<usize> {
    if column_of(header, a) is Some {
        column_of(header, a)
    } else {
        column_of(header, b)
    }
}

proof fn lemma_spelled(header: Seq<char>, a: Seq<char>, b: Seq<char>)
    ensures
        first_column(header, seq![a, b]) == spelled(header, a, b),
        first_column(header, seq![a]) == column_of(header, a),
{
    reveal_with_fuel(first_column, 3);
    assert(seq![a, b].drop_first() =~= seq![b]);
    assert(seq![b].drop_first() =~= Seq::<Seq<char>>::empty());
    assert(seq![a].drop_first() =~= Seq::<Seq<char>>::empty());
}

proof fn lemma_extra(header: Seq<char>)
    ensures
        first_column(header, extra_labels()) == (if column_of(header, "Available"@) is Some {
            column_of(header, "Available"@)
        } else if column_of(header, "Disponível"@) is Some {
            column_of(header, "Disponível"@)
        } else if column_of(header, "Match"@) is Some {
            column_of(header, "Match"@)
        } else {
            column_of(header, "Correspondência"@)
        }),
{
    let all = extra_labels();
    reveal_with_fuel(first_column, 5);
    assert(all.drop_first() =~= seq!["Disponível"@, "Match"@, "Correspondência"@]);
    assert(all.drop_first().drop_first() =~= seq!["Match"@, "Correspondência"@]);
    assert(all.drop_first().drop_first().drop_first() =~= seq!["Correspondência"@]);
}

/// A header of `winget search` or `winget list` is understood exactly when it
/// has Name, Id, Version and Source, in English or Portuguese; each column
/// begins where its label does.
pub proof fn list_columns_begin_at_their_labels(header: Seq<char>)
    ensures
        winget_columns(header) is Some <==> spelled(header, "Name"@, "Nome"@) is Some && spelled(
            header,
            "ID"@,
            "Id"@,
        ) is Some && spelled(header, "Version"@, "Versão"@) is Some && spelled(
            header,
            "Source"@,
            "Origem"@,
        ) is Some,
        winget_columns(header) matches Some(o) ==> o.len() == 5 && Some(o[0]) == spelled(
            header,
            "Name"@,
            "Nome"@,
        ) && Some(o[1]) == spelled(header, "ID"@, "Id"@) && Some(o[2]) == spelled(
            header,
            "Version"@,
            "Versão"@,
        ) && Some(o[4]) == spelled(header, "Source"@, "Origem"@),
{
    lemma_spelled(header, "Name"@, "Nome"@);
    lemma_spelled(header, "ID"@, "Id"@);
    lemma_spelled(header, "Version"@, "Versão"@);
    lemma_spelled(header, "Source"@, "Origem"@);
}

/// A header of `winget upgrade` is understood exactly when it has Name, Id,
/// Version, Available and Source, in English or Portuguese; each column begins
/// where its label does.
pub proof fn upgrade_columns_begin_at_their_labels(header: Seq<char>)
    ensures
        columns(header, upgrade_labels()) is Some <==> spelled(header, "Name"@, "Nome"@) is Some
            && column_of(header, "Id"@) is Some && spelled(header, "Version"@, "Versão"@) is Some
            && spelled(header, "Available"@, "Disponível"@) is Some && spelled(
            header,
            "Source"@,
            "Origem"@,
        ) is Some,
        columns(header, upgrade_labels()) matches Some(o) ==> o.len() == 5 && Some(o[0]) == spelled(
            header,
            "Name"@,
            "Nome"@,
        ) && Some(o[1]) == column_of(header, "Id"@) && Some(o[2]) == spelled(
            header,
            "Version"@,
            "Versão"@,
        ) && Some(o[3]) == spelled(header, "Available"@, "Disponível"@) && Some(o[4]) == spelled(
            header,
            "Source"@,
            "Origem"@,
        ),
{
    lemma_spelled(header, "Name"@, "Nome"@);
    lemma_spelled(header, "Id"@, "Id"@);
    lemma_spelled(header, "Version"@, "Versão"@);
    lemma_spelled(header, "Available"@, "Disponível"@);
    lemma_spelled(header, "Source"@, "Origem"@);
    let l = upgrade_labels();
    assert(first_column(header, l[0]) == spelled(header, "Name"@, "Nome"@));
    assert(first_column(header, l[1]) == column_of(header, "Id"@));
    assert(first_column(header, l[2]) == spelled(header, "Version"@, "Versão"@));
    assert(first_column(header, l[3]) == spelled(header, "Available"@, "Disponível"@));
    assert(first_column(header, l[4]) == spelled(header, "Source"@, "Origem"@));
}

/// What a line says from column `from` up to column `to`, without white space
/// around it; a line that ends before says as much as it has.
pub open spec fn said(line: Seq<char>, from: int, to: int) -> Seq<char> {
    let n = line.len() as int;
    let a = vstd::math::min(from, n);
    text::trimmed(line.subrange(a, vstd::math::max(a, vstd::math::min(to, n))))
}

/// A text that may be blank: nothing, or the text.
pub open spec fn if_any(s: Seq<char>) -> Option<Seq<char>> {
    if s =~= Seq::empty() {
        None
    } else {
        Some(s)
    }
}

/// `label` is the first of the four labels of a column behind Version that the
/// header has.
pub open spec fn heads_the_extra_column(header: Seq<char>, label: Seq<char>) -> bool {
    &&& column_of(header, label) is Some
    &&& {
        ||| label == "Available"@
        ||| label == "Disponível"@ && column_of(header, "Available"@) is None
        ||| label == "Match"@ && column_of(header, "Available"@) is None && column_of(
            header,
            "Disponível"@,
        ) is None
        ||| label == "Correspondência"@ && column_of(header, "Available"@) is None && column_of(
            header,
            "Disponível"@,
        ) is None && column_of(header, "Match"@) is None
    }
}

/// Where the literal text "Available", "Disponível", "Match" or
/// "Correspondência" stands between Version and Source, the version read from a
/// row is what the row says from Version up to that label, whatever it says from
/// the label on. Without any of the four, or with the label elsewhere, it is what
/// the row says up to Source.
pub proof fn the_version_is_read_up_to_the_extra_label(
    header: Seq<char>,
    label: Seq<char>,
    line: Seq<char>,
    version: usize,
    source: usize,
)
    requires
        winget_columns(header) is Some,
        spelled(header, "Version"@, "Versão"@) == Some(version),
        spelled(header, "Source"@, "Origem"@) == Some(source),
    ensures
        heads_the_extra_column(header, label) && version < column_of(header, label)->0 < source
            ==> package_in(line, winget_columns(header)->0).version == if_any(
            said(line, version as int, column_of(header, label)->0 as int),
        ),
        heads_the_extra_column(header, label) && !(version < column_of(header, label)->0 < source)
            ==> package_in(line, winget_columns(header)->0).version == if_any(
            said(line, version as int, source as int),
        ),
        column_of(header, "Available"@) is None && column_of(header, "Disponível"@) is None
            && column_of(header, "Match"@) is None && column_of(header, "Correspondência"@) is None
            ==> package_in(line, winget_columns(header)->0).version == if_any(
            said(line, version as int, source as int),
        ),
        heads_the_extra_column(header, label) && version < column_of(header, label)->0 < source
            ==> winget_columns(header)->0[3] == column_of(header, label)->0,
{
    list_columns_begin_at_their_labels(header);
    lemma_extra(header);
    let o = winget_columns(header)->0;
    assert(cell(line, o, 2) == said(line, version as int, o[3] as int));
}

/// Label by label: the columns of labels are found exactly when that of each is,
/// and come in the order of the labels. Of the spellings of a label the first
/// that the header has counts.
pub proof fn columns_are_found_label_by_label(
    header: Seq<char>,
    labels: Seq<Seq<Seq<char>>>,
    spellings: Seq<Seq<char>>,
    other: Seq<char>,
)
    ensures
        match (columns(header, labels), first_column(header, spellings)) {
            (Some(o), Some(i)) => columns(header, labels.push(spellings)) == Some(o.push(i)),
            _ => columns(header, labels.push(spellings)) is None,
        },
        columns(header, Seq::empty()) == Some(Seq::<usize>::empty()),
        first_column(header, seq![other] + spellings) == (if column_of(header, other) is Some {
            column_of(header, other)
        } else {
            first_column(header, spellings)
        }),
        first_column(header, Seq::empty()) is None,
{
    let more = labels.push(spellings);
    assert(more[labels.len() as int] == spellings);
    assert(forall|i: int| 0 <= i < labels.len() ==> more[i] == #[trigger] labels[i]);
    if columns(header, labels) is Some && first_column(header, spellings) is Some {
        assert forall|i: int| 0 <= i < more.len() implies first_column(
            header,
            #[trigger] more[i],
        ) is Some by {
            if i < labels.len() {
                assert(first_column(header, labels[i]) is Some);
            }
        }
        assert(columns(header, more)->0 =~= columns(header, labels)->0.push(
            first_column(header, spellings)->0,
        ));
    } else if columns(header, labels) is None {
        let i = choose|i: int|
            0 <= i < labels.len() && first_column(header, #[trigger] labels[i]) is None;
        assert(first_column(header, more[i]) is None);
    }
    assert(columns(header, Seq::empty())->0 =~= Seq::<usize>::empty());
    assert((seq![other] + spellings).drop_first() =~= spellings);
}

/// A line is cut at the columns, one cell per column: each cell is what the line
/// says from its column up to the next, the last what it says to the end.
pub proof fn each_cell_reaches_to_the_next_column(line: Seq<char>, offsets: Seq<usize>, i: int)
    requires
        0 <= i < offsets.len(),
    ensures
        cells(line, offsets).len() == offsets.len(),
        cells(line, offsets)[i] == said(
            line,
            offsets[i] as int,
            if i + 1 < offsets.len() {
                offsets[i + 1] as int
            } else {
                line.len() as int
            },
        ),
{
}

/// A line that holds a package: it is not blank, no rule of dashes, and has two
/// spaces side by side somewhere.
pub open spec fn holds_a_package(line: Seq<char>) -> bool {
    &&& text::trimmed(line).len() > 0
    &&& !(text::trimmed(line).len() >= 3 && text::trimmed(line)[0] == '-' && text::trimmed(
        line,
    )[1] == '-' && text::trimmed(line)[2] == '-')
    &&& exists|i: int| 0 <= i < line.len() - 1 && #[trigger] line[i] == ' ' && line[i + 1] == ' '
}

proof fn lemma_holds_a_package(line: Seq<char>)
    ensures
        is_data_line(line) == holds_a_package(line),
{
    reveal_strlit("---");
    text::parts_are_found_where_they_stand(text::trimmed(line), "---"@);
    let t = text::trimmed(line);
    if t.len() >= 3 && t[0] == '-' && t[1] == '-' && t[2] == '-' {
        assert forall|k: int| 0 <= k < "---"@.len() implies t[k] == #[trigger] "---"@[k] by {}
    }
    if text::begins_with(t, "---"@) {
        assert(t[0] == "---"@[0] && t[1] == "---"@[1] && t[2] == "---"@[2]);
    }
    if has_column_gap(line) {
        let i = choose|i: int|
            0 <= i && i + 1 < line.len() && #[trigger] line[i] == ' ' && line[i + 1] == ' ';
        assert(0 <= i < line.len() - 1 && line[i] == ' ' && line[i + 1] == ' ');
    }
    if exists|i: int| 0 <= i < line.len() - 1 && #[trigger] line[i] == ' ' && line[i + 1] == ' ' {
        let i = choose|i: int|
            0 <= i < line.len() - 1 && #[trigger] line[i] == ' ' && line[i + 1] == ' ';
        assert(0 <= i && i + 1 < line.len() && line[i] == ' ' && line[i + 1] == ' ');
    }
}

/// A line is a header exactly when its lower-case form holds "name" or "nome",
/// and "id".
pub proof fn a_header_names_name_and_id(line: Seq<char>)
    ensures
        is_header(line) <==> (text::occurs_in(text::lower(line), "name"@) || text::occurs_in(
            text::lower(line),
            "nome"@,
        )) && text::occurs_in(text::lower(line), "id"@),
        has_labels(line) <==> (text::occurs_in(line, "name"@) || text::occurs_in(line, "nome"@))
            && text::occurs_in(line, "id"@),
{
}

/// The header is the first line that names both, and there is none exactly when
/// no line does.
pub proof fn the_first_header_line_is_the_header(lines: Seq<Seq<char>>, h: int)
    requires
        lines.len() <= usize::MAX,
    ensures
        0 <= h < lines.len() && is_header(lines[h]) && (forall|j: int|
            0 <= j < h ==> !is_header(#[trigger] lines[j])) ==> first_header(lines, 0) == Some(
            h as usize,
        ),
        (forall|j: int| 0 <= j < lines.len() ==> !is_header(#[trigger] lines[j])) ==> first_header(
            lines,
            0,
        ) is None,
{
    if 0 <= h < lines.len() && is_header(lines[h]) && (forall|j: int|
        0 <= j < h ==> !is_header(#[trigger] lines[j])) {
        lemma_headed(lines, h, 0);
    }
    if forall|j: int| 0 <= j < lines.len() ==> !is_header(#[trigger] lines[j]) {
        lemma_headless(lines, 0);
    }
}

/// A line has a column gap wherever two spaces stand side by side, and nowhere
/// else: a line in which no space follows a space has none.
pub proof fn two_spaces_are_a_column_gap(before: Seq<char>, after: Seq<char>, line: Seq<char>)
    ensures
        has_column_gap(before + seq![' ', ' '] + after),
        (forall|i: int| 0 <= i < line.len() - 1 && #[trigger] line[i] == ' ' ==> line[i + 1] != ' ')
            ==> !has_column_gap(line),
{
    let s = before + seq![' ', ' '] + after;
    let n = before.len() as int;
    assert(s[n] == ' ' && s[n + 1] == ' ');
}

/// The header of an output is its first header line, and it is the line `h`.
pub open spec fn is_headed_at(output: Seq<char>, h: int) -> bool {
    let ls = text::lines(output);
    &&& 0 <= h < ls.len() <= usize::MAX
    &&& is_header(ls[h])
    &&& forall|j: int| 0 <= j < h ==> !is_header(#[trigger] ls[j])
}

proof fn lemma_headed(lines: Seq<Seq<char>>, h: int, from: int)
    requires
        0 <= from <= h < lines.len() <= usize::MAX,
        is_header(lines[h]),
        forall|j: int| 0 <= j < h ==> !is_header(#[trigger] lines[j]),
    ensures
        first_header(lines, from) == Some(h as usize),
    decreases h - from,
{
    if from < h {
        assert(!is_header(lines[from]));
        lemma_headed(lines, h, from + 1);
    }
}

proof fn lemma_headless(lines: Seq<Seq<char>>, from: int)
    requires
        0 <= from,
        forall|j: int| 0 <= j < lines.len() ==> !is_header(#[trigger] lines[j]),
    ensures
        first_header(lines, from) is None,
    decreases lines.len() - from,
{
    if from < lines.len() {
        lemma_headless(lines, from + 1);
    }
}

/// Nothing is read from an output without a header, from one whose header lacks
/// a column, and from one that ends with its header.
pub proof fn nothing_is_read_without_a_header(output: Seq<char>, h: int)
    ensures
        (forall|j: int|
            0 <= j < text::lines(output).len() ==> !is_header(#[trigger] text::lines(output)[j]))
            ==> winget_table(output) == Seq::<WingetPackageModel>::empty() && upgrade_table(output)
            == Seq::<UpgradablePackageModel>::empty(),
        is_headed_at(output, h) && (winget_columns(text::lines(output)[h]) is None || h + 1
            == text::lines(output).len()) ==> winget_table(output) == Seq::<
            WingetPackageModel,
        >::empty(),
        is_headed_at(output, h) && (columns(text::lines(output)[h], upgrade_labels()) is None || h
            + 1 == text::lines(output).len()) ==> upgrade_table(output) == Seq::<
            UpgradablePackageModel,
        >::empty(),
{
    let ls = text::lines(output);
    if forall|j: int| 0 <= j < ls.len() ==> !is_header(#[trigger] ls[j]) {
        lemma_headless(ls, 0);
    }
    if is_headed_at(output, h) {
        lemma_headed(ls, h, 0);
        if h + 1 == ls.len() {
            let under = ls.skip(h + 1);
            assert(under.len() == 0);
            match winget_columns(ls[h]) {
                None => {},
                Some(o) => {
                    under.lemma_filter_len(|l: Seq<char>| is_usable_row(l, o));
                    assert(winget_table(output) =~= Seq::empty());
                },
            }
            match columns(ls[h], upgrade_labels()) {
                None => {},
                Some(o) => {
                    under.lemma_filter_len(|l: Seq<char>| is_usable_row(l, o));
                    assert(upgrade_table(output) =~= Seq::empty());
                },
            }
        }
    }
}

/// One line more under the header of a list or search adds exactly the package
/// that it holds: name, id and source are what it says under Name, under Id and
/// from Source on. A line that holds none, or none with a name, adds nothing.
pub proof fn a_line_more_adds_its_package(
    output: Seq<char>,
    longer: Seq<char>,
    h: int,
    line: Seq<char>,
)
    requires
        is_headed_at(output, h),
        text::lines(longer) == text::lines(output).push(line),
        winget_columns(text::lines(output)[h]) is Some,
    ensures
        ({
            let o = winget_columns(text::lines(output)[h])->0;
            let name = said(line, o[0] as int, o[1] as int);
            &&& holds_a_package(line) && name.len() > 0 ==> winget_table(longer).len()
                == winget_table(output).len() + 1 && winget_table(longer).take(
                winget_table(output).len() as int,
            ) == winget_table(output) && winget_table(longer).last().name == name && winget_table(
                longer,
            ).last().id == said(line, o[1] as int, o[2] as int) && winget_table(
                longer,
            ).last().version == if_any(said(line, o[2] as int, o[3] as int)) && winget_table(
                longer,
            ).last().source == if_any(said(line, o[4] as int, line.len() as int))
            &&& !(holds_a_package(line) && name.len() > 0) ==> winget_table(longer)
                == winget_table(output)
        }),
{
    let ls = text::lines(output);
    lemma_headed(ls, h, 0);
    lemma_header_of_extension(ls, seq![line], 0);
    assert(ls + seq![line] =~= ls.push(line));
    list_columns_begin_at_their_labels(ls[h]);
    lemma_holds_a_package(line);
    let o = winget_columns(ls[h])->0;
    let under = ls.skip(h + 1);
    assert(ls.push(line).skip(h + 1) =~= under.push(line));
    under.lemma_filter_push(line, |l: Seq<char>| is_usable_row(l, o));
    assert(cell(line, o, 0) == said(line, o[0] as int, o[1] as int));
    assert(cell(line, o, 1) == said(line, o[1] as int, o[2] as int));
    assert(cell(line, o, 2) == said(line, o[2] as int, o[3] as int));
    assert(cell(line, o, 4) == said(line, o[4] as int, line.len() as int));
    assert(winget_table(longer) =~= if is_usable_row(line, o) {
        winget_table(output).push(package_in(line, o))
    } else {
        winget_table(output)
    });
    assert(winget_table(output).push(package_in(line, o)).take(winget_table(output).len() as int)
        =~= winget_table(output));
}

/// One line more under the header of an upgrade list adds exactly the upgrade
/// that it holds: name, id, installed and available version are what it says
/// under Name, Id, Version and Available, the source what it says from Source on.
/// A line that holds none, or none with a name, adds nothing.
pub proof fn a_line_more_adds_its_upgrade(
    output: Seq<char>,
    longer: Seq<char>,
    h: int,
    line: Seq<char>,
)
    requires
        is_headed_at(output, h),
        text::lines(longer) == text::lines(output).push(line),
        columns(text::lines(output)[h], upgrade_labels()) is Some,
    ensures
        ({
            let o = columns(text::lines(output)[h], upgrade_labels())->0;
            let name = said(line, o[0] as int, o[1] as int);
            &&& holds_a_package(line) && name.len() > 0 ==> upgrade_table(longer).len()
                == upgrade_table(output).len() + 1 && upgrade_table(longer).take(
                upgrade_table(output).len() as int,
            ) == upgrade_table(output) && upgrade_table(longer).last().name == name
                && upgrade_table(longer).last().id == said(line, o[1] as int, o[2] as int)
                && upgrade_table(longer).last().installed_version == said(
                line,
                o[2] as int,
                o[3] as int,
            ) && upgrade_table(longer).last().available_version == said(
                line,
                o[3] as int,
                o[4] as int,
            ) && upgrade_table(longer).last().source == if_any(
                said(line, o[4] as int, line.len() as int),
            )
            &&& !(holds_a_package(line) && name.len() > 0) ==> upgrade_table(longer)
                == upgrade_table(output)
        }),
{
    let ls = text::lines(output);
    lemma_headed(ls, h, 0);
    lemma_header_of_extension(ls, seq![line], 0);
    assert(ls + seq![line] =~= ls.push(line));
    upgrade_columns_begin_at_their_labels(ls[h]);
    lemma_holds_a_package(line);
    let o = columns(ls[h], upgrade_labels())->0;
    let under = ls.skip(h + 1);
    assert(ls.push(line).skip(h + 1) =~= under.push(line));
    under.lemma_filter_push(line, |l: Seq<char>| is_usable_row(l, o));
    assert(cell(line, o, 0) == said(line, o[0] as int, o[1] as int));
    assert(cell(line, o, 1) == said(line, o[1] as int, o[2] as int));
    assert(cell(line, o, 2) == said(line, o[2] as int, o[3] as int));
    assert(cell(line, o, 3) == said(line, o[3] as int, o[4] as int));
    assert(cell(line, o, 4) == said(line, o[4] as int, line.len() as int));
    assert(upgrade_table(longer) =~= if is_usable_row(line, o) {
        upgrade_table(output).push(upgradable_in(line, o))
    } else {
        upgrade_table(output)
    });
    assert(upgrade_table(output).push(upgradable_in(line, o)).take(
        upgrade_table(output).len() as int,
    ) =~= upgrade_table(output));
}

} // verus!
