//! What is on the screen: the texts of every pane, ready to be drawn.

use vstd::prelude::*;

use crate::app::{App, AppModel, PackageFileModel};
use crate::elevation;
use crate::list;
use crate::package::{
    self, JsonPackage, JsonPackageModel, UpgradablePackageModel, WingetPackageModel,
};
use crate::rows;
use crate::selection::Selection;
use crate::tab::Tab;
use crate::text;

verus! {

/// A row of a list.
#[derive(Debug)]
pub struct Row {
    pub text: String,
    /// Whether the row is multi-selected.
    pub marked: bool,
}

/// A list in a titled box.
#[derive(Debug)]
pub struct ListView {
    pub title: String,
    pub rows: Vec<Row>,
    /// Whether the box is drawn as having the focus.
    pub focused: bool,
    /// The highlighted row, if any.
    pub cursor: Option<usize>,
}

/// The filter input.
#[derive(Debug)]
pub struct FilterBar {
    pub title: &'static str,
    pub query: String,
    /// What is drawn behind the query.
    pub cursor: &'static str,
    pub focused: bool,
}

/// The command bar: the manual-command editor, or what runs at the moment.
#[derive(Debug)]
pub enum CommandBar {
    Editor { title: &'static str, badge: &'static str, input: String, cursor: &'static str },
    Status { title: &'static str, spinner: &'static str, prompt: String },
}

/// The status bar, from left to right.
#[derive(Debug)]
pub struct StatusBar {
    pub left: String,
    pub padding: String,
    pub warning: &'static str,
    pub right: &'static str,
}

// ---------------------------------------------------------------------------
// Model
// ---------------------------------------------------------------------------

/// What a [`Row`] stands for.
#[verifier::ext_equal]
pub struct RowModel {
    pub text: Seq<char>,
    pub marked: bool,
}

/// What a [`ListView`] stands for.
#[verifier::ext_equal]
pub struct ListViewModel {
    pub title: Seq<char>,
    pub rows: Seq<RowModel>,
    pub focused: bool,
    pub cursor: Option<usize>,
}

impl DeepView for Row {
    type V = RowModel;

    open spec fn deep_view(&self) -> RowModel {
        RowModel { text: self.text@, marked: self.marked }
    }
}

impl View for ListView {
    type V = ListViewModel;

    open spec fn view(&self) -> ListViewModel {
        ListViewModel {
            title: self.title@,
            rows: self.rows.deep_view(),
            focused: self.focused,
            cursor: self.cursor,
        }
    }
}

/// Rows that are there to be read only.
pub open spec fn message_rows(texts: Seq<Seq<char>>) -> Seq<RowModel> {
    texts.map_values(|text: Seq<char>| RowModel { text, marked: false })
}

/// Rows that can be marked.
pub open spec fn marked_rows(texts: Seq<Seq<char>>, marked: Set<usize>) -> Seq<RowModel> {
    Seq::new(texts.len(), |i: int| RowModel { text: texts[i], marked: marked.contains(i as usize) })
}

/// The text, or a dash when it is absent.
pub open spec fn or_dash(o: Option<Seq<char>>) -> Seq<char> {
    match o {
        Some(s) => s,
        None => "-"@,
    }
}

/// The row of a search result.
pub open spec fn search_row(p: WingetPackageModel) -> Seq<char> {
    " "@ + p.name + "  "@ + p.id + "  ["@ + or_dash(p.version) + "]  ("@ + or_dash(p.source) + ")"@
}

/// The row of an upgrade.
pub open spec fn update_row(p: UpgradablePackageModel) -> Seq<char> {
    " "@ + p.name + "  "@ + p.installed_version + " -> "@ + p.available_version
}

/// The row of an installed package.
pub open spec fn installed_row(p: WingetPackageModel) -> Seq<char> {
    " "@ + p.name + "  ["@ + or_dash(p.version) + "]"@
}

/// The row of a manifest entry: `▶` = script, `✓` = already installed.
pub open spec fn entry_row(p: JsonPackageModel, installed: Seq<WingetPackageModel>) -> Seq<char> {
    let sign = if p.is_script {
        "▶ "@
    } else if package::entry_installed(p.id, p.name, installed) {
        "✓ "@
    } else {
        "  "@
    };
    sign + p.name
}

/// A title that counts the rows: all of them, or how many of them the filter
/// leaves.
pub open spec fn counted(
    name: Seq<char>,
    filter: Seq<char>,
    shown: nat,
    total: nat,
    unit: Seq<char>,
) -> Seq<char> {
    if filter.len() == 0 {
        name + text::decimal(total) + unit
    } else {
        name + text::decimal(shown) + " / "@ + text::decimal(total) + " filtered) "@
    }
}

/// What the Apps/Scripts pane says when no manifest could be loaded: a short
/// hint, or in debug mode what the search for manifests has to say.
pub open spec fn empty_packages(diagnostic: Seq<char>, debug: bool) -> Seq<Seq<char>> {
    if debug && text::trimmed(diagnostic).len() > 0 {
        text::lines(diagnostic)
    } else {
        seq![
            "Nenhum manifesto encontrado."@,
            "Coloque um packages.json na pasta do executável (veja o README)."@,
            "Defina WGTUI_DEBUG=1 para ver os diretórios verificados."@,
        ]
    }
}

impl AppModel {
    /// The highlighted row of a list: none while the filter input has the focus
    /// or when there is nothing to highlight.
    pub open spec fn highlighted(self, count: nat, cursor: usize) -> Option<usize> {
        if count == 0 || self.filter_focused {
            None
        } else {
            Some(cursor)
        }
    }

    /// The Search pane: the title counts what was found, the rows are those that
    /// pass the filter.
    pub open spec fn search_view(self) -> ListViewModel {
        let shown = rows::filtered(self.search_results, self.filter_query);
        ListViewModel {
            title: if self.search_results.len() > 0 {
                " Results ("@ + text::decimal(self.search_results.len()) + " found) "@
            } else {
                " Results "@
            },
            rows: if shown.len() > 0 {
                marked_rows(
                    shown.map_values(|p: WingetPackageModel| search_row(p)),
                    self.search_sel.marked,
                )
            } else if self.search_results.len() == 0 {
                message_rows(seq!["Type a query and press Enter to search"@])
            } else {
                message_rows(seq!["No packages match the filter"@])
            },
            focused: !self.filter_focused,
            cursor: self.highlighted(shown.len(), self.search_sel.cursor),
        }
    }

    /// Why a list has no rows.
    pub open spec fn empty_message(self, total: nat, nothing: Seq<char>) -> Seq<char> {
        if self.initial_load_pending > 0 {
            "Carregando..."@
        } else if total == 0 {
            nothing
        } else {
            "No packages match the filter"@
        }
    }

    /// The Updates pane.
    pub open spec fn updates_view(self) -> ListViewModel {
        let shown = rows::filtered_upgrades(self.updates, self.filter_query);
        ListViewModel {
            title: counted(
                " Updates ("@,
                self.filter_query,
                shown.len(),
                self.updates.len(),
                " available) "@,
            ),
            rows: if shown.len() == 0 {
                message_rows(
                    seq![self.empty_message(self.updates.len(), "All packages are up to date"@)],
                )
            } else {
                marked_rows(
                    shown.map_values(|p: UpgradablePackageModel| update_row(p)),
                    self.updates_sel.marked,
                )
            },
            focused: !self.filter_focused,
            cursor: self.highlighted(shown.len(), self.updates_sel.cursor),
        }
    }

    /// The Installed pane.
    pub open spec fn installed_view(self) -> ListViewModel {
        let shown = rows::filtered(self.installed, self.filter_query);
        ListViewModel {
            title: counted(
                " Installed Packages ("@,
                self.filter_query,
                shown.len(),
                self.installed.len(),
                " total) "@,
            ),
            rows: if shown.len() == 0 {
                message_rows(
                    seq![
                        self.empty_message(
                            self.installed.len(),
                            "No packages installed via winget"@,
                        ),
                    ],
                )
            } else {
                marked_rows(
                    shown.map_values(|p: WingetPackageModel| installed_row(p)),
                    self.installed_sel.marked,
                )
            },
            focused: !self.filter_focused,
            cursor: self.highlighted(shown.len(), self.installed_sel.cursor),
        }
    }

    /// The file picker.
    pub open spec fn picker_view(self) -> ListViewModel {
        let files = self.package_files;
        ListViewModel {
            title: " Select a package file (Enter to load) "@,
            rows: if files.len() == 0 {
                message_rows(seq!["No JSON package files found"@])
            } else {
                message_rows(files.map_values(|f: PackageFileModel| f.name))
            },
            focused: true,
            cursor: if files.len() == 0 {
                None
            } else {
                Some(self.package_file_selected)
            },
        }
    }

    /// The Apps/Scripts pane.
    pub open spec fn packages_view(self, debug: bool) -> ListViewModel {
        let shown = rows::filtered_entries(self.packages, self.filter_query);
        if self.packages_file_picker {
            self.picker_view()
        } else {
            ListViewModel {
                title: counted(
                    " Apps/Scripts ("@,
                    self.filter_query,
                    shown.len(),
                    self.packages.len(),
                    " total) "@,
                ),
                rows: if shown.len() > 0 {
                    marked_rows(
                        shown.map_values(|p: JsonPackageModel| entry_row(p, self.installed)),
                        self.packages_sel.marked,
                    )
                } else if self.packages.len() == 0 {
                    message_rows(empty_packages(self.packages_diagnostic, debug))
                } else {
                    message_rows(seq!["No packages match the filter"@])
                },
                focused: !self.filter_focused,
                cursor: self.highlighted(shown.len(), self.packages_sel.cursor),
            }
        }
    }

    /// The pane of the current tab.
    pub open spec fn content_view(self, debug: bool) -> ListViewModel {
        match self.tab {
            Tab::Updates => self.updates_view(),
            Tab::Search => self.search_view(),
            Tab::Installed => self.installed_view(),
            Tab::Packages => self.packages_view(debug),
        }
    }

    /// The first output line to show in a panel of `height` lines.
    pub open spec fn output_offset(self, height: nat) -> nat {
        let total = self.command_output.len();
        match self.output_scroll {
            None => if total > height {
                (total - height) as nat
            } else {
                0
            },
            Some(n) => if total == 0 {
                0
            } else if n < total {
                n
            } else {
                (total - 1) as nat
            },
        }
    }
}

/// The animation of the spinner.
pub open spec fn spinner_sign(frame: u8) -> Seq<char> {
    if frame == 0 || frame == 2 {
        "."@
    } else if frame == 1 {
        ".."@
    } else {
        " "@
    }
}

/// The keys of a tab, for the status bar.
pub open spec fn tab_keys(tab: Tab) -> Seq<char> {
    match tab {
        Tab::Updates => "[u] upgrade  [U] upgrade all  "@,
        Tab::Search => "[i] install  "@,
        Tab::Installed => "[u] upgrade  [r] remove  [R] refresh  "@,
        Tab::Packages =>
            "[i] install/run  [I] install/run all  [r] remove  [R] remove all  [F] file  "@,
    }
}

/// The keys that work in every tab, for the status bar.
pub open spec fn common_keys() -> Seq<char> {
    "  [Tab/h l] tabs  [↑↓/j k] nav  [/] filter  [Space/a] select  [Enter] show  [c] cmd  "@
}

/// A number of spaces.
pub open spec fn spaces(n: nat) -> Seq<char> {
    Seq::new(n, |i: int| ' ')
}

/// The spaces that fill a bar of `width` columns.
pub open spec fn fill(width: nat, used: nat) -> Seq<char> {
    spaces(
        if width > used {
            (width - used) as nat
        } else {
            0
        },
    )
}

// ---------------------------------------------------------------------------
// Panes
// ---------------------------------------------------------------------------

/// Lines shown in the Apps/Scripts pane when no manifest could be loaded.
///
/// With `debug` set and a non-empty `diagnostic`, the raw discovery trace is
/// shown; otherwise a short hint pointing at the README.
pub fn empty_packages_lines(diagnostic: &str, debug: bool) -> (lines: Vec<String>)
    ensures
        lines.deep_view() == empty_packages(diagnostic@, debug),
{
    if debug && !text::trim(diagnostic).is_empty() {
        return text::split_lines(diagnostic);
    }
    let lines = text::owned(
        &[
            "Nenhum manifesto encontrado.",
            "Coloque um packages.json na pasta do executável (veja o README).",
            "Defina WGTUI_DEBUG=1 para ver os diretórios verificados.",
        ],
    );
    assert(lines.deep_view() =~= empty_packages(diagnostic@, debug));
    lines
}

fn messages(texts: Vec<String>) -> (rows: Vec<Row>)
    ensures
        rows.deep_view() == message_rows(texts.deep_view()),
{
    let mut rows: Vec<Row> = Vec::new();
    let ghost all = message_rows(texts.deep_view());
    let mut i: usize = 0;
    assert(rows.deep_view() =~= all.take(0));
    while i < texts.len()
        invariant
            i <= texts@.len(),
            all == message_rows(texts.deep_view()),
            rows.deep_view() == all.take(i as int),
        decreases texts@.len() - i,
    {
        list::add_item(&mut rows, Row { text: texts[i].clone(), marked: false });
        assert(all.take(i + 1) =~= all.take(i as int).push(all[i as int]));
        i += 1;
    }
    assert(all.take(i as int) =~= all);
    rows
}

fn message(text: &str) -> (rows: Vec<Row>)
    ensures
        rows.deep_view() == message_rows(seq![text@]),
{
    let texts = text::owned(&[text]);
    assert(texts.deep_view() =~= seq![text@]);
    messages(texts)
}

fn markable(texts: Vec<String>, sel: &Selection) -> (rows: Vec<Row>)
    ensures
        rows.deep_view() == marked_rows(texts.deep_view(), sel@.marked),
{
    let mut rows: Vec<Row> = Vec::new();
    let ghost all = marked_rows(texts.deep_view(), sel@.marked);
    let mut i: usize = 0;
    assert(rows.deep_view() =~= all.take(0));
    while i < texts.len()
        invariant
            i <= texts@.len(),
            all == marked_rows(texts.deep_view(), sel@.marked),
            rows.deep_view() == all.take(i as int),
        decreases texts@.len() - i,
    {
        list::add_item(&mut rows, Row { text: texts[i].clone(), marked: sel.marked.contains(&i) });
        assert(all.take(i + 1) =~= all.take(i as int).push(all[i as int]));
        i += 1;
    }
    assert(all.take(i as int) =~= all);
    rows
}

fn dash_or<'a>(o: &'a Option<String>) -> (s: &'a str)
    ensures
        s@ == or_dash(o.deep_view()),
{
    match o {
        Some(s) => s.as_str(),
        None => "-",
    }
}

fn count_title(name: &str, filter: &str, shown: usize, total: usize, unit: &str) -> (s: String)
    ensures
        s@ == counted(name@, filter@, shown as nat, total as nat, unit@),
{
    let mut s: String = text::copy_of(name);
    let all: String = text::to_decimal(total);
    if filter.is_empty() {
        s.append(all.as_str());
        s.append(unit);
    } else {
        let some: String = text::to_decimal(shown);
        s.append(some.as_str());
        s.append(" / ");
        s.append(all.as_str());
        s.append(" filtered) ");
    }
    s
}

impl App {
    fn highlight(&self, count: usize, cursor: usize) -> (c: Option<usize>)
        ensures
            c == self@.highlighted(count as nat, cursor),
    {
        if count == 0 || self.filter_focused {
            None
        } else {
            Some(cursor)
        }
    }

    fn why_empty(&self, total: usize, nothing: &'static str) -> (s: &'static str)
        ensures
            s@ == self@.empty_message(total as nat, nothing@),
    {
        if self.initial_load_pending > 0 {
            "Carregando..."
        } else if total == 0 {
            nothing
        } else {
            "No packages match the filter"
        }
    }

    /// The pane of the current tab. `debug` asks for the raw package-discovery
    /// diagnostic where there is nothing else to show.
    pub fn render_content(&self, debug: bool) -> (v: ListView)
        ensures
            v@ == self@.content_view(debug),
    {
        match self.tab {
            Tab::Updates => self.render_updates_list(),
            Tab::Search => self.render_search_results(),
            Tab::Installed => self.render_installed_list(),
            Tab::Packages => self.render_packages_list(debug),
        }
    }

    /// The Search pane.
    pub fn render_search_results(&self) -> (v: ListView)
        ensures
            v@ == self@.search_view(),
    {
        let filtered = self.filtered_search_results();
        let count: usize = filtered.len();
        let ghost shown = filtered.deep_view();
        let ghost all = shown.map_values(|p: WingetPackageModel| search_row(p));
        let mut texts: Vec<String> = Vec::new();
        let mut i: usize = 0;
        assert(texts.deep_view() =~= all.take(0));
        while i < count
            invariant
                i <= count == filtered@.len(),
                shown == filtered.deep_view(),
                all == shown.map_values(|p: WingetPackageModel| search_row(p)),
                texts.deep_view() == all.take(i as int),
            decreases count - i,
        {
            let p = filtered[i];
            assert(shown[i as int] == p.deep_view());
            let mut s: String = text::between(" ", p.name.as_str(), "  ");
            s.append(p.id.as_str());
            s.append("  [");
            s.append(dash_or(&p.version));
            s.append("]  (");
            s.append(dash_or(&p.source));
            s.append(")");
            list::add_item(&mut texts, s);
            assert(all.take(i + 1) =~= all.take(i as int).push(all[i as int]));
            i += 1;
        }
        assert(all.take(i as int) =~= all);
        let found: usize = self.search_results.len();
        let title: String = if found > 0 {
            let number: String = text::to_decimal(found);
            text::between(" Results (", number.as_str(), " found) ")
        } else {
            text::copy_of(" Results ")
        };
        let rows: Vec<Row> = if count > 0 {
            markable(texts, &self.search_sel)
        } else if found == 0 {
            message("Type a query and press Enter to search")
        } else {
            message("No packages match the filter")
        };
        ListView {
            title,
            rows,
            focused: !self.filter_focused,
            cursor: self.highlight(count, self.search_sel.cursor),
        }
    }

    /// The Updates pane.
    pub fn render_updates_list(&self) -> (v: ListView)
        ensures
            v@ == self@.updates_view(),
    {
        let filtered = self.filtered_updates();
        let count: usize = filtered.len();
        let ghost shown = filtered.deep_view();
        let ghost all = shown.map_values(|p: UpgradablePackageModel| update_row(p));
        let mut texts: Vec<String> = Vec::new();
        let mut i: usize = 0;
        assert(texts.deep_view() =~= all.take(0));
        while i < count
            invariant
                i <= count == filtered@.len(),
                shown == filtered.deep_view(),
                all == shown.map_values(|p: UpgradablePackageModel| update_row(p)),
                texts.deep_view() == all.take(i as int),
            decreases count - i,
        {
            let p = filtered[i];
            assert(shown[i as int] == p.deep_view());
            let mut s: String = text::between(" ", p.name.as_str(), "  ");
            s.append(p.installed_version.as_str());
            s.append(" -> ");
            s.append(p.available_version.as_str());
            list::add_item(&mut texts, s);
            assert(all.take(i + 1) =~= all.take(i as int).push(all[i as int]));
            i += 1;
        }
        assert(all.take(i as int) =~= all);
        let rows: Vec<Row> = if count == 0 {
            message(self.why_empty(self.updates.len(), "All packages are up to date"))
        } else {
            markable(texts, &self.updates_sel)
        };
        ListView {
            title: count_title(
                " Updates (",
                self.filter_query.as_str(),
                count,
                self.updates.len(),
                " available) ",
            ),
            rows,
            focused: !self.filter_focused,
            cursor: self.highlight(count, self.updates_sel.cursor),
        }
    }

    /// The Installed pane.
    pub fn render_installed_list(&self) -> (v: ListView)
        ensures
            v@ == self@.installed_view(),
    {
        let filtered = self.filtered_installed();
        let count: usize = filtered.len();
        let ghost shown = filtered.deep_view();
        let ghost all = shown.map_values(|p: WingetPackageModel| installed_row(p));
        let mut texts: Vec<String> = Vec::new();
        let mut i: usize = 0;
        assert(texts.deep_view() =~= all.take(0));
        while i < count
            invariant
                i <= count == filtered@.len(),
                shown == filtered.deep_view(),
                all == shown.map_values(|p: WingetPackageModel| installed_row(p)),
                texts.deep_view() == all.take(i as int),
            decreases count - i,
        {
            let p = filtered[i];
            assert(shown[i as int] == p.deep_view());
            let mut s: String = text::between(" ", p.name.as_str(), "  [");
            s.append(dash_or(&p.version));
            s.append("]");
            list::add_item(&mut texts, s);
            assert(all.take(i + 1) =~= all.take(i as int).push(all[i as int]));
            i += 1;
        }
        assert(all.take(i as int) =~= all);
        let rows: Vec<Row> = if count == 0 {
            message(self.why_empty(self.installed.len(), "No packages installed via winget"))
        } else {
            markable(texts, &self.installed_sel)
        };
        ListView {
            title: count_title(
                " Installed Packages (",
                self.filter_query.as_str(),
                count,
                self.installed.len(),
                " total) ",
            ),
            rows,
            focused: !self.filter_focused,
            cursor: self.highlight(count, self.installed_sel.cursor),
        }
    }

    fn render_file_picker(&self) -> (v: ListView)
        ensures
            v@ == self@.picker_view(),
    {
        let count: usize = self.package_files.len();
        let ghost all = self@.package_files.map_values(|f: PackageFileModel| f.name);
        let mut names: Vec<String> = Vec::new();
        let mut i: usize = 0;
        assert(names.deep_view() =~= all.take(0));
        while i < count
            invariant
                i <= count == self.package_files@.len(),
                all == self@.package_files.map_values(|f: PackageFileModel| f.name),
                names.deep_view() == all.take(i as int),
            decreases count - i,
        {
            text::add_text(&mut names, self.package_files[i].name.as_str());
            assert(all.take(i + 1) =~= all.take(i as int).push(all[i as int]));
            i += 1;
        }
        assert(all.take(i as int) =~= all);
        let rows: Vec<Row> = if count == 0 {
            message("No JSON package files found")
        } else {
            messages(names)
        };
        ListView {
            title: text::copy_of(" Select a package file (Enter to load) "),
            rows,
            focused: true,
            cursor: if count == 0 {
                None
            } else {
                Some(self.package_file_selected)
            },
        }
    }

    fn entry_text(&self, p: &JsonPackage) -> (s: String)
        ensures
            s@ == entry_row(p.deep_view(), self@.installed),
    {
        if p.is_script {
            text::concat("▶ ", p.name.as_str())
        } else if package::is_installed(p.id.as_str(), p.name.as_str(), self.installed.as_slice()) {
            text::concat("✓ ", p.name.as_str())
        } else {
            text::concat("  ", p.name.as_str())
        }
    }

    /// The Apps/Scripts pane.
    pub fn render_packages_list(&self, debug: bool) -> (v: ListView)
        ensures
            v@ == self@.packages_view(debug),
    {
        if self.packages_file_picker {
            return self.render_file_picker();
        }
        let filtered = self.filtered_packages();
        let count: usize = filtered.len();
        let ghost installed = self@.installed;
        let ghost shown = filtered.deep_view();
        let ghost f = |p: JsonPackageModel| entry_row(p, installed);
        let ghost all = shown.map_values(f);
        let mut texts: Vec<String> = Vec::new();
        let mut i: usize = 0;
        assert(texts.deep_view() =~= all.take(0));
        while i < count
            invariant
                i <= count == filtered@.len(),
                installed == self@.installed,
                shown == filtered.deep_view(),
                f == (|p: JsonPackageModel| entry_row(p, installed)),
                all == shown.map_values(f),
                texts.deep_view() == all.take(i as int),
            decreases count - i,
        {
            let p = filtered[i];
            assert(shown[i as int] == p.deep_view());
            list::add_item(&mut texts, self.entry_text(p));
            assert(all.take(i + 1) =~= all.take(i as int).push(all[i as int]));
            i += 1;
        }
        assert(all.take(i as int) =~= all);
        let rows: Vec<Row> = if count > 0 {
            markable(texts, &self.packages_sel)
        } else if self.packages.len() == 0 {
            messages(empty_packages_lines(self.packages_diagnostic.as_str(), debug))
        } else {
            message("No packages match the filter")
        };
        ListView {
            title: count_title(
                " Apps/Scripts (",
                self.filter_query.as_str(),
                count,
                self.packages.len(),
                " total) ",
            ),
            rows,
            focused: !self.filter_focused,
            cursor: self.highlight(count, self.packages_sel.cursor),
        }
    }

    /// The titles in the tab bar and which of them is the current one.
    pub fn render_tabs(&self) -> (r: (Vec<String>, usize))
        ensures
            r.0.deep_view() == seq![
                text::trimmed(Tab::Updates.label()),
                text::trimmed(Tab::Search.label()),
                text::trimmed(Tab::Installed.label()),
                text::trimmed(Tab::Packages.label()),
            ],
            r.1 == self@.tab.place(),
    {
        let titles = text::owned(
            &[
                text::trim(Tab::Updates.title()),
                text::trim(Tab::Search.title()),
                text::trim(Tab::Installed.title()),
                text::trim(Tab::Packages.title()),
            ],
        );
        assert(titles.deep_view() =~= seq![
            text::trimmed(Tab::Updates.label()),
            text::trimmed(Tab::Search.label()),
            text::trimmed(Tab::Installed.label()),
            text::trimmed(Tab::Packages.label()),
        ]);
        (titles, self.tab.index())
    }

    /// The filter input.
    pub fn render_filter_bar(&self) -> (bar: FilterBar)
        ensures
            bar.title@ == match self@.tab {
                Tab::Updates => " Filter updates "@,
                Tab::Search => " Search (Enter to query winget) "@,
                Tab::Installed => " Filter installed "@,
                Tab::Packages => " Filter apps/scripts "@,
            },
            bar.query@ == self@.filter_query,
            bar.focused == self@.filter_focused,
            bar.cursor@ == if self@.filter_focused {
                "█"@
            } else {
                ""@
            },
    {
        let title: &'static str = match self.tab {
            Tab::Updates => " Filter updates ",
            Tab::Search => " Search (Enter to query winget) ",
            Tab::Installed => " Filter installed ",
            Tab::Packages => " Filter apps/scripts ",
        };
        let cursor: &'static str = if self.filter_focused {
            "█"
        } else {
            ""
        };
        FilterBar { title, query: self.filter_query.clone(), cursor, focused: self.filter_focused }
    }

    /// The command bar: the editor while it is open, else the command that runs
    /// or ran last.
    pub fn render_command_bar(&self) -> (bar: CommandBar)
        ensures
            match self@.command_input {
                Some(text) => bar matches CommandBar::Editor { title, badge, input, cursor }
                    && title@ == " Command  [Enter] run  [Esc] cancel "@ && badge@ == " edit "@
                    && input@ == text && cursor@ == "█"@,
                None => bar matches CommandBar::Status { title, spinner, prompt } && title@
                    == " Command "@ && spinner@ == (if self@.is_waiting() {
                    spinner_sign(self@.spinner_frame)
                } else {
                    ""@
                }) && prompt@ == match self@.current_command {
                    Some(command) => command,
                    None => if self@.initial_load_pending > 0 {
                        "carregando listas de pacotes..."@
                    } else {
                        "waiting for command..."@
                    },
                },
            },
    {
        if let Some(input) = &self.command_input {
            return CommandBar::Editor {
                title: " Command  [Enter] run  [Esc] cancel ",
                badge: " edit ",
                input: input.clone(),
                cursor: "█",
            };
        }
        let loading: bool = self.initial_load_pending > 0;
        let spinner: &'static str = if self.busy || loading {
            match self.spinner_frame {
                0 => ".",
                1 => "..",
                2 => ".",
                _ => " ",
            }
        } else {
            ""
        };
        let prompt: String = match &self.current_command {
            Some(command) => command.clone(),
            None => if loading {
                text::copy_of("carregando listas de pacotes...")
            } else {
                text::copy_of("waiting for command...")
            },
        };
        CommandBar::Status { title: " Command ", spinner, prompt }
    }

    /// The first output line to show in a panel of `height` lines, modulo 2^16.
    pub fn render_terminal_output(&self, height: usize) -> (offset: u16)
        ensures
            offset == self@.output_offset(height as nat) % 0x1_0000,
    {
        let total: usize = self.command_output.len();
        let scroll: usize = if self.output_scroll == usize::MAX {
            total.saturating_sub(height)
        } else if self.output_scroll < total.saturating_sub(1) {
            self.output_scroll
        } else {
            total.saturating_sub(1)
        };
        assert(scroll == self@.output_offset(height as nat));
        assert(#[verifier::truncate] (scroll as u16) == scroll % 0x1_0000) by (bit_vector);
        #[verifier::truncate]
        (scroll as u16)
    }

    /// The status bar in `width` columns. A text takes as many columns as its
    /// encoding has bytes.
    pub fn render_status_bar(&self, width: usize) -> (bar: StatusBar)
        ensures
            bar.left@ == common_keys() + tab_keys(self@.tab),
            bar.right@ == " [q] quit "@,
            bar.warning@ == match elevation::warning(self@.elevated) {
                Some(w) => w,
                None => ""@,
            },
            bar.padding@ == fill(
                width as nat,
                text::byte_count(bar.left@) + text::byte_count(bar.warning@) + text::byte_count(
                    bar.right@,
                ),
            ),
    {
        let keys: &'static str = match self.tab {
            Tab::Updates => "[u] upgrade  [U] upgrade all  ",
            Tab::Search => "[i] install  ",
            Tab::Installed => "[u] upgrade  [r] remove  [R] refresh  ",
            Tab::Packages =>
                "[i] install/run  [I] install/run all  [r] remove  [R] remove all  [F] file  ",
        };
        let left: String = text::concat(
            "  [Tab/h l] tabs  [↑↓/j k] nav  [/] filter  [Space/a] select  [Enter] show  [c] cmd  ",
            keys,
        );
        let right: &'static str = " [q] quit ";
        let warning: &'static str = match elevation::elevation_warning(self.elevated) {
            Some(w) => w,
            None => "",
        };
        let room: usize = width.saturating_sub(text::byte_len(left.as_str())).saturating_sub(
            text::byte_len(warning),
        ).saturating_sub(text::byte_len(right));
        StatusBar { left, padding: blanks(room), warning, right }
    }
}

fn blanks(n: usize) -> (s: String)
    ensures
        s@ == spaces(n as nat),
{
    let mut s: String = String::new();
    let mut i: usize = 0;
    assert(s@ =~= spaces(0));
    while i < n
        invariant
            i <= n,
            s@ == spaces(i as nat),
        decreases n - i,
    {
        s.push(' ');
        i += 1;
        assert(s@ =~= spaces(i as nat));
    }
    s
}

// ---------------------------------------------------------------------------
// Laws
// ---------------------------------------------------------------------------

/// The Search pane has a row for every result that passes the filter, with its
/// name, id, version and source, a dash for what is unknown. Its title counts all
/// results. Without a row it says why.
pub proof fn search_rows_say_what_was_found(m: AppModel, i: int)
    requires
        rows::filtered(m.search_results, m.filter_query).len() <= usize::MAX,
    ensures
        ({
            let v = m.search_view();
            let shown = rows::filtered(m.search_results, m.filter_query);
            let p = shown[i];
            &&& shown.len() > 0 ==> v.rows.len() == shown.len()
            &&& 0 <= i < shown.len() ==> v.rows[i].text == " "@ + p.name + "  "@ + p.id + "  ["@ + (
            match p.version {
                Some(version) => version,
                None => "-"@,
            }) + "]  ("@ + (match p.source {
                Some(source) => source,
                None => "-"@,
            }) + ")"@ && v.rows[i].marked == m.search_sel.marked.contains(i as usize)
            &&& shown.len() == 0 ==> v.rows.len() == 1 && !v.rows[0].marked && v.rows[0].text
                == if m.search_results.len() == 0 {
                "Type a query and press Enter to search"@
            } else {
                "No packages match the filter"@
            }
            &&& v.title == if m.search_results.len() == 0 {
                " Results "@
            } else {
                " Results ("@ + text::decimal(m.search_results.len()) + " found) "@
            }
            &&& v.focused == !m.filter_focused
            &&& v.cursor == if shown.len() > 0 && !m.filter_focused {
                Some(m.search_sel.cursor)
            } else {
                None
            }
        }),
{
}

/// The Updates pane has a row for every upgrade that passes the filter, with its
/// name and both versions. Its title counts the upgrades, and under a filter also
/// those that pass. Without a row it says why.
pub proof fn update_rows_say_both_versions(m: AppModel, i: int)
    requires
        rows::filtered_upgrades(m.updates, m.filter_query).len() <= usize::MAX,
    ensures
        ({
            let v = m.updates_view();
            let shown = rows::filtered_upgrades(m.updates, m.filter_query);
            let p = shown[i];
            &&& shown.len() > 0 ==> v.rows.len() == shown.len()
            &&& 0 <= i < shown.len() ==> v.rows[i].text == " "@ + p.name + "  "@
                + p.installed_version + " -> "@ + p.available_version && v.rows[i].marked
                == m.updates_sel.marked.contains(i as usize)
            &&& shown.len() == 0 ==> v.rows.len() == 1 && !v.rows[0].marked && v.rows[0].text
                == if m.initial_load_pending > 0 {
                "Carregando..."@
            } else if m.updates.len() == 0 {
                "All packages are up to date"@
            } else {
                "No packages match the filter"@
            }
            &&& v.title == if m.filter_query.len() == 0 {
                " Updates ("@ + text::decimal(m.updates.len()) + " available) "@
            } else {
                " Updates ("@ + text::decimal(shown.len()) + " / "@ + text::decimal(m.updates.len())
                    + " filtered) "@
            }
            &&& v.focused == !m.filter_focused
            &&& v.cursor == if shown.len() > 0 && !m.filter_focused {
                Some(m.updates_sel.cursor)
            } else {
                None
            }
        }),
{
}

/// The Installed pane has a row for every installed package that passes the
/// filter, with its name and version, a dash for one that is unknown. Its title
/// counts the packages, and under a filter also those that pass. Without a row it
/// says why.
pub proof fn installed_rows_say_the_version(m: AppModel, i: int)
    requires
        rows::filtered(m.installed, m.filter_query).len() <= usize::MAX,
    ensures
        ({
            let v = m.installed_view();
            let shown = rows::filtered(m.installed, m.filter_query);
            let p = shown[i];
            &&& shown.len() > 0 ==> v.rows.len() == shown.len()
            &&& 0 <= i < shown.len() ==> v.rows[i].text == " "@ + p.name + "  ["@ + (
            match p.version {
                Some(version) => version,
                None => "-"@,
            }) + "]"@ && v.rows[i].marked == m.installed_sel.marked.contains(i as usize)
            &&& shown.len() == 0 ==> v.rows.len() == 1 && !v.rows[0].marked && v.rows[0].text
                == if m.initial_load_pending > 0 {
                "Carregando..."@
            } else if m.installed.len() == 0 {
                "No packages installed via winget"@
            } else {
                "No packages match the filter"@
            }
            &&& v.title == if m.filter_query.len() == 0 {
                " Installed Packages ("@ + text::decimal(m.installed.len()) + " total) "@
            } else {
                " Installed Packages ("@ + text::decimal(shown.len()) + " / "@ + text::decimal(
                    m.installed.len(),
                ) + " filtered) "@
            }
            &&& v.focused == !m.filter_focused
            &&& v.cursor == if shown.len() > 0 && !m.filter_focused {
                Some(m.installed_sel.cursor)
            } else {
                None
            }
        }),
{
}

/// The Apps/Scripts pane has a row for every manifest entry that passes the
/// filter: a sign, `▶` for a script, `✓` for a package that is installed, and its
/// name. Its title counts the entries, and under a filter also those that pass.
/// Without a row it says why.
pub proof fn entry_rows_say_what_is_installed(m: AppModel, debug: bool, i: int)
    requires
        !m.packages_file_picker,
        rows::filtered_entries(m.packages, m.filter_query).len() <= usize::MAX,
    ensures
        ({
            let v = m.packages_view(debug);
            let shown = rows::filtered_entries(m.packages, m.filter_query);
            let p = shown[i];
            &&& shown.len() > 0 ==> v.rows.len() == shown.len()
            &&& 0 <= i < shown.len() ==> v.rows[i].text == (if p.is_script {
                "▶ "@
            } else if package::entry_installed(p.id, p.name, m.installed) {
                "✓ "@
            } else {
                "  "@
            }) + p.name && v.rows[i].marked == m.packages_sel.marked.contains(i as usize)
            &&& shown.len() == 0 && m.packages.len() > 0 ==> v.rows.len() == 1
                && !v.rows[0].marked && v.rows[0].text == "No packages match the filter"@
            &&& m.packages.len() == 0 ==> v.rows.len() == empty_packages(
                m.packages_diagnostic,
                debug,
            ).len()
            &&& m.packages.len() == 0 && 0 <= i < v.rows.len() ==> !v.rows[i].marked
                && v.rows[i].text == empty_packages(m.packages_diagnostic, debug)[i]
            &&& v.title == if m.filter_query.len() == 0 {
                " Apps/Scripts ("@ + text::decimal(m.packages.len()) + " total) "@
            } else {
                " Apps/Scripts ("@ + text::decimal(shown.len()) + " / "@ + text::decimal(
                    m.packages.len(),
                ) + " filtered) "@
            }
            &&& v.focused == !m.filter_focused
            &&& v.cursor == if shown.len() > 0 && !m.filter_focused {
                Some(m.packages_sel.cursor)
            } else {
                None
            }
        }),
{
    broadcast use vstd::seq_lib::group_filter_ensures;

    if m.packages.len() == 0 {
        let pred = |p: JsonPackageModel|
            rows::passes(p.name, m.filter_query) || rows::passes(p.id, m.filter_query);
        m.packages.lemma_filter_len(pred);
    }
}

/// While a file is to be picked the pane lists the names of all files and
/// highlights the picked one; without files it says so.
pub proof fn the_picker_lists_every_file(m: AppModel, debug: bool, i: int)
    requires
        m.packages_file_picker,
    ensures
        ({
            let v = m.packages_view(debug);
            &&& m.package_files.len() > 0 ==> v.rows.len() == m.package_files.len() && v.cursor
                == Some(m.package_file_selected)
            &&& 0 <= i < m.package_files.len() ==> v.rows[i].text == m.package_files[i].name
                && !v.rows[i].marked
            &&& m.package_files.len() == 0 ==> v.rows.len() == 1 && v.rows[0].text
                == "No JSON package files found"@ && !v.rows[0].marked && v.cursor is None
            &&& v.focused
            &&& v.title == " Select a package file (Enter to load) "@
        }),
{
}

/// Without a manifest the pane shows a hint of three lines, or, where debugging
/// was asked for and there is anything to tell, what the search for manifests has
/// to tell, line by line.
pub proof fn without_a_manifest_there_is_a_hint(diagnostic: Seq<char>, debug: bool)
    ensures
        debug && text::trimmed(diagnostic).len() > 0 ==> empty_packages(diagnostic, debug)
            == text::lines(diagnostic),
        !debug || text::trimmed(diagnostic).len() == 0 ==> empty_packages(diagnostic, debug)
            == seq![
            "Nenhum manifesto encontrado."@,
            "Coloque um packages.json na pasta do executável (veja o README)."@,
            "Defina WGTUI_DEBUG=1 para ver os diretórios verificados."@,
        ],
{
}

/// Each tab shows its own pane.
pub proof fn each_tab_shows_its_pane(m: AppModel, debug: bool)
    ensures
        m.tab == Tab::Updates ==> m.content_view(debug) == m.updates_view(),
        m.tab == Tab::Search ==> m.content_view(debug) == m.search_view(),
        m.tab == Tab::Installed ==> m.content_view(debug) == m.installed_view(),
        m.tab == Tab::Packages ==> m.content_view(debug) == m.packages_view(debug),
{
}

/// Output that follows its end is shown so that the panel is as full as it can be
/// and the last line is in it; output that is scrolled begins with the line that
/// it is scrolled to, or with its last line if there is no such line.
pub proof fn the_panel_begins_where_the_output_is_scrolled(m: AppModel, height: nat)
    ensures
        m.output_scroll is None && m.command_output.len() <= height ==> m.output_offset(height)
            == 0,
        m.output_scroll is None && m.command_output.len() > height ==> m.output_offset(height)
            + height == m.command_output.len(),
        m.output_scroll matches Some(n) ==> (n < m.command_output.len() ==> m.output_offset(height)
            == n),
        m.output_scroll matches Some(n) ==> (n >= m.command_output.len() > 0 ==> m.output_offset(
            height,
        ) == m.command_output.len() - 1),
        m.command_output.len() == 0 ==> m.output_offset(height) == 0,
{
}

/// The padding of a bar is made of spaces, as many as the width leaves.
pub proof fn padding_is_blank(width: nat, used: nat, i: int)
    ensures
        fill(width, used).len() == if width > used {
            width - used
        } else {
            0
        },
        0 <= i < fill(width, used).len() ==> fill(width, used)[i] == ' ',
{
}

/// What the status bar says: the keys of every tab and then those of this one.
pub proof fn the_status_bar_names_the_keys(tab: Tab)
    ensures
        common_keys()
            == "  [Tab/h l] tabs  [↑↓/j k] nav  [/] filter  [Space/a] select  [Enter] show  [c] cmd  "@,
        tab == Tab::Updates ==> tab_keys(tab) == "[u] upgrade  [U] upgrade all  "@,
        tab == Tab::Search ==> tab_keys(tab) == "[i] install  "@,
        tab == Tab::Installed ==> tab_keys(tab) == "[u] upgrade  [r] remove  [R] refresh  "@,
        tab == Tab::Packages ==> tab_keys(tab)
            == "[i] install/run  [I] install/run all  [r] remove  [R] remove all  [F] file  "@,
{
}

/// The spinner shows one dot, two, one and none in turn, and none in a frame that
/// it does not have.
pub proof fn the_spinner_has_four_frames(frame: u8)
    ensures
        frame == 0 || frame == 2 ==> spinner_sign(frame) == "."@,
        frame == 1 ==> spinner_sign(frame) == ".."@,
        frame >= 3 ==> spinner_sign(frame) == " "@,
{
}

/// What stands for a pane is its title, every row with its text and mark, its
/// focus and its cursor.
pub proof fn panes_are_told_apart_by_all_that_is_drawn(v: ListView, i: int)
    ensures
        v@.title == v.title@,
        v@.rows.len() == v.rows@.len(),
        0 <= i < v.rows@.len() ==> v@.rows[i].text == v.rows@[i].text@ && v@.rows[i].marked
            == v.rows@[i].marked,
        v@.focused == v.focused,
        v@.cursor == v.cursor,
{
}

} // verus!
