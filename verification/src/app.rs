//! The state of the interface.

use vstd::prelude::*;

use crate::action::{ActionResult, ActionResultModel};
use crate::list;
use crate::package::{
    JsonPackage, JsonPackageModel, UpgradablePackage, UpgradablePackageModel, WingetPackage,
    WingetPackageModel,
};
use crate::selection::{Selection, SelectionModel};
use crate::tab::Tab;
use crate::text;

verus! {

/// A manifest file that was found.
#[derive(Debug)]
pub struct PackageFile {
    /// The path, as it is shown.
    pub path: String,
    /// The last component of the path.
    pub name: String,
}

/// A directory that was searched, and the manifest files found there.
#[derive(Debug)]
pub struct ScannedDir {
    /// The path, as it is shown.
    pub dir: String,
    pub files: Vec<PackageFile>,
}

/// Main application state.
pub struct App {
    pub tab: Tab,
    /// Whether the filter input is focused on the current tab.
    pub filter_focused: bool,
    /// Filter query text (shared across tabs, cleared on switch).
    pub filter_query: String,
    /// Results from the last winget search (unfiltered).
    pub search_results: Vec<WingetPackage>,
    /// Cursor / multi-selection in the search results list.
    pub search_sel: Selection,
    /// Packages with available updates from `winget upgrade` (list mode).
    pub updates: Vec<UpgradablePackage>,
    /// Cursor / multi-selection in the updates list.
    pub updates_sel: Selection,
    /// Currently loaded installed packages (unfiltered).
    pub installed: Vec<WingetPackage>,
    /// Cursor / multi-selection in the installed list.
    pub installed_sel: Selection,
    /// Discovered JSON package files (populated at startup).
    pub package_files: Vec<PackageFile>,
    /// Index in the file picker list.
    pub package_file_selected: usize,
    /// True when the file picker is shown (multiple JSON files found).
    pub packages_file_picker: bool,
    /// Packages loaded from a selected JSON file.
    pub packages: Vec<JsonPackage>,
    /// Cursor / multi-selection in the packages list.
    pub packages_sel: Selection,
    /// Diagnostic message about package loading (for debugging).
    pub packages_diagnostic: String,
    /// The last winget command that was run (shown in the command bar).
    pub current_command: Option<String>,
    /// The full command line last executed, verbatim — the seed for `[c]` edit.
    pub last_command: Option<String>,
    /// `Some` while the manual-command editor (`[c]`) is open.
    pub command_input: Option<String>,
    /// Output lines from the last command (shown in the output panel).
    pub command_output: Vec<String>,
    /// Scroll offset for terminal output (usize::MAX = auto-scroll to bottom).
    pub output_scroll: usize,
    /// True while a blocking winget command is running.
    pub busy: bool,
    /// Count of startup list loads (`winget list` + `winget upgrade`) not yet
    /// finished. Non-zero drives a "loading" spinner without blocking input.
    pub initial_load_pending: u8,
    /// Whether wgtui runs elevated. Assumed true until the startup check says
    /// otherwise, so no warning flashes on launch.
    pub elevated: bool,
    /// Cycles 0..3 for the spinner animation.
    pub spinner_frame: u8,
    pub should_quit: bool,
}

// ---------------------------------------------------------------------------
// Model
// ---------------------------------------------------------------------------

/// The texts of a [`PackageFile`].
#[verifier::ext_equal]
pub struct PackageFileModel {
    pub path: Seq<char>,
    pub name: Seq<char>,
}

/// The texts of a [`ScannedDir`].
#[verifier::ext_equal]
pub struct ScannedDirModel {
    pub dir: Seq<char>,
    pub files: Seq<PackageFileModel>,
}

/// What an [`App`] stands for, field by field.
#[verifier::ext_equal]
pub struct AppModel {
    pub tab: Tab,
    pub filter_focused: bool,
    pub filter_query: Seq<char>,
    pub search_results: Seq<WingetPackageModel>,
    pub search_sel: SelectionModel,
    pub updates: Seq<UpgradablePackageModel>,
    pub updates_sel: SelectionModel,
    pub installed: Seq<WingetPackageModel>,
    pub installed_sel: SelectionModel,
    pub package_files: Seq<PackageFileModel>,
    pub package_file_selected: usize,
    pub packages_file_picker: bool,
    pub packages: Seq<JsonPackageModel>,
    pub packages_sel: SelectionModel,
    pub packages_diagnostic: Seq<char>,
    pub current_command: Option<Seq<char>>,
    pub last_command: Option<Seq<char>>,
    pub command_input: Option<Seq<char>>,
    pub command_output: Seq<Seq<char>>,
    /// `None`: the output follows its last line.
    pub output_scroll: Option<nat>,
    pub busy: bool,
    pub initial_load_pending: u8,
    pub elevated: bool,
    pub spinner_frame: u8,
    pub should_quit: bool,
}

impl DeepView for PackageFile {
    type V = PackageFileModel;

    open spec fn deep_view(&self) -> PackageFileModel {
        PackageFileModel { path: self.path@, name: self.name@ }
    }
}

impl DeepView for ScannedDir {
    type V = ScannedDirModel;

    open spec fn deep_view(&self) -> ScannedDirModel {
        ScannedDirModel { dir: self.dir@, files: self.files.deep_view() }
    }
}

/// The place that a stored scroll offset stands for.
pub open spec fn scroll_place(offset: usize) -> Option<nat> {
    if offset == usize::MAX {
        None
    } else {
        Some(offset as nat)
    }
}

impl View for App {
    type V = AppModel;

    open spec fn view(&self) -> AppModel {
        AppModel {
            tab: self.tab,
            filter_focused: self.filter_focused,
            filter_query: self.filter_query@,
            search_results: self.search_results.deep_view(),
            search_sel: self.search_sel@,
            updates: self.updates.deep_view(),
            updates_sel: self.updates_sel@,
            installed: self.installed.deep_view(),
            installed_sel: self.installed_sel@,
            package_files: self.package_files.deep_view(),
            package_file_selected: self.package_file_selected,
            packages_file_picker: self.packages_file_picker,
            packages: self.packages.deep_view(),
            packages_sel: self.packages_sel@,
            packages_diagnostic: self.packages_diagnostic@,
            current_command: self.current_command.deep_view(),
            last_command: self.last_command.deep_view(),
            command_input: self.command_input.deep_view(),
            command_output: self.command_output.deep_view(),
            output_scroll: scroll_place(self.output_scroll),
            busy: self.busy,
            initial_load_pending: self.initial_load_pending,
            elevated: self.elevated,
            spinner_frame: self.spinner_frame,
            should_quit: self.should_quit,
        }
    }
}

// ---------------------------------------------------------------------------
// Startup
// ---------------------------------------------------------------------------

/// The manifest files of all directories, in the order of the search.
pub open spec fn files_found(scan: Seq<ScannedDirModel>) -> Seq<PackageFileModel> {
    list::concatenated(scan.map_values(|d: ScannedDirModel| d.files))
}

/// What the diagnostic says of one directory.
pub open spec fn scan_note(d: ScannedDirModel) -> Seq<char> {
    "dir: "@ + d.dir + "\n"@ + ("  -> "@ + text::decimal(d.files.len()) + " files\n"@)
}

/// What the diagnostic says of the directories.
pub open spec fn scan_notes(scan: Seq<ScannedDirModel>) -> Seq<char> {
    list::concatenated(scan.map_values(|d: ScannedDirModel| scan_note(d)))
}

/// What the diagnostic says of a loaded file.
pub open spec fn load_note(count: nat, path: Seq<char>) -> Seq<char> {
    "loaded "@ + text::decimal(count) + " pkgs from "@ + path
}

/// The last line of the startup diagnostic.
pub open spec fn startup_note(files: Seq<PackageFileModel>, loaded: nat) -> Seq<char> {
    if files.len() == 1 {
        load_note(loaded, files[0].path) + "\n"@
    } else if files.len() == 0 {
        "no json files found\n"@
    } else {
        text::decimal(files.len()) + " files found, pick one\n"@
    }
}

/// The state at startup: one file is loaded directly, several open the file
/// picker; the package lists are still to come.
pub open spec fn started(scan: Seq<ScannedDirModel>, sole: Seq<JsonPackageModel>) -> AppModel {
    let files = files_found(scan);
    AppModel {
        tab: Tab::Updates,
        filter_focused: false,
        filter_query: Seq::empty(),
        search_results: Seq::empty(),
        search_sel: SelectionModel::initial(),
        updates: Seq::empty(),
        updates_sel: SelectionModel::initial(),
        installed: Seq::empty(),
        installed_sel: SelectionModel::initial(),
        package_files: files,
        package_file_selected: 0,
        packages_file_picker: files.len() > 1,
        packages: if files.len() == 1 {
            sole
        } else {
            Seq::empty()
        },
        packages_sel: SelectionModel::initial(),
        packages_diagnostic: scan_notes(scan) + startup_note(files, sole.len()),
        current_command: None,
        last_command: None,
        command_input: None,
        command_output: Seq::empty(),
        output_scroll: None,
        busy: false,
        initial_load_pending: 2,
        elevated: true,
        spinner_frame: 0,
        should_quit: false,
    }
}

fn note_of_load(count: usize, path: &str) -> (s: String)
    ensures
        s@ == load_note(count as nat, path@),
{
    let number: String = text::to_decimal(count);
    let mut s: String = text::between("loaded ", number.as_str(), " pkgs from ");
    s.append(path);
    s
}

impl App {
    /// The state at startup. `scan` is what the search for manifest files
    /// found; `sole` is what the one file holds if there is exactly one.
    pub fn new(scan: Vec<ScannedDir>, sole: Vec<JsonPackage>) -> (app: Self)
        ensures
            app@ == started(scan.deep_view(), sole.deep_view()),
    {
        let ghost dirs = scan.deep_view();
        let ghost packages = sole.deep_view();
        let ghost f = |d: ScannedDirModel| d.files;
        let ghost g = |d: ScannedDirModel| scan_note(d);
        let mut diag: String = String::new();
        let mut package_files: Vec<PackageFile> = Vec::new();
        let mut rest: Vec<ScannedDir> = scan;
        let ghost mut done: int = 0;
        assert(diag@ =~= list::concatenated(dirs.map_values(g).take(0)));
        assert(package_files.deep_view() =~= list::concatenated(dirs.map_values(f).take(0)));
        assert(rest.deep_view() =~= dirs.skip(0));
        while rest.len() > 0
            invariant
                0 <= done <= dirs.len(),
                rest.deep_view() == dirs.skip(done),
                f == (|d: ScannedDirModel| d.files),
                g == (|d: ScannedDirModel| scan_note(d)),
                diag@ == list::concatenated(dirs.map_values(g).take(done)),
                package_files.deep_view() == list::concatenated(dirs.map_values(f).take(done)),
            decreases rest@.len(),
        {
            let ghost before = rest.deep_view();
            assert(before.len() > 0);
            let found: ScannedDir = rest.remove(0);
            assert(found.deep_view() == before[0]);
            assert(before[0] == dirs[done]);
            assert(rest.deep_view() =~= before.drop_first());
            assert(before.drop_first() =~= dirs.skip(done + 1));
            let number: String = text::to_decimal(found.files.len());
            let ghost earlier = diag@;
            diag.append("dir: ");
            diag.append(found.dir.as_str());
            diag.append("\n");
            diag.append("  -> ");
            diag.append(number.as_str());
            diag.append(" files\n");
            proof {
                assert(diag@ =~= earlier + scan_note(dirs[done]));
                assert(dirs.map_values(g).take(done + 1) =~= dirs.map_values(g).take(done).push(
                    dirs.map_values(g)[done],
                ));
                list::lemma_concatenated_push(
                    dirs.map_values(g).take(done),
                    dirs.map_values(g)[done],
                );
                assert(dirs.map_values(f).take(done + 1) =~= dirs.map_values(f).take(done).push(
                    dirs.map_values(f)[done],
                ));
                list::lemma_concatenated_push(
                    dirs.map_values(f).take(done),
                    dirs.map_values(f)[done],
                );
                done = done + 1;
            }
            list::add_items(&mut package_files, found.files);
        }
        proof {
            assert(rest.deep_view().len() == 0);
            assert(dirs.map_values(f).take(done) =~= dirs.map_values(f));
            assert(dirs.map_values(g).take(done) =~= dirs.map_values(g));
        }
        let ghost files = package_files.deep_view();
        assert(files == files_found(dirs));
        let packages_file_picker: bool = package_files.len() > 1;
        let loaded: Vec<JsonPackage>;
        let ghost notes = diag@;
        if package_files.len() == 1 {
            let note: String = note_of_load(sole.len(), package_files[0].path.as_str());
            diag.append(note.as_str());
            diag.append("\n");
            loaded = sole;
            assert(diag@ =~= notes + startup_note(files, packages.len()));
        } else {
            if package_files.len() == 0 {
                diag.append("no json files found\n");
            } else {
                let number: String = text::to_decimal(package_files.len());
                diag.append(number.as_str());
                diag.append(" files found, pick one\n");
                assert(diag@ =~= notes + startup_note(files, packages.len()));
            }
            loaded = Vec::new();
            assert(loaded.deep_view() =~= Seq::<JsonPackageModel>::empty());
        }
        let app = App {
            tab: Tab::Updates,
            filter_focused: false,
            filter_query: String::new(),
            search_results: Vec::new(),
            search_sel: Selection::default(),
            updates: Vec::new(),
            updates_sel: Selection::default(),
            installed: Vec::new(),
            installed_sel: Selection::default(),
            package_files,
            package_file_selected: 0,
            packages_file_picker,
            packages: loaded,
            packages_sel: Selection::default(),
            packages_diagnostic: diag,
            current_command: None,
            last_command: None,
            command_input: None,
            command_output: Vec::new(),
            output_scroll: usize::MAX,
            busy: false,
            initial_load_pending: 2,
            elevated: true,
            spinner_frame: 0,
            should_quit: false,
        };
        assert(app@ =~= started(dirs, packages));
        app
    }
}

// ---------------------------------------------------------------------------
// Results of background work
// ---------------------------------------------------------------------------

/// One startup load fewer to wait for.
pub open spec fn one_less(pending: u8) -> u8 {
    if pending > 0 {
        (pending - 1) as u8
    } else {
        0
    }
}

impl AppModel {
    /// The command bar shows `command`, the output panel `output`, followed to
    /// its end.
    pub open spec fn showing(self, command: Seq<char>, output: Seq<Seq<char>>) -> AppModel {
        AppModel {
            current_command: Some(command),
            command_output: output,
            output_scroll: None,
            ..self
        }
    }

    /// The state after a result of background work came in.
    pub open spec fn received(self, result: ActionResultModel) -> AppModel {
        match result {
            ActionResultModel::SearchResults(list) => AppModel {
                search_results: list,
                search_sel: SelectionModel { cursor: 0, ..self.search_sel },
                ..self
            },
            ActionResultModel::UpgradeList(list) => AppModel { updates: list, ..self },
            ActionResultModel::InitialInstalled(list) => AppModel {
                installed: list,
                initial_load_pending: one_less(self.initial_load_pending),
                ..self
            },
            ActionResultModel::InitialUpdates(list) => AppModel {
                updates: list,
                initial_load_pending: one_less(self.initial_load_pending),
                ..self
            },
            ActionResultModel::Elevation(elevated) => AppModel { elevated, ..self },
            ActionResultModel::SetCommand { command, output } => self.showing(
                command,
                text::lines(output),
            ),
            ActionResultModel::SetError { command, error } => self.showing(
                command,
                text::lines(error),
            ),
            ActionResultModel::RefreshInstalled(list) => AppModel {
                installed: list,
                installed_sel: SelectionModel { cursor: 0, ..self.installed_sel },
                ..self.showing("winget list --refresh"@, seq!["Package list refreshed."@])
            },
            ActionResultModel::OutputLine(line) => AppModel {
                command_output: self.command_output.push(line),
                ..self
            },
            ActionResultModel::CommandDone => AppModel { busy: false, ..self },
        }
    }

    /// The state after the packages of the picked file were read; nothing
    /// changes when no file is picked.
    pub open spec fn loaded(self, packages: Seq<JsonPackageModel>) -> AppModel {
        if self.package_file_selected < self.package_files.len() {
            AppModel {
                packages,
                packages_sel: SelectionModel::initial(),
                packages_file_picker: false,
                packages_diagnostic: load_note(
                    packages.len(),
                    self.package_files[self.package_file_selected as int].path,
                ),
                filter_focused: false,
                filter_query: Seq::empty(),
                ..self
            }
        } else {
            self
        }
    }

    /// Something is under way that the spinner stands for.
    pub open spec fn is_waiting(self) -> bool {
        self.busy || self.initial_load_pending > 0
    }

    /// The state one animation step later.
    pub open spec fn ticked(self) -> AppModel {
        if self.is_waiting() {
            AppModel { spinner_frame: ((self.spinner_frame + 1) % 4) as u8, ..self }
        } else {
            self
        }
    }
}

impl App {
    /// Takes in a result of background work.
    pub fn handle_action_result(&mut self, action: ActionResult)
        ensures
            final(self)@ == old(self)@.received(action.deep_view()),
    {
        match action {
            ActionResult::SearchResults(list) => {
                self.search_results = list;
                self.search_sel.cursor = 0;
            },
            ActionResult::UpgradeList(list) => {
                self.updates = list;
            },
            ActionResult::InitialInstalled(list) => {
                self.installed = list;
                self.initial_load_pending = self.initial_load_pending.saturating_sub(1);
            },
            ActionResult::InitialUpdates(list) => {
                self.updates = list;
                self.initial_load_pending = self.initial_load_pending.saturating_sub(1);
            },
            ActionResult::Elevation(elevated) => {
                self.elevated = elevated;
            },
            ActionResult::SetCommand { command, output } => {
                self.current_command = Some(command);
                self.command_output = text::split_lines(output.as_str());
                self.output_scroll = usize::MAX;
            },
            ActionResult::SetError { command, error } => {
                self.current_command = Some(command);
                self.command_output = text::split_lines(error.as_str());
                self.output_scroll = usize::MAX;
            },
            ActionResult::RefreshInstalled(list) => {
                self.installed = list;
                self.installed_sel.cursor = 0;
                self.current_command = Some(text::copy_of("winget list --refresh"));
                self.command_output = text::owned(&["Package list refreshed."]);
                self.output_scroll = usize::MAX;
                assert(self.command_output.deep_view() =~= seq!["Package list refreshed."@]);
            },
            ActionResult::OutputLine(line) => {
                list::add_item(&mut self.command_output, line);
            },
            ActionResult::CommandDone => {
                self.busy = false;
            },
        }
        assert(self@ =~= old(self)@.received(action.deep_view()));
    }

    /// Takes in what the picked manifest file holds.
    pub fn manifest_loaded(&mut self, packages: Vec<JsonPackage>)
        ensures
            final(self)@ == old(self)@.loaded(packages.deep_view()),
    {
        if self.package_file_selected < self.package_files.len() {
            self.packages_diagnostic = note_of_load(
                packages.len(),
                self.package_files[self.package_file_selected].path.as_str(),
            );
            self.packages = packages;
            self.packages_sel.reset();
            self.packages_file_picker = false;
            self.filter_focused = false;
            self.filter_query = String::new();
            assert(self.filter_query@ =~= Seq::<char>::empty());
        }
        assert(self@ =~= old(self)@.loaded(packages.deep_view()));
    }

    /// Advances the spinner.
    pub fn tick(&mut self)
        ensures
            final(self)@ == old(self)@.ticked(),
    {
        if self.busy || self.initial_load_pending > 0 {
            self.spinner_frame = (self.spinner_frame % 4 + 1) % 4;
        }
    }
}

} // verus!
