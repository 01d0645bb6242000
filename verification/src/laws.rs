//! What holds of the interface as a whole, whatever keys are pressed and
//! whatever background work reports.

use vstd::prelude::*;

use crate::action::{
    self, ActionResult, ActionResultModel, Effect, EffectModel, Query, QueryModel, Step, StepModel,
};
use crate::app::{self, App, AppModel, PackageFileModel, ScannedDir, ScannedDirModel};
use crate::jobs::{self, EntryVerb, Verb};
use crate::key::{KeyCode, KeyEvent};
use crate::keys;
use crate::list;
use crate::package::{
    JsonPackageModel, UpgradablePackage, UpgradablePackageModel, WingetPackage, WingetPackageModel,
};
use crate::selection::SelectionModel;
use crate::tab::Tab;
use crate::text;
use crate::winget;

verus! {

// ---------------------------------------------------------------------------
// The invariant
// ---------------------------------------------------------------------------

impl AppModel {
    /// The output follows its end or is scrolled to one of its lines.
    pub open spec fn scroll_in_range(self) -> bool {
        self.output_scroll matches Some(n) ==> n < self.command_output.len()
    }

    /// What every state has in common: the spinner and the count of pending
    /// loads keep to their range, the output is scrolled to one of its lines,
    /// the file picker is open only if there is something to pick, and it points
    /// at a file.
    pub open spec fn well_formed(self) -> bool {
        &&& self.spinner_frame < 4
        &&& self.initial_load_pending <= 2
        &&& self.scroll_in_range()
        &&& self.packages_file_picker ==> self.package_files.len() > 1
        &&& self.package_file_selected == 0 || self.package_file_selected
            < self.package_files.len()
    }
}

/// The state at startup is well-formed, waits for exactly two loads and shows
/// no package.
pub proof fn startup_is_well_formed(scan: Seq<ScannedDirModel>, sole: Seq<JsonPackageModel>)
    ensures
        app::started(scan, sole).well_formed(),
        app::started(scan, sole).initial_load_pending == 2,
        !app::started(scan, sole).busy,
        app::started(scan, sole).installed.len() == 0,
        app::started(scan, sole).updates.len() == 0,
{
}

/// One manifest file is loaded directly; several open the file picker.
pub proof fn one_file_is_loaded_several_are_offered(
    scan: Seq<ScannedDirModel>,
    sole: Seq<JsonPackageModel>,
)
    ensures
        app::files_found(scan).len() == 1 ==> app::started(scan, sole).packages == sole
            && !app::started(scan, sole).packages_file_picker,
        app::files_found(scan).len() > 1 ==> app::started(scan, sole).packages_file_picker,
        app::files_found(scan).len() == 0 ==> app::started(scan, sole).packages.len() == 0
            && !app::started(scan, sole).packages_file_picker,
{
}

/// A result of background work leaves the state well-formed.
pub proof fn results_keep_well_formed(m: AppModel, result: ActionResultModel)
    requires
        m.well_formed(),
    ensures
        m.received(result).well_formed(),
{
}

/// A key leaves the state well-formed.
pub proof fn keys_keep_well_formed(m: AppModel, key: KeyEvent)
    requires
        m.well_formed(),
    ensures
        m.pressed(key).app.well_formed(),
{
    lemma_every_key_is_sound(m, key);
}

/// A loaded manifest leaves the state well-formed.
pub proof fn loading_keeps_well_formed(m: AppModel, packages: Seq<JsonPackageModel>)
    requires
        m.well_formed(),
    ensures
        m.loaded(packages).well_formed(),
{
}

/// A step of the animation leaves the state well-formed.
pub proof fn ticking_keeps_well_formed(m: AppModel)
    requires
        m.well_formed(),
    ensures
        m.ticked().well_formed(),
{
}

/// At startup the output follows its end.
pub proof fn startup_follows_the_output(scan: Seq<ScannedDirModel>, sole: Seq<JsonPackageModel>)
    ensures
        app::started(scan, sole).output_scroll is None,
        app::started(scan, sole).scroll_in_range(),
{
}

/// A result of background work, a loaded manifest and a step of the animation
/// keep the scroll in range, whatever else holds of the state.
pub proof fn results_keep_the_scroll_in_range(
    m: AppModel,
    result: ActionResultModel,
    packages: Seq<JsonPackageModel>,
)
    requires
        m.scroll_in_range(),
    ensures
        m.received(result).scroll_in_range(),
        m.loaded(packages).scroll_in_range(),
        m.ticked().scroll_in_range(),
{
}

/// A key keeps the scroll in range, whatever else holds of the state.
pub proof fn keys_keep_the_scroll_in_range(m: AppModel, key: KeyEvent)
    requires
        m.scroll_in_range(),
    ensures
        m.pressed(key).app.scroll_in_range(),
{
    lemma_every_key_is_sound(m, key);
}

// ---------------------------------------------------------------------------
// Loading and waiting
// ---------------------------------------------------------------------------

/// No result ever makes the interface wait for a startup load again; only the
/// two first lists count it down.
pub proof fn loading_is_never_triggered_again(m: AppModel, result: ActionResultModel)
    ensures
        m.received(result).initial_load_pending <= m.initial_load_pending,
        !(result is InitialInstalled) && !(result is InitialUpdates) ==> m.received(
            result,
        ).initial_load_pending == m.initial_load_pending,
{
}

/// The first installed list and the first upgrade list, in either order, end
/// the loading that startup began.
pub proof fn the_first_lists_end_the_loading(
    m: AppModel,
    installed: Seq<WingetPackageModel>,
    updates: Seq<UpgradablePackageModel>,
)
    requires
        m.initial_load_pending == 2,
    ensures
        ({
            let a = m.received(ActionResultModel::InitialInstalled(installed)).received(
                ActionResultModel::InitialUpdates(updates),
            );
            let b = m.received(ActionResultModel::InitialUpdates(updates)).received(
                ActionResultModel::InitialInstalled(installed),
            );
            a == b && a.initial_load_pending == 0 && a.installed == installed && a.updates
                == updates
        }),
{
}

/// Only the report that a command is done ends the wait for it, and no report
/// begins one.
pub proof fn only_the_end_of_a_command_ends_the_wait(m: AppModel, result: ActionResultModel)
    ensures
        m.received(result).busy == (m.busy && !(result is CommandDone)),
{
}

/// Whether wgtui runs elevated is taken from the startup check and from nothing
/// else; until then it is assumed.
pub proof fn only_the_check_tells_whether_elevated(
    m: AppModel,
    result: ActionResultModel,
    scan: Seq<ScannedDirModel>,
    sole: Seq<JsonPackageModel>,
)
    ensures
        m.received(result).elevated == (match result {
            ActionResultModel::Elevation(e) => e,
            _ => m.elevated,
        }),
        app::started(scan, sole).elevated,
{
}

/// No result touches what the user is typing, the tab, or a mark.
pub proof fn results_leave_the_input_alone(m: AppModel, result: ActionResultModel)
    ensures
        m.received(result).tab == m.tab,
        m.received(result).filter_query == m.filter_query,
        m.received(result).filter_focused == m.filter_focused,
        m.received(result).command_input == m.command_input,
        m.received(result).should_quit == m.should_quit,
        forall|t: Tab|
            m.received(result).sel_of(t).marked == (#[trigger] m.sel_of(t)).marked,
{
}

/// Every step but the last is no report of the end.
pub open spec fn ends_once(job: Seq<StepModel>) -> bool {
    &&& job.len() > 0
    &&& job.last() == jobs::done()
    &&& forall|i: int| 0 <= i < job.len() - 1 ==> #[trigger] job[i] != jobs::done()
}

proof fn lemma_no_end_inside(lists: Seq<Seq<StepModel>>)
    requires
        forall|i: int, k: int|
            0 <= i < lists.len() && 0 <= k < lists[i].len() ==> #[trigger] lists[i][k]
                != jobs::done(),
    ensures
        forall|k: int|
            0 <= k < list::concatenated(lists).len() ==> #[trigger] list::concatenated(lists)[k]
                != jobs::done(),
    decreases lists.len(),
{
    if lists.len() > 0 {
        let init = lists.drop_last();
        assert forall|i: int, k: int| 0 <= i < init.len() && 0 <= k < init[i].len() implies
            #[trigger] init[i][k] != jobs::done() by {
            assert(init[i] == lists[i]);
        }
        lemma_no_end_inside(init);
        let a = list::concatenated(init);
        let last = lists[lists.len() - 1];
        assert forall|k: int| 0 <= k < list::concatenated(lists).len() implies
            #[trigger] list::concatenated(lists)[k] != jobs::done() by {
            if k < a.len() {
                assert(a[k] != jobs::done());
            } else {
                assert(last[k - a.len()] != jobs::done());
            }
        }
    }
}

/// A job that acts on packages ends with the one report that it is done.
pub proof fn package_jobs_end_once(verb: Verb, ids: Seq<Seq<char>>)
    ensures
        ends_once(verb.job(ids)),
{
    let lists = ids.map_values(|id: Seq<char>| verb.steps(id));
    lemma_no_end_inside(lists);
    let body = list::concatenated(lists);
    let job = verb.job(ids);
    assert forall|i: int| 0 <= i < job.len() - 1 implies #[trigger] job[i] != jobs::done() by {
        if i < body.len() {
            assert(body[i] != jobs::done());
        }
    }
}

proof fn lemma_entry_steps(verb: EntryVerb, p: JsonPackageModel)
    ensures
        forall|k: int|
            0 <= k < verb.entry_steps(p).len() ==> #[trigger] verb.entry_steps(p)[k]
                != jobs::done(),
{
}

/// A job that acts on manifest entries ends with the one report that it is done.
pub proof fn entry_jobs_end_once(
    verb: EntryVerb,
    packages: Seq<JsonPackageModel>,
    ids: Seq<Seq<char>>,
)
    ensures
        ends_once(verb.job(packages, ids)),
{
    let lists = ids.map_values(|id: Seq<char>| verb.steps(packages, id));
    assert forall|i: int, k: int| 0 <= i < lists.len() && 0 <= k < lists[i].len() implies
        #[trigger] lists[i][k] != jobs::done() by {
        match jobs::entry_with_id(packages, ids[i]) {
            Some(p) => {
                lemma_entry_steps(verb, p);
            },
            None => {},
        }
    }
    lemma_no_end_inside(lists);
    let body = list::concatenated(lists);
    let job = verb.job(packages, ids);
    assert forall|i: int| 0 <= i < job.len() - 1 implies #[trigger] job[i] != jobs::done() by {
        if i < body.len() {
            assert(body[i] != jobs::done());
        }
    }
}

/// The state waits exactly for the job that is started, and the job ends with
/// the one report that ends the wait. A file that is to be loaded is one of
/// those found, and nothing else changes until it is loaded.
pub open spec fn waits_for_its_job(before: AppModel, after: keys::Outcome) -> bool {
    match after.effect {
        EffectModel::Start(job) => after.app.busy && ends_once(job),
        EffectModel::LoadFile(i) => after.app == before && i == before.package_file_selected && i
            < before.package_files.len(),
        EffectModel::Nothing => after.app.busy == before.busy,
    }
}

/// Whatever key is pressed: the interface begins to wait exactly when it starts
/// a job, and that job ends with the one report that ends the wait; a file is
/// loaded only if it is there.
pub proof fn every_wait_has_an_end(m: AppModel, key: KeyEvent)
    ensures
        waits_for_its_job(m, m.pressed(key)),
{
    lemma_every_key_is_sound(m, key);
}

// ---------------------------------------------------------------------------
// What reports bring
// ---------------------------------------------------------------------------

/// A list that is reported is the list that the state then has: what a search
/// found becomes the search results, an upgrade list the upgrades, an installed
/// list the installed packages, at startup and later. No other report changes any
/// of the three.
pub proof fn a_reported_list_is_the_list(m: AppModel, result: ActionResultModel)
    ensures
        m.received(result).search_results == (match result {
            ActionResultModel::SearchResults(found) => found,
            _ => m.search_results,
        }),
        m.received(result).updates == (match result {
            ActionResultModel::UpgradeList(upgrades) => upgrades,
            ActionResultModel::InitialUpdates(upgrades) => upgrades,
            _ => m.updates,
        }),
        m.received(result).installed == (match result {
            ActionResultModel::RefreshInstalled(installed) => installed,
            ActionResultModel::InitialInstalled(installed) => installed,
            _ => m.installed,
        }),
{
}

/// What a report puts on the screen: a command or an error shows its text line by
/// line, a line of output is added to what is there, a fresh installed list is
/// announced; the output then follows its end, and the cursor of a list that was
/// looked for goes to its top. Other reports leave output and cursors alone.
pub proof fn a_report_is_shown(m: AppModel, result: ActionResultModel)
    ensures
        m.received(result).command_output == (match result {
            ActionResultModel::SetCommand { command, output } => text::lines(output),
            ActionResultModel::SetError { command, error } => text::lines(error),
            ActionResultModel::RefreshInstalled(_) => seq!["Package list refreshed."@],
            ActionResultModel::OutputLine(line) => m.command_output + seq![line],
            _ => m.command_output,
        }),
        m.received(result).current_command == (match result {
            ActionResultModel::SetCommand { command, output } => Some(command),
            ActionResultModel::SetError { command, error } => Some(command),
            ActionResultModel::RefreshInstalled(_) => Some("winget list --refresh"@),
            _ => m.current_command,
        }),
        m.received(result).output_scroll == if result is SetCommand || result is SetError || result
            is RefreshInstalled {
            None
        } else {
            m.output_scroll
        },
        m.received(result).search_sel.cursor == if result is SearchResults {
            0
        } else {
            m.search_sel.cursor
        },
        m.received(result).installed_sel.cursor == if result is RefreshInstalled {
            0
        } else {
            m.installed_sel.cursor
        },
        m.received(result).updates_sel == m.updates_sel,
        m.received(result).packages_sel == m.packages_sel,
{
    if let ActionResultModel::OutputLine(line) = result {
        assert(m.command_output.push(line) =~= m.command_output + seq![line]);
    }
}

/// Each of the two first lists counts the loading down by one; no report touches
/// the manifest, the files, the last command or the animation.
pub proof fn a_report_changes_nothing_else(m: AppModel, result: ActionResultModel)
    ensures
        m.received(result).initial_load_pending == if (result is InitialInstalled || result
            is InitialUpdates) && m.initial_load_pending > 0 {
            m.initial_load_pending - 1
        } else {
            m.initial_load_pending as int
        },
        m.received(result).packages == m.packages,
        m.received(result).package_files == m.package_files,
        m.received(result).package_file_selected == m.package_file_selected,
        m.received(result).packages_file_picker == m.packages_file_picker,
        m.received(result).packages_diagnostic == m.packages_diagnostic,
        m.received(result).last_command == m.last_command,
        m.received(result).spinner_frame == m.spinner_frame,
{
}

/// The answer to a question ends up in the list that was asked for: what `winget`
/// lists for a search becomes the search results, for an upgrade list the
/// upgrades, for an installed list the installed packages, and nothing else
/// changes among the three.
pub proof fn answers_end_up_in_their_lists(m: AppModel, query: QueryModel, stdout: Option<Seq<u8>>)
    ensures
        ({
            let reports = action::reports(query, stdout);
            let after = if reports.len() == 1 {
                m.received(reports[0])
            } else {
                m.received(reports[0]).received(reports[1])
            };
            &&& reports.len() == if query is Search {
                2int
            } else {
                1int
            }
            &&& after.search_results == if query is Search {
                winget::packages_listed(stdout)
            } else {
                m.search_results
            }
            &&& after.installed == if query is Installed || query is FirstInstalled {
                winget::packages_listed(stdout)
            } else {
                m.installed
            }
            &&& after.updates == if query is Upgradable || query is FirstUpgradable {
                winget::upgrades_listed(stdout)
            } else {
                m.updates
            }
            &&& after.initial_load_pending == if (query is FirstInstalled || query
                is FirstUpgradable) && m.initial_load_pending > 0 {
                m.initial_load_pending - 1
            } else {
                m.initial_load_pending as int
            }
            &&& query matches QueryModel::Search(q) ==> after.current_command == Some(
                "winget search \""@ + q + "\""@,
            )
        }),
{
}

/// A manifest that was loaded is the manifest: its entries are listed, nothing is
/// marked or filtered, and the picker is closed. Without a picked file nothing
/// changes.
pub proof fn a_loaded_manifest_is_listed(m: AppModel, packages: Seq<JsonPackageModel>)
    ensures
        m.package_file_selected >= m.package_files.len() ==> m.loaded(packages) == m,
        m.package_file_selected < m.package_files.len() ==> m.loaded(packages) == (AppModel {
            packages,
            packages_sel: SelectionModel { cursor: 0, marked: Set::empty() },
            packages_file_picker: false,
            packages_diagnostic: "loaded "@ + text::decimal(packages.len()) + " pkgs from "@
                + m.package_files[m.package_file_selected as int].path,
            filter_focused: false,
            filter_query: Seq::empty(),
            ..m
        }),
{
}

/// The spinner turns through its four frames while something is under way, and
/// stands still otherwise; nothing else moves with it.
pub proof fn the_spinner_turns_while_waiting(m: AppModel)
    ensures
        m.busy || m.initial_load_pending > 0 ==> m.ticked() == (AppModel {
            spinner_frame: ((m.spinner_frame + 1) % 4) as u8,
            ..m
        }),
        !m.busy && m.initial_load_pending == 0 ==> m.ticked() == m,
        m.is_waiting() <==> m.busy || m.initial_load_pending > 0,
{
}

/// Directory by directory: the files of one directory more come behind those of
/// the others, and a note says where it is and how many it holds.
pub proof fn files_are_found_directory_by_directory(
    scan: Seq<ScannedDirModel>,
    d: ScannedDirModel,
)
    ensures
        app::files_found(scan.push(d)) == app::files_found(scan) + d.files,
        app::files_found(Seq::empty()) == Seq::<PackageFileModel>::empty(),
        app::scan_notes(scan.push(d)) == app::scan_notes(scan) + ("dir: "@ + d.dir + "\n"@ + (
        "  -> "@ + text::decimal(d.files.len()) + " files\n"@)),
        app::scan_notes(Seq::empty()) == Seq::<char>::empty(),
{
    let f = |d: ScannedDirModel| d.files;
    let g = |d: ScannedDirModel| app::scan_note(d);
    assert(scan.push(d).map_values(f) =~= scan.map_values(f).push(d.files));
    assert(scan.push(d).map_values(g) =~= scan.map_values(g).push(app::scan_note(d)));
    list::lemma_concatenated_push(scan.map_values(f), d.files);
    list::lemma_concatenated_push(scan.map_values(g), app::scan_note(d));
    assert(Seq::<ScannedDirModel>::empty().map_values(f) =~= Seq::empty());
    assert(Seq::<ScannedDirModel>::empty().map_values(g) =~= Seq::empty());
}

/// What stands for a directory that was searched is its path and all files found
/// there, each with path and name.
pub proof fn directories_are_told_apart_by_their_files(d: ScannedDir, i: int)
    ensures
        d.deep_view().dir == d.dir@,
        d.deep_view().files.len() == d.files@.len(),
        0 <= i < d.files@.len() ==> d.deep_view().files[i].path == d.files@[i].path@
            && d.deep_view().files[i].name == d.files@[i].name@,
{
}

/// At startup the files that were found are there to pick from, the first one
/// highlighted; no tab has a filter, a mark or a list yet, the Updates tab is
/// open, no command was run, and the diagnostic says what became of the search.
pub proof fn startup_begins_with_what_was_found(
    scan: Seq<ScannedDirModel>,
    sole: Seq<JsonPackageModel>,
)
    ensures
        ({
            let m = app::started(scan, sole);
            let top = SelectionModel { cursor: 0, marked: Set::empty() };
            let files = app::files_found(scan);
            &&& m.package_files == files
            &&& m.package_file_selected == 0
            &&& m.tab == Tab::Updates
            &&& m.filter_query.len() == 0 && !m.filter_focused
            &&& m.search_results.len() == 0
            &&& m.search_sel == top && m.updates_sel == top && m.installed_sel == top
                && m.packages_sel == top
            &&& m.current_command is None && m.last_command is None && m.command_input is None
            &&& m.command_output.len() == 0
            &&& m.spinner_frame == 0 && !m.should_quit
            &&& m.packages_diagnostic == app::scan_notes(scan) + if files.len() == 0 {
                "no json files found\n"@
            } else if files.len() == 1 {
                "loaded "@ + text::decimal(sole.len()) + " pkgs from "@ + files[0].path + "\n"@
            } else {
                text::decimal(files.len()) + " files found, pick one\n"@
            }
        }),
{
}

/// What stands for the state is every one of its fields.
pub proof fn the_state_is_told_apart_by_all_its_fields(a: App)
    ensures
        a@.tab == a.tab && a@.filter_focused == a.filter_focused && a@.filter_query
            == a.filter_query@,
        a@.search_results.len() == a.search_results@.len() && forall|i: int|
            0 <= i < a.search_results@.len() ==> #[trigger] a@.search_results[i]
                == a.search_results@[i].deep_view(),
        a@.updates.len() == a.updates@.len() && forall|i: int|
            0 <= i < a.updates@.len() ==> #[trigger] a@.updates[i] == a.updates@[i].deep_view(),
        a@.installed.len() == a.installed@.len() && forall|i: int|
            0 <= i < a.installed@.len() ==> #[trigger] a@.installed[i]
                == a.installed@[i].deep_view(),
        a@.packages.len() == a.packages@.len() && forall|i: int|
            0 <= i < a.packages@.len() ==> #[trigger] a@.packages[i] == a.packages@[i].deep_view(),
        a@.package_files.len() == a.package_files@.len() && forall|i: int|
            0 <= i < a.package_files@.len() ==> #[trigger] a@.package_files[i].path
                == a.package_files@[i].path@ && a@.package_files[i].name
                == a.package_files@[i].name@,
        a@.search_sel.cursor == a.search_sel.cursor && a@.search_sel.marked == a.search_sel.marked@,
        a@.updates_sel.cursor == a.updates_sel.cursor && a@.updates_sel.marked
            == a.updates_sel.marked@,
        a@.installed_sel.cursor == a.installed_sel.cursor && a@.installed_sel.marked
            == a.installed_sel.marked@,
        a@.packages_sel.cursor == a.packages_sel.cursor && a@.packages_sel.marked
            == a.packages_sel.marked@,
        a@.package_file_selected == a.package_file_selected && a@.packages_file_picker
            == a.packages_file_picker && a@.packages_diagnostic == a.packages_diagnostic@,
        a.current_command matches Some(s) ==> a@.current_command == Some(s@),
        a.current_command is None ==> a@.current_command is None,
        a.last_command matches Some(s) ==> a@.last_command == Some(s@),
        a.last_command is None ==> a@.last_command is None,
        a.command_input matches Some(s) ==> a@.command_input == Some(s@),
        a.command_input is None ==> a@.command_input is None,
        a@.command_output == a.command_output@.map_values(|s: String| s@),
        a@.output_scroll == if a.output_scroll == usize::MAX {
            None
        } else {
            Some(a.output_scroll as nat)
        },
        a@.busy == a.busy && a@.initial_load_pending == a.initial_load_pending && a@.elevated
            == a.elevated && a@.spinner_frame == a.spinner_frame && a@.should_quit == a.should_quit,
{
    assert(a.command_output.deep_view() =~= a.command_output@.map_values(|s: String| s@));
}

/// What stands for a report or a step is all that it carries.
pub proof fn reports_and_steps_are_told_apart_by_what_they_carry(
    r: ActionResult,
    s: Step,
    q: Query,
    e: Effect,
)
    ensures
        r matches ActionResult::SearchResults(l) ==> (r.deep_view()
            matches ActionResultModel::SearchResults(v) && v == l@.map_values(
            |p: WingetPackage| p.deep_view(),
        )),
        r matches ActionResult::UpgradeList(l) ==> (r.deep_view()
            matches ActionResultModel::UpgradeList(v) && v == l@.map_values(
            |p: UpgradablePackage| p.deep_view(),
        )),
        r matches ActionResult::InitialInstalled(l) ==> (r.deep_view()
            matches ActionResultModel::InitialInstalled(v) && v == l@.map_values(
            |p: WingetPackage| p.deep_view(),
        )),
        r matches ActionResult::InitialUpdates(l) ==> (r.deep_view()
            matches ActionResultModel::InitialUpdates(v) && v == l@.map_values(
            |p: UpgradablePackage| p.deep_view(),
        )),
        r matches ActionResult::RefreshInstalled(l) ==> (r.deep_view()
            matches ActionResultModel::RefreshInstalled(v) && v == l@.map_values(
            |p: WingetPackage| p.deep_view(),
        )),
        r matches ActionResult::Elevation(b) ==> r.deep_view() == ActionResultModel::Elevation(b),
        r matches ActionResult::SetCommand { command, output } ==> (r.deep_view()
            matches ActionResultModel::SetCommand { command: c, output: o } && c == command@ && o
            == output@),
        r matches ActionResult::SetError { command, error } ==> (r.deep_view()
            matches ActionResultModel::SetError { command: c, error: o } && c == command@ && o
            == error@),
        r matches ActionResult::OutputLine(l) ==> r.deep_view() == ActionResultModel::OutputLine(
            l@,
        ),
        r is CommandDone ==> r.deep_view() is CommandDone,
        s matches Step::Report(x) ==> s.deep_view() == StepModel::Report(x.deep_view()),
        s matches Step::Run { program, args } ==> (s.deep_view() matches StepModel::Run {
            program: p,
            args: a,
        } && p == program@ && a == args@.map_values(|w: String| w@)),
        s matches Step::Ask(x) ==> s.deep_view() == StepModel::Ask(x.deep_view()),
        s is UpgradeAll ==> s.deep_view() is UpgradeAll,
        s is CheckElevation ==> s.deep_view() is CheckElevation,
        s is UpdateSources ==> s.deep_view() is UpdateSources,
        q is Installed ==> q.deep_view() is Installed,
        q is Upgradable ==> q.deep_view() is Upgradable,
        q is FirstInstalled ==> q.deep_view() is FirstInstalled,
        q is FirstUpgradable ==> q.deep_view() is FirstUpgradable,
        q matches Query::Search(t) ==> q.deep_view() == QueryModel::Search(t@),
        e is Nothing ==> e.deep_view() is Nothing,
        e matches Effect::LoadFile(i) ==> e.deep_view() == EffectModel::LoadFile(i),
        e matches Effect::Start(job) ==> (e.deep_view() matches EffectModel::Start(v) && v
            == job@.map_values(|x: Step| x.deep_view())),
{
    match r {
        ActionResult::SearchResults(l) => {
            assert(l.deep_view() =~= l@.map_values(|p: WingetPackage| p.deep_view()));
        },
        ActionResult::InitialInstalled(l) => {
            assert(l.deep_view() =~= l@.map_values(|p: WingetPackage| p.deep_view()));
        },
        ActionResult::RefreshInstalled(l) => {
            assert(l.deep_view() =~= l@.map_values(|p: WingetPackage| p.deep_view()));
        },
        ActionResult::UpgradeList(l) => {
            assert(l.deep_view() =~= l@.map_values(|p: UpgradablePackage| p.deep_view()));
        },
        ActionResult::InitialUpdates(l) => {
            assert(l.deep_view() =~= l@.map_values(|p: UpgradablePackage| p.deep_view()));
        },
        _ => {},
    }
    if let Step::Run { program, args } = s {
        assert(args.deep_view() =~= args@.map_values(|w: String| w@));
    }
    if let Effect::Start(job) = e {
        assert(job.deep_view() =~= job@.map_values(|x: Step| x.deep_view()));
    }
}

// ---------------------------------------------------------------------------
// What stays
// ---------------------------------------------------------------------------

/// What no key touches: the lists of installed packages and of upgrades, the
/// manifest files, what startup found out, the animation. A wish to quit stays.
pub open spec fn keeps_what_keys_do_not_touch(before: AppModel, after: AppModel) -> bool {
    &&& after.installed == before.installed
    &&& after.updates == before.updates
    &&& after.package_files == before.package_files
    &&& after.packages_diagnostic == before.packages_diagnostic
    &&& after.initial_load_pending == before.initial_load_pending
    &&& after.elevated == before.elevated
    &&& after.spinner_frame == before.spinner_frame
    &&& before.should_quit ==> after.should_quit
}

/// Only reports change what was listed and found out; no key does. And no key
/// takes back the wish to quit.
pub proof fn keys_change_no_list_of_winget(m: AppModel, key: KeyEvent)
    ensures
        keeps_what_keys_do_not_touch(m, m.pressed(key).app),
{
    lemma_every_key_is_sound(m, key);
}

// ---------------------------------------------------------------------------
// Going through the keys
// ---------------------------------------------------------------------------

spec fn is_sound(before: AppModel, after: keys::Outcome) -> bool {
    &&& before.well_formed() ==> after.app.well_formed()
    &&& before.scroll_in_range() ==> after.app.scroll_in_range()
    &&& waits_for_its_job(before, after)
    &&& keeps_what_keys_do_not_touch(before, after.app)
}

proof fn lemma_acting_is_sound(m: AppModel, verb: Verb, ids: Seq<Seq<char>>)
    ensures
        is_sound(m, m.act(verb, ids)),
{
    package_jobs_end_once(verb, ids);
}

proof fn lemma_acting_on_entries_is_sound(m: AppModel, verb: EntryVerb, ids: Seq<Seq<char>>)
    ensures
        is_sound(m, m.act_on_entries(verb, ids)),
{
    entry_jobs_end_once(verb, m.packages, ids);
}

#[verifier::rlimit(40)]
proof fn lemma_tab_keys_are_sound(m: AppModel, c: char)
    ensures
        is_sound(m, m.tab_key(c)),
{
    let ids = m.chosen_ids();
    let all = m.entry_ids();
    lemma_acting_is_sound(m, Verb::Upgrade, ids);
    lemma_acting_is_sound(m, Verb::Install, ids);
    lemma_acting_is_sound(m, Verb::Uninstall, ids);
    lemma_acting_on_entries_is_sound(m, EntryVerb::Install, ids);
    lemma_acting_on_entries_is_sound(m, EntryVerb::Install, all);
    lemma_acting_on_entries_is_sound(m, EntryVerb::Remove, ids);
    lemma_acting_on_entries_is_sound(m, EntryVerb::Remove, all);
}

#[verifier::rlimit(40)]
proof fn lemma_letters_are_sound(m: AppModel, c: char)
    ensures
        is_sound(m, m.list_key(KeyCode::Char(c))),
{
    lemma_tab_keys_are_sound(m, c);
}

proof fn lemma_showing_is_sound(m: AppModel)
    ensures
        is_sound(m, m.list_key(KeyCode::Enter)),
{
    lemma_acting_is_sound(m, Verb::Show, m.chosen_ids());
    lemma_acting_on_entries_is_sound(m, EntryVerb::Show, m.chosen_ids());
}

proof fn lemma_switching_is_sound(m: AppModel, tab: Tab)
    ensures
        is_sound(m, keys::just(m.switched(tab))),
{
}

proof fn lemma_selecting_is_sound(m: AppModel, sel: SelectionModel)
    ensures
        is_sound(m, keys::just(m.with_sel(sel))),
{
}

#[verifier::rlimit(40)]
proof fn lemma_moving_is_sound(m: AppModel, code: KeyCode)
    requires
        code !is Char,
        code !is Enter,
    ensures
        is_sound(m, m.list_key(code)),
        m.list_key(code).effect !is LoadFile,
{
    match code {
        KeyCode::Left | KeyCode::BackTab => {
            lemma_switching_is_sound(m, m.tab.preceding());
        },
        KeyCode::Right | KeyCode::Tab => {
            lemma_switching_is_sound(m, m.tab.following());
        },
        KeyCode::Up => {
            lemma_selecting_is_sound(m, m.current_sel().moved_up());
        },
        KeyCode::Down => {
            lemma_selecting_is_sound(m, m.current_sel().moved_down(m.visible_ids().len()));
        },
        KeyCode::PageUp => {
            assert(is_sound(m, keys::just(m.scrolled_up())));
        },
        KeyCode::PageDown => {
            assert(is_sound(m, keys::just(m.scrolled_down())));
        },
        _ => {},
    }
}

#[verifier::rlimit(40)]
proof fn lemma_filter_keys_are_sound(m: AppModel, code: KeyCode)
    ensures
        is_sound(m, m.filter_key(code)),
{
    match code {
        KeyCode::Tab | KeyCode::BackTab | KeyCode::Left | KeyCode::Right => {
            lemma_moving_is_sound(m, code);
        },
        KeyCode::Up | KeyCode::Down => {
            lemma_moving_is_sound(AppModel { filter_focused: false, ..m }, code);
        },
        _ => {},
    }
}

#[verifier::rlimit(40)]
proof fn lemma_picker_keys_are_sound(m: AppModel, code: KeyCode)
    ensures
        is_sound(m, m.picker_key(code)),
{
    if keys::is_global(code) {
        match code {
            KeyCode::Char(c) => {
                lemma_letters_are_sound(m, c);
            },
            _ => {
                lemma_moving_is_sound(m, code);
            },
        }
    }
}

#[verifier::rlimit(40)]
proof fn lemma_every_key_is_sound(m: AppModel, key: KeyEvent)
    ensures
        is_sound(m, m.pressed(key)),
{
    reveal(AppModel::pressed);
    let code = if m.filter_focused {
        key.code
    } else {
        keys::vim_code(key.code)
    };
    if m.busy || (key.code == KeyCode::Char('c') && key.control) {
    } else if m.command_input is Some {
        assert(is_sound(m, m.editor_key(key.code)));
    } else if m.tab == Tab::Packages && m.packages_file_picker {
        lemma_picker_keys_are_sound(m, code);
    } else if m.filter_focused {
        lemma_filter_keys_are_sound(m, code);
    } else {
        match code {
            KeyCode::Char(c) => {
                lemma_letters_are_sound(m, c);
            },
            KeyCode::Enter => {
                lemma_showing_is_sound(m);
            },
            _ => {
                lemma_moving_is_sound(m, code);
            },
        }
    }
}

} // verus!
