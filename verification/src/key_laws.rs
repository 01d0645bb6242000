//! What holds of keys pressed one after the other, of the rows they act on, and
//! of what the screen shows of it.

use vstd::prelude::*;

use crate::action::{self, ActionResultModel, EffectModel, QueryModel, StepModel};
use crate::app::AppModel;
use crate::command_line;
use crate::jobs::{self, EntryVerb, Verb};
use crate::key::{KeyCode, KeyEvent};
use crate::keys;
use crate::list;
use crate::package::{JsonPackageModel, UpgradablePackageModel, WingetPackageModel};
use crate::rows;
use crate::selection::{self, SelectionModel};
use crate::tab;
use crate::tab::Tab;
use crate::text;
use crate::view;

verus! {

// ---------------------------------------------------------------------------
// Keys
// ---------------------------------------------------------------------------

/// While a command runs, keys do nothing.
pub proof fn keys_are_ignored_while_busy(m: AppModel, key: KeyEvent)
    requires
        m.busy,
    ensures
        m.pressed(key) == keys::just(m),
{
    reveal(AppModel::pressed);
}

/// Ctrl+C quits, whatever input has the focus, unless a command runs.
pub proof fn ctrl_c_quits(m: AppModel)
    requires
        !m.busy,
    ensures
        m.pressed(KeyEvent { code: KeyCode::Char('c'), control: true }) == keys::just(
            AppModel { should_quit: true, ..m },
        ),
{
    reveal(AppModel::pressed);
}

/// A character typed without Ctrl.
pub open spec fn typing(c: char) -> KeyEvent {
    KeyEvent { code: KeyCode::Char(c), control: false }
}

/// The state after a text was typed, character by character.
pub open spec fn typed(m: AppModel, s: Seq<char>) -> AppModel
    decreases s.len(),
{
    if s.len() == 0 {
        m
    } else {
        typed(m, s.drop_last()).pressed(typing(s.last())).app
    }
}

/// The filter input takes what is typed.
pub open spec fn filter_takes_input(m: AppModel) -> bool {
    &&& !m.busy
    &&& m.command_input is None
    &&& m.filter_focused
    &&& !(m.tab == Tab::Packages && m.packages_file_picker)
}

proof fn lemma_filter_press(m: AppModel, code: KeyCode)
    requires
        filter_takes_input(m),
    ensures
        m.pressed(KeyEvent { code, control: false }) == m.filter_key(code),
{
    reveal(AppModel::pressed);
}

proof fn lemma_editor_press(m: AppModel, code: KeyCode)
    requires
        editor_takes_input(m),
    ensures
        m.pressed(KeyEvent { code, control: false }) == m.editor_key(code),
{
    reveal(AppModel::pressed);
}

/// In the filter input every character is text, those that are commands
/// elsewhere too: typing a text appends it to the filter and does nothing else,
/// except that cursors stay inside their lists.
#[verifier::rlimit(40)]
pub proof fn typing_in_the_filter_is_text(m: AppModel, s: Seq<char>)
    requires
        filter_takes_input(m),
    ensures
        filter_takes_input(typed(m, s)),
        typed(m, s).filter_query == m.filter_query + s,
        typed(m, s).tab == m.tab,
        typed(m, s).should_quit == m.should_quit,
        forall|t: Tab| typed(m, s).sel_of(t).marked == (#[trigger] m.sel_of(t)).marked,
    decreases s.len(),
{
    if s.len() == 0 {
        assert(m.filter_query + s =~= m.filter_query);
    } else {
        let before = typed(m, s.drop_last());
        typing_in_the_filter_is_text(m, s.drop_last());
        assert((m.filter_query + s.drop_last()).push(s.last()) =~= m.filter_query + s);
        lemma_filter_press(before, KeyCode::Char(s.last()));
        assert forall|t: Tab| typed(m, s).sel_of(t).marked == (#[trigger] m.sel_of(t)).marked by {
            assert(before.sel_of(t).marked == m.sel_of(t).marked);
        }
    }
}

/// The command editor takes what is typed.
pub open spec fn editor_takes_input(m: AppModel) -> bool {
    !m.busy && m.command_input is Some
}

/// In the command editor every character is text: typing a text appends it to
/// the command line and does nothing else at all.
pub proof fn typing_in_the_editor_is_text(m: AppModel, s: Seq<char>)
    requires
        editor_takes_input(m),
    ensures
        typed(m, s) == (AppModel { command_input: Some(m.command_input->0 + s), ..m }),
    decreases s.len(),
{
    if s.len() == 0 {
        assert(m.command_input->0 + s =~= m.command_input->0);
        assert(typed(m, s) =~= (AppModel { command_input: Some(m.command_input->0 + s), ..m }));
    } else {
        typing_in_the_editor_is_text(m, s.drop_last());
        let before = typed(m, s.drop_last());
        lemma_editor_press(before, KeyCode::Char(s.last()));
        assert((m.command_input->0 + s.drop_last()).push(s.last()) =~= m.command_input->0 + s);
    }
}

/// Backspace takes back the character typed last, in either input.
#[verifier::rlimit(40)]
pub proof fn backspace_undoes_typing(m: AppModel, c: char)
    ensures
        filter_takes_input(m) ==> m.pressed(typing(c)).app.pressed(
            KeyEvent { code: KeyCode::Backspace, control: false },
        ).app.filter_query == m.filter_query,
        editor_takes_input(m) ==> m.pressed(typing(c)).app.pressed(
            KeyEvent { code: KeyCode::Backspace, control: false },
        ).app == m,
{
    if filter_takes_input(m) {
        let after = m.filter_key(KeyCode::Char(c)).app;
        lemma_filter_press(m, KeyCode::Char(c));
        assert(m.filter_query.push(c).drop_last() =~= m.filter_query);
        lemma_filter_press(after, KeyCode::Backspace);
    }
    if editor_takes_input(m) {
        let input = m.command_input->0;
        assert(input.push(c).drop_last() =~= input);
        let after = m.editor_key(KeyCode::Char(c)).app;
        lemma_editor_press(m, KeyCode::Char(c));
        lemma_editor_press(after, KeyCode::Backspace);
        assert(after.editor_key(KeyCode::Backspace).app =~= m);
    }
}

/// No command runs and no input has the focus: keys are commands, of the list of
/// the current tab or of the file picker.
pub open spec fn keys_are_commands(m: AppModel) -> bool {
    &&& !m.busy
    &&& m.command_input is None
    &&& !m.filter_focused
}

/// The list of the current tab takes the keys.
pub open spec fn list_takes_keys(m: AppModel) -> bool {
    keys_are_commands(m) && !(m.tab == Tab::Packages && m.packages_file_picker)
}

proof fn lemma_global_press(m: AppModel, code: KeyCode, control: bool)
    requires
        keys_are_commands(m),
        keys::is_global(code),
    ensures
        m.pressed(KeyEvent { code, control }) == m.list_key(code),
{
    reveal(AppModel::pressed);
}

proof fn lemma_letter_press(m: AppModel, c: char)
    requires
        list_takes_keys(m),
        c != 'j',
        c != 'k',
    ensures
        m.pressed(typing(c)) == m.letter_key(c),
{
    reveal(AppModel::pressed);
}

/// The command editor captures all input while it is open: of the keys without
/// Ctrl only Enter does anything but edit the line or close the editor.
pub proof fn the_editor_captures_all_input(m: AppModel, code: KeyCode)
    requires
        editor_takes_input(m),
        code != KeyCode::Enter,
    ensures
        m.pressed(KeyEvent { code, control: false }).effect == EffectModel::Nothing,
        m.pressed(KeyEvent { code, control: false }).app == (AppModel {
            command_input: m.pressed(KeyEvent { code, control: false }).app.command_input,
            ..m
        }),
{
    lemma_editor_press(m, code);
}

/// Outside the inputs `j` and `k` do what down and up do, with or without Ctrl,
/// in every tab and in the file picker.
pub proof fn j_and_k_move_down_and_up(m: AppModel, control: bool)
    requires
        m.command_input is None,
        !m.filter_focused,
    ensures
        m.pressed(KeyEvent { code: KeyCode::Char('j'), control }) == m.pressed(
            KeyEvent { code: KeyCode::Down, control },
        ),
        m.pressed(KeyEvent { code: KeyCode::Char('k'), control }) == m.pressed(
            KeyEvent { code: KeyCode::Up, control },
        ),
{
    reveal(AppModel::pressed);
}

/// Outside the inputs `h` and `l` do what left and right do, with or without
/// Ctrl, in every tab and in the file picker.
pub proof fn h_and_l_move_left_and_right(m: AppModel, control: bool)
    requires
        m.command_input is None,
        !m.filter_focused,
    ensures
        m.pressed(KeyEvent { code: KeyCode::Char('h'), control }) == m.pressed(
            KeyEvent { code: KeyCode::Left, control },
        ),
        m.pressed(KeyEvent { code: KeyCode::Char('l'), control }) == m.pressed(
            KeyEvent { code: KeyCode::Right, control },
        ),
{
    if m.busy {
        reveal(AppModel::pressed);
    } else {
        lemma_global_press(m, KeyCode::Char('h'), control);
        lemma_global_press(m, KeyCode::Left, control);
        lemma_global_press(m, KeyCode::Char('l'), control);
        lemma_global_press(m, KeyCode::Right, control);
    }
}

/// PageUp and PageDown scroll the output and change nothing else.
pub proof fn paging_changes_the_scroll_alone(m: AppModel, control: bool)
    requires
        keys_are_commands(m),
    ensures
        m.pressed(KeyEvent { code: KeyCode::PageUp, control }) == keys::just(
            AppModel { output_scroll: m.scrolled_up().output_scroll, ..m },
        ),
        m.pressed(KeyEvent { code: KeyCode::PageDown, control }) == keys::just(
            AppModel { output_scroll: m.scrolled_down().output_scroll, ..m },
        ),
{
    lemma_global_press(m, KeyCode::PageUp, control);
    lemma_global_press(m, KeyCode::PageDown, control);
}

/// The editor opens with the last command, or with the name of the program if
/// there is none.
pub proof fn c_opens_the_editor_with_the_last_command(m: AppModel)
    requires
        list_takes_keys(m),
    ensures
        m.pressed(typing('c')) == keys::just(
            AppModel {
                command_input: Some(
                    match m.last_command {
                        Some(command) => command,
                        None => "winget "@,
                    },
                ),
                ..m
            },
        ),
{
    lemma_letter_press(m, 'c');
}

/// Esc quits from a list and from the file picker.
pub proof fn esc_quits_outside_the_inputs(m: AppModel, control: bool)
    requires
        keys_are_commands(m),
    ensures
        m.pressed(KeyEvent { code: KeyCode::Esc, control }) == keys::just(
            AppModel { should_quit: true, ..m },
        ),
{
    lemma_global_press(m, KeyCode::Esc, control);
}

/// `q` quits from a list. Typed into an input it is text, and in the file picker
/// it does nothing.
pub proof fn q_quits_only_from_a_list(m: AppModel)
    ensures
        list_takes_keys(m) ==> m.pressed(typing('q')) == keys::just(
            AppModel { should_quit: true, ..m },
        ),
        keys_are_commands(m) && !list_takes_keys(m) ==> m.pressed(typing('q')) == keys::just(m),
        filter_takes_input(m) || editor_takes_input(m) ==> m.pressed(
            typing('q'),
        ).app.should_quit == m.should_quit,
{
    if list_takes_keys(m) {
        lemma_letter_press(m, 'q');
    } else if keys_are_commands(m) {
        reveal(AppModel::pressed);
    }
    if filter_takes_input(m) {
        lemma_filter_press(m, KeyCode::Char('q'));
    }
    if editor_takes_input(m) {
        lemma_editor_press(m, KeyCode::Char('q'));
    }
}

// ---------------------------------------------------------------------------
// Tabs and rows
// ---------------------------------------------------------------------------

/// Switching tabs clears the filter and every mark, brings every cursor back
/// into its list and leaves the lists alone.
#[verifier::rlimit(40)]
pub proof fn switching_tabs_resets_filter_and_marks(m: AppModel, tab: Tab)
    ensures
        m.switched(tab).tab == tab,
        m.switched(tab).filter_query == Seq::<char>::empty(),
        !m.switched(tab).filter_focused,
        forall|t: Tab| (#[trigger] m.switched(tab).sel_of(t)).marked == Set::<usize>::empty(),
        forall|t: Tab|
            m.switched(tab).ids_of(t).len() > 0 && m.switched(tab).ids_of(t).len() <= usize::MAX
                ==> (#[trigger] m.switched(tab).sel_of(t)).cursor < m.switched(tab).ids_of(t).len(),
        m.switched(tab).search_results == m.search_results,
        m.switched(tab).updates == m.updates,
        m.switched(tab).installed == m.installed,
        m.switched(tab).packages == m.packages,
{
    let n = AppModel { tab, filter_query: Seq::empty(), filter_focused: false, ..m };
    assert forall|t: Tab| m.switched(tab).ids_of(t) == #[trigger] n.ids_of(t) by {}
    assert forall|t: Tab|
        m.switched(tab).ids_of(t).len() > 0 && m.switched(tab).ids_of(t).len()
            <= usize::MAX implies (#[trigger] m.switched(tab).sel_of(t)).cursor < m.switched(
        tab,
    ).ids_of(t).len() by {
        assert(n.ids_of(t) == m.switched(tab).ids_of(t));
    }
}

/// `l` moves to the next tab, from a list and from the file picker.
pub proof fn pressing_l_moves_right(m: AppModel)
    requires
        keys_are_commands(m),
    ensures
        m.pressed(typing('l')) == keys::just(m.switched(m.tab.following())),
{
    lemma_global_press(m, KeyCode::Char('l'), false);
}

/// `h` moves to the tab before, from a list and from the file picker.
pub proof fn pressing_h_moves_left(m: AppModel)
    requires
        keys_are_commands(m),
    ensures
        m.pressed(typing('h')) == keys::just(m.switched(m.tab.preceding())),
{
    lemma_global_press(m, KeyCode::Char('h'), false);
}

/// Tab and the right arrow move to the next tab, Shift+Tab and the left arrow to
/// the tab before, from everywhere but the command editor: from every list, from
/// the file picker and from the filter input.
pub proof fn tabs_change_from_everywhere(m: AppModel, control: bool)
    requires
        !m.busy,
        m.command_input is None,
    ensures
        m.pressed(KeyEvent { code: KeyCode::Tab, control }) == keys::just(
            m.switched(m.tab.following()),
        ),
        m.pressed(KeyEvent { code: KeyCode::Right, control }) == keys::just(
            m.switched(m.tab.following()),
        ),
        m.pressed(KeyEvent { code: KeyCode::BackTab, control }) == keys::just(
            m.switched(m.tab.preceding()),
        ),
        m.pressed(KeyEvent { code: KeyCode::Left, control }) == keys::just(
            m.switched(m.tab.preceding()),
        ),
{
    lemma_tab_press(m, KeyCode::Tab, control);
    lemma_tab_press(m, KeyCode::Right, control);
    lemma_tab_press(m, KeyCode::BackTab, control);
    lemma_tab_press(m, KeyCode::Left, control);
}

proof fn lemma_tab_press(m: AppModel, code: KeyCode, control: bool)
    requires
        !m.busy,
        m.command_input is None,
        code is Tab || code is Right || code is BackTab || code is Left,
    ensures
        m.pressed(KeyEvent { code, control }) == m.list_key(code),
{
    reveal(AppModel::pressed);
}

/// The digits jump to their tab from every list and from the file picker.
pub proof fn digits_jump_to_their_tab(m: AppModel)
    requires
        keys_are_commands(m),
    ensures
        m.pressed(typing('1')) == keys::just(m.switched(Tab::Updates)),
        m.pressed(typing('2')) == keys::just(m.switched(Tab::Search)),
        m.pressed(typing('3')) == keys::just(m.switched(Tab::Installed)),
        m.pressed(typing('4')) == keys::just(m.switched(Tab::Packages)),
{
    lemma_global_press(m, KeyCode::Char('1'), false);
    lemma_global_press(m, KeyCode::Char('2'), false);
    lemma_global_press(m, KeyCode::Char('3'), false);
    lemma_global_press(m, KeyCode::Char('4'), false);
}

/// Left after right, and right after left, end in the tab where they began.
#[verifier::rlimit(40)]
pub proof fn moving_between_tabs_is_reversible(m: AppModel)
    requires
        keys_are_commands(m),
    ensures
        m.pressed(typing('l')).app.pressed(typing('h')).app.tab == m.tab,
        m.pressed(typing('h')).app.pressed(typing('l')).app.tab == m.tab,
{
    pressing_l_moves_right(m);
    pressing_h_moves_left(m);
    pressing_h_moves_left(m.switched(m.tab.following()));
    pressing_l_moves_right(m.switched(m.tab.preceding()));
    tab::tab_navigation_is_reversible(m.tab);
}

/// An empty filter hides nothing.
pub proof fn an_empty_filter_hides_nothing(
    packages: Seq<WingetPackageModel>,
    upgrades: Seq<UpgradablePackageModel>,
    entries: Seq<JsonPackageModel>,
)
    ensures
        rows::filtered(packages, Seq::empty()) == packages,
        rows::filtered_upgrades(upgrades, Seq::empty()) == upgrades,
        rows::filtered_entries(entries, Seq::empty()) == entries,
{
    let e = Seq::<char>::empty();
    lemma_filter_keeps_all(packages, |p: WingetPackageModel| rows::passes(p.name, e));
    lemma_filter_keeps_all(upgrades, |p: UpgradablePackageModel| rows::passes(p.name, e));
    lemma_filter_keeps_all(
        entries,
        |p: JsonPackageModel| rows::passes(p.name, e) || rows::passes(p.id, e),
    );
}

proof fn lemma_filter_keeps_all<T>(s: Seq<T>, pred: spec_fn(T) -> bool)
    requires
        forall|i: int| 0 <= i < s.len() ==> pred(#[trigger] s[i]),
    ensures
        s.filter(pred) == s,
    decreases s.len(),
{
    reveal(Seq::filter);
    if s.len() > 0 {
        let init = s.drop_last();
        assert forall|i: int| 0 <= i < init.len() implies pred(#[trigger] init[i]) by {
            assert(init[i] == s[i]);
        }
        lemma_filter_keeps_all(init, pred);
        assert(pred(s[s.len() - 1]));
        assert(init.push(s.last()) =~= s);
    }
}

/// `x` stands at one of the places `at`.
pub open spec fn is_at_one_of<T>(items: Seq<T>, at: Seq<usize>, x: T) -> bool {
    exists|i: usize| i < items.len() && #[trigger] at.contains(i) && items[i as int] == x
}

proof fn lemma_picked<T>(items: Seq<T>, at: Seq<usize>)
    ensures
        forall|k: int|
            0 <= k < at.len() && at[k] < items.len() ==> list::picked(items, at).contains(
                items[#[trigger] at[k] as int],
            ),
        forall|k: int|
            0 <= k < list::picked(items, at).len() ==> is_at_one_of(
                items,
                at,
                #[trigger] list::picked(items, at)[k],
            ),
{
    broadcast use vstd::seq_lib::group_filter_ensures;

    let inside = |i: usize| i < items.len();
    let kept = at.filter(inside);
    let r = list::picked(items, at);
    assert forall|k: int| 0 <= k < at.len() && at[k] < items.len() implies r.contains(
        items[#[trigger] at[k] as int],
    ) by {
        at.lemma_filter_contains(inside, k);
        let j = kept.index_of(at[k]);
        assert(r[j] == items[at[k] as int]);
    }
    assert forall|k: int| 0 <= k < r.len() implies is_at_one_of(items, at, #[trigger] r[k]) by {
        lemma_filter_from(at, inside, k);
        assert(inside(kept[k]));
        assert(at.contains(kept[k]) && items[kept[k] as int] == r[k]);
    }
}

proof fn lemma_filter_from<T>(s: Seq<T>, pred: spec_fn(T) -> bool, k: int)
    requires
        0 <= k < s.filter(pred).len(),
    ensures
        s.contains(s.filter(pred)[k]),
    decreases s.len(),
{
    reveal(Seq::filter);
    if s.len() > 0 {
        let init = s.drop_last();
        if k < init.filter(pred).len() {
            lemma_filter_from(init, pred, k);
            let j = init.index_of(init.filter(pred)[k]);
            assert(s[j] == s.filter(pred)[k]);
        } else {
            assert(s[s.len() - 1] == s.filter(pred)[k]);
        }
    }
}

/// The pane of the current tab shows rows, not a message and not the file
/// picker.
pub open spec fn shows_its_rows(m: AppModel) -> bool {
    m.visible_ids().len() > 0 && !(m.tab == Tab::Packages && m.packages_file_picker)
}

/// What is shown as marked is what is acted on: the pane has a row for each
/// visible id, in the same order, and with some row shown as marked, the chosen
/// ids are those of the rows shown as marked, no more and no fewer.
#[verifier::rlimit(40)]
pub proof fn marked_rows_are_the_ones_acted_on(m: AppModel, debug: bool)
    requires
        shows_its_rows(m),
        m.current_sel().marked.finite(),
        exists|i: int|
            0 <= i < m.content_view(debug).rows.len() && (#[trigger] m.content_view(
                debug,
            ).rows[i]).marked,
        m.visible_ids().len() <= usize::MAX,
    ensures
        m.content_view(debug).rows.len() == m.visible_ids().len(),
        forall|i: int|
            0 <= i < m.visible_ids().len() && (#[trigger] m.content_view(debug).rows[i]).marked
                ==> m.chosen_ids().contains(m.visible_ids()[i]),
        forall|k: int|
            0 <= k < m.chosen_ids().len() ==> is_a_marked_row(
                m,
                debug,
                #[trigger] m.chosen_ids()[k],
            ),
{
    let ids = m.visible_ids();
    let view = m.content_view(debug);
    let sel = m.current_sel();
    lemma_view_rows(m, debug);
    let at = sel.active_rows();
    let w = choose|i: int| 0 <= i < view.rows.len() && (#[trigger] view.rows[i]).marked;
    assert(sel.marked.contains(w as usize));
    assert(sel.marked != Set::<usize>::empty());
    selection::finite_marks_can_be_listed(sel.marked);
    lemma_picked(ids, at);
    assert forall|i: int| 0 <= i < ids.len() && (#[trigger] view.rows[i]).marked implies
        m.chosen_ids().contains(ids[i]) by {
        assert(sel.marked.contains(i as usize));
        assert(at.contains(i as usize));
        let k = at.index_of(i as usize);
        assert(at[k] == i as usize);
    }
    assert forall|k: int| 0 <= k < m.chosen_ids().len() implies is_a_marked_row(
        m,
        debug,
        #[trigger] m.chosen_ids()[k],
    ) by {
        assert(is_at_one_of(ids, at, m.chosen_ids()[k]));
        let i = choose|i: usize|
            i < ids.len() && #[trigger] at.contains(i) && ids[i as int] == m.chosen_ids()[k];
        assert(sel.marked.contains(i));
        assert(view.rows[i as int].marked);
    }
}

/// A row with this id is shown as marked.
pub open spec fn is_a_marked_row(m: AppModel, debug: bool, id: Seq<char>) -> bool {
    exists|i: int|
        0 <= i < m.visible_ids().len() && m.visible_ids()[i] == id && (#[trigger] m.content_view(
            debug,
        ).rows[i]).marked
}

#[verifier::rlimit(40)]
proof fn lemma_view_rows(m: AppModel, debug: bool)
    requires
        shows_its_rows(m),
        m.visible_ids().len() <= usize::MAX,
    ensures
        m.content_view(debug).rows.len() == m.visible_ids().len(),
        forall|i: int|
            0 <= i < m.visible_ids().len() ==> (#[trigger] m.content_view(debug).rows[i]).marked
                == m.current_sel().marked.contains(i as usize),
{
}

/// With nothing marked the highlighted row is the one acted on. A cursor past
/// the last row highlights nothing and nothing is acted on.
pub proof fn the_highlighted_row_is_the_one_acted_on(m: AppModel, debug: bool)
    requires
        shows_its_rows(m),
        !m.filter_focused,
        m.current_sel().marked == Set::<usize>::empty(),
    ensures
        m.content_view(debug).rows.len() == m.visible_ids().len(),
        m.content_view(debug).cursor == Some(m.current_sel().cursor),
        m.chosen_ids() == if m.current_sel().cursor < m.visible_ids().len() {
            seq![m.visible_ids()[m.current_sel().cursor as int]]
        } else {
            Seq::empty()
        },
{
    let ids = m.visible_ids();
    let cursor = m.current_sel().cursor;
    let inside = |i: usize| i < ids.len();
    let at = seq![cursor];
    reveal(Seq::filter);
    assert(at.drop_last() =~= Seq::<usize>::empty());
    assert(at.drop_last().filter(inside) =~= Seq::<usize>::empty());
    assert(m.current_sel().active_rows() == at);
    if cursor < ids.len() {
        assert(at.filter(inside) =~= at);
        assert(m.chosen_ids() =~= seq![ids[cursor as int]]);
    } else {
        assert(at.filter(inside) =~= Seq::<usize>::empty());
        assert(m.chosen_ids() =~= Seq::<Seq<char>>::empty());
    }
}

// ---------------------------------------------------------------------------
// Manifest entries
// ---------------------------------------------------------------------------

/// Removing a script runs nothing.
pub proof fn scripts_are_never_removed(p: JsonPackageModel)
    requires
        p.is_script,
    ensures
        forall|k: int|
            0 <= k < EntryVerb::Remove.entry_steps(p).len() ==> !(
            #[trigger] EntryVerb::Remove.entry_steps(p)[k] is Run),
{
}

/// Where no two entries have the same id, acting on all of them deals with every
/// entry once, in the order of the manifest.
pub proof fn acting_on_all_covers_every_entry(m: AppModel, verb: EntryVerb)
    requires
        forall|i: int, j: int|
            0 <= i < j < m.packages.len() ==> #[trigger] m.packages[i].id
                != #[trigger] m.packages[j].id,
    ensures
        verb.job(m.packages, m.entry_ids()) == list::concatenated(
            m.packages.map_values(|p: JsonPackageModel| verb.entry_steps(p)),
        ) + verb.tail(),
{
    let packages = m.packages;
    let a = m.entry_ids().map_values(|id: Seq<char>| verb.steps(packages, id));
    let b = packages.map_values(|p: JsonPackageModel| verb.entry_steps(p));
    assert forall|i: int| 0 <= i < packages.len() implies a[i] == b[i] by {
        let id = packages[i].id;
        assert(jobs::first_at(packages, id, i));
        let f = choose|f: int| jobs::first_at(packages, id, f);
        assert(f == i) by {
            if f < i {
                assert(packages[f].id != packages[i].id);
            }
            if i < f {
                assert(packages[i].id != id);
            }
        }
        assert(jobs::entry_with_id(packages, id) == Some(packages[i]));
    }
    assert(a =~= b);
}

// ---------------------------------------------------------------------------
// Startup
// ---------------------------------------------------------------------------

/// The answers to the first two questions are the results that end the loading.
pub proof fn first_answers_end_the_loading(stdout: Option<Seq<u8>>)
    ensures
        action::reports(QueryModel::FirstInstalled, stdout).len() == 1,
        action::reports(QueryModel::FirstInstalled, stdout)[0] is InitialInstalled,
        action::reports(QueryModel::FirstUpgradable, stdout).len() == 1,
        action::reports(QueryModel::FirstUpgradable, stdout)[0] is InitialUpdates,
{
}

// ---------------------------------------------------------------------------
// Running a command again
// ---------------------------------------------------------------------------

proof fn lemma_words_are_plain()
    ensures
        command_line::is_plain("winget"@),
        command_line::is_plain("install"@),
        command_line::is_plain("upgrade"@),
        command_line::is_plain("uninstall"@),
        command_line::is_plain("--exact"@),
        command_line::is_plain("--silent"@),
        command_line::is_plain("--accept-package-agreements"@),
        command_line::is_plain("--accept-source-agreements"@),
        command_line::is_plain("--scope"@),
        command_line::is_plain("machine"@),
{
    reveal_strlit("winget");
    reveal_strlit("install");
    reveal_strlit("upgrade");
    reveal_strlit("uninstall");
    reveal_strlit("--exact");
    reveal_strlit("--silent");
    reveal_strlit("--accept-package-agreements");
    reveal_strlit("--accept-source-agreements");
    reveal_strlit("--scope");
    reveal_strlit("machine");
}

/// The command that acted on the first package, opened in the editor and run
/// unedited, is run again with the same arguments, as long as the id needs no
/// quotes.
#[verifier::rlimit(40)]
pub proof fn the_last_command_can_be_run_again(m: AppModel, verb: Verb, ids: Seq<Seq<char>>)
    requires
        verb != Verb::Show,
        ids.len() > 0,
        command_line::is_plain(ids[0]),
        m.command_input is None,
        !m.filter_focused,
        !(m.tab == Tab::Packages && m.packages_file_picker),
    ensures
        ({
            let idle = m.acting(verb, ids).received(ActionResultModel::CommandDone);
            let editing = idle.pressed(typing('c')).app;
            let again = editing.pressed(KeyEvent { code: KeyCode::Enter, control: false });
            &&& again.effect matches EffectModel::Start(job) && job[1] == jobs::winget(
                verb.command(ids[0]),
            )
            &&& again.app.last_command == idle.last_command
        }),
{
    let idle = m.acting(verb, ids).received(ActionResultModel::CommandDone);
    let full = verb.full_command(ids[0]);
    let line = text::joined(full, " "@);
    lemma_words_are_plain();
    assert forall|i: int| 0 <= i < full.len() implies command_line::is_plain(
        #[trigger] full[i],
    ) by {
        if i > 0 {
            assert(full[i] == verb.command(ids[0])[i - 1]);
        }
    }
    command_line::joined_words_split_again(full);
    assert(idle.last_command == Some(line));
    assert(list_takes_keys(idle));
    c_opens_the_editor_with_the_last_command(idle);
    let editing = idle.pressed(typing('c')).app;
    assert(editing.command_input == Some(line));
    lemma_editor_press(editing, KeyCode::Enter);
    assert(full.skip(1) =~= verb.command(ids[0]));
}

// ---------------------------------------------------------------------------
// The screen
// ---------------------------------------------------------------------------

/// Output that follows its end shows its last line at the bottom; output that is
/// scrolled shows the line it is scrolled to at the top.
pub proof fn the_output_is_shown_where_it_is_scrolled(m: AppModel, height: nat)
    requires
        m.well_formed(),
    ensures
        m.output_scroll is None ==> m.output_offset(height) + height >= m.command_output.len(),
        m.output_scroll is None && m.command_output.len() >= height ==> m.output_offset(height)
            + height == m.command_output.len(),
        m.output_scroll matches Some(n) ==> m.output_offset(height) == n,
{
}

proof fn lemma_spaces_bytes(n: nat)
    ensures
        text::byte_count(view::spaces(n)) == n,
    decreases n,
{
    if n > 0 {
        let k = (n - 1) as nat;
        lemma_spaces_bytes(k);
        assert(view::spaces(n).drop_first() =~= view::spaces(k));
        assert(view::spaces(n).drop_last() =~= view::spaces(k));
        assert(view::spaces(n).last() == ' ');
        assert(view::spaces(n)[0] == ' ');
        assert(text::char_bytes(' ') == 1);
    }
}

/// The padding of the status bar makes it exactly as wide as the screen if its
/// texts leave room, and adds nothing if they do not.
pub proof fn padding_fills_the_width(width: nat, used: nat)
    ensures
        used <= width ==> text::byte_count(view::fill(width, used)) + used == width,
        used > width ==> view::fill(width, used).len() == 0,
{
    if used <= width {
        lemma_spaces_bytes((width - used) as nat);
    }
}

// ---------------------------------------------------------------------------
// What each key does
// ---------------------------------------------------------------------------

/// In the Updates tab `u` upgrades the chosen packages, all of them, and `U`
/// every package. In the Search tab `i` installs the chosen packages. Without a
/// chosen package nothing happens.
#[verifier::rlimit(40)]
pub proof fn letters_of_updates_and_search(m: AppModel)
    requires
        list_takes_keys(m),
    ensures
        m.tab == Tab::Updates && m.chosen_ids().len() > 0 ==> m.pressed(typing('u'))
            == keys::start(
            m.acting(Verb::Upgrade, m.chosen_ids()),
            Verb::Upgrade.job(m.chosen_ids()),
        ),
        m.tab == Tab::Updates && m.chosen_ids().len() == 0 ==> m.pressed(typing('u'))
            == keys::just(m),
        m.tab == Tab::Updates ==> m.pressed(typing('U')) == keys::start(
            m.upgrading_all(),
            seq![StepModel::UpgradeAll, StepModel::Report(ActionResultModel::CommandDone)],
        ),
        m.tab == Tab::Search && m.chosen_ids().len() > 0 ==> m.pressed(typing('i')) == keys::start(
            m.acting(Verb::Install, m.chosen_ids()),
            Verb::Install.job(m.chosen_ids()),
        ),
        m.tab == Tab::Search && m.chosen_ids().len() == 0 ==> m.pressed(typing('i')) == keys::just(
            m,
        ),
{
    lemma_letter_press(m, 'u');
    lemma_letter_press(m, 'U');
    lemma_letter_press(m, 'i');
}

/// In the Installed tab `r` removes the chosen packages, `u` and `U` upgrade
/// them, and `R` asks for the list again. Without a chosen package only `R` does
/// anything.
#[verifier::rlimit(40)]
pub proof fn letters_of_installed(m: AppModel)
    requires
        list_takes_keys(m),
        m.tab == Tab::Installed,
    ensures
        m.chosen_ids().len() > 0 ==> m.pressed(typing('r')) == keys::start(
            m.acting(Verb::Uninstall, m.chosen_ids()),
            Verb::Uninstall.job(m.chosen_ids()),
        ),
        m.chosen_ids().len() > 0 ==> m.pressed(typing('u')) == keys::start(
            m.acting(Verb::Upgrade, m.chosen_ids()),
            Verb::Upgrade.job(m.chosen_ids()),
        ),
        m.pressed(typing('U')) == m.pressed(typing('u')),
        m.chosen_ids().len() == 0 ==> m.pressed(typing('r')) == keys::just(m) && m.pressed(
            typing('u'),
        ) == keys::just(m),
        m.pressed(typing('R')) == keys::start(
            AppModel { busy: true, current_command: Some("winget list --refresh"@), ..m },
            seq![
                StepModel::Ask(QueryModel::Installed),
                StepModel::Report(ActionResultModel::CommandDone),
            ],
        ),
{
    lemma_letter_press(m, 'r');
    lemma_letter_press(m, 'u');
    lemma_letter_press(m, 'U');
    lemma_letter_press(m, 'R');
}

/// In the Apps/Scripts tab `i` installs or runs the chosen entries and `I` all of
/// the manifest, whatever the filter; `r` removes the chosen ones and `R` all.
/// Where there are none nothing happens.
#[verifier::rlimit(40)]
pub proof fn letters_of_apps_and_scripts(m: AppModel, k: int)
    requires
        list_takes_keys(m),
        m.tab == Tab::Packages,
    ensures
        m.chosen_ids().len() > 0 ==> m.pressed(typing('i')) == keys::start(
            m.acting_on_entries(EntryVerb::Install, m.chosen_ids()),
            EntryVerb::Install.job(m.packages, m.chosen_ids()),
        ) && m.pressed(typing('r')) == keys::start(
            m.acting_on_entries(EntryVerb::Remove, m.chosen_ids()),
            EntryVerb::Remove.job(m.packages, m.chosen_ids()),
        ),
        m.chosen_ids().len() == 0 ==> m.pressed(typing('i')) == keys::just(m) && m.pressed(
            typing('r'),
        ) == keys::just(m),
        m.packages.len() > 0 ==> m.pressed(typing('I')) == keys::start(
            m.acting_on_entries(EntryVerb::Install, m.entry_ids()),
            EntryVerb::Install.job(m.packages, m.entry_ids()),
        ) && m.pressed(typing('R')) == keys::start(
            m.acting_on_entries(EntryVerb::Remove, m.entry_ids()),
            EntryVerb::Remove.job(m.packages, m.entry_ids()),
        ),
        m.packages.len() == 0 ==> m.pressed(typing('I')) == keys::just(m) && m.pressed(
            typing('R'),
        ) == keys::just(m),
        m.entry_ids().len() == m.packages.len(),
        0 <= k < m.packages.len() ==> m.entry_ids()[k] == m.packages[k].id,
{
    lemma_letter_press(m, 'i');
    lemma_letter_press(m, 'I');
    lemma_letter_press(m, 'r');
    lemma_letter_press(m, 'R');
}

/// `f` and `F` open the file picker if there is more than one file: the entries
/// listed so far are gone, and so are filter and marks. With one file or none
/// they do nothing.
#[verifier::rlimit(40)]
pub proof fn f_opens_the_picker(m: AppModel)
    requires
        list_takes_keys(m),
        m.tab == Tab::Packages,
    ensures
        m.package_files.len() > 1 ==> m.pressed(typing('F')) == keys::just(
            AppModel {
                packages_file_picker: true,
                packages: Seq::empty(),
                packages_sel: SelectionModel { cursor: 0, marked: Set::empty() },
                filter_focused: false,
                filter_query: Seq::empty(),
                ..m
            },
        ),
        m.package_files.len() <= 1 ==> m.pressed(typing('F')) == keys::just(m),
        m.pressed(typing('f')) == m.pressed(typing('F')),
{
    lemma_letter_press(m, 'f');
    lemma_letter_press(m, 'F');
}

/// A character that is no command of the tab does nothing.
#[verifier::rlimit(40)]
pub proof fn other_characters_do_nothing(m: AppModel, c: char)
    requires
        list_takes_keys(m),
        c != '/' && c != ' ' && c != 'a' && c != 'c' && c != 'h' && c != 'j' && c != 'k' && c
            != 'l' && c != 'q' && c != '1' && c != '2' && c != '3' && c != '4',
        m.tab == Tab::Updates ==> c != 'u' && c != 'U',
        m.tab == Tab::Search ==> c != 'i',
        m.tab == Tab::Installed ==> c != 'r' && c != 'R' && c != 'u' && c != 'U',
        m.tab == Tab::Packages ==> c != 'i' && c != 'I' && c != 'r' && c != 'R' && c != 'f' && c
            != 'F',
    ensures
        m.pressed(typing(c)) == keys::just(m),
{
    lemma_letter_press(m, c);
}

proof fn lemma_list_press(m: AppModel, code: KeyCode)
    requires
        list_takes_keys(m),
        code !is Char,
    ensures
        m.pressed(KeyEvent { code, control: false }) == m.list_key(code),
{
    reveal(AppModel::pressed);
}

/// In a list `/` goes to the filter, Space flips the mark of the cursor row and
/// `a` the marks of all visible rows; nothing else changes.
#[verifier::rlimit(40)]
pub proof fn filter_and_marks_are_a_key_away(m: AppModel)
    requires
        list_takes_keys(m),
    ensures
        m.pressed(typing('/')) == keys::just(AppModel { filter_focused: true, ..m }),
        m.pressed(typing(' ')) == keys::just(m.with_sel(m.current_sel().toggled())),
        m.pressed(typing('a')) == keys::just(
            m.with_sel(m.current_sel().all_toggled(m.visible_ids().len())),
        ),
{
    lemma_letter_press(m, '/');
    lemma_letter_press(m, ' ');
    lemma_letter_press(m, 'a');
}

/// In a list down and up move the cursor of the current tab, and up from the
/// first row goes to the filter; Enter shows the chosen rows, if there are any.
#[verifier::rlimit(40)]
pub proof fn arrows_move_and_enter_shows(m: AppModel)
    requires
        list_takes_keys(m),
    ensures
        m.pressed(KeyEvent { code: KeyCode::Down, control: false }) == keys::just(
            m.with_sel(m.current_sel().moved_down(m.visible_ids().len())),
        ),
        m.current_sel().cursor > 0 ==> m.pressed(KeyEvent { code: KeyCode::Up, control: false })
            == keys::just(m.with_sel(m.current_sel().moved_up())),
        m.current_sel().cursor == 0 ==> m.pressed(KeyEvent { code: KeyCode::Up, control: false })
            == keys::just(AppModel { filter_focused: true, ..m }),
        m.chosen_ids().len() == 0 ==> m.pressed(KeyEvent { code: KeyCode::Enter, control: false })
            == keys::just(m),
        m.chosen_ids().len() > 0 && m.tab != Tab::Packages ==> m.pressed(
            KeyEvent { code: KeyCode::Enter, control: false },
        ) == keys::start(
            m.acting(Verb::Show, m.chosen_ids()),
            Verb::Show.job(m.chosen_ids()),
        ),
        m.chosen_ids().len() > 0 && m.tab == Tab::Packages ==> m.pressed(
            KeyEvent { code: KeyCode::Enter, control: false },
        ) == keys::start(
            m.acting_on_entries(EntryVerb::Show, m.chosen_ids()),
            EntryVerb::Show.job(m.packages, m.chosen_ids()),
        ),
        m.pressed(KeyEvent { code: KeyCode::Backspace, control: false }) == keys::just(m),
        m.pressed(KeyEvent { code: KeyCode::Other, control: false }) == keys::just(m),
{
    lemma_list_press(m, KeyCode::Down);
    lemma_list_press(m, KeyCode::Up);
    lemma_list_press(m, KeyCode::Enter);
    lemma_list_press(m, KeyCode::Backspace);
    lemma_list_press(m, KeyCode::Other);
}

/// A page of output is five lines. PageUp from the end goes to the last line,
/// then five lines up at a time, not beyond the first; PageDown goes five lines
/// down at a time, and at the last line follows the end again. Without output
/// neither does anything.
pub proof fn pages_are_five_lines(m: AppModel)
    ensures
        m.command_output.len() == 0 ==> m.scrolled_up() == m && m.scrolled_down() == m,
        m.command_output.len() > 0 ==> (match m.output_scroll {
            None => m.scrolled_up().output_scroll == Some((m.command_output.len() - 1) as nat)
                && m.scrolled_down().output_scroll is None,
            Some(n) => m.scrolled_up().output_scroll == Some(
                if n >= 5 {
                    (n - 5) as nat
                } else {
                    0
                },
            ) && m.scrolled_down().output_scroll == if n + 5 < m.command_output.len() {
                Some(n + 5)
            } else {
                None
            },
        }),
{
}

/// In the filter input a character is added at the end and Backspace takes the
/// last one off, and cursors come back to the rows that are left. Esc leaves the
/// input, and so does Enter, except that in the Search tab Enter searches. Up and
/// down leave it and move. Any other key does nothing.
#[verifier::rlimit(40)]
pub proof fn keys_of_the_filter_input(m: AppModel, c: char)
    requires
        filter_takes_input(m),
    ensures
        m.pressed(typing(c)) == keys::just(
            AppModel { filter_query: m.filter_query + seq![c], ..m }.clamped(),
        ),
        m.pressed(KeyEvent { code: KeyCode::Backspace, control: false }) == keys::just(
            AppModel {
                filter_query: if m.filter_query.len() > 0 {
                    m.filter_query.take(m.filter_query.len() - 1)
                } else {
                    m.filter_query
                },
                ..m
            }.clamped(),
        ),
        m.pressed(KeyEvent { code: KeyCode::Esc, control: false }) == keys::just(
            AppModel { filter_focused: false, ..m }.clamped(),
        ),
        m.tab != Tab::Search ==> m.pressed(KeyEvent { code: KeyCode::Enter, control: false })
            == m.pressed(KeyEvent { code: KeyCode::Esc, control: false }),
        m.tab == Tab::Search ==> m.pressed(KeyEvent { code: KeyCode::Enter, control: false }) == (
        keys::Outcome { app: m.searching(), effect: m.search_effect() }),
        m.pressed(KeyEvent { code: KeyCode::PageUp, control: false }) == keys::just(m),
        m.pressed(KeyEvent { code: KeyCode::PageDown, control: false }) == keys::just(m),
        m.pressed(KeyEvent { code: KeyCode::Other, control: false }) == keys::just(m),
{
    lemma_filter_press(m, KeyCode::Char(c));
    lemma_filter_press(m, KeyCode::Backspace);
    lemma_filter_press(m, KeyCode::Esc);
    lemma_filter_press(m, KeyCode::Enter);
    lemma_filter_press(m, KeyCode::PageUp);
    lemma_filter_press(m, KeyCode::PageDown);
    lemma_filter_press(m, KeyCode::Other);
    assert(m.filter_query.push(c) =~= m.filter_query + seq![c]);
    assert(m.filter_query.len() > 0 ==> m.filter_query.drop_last() =~= m.filter_query.take(
        m.filter_query.len() - 1,
    ));
}

/// Up and down in the filter input do what they do in the list that it leads to.
#[verifier::rlimit(40)]
pub proof fn arrows_leave_the_filter_input(m: AppModel)
    requires
        filter_takes_input(m),
    ensures
        m.pressed(KeyEvent { code: KeyCode::Down, control: false }) == (AppModel {
            filter_focused: false,
            ..m
        }).pressed(KeyEvent { code: KeyCode::Down, control: false }),
        m.pressed(KeyEvent { code: KeyCode::Up, control: false }) == (AppModel {
            filter_focused: false,
            ..m
        }).pressed(KeyEvent { code: KeyCode::Up, control: false }),
{
    lemma_filter_press(m, KeyCode::Down);
    lemma_filter_press(m, KeyCode::Up);
    let n = AppModel { filter_focused: false, ..m };
    lemma_list_press(n, KeyCode::Down);
    lemma_list_press(n, KeyCode::Up);
}

/// In the command editor Esc closes it and forgets the line, Enter closes it and
/// runs the line as it stands, a character is added at the end, Backspace takes
/// the last one off, and any other key does nothing.
pub proof fn keys_of_the_command_editor(m: AppModel, c: char, code: KeyCode)
    requires
        editor_takes_input(m),
    ensures
        ({
            let line = m.command_input->0;
            let closed = AppModel { command_input: None, ..m };
            &&& m.pressed(KeyEvent { code: KeyCode::Esc, control: false }) == keys::just(closed)
            &&& m.pressed(KeyEvent { code: KeyCode::Enter, control: false }) == (keys::Outcome {
                app: closed.running(line),
                effect: jobs::manual_effect(line),
            })
            &&& m.pressed(typing(c)) == keys::just(
                AppModel { command_input: Some(line + seq![c]), ..m },
            )
            &&& line.len() > 0 ==> m.pressed(KeyEvent { code: KeyCode::Backspace, control: false })
                == keys::just(AppModel { command_input: Some(line.take(line.len() - 1)), ..m })
            &&& line.len() == 0 ==> m.pressed(KeyEvent { code: KeyCode::Backspace, control: false })
                == keys::just(m)
            &&& code !is Char && code !is Esc && code !is Enter && code !is Backspace ==> m.pressed(
                KeyEvent { code, control: false },
            ) == keys::just(m)
        }),
{
    let line = m.command_input->0;
    lemma_editor_press(m, KeyCode::Esc);
    lemma_editor_press(m, KeyCode::Enter);
    lemma_editor_press(m, KeyCode::Char(c));
    lemma_editor_press(m, KeyCode::Backspace);
    lemma_editor_press(m, code);
    assert(line.push(c) =~= line + seq![c]);
    assert(line.len() > 0 ==> line.drop_last() =~= line.take(line.len() - 1));
    if line.len() == 0 {
        assert(AppModel { command_input: Some(line), ..m } =~= m);
    }
}

proof fn lemma_picker_press(m: AppModel, code: KeyCode)
    requires
        !m.busy,
        m.command_input is None,
        m.tab == Tab::Packages,
        m.packages_file_picker,
        m.filter_focused || (code != KeyCode::Char('j') && code != KeyCode::Char('k')),
    ensures
        m.pressed(KeyEvent { code, control: false }) == m.picker_key(code),
{
    reveal(AppModel::pressed);
}

/// In the file picker up and down go from file to file, not past either end, and
/// Enter loads the highlighted file; the characters that are no command there do
/// nothing.
pub proof fn keys_of_the_file_picker(m: AppModel, c: char)
    requires
        !m.busy,
        m.command_input is None,
        m.tab == Tab::Packages,
        m.packages_file_picker,
    ensures
        m.pressed(KeyEvent { code: KeyCode::Down, control: false }) == keys::just(
            AppModel {
                package_file_selected: if m.package_file_selected + 1 < m.package_files.len() {
                    (m.package_file_selected + 1) as usize
                } else {
                    m.package_file_selected
                },
                ..m
            },
        ),
        m.pressed(KeyEvent { code: KeyCode::Up, control: false }) == keys::just(
            AppModel {
                package_file_selected: if m.package_file_selected > 0 {
                    (m.package_file_selected - 1) as usize
                } else {
                    0
                },
                ..m
            },
        ),
        m.package_file_selected < m.package_files.len() ==> m.pressed(
            KeyEvent { code: KeyCode::Enter, control: false },
        ) == (keys::Outcome { app: m, effect: EffectModel::LoadFile(m.package_file_selected) }),
        m.package_file_selected >= m.package_files.len() ==> m.pressed(
            KeyEvent { code: KeyCode::Enter, control: false },
        ) == keys::just(m),
        m.pressed(KeyEvent { code: KeyCode::Backspace, control: false }) == keys::just(m),
        m.pressed(KeyEvent { code: KeyCode::Other, control: false }) == keys::just(m),
        c != 'h' && c != 'l' && c != '1' && c != '2' && c != '3' && c != '4' && (m.filter_focused
            || (c != 'j' && c != 'k')) ==> m.pressed(typing(c)) == keys::just(m),
{
    lemma_picker_press(m, KeyCode::Down);
    lemma_picker_press(m, KeyCode::Up);
    lemma_picker_press(m, KeyCode::Enter);
    lemma_picker_press(m, KeyCode::Backspace);
    lemma_picker_press(m, KeyCode::Other);
    if m.filter_focused || (c != 'j' && c != 'k') {
        lemma_picker_press(m, KeyCode::Char(c));
    }
}

/// Ctrl matters for Ctrl+C alone: any other key does the same with it as without.
pub proof fn ctrl_matters_for_ctrl_c_alone(m: AppModel, code: KeyCode)
    requires
        code != KeyCode::Char('c'),
    ensures
        m.pressed(KeyEvent { code, control: true }) == m.pressed(KeyEvent { code, control: false }),
{
    reveal(AppModel::pressed);
}

} // verus!
