//! What each key does.

use vstd::prelude::*;

use crate::action::{Effect, EffectModel, QueryModel, StepModel};
use crate::app::{App, AppModel};
use crate::jobs::{self, EntryVerb, Verb};
use crate::key::{KeyCode, KeyEvent};
use crate::package::JsonPackageModel;
use crate::selection::SelectionModel;
use crate::tab::Tab;
use crate::text;

verus! {

/// A state and what is to be done besides.
#[verifier::ext_equal]
pub struct Outcome {
    pub app: AppModel,
    pub effect: EffectModel,
}

/// Nothing is to be done besides.
pub open spec fn just(app: AppModel) -> Outcome {
    Outcome { app, effect: EffectModel::Nothing }
}

/// A job is to be started.
pub open spec fn start(app: AppModel, job: Seq<StepModel>) -> Outcome {
    Outcome { app, effect: EffectModel::Start(job) }
}

impl AppModel {
    /// Packages are dealt with, unless there are none.
    pub open spec fn act(self, verb: Verb, ids: Seq<Seq<char>>) -> Outcome {
        if ids.len() == 0 {
            just(self)
        } else {
            start(self.acting(verb, ids), verb.job(ids))
        }
    }

    /// Manifest entries are dealt with, unless there are none.
    pub open spec fn act_on_entries(self, verb: EntryVerb, ids: Seq<Seq<char>>) -> Outcome {
        if ids.len() == 0 {
            just(self)
        } else {
            start(self.acting_on_entries(verb, ids), verb.job(self.packages, ids))
        }
    }

    /// The ids of all manifest entries, whatever the filter.
    pub open spec fn entry_ids(self) -> Seq<Seq<char>> {
        self.packages.map_values(|p: JsonPackageModel| p.id)
    }

    /// Details of the selected rows are shown.
    pub open spec fn show(self) -> Outcome {
        if self.tab == Tab::Packages {
            self.act_on_entries(EntryVerb::Show, self.chosen_ids())
        } else {
            self.act(Verb::Show, self.chosen_ids())
        }
    }

    /// The output scrolled up by a page of five lines; from the end, to the
    /// last line.
    pub open spec fn scrolled_up(self) -> AppModel {
        if self.command_output.len() == 0 {
            self
        } else {
            let place = match self.output_scroll {
                None => (self.command_output.len() - 1) as nat,
                Some(n) => if n < 5 {
                    0
                } else {
                    (n - 5) as nat
                },
            };
            AppModel { output_scroll: Some(place), ..self }
        }
    }

    /// The output scrolled down by a page of five lines; past the last line it
    /// follows the end again.
    pub open spec fn scrolled_down(self) -> AppModel {
        match self.output_scroll {
            Some(n) if self.command_output.len() > 0 => AppModel {
                output_scroll: if n + 5 >= self.command_output.len() {
                    None
                } else {
                    Some(n + 5)
                },
                ..self
            },
            _ => self,
        }
    }

    /// The file picker is opened again, if there is more than one file.
    pub open spec fn picking(self) -> AppModel {
        if self.package_files.len() > 1 {
            AppModel {
                packages_file_picker: true,
                packages: Seq::empty(),
                packages_sel: SelectionModel::initial(),
                filter_focused: false,
                filter_query: Seq::empty(),
                ..self
            }
        } else {
            self
        }
    }

    /// A key in the command editor: every character is text.
    pub open spec fn editor_key(self, code: KeyCode) -> Outcome {
        let input = self.command_input->0;
        match code {
            KeyCode::Esc => just(AppModel { command_input: None, ..self }),
            KeyCode::Enter => Outcome {
                app: AppModel { command_input: None, ..self }.running(input),
                effect: jobs::manual_effect(input),
            },
            KeyCode::Char(c) => just(AppModel { command_input: Some(input.push(c)), ..self }),
            KeyCode::Backspace => just(
                AppModel { command_input: Some(without_last(input)), ..self },
            ),
            _ => just(self),
        }
    }

    /// A key in the file picker: up, down and Enter pick a file, the keys that
    /// change the tab, scroll the output or quit keep their meaning, except `q`.
    pub open spec fn picker_key(self, code: KeyCode) -> Outcome {
        match code {
            KeyCode::Up => just(
                if self.package_file_selected > 0 {
                    AppModel {
                        package_file_selected: (self.package_file_selected - 1) as usize,
                        ..self
                    }
                } else {
                    self
                },
            ),
            KeyCode::Down => just(
                if self.package_file_selected + 1 < self.package_files.len() {
                    AppModel {
                        package_file_selected: (self.package_file_selected + 1) as usize,
                        ..self
                    }
                } else {
                    self
                },
            ),
            KeyCode::Enter => if self.package_file_selected < self.package_files.len() {
                Outcome { app: self, effect: EffectModel::LoadFile(self.package_file_selected) }
            } else {
                just(self)
            },
            _ => if is_global(code) {
                self.list_key(code)
            } else {
                just(self)
            },
        }
    }

    /// A key in the filter input: every character is text; the keys that move
    /// between tabs and rows keep their meaning.
    pub open spec fn filter_key(self, code: KeyCode) -> Outcome {
        let unfocused = AppModel { filter_focused: false, ..self };
        match code {
            KeyCode::Esc => just(unfocused.clamped()),
            KeyCode::Enter => if self.tab == Tab::Search {
                Outcome { app: self.searching(), effect: self.search_effect() }
            } else {
                just(unfocused.clamped())
            },
            KeyCode::Char(c) => just(
                AppModel { filter_query: self.filter_query.push(c), ..self }.clamped(),
            ),
            KeyCode::Backspace => just(
                AppModel { filter_query: without_last(self.filter_query), ..self }.clamped(),
            ),
            KeyCode::Tab | KeyCode::BackTab | KeyCode::Left | KeyCode::Right => self.list_key(code),
            KeyCode::Up | KeyCode::Down => unfocused.list_key(code),
            _ => just(self),
        }
    }

    /// A key in the list of the current tab.
    pub open spec fn list_key(self, code: KeyCode) -> Outcome {
        match code {
            KeyCode::Char(c) => self.letter_key(c),
            KeyCode::Left | KeyCode::BackTab => just(self.switched(self.tab.preceding())),
            KeyCode::Right | KeyCode::Tab => just(self.switched(self.tab.following())),
            KeyCode::Esc => just(AppModel { should_quit: true, ..self }),
            KeyCode::Up => just(
                if self.current_sel().cursor == 0 {
                    AppModel { filter_focused: true, ..self }
                } else {
                    self.with_sel(self.current_sel().moved_up())
                },
            ),
            KeyCode::Down => just(
                self.with_sel(self.current_sel().moved_down(self.visible_ids().len())),
            ),
            KeyCode::Enter => self.show(),
            KeyCode::PageUp => just(self.scrolled_up()),
            KeyCode::PageDown => just(self.scrolled_down()),
            _ => just(self),
        }
    }

    /// A character in the list of the current tab.
    pub open spec fn letter_key(self, c: char) -> Outcome {
        if c == '/' {
            just(AppModel { filter_focused: true, ..self })
        } else if c == ' ' {
            just(self.with_sel(self.current_sel().toggled()))
        } else if c == 'a' {
            just(self.with_sel(self.current_sel().all_toggled(self.visible_ids().len())))
        } else if c == 'c' {
            just(AppModel { command_input: Some(self.editor_seed()), ..self })
        } else if c == '1' {
            just(self.switched(Tab::Updates))
        } else if c == '2' {
            just(self.switched(Tab::Search))
        } else if c == '3' {
            just(self.switched(Tab::Installed))
        } else if c == '4' {
            just(self.switched(Tab::Packages))
        } else if c == 'h' {
            just(self.switched(self.tab.preceding()))
        } else if c == 'l' {
            just(self.switched(self.tab.following()))
        } else if c == 'q' {
            just(AppModel { should_quit: true, ..self })
        } else {
            self.tab_key(c)
        }
    }

    /// What the command editor opens with: the last command, if there is one.
    pub open spec fn editor_seed(self) -> Seq<char> {
        match self.last_command {
            Some(command) => command,
            None => "winget "@,
        }
    }

    /// A character that has a meaning in the current tab only.
    pub open spec fn tab_key(self, c: char) -> Outcome {
        match self.tab {
            Tab::Updates => self.updates_key(c),
            Tab::Search => self.search_key(c),
            Tab::Installed => self.installed_key(c),
            Tab::Packages => self.packages_key(c),
        }
    }

    /// A letter of the Updates tab.
    pub open spec fn updates_key(self, c: char) -> Outcome {
        if c == 'u' {
            self.act(Verb::Upgrade, self.chosen_ids())
        } else if c == 'U' {
            start(self.upgrading_all(), seq![StepModel::UpgradeAll, jobs::done()])
        } else {
            just(self)
        }
    }

    /// A letter of the Search tab.
    pub open spec fn search_key(self, c: char) -> Outcome {
        if c == 'i' {
            self.act(Verb::Install, self.chosen_ids())
        } else {
            just(self)
        }
    }

    /// A letter of the Installed tab.
    pub open spec fn installed_key(self, c: char) -> Outcome {
        if c == 'r' {
            self.act(Verb::Uninstall, self.chosen_ids())
        } else if c == 'u' || c == 'U' {
            self.act(Verb::Upgrade, self.chosen_ids())
        } else if c == 'R' {
            start(
                self.waiting_for("winget list --refresh"@),
                seq![jobs::ask(QueryModel::Installed), jobs::done()],
            )
        } else {
            just(self)
        }
    }

    /// A letter of the Apps/Scripts tab.
    pub open spec fn packages_key(self, c: char) -> Outcome {
        if c == 'i' {
            self.act_on_entries(EntryVerb::Install, self.chosen_ids())
        } else if c == 'I' {
            self.act_on_entries(EntryVerb::Install, self.entry_ids())
        } else if c == 'r' {
            self.act_on_entries(EntryVerb::Remove, self.chosen_ids())
        } else if c == 'R' {
            self.act_on_entries(EntryVerb::Remove, self.entry_ids())
        } else if c == 'f' || c == 'F' {
            just(self.picking())
        } else {
            just(self)
        }
    }

    /// A key. While a command runs every key is ignored; otherwise Ctrl+C
    /// quits, and any other key goes to the command editor if it is open, else
    /// to the file picker, the filter input or the list. Outside the inputs `j`
    /// and `k` stand for down and up.
    pub open spec fn key_outcome(self, key: KeyEvent) -> Outcome {
        if self.busy {
            just(self)
        } else if key.code == KeyCode::Char('c') && key.control {
            just(AppModel { should_quit: true, ..self })
        } else if self.command_input is Some {
            self.editor_key(key.code)
        } else {
            let code = if self.filter_focused {
                key.code
            } else {
                vim_code(key.code)
            };
            if self.tab == Tab::Packages && self.packages_file_picker {
                self.picker_key(code)
            } else if self.filter_focused {
                self.filter_key(code)
            } else {
                self.list_key(code)
            }
        }
    }

    /// As `key_outcome`, for reasoning about several keys in a row.
    #[verifier::opaque]
    pub open spec fn pressed(self, key: KeyEvent) -> Outcome {
        self.key_outcome(key)
    }
}

/// A key that means the same in a list and in the file picker: it changes the
/// tab, scrolls the output or, as Esc, quits.
pub open spec fn is_global(code: KeyCode) -> bool {
    match code {
        KeyCode::Tab
        | KeyCode::BackTab
        | KeyCode::Left
        | KeyCode::Right
        | KeyCode::Esc
        | KeyCode::PageUp
        | KeyCode::PageDown => true,
        KeyCode::Char(c) => '1' <= c <= '4' || c == 'h' || c == 'l',
        _ => false,
    }
}

/// `j` and `k` as down and up.
pub open spec fn vim_code(code: KeyCode) -> KeyCode {
    match code {
        KeyCode::Char('j') => KeyCode::Down,
        KeyCode::Char('k') => KeyCode::Up,
        _ => code,
    }
}

/// The text without its last character.
pub open spec fn without_last(s: Seq<char>) -> Seq<char> {
    if s.len() == 0 {
        s
    } else {
        s.drop_last()
    }
}

impl App {
    /// `winget show` (or script details) for the current selection.
    pub fn show_selected(&mut self) -> (e: Effect)
        ensures
            (Outcome { app: final(self)@, effect: e.deep_view() }) == old(self)@.show(),
    {
        let ids: Vec<String> = self.selected_ids();
        assert(ids.deep_view().len() == ids@.len());
        if ids.len() == 0 {
            return Effect::Nothing;
        }
        match self.tab {
            Tab::Packages => self.show_json_package(ids),
            _ => self.show_multi_pkg(ids),
        }
    }

    /// Takes in a key press and says what is to be done besides.
    pub fn handle_key(&mut self, key: KeyEvent) -> (e: Effect)
        ensures
            (Outcome { app: final(self)@, effect: e.deep_view() }) == old(self)@.key_outcome(key),
            (Outcome { app: final(self)@, effect: e.deep_view() }) == old(self)@.pressed(key),
    {
        proof {
            reveal(AppModel::pressed);
        }
        if self.busy {
            return Effect::Nothing;
        }
        if key.code == KeyCode::Char('c') && key.control {
            self.should_quit = true;
            return Effect::Nothing;
        }
        if self.command_input.is_some() {
            return self.handle_editor_key(key.code);
        }
        let code: KeyCode = if self.filter_focused {
            key.code
        } else {
            match key.code {
                KeyCode::Char('j') => KeyCode::Down,
                KeyCode::Char('k') => KeyCode::Up,
                other => other,
            }
        };
        if self.tab == Tab::Packages && self.packages_file_picker {
            return self.handle_picker_key(code);
        }
        if self.filter_focused {
            return self.handle_filter_key(code);
        }
        self.handle_list_key(code)
    }

    fn handle_editor_key(&mut self, code: KeyCode) -> (e: Effect)
        requires
            old(self)@.command_input is Some,
        ensures
            (Outcome { app: final(self)@, effect: e.deep_view() }) == old(self)@.editor_key(code),
    {
        let mut input: String = match &self.command_input {
            Some(s) => s.clone(),
            None => String::new(),
        };
        match code {
            KeyCode::Esc => {
                self.command_input = None;
            },
            KeyCode::Enter => {
                self.command_input = None;
                return self.run_manual_command(input);
            },
            KeyCode::Char(c) => {
                input.push(c);
                self.command_input = Some(input);
            },
            KeyCode::Backspace => {
                let _ = input.pop();
                self.command_input = Some(input);
            },
            _ => {},
        }
        Effect::Nothing
    }

    fn handle_picker_key(&mut self, code: KeyCode) -> (e: Effect)
        ensures
            (Outcome { app: final(self)@, effect: e.deep_view() }) == old(self)@.picker_key(code),
    {
        match code {
            KeyCode::Up => {
                if self.package_file_selected > 0 {
                    self.package_file_selected = self.package_file_selected - 1;
                }
            },
            KeyCode::Down => {
                let n: usize = self.package_files.len();
                if n > 0 && self.package_file_selected < n - 1 {
                    self.package_file_selected = self.package_file_selected + 1;
                }
            },
            KeyCode::Enter => {
                if self.package_file_selected < self.package_files.len() {
                    return Effect::LoadFile(self.package_file_selected);
                }
            },
            KeyCode::Tab
            | KeyCode::BackTab
            | KeyCode::Left
            | KeyCode::Right
            | KeyCode::Esc
            | KeyCode::PageUp
            | KeyCode::PageDown => {
                return self.handle_list_key(code);
            },
            KeyCode::Char(c) => {
                if ('1' <= c && c <= '4') || c == 'h' || c == 'l' {
                    return self.handle_list_key(code);
                }
            },
            _ => {},
        }
        Effect::Nothing
    }

    fn handle_filter_key(&mut self, code: KeyCode) -> (e: Effect)
        ensures
            (Outcome { app: final(self)@, effect: e.deep_view() }) == old(self)@.filter_key(code),
    {
        match code {
            KeyCode::Esc => {
                self.filter_focused = false;
                self.clamp_selected();
                Effect::Nothing
            },
            KeyCode::Enter => {
                if self.tab == Tab::Search {
                    self.trigger_search()
                } else {
                    self.filter_focused = false;
                    self.clamp_selected();
                    Effect::Nothing
                }
            },
            KeyCode::Char(c) => {
                self.filter_query.push(c);
                self.clamp_selected();
                Effect::Nothing
            },
            KeyCode::Backspace => {
                let _ = self.filter_query.pop();
                self.clamp_selected();
                Effect::Nothing
            },
            KeyCode::Tab | KeyCode::BackTab | KeyCode::Left | KeyCode::Right => {
                self.handle_list_key(code)
            },
            KeyCode::Up | KeyCode::Down => {
                self.filter_focused = false;
                self.handle_list_key(code)
            },
            _ => Effect::Nothing,
        }
    }

    fn handle_list_key(&mut self, code: KeyCode) -> (e: Effect)
        ensures
            (Outcome { app: final(self)@, effect: e.deep_view() }) == old(self)@.list_key(code),
    {
        match code {
            KeyCode::Char('/') => {
                self.filter_focused = true;
            },
            KeyCode::Char(' ') => {
                self.toggle_selection();
            },
            KeyCode::Char('a') => {
                self.toggle_select_all();
            },
            KeyCode::Char('c') => {
                let seed: String = match &self.last_command {
                    Some(command) => command.clone(),
                    None => text::copy_of("winget "),
                };
                self.command_input = Some(seed);
            },
            KeyCode::Char('1') => {
                self.switch_tab(Tab::Updates);
            },
            KeyCode::Char('2') => {
                self.switch_tab(Tab::Search);
            },
            KeyCode::Char('3') => {
                self.switch_tab(Tab::Installed);
            },
            KeyCode::Char('4') => {
                self.switch_tab(Tab::Packages);
            },
            KeyCode::Left | KeyCode::BackTab | KeyCode::Char('h') => {
                self.switch_tab(self.tab.prev());
            },
            KeyCode::Right | KeyCode::Tab | KeyCode::Char('l') => {
                self.switch_tab(self.tab.next());
            },
            KeyCode::Esc | KeyCode::Char('q') => {
                self.should_quit = true;
            },
            KeyCode::Up => {
                if self.sel_mut().up() {
                    self.filter_focused = true;
                }
            },
            KeyCode::Down => {
                let n: usize = self.filtered_len();
                self.sel_mut().down(n);
            },
            KeyCode::Enter => {
                return self.show_selected();
            },
            KeyCode::PageUp => {
                self.scroll_up();
            },
            KeyCode::PageDown => {
                self.scroll_down();
            },
            KeyCode::Char(c) => {
                return match self.tab {
                    Tab::Updates => self.handle_updates_key(c),
                    Tab::Search => self.handle_search_key(c),
                    Tab::Installed => self.handle_installed_key(c),
                    Tab::Packages => self.handle_packages_key(c),
                };
            },
            _ => {},
        }
        Effect::Nothing
    }

    fn scroll_up(&mut self)
        ensures
            final(self)@ == old(self)@.scrolled_up(),
    {
        let n: usize = self.command_output.len();
        if n > 0 {
            self.output_scroll = if self.output_scroll == usize::MAX {
                n - 1
            } else {
                self.output_scroll.saturating_sub(5)
            };
        }
        assert(self@ =~= old(self)@.scrolled_up());
    }

    fn scroll_down(&mut self)
        ensures
            final(self)@ == old(self)@.scrolled_down(),
    {
        let n: usize = self.command_output.len();
        if n > 0 && self.output_scroll != usize::MAX {
            if n <= 5 || self.output_scroll >= n - 5 {
                self.output_scroll = usize::MAX;
            } else {
                self.output_scroll = self.output_scroll + 5;
            }
        }
        assert(self@ =~= old(self)@.scrolled_down());
    }

    fn handle_search_key(&mut self, c: char) -> (e: Effect)
        ensures
            (Outcome { app: final(self)@, effect: e.deep_view() }) == old(self)@.search_key(c),
    {
        if c == 'i' {
            let ids: Vec<String> = self.selected_ids();
            assert(ids.deep_view().len() == ids@.len());
            if ids.len() > 0 {
                return self.install_multi_pkg(ids);
            }
        }
        Effect::Nothing
    }

    fn handle_updates_key(&mut self, c: char) -> (e: Effect)
        ensures
            (Outcome { app: final(self)@, effect: e.deep_view() }) == old(self)@.updates_key(c),
    {
        if c == 'u' {
            let ids: Vec<String> = self.selected_ids();
            assert(ids.deep_view().len() == ids@.len());
            if ids.len() > 0 {
                return self.upgrade_multi_pkg(ids);
            }
        } else if c == 'U' {
            return self.upgrade_all();
        }
        Effect::Nothing
    }

    fn handle_installed_key(&mut self, c: char) -> (e: Effect)
        ensures
            (Outcome { app: final(self)@, effect: e.deep_view() }) == old(self)@.installed_key(c),
    {
        if c == 'r' {
            let ids: Vec<String> = self.selected_ids();
            assert(ids.deep_view().len() == ids@.len());
            if ids.len() > 0 {
                return self.remove_multi_pkg(ids);
            }
        } else if c == 'u' || c == 'U' {
            let ids: Vec<String> = self.selected_ids();
            assert(ids.deep_view().len() == ids@.len());
            if ids.len() > 0 {
                return self.upgrade_multi_pkg(ids);
            }
        } else if c == 'R' {
            return self.refresh_installed();
        }
        Effect::Nothing
    }

    fn handle_packages_key(&mut self, c: char) -> (e: Effect)
        ensures
            (Outcome { app: final(self)@, effect: e.deep_view() }) == old(self)@.packages_key(c),
    {
        if c == 'i' {
            let ids: Vec<String> = self.selected_ids();
            assert(ids.deep_view().len() == ids@.len());
            if ids.len() > 0 {
                return self.install_json_multi(ids);
            }
        } else if c == 'I' {
            let ids: Vec<String> = self.all_entry_ids();
            assert(ids.deep_view().len() == ids@.len());
            if ids.len() > 0 {
                return self.install_json_multi(ids);
            }
        } else if c == 'r' {
            let ids: Vec<String> = self.selected_ids();
            assert(ids.deep_view().len() == ids@.len());
            if ids.len() > 0 {
                return self.remove_json_multi(ids);
            }
        } else if c == 'R' {
            let ids: Vec<String> = self.all_entry_ids();
            assert(ids.deep_view().len() == ids@.len());
            if ids.len() > 0 {
                return self.remove_json_multi(ids);
            }
        } else if c == 'f' || c == 'F' {
            if self.package_files.len() > 1 {
                self.packages_file_picker = true;
                self.packages = Vec::new();
                self.packages_sel.reset();
                self.filter_focused = false;
                self.filter_query = String::new();
            }
            assert(self@ =~= old(self)@.picking());
        }
        Effect::Nothing
    }

    fn all_entry_ids(&self) -> (ids: Vec<String>)
        ensures
            ids.deep_view() == self@.entry_ids(),
    {
        let mut ids: Vec<String> = Vec::new();
        let ghost all = self@.entry_ids();
        let mut i: usize = 0;
        assert(ids.deep_view() =~= all.take(0));
        while i < self.packages.len()
            invariant
                i <= self.packages@.len(),
                all == self@.entry_ids(),
                ids.deep_view() == all.take(i as int),
            decreases self.packages@.len() - i,
        {
            text::add_text(&mut ids, self.packages[i].id.as_str());
            assert(all.take(i + 1) =~= all.take(i as int).push(all[i as int]));
            i += 1;
        }
        assert(all.take(i as int) =~= all);
        ids
    }
}

} // verus!
