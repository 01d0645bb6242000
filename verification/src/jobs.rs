//! What each command of the interface does: the change of state and the job
//! that runs in the background.

use vstd::prelude::*;

use crate::action::{
    self, ActionResult, ActionResultModel, Effect, EffectModel, Query, QueryModel, Step, StepModel,
};
use crate::app::{App, AppModel};
use crate::command_line;
use crate::list;
use crate::package::{JsonPackage, JsonPackageModel};
use crate::selection::SelectionModel;
use crate::text;

verus! {

// ---------------------------------------------------------------------------
// Steps
// ---------------------------------------------------------------------------

/// Report an output line.
pub open spec fn line(text: Seq<char>) -> StepModel {
    StepModel::Report(ActionResultModel::OutputLine(text))
}

/// Report an empty output line.
pub open spec fn blank() -> StepModel {
    line(Seq::empty())
}

/// Report that the command is done.
pub open spec fn done() -> StepModel {
    StepModel::Report(ActionResultModel::CommandDone)
}

/// Run `winget` with these arguments.
pub open spec fn winget(args: Seq<Seq<char>>) -> StepModel {
    StepModel::Run { program: "winget"@, args }
}

/// Ask for a list again.
pub open spec fn ask(query: QueryModel) -> StepModel {
    StepModel::Ask(query)
}

/// A text between dashes.
pub open spec fn heading(before: Seq<char>, body: Seq<char>) -> Seq<char> {
    before + body + " ---"@
}

fn push_line(steps: &mut Vec<Step>, text: String)
    ensures
        final(steps).deep_view() == old(steps).deep_view().push(line(text@)),
{
    list::add_item(steps, Step::Report(ActionResult::OutputLine(text)));
}

fn push_blank(steps: &mut Vec<Step>)
    ensures
        final(steps).deep_view() == old(steps).deep_view().push(blank()),
{
    let empty: String = String::new();
    assert(empty@ =~= Seq::<char>::empty());
    push_line(steps, empty);
}

fn push_done(steps: &mut Vec<Step>)
    ensures
        final(steps).deep_view() == old(steps).deep_view().push(done()),
{
    list::add_item(steps, Step::Report(ActionResult::CommandDone));
}

fn push_ask(steps: &mut Vec<Step>, query: Query)
    ensures
        final(steps).deep_view() == old(steps).deep_view().push(ask(query.deep_view())),
{
    list::add_item(steps, Step::Ask(query));
}

fn push_winget(steps: &mut Vec<Step>, args: Vec<String>)
    ensures
        final(steps).deep_view() == old(steps).deep_view().push(winget(args.deep_view())),
{
    list::add_item(steps, Step::Run { program: text::copy_of("winget"), args });
}

// ---------------------------------------------------------------------------
// Acting on packages by id
// ---------------------------------------------------------------------------

/// What is done to a package.
#[derive(Debug, Clone, Copy, PartialEq, Eq, Structural)]
pub enum Verb {
    Install,
    Show,
    Upgrade,
    Uninstall,
}

impl Verb {
    /// What stands before the id in the heading.
    pub open spec fn announcement(self) -> Seq<char> {
        match self {
            Verb::Install => "--- install "@,
            Verb::Show => "--- "@,
            Verb::Upgrade => "--- upgrade "@,
            Verb::Uninstall => "--- uninstall "@,
        }
    }

    /// The `winget` arguments for one package.
    pub open spec fn command(self, id: Seq<char>) -> Seq<Seq<char>> {
        match self {
            Verb::Install => seq![
                "install"@,
                "--exact"@,
                id,
                "--silent"@,
                "--accept-package-agreements"@,
                "--accept-source-agreements"@,
                "--scope"@,
                "machine"@,
            ],
            Verb::Show => seq!["show"@, id, "--accept-source-agreements"@],
            Verb::Upgrade => seq![
                "upgrade"@,
                "--exact"@,
                id,
                "--silent"@,
                "--accept-package-agreements"@,
                "--accept-source-agreements"@,
            ],
            Verb::Uninstall => seq![
                "uninstall"@,
                "--exact"@,
                id,
                "--silent"@,
                "--accept-source-agreements"@,
            ],
        }
    }

    /// A heading, the run, an empty line.
    pub open spec fn steps(self, id: Seq<char>) -> Seq<StepModel> {
        seq![line(heading(self.announcement(), id)), winget(self.command(id)), blank()]
    }

    /// What follows when every package has been dealt with: the lists that may
    /// have changed are asked for again.
    pub open spec fn tail(self) -> Seq<StepModel> {
        match self {
            Verb::Install => seq![ask(QueryModel::Installed), ask(QueryModel::Upgradable), done()],
            Verb::Show => seq![done()],
            Verb::Upgrade => seq![ask(QueryModel::Upgradable), ask(QueryModel::Installed), done()],
            Verb::Uninstall => seq![ask(QueryModel::Installed), done()],
        }
    }

    /// Package after package, then the tail.
    pub open spec fn job(self, ids: Seq<Seq<char>>) -> Seq<StepModel> {
        list::concatenated(ids.map_values(|id: Seq<char>| self.steps(id))) + self.tail()
    }

    /// The command line for one package, from the program on.
    pub open spec fn full_command(self, id: Seq<char>) -> Seq<Seq<char>> {
        seq!["winget"@] + self.command(id)
    }

    /// What stands before the number of packages in the command bar.
    pub open spec fn shown(self) -> Seq<char> {
        match self {
            Verb::Install => "winget install "@,
            Verb::Show => "winget show "@,
            Verb::Upgrade => "winget upgrade "@,
            Verb::Uninstall => "winget uninstall "@,
        }
    }

    fn announce(self, id: &str) -> (s: String)
        ensures
            s@ == heading(self.announcement(), id@),
    {
        match self {
            Verb::Install => text::between("--- install ", id, " ---"),
            Verb::Show => text::between("--- ", id, " ---"),
            Verb::Upgrade => text::between("--- upgrade ", id, " ---"),
            Verb::Uninstall => text::between("--- uninstall ", id, " ---"),
        }
    }

    /// The `winget` arguments for one package.
    pub fn args(self, id: &str) -> (args: Vec<String>)
        ensures
            args.deep_view() == self.command(id@),
    {
        let args = match self {
            Verb::Install => text::owned(
                &[
                    "install",
                    "--exact",
                    id,
                    "--silent",
                    "--accept-package-agreements",
                    "--accept-source-agreements",
                    "--scope",
                    "machine",
                ],
            ),
            Verb::Show => text::owned(&["show", id, "--accept-source-agreements"]),
            Verb::Upgrade => text::owned(
                &[
                    "upgrade",
                    "--exact",
                    id,
                    "--silent",
                    "--accept-package-agreements",
                    "--accept-source-agreements",
                ],
            ),
            Verb::Uninstall => text::owned(
                &["uninstall", "--exact", id, "--silent", "--accept-source-agreements"],
            ),
        };
        assert(args.deep_view() =~= self.command(id@));
        args
    }

    fn push_steps(self, steps: &mut Vec<Step>, id: &str)
        ensures
            final(steps).deep_view() == old(steps).deep_view() + self.steps(id@),
    {
        push_line(steps, self.announce(id));
        push_winget(steps, self.args(id));
        push_blank(steps);
        assert(steps.deep_view() =~= old(steps).deep_view() + self.steps(id@));
    }

    /// The job that deals with these packages.
    pub fn plan(self, ids: &Vec<String>) -> (steps: Vec<Step>)
        ensures
            steps.deep_view() == self.job(ids.deep_view()),
    {
        let ghost f = |id: Seq<char>| self.steps(id);
        let ghost all = ids.deep_view().map_values(f);
        let mut steps: Vec<Step> = Vec::new();
        let mut i: usize = 0;
        assert(steps.deep_view() =~= list::concatenated(all.take(0)));
        while i < ids.len()
            invariant
                i <= ids@.len(),
                f == (|id: Seq<char>| self.steps(id)),
                all == ids.deep_view().map_values(f),
                steps.deep_view() == list::concatenated(all.take(i as int)),
            decreases ids@.len() - i,
        {
            self.push_steps(&mut steps, ids[i].as_str());
            proof {
                assert(all.take(i + 1) =~= all.take(i as int).push(all[i as int]));
                list::lemma_concatenated_push(all.take(i as int), all[i as int]);
            }
            i += 1;
        }
        assert(all.take(i as int) =~= all);
        let ghost body = steps.deep_view();
        match self {
            Verb::Install => {
                push_ask(&mut steps, Query::Installed);
                push_ask(&mut steps, Query::Upgradable);
            },
            Verb::Show => {},
            Verb::Upgrade => {
                push_ask(&mut steps, Query::Upgradable);
                push_ask(&mut steps, Query::Installed);
            },
            Verb::Uninstall => {
                push_ask(&mut steps, Query::Installed);
            },
        }
        push_done(&mut steps);
        assert(steps.deep_view() =~= body + self.tail());
        steps
    }

    fn shown_for(self, count: usize) -> (s: String)
        ensures
            s@ == self.shown() + text::decimal(count as nat) + " packages"@,
    {
        let number: String = text::to_decimal(count);
        match self {
            Verb::Install => text::between("winget install ", number.as_str(), " packages"),
            Verb::Show => text::between("winget show ", number.as_str(), " packages"),
            Verb::Upgrade => text::between("winget upgrade ", number.as_str(), " packages"),
            Verb::Uninstall => text::between("winget uninstall ", number.as_str(), " packages"),
        }
    }
}

// ---------------------------------------------------------------------------
// Acting on manifest entries
// ---------------------------------------------------------------------------

/// The first entry with this id is at `i`.
pub open spec fn first_at(packages: Seq<JsonPackageModel>, id: Seq<char>, i: int) -> bool {
    &&& 0 <= i < packages.len()
    &&& packages[i].id == id
    &&& forall|j: int| 0 <= j < i ==> #[trigger] packages[j].id != id
}

/// The first entry with this id.
pub open spec fn entry_with_id(packages: Seq<JsonPackageModel>, id: Seq<char>) -> Option<
    JsonPackageModel,
> {
    if exists|i: int| first_at(packages, id, i) {
        Some(packages[choose|i: int| first_at(packages, id, i)])
    } else {
        None
    }
}

fn find_entry<'a>(packages: &'a Vec<JsonPackage>, id: &str) -> (r: Option<&'a JsonPackage>)
    ensures
        r.deep_view() == entry_with_id(packages.deep_view(), id@),
{
    let ghost all = packages.deep_view();
    let mut i: usize = 0;
    while i < packages.len()
        invariant
            i <= packages@.len(),
            all == packages.deep_view(),
            forall|j: int| 0 <= j < i ==> #[trigger] all[j].id != id@,
        decreases packages@.len() - i,
    {
        assert(all[i as int].id == packages@[i as int].id@);
        if text::same(packages[i].id.as_str(), id) {
            assert(first_at(all, id@, i as int));
            return Some(&packages[i]);
        }
        i += 1;
    }
    None
}

/// Installing an entry: a script is run, a package is installed the way its
/// entry says.
pub open spec fn install_entry(p: JsonPackageModel) -> Seq<StepModel> {
    let work = if p.is_script {
        let run = match p.command {
            Some(argv) => if argv.len() > 0 {
                seq![StepModel::Run { program: argv[0], args: argv.skip(1) }]
            } else {
                Seq::empty()
            },
            None => Seq::empty(),
        };
        seq![line(heading("--- run script: "@, p.name))] + run
    } else {
        seq![
            line(heading("--- winget "@, text::joined(p.install_args(), " "@))),
            winget(p.install_args()),
        ]
    };
    work.push(blank())
}

/// Removing an entry: a package is uninstalled; a script cannot be.
pub open spec fn remove_entry(p: JsonPackageModel) -> Seq<StepModel> {
    if p.is_script {
        seq![line(heading("--- remove/uninstall not supported for script: "@, p.name)), blank()]
    } else {
        Verb::Uninstall.steps(p.id)
    }
}

/// Showing an entry: the command of a script, what `winget` says of a package.
pub open spec fn show_entry(p: JsonPackageModel) -> Seq<StepModel> {
    if p.is_script {
        let command = match p.command {
            Some(argv) => seq![line("Command: "@ + text::joined(argv, " "@))],
            None => Seq::empty(),
        };
        (seq![line(heading("--- script: "@, p.name))] + command).push(blank())
    } else {
        Verb::Show.steps(p.id)
    }
}

/// What is done to a manifest entry.
#[derive(Debug, Clone, Copy, PartialEq, Eq, Structural)]
pub enum EntryVerb {
    Install,
    Remove,
    Show,
}

impl EntryVerb {
    /// The steps for one entry.
    pub open spec fn entry_steps(self, p: JsonPackageModel) -> Seq<StepModel> {
        match self {
            EntryVerb::Install => install_entry(p),
            EntryVerb::Remove => remove_entry(p),
            EntryVerb::Show => show_entry(p),
        }
    }

    /// The steps for the first entry with this id; none without such an entry.
    pub open spec fn steps(self, packages: Seq<JsonPackageModel>, id: Seq<char>) -> Seq<StepModel> {
        match entry_with_id(packages, id) {
            Some(p) => self.entry_steps(p),
            None => Seq::empty(),
        }
    }

    /// What follows when every entry has been dealt with.
    pub open spec fn tail(self) -> Seq<StepModel> {
        match self {
            EntryVerb::Show => seq![done()],
            _ => seq![ask(QueryModel::Installed), ask(QueryModel::Upgradable), done()],
        }
    }

    /// Entry after entry, then the tail.
    pub open spec fn job(self, packages: Seq<JsonPackageModel>, ids: Seq<Seq<char>>) -> Seq<
        StepModel,
    > {
        list::concatenated(ids.map_values(|id: Seq<char>| self.steps(packages, id))) + self.tail()
    }

    fn push_entry(self, steps: &mut Vec<Step>, p: &JsonPackage)
        ensures
            final(steps).deep_view() == old(steps).deep_view() + self.entry_steps(p.deep_view()),
    {
        let ghost e = p.deep_view();
        match self {
            EntryVerb::Install => {
                if p.is_script {
                    push_line(steps, text::between("--- run script: ", p.name.as_str(), " ---"));
                    if let Some(argv) = &p.command {
                        if argv.len() > 0 {
                            let args: Vec<String> = texts_from(argv, 1);
                            list::add_item(
                                steps,
                                Step::Run { program: argv[0].clone(), args },
                            );
                        }
                    }
                } else {
                    let args: Vec<String> = p.install_args();
                    let joined: String = text::join(&args, " ");
                    push_line(steps, text::between("--- winget ", joined.as_str(), " ---"));
                    push_winget(steps, args);
                }
                push_blank(steps);
            },
            EntryVerb::Remove => {
                if p.is_script {
                    push_line(
                        steps,
                        text::between(
                            "--- remove/uninstall not supported for script: ",
                            p.name.as_str(),
                            " ---",
                        ),
                    );
                    push_blank(steps);
                } else {
                    Verb::Uninstall.push_steps(steps, p.id.as_str());
                }
            },
            EntryVerb::Show => {
                if p.is_script {
                    push_line(steps, text::between("--- script: ", p.name.as_str(), " ---"));
                    if let Some(argv) = &p.command {
                        let joined: String = text::join(argv, " ");
                        push_line(steps, text::concat("Command: ", joined.as_str()));
                    }
                    push_blank(steps);
                } else {
                    Verb::Show.push_steps(steps, p.id.as_str());
                }
            },
        }
        assert(steps.deep_view() =~= old(steps).deep_view() + self.entry_steps(e));
    }

    /// The job that deals with these entries.
    pub fn plan(self, packages: &Vec<JsonPackage>, ids: &Vec<String>) -> (steps: Vec<Step>)
        ensures
            steps.deep_view() == self.job(packages.deep_view(), ids.deep_view()),
    {
        let ghost entries = packages.deep_view();
        let ghost f = |id: Seq<char>| self.steps(entries, id);
        let ghost all = ids.deep_view().map_values(f);
        let mut steps: Vec<Step> = Vec::new();
        let mut i: usize = 0;
        assert(steps.deep_view() =~= list::concatenated(all.take(0)));
        while i < ids.len()
            invariant
                i <= ids@.len(),
                entries == packages.deep_view(),
                f == (|id: Seq<char>| self.steps(entries, id)),
                all == ids.deep_view().map_values(f),
                steps.deep_view() == list::concatenated(all.take(i as int)),
            decreases ids@.len() - i,
        {
            let ghost before = steps.deep_view();
            if let Some(p) = find_entry(packages, ids[i].as_str()) {
                self.push_entry(&mut steps, p);
            }
            proof {
                assert(steps.deep_view() =~= before + all[i as int]);
                assert(all.take(i + 1) =~= all.take(i as int).push(all[i as int]));
                list::lemma_concatenated_push(all.take(i as int), all[i as int]);
            }
            i += 1;
        }
        assert(all.take(i as int) =~= all);
        let ghost body = steps.deep_view();
        match self {
            EntryVerb::Show => {},
            _ => {
                push_ask(&mut steps, Query::Installed);
                push_ask(&mut steps, Query::Upgradable);
            },
        }
        push_done(&mut steps);
        assert(steps.deep_view() =~= body + self.tail());
        steps
    }
}

/// The texts from place `from` on.
fn texts_from(v: &Vec<String>, from: usize) -> (r: Vec<String>)
    requires
        from <= v@.len(),
    ensures
        r.deep_view() == v.deep_view().skip(from as int),
{
    let mut r: Vec<String> = Vec::new();
    let mut i: usize = from;
    let ghost all = v.deep_view();
    assert(r.deep_view() =~= all.subrange(from as int, i as int));
    while i < v.len()
        invariant
            from <= i <= v@.len(),
            all == v.deep_view(),
            r.deep_view() == all.subrange(from as int, i as int),
        decreases v@.len() - i,
    {
        text::add_text(&mut r, v[i].as_str());
        assert(all.subrange(from as int, i + 1) =~= all.subrange(from as int, i as int).push(
            all[i as int],
        ));
        i += 1;
    }
    assert(r.deep_view() =~= all.skip(from as int));
    r
}

// ---------------------------------------------------------------------------
// Commands
// ---------------------------------------------------------------------------

/// What an entry is run as, for the command editor.
pub open spec fn entry_seed(p: JsonPackageModel) -> Seq<char> {
    if p.is_script {
        text::joined(list::or_empty(p.command), " "@)
    } else {
        "winget "@ + text::joined(p.install_args(), " "@)
    }
}

impl AppModel {
    /// A command that takes a while was started: the command bar shows it and
    /// the interface waits for it.
    pub open spec fn waiting_for(self, shown: Seq<char>) -> AppModel {
        AppModel { current_command: Some(shown), busy: true, ..self }
    }

    /// As `waiting_for`, with an empty output panel that follows what comes.
    pub open spec fn streaming(self, shown: Seq<char>) -> AppModel {
        AppModel { command_output: Seq::empty(), output_scroll: None, ..self.waiting_for(shown) }
    }

    /// Packages are dealt with, one after the other. The command for the first
    /// one seeds the command editor, except when they are only shown.
    pub open spec fn acting(self, verb: Verb, ids: Seq<Seq<char>>) -> AppModel {
        let last_command = if verb != Verb::Show && ids.len() > 0 {
            Some(text::joined(verb.full_command(ids[0]), " "@))
        } else {
            self.last_command
        };
        AppModel {
            last_command,
            ..self.streaming(verb.shown() + text::decimal(ids.len()) + " packages"@)
        }
    }

    /// Manifest entries are dealt with, one after the other. Installing seeds
    /// the command editor with what the first one is run as.
    pub open spec fn acting_on_entries(self, verb: EntryVerb, ids: Seq<Seq<char>>) -> AppModel {
        let shown = match verb {
            EntryVerb::Install => "install/run "@,
            EntryVerb::Remove => "uninstall/remove "@,
            EntryVerb::Show => "show "@,
        };
        let last_command = if verb == EntryVerb::Install && ids.len() > 0 && entry_with_id(
            self.packages,
            ids[0],
        ) is Some {
            Some(entry_seed(entry_with_id(self.packages, ids[0])->0))
        } else {
            self.last_command
        };
        AppModel {
            last_command,
            ..self.streaming(shown + text::decimal(ids.len()) + " apps/scripts"@)
        }
    }

    /// A search was asked for: an empty query empties the results.
    pub open spec fn searching(self) -> AppModel {
        if self.filter_query.len() == 0 {
            AppModel {
                search_results: Seq::empty(),
                search_sel: SelectionModel { cursor: 0, ..self.search_sel },
                ..self
            }
        } else {
            self.waiting_for(action::search_shown(self.filter_query))
        }
    }

    /// What a search starts.
    pub open spec fn search_effect(self) -> EffectModel {
        if self.filter_query.len() == 0 {
            EffectModel::Nothing
        } else {
            EffectModel::Start(seq![ask(QueryModel::Search(self.filter_query)), done()])
        }
    }

    /// Every package is upgraded.
    pub open spec fn upgrading_all(self) -> AppModel {
        AppModel {
            last_command: Some(
                "winget upgrade --all --include-unknown --silent --accept-package-agreements --accept-source-agreements"@,
            ),
            ..self.waiting_for(action::upgrade_all_shown())
        }
    }

    /// A command line typed by hand is run; a blank one is not.
    pub open spec fn running(self, line: Seq<char>) -> AppModel {
        if command_line::argv(line).len() == 0 {
            self
        } else {
            AppModel { last_command: Some(line), ..self.streaming(line) }
        }
    }
}

/// What a command line typed by hand starts.
pub open spec fn manual_effect(line: Seq<char>) -> EffectModel {
    let argv = command_line::argv(line);
    if argv.len() == 0 {
        EffectModel::Nothing
    } else {
        EffectModel::Start(
            seq![
                self::line(heading("--- "@, text::joined(argv, " "@))),
                StepModel::Run { program: argv[0], args: argv.skip(1) },
                ask(QueryModel::Installed),
                ask(QueryModel::Upgradable),
                done(),
            ],
        )
    }
}

impl App {
    fn wait_for(&mut self, shown: String)
        ensures
            final(self)@ == old(self)@.waiting_for(shown@),
    {
        self.current_command = Some(shown);
        self.busy = true;
    }

    fn stream(&mut self, shown: String)
        ensures
            final(self)@ == old(self)@.streaming(shown@),
    {
        self.command_output = Vec::new();
        assert(self.command_output.deep_view() =~= Seq::<Seq<char>>::empty());
        self.output_scroll = usize::MAX;
        self.current_command = Some(shown);
        self.busy = true;
    }

    /// Searches for the filter query, or forgets the results when it is empty.
    pub fn trigger_search(&mut self) -> (e: Effect)
        ensures
            final(self)@ == old(self)@.searching(),
            e.deep_view() == old(self)@.search_effect(),
    {
        if self.filter_query.as_str().is_empty() {
            self.search_results = Vec::new();
            self.search_sel.cursor = 0;
            assert(self@ =~= old(self)@.searching());
            return Effect::Nothing;
        }
        let query: String = self.filter_query.clone();
        self.wait_for(action::search_title(query.as_str()));
        let mut steps: Vec<Step> = Vec::new();
        steps.push(Step::Ask(Query::Search(query)));
        push_done(&mut steps);
        assert(steps.deep_view() =~= seq![
            ask(QueryModel::Search(old(self)@.filter_query)),
            done(),
        ]);
        Effect::Start(steps)
    }

    fn act(&mut self, verb: Verb, ids: Vec<String>) -> (e: Effect)
        ensures
            final(self)@ == old(self)@.acting(verb, ids.deep_view()),
            e.deep_view() == EffectModel::Start(verb.job(ids.deep_view())),
    {
        self.stream(verb.shown_for(ids.len()));
        if verb != Verb::Show && ids.len() > 0 {
            let mut parts: Vec<String> = text::owned(&["winget"]);
            let args: Vec<String> = verb.args(ids[0].as_str());
            text::add_texts(&mut parts, &args);
            assert(parts.deep_view() =~= verb.full_command(ids.deep_view()[0]));
            self.set_last_command(&parts);
        }
        Effect::Start(verb.plan(&ids))
    }

    /// Installs packages.
    pub fn install_multi_pkg(&mut self, ids: Vec<String>) -> (e: Effect)
        ensures
            final(self)@ == old(self)@.acting(Verb::Install, ids.deep_view()),
            e.deep_view() == EffectModel::Start(Verb::Install.job(ids.deep_view())),
    {
        self.act(Verb::Install, ids)
    }

    /// Shows the details of packages.
    pub fn show_multi_pkg(&mut self, ids: Vec<String>) -> (e: Effect)
        ensures
            final(self)@ == old(self)@.acting(Verb::Show, ids.deep_view()),
            e.deep_view() == EffectModel::Start(Verb::Show.job(ids.deep_view())),
    {
        self.act(Verb::Show, ids)
    }

    /// Upgrades packages.
    pub fn upgrade_multi_pkg(&mut self, ids: Vec<String>) -> (e: Effect)
        ensures
            final(self)@ == old(self)@.acting(Verb::Upgrade, ids.deep_view()),
            e.deep_view() == EffectModel::Start(Verb::Upgrade.job(ids.deep_view())),
    {
        self.act(Verb::Upgrade, ids)
    }

    /// Uninstalls packages.
    pub fn remove_multi_pkg(&mut self, ids: Vec<String>) -> (e: Effect)
        ensures
            final(self)@ == old(self)@.acting(Verb::Uninstall, ids.deep_view()),
            e.deep_view() == EffectModel::Start(Verb::Uninstall.job(ids.deep_view())),
    {
        self.act(Verb::Uninstall, ids)
    }

    /// Upgrades every package.
    pub fn upgrade_all(&mut self) -> (e: Effect)
        ensures
            final(self)@ == old(self)@.upgrading_all(),
            e.deep_view() == EffectModel::Start(seq![StepModel::UpgradeAll, done()]),
    {
        self.wait_for(text::copy_of("winget upgrade --all --include-unknown"));
        self.last_command = Some(
            text::copy_of(
                "winget upgrade --all --include-unknown --silent --accept-package-agreements --accept-source-agreements",
            ),
        );
        let mut steps: Vec<Step> = Vec::new();
        steps.push(Step::UpgradeAll);
        push_done(&mut steps);
        assert(steps.deep_view() =~= seq![StepModel::UpgradeAll, done()]);
        Effect::Start(steps)
    }

    /// Installs packages and runs scripts of the manifest.
    pub fn install_json_multi(&mut self, ids: Vec<String>) -> (e: Effect)
        ensures
            final(self)@ == old(self)@.acting_on_entries(EntryVerb::Install, ids.deep_view()),
            e.deep_view() == EffectModel::Start(
                EntryVerb::Install.job(old(self)@.packages, ids.deep_view()),
            ),
    {
        let number: String = text::to_decimal(ids.len());
        self.stream(text::between("install/run ", number.as_str(), " apps/scripts"));
        if ids.len() > 0 {
            if let Some(p) = find_entry(&self.packages, ids[0].as_str()) {
                let seed: String = seed_of(p);
                self.last_command = Some(seed);
            }
        }
        Effect::Start(EntryVerb::Install.plan(&self.packages, &ids))
    }

    /// Uninstalls packages of the manifest.
    pub fn remove_json_multi(&mut self, ids: Vec<String>) -> (e: Effect)
        ensures
            final(self)@ == old(self)@.acting_on_entries(EntryVerb::Remove, ids.deep_view()),
            e.deep_view() == EffectModel::Start(
                EntryVerb::Remove.job(old(self)@.packages, ids.deep_view()),
            ),
    {
        let number: String = text::to_decimal(ids.len());
        self.stream(text::between("uninstall/remove ", number.as_str(), " apps/scripts"));
        Effect::Start(EntryVerb::Remove.plan(&self.packages, &ids))
    }

    /// Shows the details of manifest entries.
    pub fn show_json_package(&mut self, ids: Vec<String>) -> (e: Effect)
        ensures
            final(self)@ == old(self)@.acting_on_entries(EntryVerb::Show, ids.deep_view()),
            e.deep_view() == EffectModel::Start(
                EntryVerb::Show.job(old(self)@.packages, ids.deep_view()),
            ),
    {
        let number: String = text::to_decimal(ids.len());
        self.stream(text::between("show ", number.as_str(), " apps/scripts"));
        Effect::Start(EntryVerb::Show.plan(&self.packages, &ids))
    }

    /// Lists the installed packages again.
    pub fn refresh_installed(&mut self) -> (e: Effect)
        ensures
            final(self)@ == old(self)@.waiting_for("winget list --refresh"@),
            e.deep_view() == EffectModel::Start(seq![ask(QueryModel::Installed), done()]),
    {
        self.wait_for(text::copy_of("winget list --refresh"));
        let mut steps: Vec<Step> = Vec::new();
        steps.push(Step::Ask(Query::Installed));
        push_done(&mut steps);
        assert(steps.deep_view() =~= seq![ask(QueryModel::Installed), done()]);
        Effect::Start(steps)
    }

    /// Records the exact command line last run, so `[c]` can seed its editor.
    pub fn set_last_command(&mut self, parts: &Vec<String>)
        ensures
            final(self)@ == (AppModel {
                last_command: Some(text::joined(parts.deep_view(), " "@)),
                ..old(self)@
            }),
    {
        self.last_command = Some(text::join(parts, " "));
    }

    /// Runs an arbitrary command line typed in the `[c]` editor, streaming its
    /// output, then refreshes the installed / upgrade lists.
    pub fn run_manual_command(&mut self, line: String) -> (e: Effect)
        ensures
            final(self)@ == old(self)@.running(line@),
            e.deep_view() == manual_effect(line@),
    {
        let argv: Vec<String> = command_line::parse_command_line(line.as_str());
        assert(argv.deep_view().len() == argv@.len());
        if argv.len() == 0 {
            return Effect::Nothing;
        }
        self.last_command = Some(line.clone());
        self.stream(line);
        let joined: String = text::join(&argv, " ");
        let mut steps: Vec<Step> = Vec::new();
        push_line(&mut steps, text::between("--- ", joined.as_str(), " ---"));
        let args: Vec<String> = texts_from(&argv, 1);
        list::add_item(&mut steps, Step::Run { program: argv[0].clone(), args });
        push_ask(&mut steps, Query::Installed);
        push_ask(&mut steps, Query::Upgradable);
        push_done(&mut steps);
        assert(EffectModel::Start(steps.deep_view()) =~= manual_effect(line@));
        Effect::Start(steps)
    }
}

fn seed_of(p: &JsonPackage) -> (s: String)
    ensures
        s@ == entry_seed(p.deep_view()),
{
    if p.is_script {
        match &p.command {
            Some(argv) => text::join(argv, " "),
            None => {
                let empty: String = String::new();
                assert(empty@ =~= text::joined(Seq::<Seq<char>>::empty(), " "@));
                empty
            },
        }
    } else {
        let args: Vec<String> = p.install_args();
        let joined: String = text::join(&args, " ");
        text::concat("winget ", joined.as_str())
    }
}

// ---------------------------------------------------------------------------
// Laws
// ---------------------------------------------------------------------------

/// The programs that a job runs, in order.
pub open spec fn runs(job: Seq<StepModel>) -> Seq<StepModel> {
    job.filter(|s: StepModel| s is Run)
}

proof fn lemma_no_runs(steps: Seq<StepModel>)
    requires
        forall|i: int| 0 <= i < steps.len() ==> !(#[trigger] steps[i] is Run),
    ensures
        runs(steps) == Seq::<StepModel>::empty(),
    decreases steps.len(),
{
    reveal(Seq::filter);
    if steps.len() > 0 {
        let init = steps.drop_last();
        assert forall|i: int| 0 <= i < init.len() implies !(#[trigger] init[i] is Run) by {
            assert(init[i] == steps[i]);
        }
        lemma_no_runs(init);
        assert(!(steps[steps.len() - 1] is Run));
    }
}

proof fn lemma_runs_of_both(a: Seq<StepModel>, b: Seq<StepModel>)
    ensures
        runs(a + b) == runs(a) + runs(b),
{
    Seq::filter_distributes_over_add(a, b, |s: StepModel| s is Run);
}

proof fn lemma_one_run(before: Seq<StepModel>, run: StepModel, after: Seq<StepModel>)
    requires
        run is Run,
        forall|i: int| 0 <= i < before.len() ==> !(#[trigger] before[i] is Run),
        forall|i: int| 0 <= i < after.len() ==> !(#[trigger] after[i] is Run),
    ensures
        runs(before + seq![run] + after) == seq![run],
{
    lemma_no_runs(before);
    lemma_no_runs(after);
    lemma_runs_of_both(before, seq![run]);
    lemma_runs_of_both(before + seq![run], after);
    let e = Seq::<StepModel>::empty();
    e.lemma_filter_push(run, |s: StepModel| s is Run);
    e.lemma_filter_len(|s: StepModel| s is Run);
    assert(e.push(run) =~= seq![run]);
    assert(e + seq![run] + e =~= seq![run]);
}

proof fn lemma_package_steps(verb: Verb, ids: Seq<Seq<char>>)
    ensures
        ({
            let body = list::concatenated(ids.map_values(|id: Seq<char>| verb.steps(id)));
            &&& body.len() == 3 * ids.len()
            &&& forall|k: int|
                0 <= k < ids.len() ==> body[3 * k] == line(
                    heading(verb.announcement(), #[trigger] ids[k]),
                ) && body[3 * k + 1] == winget(verb.command(ids[k])) && body[3 * k + 2] == blank()
            &&& runs(body).len() == ids.len()
            &&& forall|k: int|
                0 <= k < ids.len() ==> runs(body)[k] == winget(verb.command(#[trigger] ids[k]))
        }),
    decreases ids.len(),
{
    let f = |id: Seq<char>| verb.steps(id);
    let body = list::concatenated(ids.map_values(f));
    if ids.len() == 0 {
        lemma_no_runs(body);
    } else {
        let init = ids.drop_last();
        let id = ids.last();
        lemma_package_steps(verb, init);
        assert(ids.map_values(f).drop_last() =~= init.map_values(f));
        let rest = list::concatenated(init.map_values(f));
        assert(body == rest + verb.steps(id));
        lemma_steps_runs(verb, id);
        lemma_runs_of_both(rest, verb.steps(id));
        assert forall|k: int| 0 <= k < ids.len() implies body[3 * k] == line(
            heading(verb.announcement(), #[trigger] ids[k]),
        ) && body[3 * k + 1] == winget(verb.command(ids[k])) && body[3 * k + 2] == blank()
            && runs(body)[k] == winget(verb.command(ids[k])) by {
            if k < init.len() {
                assert(init[k] == ids[k]);
                assert(body[3 * k] == rest[3 * k]);
                assert(body[3 * k + 1] == rest[3 * k + 1]);
                assert(body[3 * k + 2] == rest[3 * k + 2]);
            }
        }
    }
}

/// A job on packages runs `winget` once for each id and nothing else, in the
/// order of the ids, each time with the verb's arguments for that id.
pub proof fn every_package_is_dealt_with_once(verb: Verb, ids: Seq<Seq<char>>)
    ensures
        runs(verb.job(ids)).len() == ids.len(),
        forall|k: int|
            0 <= k < ids.len() ==> runs(verb.job(ids))[k] == (StepModel::Run {
                program: "winget"@,
                args: verb.command(#[trigger] ids[k]),
            }),
        forall|k: int|
            0 <= k < ids.len() ==> runs(verb.job(ids))[k] == (StepModel::Run {
                program: "winget"@,
                args: match verb {
                    Verb::Install => seq![
                        "install"@,
                        "--exact"@,
                        #[trigger] ids[k],
                        "--silent"@,
                        "--accept-package-agreements"@,
                        "--accept-source-agreements"@,
                        "--scope"@,
                        "machine"@,
                    ],
                    Verb::Show => seq!["show"@, ids[k], "--accept-source-agreements"@],
                    Verb::Upgrade => seq![
                        "upgrade"@,
                        "--exact"@,
                        ids[k],
                        "--silent"@,
                        "--accept-package-agreements"@,
                        "--accept-source-agreements"@,
                    ],
                    Verb::Uninstall => seq![
                        "uninstall"@,
                        "--exact"@,
                        ids[k],
                        "--silent"@,
                        "--accept-source-agreements"@,
                    ],
                },
            }),
{
    lemma_package_steps(verb, ids);
    let body = list::concatenated(ids.map_values(|id: Seq<char>| verb.steps(id)));
    lemma_no_runs(verb.tail());
    lemma_runs_of_both(body, verb.tail());
    assert(runs(verb.job(ids)) =~= runs(body));
}

/// What a job on packages reports around its runs: before the run for an id a
/// line that names verb and id, behind it an empty line, and when all is done the
/// lists that the verb may have changed are asked for again, before the one
/// report that ends the wait.
pub proof fn runs_are_announced_and_lists_refreshed(verb: Verb, ids: Seq<Seq<char>>)
    ensures
        forall|k: int|
            0 <= k < ids.len() ==> verb.job(ids)[3 * k] == StepModel::Report(
                ActionResultModel::OutputLine(
                    (match verb {
                        Verb::Install => "--- install "@,
                        Verb::Show => "--- "@,
                        Verb::Upgrade => "--- upgrade "@,
                        Verb::Uninstall => "--- uninstall "@,
                    }) + #[trigger] ids[k] + " ---"@,
                ),
            ) && verb.job(ids)[3 * k + 1] is Run && verb.job(ids)[3 * k + 2] == StepModel::Report(
                ActionResultModel::OutputLine(Seq::empty()),
            ),
        verb.job(ids).len() >= 3 * ids.len(),
        verb.job(ids).skip(3 * ids.len() as int) == (match verb {
            Verb::Install => seq![
                StepModel::Ask(QueryModel::Installed),
                StepModel::Ask(QueryModel::Upgradable),
                StepModel::Report(ActionResultModel::CommandDone),
            ],
            Verb::Show => seq![StepModel::Report(ActionResultModel::CommandDone)],
            Verb::Upgrade => seq![
                StepModel::Ask(QueryModel::Upgradable),
                StepModel::Ask(QueryModel::Installed),
                StepModel::Report(ActionResultModel::CommandDone),
            ],
            Verb::Uninstall => seq![
                StepModel::Ask(QueryModel::Installed),
                StepModel::Report(ActionResultModel::CommandDone),
            ],
        }),
{
    lemma_package_steps(verb, ids);
    let body = list::concatenated(ids.map_values(|id: Seq<char>| verb.steps(id)));
    assert(verb.job(ids) == body + verb.tail());
    assert(verb.job(ids).skip(3 * ids.len() as int) =~= verb.tail());
    assert forall|k: int| 0 <= k < ids.len() implies verb.job(ids)[3 * k] == line(
        heading(verb.announcement(), #[trigger] ids[k]),
    ) && verb.job(ids)[3 * k + 1] is Run && verb.job(ids)[3 * k + 2] == blank() by {
        assert(body[3 * k] == line(heading(verb.announcement(), ids[k])));
        assert(verb.job(ids)[3 * k] == body[3 * k]);
        assert(verb.job(ids)[3 * k + 1] == body[3 * k + 1]);
        assert(verb.job(ids)[3 * k + 2] == body[3 * k + 2]);
    }
}

/// Installing a script runs its program with all of its arguments, once, and
/// nothing without a command; installing a package runs `winget` once with the
/// arguments of its entry.
pub proof fn an_entry_is_run_as_it_says(p: JsonPackageModel)
    ensures
        p.is_script ==> runs(EntryVerb::Install.entry_steps(p)) == (match p.command {
            Some(argv) => if argv.len() > 0 {
                seq![StepModel::Run { program: argv[0], args: argv.skip(1) }]
            } else {
                Seq::empty()
            },
            None => Seq::empty(),
        }),
        !p.is_script ==> runs(EntryVerb::Install.entry_steps(p)) == seq![
            StepModel::Run { program: "winget"@, args: p.install_args() },
        ],
{
    if p.is_script {
        lemma_script_runs(p);
    } else {
        lemma_install_runs(p);
    }
}

/// Removing a script, or showing it, runs nothing.
pub proof fn scripts_are_run_by_installing_alone(p: JsonPackageModel)
    requires
        p.is_script,
    ensures
        runs(EntryVerb::Remove.entry_steps(p)) == Seq::<StepModel>::empty(),
        runs(EntryVerb::Show.entry_steps(p)) == Seq::<StepModel>::empty(),
{
    lemma_no_runs(EntryVerb::Remove.entry_steps(p));
    lemma_no_runs(EntryVerb::Show.entry_steps(p));
}

/// Removing a package of the manifest, or showing it, is what removing or showing
/// the package with its id is anywhere.
pub proof fn packages_of_a_manifest_are_packages(p: JsonPackageModel)
    requires
        !p.is_script,
    ensures
        runs(EntryVerb::Remove.entry_steps(p)) == runs(Verb::Uninstall.job(seq![p.id])),
        runs(EntryVerb::Show.entry_steps(p)) == runs(Verb::Show.job(seq![p.id])),
{
    lemma_job_of_one(Verb::Uninstall, p.id);
    lemma_job_of_one(Verb::Show, p.id);
}

proof fn lemma_job_of_one(verb: Verb, id: Seq<char>)
    ensures
        runs(verb.job(seq![id])) == runs(verb.steps(id)),
{
    let f = |id: Seq<char>| verb.steps(id);
    assert(seq![id].map_values(f) =~= Seq::empty().push(verb.steps(id)));
    list::lemma_concatenated_push(Seq::empty(), verb.steps(id));
    assert(list::concatenated(seq![id].map_values(f)) =~= verb.steps(id));
    lemma_no_runs(verb.tail());
    lemma_runs_of_both(verb.steps(id), verb.tail());
    assert(runs(verb.steps(id)) + Seq::<StepModel>::empty() =~= runs(verb.steps(id)));
}

proof fn lemma_script_runs(p: JsonPackageModel)
    requires
        p.is_script,
    ensures
        runs(install_entry(p)) == (match p.command {
            Some(argv) => if argv.len() > 0 {
                seq![StepModel::Run { program: argv[0], args: argv.skip(1) }]
            } else {
                Seq::empty()
            },
            None => Seq::empty(),
        }),
{
    let head = seq![line(heading("--- run script: "@, p.name))];
    match p.command {
        Some(argv) if argv.len() > 0 => {
            let run = StepModel::Run { program: argv[0], args: argv.skip(1) };
            lemma_one_run(head, run, seq![blank()]);
            assert(install_entry(p) =~= head + seq![run] + seq![blank()]);
        },
        _ => {
            assert(install_entry(p) =~= head + seq![blank()]);
            lemma_no_runs(install_entry(p));
        },
    }
}

proof fn lemma_install_runs(p: JsonPackageModel)
    requires
        !p.is_script,
    ensures
        runs(install_entry(p)) == seq![winget(p.install_args())],
{
    let head = seq![line(heading("--- winget "@, text::joined(p.install_args(), " "@)))];
    lemma_one_run(head, winget(p.install_args()), seq![blank()]);
    assert(install_entry(p) =~= head + seq![winget(p.install_args())] + seq![blank()]);
}

proof fn lemma_steps_runs(verb: Verb, id: Seq<char>)
    ensures
        runs(verb.steps(id)) == seq![winget(verb.command(id))],
{
    let head = seq![line(heading(verb.announcement(), id))];
    lemma_one_run(head, winget(verb.command(id)), seq![blank()]);
    assert(head + seq![winget(verb.command(id))] + seq![blank()] =~= verb.steps(id));
}

/// What is said of an entry: a line that names it comes first and an empty line
/// last; of a script that is shown its whole command stands between.
pub proof fn entries_are_announced(verb: EntryVerb, p: JsonPackageModel)
    ensures
        ({
            let steps = verb.entry_steps(p);
            let joined = text::joined(p.install_args(), " "@);
            &&& steps.len() >= 2
            &&& steps[0] == StepModel::Report(
                ActionResultModel::OutputLine(
                    match verb {
                        EntryVerb::Install => if p.is_script {
                            "--- run script: "@ + p.name + " ---"@
                        } else {
                            "--- winget "@ + joined + " ---"@
                        },
                        EntryVerb::Remove => if p.is_script {
                            "--- remove/uninstall not supported for script: "@ + p.name + " ---"@
                        } else {
                            "--- uninstall "@ + p.id + " ---"@
                        },
                        EntryVerb::Show => if p.is_script {
                            "--- script: "@ + p.name + " ---"@
                        } else {
                            "--- "@ + p.id + " ---"@
                        },
                    },
                ),
            )
            &&& steps.last() == StepModel::Report(ActionResultModel::OutputLine(Seq::empty()))
            &&& steps.len() == 2 + (if !p.is_script || (verb == EntryVerb::Install && p.command
                is Some && p.command->0.len() > 0) || (verb == EntryVerb::Show && p.command
                is Some) {
                1int
            } else {
                0int
            })
            &&& verb == EntryVerb::Show && p.is_script && p.command is Some ==> steps[1]
                == StepModel::Report(
                ActionResultModel::OutputLine(
                    "Command: "@ + text::joined(p.command->0, " "@),
                ),
            )
        }),
{
}

/// Id by id: one id more adds, before what ends the job, the steps of the first
/// entry with that id, and nothing if no entry has it. Without ids the job only
/// asks for the lists again, where something may have changed, and is done.
pub proof fn entries_are_dealt_with_id_by_id(
    verb: EntryVerb,
    packages: Seq<JsonPackageModel>,
    ids: Seq<Seq<char>>,
    id: Seq<char>,
    i: int,
)
    ensures
        ({
            let tail = match verb {
                EntryVerb::Show => seq![StepModel::Report(ActionResultModel::CommandDone)],
                _ => seq![
                    StepModel::Ask(QueryModel::Installed),
                    StepModel::Ask(QueryModel::Upgradable),
                    StepModel::Report(ActionResultModel::CommandDone),
                ],
            };
            let before = verb.job(packages, ids);
            let after = verb.job(packages, ids.push(id));
            let done = before.take(before.len() - tail.len());
            &&& before.len() >= tail.len() && before == done + tail
            &&& 0 <= i < packages.len() && packages[i].id == id && (forall|j: int|
                0 <= j < i ==> #[trigger] packages[j].id != id) ==> after == done
                + verb.entry_steps(packages[i]) + tail
            &&& (forall|j: int| 0 <= j < packages.len() ==> #[trigger] packages[j].id != id)
                ==> after == before
            &&& verb.job(packages, Seq::empty()) == tail
        }),
{
    let f = |id: Seq<char>| verb.steps(packages, id);
    let body = list::concatenated(ids.map_values(f));
    let before = verb.job(packages, ids);
    assert(ids.push(id).map_values(f) =~= ids.map_values(f).push(verb.steps(packages, id)));
    list::lemma_concatenated_push(ids.map_values(f), verb.steps(packages, id));
    assert(before.take(before.len() - verb.tail().len()) =~= body);
    if 0 <= i < packages.len() && packages[i].id == id && (forall|j: int|
        0 <= j < i ==> #[trigger] packages[j].id != id) {
        assert(first_at(packages, id, i));
        let k = choose|k: int| first_at(packages, id, k);
        assert(k == i) by {
            if k < i {
                assert(packages[k].id != id);
            }
            if i < k {
                assert(packages[i].id != id);
            }
        }
    }
    if forall|j: int| 0 <= j < packages.len() ==> #[trigger] packages[j].id != id {
        assert(body + Seq::<StepModel>::empty() =~= body);
    }
    assert(Seq::<Seq<char>>::empty().map_values(f) =~= Seq::<Seq<StepModel>>::empty());
    assert(verb.job(packages, Seq::empty()) =~= verb.tail());
}

/// Acting on packages empties the output, says in the command bar what is done to
/// how many packages, and waits. The command for the first package, as it is run,
/// seeds the editor, except when packages are only shown. Nothing else changes.
pub proof fn acting_on_packages_shows_what_is_done(m: AppModel, verb: Verb, ids: Seq<Seq<char>>)
    ensures
        m.acting(verb, ids) == (AppModel {
            busy: true,
            command_output: Seq::empty(),
            output_scroll: None,
            current_command: Some(
                (match verb {
                    Verb::Install => "winget install "@,
                    Verb::Show => "winget show "@,
                    Verb::Upgrade => "winget upgrade "@,
                    Verb::Uninstall => "winget uninstall "@,
                }) + text::decimal(ids.len()) + " packages"@,
            ),
            last_command: m.acting(verb, ids).last_command,
            ..m
        }),
        verb == Verb::Show || ids.len() == 0 ==> m.acting(verb, ids).last_command
            == m.last_command,
        verb != Verb::Show && ids.len() > 0 ==> (runs(verb.job(ids))[0] matches StepModel::Run {
            program,
            args,
        } && m.acting(verb, ids).last_command == Some(
            text::joined(seq![program] + args, " "@),
        )),
{
    every_package_is_dealt_with_once(verb, ids);
    if ids.len() > 0 {
        let first = ids[0];
        assert(runs(verb.job(ids))[0] == winget(verb.command(first))) by {
            assert(verb.command(first) =~= verb.command(ids[0]));
        }
    }
}

/// Acting on manifest entries empties the output, says in the command bar what is
/// done to how many entries, and waits. Installing seeds the editor with the
/// command of the first entry: the whole argv of a script, or `winget` with all
/// arguments of a package. Nothing else changes.
pub proof fn acting_on_entries_shows_what_is_done(
    m: AppModel,
    verb: EntryVerb,
    ids: Seq<Seq<char>>,
    i: int,
)
    ensures
        m.acting_on_entries(verb, ids) == (AppModel {
            busy: true,
            command_output: Seq::empty(),
            output_scroll: None,
            current_command: Some(
                (match verb {
                    EntryVerb::Install => "install/run "@,
                    EntryVerb::Remove => "uninstall/remove "@,
                    EntryVerb::Show => "show "@,
                }) + text::decimal(ids.len()) + " apps/scripts"@,
            ),
            last_command: m.acting_on_entries(verb, ids).last_command,
            ..m
        }),
        verb != EntryVerb::Install || ids.len() == 0 || (forall|j: int|
            0 <= j < m.packages.len() ==> #[trigger] m.packages[j].id != ids[0])
            ==> m.acting_on_entries(verb, ids).last_command == m.last_command,
        verb == EntryVerb::Install && ids.len() > 0 && 0 <= i < m.packages.len()
            && m.packages[i].id == ids[0] && (forall|j: int|
            0 <= j < i ==> #[trigger] m.packages[j].id != ids[0]) ==> m.acting_on_entries(
            verb,
            ids,
        ).last_command == Some(
            if !m.packages[i].is_script {
                "winget "@ + text::joined(m.packages[i].install_args(), " "@)
            } else if m.packages[i].command is Some {
                text::joined(m.packages[i].command->0, " "@)
            } else {
                Seq::empty()
            },
        ),
{
    if ids.len() > 0 && 0 <= i < m.packages.len() && m.packages[i].id == ids[0] && (forall|j: int|
        0 <= j < i ==> #[trigger] m.packages[j].id != ids[0]) {
        assert(first_at(m.packages, ids[0], i));
        let k = choose|k: int| first_at(m.packages, ids[0], k);
        assert(k == i) by {
            if k < i {
                assert(m.packages[k].id != ids[0]);
            }
            if i < k {
                assert(m.packages[i].id != ids[0]);
            }
        }
    }
}

/// A search asks `winget` for the whole query and waits, and the results shown so
/// far stay until the answer comes. An empty query asks for nothing and forgets
/// them.
pub proof fn a_search_asks_for_the_query(m: AppModel)
    ensures
        m.filter_query.len() > 0 ==> m.search_effect() == EffectModel::Start(
            seq![
                StepModel::Ask(QueryModel::Search(m.filter_query)),
                StepModel::Report(ActionResultModel::CommandDone),
            ],
        ) && m.searching() == (AppModel {
            busy: true,
            current_command: Some("winget search \""@ + m.filter_query + "\""@),
            ..m
        }),
        m.filter_query.len() == 0 ==> m.search_effect() == EffectModel::Nothing && m.searching()
            == (AppModel {
            search_results: Seq::empty(),
            search_sel: SelectionModel { cursor: 0, marked: m.search_sel.marked },
            ..m
        }),
{
}

/// Upgrading all waits for it and seeds the editor with the command in full.
pub proof fn upgrading_all_shows_what_is_done(m: AppModel)
    ensures
        m.upgrading_all() == (AppModel {
            busy: true,
            current_command: Some("winget upgrade --all --include-unknown"@),
            last_command: Some(
                "winget upgrade --all --include-unknown --silent --accept-package-agreements --accept-source-agreements"@,
            ),
            ..m
        }),
{
}

/// A command line typed by hand is run by its words: the first is the program,
/// the others its arguments. It is announced, remembered as it was typed, and the
/// lists are asked for again behind it. A line without a word changes and runs
/// nothing.
pub proof fn a_typed_line_is_run_by_its_words(m: AppModel, line: Seq<char>)
    ensures
        ({
            let words = command_line::argv(line);
            &&& words.len() == 0 ==> m.running(line) == m && manual_effect(line)
                == EffectModel::Nothing
            &&& words.len() > 0 ==> m.running(line) == (AppModel {
                busy: true,
                current_command: Some(line),
                last_command: Some(line),
                command_output: Seq::empty(),
                output_scroll: None,
                ..m
            }) && manual_effect(line) == EffectModel::Start(
                seq![
                    StepModel::Report(
                        ActionResultModel::OutputLine(
                            "--- "@ + text::joined(words, " "@) + " ---"@,
                        ),
                    ),
                    StepModel::Run { program: words[0], args: words.skip(1) },
                    StepModel::Ask(QueryModel::Installed),
                    StepModel::Ask(QueryModel::Upgradable),
                    StepModel::Report(ActionResultModel::CommandDone),
                ],
            )
        }),
{
}

/// Listing the installed packages again only waits, and says so.
pub proof fn refreshing_waits_and_nothing_else(m: AppModel, shown: Seq<char>)
    ensures
        m.waiting_for(shown) == (AppModel { busy: true, current_command: Some(shown), ..m }),
{
}

} // verus!
