//! What background work does and what it reports back.

use vstd::prelude::*;

use crate::list;
use crate::package::{
    UpgradablePackage, UpgradablePackageModel, WingetPackage, WingetPackageModel,
};
use crate::text;
use crate::winget;

verus! {

/// A message sent back from a background thread when a blocking winget command
/// finishes.
#[derive(Debug)]
pub enum ActionResult {
    SearchResults(Vec<WingetPackage>),
    UpgradeList(Vec<UpgradablePackage>),
    /// First `winget list` at startup (quiet: no command-bar / output noise).
    InitialInstalled(Vec<WingetPackage>),
    /// First `winget upgrade` at startup (quiet).
    InitialUpdates(Vec<UpgradablePackage>),
    /// Result of the startup admin-rights check.
    Elevation(bool),
    SetCommand { command: String, output: String },
    SetError { command: String, error: String },
    RefreshInstalled(Vec<WingetPackage>),
    OutputLine(String),
    CommandDone,
}

/// A list that `winget` is asked for.
#[derive(Debug)]
pub enum Query {
    /// What is installed.
    Installed,
    /// What can be upgraded.
    Upgradable,
    /// What is installed, for the first time.
    FirstInstalled,
    /// What can be upgraded, for the first time.
    FirstUpgradable,
    /// What a search finds.
    Search(String),
}

/// One step of background work. The steps of a job are carried out in order.
#[derive(Debug)]
pub enum Step {
    /// Report this.
    Report(ActionResult),
    /// Run a program; report each line that it writes as an output line.
    Run { program: String, args: Vec<String> },
    /// Ask `winget` for a list; report what `answers` makes of it.
    Ask(Query),
    /// Upgrade every package; go on with what `after_upgrade_all` says.
    UpgradeAll,
    /// Find out whether this process has administrative rights; report it.
    CheckElevation,
    /// Refresh the package sources; go on with what `after_source_update` says.
    UpdateSources,
}

/// What a key press asks for, besides the new state.
#[derive(Debug)]
pub enum Effect {
    Nothing,
    /// Read the manifest file with this number and hand its packages to
    /// `App::manifest_loaded`.
    LoadFile(usize),
    /// Carry out a job in the background.
    Start(Vec<Step>),
}

// ---------------------------------------------------------------------------
// Models
// ---------------------------------------------------------------------------

/// What an [`ActionResult`] stands for.
#[verifier::ext_equal]
pub enum ActionResultModel {
    SearchResults(Seq<WingetPackageModel>),
    UpgradeList(Seq<UpgradablePackageModel>),
    InitialInstalled(Seq<WingetPackageModel>),
    InitialUpdates(Seq<UpgradablePackageModel>),
    Elevation(bool),
    SetCommand { command: Seq<char>, output: Seq<char> },
    SetError { command: Seq<char>, error: Seq<char> },
    RefreshInstalled(Seq<WingetPackageModel>),
    OutputLine(Seq<char>),
    CommandDone,
}

/// What a [`Query`] stands for.
#[verifier::ext_equal]
pub enum QueryModel {
    Installed,
    Upgradable,
    FirstInstalled,
    FirstUpgradable,
    Search(Seq<char>),
}

/// What a [`Step`] stands for.
#[verifier::ext_equal]
pub enum StepModel {
    Report(ActionResultModel),
    Run { program: Seq<char>, args: Seq<Seq<char>> },
    Ask(QueryModel),
    UpgradeAll,
    CheckElevation,
    UpdateSources,
}

/// What an [`Effect`] stands for.
#[verifier::ext_equal]
pub enum EffectModel {
    Nothing,
    LoadFile(usize),
    Start(Seq<StepModel>),
}

impl DeepView for ActionResult {
    type V = ActionResultModel;

    open spec fn deep_view(&self) -> ActionResultModel {
        match *self {
            ActionResult::SearchResults(l) => ActionResultModel::SearchResults(l.deep_view()),
            ActionResult::UpgradeList(l) => ActionResultModel::UpgradeList(l.deep_view()),
            ActionResult::InitialInstalled(l) => ActionResultModel::InitialInstalled(l.deep_view()),
            ActionResult::InitialUpdates(l) => ActionResultModel::InitialUpdates(l.deep_view()),
            ActionResult::Elevation(e) => ActionResultModel::Elevation(e),
            ActionResult::SetCommand { command, output } => ActionResultModel::SetCommand {
                command: command@,
                output: output@,
            },
            ActionResult::SetError { command, error } => ActionResultModel::SetError {
                command: command@,
                error: error@,
            },
            ActionResult::RefreshInstalled(l) => ActionResultModel::RefreshInstalled(l.deep_view()),
            ActionResult::OutputLine(line) => ActionResultModel::OutputLine(line@),
            ActionResult::CommandDone => ActionResultModel::CommandDone,
        }
    }
}

impl DeepView for Query {
    type V = QueryModel;

    open spec fn deep_view(&self) -> QueryModel {
        match *self {
            Query::Installed => QueryModel::Installed,
            Query::Upgradable => QueryModel::Upgradable,
            Query::FirstInstalled => QueryModel::FirstInstalled,
            Query::FirstUpgradable => QueryModel::FirstUpgradable,
            Query::Search(query) => QueryModel::Search(query@),
        }
    }
}

impl DeepView for Step {
    type V = StepModel;

    open spec fn deep_view(&self) -> StepModel {
        match *self {
            Step::Report(result) => StepModel::Report(result.deep_view()),
            Step::Run { program, args } => StepModel::Run {
                program: program@,
                args: args.deep_view(),
            },
            Step::Ask(query) => StepModel::Ask(query.deep_view()),
            Step::UpgradeAll => StepModel::UpgradeAll,
            Step::CheckElevation => StepModel::CheckElevation,
            Step::UpdateSources => StepModel::UpdateSources,
        }
    }
}

impl DeepView for Effect {
    type V = EffectModel;

    open spec fn deep_view(&self) -> EffectModel {
        match *self {
            Effect::Nothing => EffectModel::Nothing,
            Effect::LoadFile(i) => EffectModel::LoadFile(i),
            Effect::Start(job) => EffectModel::Start(job.deep_view()),
        }
    }
}

// ---------------------------------------------------------------------------
// Asking winget
// ---------------------------------------------------------------------------

/// The arguments of a query.
pub open spec fn query_command(query: QueryModel) -> Seq<Seq<char>> {
    match query {
        QueryModel::Installed | QueryModel::FirstInstalled => winget::list_command(),
        QueryModel::Upgradable | QueryModel::FirstUpgradable => winget::upgrade_list_command(),
        QueryModel::Search(q) => winget::search_command(q),
    }
}

/// The arguments to run `winget` with for a query.
pub fn query_args(query: &Query) -> (args: Vec<String>)
    ensures
        args.deep_view() == query_command(query.deep_view()),
{
    match query {
        Query::Installed | Query::FirstInstalled => winget::list_args(),
        Query::Upgradable | Query::FirstUpgradable => winget::upgrade_list_args(),
        Query::Search(q) => winget::search_args(q.as_str()),
    }
}

/// The command line that a search is shown as.
pub open spec fn search_shown(query: Seq<char>) -> Seq<char> {
    "winget search \""@ + query + "\""@
}

/// The command line that a search is shown as.
pub fn search_title(query: &str) -> (s: String)
    ensures
        s@ == search_shown(query@),
{
    text::between("winget search \"", query, "\"")
}

/// Name and id of a package, on a line of its own.
pub open spec fn found_line(p: WingetPackageModel) -> Seq<char> {
    p.name + "  "@ + p.id + "\n"@
}

/// A line for each package found.
pub open spec fn found_lines(results: Seq<WingetPackageModel>) -> Seq<char> {
    list::concatenated(results.map_values(|p: WingetPackageModel| found_line(p)))
}

/// What a search reports.
pub open spec fn search_reports(
    query: Seq<char>,
    results: Seq<WingetPackageModel>,
) -> Seq<ActionResultModel> {
    seq![
        ActionResultModel::SearchResults(results),
        ActionResultModel::SetCommand {
            command: search_shown(query),
            output: text::trimmed(found_lines(results)),
        },
    ]
}

/// What is reported of the answer to a query.
pub open spec fn reports(query: QueryModel, stdout: Option<Seq<u8>>) -> Seq<ActionResultModel> {
    match query {
        QueryModel::Installed => seq![
            ActionResultModel::RefreshInstalled(winget::packages_listed(stdout)),
        ],
        QueryModel::FirstInstalled => seq![
            ActionResultModel::InitialInstalled(winget::packages_listed(stdout)),
        ],
        QueryModel::Upgradable => seq![
            ActionResultModel::UpgradeList(winget::upgrades_listed(stdout)),
        ],
        QueryModel::FirstUpgradable => seq![
            ActionResultModel::InitialUpdates(winget::upgrades_listed(stdout)),
        ],
        QueryModel::Search(q) => search_reports(q, winget::packages_listed(stdout)),
    }
}

/// What a search for `query` reports of what it found.
pub fn after_search(query: &str, results: Vec<WingetPackage>) -> (r: Vec<ActionResult>)
    ensures
        r.deep_view() == search_reports(query@, results.deep_view()),
{
    let ghost found = results.deep_view();
    let ghost f = |p: WingetPackageModel| found_line(p);
    let mut output: String = String::new();
    let mut i: usize = 0;
    assert(output@ =~= list::concatenated(found.map_values(f).take(0)));
    while i < results.len()
        invariant
            i <= results@.len(),
            found == results.deep_view(),
            f == (|p: WingetPackageModel| found_line(p)),
            output@ == list::concatenated(found.map_values(f).take(i as int)),
        decreases results@.len() - i,
    {
        output.append(results[i].name.as_str());
        output.append("  ");
        output.append(results[i].id.as_str());
        output.append("\n");
        proof {
            let shown = found.map_values(f);
            assert(shown.take(i + 1) =~= shown.take(i as int).push(shown[i as int]));
            list::lemma_concatenated_push(shown.take(i as int), shown[i as int]);
            assert(output@ =~= list::concatenated(shown.take(i as int)) + shown[i as int]);
        }
        i += 1;
    }
    assert(found.map_values(f).take(i as int) =~= found.map_values(f));
    let trimmed: String = text::copy_of(text::trim(output.as_str()));
    let mut r: Vec<ActionResult> = Vec::new();
    r.push(ActionResult::SearchResults(results));
    r.push(ActionResult::SetCommand { command: search_title(query), output: trimmed });
    assert(r.deep_view() =~= search_reports(query@, found));
    r
}

/// What to report of the answer to a query: what `winget` wrote to its standard
/// output, or `None` if it could not be run.
pub fn answers(query: &Query, stdout: &Option<Vec<u8>>) -> (r: Vec<ActionResult>)
    ensures
        r.deep_view() == reports(query.deep_view(), stdout.deep_view()),
{
    let mut r: Vec<ActionResult> = Vec::new();
    match query {
        Query::Search(q) => {
            return after_search(q.as_str(), winget::packages_in_output(stdout));
        },
        Query::Installed => {
            r.push(ActionResult::RefreshInstalled(winget::packages_in_output(stdout)));
        },
        Query::FirstInstalled => {
            r.push(ActionResult::InitialInstalled(winget::packages_in_output(stdout)));
        },
        Query::Upgradable => {
            r.push(ActionResult::UpgradeList(winget::upgrades_in_output(stdout)));
        },
        Query::FirstUpgradable => {
            r.push(ActionResult::InitialUpdates(winget::upgrades_in_output(stdout)));
        },
    }
    assert(r.deep_view() =~= reports(query.deep_view(), stdout.deep_view()));
    r
}

// ---------------------------------------------------------------------------
// Going on after a step
// ---------------------------------------------------------------------------

/// The command line that upgrading every package is shown as.
pub open spec fn upgrade_all_shown() -> Seq<char> {
    "winget upgrade --all --include-unknown"@
}

/// What follows upgrading every package: its output and fresh lists, or its
/// error.
pub open spec fn upgrade_all_follow_up(result: Result<Seq<char>, Seq<char>>) -> Seq<StepModel> {
    match result {
        Ok(output) => seq![
            StepModel::Report(
                ActionResultModel::SetCommand { command: upgrade_all_shown(), output },
            ),
            StepModel::Ask(QueryModel::Upgradable),
            StepModel::Ask(QueryModel::Installed),
        ],
        Err(error) => seq![
            StepModel::Report(ActionResultModel::SetError { command: upgrade_all_shown(), error }),
        ],
    }
}

/// What follows upgrading every package.
pub fn after_upgrade_all(result: Result<String, String>) -> (steps: Vec<Step>)
    ensures
        steps.deep_view() == upgrade_all_follow_up(winget::texts(result)),
{
    let mut steps: Vec<Step> = Vec::new();
    let command: String = text::copy_of("winget upgrade --all --include-unknown");
    match result {
        Ok(output) => {
            steps.push(Step::Report(ActionResult::SetCommand { command, output }));
            steps.push(Step::Ask(Query::Upgradable));
            steps.push(Step::Ask(Query::Installed));
        },
        Err(error) => {
            steps.push(Step::Report(ActionResult::SetError { command, error }));
        },
    }
    assert(steps.deep_view() =~= upgrade_all_follow_up(winget::texts(result)));
    steps
}

/// What follows refreshing the package sources: a fresh upgrade list, if it
/// succeeded.
pub open spec fn source_update_follow_up(success: bool) -> Seq<StepModel> {
    if success {
        seq![StepModel::Ask(QueryModel::Upgradable)]
    } else {
        Seq::empty()
    }
}

/// What follows refreshing the package sources.
pub fn after_source_update(success: bool) -> (steps: Vec<Step>)
    ensures
        steps.deep_view() == source_update_follow_up(success),
{
    let mut steps: Vec<Step> = Vec::new();
    if success {
        steps.push(Step::Ask(Query::Upgradable));
    }
    assert(steps.deep_view() =~= source_update_follow_up(success));
    steps
}

/// The jobs of startup, side by side: the two lists, the admin-rights check, and
/// a source update.
pub open spec fn startup_jobs() -> Seq<Seq<StepModel>> {
    seq![
        seq![StepModel::Ask(QueryModel::FirstInstalled)],
        seq![StepModel::Ask(QueryModel::FirstUpgradable)],
        seq![StepModel::CheckElevation],
        seq![StepModel::UpdateSources],
    ]
}

fn single(step: Step) -> (job: Vec<Step>)
    ensures
        job.deep_view() == seq![step.deep_view()],
{
    let mut job: Vec<Step> = Vec::new();
    job.push(step);
    assert(job.deep_view() =~= seq![step.deep_view()]);
    job
}

/// Startup work, one job per background thread: `winget list` /
/// `winget upgrade` (results as `InitialInstalled` / `InitialUpdates`), the
/// admin-rights check, and a silent `winget source update` that refreshes the
/// upgrade list once the indexes are current.
pub fn initial_load() -> (jobs: Vec<Vec<Step>>)
    ensures
        jobs.deep_view() == startup_jobs(),
{
    let mut jobs: Vec<Vec<Step>> = Vec::new();
    jobs.push(single(Step::Ask(Query::FirstInstalled)));
    jobs.push(single(Step::Ask(Query::FirstUpgradable)));
    jobs.push(single(Step::CheckElevation));
    jobs.push(single(Step::UpdateSources));
    assert(jobs.deep_view() =~= startup_jobs());
    jobs
}

// ---------------------------------------------------------------------------
// Laws
// ---------------------------------------------------------------------------

/// What `winget` is run with to answer a question: a search carries the whole
/// query, the first time a list is asked for is no different from later times.
pub proof fn questions_are_asked_in_full(query: QueryModel, q: Seq<char>)
    ensures
        query_command(QueryModel::Search(q)) == seq![
            "search"@,
            q,
            "--accept-source-agreements"@,
        ],
        query is Installed || query is FirstInstalled ==> query_command(query) == seq![
            "list"@,
            "--accept-source-agreements"@,
        ],
        query is Upgradable || query is FirstUpgradable ==> query_command(query) == seq![
            "upgrade"@,
            "--accept-source-agreements"@,
        ],
{
}

/// An answer is reported as what was asked for, with every package that was
/// listed. A search is also shown: the command line with the query and a line for
/// each package.
pub proof fn answers_report_what_was_listed(query: QueryModel, stdout: Option<Seq<u8>>)
    ensures
        query is Installed ==> reports(query, stdout) == seq![
            ActionResultModel::RefreshInstalled(winget::packages_listed(stdout)),
        ],
        query is FirstInstalled ==> reports(query, stdout) == seq![
            ActionResultModel::InitialInstalled(winget::packages_listed(stdout)),
        ],
        query is Upgradable ==> reports(query, stdout) == seq![
            ActionResultModel::UpgradeList(winget::upgrades_listed(stdout)),
        ],
        query is FirstUpgradable ==> reports(query, stdout) == seq![
            ActionResultModel::InitialUpdates(winget::upgrades_listed(stdout)),
        ],
        query matches QueryModel::Search(q) ==> reports(query, stdout) == search_reports(
            q,
            winget::packages_listed(stdout),
        ),
{
}

/// What a search reports: what it found, and then the command line with the query
/// and the lines of what was found, without white space around them.
pub proof fn a_search_reports_what_it_found(query: Seq<char>, results: Seq<WingetPackageModel>)
    ensures
        search_reports(query, results).len() == 2,
        search_reports(query, results)[0] == ActionResultModel::SearchResults(results),
        search_reports(query, results)[1] == (ActionResultModel::SetCommand {
            command: "winget search \""@ + query + "\""@,
            output: text::trimmed(found_lines(results)),
        }),
{
}

/// Package by package: one package more adds one line, with its name and its id.
pub proof fn found_packages_are_listed_line_by_line(
    results: Seq<WingetPackageModel>,
    p: WingetPackageModel,
)
    ensures
        found_lines(results.push(p)) == found_lines(results) + p.name + "  "@ + p.id + "\n"@,
        found_lines(Seq::empty()) == Seq::<char>::empty(),
{
    let f = |p: WingetPackageModel| found_line(p);
    assert(results.push(p).map_values(f) =~= results.map_values(f).push(found_line(p)));
    list::lemma_concatenated_push(results.map_values(f), found_line(p));
    assert(found_lines(results) + found_line(p) =~= found_lines(results) + p.name + "  "@ + p.id
        + "\n"@);
    assert(Seq::<WingetPackageModel>::empty().map_values(f) =~= Seq::<Seq<char>>::empty());
}

/// When every package was upgraded, what that wrote is shown and both lists are
/// asked for again; when it failed, its error is shown and nothing is asked for.
pub proof fn upgrading_all_ends_in_fresh_lists_or_an_error(s: Seq<char>)
    ensures
        upgrade_all_follow_up(Ok(s)) == seq![
            StepModel::Report(
                ActionResultModel::SetCommand {
                    command: "winget upgrade --all --include-unknown"@,
                    output: s,
                },
            ),
            StepModel::Ask(QueryModel::Upgradable),
            StepModel::Ask(QueryModel::Installed),
        ],
        upgrade_all_follow_up(Err(s)) == seq![
            StepModel::Report(
                ActionResultModel::SetError {
                    command: "winget upgrade --all --include-unknown"@,
                    error: s,
                },
            ),
        ],
        source_update_follow_up(true) == seq![StepModel::Ask(QueryModel::Upgradable)],
        source_update_follow_up(false) == Seq::<StepModel>::empty(),
{
}

} // verus!
