use wgtui::action::{
    after_search, after_source_update, after_upgrade_all, answers, initial_load, query_args,
    ActionResult, Effect, Query, Step,
};
use wgtui::key::{KeyCode, KeyEvent};
use wgtui::winget::{
    kill_args, message_of, packages_in_output, source_update_args, upgrade_all_args,
    upgrade_all_outcome, upgrades_in_output, version_args, Run,
};
use wgtui::{App, JsonPackage, Tab, UpgradablePackage, WingetPackage};

fn new_app() -> App {
    App::new(Vec::new(), Vec::new())
}

fn press(app: &mut App, c: char) -> Vec<String> {
    shown(app.handle_key(KeyEvent::plain(KeyCode::Char(c))))
}

/// A job, one text per step.
fn shown(effect: Effect) -> Vec<String> {
    match effect {
        Effect::Nothing => vec![],
        Effect::LoadFile(i) => vec![format!("load {i}")],
        Effect::Start(job) => job.iter().map(step).collect(),
    }
}

fn step(s: &Step) -> String {
    match s {
        Step::Report(ActionResult::OutputLine(l)) => format!("line {l}"),
        Step::Report(ActionResult::CommandDone) => "done".to_string(),
        Step::Report(ActionResult::SetCommand { command, output }) => {
            format!("set {command}: {output}")
        }
        Step::Report(ActionResult::SetError { command, error }) => {
            format!("error {command}: {error}")
        }
        Step::Report(other) => format!("{other:?}"),
        Step::Run { program, args } => format!("run {program} {}", args.join(" ")),
        Step::Ask(Query::Installed) => "installed?".to_string(),
        Step::Ask(Query::Upgradable) => "upgradable?".to_string(),
        Step::Ask(Query::FirstInstalled) => "first installed?".to_string(),
        Step::Ask(Query::FirstUpgradable) => "first upgradable?".to_string(),
        Step::Ask(Query::Search(q)) => format!("search {q}?"),
        Step::UpgradeAll => "upgrade all".to_string(),
        Step::CheckElevation => "elevated?".to_string(),
        Step::UpdateSources => "update sources".to_string(),
    }
}

fn wpkg(name: &str) -> WingetPackage {
    WingetPackage {
        name: name.to_string(),
        id: format!("{name}.{name}"),
        version: None,
        source: None,
    }
}

fn upkg(name: &str) -> UpgradablePackage {
    UpgradablePackage {
        name: name.to_string(),
        id: format!("{name}.{name}"),
        installed_version: "1".into(),
        available_version: "2".into(),
        source: None,
    }
}

fn entry(id: &str) -> JsonPackage {
    JsonPackage {
        id: id.to_string(),
        name: format!("The {id}"),
        command: None,
        is_script: false,
        args: Vec::new(),
        scope: None,
        locale: None,
    }
}

fn script(name: &str, command: Option<&[&str]>) -> JsonPackage {
    JsonPackage {
        name: name.to_string(),
        is_script: true,
        command: command.map(|c| c.iter().map(|s| s.to_string()).collect()),
        ..entry(name)
    }
}

#[test]
fn installing_from_the_search_tab() {
    let mut app = new_app();
    app.tab = Tab::Search;
    app.search_results = vec![wpkg("a"), wpkg("b")];
    app.command_output = vec!["old".to_string()];
    app.search_sel.marked.insert(1);
    app.search_sel.marked.insert(0);
    assert_eq!(
        press(&mut app, 'i'),
        vec![
            "line --- install a.a ---",
            "run winget install --exact a.a --silent --accept-package-agreements --accept-source-agreements --scope machine",
            "line ",
            "line --- install b.b ---",
            "run winget install --exact b.b --silent --accept-package-agreements --accept-source-agreements --scope machine",
            "line ",
            "installed?",
            "upgradable?",
            "done",
        ]
    );
    assert!(app.busy);
    assert!(app.command_output.is_empty());
    assert_eq!(app.current_command.as_deref(), Some("winget install 2 packages"));
    assert_eq!(
        app.last_command.as_deref(),
        Some("winget install --exact a.a --silent --accept-package-agreements --accept-source-agreements --scope machine")
    );
}

#[test]
fn upgrading_and_upgrading_all() {
    let mut app = new_app();
    app.updates = vec![upkg("a"), upkg("b")];
    app.updates_sel.cursor = 1;
    assert_eq!(
        press(&mut app, 'u'),
        vec![
            "line --- upgrade b.b ---",
            "run winget upgrade --exact b.b --silent --accept-package-agreements --accept-source-agreements",
            "line ",
            "upgradable?",
            "installed?",
            "done",
        ]
    );
    assert_eq!(app.current_command.as_deref(), Some("winget upgrade 1 packages"));
    app.busy = false;
    assert_eq!(press(&mut app, 'U'), vec!["upgrade all", "done"]);
    assert_eq!(app.current_command.as_deref(), Some("winget upgrade --all --include-unknown"));
    // what the editor is seeded with is what is run
    assert_eq!(
        app.last_command.unwrap(),
        format!("winget {}", upgrade_all_args().join(" "))
    );
}

#[test]
fn removing_refreshing_and_showing_installed_packages() {
    let mut app = new_app();
    app.tab = Tab::Installed;
    app.installed = vec![wpkg("a")];
    assert_eq!(
        press(&mut app, 'r'),
        vec![
            "line --- uninstall a.a ---",
            "run winget uninstall --exact a.a --silent --accept-source-agreements",
            "line ",
            "installed?",
            "done",
        ]
    );
    assert_eq!(
        app.last_command.as_deref(),
        Some("winget uninstall --exact a.a --silent --accept-source-agreements")
    );
    app.busy = false;
    assert_eq!(press(&mut app, 'R'), vec!["installed?", "done"]);
    assert_eq!(app.current_command.as_deref(), Some("winget list --refresh"));
    app.busy = false;
    let before = app.last_command.clone();
    assert_eq!(
        shown(app.handle_key(KeyEvent::plain(KeyCode::Enter))),
        vec![
            "line --- a.a ---",
            "run winget show a.a --accept-source-agreements",
            "line ",
            "done",
        ]
    );
    assert_eq!(app.current_command.as_deref(), Some("winget show 1 packages"));
    assert_eq!(app.last_command, before, "showing leaves the editor's seed alone");
}

#[test]
fn nothing_selected_starts_nothing() {
    let mut app = new_app();
    for tab in Tab::all() {
        app.tab = tab;
        for c in "iurRIUfx".chars() {
            if (tab == Tab::Updates && c == 'U') || (tab == Tab::Installed && c == 'R') {
                continue;
            }
            assert!(press(&mut app, c).is_empty());
            assert!(!app.busy);
        }
        assert!(shown(app.handle_key(KeyEvent::plain(KeyCode::Enter))).is_empty());
    }
}

#[test]
fn installing_manifest_entries_and_running_scripts() {
    let mut app = new_app();
    app.tab = Tab::Packages;
    let mut java = entry("Java");
    java.args = vec!["-a".into(), "x86".into()];
    java.locale = Some("pt-BR".into());
    app.packages = vec![
        script("setup", Some(&["powershell", "-Command", "a b"])),
        java,
        script("empty", Some(&[])),
        script("none", None),
    ];
    assert_eq!(
        press(&mut app, 'I'),
        vec![
            "line --- run script: setup ---",
            "run powershell -Command a b",
            "line ",
            "line --- winget install --exact Java --silent --accept-package-agreements --accept-source-agreements --locale pt-BR -a x86 ---",
            "run winget install --exact Java --silent --accept-package-agreements --accept-source-agreements --locale pt-BR -a x86",
            "line ",
            "line --- run script: empty ---",
            "line ",
            "line --- run script: none ---",
            "line ",
            "installed?",
            "upgradable?",
            "done",
        ]
    );
    assert_eq!(app.current_command.as_deref(), Some("install/run 4 apps/scripts"));
    assert_eq!(app.last_command.as_deref(), Some("powershell -Command a b"));
    app.busy = false;
    app.packages_sel.cursor = 1;
    press(&mut app, 'i');
    assert_eq!(
        app.last_command.as_deref(),
        Some("winget install --exact Java --silent --accept-package-agreements --accept-source-agreements --locale pt-BR -a x86")
    );
}

#[test]
fn removing_manifest_entries_spares_scripts() {
    let mut app = new_app();
    app.tab = Tab::Packages;
    app.packages = vec![script("s", Some(&["x"])), entry("A.B")];
    assert_eq!(
        press(&mut app, 'R'),
        vec![
            "line --- remove/uninstall not supported for script: s ---",
            "line ",
            "line --- uninstall A.B ---",
            "run winget uninstall --exact A.B --silent --accept-source-agreements",
            "line ",
            "installed?",
            "upgradable?",
            "done",
        ]
    );
    assert_eq!(app.current_command.as_deref(), Some("uninstall/remove 2 apps/scripts"));
    assert_eq!(app.last_command, None);
}

#[test]
fn showing_manifest_entries() {
    let mut app = new_app();
    app.tab = Tab::Packages;
    app.packages = vec![script("s", Some(&["x", "y z"])), entry("A.B")];
    app.packages_sel.marked.insert(0);
    app.packages_sel.marked.insert(1);
    assert_eq!(
        shown(app.handle_key(KeyEvent::plain(KeyCode::Enter))),
        vec![
            "line --- script: s ---",
            "line Command: x y z",
            "line ",
            "line --- A.B ---",
            "run winget show A.B --accept-source-agreements",
            "line ",
            "done",
        ]
    );
    assert_eq!(app.current_command.as_deref(), Some("show 2 apps/scripts"));
}

#[test]
fn the_first_of_two_entries_with_one_id_is_run() {
    let mut app = new_app();
    app.packages = vec![script("s", Some(&["one"])), script("s", Some(&["two"]))];
    let ids = vec!["s".to_string(), "missing".to_string()];
    assert_eq!(
        shown(app.install_json_multi(ids)),
        vec![
            "line --- run script: s ---",
            "run one ",
            "line ",
            "installed?",
            "upgradable?",
            "done"
        ]
    );
}

#[test]
fn a_command_typed_by_hand_is_run() {
    let mut app = new_app();
    app.command_input = Some("winget  list \"a b\"".to_string());
    assert_eq!(
        shown(app.handle_key(KeyEvent::plain(KeyCode::Enter))),
        vec![
            "line --- winget list a b ---",
            "run winget list a b",
            "installed?",
            "upgradable?",
            "done"
        ]
    );
    assert_eq!(app.current_command.as_deref(), Some("winget  list \"a b\""));
    assert_eq!(app.last_command.as_deref(), Some("winget  list \"a b\""));
    assert_eq!(app.command_input, None);

    let mut app = new_app();
    app.command_input = Some("  \" \" ".to_string());
    let job = shown(app.handle_key(KeyEvent::plain(KeyCode::Enter)));
    assert_eq!(job[1], "run   ");
    let mut app = new_app();
    app.command_input = Some("   ".to_string());
    assert!(shown(app.handle_key(KeyEvent::plain(KeyCode::Enter))).is_empty());
    assert_eq!(app.command_input, None);
    assert!(!app.busy);
}

#[test]
fn the_last_command_runs_again_from_the_editor() {
    let mut app = new_app();
    app.tab = Tab::Installed;
    app.installed = vec![wpkg("a")];
    let first = press(&mut app, 'r');
    app.handle_action_result(ActionResult::CommandDone);
    press(&mut app, 'c');
    let again = shown(app.handle_key(KeyEvent::plain(KeyCode::Enter)));
    assert_eq!(first[1], again[1]);
}

#[test]
fn startup_runs_four_jobs() {
    let jobs: Vec<Vec<String>> =
        initial_load().iter().map(|j| j.iter().map(step).collect()).collect();
    assert_eq!(
        jobs,
        vec![
            vec!["first installed?"],
            vec!["first upgradable?"],
            vec!["elevated?"],
            vec!["update sources"],
        ]
    );
    assert_eq!(after_source_update(true).iter().map(step).collect::<Vec<_>>(), vec!["upgradable?"]);
    assert!(after_source_update(false).is_empty());
}

#[test]
fn upgrading_all_goes_on_by_its_result() {
    assert_eq!(
        after_upgrade_all(Ok("fine".into())).iter().map(step).collect::<Vec<_>>(),
        vec!["set winget upgrade --all --include-unknown: fine", "upgradable?", "installed?"]
    );
    assert_eq!(
        after_upgrade_all(Err("bad".into())).iter().map(step).collect::<Vec<_>>(),
        vec!["error winget upgrade --all --include-unknown: bad"]
    );
}

#[test]
fn upgrade_all_outcomes() {
    let ended = |success, out: &[u8], err: &[u8]| Run::Ended {
        success,
        stdout: out.to_vec(),
        stderr: err.to_vec(),
    };
    assert_eq!(upgrade_all_outcome(&ended(true, b"out", b"err")), Ok("out".to_string()));
    assert_eq!(upgrade_all_outcome(&ended(false, b"out", b"err")), Err("err".to_string()));
    assert_eq!(upgrade_all_outcome(&ended(false, b"out", b"")), Err("out".to_string()));
    // bytes that are no UTF-8 are replaced
    assert_eq!(
        upgrade_all_outcome(&ended(true, b"a\xffb", b"")),
        Ok("a\u{fffd}b".to_string())
    );
    assert_eq!(
        upgrade_all_outcome(&Run::NotStarted("no".into())),
        Err("Failed to run winget upgrade --all --include-unknown: no".to_string())
    );
    assert_eq!(
        upgrade_all_outcome(&Run::NotAwaited("no".into())),
        Err("Failed to wait on winget upgrade --all --include-unknown: no".to_string())
    );
    assert_eq!(message_of(false, "o".into(), "e".into()), Err("e".to_string()));
}

#[test]
fn queries_and_their_answers() {
    assert_eq!(query_args(&Query::Installed), vec!["list", "--accept-source-agreements"]);
    assert_eq!(query_args(&Query::FirstInstalled), query_args(&Query::Installed));
    assert_eq!(query_args(&Query::Upgradable), vec!["upgrade", "--accept-source-agreements"]);
    assert_eq!(query_args(&Query::FirstUpgradable), query_args(&Query::Upgradable));
    assert_eq!(
        query_args(&Query::Search("a b".into())),
        vec!["search", "a b", "--accept-source-agreements"]
    );
    assert_eq!(version_args(), vec!["--version"]);
    assert_eq!(source_update_args(), vec!["source", "update"]);
    assert_eq!(kill_args(4294967295), vec!["/PID", "4294967295", "/T", "/F"]);
    assert_eq!(kill_args(0), vec!["/PID", "0", "/T", "/F"]);

    let table = "Nome   ID   Versão Origem\nÉa     b.c  1      winget\n".as_bytes().to_vec();
    let packages = packages_in_output(&Some(table.clone()));
    assert_eq!(packages.len(), 1);
    assert_eq!(packages[0].name, "Éa");
    assert!(packages_in_output(&None).is_empty());
    assert!(upgrades_in_output(&None).is_empty());
    let upgrades = b"Name   Id   Version Available Source\nA      b.c  1       2         w\n".to_vec();
    assert_eq!(upgrades_in_output(&Some(upgrades.clone()))[0].available_version, "2");

    assert!(matches!(
        &answers(&Query::Installed, &Some(table.clone()))[..],
        [ActionResult::RefreshInstalled(l)] if l.len() == 1
    ));
    assert!(matches!(
        &answers(&Query::FirstInstalled, &None)[..],
        [ActionResult::InitialInstalled(l)] if l.is_empty()
    ));
    assert!(matches!(
        &answers(&Query::Upgradable, &Some(upgrades.clone()))[..],
        [ActionResult::UpgradeList(l)] if l[0].id == "b.c"
    ));
    assert!(matches!(
        &answers(&Query::FirstUpgradable, &Some(upgrades))[..],
        [ActionResult::InitialUpdates(l)] if l[0].name == "A"
    ));
    assert!(matches!(
        &answers(&Query::Search("q".into()), &Some(table))[..],
        [ActionResult::SearchResults(l), ActionResult::SetCommand { command, output }]
            if l.len() == 1 && command == "winget search \"q\"" && output == "Éa  b.c"
    ));
}

#[test]
fn what_a_search_found_is_listed() {
    let r = after_search("x y", vec![wpkg("a"), wpkg("b")]);
    match &r[1] {
        ActionResult::SetCommand { command, output } => {
            assert_eq!(command, "winget search \"x y\"");
            assert_eq!(output, "a  a.a\nb  b.b");
        }
        other => panic!("{other:?}"),
    }
    match &after_search("x", vec![])[1] {
        ActionResult::SetCommand { output, .. } => assert_eq!(output, ""),
        other => panic!("{other:?}"),
    }
}
