use wgtui::action::{ActionResult, Effect, Query, Step};
use wgtui::app::{PackageFile, ScannedDir};
use wgtui::command_line::parse_command_line;
use wgtui::key::{KeyCode, KeyEvent};
use wgtui::view::empty_packages_lines;
use wgtui::{App, JsonPackage, Tab, UpgradablePackage, WingetPackage};

const DIAG: &str = "dir: C:\\x\n  -> 0 files\nno json files found\n";

fn new_app() -> App {
    App::new(Vec::new(), Vec::new())
}

fn ke(code: KeyCode) -> KeyEvent {
    KeyEvent::plain(code)
}

fn file(name: &str) -> PackageFile {
    PackageFile { path: name.to_string(), name: name.to_string() }
}

fn wpkg(name: &str) -> WingetPackage {
    WingetPackage {
        name: name.to_string(),
        id: format!("{name}.{name}"),
        version: None,
        source: None,
    }
}

fn upkg(name: &str) -> UpgradablePackage {
    UpgradablePackage {
        name: name.to_string(),
        id: format!("{name}.{name}"),
        installed_version: "1".into(),
        available_version: "2".into(),
        source: None,
    }
}

fn jpkg(name: &str) -> JsonPackage {
    JsonPackage {
        id: format!("{name}.{name}"),
        name: name.to_string(),
        command: None,
        is_script: false,
        args: Vec::new(),
        scope: None,
        locale: None,
    }
}

#[test]
fn empty_packages_lines_shows_hint_by_default() {
    let lines = empty_packages_lines(DIAG, false);
    assert!(lines.iter().any(|l| l.contains("README")));
    assert!(!lines.iter().any(|l| l.contains("0 files")));
}

#[test]
fn empty_packages_lines_shows_diagnostic_in_debug() {
    let lines = empty_packages_lines(DIAG, true);
    assert!(lines.iter().any(|l| l.contains("0 files")));
}

#[test]
fn empty_packages_lines_falls_back_when_diagnostic_blank() {
    let lines = empty_packages_lines("   \n  ", true);
    assert!(lines.iter().any(|l| l.contains("README")));
}

#[test]
fn app_new_does_not_block_on_winget() {
    // `new()` must not shell out to winget: it returns immediately with
    // empty lists and the initial load still pending.
    let app = new_app();
    assert!(app.installed.is_empty());
    assert!(app.updates.is_empty());
    assert!(!app.busy);
    assert_eq!(app.initial_load_pending, 2);
}

#[test]
fn matches_filter_is_fuzzy_and_case_insensitive() {
    assert!(App::matches_filter("Google Chrome", ""));
    assert!(App::matches_filter("Google Chrome", "gc"));
    assert!(App::matches_filter("Google Chrome", "GOOG"));
    assert!(!App::matches_filter("Google Chrome", "xyz"));
    assert!(!App::matches_filter("abc", "abcd"));
}

#[test]
fn tab_navigation_is_reversible_and_cyclic() {
    for t in Tab::all() {
        assert_eq!(t.next().prev(), t);
    }
    assert_eq!(Tab::Packages.next(), Tab::Updates);
    assert_eq!(Tab::Updates.prev(), Tab::Packages);
}

#[test]
fn toggle_selection_adds_then_removes_current_row() {
    let mut app = new_app();
    app.tab = Tab::Installed;
    app.installed_sel.cursor = 2;
    app.toggle_selection();
    assert!(app.installed_sel.marked.contains(&2));
    app.toggle_selection();
    assert!(!app.installed_sel.marked.contains(&2));
}

#[test]
fn initial_result_clears_pending_flag() {
    let mut app = new_app();
    app.handle_action_result(ActionResult::InitialInstalled(vec![WingetPackage {
        name: "X".into(),
        id: "X.Y".into(),
        version: None,
        source: None,
    }]));
    assert_eq!(app.initial_load_pending, 1);
    app.handle_action_result(ActionResult::InitialUpdates(vec![]));
    assert_eq!(app.initial_load_pending, 0);
    assert_eq!(app.installed.len(), 1);
}

#[test]
fn elevation_defaults_true_and_updates_from_result() {
    let mut app = new_app();
    assert!(app.elevated, "assumed elevated until the check reports");
    app.handle_action_result(ActionResult::Elevation(false));
    assert!(!app.elevated);
}

#[test]
fn upgrade_list_result_refreshes_updates_without_reloading() {
    // The startup `winget source update` thread feeds a fresh upgrade list
    // back through UpgradeList; it must not re-trigger the loading state.
    let mut app = new_app();
    app.initial_load_pending = 0;
    app.handle_action_result(ActionResult::UpgradeList(vec![upkg("a"), upkg("b")]));
    assert_eq!(app.updates.len(), 2);
    assert_eq!(app.initial_load_pending, 0);
}

#[test]
fn vim_jk_navigates_updates_installed_and_packages() {
    let mut app = new_app();

    app.updates = vec![upkg("a"), upkg("b"), upkg("c")];
    app.tab = Tab::Updates;
    app.handle_key(ke(KeyCode::Char('j')));
    app.handle_key(ke(KeyCode::Char('j')));
    assert_eq!(app.updates_sel.cursor, 2);
    app.handle_key(ke(KeyCode::Char('k')));
    assert_eq!(app.updates_sel.cursor, 1);

    app.installed = vec![wpkg("a"), wpkg("b")];
    app.tab = Tab::Installed;
    app.filter_focused = false;
    app.handle_key(ke(KeyCode::Char('j')));
    assert_eq!(app.installed_sel.cursor, 1);

    app.packages = vec![jpkg("a"), jpkg("b"), jpkg("c")];
    app.tab = Tab::Packages;
    app.filter_focused = false;
    app.handle_key(ke(KeyCode::Char('j')));
    assert_eq!(app.packages_sel.cursor, 1);
}

#[test]
fn vim_jk_navigates_search_results() {
    let mut app = new_app();
    app.search_results = vec![wpkg("a"), wpkg("b")];
    app.tab = Tab::Search;
    app.filter_focused = false;
    app.handle_key(ke(KeyCode::Char('j')));
    assert_eq!(app.search_sel.cursor, 1);
    app.handle_key(ke(KeyCode::Char('k')));
    assert_eq!(app.search_sel.cursor, 0);
}

#[test]
fn vim_hl_switches_tabs_from_any_tab() {
    let mut app = new_app();
    app.tab = Tab::Updates;
    app.handle_key(ke(KeyCode::Char('l')));
    assert_eq!(app.tab, Tab::Search);
    app.handle_key(ke(KeyCode::Char('l')));
    assert_eq!(app.tab, Tab::Installed);
    app.handle_key(ke(KeyCode::Char('h')));
    assert_eq!(app.tab, Tab::Search);
}

#[test]
fn q_quits_only_from_normal_mode_and_is_typable_in_filter() {
    let mut app = new_app();
    app.tab = Tab::Search;
    app.filter_focused = true;
    for c in "qbittorrent".chars() {
        app.handle_key(ke(KeyCode::Char(c)));
    }
    assert_eq!(app.filter_query, "qbittorrent");
    assert!(app.filter_focused);
    assert!(!app.should_quit);

    app.filter_focused = false;
    app.handle_key(ke(KeyCode::Char('q')));
    assert!(app.should_quit);
}

#[test]
fn jk_are_typable_in_filter() {
    let mut app = new_app();
    app.tab = Tab::Installed;
    app.filter_focused = true;
    for c in "jetbrains".chars() {
        app.handle_key(ke(KeyCode::Char(c)));
    }
    assert_eq!(app.filter_query, "jetbrains");
}

#[test]
fn parse_command_line_groups_quotes_and_trims() {
    assert_eq!(
        parse_command_line("  winget   list "),
        vec!["winget", "list"]
    );
    assert_eq!(
        parse_command_line(r#"winget install X --params "/Language:pt-BR""#),
        vec!["winget", "install", "X", "--params", "/Language:pt-BR"]
    );
    assert!(parse_command_line("   ").is_empty());
}

#[test]
fn set_last_command_joins_argv() {
    let mut app = new_app();
    app.set_last_command(
        &["winget", "uninstall", "--exact", "sharkdp.bat"].map(String::from).to_vec(),
    );
    assert_eq!(
        app.last_command.as_deref(),
        Some("winget uninstall --exact sharkdp.bat")
    );
}

#[test]
fn c_opens_command_editor_seeded_with_last_command() {
    let mut app = new_app();
    app.filter_focused = false;
    app.handle_key(ke(KeyCode::Char('c')));
    assert_eq!(app.command_input.as_deref(), Some("winget ")); // no prior command

    app.command_input = None;
    app.last_command = Some("winget uninstall --exact sharkdp.bat --silent".into());
    app.handle_key(ke(KeyCode::Char('c')));
    assert_eq!(
        app.command_input.as_deref(),
        Some("winget uninstall --exact sharkdp.bat --silent")
    );
}

#[test]
fn command_editor_typing_backspace_and_cancel() {
    let mut app = new_app();
    app.command_input = Some("winget ".into());
    for c in "list".chars() {
        app.handle_key(ke(KeyCode::Char(c)));
    }
    assert_eq!(app.command_input.as_deref(), Some("winget list"));
    app.handle_key(ke(KeyCode::Backspace));
    assert_eq!(app.command_input.as_deref(), Some("winget lis"));
    app.handle_key(ke(KeyCode::Esc));
    assert!(app.command_input.is_none());
}

#[test]
fn c_is_plain_text_while_the_filter_is_focused() {
    let mut app = new_app();
    app.tab = Tab::Search;
    app.filter_focused = true;
    for c in "cpuz".chars() {
        app.handle_key(ke(KeyCode::Char(c)));
    }
    assert_eq!(app.filter_query, "cpuz");
    assert!(app.command_input.is_none());
}

#[test]
fn vim_jk_in_file_picker() {
    let mut app = new_app();
    app.tab = Tab::Packages;
    app.packages_file_picker = true;
    app.package_files = vec![file("a.json"), file("b.json")];
    app.filter_focused = false;
    app.handle_key(ke(KeyCode::Char('j')));
    assert_eq!(app.package_file_selected, 1);
    app.handle_key(ke(KeyCode::Char('k')));
    assert_eq!(app.package_file_selected, 0);
}

#[test]
fn a_toggles_select_all_in_current_tab() {
    let mut app = new_app();
    app.installed = vec![wpkg("a"), wpkg("b"), wpkg("c")];
    app.tab = Tab::Installed;
    app.filter_focused = false;

    app.handle_key(ke(KeyCode::Char('a')));
    assert_eq!(app.installed_sel.marked.len(), 3);
    // second press clears
    app.handle_key(ke(KeyCode::Char('a')));
    assert!(app.installed_sel.marked.is_empty());
}

#[test]
fn a_select_all_respects_the_filter() {
    let mut app = new_app();
    app.packages = vec![jpkg("alpha"), jpkg("beta"), jpkg("alpine")];
    app.tab = Tab::Packages;
    app.filter_query = "alp".to_string(); // matches alpha, alpine
    app.filter_focused = false;

    app.handle_key(ke(KeyCode::Char('a')));
    assert_eq!(app.packages_sel.marked.len(), 2);
}

#[test]
fn a_is_typable_in_filter() {
    let mut app = new_app();
    app.tab = Tab::Search;
    app.filter_focused = true;
    for c in "anydesk".chars() {
        app.handle_key(ke(KeyCode::Char(c)));
    }
    assert_eq!(app.filter_query, "anydesk");
    assert!(app.search_sel.marked.is_empty());
}


// ----- startup -----

fn scanned(dir: &str, files: &[&str]) -> ScannedDir {
    ScannedDir { dir: dir.to_string(), files: files.iter().map(|f| file(f)).collect() }
}

#[test]
fn one_manifest_is_loaded_directly() {
    let app = App::new(
        vec![scanned("C:\\x", &[]), scanned("C:\\y", &["m.json"])],
        vec![jpkg("a"), jpkg("b")],
    );
    assert!(!app.packages_file_picker);
    assert_eq!(app.packages.len(), 2);
    assert_eq!(
        app.packages_diagnostic,
        "dir: C:\\x\n  -> 0 files\ndir: C:\\y\n  -> 1 files\nloaded 2 pkgs from m.json\n"
    );
}

#[test]
fn several_manifests_open_the_picker_and_none_does_not() {
    let app = App::new(vec![scanned("d", &["a.json", "b.json"])], vec![jpkg("a")]);
    assert!(app.packages_file_picker);
    assert!(app.packages.is_empty());
    assert_eq!(app.packages_diagnostic, "dir: d\n  -> 2 files\n2 files found, pick one\n");

    let app = App::new(vec![scanned("d", &[])], vec![jpkg("a")]);
    assert!(!app.packages_file_picker);
    assert!(app.packages.is_empty());
    assert_eq!(app.packages_diagnostic, "dir: d\n  -> 0 files\nno json files found\n");
}

// ----- file picker -----

#[test]
fn enter_in_the_picker_loads_the_chosen_file() {
    let mut app = App::new(vec![scanned("d", &["a.json", "b.json"])], vec![]);
    app.tab = Tab::Packages;
    app.handle_key(ke(KeyCode::Down));
    app.handle_key(ke(KeyCode::Down));
    assert_eq!(app.package_file_selected, 1, "stops at the last file");
    assert!(matches!(app.handle_key(ke(KeyCode::Enter)), Effect::LoadFile(1)));
    app.packages_sel.cursor = 3;
    app.manifest_loaded(vec![jpkg("x")]);
    assert!(!app.packages_file_picker);
    assert_eq!(app.packages.len(), 1);
    assert_eq!(app.packages_sel.cursor, 0);
    assert_eq!(app.packages_diagnostic, "loaded 1 pkgs from b.json");

    // `F` opens the picker again
    app.handle_key(ke(KeyCode::Char('F')));
    assert!(app.packages_file_picker);
    assert!(app.packages.is_empty());
}

#[test]
fn f_does_nothing_with_one_file() {
    let mut app = App::new(vec![scanned("d", &["a.json"])], vec![jpkg("a")]);
    app.tab = Tab::Packages;
    app.handle_key(ke(KeyCode::Char('f')));
    assert!(!app.packages_file_picker);
    assert_eq!(app.packages.len(), 1);
}

#[test]
fn a_manifest_without_a_chosen_file_changes_nothing() {
    let mut app = new_app();
    app.manifest_loaded(vec![jpkg("x")]);
    assert!(app.packages.is_empty());
}

fn picking() -> App {
    let mut app = App::new(vec![scanned("d", &["a.json", "b.json"])], vec![]);
    app.tab = Tab::Packages;
    app.command_output = (0..12).map(|i| i.to_string()).collect();
    app
}

#[test]
fn global_keys_work_in_the_picker() {
    for (code, tab) in [
        (KeyCode::Tab, Tab::Updates),
        (KeyCode::Right, Tab::Updates),
        (KeyCode::Char('l'), Tab::Updates),
        (KeyCode::BackTab, Tab::Installed),
        (KeyCode::Left, Tab::Installed),
        (KeyCode::Char('h'), Tab::Installed),
        (KeyCode::Char('1'), Tab::Updates),
        (KeyCode::Char('2'), Tab::Search),
        (KeyCode::Char('3'), Tab::Installed),
        (KeyCode::Char('4'), Tab::Packages),
    ] {
        let mut app = picking();
        assert!(matches!(app.handle_key(ke(code)), Effect::Nothing));
        assert_eq!(app.tab, tab);
        assert!(app.packages_file_picker, "still open on return");
        assert!(!app.should_quit);
    }
    let mut app = picking();
    app.handle_key(ke(KeyCode::Esc));
    assert!(app.should_quit);
    let mut app = picking();
    app.handle_key(ke(KeyCode::PageUp));
    assert_eq!(app.output_scroll, 11);
    app.handle_key(ke(KeyCode::PageDown));
    assert_eq!(app.output_scroll, usize::MAX);
}

#[test]
fn other_keys_do_nothing_in_the_picker() {
    let mut app = picking();
    for code in [
        KeyCode::Char('/'),
        KeyCode::Char(' '),
        KeyCode::Char('a'),
        KeyCode::Char('c'),
        KeyCode::Char('q'),
        KeyCode::Char('i'),
        KeyCode::Char('I'),
        KeyCode::Char('0'),
        KeyCode::Char('5'),
        KeyCode::Backspace,
        KeyCode::Other,
    ] {
        assert!(matches!(app.handle_key(ke(code)), Effect::Nothing));
    }
    assert_eq!(app.tab, Tab::Packages);
    assert!(app.packages_file_picker && !app.filter_focused && !app.busy && !app.should_quit);
    assert!(app.command_input.is_none());
    assert!(app.packages_sel.marked.is_empty());
    assert_eq!(app.package_file_selected, 0);
}

// ----- keys -----

#[test]
fn letters_do_what_their_arrows_do() {
    let pairs = [
        ('j', KeyCode::Down),
        ('k', KeyCode::Up),
        ('h', KeyCode::Left),
        ('l', KeyCode::Right),
    ];
    for (letter, arrow) in pairs {
        for control in [false, true] {
            for tab in Tab::all() {
                for open in [false, true] {
                    let start = || {
                        let mut app = picking();
                        app.packages_file_picker = open;
                        app.package_file_selected = 1;
                        app.installed = vec![wpkg("a"), wpkg("b"), wpkg("c")];
                        app.installed_sel.cursor = 1;
                        app.tab = tab;
                        app
                    };
                    let (mut a, mut b) = (start(), start());
                    a.handle_key(KeyEvent { code: KeyCode::Char(letter), control });
                    b.handle_key(KeyEvent { code: arrow, control });
                    let seen = |app: &App| {
                        (
                            app.tab,
                            app.filter_focused,
                            app.package_file_selected,
                            app.installed_sel.cursor,
                            app.updates_sel.cursor,
                            app.should_quit,
                        )
                    };
                    assert_eq!(seen(&a), seen(&b), "{letter} {tab:?} {open}");
                }
            }
        }
    }
}

#[test]
fn paging_changes_only_the_scroll() {
    let mut app = new_app();
    app.tab = Tab::Installed;
    app.installed = vec![wpkg("a"), wpkg("b")];
    app.installed_sel.cursor = 1;
    app.installed_sel.marked.insert(0);
    app.filter_query = "b".to_string();
    app.last_command = Some("x".to_string());
    app.command_output = vec!["one".to_string(), "two".to_string()];
    for (code, scroll) in [
        (KeyCode::PageUp, 1),
        (KeyCode::PageUp, 0),
        (KeyCode::PageDown, usize::MAX),
        (KeyCode::PageDown, usize::MAX),
    ] {
        assert!(matches!(app.handle_key(ke(code)), Effect::Nothing));
        assert_eq!(app.output_scroll, scroll);
        assert_eq!((app.tab, app.installed_sel.cursor), (Tab::Installed, 1));
        assert_eq!(app.installed_sel.active(), vec![0]);
        assert_eq!((app.filter_query.as_str(), app.filter_focused), ("b", false));
        assert_eq!(app.last_command.as_deref(), Some("x"));
        assert_eq!(app.command_output.len(), 2);
        assert!(!app.busy && !app.should_quit);
    }
}

#[test]
fn keys_do_nothing_while_busy() {
    let mut app = new_app();
    app.busy = true;
    app.handle_key(KeyEvent { code: KeyCode::Char('c'), control: true });
    app.handle_key(ke(KeyCode::Char('q')));
    assert!(!app.should_quit);
    app.handle_action_result(ActionResult::CommandDone);
    app.handle_key(KeyEvent { code: KeyCode::Char('c'), control: true });
    assert!(app.should_quit);
}

#[test]
fn ctrl_c_quits_from_the_inputs_too() {
    let mut app = new_app();
    app.filter_focused = true;
    app.command_input = Some("x".to_string());
    app.handle_key(KeyEvent { code: KeyCode::Char('c'), control: true });
    assert!(app.should_quit);
    assert_eq!(app.command_input.as_deref(), Some("x"));
}

#[test]
fn up_at_the_top_focuses_the_filter() {
    let mut app = new_app();
    app.installed = vec![wpkg("a"), wpkg("b")];
    app.tab = Tab::Installed;
    app.handle_key(ke(KeyCode::Down));
    app.handle_key(ke(KeyCode::Up));
    assert!(!app.filter_focused);
    app.handle_key(ke(KeyCode::Up));
    assert!(app.filter_focused);
    // down leaves the filter and moves
    app.handle_key(ke(KeyCode::Down));
    assert!(!app.filter_focused);
    assert_eq!(app.installed_sel.cursor, 1);
}

#[test]
fn switching_tabs_clears_filter_and_marks() {
    let mut app = new_app();
    app.installed = vec![wpkg("a")];
    app.tab = Tab::Installed;
    app.filter_query = "a".to_string();
    app.installed_sel.cursor = 9;
    app.handle_key(ke(KeyCode::Char(' ')));
    assert!(app.installed_sel.marked.contains(&9));
    app.handle_key(ke(KeyCode::Char('1')));
    assert_eq!(app.tab, Tab::Updates);
    assert_eq!(app.filter_query, "");
    assert!(app.installed_sel.marked.is_empty());
    assert_eq!(app.installed_sel.cursor, 0);
    for (key, tab) in [('2', Tab::Search), ('3', Tab::Installed), ('4', Tab::Packages)] {
        app.handle_key(ke(KeyCode::Char(key)));
        assert_eq!(app.tab, tab);
    }
    app.handle_key(ke(KeyCode::Tab));
    assert_eq!(app.tab, Tab::Updates);
    app.handle_key(ke(KeyCode::BackTab));
    assert_eq!(app.tab, Tab::Packages);
    app.handle_key(ke(KeyCode::Left));
    assert_eq!(app.tab, Tab::Installed);
    app.filter_focused = true;
    app.handle_key(ke(KeyCode::Right));
    assert_eq!(app.tab, Tab::Packages);
    assert!(!app.filter_focused);
}

#[test]
fn select_all_marks_every_row_even_after_stale_marks() {
    let mut app = new_app();
    app.updates = vec![upkg("a"), upkg("b")];
    app.updates_sel.marked.insert(7);
    app.updates_sel.marked.insert(8);
    app.handle_key(ke(KeyCode::Char('a')));
    assert_eq!(app.updates_sel.active(), vec![0, 1]);
    app.handle_key(ke(KeyCode::Char('a')));
    assert!(app.updates_sel.marked.is_empty());
    app.updates.clear();
    app.handle_key(ke(KeyCode::Char('a')));
    assert!(app.updates_sel.marked.is_empty());
}

#[test]
fn the_rows_acted_on_come_in_order() {
    let mut app = new_app();
    app.installed = vec![wpkg("a"), wpkg("b"), wpkg("c"), wpkg("d")];
    app.tab = Tab::Installed;
    assert_eq!(app.selected_ids(), vec!["a.a"]);
    for row in [3, 0, 2, 17] {
        app.installed_sel.marked.insert(row);
    }
    assert_eq!(app.sel().active(), vec![0, 2, 3, 17]);
    assert_eq!(app.selected_ids(), vec!["a.a", "c.c", "d.d"]);
    app.installed_sel.marked.clear();
    app.installed_sel.cursor = 9;
    assert!(app.selected_ids().is_empty());
    app.filter_query = "D".to_string();
    app.installed_sel.cursor = 0;
    assert_eq!(app.selected_ids(), vec!["d.d"]);
}

#[test]
fn the_filter_takes_accented_letters() {
    assert!(App::matches_filter("Configuração", "ÇÃ"));
    assert!(App::matches_filter("aéb", "éb"));
    assert!(!App::matches_filter("ação", "oã"));
    assert!(!App::matches_filter("", "a"));
}

#[test]
fn apps_are_filtered_by_name_or_id() {
    let mut app = new_app();
    let mut p = jpkg("x");
    p.id = "Vendor.Tool".to_string();
    app.packages = vec![p, jpkg("y")];
    app.tab = Tab::Packages;
    app.filter_query = "tool".to_string();
    assert_eq!(app.filtered_len(), 1);
    assert_eq!(app.selected_ids(), vec!["Vendor.Tool"]);
}

#[test]
fn pages_of_output_scroll_by_five_lines() {
    let mut app = new_app();
    app.handle_key(ke(KeyCode::PageUp));
    assert_eq!(app.output_scroll, usize::MAX);
    app.command_output = (0..12).map(|i| i.to_string()).collect();
    app.handle_key(ke(KeyCode::PageUp));
    assert_eq!(app.output_scroll, 11);
    app.handle_key(ke(KeyCode::PageUp));
    app.handle_key(ke(KeyCode::PageUp));
    assert_eq!(app.output_scroll, 1);
    app.handle_key(ke(KeyCode::PageUp));
    assert_eq!(app.output_scroll, 0);
    app.handle_key(ke(KeyCode::PageDown));
    app.handle_key(ke(KeyCode::PageDown));
    assert_eq!(app.output_scroll, 10);
    app.handle_key(ke(KeyCode::PageDown));
    assert_eq!(app.output_scroll, usize::MAX);
    app.handle_key(ke(KeyCode::PageDown));
    assert_eq!(app.output_scroll, usize::MAX);
}

#[test]
fn backspace_in_the_filter_takes_one_character() {
    let mut app = new_app();
    app.filter_focused = true;
    for c in "çé".chars() {
        app.handle_key(ke(KeyCode::Char(c)));
    }
    app.handle_key(ke(KeyCode::Backspace));
    assert_eq!(app.filter_query, "ç");
    app.handle_key(ke(KeyCode::Backspace));
    app.handle_key(ke(KeyCode::Backspace));
    assert_eq!(app.filter_query, "");
    app.handle_key(ke(KeyCode::Esc));
    assert!(!app.filter_focused);
    assert!(!app.should_quit);
    app.handle_key(ke(KeyCode::Esc));
    assert!(app.should_quit);
}

// ----- searching -----

#[test]
fn enter_in_the_search_box_searches() {
    let mut app = new_app();
    app.tab = Tab::Search;
    app.filter_focused = true;
    app.filter_query = "7 zip".to_string();
    match app.handle_key(ke(KeyCode::Enter)) {
        Effect::Start(job) => {
            assert_eq!(job.len(), 2);
            assert!(matches!(&job[0], Step::Ask(Query::Search(q)) if q == "7 zip"));
            assert!(matches!(&job[1], Step::Report(ActionResult::CommandDone)));
        }
        other => panic!("{other:?}"),
    }
    assert!(app.busy);
    assert_eq!(app.current_command.as_deref(), Some("winget search \"7 zip\""));
}

#[test]
fn an_empty_search_forgets_the_results() {
    let mut app = new_app();
    app.tab = Tab::Search;
    app.filter_focused = true;
    app.search_results = vec![wpkg("a"), wpkg("b")];
    app.search_sel.cursor = 1;
    assert!(matches!(app.handle_key(ke(KeyCode::Enter)), Effect::Nothing));
    assert!(app.search_results.is_empty());
    assert_eq!(app.search_sel.cursor, 0);
    assert!(!app.busy);
}

// ----- results -----

#[test]
fn results_update_the_panels() {
    let mut app = new_app();
    app.output_scroll = 3;
    app.handle_action_result(ActionResult::SetCommand {
        command: "cmd".into(),
        output: "one\r\ntwo\n\nfour\n".into(),
    });
    assert_eq!(app.current_command.as_deref(), Some("cmd"));
    assert_eq!(app.command_output, vec!["one", "two", "", "four"]);
    assert_eq!(app.output_scroll, usize::MAX);
    app.handle_action_result(ActionResult::OutputLine("five".into()));
    assert_eq!(app.command_output.len(), 5);
    app.handle_action_result(ActionResult::SetError { command: "c".into(), error: "bad".into() });
    assert_eq!(app.command_output, vec!["bad"]);
    app.installed_sel.cursor = 4;
    app.handle_action_result(ActionResult::RefreshInstalled(vec![wpkg("a")]));
    assert_eq!(app.installed_sel.cursor, 0);
    assert_eq!(app.current_command.as_deref(), Some("winget list --refresh"));
    assert_eq!(app.command_output, vec!["Package list refreshed."]);
    app.search_sel.cursor = 4;
    app.handle_action_result(ActionResult::SearchResults(vec![wpkg("a")]));
    assert_eq!(app.search_sel.cursor, 0);
    // a late first list does not wrap the count around
    app.initial_load_pending = 0;
    app.handle_action_result(ActionResult::InitialInstalled(vec![]));
    assert_eq!(app.initial_load_pending, 0);
}

#[test]
fn the_spinner_turns_while_something_is_pending() {
    let mut app = new_app();
    let mut frames = Vec::new();
    for _ in 0..5 {
        app.tick();
        frames.push(app.spinner_frame);
    }
    assert_eq!(frames, vec![1, 2, 3, 0, 1]);
    app.initial_load_pending = 0;
    app.tick();
    assert_eq!(app.spinner_frame, 1);
    app.busy = true;
    app.tick();
    assert_eq!(app.spinner_frame, 2);
}

// ----- command lines -----

#[test]
fn quotes_group_and_join() {
    assert_eq!(parse_command_line(r#"foo --bar "a b""#), vec!["foo", "--bar", "a b"]);
    assert_eq!(parse_command_line(r#"a"b c"d"#), vec!["ab cd"]);
    assert_eq!(parse_command_line(r#""unclosed group"#), vec!["unclosed group"]);
    assert_eq!(parse_command_line(r#"a "" b"#), vec!["a", "b"]);
    assert_eq!(parse_command_line("a\u{3000}b\tc"), vec!["a", "b", "c"]);
}

// ----- what holds of every state, on concrete ones -----

#[test]
fn typing_on_narrows_the_list() {
    let mut app = new_app();
    app.tab = Tab::Installed;
    app.installed = vec![wpkg("alpha"), wpkg("alpine"), wpkg("beta")];
    app.filter_focused = true;
    let mut shown = vec![app.filtered_len()];
    for c in "alpi".chars() {
        app.handle_key(ke(KeyCode::Char(c)));
        shown.push(app.filtered_len());
    }
    assert_eq!(shown, vec![3, 3, 2, 2, 1]);
    for p in ["alpha", "Ärger", ""] {
        assert!(App::matches_filter(p, p));
        assert!(App::matches_filter(p, ""));
    }
}

#[test]
fn left_undoes_right() {
    for tab in Tab::all() {
        let mut app = new_app();
        app.tab = tab;
        app.handle_key(ke(KeyCode::Char('l')));
        assert_eq!(app.tab, tab.next());
        app.handle_key(ke(KeyCode::Char('h')));
        assert_eq!(app.tab, tab);
    }
}

#[test]
fn the_editor_keeps_other_keys_to_itself() {
    let mut app = new_app();
    app.installed = vec![wpkg("a"), wpkg("b")];
    app.tab = Tab::Installed;
    app.command_input = Some("x".to_string());
    for code in [KeyCode::Down, KeyCode::Tab, KeyCode::PageUp, KeyCode::Left, KeyCode::Other] {
        assert!(matches!(app.handle_key(ke(code)), Effect::Nothing));
    }
    assert_eq!(app.tab, Tab::Installed);
    assert_eq!(app.installed_sel.cursor, 0);
    assert_eq!(app.command_input.as_deref(), Some("x"));
}

#[test]
fn both_orders_of_the_first_lists_end_the_loading() {
    for installed_first in [true, false] {
        let mut app = new_app();
        let a = ActionResult::InitialInstalled(vec![wpkg("a")]);
        let b = ActionResult::InitialUpdates(vec![upkg("b")]);
        let (first, second) = if installed_first { (a, b) } else { (b, a) };
        app.handle_action_result(first);
        assert!(!app.busy, "input is not blocked");
        app.handle_action_result(second);
        assert_eq!(app.initial_load_pending, 0);
        assert_eq!((app.installed.len(), app.updates.len()), (1, 1));
    }
}

#[test]
fn marks_toggle_back() {
    let mut sel = wgtui::Selection::default();
    sel.cursor = 4;
    sel.toggle_current();
    assert_eq!(sel.active(), vec![4]);
    sel.toggle_current();
    assert!(sel.marked.is_empty());
    sel.clamp(0);
    assert_eq!(sel.cursor, 4, "no row to go to");
    sel.clamp(3);
    assert_eq!(sel.cursor, 2);
    sel.down(3);
    assert_eq!(sel.cursor, 2);
    assert!(!sel.up());
    sel.cursor = usize::MAX;
    sel.down(3);
    assert_eq!(sel.cursor, usize::MAX);
    sel.reset();
    assert!(sel.up());
    assert_eq!(sel.cursor, 0);
}
