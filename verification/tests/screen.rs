use wgtui::app::{PackageFile, ScannedDir};
use wgtui::dirs::{package_dirs, BaseDir};
use wgtui::text::{
    appears_in_order, byte_len, contains, is_whitespace, join, split_lines, starts_with, to_decimal,
    to_lower, trim,
};
use wgtui::view::{empty_packages_lines, CommandBar, ListView};
use wgtui::{App, JsonPackage, Tab, UpgradablePackage, WingetPackage};

fn new_app() -> App {
    let mut app = App::new(Vec::new(), Vec::new());
    app.initial_load_pending = 0;
    app
}

fn rows(v: &ListView) -> Vec<(&str, bool)> {
    v.rows.iter().map(|r| (r.text.as_str(), r.marked)).collect()
}

fn wpkg(name: &str, version: Option<&str>, source: Option<&str>) -> WingetPackage {
    WingetPackage {
        name: name.to_string(),
        id: format!("{name}.{name}"),
        version: version.map(str::to_string),
        source: source.map(str::to_string),
    }
}

fn entry(name: &str, is_script: bool) -> JsonPackage {
    JsonPackage {
        id: format!("{name}.{name}"),
        name: name.to_string(),
        command: None,
        is_script,
        args: Vec::new(),
        scope: None,
        locale: None,
    }
}

#[test]
fn the_search_pane() {
    let mut app = new_app();
    app.tab = Tab::Search;
    let v = app.render_content(false);
    assert_eq!(v.title, " Results ");
    assert_eq!(rows(&v), vec![("Type a query and press Enter to search", false)]);
    assert_eq!(v.cursor, None);
    assert!(v.focused);

    app.search_results = vec![wpkg("a", Some("1"), None), wpkg("b", None, Some("winget"))];
    app.search_sel.marked.insert(1);
    app.search_sel.cursor = 1;
    let v = app.render_content(false);
    assert_eq!(v.title, " Results (2 found) ");
    assert_eq!(
        rows(&v),
        vec![(" a  a.a  [1]  (-)", false), (" b  b.b  [-]  (winget)", true)]
    );
    assert_eq!(v.cursor, Some(1));
    app.filter_focused = true;
    let v = app.render_content(false);
    assert_eq!(v.cursor, None);
    assert!(!v.focused);
}

#[test]
fn the_search_pane_shows_what_passes_the_filter() {
    let mut app = new_app();
    app.tab = Tab::Search;
    let pkg = |name: &str, id: &str| WingetPackage {
        name: name.to_string(),
        id: id.to_string(),
        version: None,
        source: None,
    };
    app.search_results = vec![pkg("Foo", "A.Foo"), pkg("Bar", "B.Bar")];
    app.filter_query = "bar".to_string();
    assert_eq!(app.filtered_len(), 1);
    let v = app.render_search_results();
    assert_eq!(v.title, " Results (2 found) ", "the title counts what was found");
    assert_eq!(rows(&v), vec![(" Bar  B.Bar  [-]  (-)", false)]);
    // the highlighted row is the one acted on
    assert_eq!(v.cursor, Some(0));
    assert_eq!(app.selected_ids(), vec!["B.Bar"]);
    // and so is the one shown as marked
    app.toggle_selection();
    assert_eq!(rows(&app.render_search_results()), vec![(" Bar  B.Bar  [-]  (-)", true)]);
    assert_eq!(app.selected_ids(), vec!["B.Bar"]);

    app.filter_query = "qqq".to_string();
    let v = app.render_search_results();
    assert_eq!(v.title, " Results (2 found) ");
    assert_eq!(rows(&v), vec![("No packages match the filter", false)]);
    assert_eq!(v.cursor, None);
}

#[test]
fn the_updates_pane() {
    let mut app = App::new(Vec::new(), Vec::new());
    let v = app.render_content(false);
    assert_eq!(v.title, " Updates (0 available) ");
    assert_eq!(rows(&v), vec![("Carregando...", false)]);
    app.initial_load_pending = 0;
    assert_eq!(rows(&app.render_content(false)), vec![("All packages are up to date", false)]);
    app.updates = vec![UpgradablePackage {
        name: "a".into(),
        id: "a.a".into(),
        installed_version: "1".into(),
        available_version: "2".into(),
        source: None,
    }];
    app.updates_sel.marked.insert(0);
    let v = app.render_content(false);
    assert_eq!(v.title, " Updates (1 available) ");
    assert_eq!(rows(&v), vec![(" a  1 -> 2", true)]);
    app.filter_query = "x".to_string();
    let v = app.render_content(false);
    assert_eq!(v.title, " Updates (0 / 1 filtered) ");
    assert_eq!(rows(&v), vec![("No packages match the filter", false)]);
    assert_eq!(v.cursor, None);
}

#[test]
fn the_installed_pane() {
    let mut app = new_app();
    app.tab = Tab::Installed;
    assert_eq!(
        rows(&app.render_content(false)),
        vec![("No packages installed via winget", false)]
    );
    app.installed = vec![wpkg("ab", Some("1"), None), wpkg("c", None, None), wpkg("b", None, None)];
    app.filter_query = "b".to_string();
    app.installed_sel.marked.insert(1);
    let v = app.render_content(false);
    assert_eq!(v.title, " Installed Packages (2 / 3 filtered) ");
    assert_eq!(rows(&v), vec![(" ab  [1]", false), (" b  [-]", true)]);
    // the rows shown as marked are the ones acted on
    assert_eq!(app.selected_ids(), vec!["b.b"]);
    app.filter_query.clear();
    assert_eq!(app.render_content(false).title, " Installed Packages (3 total) ");
}

#[test]
fn the_apps_pane() {
    let mut app = new_app();
    app.tab = Tab::Packages;
    app.installed = vec![wpkg("chrome", None, None)];
    app.packages = vec![entry("setup", true), entry("Chrome", false), entry("zip", false)];
    app.packages_sel.marked.insert(2);
    let v = app.render_content(false);
    assert_eq!(v.title, " Apps/Scripts (3 total) ");
    assert_eq!(rows(&v), vec![("▶ setup", false), ("✓ Chrome", false), ("  zip", true)]);
    assert_eq!(v.cursor, Some(0));
    app.filter_query = "qqq".to_string();
    assert_eq!(rows(&app.render_content(false)), vec![("No packages match the filter", false)]);
    app.packages.clear();
    app.packages_diagnostic = "dir: x\n  -> 0 files\n".to_string();
    assert_eq!(
        rows(&app.render_content(true)),
        vec![("dir: x", false), ("  -> 0 files", false)]
    );
    assert_eq!(
        rows(&app.render_content(false)),
        vec![
            ("Nenhum manifesto encontrado.", false),
            ("Coloque um packages.json na pasta do executável (veja o README).", false),
            ("Defina WGTUI_DEBUG=1 para ver os diretórios verificados.", false),
        ]
    );
    assert_eq!(empty_packages_lines("", true).len(), 3);
}

#[test]
fn the_file_picker() {
    let file = |n: &str| PackageFile { path: format!("C:\\{n}"), name: n.to_string() };
    let mut app = App::new(
        vec![ScannedDir { dir: "C:".into(), files: vec![file("a.json"), file("b.json")] }],
        vec![],
    );
    app.tab = Tab::Packages;
    app.package_file_selected = 1;
    app.filter_focused = true;
    let v = app.render_content(false);
    assert_eq!(v.title, " Select a package file (Enter to load) ");
    assert_eq!(rows(&v), vec![("a.json", false), ("b.json", false)]);
    assert_eq!(v.cursor, Some(1));
    assert!(v.focused);
    app.package_files.clear();
    let v = app.render_content(false);
    assert_eq!(rows(&v), vec![("No JSON package files found", false)]);
    assert_eq!(v.cursor, None);
}

#[test]
fn the_bars() {
    let mut app = App::new(Vec::new(), Vec::new());
    let (titles, selected) = app.render_tabs();
    assert_eq!(titles, vec!["[1] Updates", "[2] Search", "[3] Installed", "[4] Apps/Scripts"]);
    assert_eq!(selected, 0);
    app.tab = Tab::Packages;
    assert_eq!(app.render_tabs().1, 3);

    app.filter_query = "q".to_string();
    let bar = app.render_filter_bar();
    assert_eq!((bar.title, bar.query.as_str(), bar.cursor), (" Filter apps/scripts ", "q", ""));
    app.filter_focused = true;
    assert_eq!(app.render_filter_bar().cursor, "█");
    app.tab = Tab::Search;
    assert_eq!(app.render_filter_bar().title, " Search (Enter to query winget) ");

    match app.render_command_bar() {
        CommandBar::Status { title, spinner, prompt } => {
            assert_eq!((title, spinner), (" Command ", "."));
            assert_eq!(prompt, "carregando listas de pacotes...");
        }
        other => panic!("{other:?}"),
    }
    app.initial_load_pending = 0;
    match app.render_command_bar() {
        CommandBar::Status { spinner, prompt, .. } => {
            assert_eq!((spinner, prompt.as_str()), ("", "waiting for command..."));
        }
        other => panic!("{other:?}"),
    }
    app.busy = true;
    app.current_command = Some("winget list".into());
    for (frame, sign) in [(0, "."), (1, ".."), (2, "."), (3, " ")] {
        app.spinner_frame = frame;
        match app.render_command_bar() {
            CommandBar::Status { spinner, prompt, .. } => {
                assert_eq!((spinner, prompt.as_str()), (sign, "winget list"));
            }
            other => panic!("{other:?}"),
        }
    }
    app.command_input = Some("winget x".into());
    match app.render_command_bar() {
        CommandBar::Editor { title, badge, input, cursor } => {
            assert_eq!(title, " Command  [Enter] run  [Esc] cancel ");
            assert_eq!((badge, input.as_str(), cursor), (" edit ", "winget x", "█"));
        }
        other => panic!("{other:?}"),
    }
}

#[test]
fn the_output_follows_its_end_or_stays_where_it_is_scrolled() {
    let mut app = new_app();
    assert_eq!(app.render_terminal_output(10), 0);
    app.command_output = (0..30).map(|i| i.to_string()).collect();
    assert_eq!(app.render_terminal_output(10), 20);
    assert_eq!(app.render_terminal_output(40), 0);
    app.output_scroll = 7;
    assert_eq!(app.render_terminal_output(10), 7);
    app.output_scroll = 99;
    assert_eq!(app.render_terminal_output(10), 29);
    app.output_scroll = usize::MAX;
    app.command_output = vec![String::new(); 65_546];
    assert_eq!(app.render_terminal_output(0), 10);
}

#[test]
fn the_status_bar_fills_the_width() {
    let mut app = new_app();
    let bar = app.render_status_bar(200);
    assert_eq!(
        bar.left,
        "  [Tab/h l] tabs  [↑↓/j k] nav  [/] filter  [Space/a] select  [Enter] show  [c] cmd  \
         [u] upgrade  [U] upgrade all  "
    );
    assert_eq!(bar.right, " [q] quit ");
    assert_eq!(bar.warning, "");
    assert_eq!(bar.padding, " ".repeat(200 - bar.left.len() - bar.right.len()));
    app.elevated = false;
    for tab in Tab::all() {
        app.tab = tab;
        let bar = app.render_status_bar(300);
        assert_eq!(bar.warning, " ⚠ sem admin ");
        assert_eq!(
            bar.left.len() + bar.padding.len() + bar.warning.len() + bar.right.len(),
            300
        );
    }
    assert_eq!(app.render_status_bar(10).padding, "");
}

#[test]
fn directories_are_searched_once_and_in_order() {
    let base = |b: &str| BaseDir {
        examples: format!("{b}/examples"),
        manifests: format!("{b}/manifests"),
        base: b.to_string(),
    };
    assert_eq!(package_dirs(&vec![base("x"), base("y")]), vec![0, 1, 2, 3, 4, 5]);
    assert_eq!(package_dirs(&vec![base("x"), base("x")]), vec![0, 1, 2]);
    assert_eq!(package_dirs(&vec![base("x/examples"), base("x")]), vec![0, 1, 2, 4, 5]);
    assert_eq!(package_dirs(&vec![]), Vec::<usize>::new());
}

// ----- texts, held against the standard library -----

#[test]
fn white_space_is_what_the_standard_library_says() {
    for n in 0..=0x10_ffff {
        if let Some(c) = char::from_u32(n) {
            assert_eq!(is_whitespace(c), c.is_whitespace(), "{n:x}");
        }
    }
}

#[test]
fn texts_behave_like_those_of_the_standard_library() {
    let samples = [
        "", " ", "a", " a b ", "\u{3000}x\u{85}", "one\ntwo", "one\r\ntwo\r\n", "\n\n", "a\r",
        "a\r\rb\n", "\r\n", "ÀÉ ç…", "ΑΣ", "İ", "x\u{b}\u{c}",
    ];
    for s in samples {
        assert_eq!(trim(s), s.trim(), "{s:?}");
        assert_eq!(split_lines(s), s.lines().collect::<Vec<_>>(), "{s:?}");
        assert_eq!(to_lower(s), s.to_lowercase(), "{s:?}");
        assert_eq!(byte_len(s), s.len(), "{s:?}");
        for t in samples {
            assert_eq!(contains(s, t), s.contains(t), "{s:?} {t:?}");
            assert_eq!(starts_with(s, t), s.starts_with(t), "{s:?} {t:?}");
        }
    }
    for n in [0, 7, 10, 99, 100, 65535, usize::MAX] {
        assert_eq!(to_decimal(n), n.to_string());
    }
    let parts = |p: &[&str]| p.iter().map(|s| s.to_string()).collect::<Vec<String>>();
    for p in [&[][..], &["a"], &["a", "", "b"]] {
        assert_eq!(join(&parts(p), ", "), p.join(", "));
    }
    assert!(appears_in_order("", ""));
    assert!(appears_in_order("ac", "abc"));
    assert!(!appears_in_order("ca", "abc"));
    assert!(!appears_in_order("aa", "a"));
}
