use serde_json::Value;
use wgtui::manifest::{
    has_json_extension, has_schema_key, is_manifest_file, looks_like_manifest, DirFile,
    ExportPackage, ExportRoot, ExportSource, LoadedFile, Manifest, ManifestPackage, ManifestScript,
};
use wgtui::package::is_field_match;
use wgtui::windows_update::CheckFile;
use wgtui::{
    find_package_json_files, is_installed, load_export_packages, load_packages_from_file,
    parse_windows_update_json, read_windows_update_result, windows_update_check_script,
    JsonPackage, WindowsUpdateItem, WingetPackage, WINDOWS_UPDATE_INSTALL_PS,
};

// ----- reading JSON -----

fn text(v: &Value) -> Option<String> {
    v.as_str().map(str::to_string)
}

fn texts(v: &Value) -> Vec<String> {
    v.as_array().map(|a| a.iter().filter_map(text).collect()).unwrap_or_default()
}

fn optional_text(v: &Value, key: &str) -> Option<String> {
    v.get(key).and_then(text)
}

fn manifest_of(content: &str) -> Option<Manifest> {
    let v: Value = serde_json::from_str(content).ok()?;
    let packages = v.get("packages").and_then(Value::as_array).map(|list| {
        list.iter()
            .map(|p| ManifestPackage {
                id: optional_text(p, "id").expect("id"),
                name: optional_text(p, "name"),
                args: p.get("args").map(texts).unwrap_or_default(),
                scope: optional_text(p, "scope"),
                locale: optional_text(p, "locale"),
            })
            .collect()
    });
    let scripts = v.get("scripts").and_then(Value::as_array).map(|list| {
        list.iter()
            .map(|s| ManifestScript {
                name: optional_text(s, "name").expect("name"),
                command: s.get("command").map(texts).expect("command"),
            })
            .collect()
    });
    Some(Manifest { packages, scripts })
}

fn export_of(content: &str) -> Option<ExportRoot> {
    let v: Value = serde_json::from_str(content).ok()?;
    let sources = v.get("Sources")?.as_array()?;
    Some(ExportRoot {
        sources: sources
            .iter()
            .map(|s| ExportSource {
                packages: s["Packages"]
                    .as_array()
                    .expect("Packages")
                    .iter()
                    .map(|p| ExportPackage {
                        package_identifier: optional_text(p, "PackageIdentifier").expect("id"),
                        package_name: optional_text(p, "PackageName"),
                    })
                    .collect(),
            })
            .collect(),
    })
}

fn load(content: &str) -> Vec<JsonPackage> {
    load_packages_from_file(&manifest_of(content), &export_of(content))
}

fn updates_of(content: &str) -> Result<Vec<WindowsUpdateItem>, String> {
    let v: Value = serde_json::from_str(content).map_err(|e| e.to_string())?;
    let list = v.as_array().ok_or("not an array")?;
    Ok(list
        .iter()
        .map(|i| WindowsUpdateItem {
            kb: optional_text(i, "KB"),
            title: optional_text(i, "Title").unwrap_or_default(),
            size: optional_text(i, "Size"),
        })
        .collect())
}

fn dir_file(name: &str, content: &str) -> DirFile {
    DirFile { file_name: name.to_string(), content: Some(content.to_string()) }
}

fn wp(name: &str, id: &str) -> WingetPackage {
    WingetPackage {
        name: name.to_string(),
        id: id.to_string(),
        version: None,
        source: None,
    }
}

#[test]
fn test_winget_package_struct() {
    let pkg = WingetPackage {
        name: "Test".to_string(),
        id: "Test.ID".to_string(),
        version: Some("1.0".to_string()),
        source: Some("winget".to_string()),
    };
    assert_eq!(pkg.name, "Test");
    assert_eq!(pkg.id, "Test.ID");
    assert_eq!(pkg.version.as_deref(), Some("1.0"));
    assert_eq!(pkg.source.as_deref(), Some("winget"));
}

#[test]
fn example_manifest_loads_and_is_well_formed() {
    let pkgs = load(
        r#"{
  "packages": [
    { "id": "Google.Chrome", "name": "Google Chrome" },
    { "id": "Oracle.JavaRuntimeEnvironment", "name": "Java (x86)", "args": ["-a", "x86", "--force"] },
    { "id": "Microsoft.Office", "name": "Microsoft 365", "locale": "pt-BR" },
    { "id": "Notepad++.Notepad++", "scope": "user" }
  ],
  "scripts": [
    {
      "name": "Ativar Windows",
      "command": ["powershell", "-NoProfile", "-Command", "irm https://get.activated.win | iex"]
    }
  ]
}"#,
    );
    assert!(pkgs.iter().any(|p| p.id == "Google.Chrome" && !p.is_script));
    assert!(pkgs.iter().any(|p| p.is_script));

    let java = pkgs
        .iter()
        .find(|p| p.id == "Oracle.JavaRuntimeEnvironment")
        .expect("java entry");
    assert!(java.install_args().contains(&"x86".to_string()));
}

#[test]
fn test_is_installed_matches_case_and_truncation() {
    let installed = vec![
        wp("Google Chrome", "Google.Chrome"),
        wp("Microsoft Visual Studio Code", "Microsoft.VisualStudioCo…"),
    ];
    // exact id, different case
    assert!(is_installed("google.chrome", "whatever", &installed));
    // name match, different case
    assert!(is_installed("Some.Other.Id", "GOOGLE CHROME", &installed));
    // winget-truncated id in the installed list
    assert!(is_installed(
        "Microsoft.VisualStudioCode",
        "VS Code",
        &installed
    ));
    // no match
    assert!(!is_installed("Mozilla.Firefox", "Firefox", &installed));
    // empty list
    assert!(!is_installed("Google.Chrome", "Google Chrome", &[]));
}

#[test]
fn test_load_canonical_manifest() {
    let packages = load(
        r#"{
                "packages": [
                    { "id": "Google.Chrome", "name": "Google Chrome" },
                    { "id": "CPUID.CPU-Z" }
                ],
                "scripts": [
                    { "name": "Ativar Windows",
                      "command": ["powershell", "-Command", "irm https://get.activated.win | iex"] }
                ]
            }"#,
    );
    assert_eq!(packages.len(), 3);
    assert_eq!(packages[0].name, "Google Chrome");
    assert!(!packages[0].is_script);
    assert_eq!(packages[1].name, "CPUID.CPU-Z"); // name falls back to id
    assert!(packages[2].is_script);
    assert_eq!(packages[2].command.as_ref().unwrap()[0], "powershell");
}

#[test]
fn test_manifest_install_args_scope_locale_and_extra() {
    let pkg = &load(
        r#"{
                "packages": [
                    { "id": "Oracle.JavaRuntimeEnvironment", "name": "Java x86",
                      "args": ["-a", "x86", "--force"], "scope": "user", "locale": "pt-BR" }
                ]
            }"#,
    )[0];
    let args = pkg.install_args();
    let pair = |a: &str, b: &str| args.windows(2).any(|w| w[0] == a && w[1] == b);
    assert!(args.starts_with(&["install".to_string(), "--exact".to_string()]));
    assert!(pair("--scope", "user"));
    assert!(pair("--locale", "pt-BR"));
    assert!(pair("-a", "x86"));
    assert!(args.contains(&"--force".to_string()));
}

#[test]
fn test_install_args_omit_scope_and_locale_by_default() {
    // No `scope`/`locale` in the manifest -> let winget pick whatever
    // installer is actually applicable.
    let pkg = JsonPackage {
        id: "Google.Chrome".to_string(),
        name: "Google Chrome".to_string(),
        command: None,
        is_script: false,
        args: Vec::new(),
        scope: None,
        locale: None,
    };
    let args = pkg.install_args();
    assert!(!args.iter().any(|a| a == "--scope"));
    assert!(!args.iter().any(|a| a == "--locale"));
}

#[test]
fn test_install_args_uses_explicit_scope_when_given() {
    let pkg = JsonPackage {
        id: "Google.Chrome".to_string(),
        name: "Google Chrome".to_string(),
        command: None,
        is_script: false,
        args: Vec::new(),
        scope: Some("machine".to_string()),
        locale: None,
    };
    let args = pkg.install_args();
    assert!(
        args.windows(2)
            .any(|w| w[0] == "--scope" && w[1] == "machine")
    );
}

#[test]
fn test_load_winget_export_import_with_dedup() {
    let packages = load(
        r#"{
                "Sources": [
                    { "Packages": [
                        { "PackageIdentifier": "7zip.7zip" },
                        { "PackageIdentifier": "Google.Chrome", "PackageName": "Chrome" },
                        { "PackageIdentifier": "7zip.7zip" }
                    ] }
                ]
            }"#,
    );
    assert_eq!(packages.len(), 2);
    assert_eq!(packages[0].id, "7zip.7zip");
    assert_eq!(packages[0].name, "7zip.7zip"); // name falls back to id
    assert_eq!(packages[1].name, "Chrome");
    assert!(packages.iter().all(|p| p.args.is_empty()));
}

#[test]
fn test_load_rejects_plain_json_and_missing_file() {
    assert!(load(r#"{ "hello": "world" }"#).is_empty());
    assert!(load_packages_from_file(&None, &None).is_empty());
}

#[test]
fn test_find_package_json_files_recognizes_schemas() {
    let manifest = ["manifest", "json"].join(".");
    let files = vec![
        dir_file(&manifest, r#"{ "packages": [{ "id": "A.B" }] }"#),
        dir_file("export.json", r#"{ "Sources": [] }"#),
        dir_file("notes.json", r#"{ "unrelated": true }"#),
        dir_file("readme.txt", "not json at all"),
    ];
    let mut names: Vec<String> = find_package_json_files(&files)
        .iter()
        .map(|i| files[*i].file_name.clone())
        .collect();
    names.sort();
    assert_eq!(names, vec!["export.json", manifest.as_str()]);
}

#[test]
fn test_load_export_packages_merges_directory() {
    let files = vec![
        LoadedFile {
            file_name: "a.json".to_string(),
            packages: load(r#"{ "packages": [{ "id": "A.One" }] }"#),
        },
        LoadedFile {
            file_name: "b.json".to_string(),
            packages: load(r#"{ "packages": [{ "id": "B.Two" }, { "id": "A.One" }] }"#),
        },
    ];
    let packages = load_export_packages(&files);
    let ids: std::collections::HashSet<&str> = packages.iter().map(|p| p.id.as_str()).collect();
    assert_eq!(packages.len(), 2); // A.One deduped across files
    assert!(ids.contains("A.One") && ids.contains("B.Two"));
}

#[test]
fn only_json_files_are_merged_and_the_first_entry_stays() {
    let file = |name: &str, entry: &str| LoadedFile {
        file_name: name.to_string(),
        packages: load(&format!(r#"{{ "packages": [{{ "id": "A", "name": "{entry}" }}] }}"#)),
    };
    let packages = load_export_packages(&vec![
        file("x.txt", "zero"),
        file("x.json", "one"),
        file("y.json", "two"),
    ]);
    assert_eq!(packages.len(), 1);
    assert_eq!(packages[0].name, "one");
}

#[test]
fn the_canonical_schema_wins_over_an_export() {
    let both = r#"{ "packages": [{ "id": "A" }],
                    "Sources": [{ "Packages": [{ "PackageIdentifier": "B" }] }] }"#;
    let packages = load(both);
    assert_eq!(packages.len(), 1);
    assert_eq!(packages[0].id, "A");
    // an empty list is there, too
    assert!(load(r#"{ "scripts": [], "Sources": [{ "Packages": [{ "PackageIdentifier": "B" }] }] }"#).is_empty());
}

#[test]
fn entries_of_a_canonical_manifest_are_not_merged() {
    let packages = load(r#"{ "packages": [{ "id": "A" }, { "id": "A" }] }"#);
    assert_eq!(packages.len(), 2);
}

#[test]
fn manifests_are_told_by_their_keys() {
    assert!(looks_like_manifest(r#"{"packages": null}"#));
    assert!(looks_like_manifest(r#"{"x": 1, "scripts": []}"#));
    assert!(looks_like_manifest(r#"{"Sources": 0}"#));
    assert!(!looks_like_manifest(r#"{"sources": []}"#));
    assert!(!looks_like_manifest(r#"["packages"]"#));
    assert!(!looks_like_manifest(r#""packages""#));
    assert!(!looks_like_manifest("packages"));
    assert!(!looks_like_manifest(""));
    assert!(has_schema_key(&Some(Some(vec!["a".into(), "Sources".into()]))));
    assert!(!has_schema_key(&Some(Some(vec!["Packages".into()]))));
    assert!(!has_schema_key(&Some(None)));
    assert!(!has_schema_key(&None));
}

#[test]
fn a_manifest_file_is_named_json_and_can_be_read() {
    assert!(has_json_extension("a.json"));
    assert!(has_json_extension("a.b.json"));
    for name in [".json", "json", "a.JSON", "a.json ", "a.jsonc", "ajson"] {
        assert!(!has_json_extension(name), "{name}");
    }
    let m = r#"{"packages": []}"#;
    assert!(is_manifest_file(&dir_file("a.json", m)));
    assert!(!is_manifest_file(&dir_file("a.txt", m)));
    assert!(!is_manifest_file(&DirFile { file_name: "a.json".into(), content: None }));
}

#[test]
fn installed_fields_match_whole_or_cut_off() {
    assert!(is_field_match("google.chrome", "google.chrome"));
    assert!(is_field_match("microsoft.visualstudiocode", "microsoft.visual…"));
    assert!(is_field_match("microsoft.visualstudiocode", "microsoft.visual..."));
    // what is left must be at least four bytes long
    assert!(!is_field_match("abcdef", "abc…"));
    assert!(is_field_match("abcdef", "abcd…"));
    assert!(is_field_match("çãxyz", "çã…"), "two letters of two bytes each");
    assert!(!is_field_match("", "google.chrome"));
    assert!(!is_field_match("firefox", "chrome"));
    // blank fields match nothing
    assert!(!is_installed("  ", "", &[wp("", "")]));
    // spaces around the wanted text do not matter
    assert!(is_installed(" Google.Chrome ", "", &[wp("x", "google.chrome")]));
    assert!(is_installed("x", "ÓRGÃO", &[wp("órgão", "y")]));
}

#[test]
fn install_args_in_full() {
    let pkg = JsonPackage {
        id: "A.B".to_string(),
        name: "n".to_string(),
        command: None,
        is_script: false,
        args: vec!["-a".to_string(), "x86".to_string()],
        scope: Some("user".to_string()),
        locale: Some("pt-BR".to_string()),
    };
    assert_eq!(
        pkg.install_args().join(" "),
        "install --exact A.B --silent --accept-package-agreements \
         --accept-source-agreements --scope user --locale pt-BR -a x86"
    );
    let copy = pkg.clone();
    assert_eq!(copy.install_args(), pkg.install_args());
    assert_eq!(copy.name, pkg.name);
}

// ----- Windows Update -----

#[test]
fn windows_update_check_script_wraps_selectobject_in_array_context() {
    let script = windows_update_check_script("C:/tmp/wgtui-wu.json");
    assert!(
        script.contains("@(Get-WindowsUpdate"),
        "must wrap in @(...) so a single result still serializes as a JSON array: {script}"
    );
}

#[test]
fn windows_update_check_script_passes_updates_via_input_object_not_pipeline() {
    let script = windows_update_check_script("C:/tmp/wgtui-wu.json");
    assert!(
        script.contains("ConvertTo-Json -InputObject $updates"),
        "must pass $updates via -InputObject, not pipe it in, or an empty \
         result set (system up to date) produces no output at all: {script}"
    );
    assert!(
        !script.contains("$updates | ConvertTo-Json"),
        "must not pipe $updates into ConvertTo-Json: {script}"
    );
}

#[test]
fn windows_update_check_script_removes_stale_file_before_anything_else() {
    let script = windows_update_check_script("C:/tmp/wgtui-wu.json");
    let remove_idx = script.find("Remove-Item").expect("Remove-Item present");
    let import_idx = script.find("Import-Module").expect("Import-Module present");
    let get_idx = script
        .find("Get-WindowsUpdate")
        .expect("Get-WindowsUpdate present");
    assert!(
        remove_idx < import_idx && remove_idx < get_idx,
        "stale output must be deleted before anything that could fail, so a missing file always means \"check didn't complete\""
    );
}

#[test]
fn windows_update_scripts_in_full() {
    let path = "C:/x";
    assert_eq!(
        windows_update_check_script(path),
        format!(
            "Remove-Item -Path '{path}' -ErrorAction SilentlyContinue; \
             if (-not (Get-Module -ListAvailable | Where-Object {{ $_.Name -eq 'PSWindowsUpdate' }})) {{ \
             Install-PackageProvider -Name NuGet -MinimumVersion 2.8.5.201 -Force -Scope CurrentUser; \
             Install-Module -Name PSWindowsUpdate -Force -Scope CurrentUser }}; \
             Import-Module PSWindowsUpdate; \
             $updates = @(Get-WindowsUpdate | Select-Object KB, Title, Size); \
             ConvertTo-Json -InputObject $updates -Depth 3 | Out-File -FilePath '{path}' -Encoding utf8"
        )
    );
    assert_eq!(
        WINDOWS_UPDATE_INSTALL_PS,
        "\
    if (-not (Get-Module -ListAvailable | Where-Object { $_.Name -eq 'PSWindowsUpdate' })) { \
    Install-PackageProvider -Name NuGet -MinimumVersion 2.8.5.201 -Force -Scope CurrentUser; \
    Install-Module -Name PSWindowsUpdate -Force -Scope CurrentUser }; \
    Import-Module PSWindowsUpdate; \
    Get-WindowsUpdate -AcceptAll -Install -IgnoreReboot"
    );
}

#[test]
fn parse_windows_update_json_empty_array_is_ok() {
    assert_eq!(parse_windows_update_json(updates_of("[]")).unwrap(), vec![]);
}

#[test]
fn parse_windows_update_json_one_item() {
    let items = parse_windows_update_json(updates_of(
        r#"[{"KB":"KB5000001","Title":"Cumulative Update","Size":"450 MB"}]"#,
    ))
    .unwrap();
    assert_eq!(items.len(), 1);
    assert_eq!(items[0].kb.as_deref(), Some("KB5000001"));
    assert_eq!(items[0].title, "Cumulative Update");
    assert_eq!(items[0].size.as_deref(), Some("450 MB"));
}

#[test]
fn parse_windows_update_json_several_items() {
    let items = parse_windows_update_json(updates_of(
        r#"[{"KB":"KB1","Title":"One","Size":"1 MB"},{"KB":"KB2","Title":"Two","Size":"2 MB"}]"#,
    ))
    .unwrap();
    assert_eq!(items.len(), 2);
    assert_eq!(items[1].kb.as_deref(), Some("KB2"));
}

#[test]
fn parse_windows_update_json_missing_fields_uses_defaults() {
    let items = parse_windows_update_json(updates_of(r#"[{"Title":"No KB or size"}]"#)).unwrap();
    assert_eq!(items.len(), 1);
    assert_eq!(items[0].kb, None);
    assert_eq!(items[0].title, "No KB or size");
    assert_eq!(items[0].size, None);
}

#[test]
fn parse_windows_update_json_malformed_input_errs() {
    assert!(parse_windows_update_json(updates_of("not json")).is_err());
    assert!(
        parse_windows_update_json(updates_of("{}")).is_err(),
        "a bare object (not an array) must not silently become an empty list"
    );
    assert_eq!(
        parse_windows_update_json(updates_of("{}")).unwrap_err(),
        "Failed to parse Windows Update JSON: not an array"
    );
}

#[test]
fn read_windows_update_result_parses_file_written_by_check_script() {
    let items = read_windows_update_result(CheckFile::Read(updates_of(
        r#"[{"KB":"KB1","Title":"T","Size":"1 MB"}]"#,
    )))
    .unwrap();
    assert_eq!(items.len(), 1);
    assert_eq!(items[0].kb.as_deref(), Some("KB1"));
}

#[test]
fn read_windows_update_result_missing_file_is_a_distinct_error() {
    let err = read_windows_update_result(CheckFile::Missing("not found".into())).unwrap_err();
    assert!(!err.is_empty());
    assert_eq!(err, "Windows Update check produced no result: not found");
    let malformed =
        read_windows_update_result(CheckFile::Read(Err("not found".into()))).unwrap_err();
    assert_ne!(err, malformed);
}

#[test]
fn merging_merged_entries_changes_nothing() {
    let file = |packages| LoadedFile { file_name: "a.json".to_string(), packages };
    let ids = |l: &[JsonPackage]| l.iter().map(|p| p.id.clone()).collect::<Vec<_>>();
    let many = load(r#"{ "packages": [{ "id": "B" }, { "id": "A" }, { "id": "B" }, { "id": "C" }] }"#);
    let once = load_export_packages(&vec![file(many)]);
    assert_eq!(ids(&once), vec!["B", "A", "C"]);
    let twice = load_export_packages(&vec![file(once.clone()), file(once.clone())]);
    assert_eq!(ids(&twice), ids(&once));
}

#[test]
fn a_value_that_was_not_cut_off_is_no_prefix() {
    let installed = [wp("Google Chrome", "Google.Chrome")];
    assert!(!is_installed("Google.Chrome.Beta", "Chrome Beta", &installed));
    assert!(!is_installed("x", "Google Chrome Beta", &installed));
    assert!(!is_field_match("google.chrome.beta", "google.chrome"));
    // one or two full stops are no ellipsis
    assert!(!is_field_match("google.chrome.beta", "google.chrome."));
    assert!(!is_field_match("google.chrome..beta", "google.chrome.."));
    assert!(is_field_match("google.chrome.beta", "google.chrome..."));
    assert!(is_field_match("google.chrome.beta", "google.chrome…"));
    assert!(is_installed("x", "Google Chrome Beta", &[wp("Google Chr…", "y")]));
}

#[test]
fn an_entry_is_found_where_one_of_two_lists_has_it() {
    let a = vec![wp("Google Chrome", "Google.Chrome")];
    let b = vec![wp("Firefox", "Mozilla.Firefox")];
    let both: Vec<WingetPackage> = a.iter().chain(b.iter()).cloned().collect();
    for (id, name) in [("GOOGLE.chrome", ""), ("", "firefox"), ("7zip.7zip", "7-Zip")] {
        assert_eq!(
            is_installed(id, name, &both),
            is_installed(id, name, &a) || is_installed(id, name, &b)
        );
    }
    assert!(is_installed("google.CHROME", "", &both));
    assert!(is_installed("", "firefox", &both));
    assert!(!is_installed("7zip.7zip", "7-Zip", &both));
}

#[test]
fn copies_are_equal() {
    let p = wp("n", "i");
    assert_eq!(p.clone(), p);
    let item = WindowsUpdateItem {
        kb: Some("KB1".into()),
        title: "T".into(),
        size: None,
    };
    assert_eq!(item.clone(), item);
}
