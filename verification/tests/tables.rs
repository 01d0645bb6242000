use wgtui::table::{find_ci, find_header, locate_columns, looks_like_row, mentions_labels};
use wgtui::table::{parse_upgrade_table, parse_winget_table, slice_columns};

#[test]
fn test_parse_winget_table() {
    let sample = "\
Name                  ID                    Version           Source
-------------------------------------------------------------------
Google Chrome         Google.Chrome         134.0.6998.165    winget
7zip.7zip             7zip.7zip             24.09              winget
";

    let packages = parse_winget_table(sample);
    assert_eq!(packages.len(), 2);
    assert_eq!(packages[0].name, "Google Chrome");
    assert_eq!(packages[0].id, "Google.Chrome");
    assert_eq!(packages[0].version.as_deref(), Some("134.0.6998.165"));
    assert_eq!(packages[0].source.as_deref(), Some("winget"));
    assert_eq!(packages[1].name, "7zip.7zip");
    assert_eq!(packages[1].id, "7zip.7zip");
}

#[test]
fn test_parse_winget_table_blank_id_does_not_leak_into_version() {
    // Manually-installed apps winget can't match to a source often show
    // a blank Id column. Reported bug: the old whitespace-splitting
    // parser then shifted the Version string into the Id field, so
    // upgrade/remove/show sent that version string as `--exact <id>`.
    let sample = "\
Name                  ID                    Version           Source
-------------------------------------------------------------------
Google Chrome         Google.Chrome         134.0.6998.165    winget
Some Weird App                              9.9.9
";
    let packages = parse_winget_table(sample);
    assert_eq!(packages.len(), 2);
    assert_eq!(packages[1].name, "Some Weird App");
    assert_eq!(packages[1].id, "", "no Id column, not the version string");
    assert_eq!(packages[1].version.as_deref(), Some("9.9.9"));
}

#[test]
fn test_parse_winget_table_real_list_output_with_available_column() {
    // Captured live from `winget list --accept-source-agreements`
    // (v1.29.290, pt-BR): `list` adds a 5th "Disponível" (Available)
    // column whenever *any* row has a pending update — WingetPackage has
    // no field for it, but it must not run on into `version` for rows
    // that populate it.
    let sample = "Nome                                                                                                  ID                                                                                              Versão                        Disponível Origem\n\
------------------------------------------------------------------------------------------------------------------------------------------------------------------------------------------------------------------------------------------------------\n\
Docker Desktop                                                                                        Docker.DockerDesktop                                                                            4.90.0                        4.91.0     winget\n\
bat                                                                                                   sharkdp.bat                                                                                     0.26.1                                   winget\n";

    let packages = parse_winget_table(sample);
    assert_eq!(packages.len(), 2);
    assert_eq!(packages[0].name, "Docker Desktop");
    assert_eq!(packages[0].id, "Docker.DockerDesktop");
    assert_eq!(
        packages[0].version.as_deref(),
        Some("4.90.0"),
        "the 4.91.0 available-version text must not leak in"
    );
    assert_eq!(packages[1].name, "bat");
    assert_eq!(packages[1].id, "sharkdp.bat");
    assert_eq!(packages[1].version.as_deref(), Some("0.26.1"));
    assert_eq!(packages[1].source.as_deref(), Some("winget"));
}

#[test]
fn test_parse_winget_table_real_search_output_with_match_column() {
    // Captured live from `winget search 7zip --accept-source-agreements`
    // (pt-BR): `search` adds a "Correspondência" (Match reason) column
    // that must likewise not leak into `version`.
    let sample = "\
Nome                               ID                        Versão          Correspondência Origem
---------------------------------------------------------------------------------------------------
7-Zip                              7zip.7zip                 26.03           Moniker: 7zip   winget
7zr                                7zip.7zr                  26.03                           winget
";
    let packages = parse_winget_table(sample);
    assert_eq!(packages.len(), 2);
    assert_eq!(packages[0].name, "7-Zip");
    assert_eq!(packages[0].id, "7zip.7zip");
    assert_eq!(packages[0].version.as_deref(), Some("26.03"));
    assert_eq!(packages[0].source.as_deref(), Some("winget"));
    assert_eq!(packages[1].id, "7zip.7zr");
    assert_eq!(packages[1].version.as_deref(), Some("26.03"));
}

#[test]
fn test_parse_upgrade_table_real_output_skips_summary_footer_lines() {
    // Captured live from `winget upgrade --accept-source-agreements`:
    // trailing prose after the table (update count, pinned-package
    // notice) must not become a bogus "package".
    let sample = "\
Nome           ID                   Versão  Disponível Origem
-------------------------------------------------------------
Docker Desktop Docker.DockerDesktop 4.90.0  4.91.0     winget
flyctl         Fly-io.flyctl        0.4.102 0.4.103    winget
4 atualizações disponíveis.
1 pacote(s) têm pinos que impedem a atualização. Use o comando 'winget pin' para exibir e editar marcações. Usar o argumento '--include-pinned' pode mostrar mais resultados.
";
    let packages = parse_upgrade_table(sample);
    assert_eq!(
        packages.len(),
        2,
        "footer lines must not appear as packages"
    );
    assert_eq!(packages[0].name, "Docker Desktop");
    assert_eq!(packages[0].installed_version, "4.90.0");
    assert_eq!(packages[0].available_version, "4.91.0");
    assert_eq!(packages[1].name, "flyctl");
}

#[test]
fn test_parse_winget_table_row_shorter_than_header_does_not_panic() {
    // Trailing columns are routinely stripped of trailing whitespace by
    // the terminal/pipe, so a data line can be physically shorter than
    // the header it's aligned under — but real winget output still pads
    // up to wherever the next column would start (see the real captured
    // fixtures above), so there's a genuine multi-space run. (Built with
    // `format!`, not a literal with trailing spaces on a line, since
    // those tend to get silently stripped by editors/tools.)
    let header = "Name                  ID                    Version           Source";
    let sep = "-".repeat(header.len());
    let sample = format!("{header}\n{sep}\nShort\nPadded{}\n", " ".repeat(16));

    let packages = parse_winget_table(&sample);
    assert_eq!(
        packages.len(),
        1,
        "'Short' has no column padding at all — not a row"
    );
    assert_eq!(packages[0].name, "Padded");
    assert_eq!(packages[0].id, "");
    assert_eq!(packages[0].version, None);
}

#[test]
fn test_parse_empty_table() {
    let packages = parse_winget_table("No installed package found");
    assert!(packages.is_empty());
}

#[test]
fn test_parse_no_header() {
    let packages = parse_winget_table("");
    assert!(packages.is_empty());
}

#[test]
fn test_parse_upgrade_table() {
    let sample = "\
Name                  Id                    Version    Available  Source
--------------------------------------------------------------------------
Google Chrome         Google.Chrome         133.0      134.0      winget
";
    let packages = parse_upgrade_table(sample);
    assert_eq!(packages.len(), 1);
    assert_eq!(packages[0].name, "Google Chrome");
    assert_eq!(packages[0].id, "Google.Chrome");
    assert_eq!(packages[0].installed_version, "133.0");
    assert_eq!(packages[0].available_version, "134.0");
    assert_eq!(packages[0].source.as_deref(), Some("winget"));
}

#[test]
fn test_parse_upgrade_table_blank_id_does_not_leak_into_version() {
    let sample = "\
Name                  Id                    Version    Available  Source
--------------------------------------------------------------------------
Google Chrome         Google.Chrome         133.0      134.0      winget
Weird Local App                             1.0        2.0
";
    let packages = parse_upgrade_table(sample);
    assert_eq!(packages.len(), 2);
    assert_eq!(packages[1].name, "Weird Local App");
    assert_eq!(packages[1].id, "", "no Id column, not the version string");
    assert_eq!(packages[1].installed_version, "1.0");
    assert_eq!(packages[1].available_version, "2.0");
}


#[test]
fn a_label_is_found_at_its_first_place_in_characters() {
    assert_eq!(find_ci("Versão  Disponível", "disponível"), Some(8));
    assert_eq!(find_ci("id ID Id", "ID"), Some(0));
    assert_eq!(find_ci("abc", "abcd"), None);
    assert_eq!(find_ci("abc", ""), None);
    assert_eq!(find_ci("", "a"), None);
    // accented letters are compared literally
    assert_eq!(find_ci("VERSÃO", "Versão"), None);
}

#[test]
fn all_labels_or_none_are_located() {
    let header = "Nome  Id  Versão";
    assert_eq!(
        locate_columns(header, &[&["Name", "Nome"], &["Id"], &["Version", "Versão"]]),
        Some(vec![0, 6, 10])
    );
    assert_eq!(locate_columns(header, &[&["Nome"], &["Source", "Origem"]]), None);
    assert_eq!(locate_columns(header, &[]), Some(vec![]));
}

#[test]
fn columns_are_cut_by_position_and_trimmed() {
    assert_eq!(slice_columns("ção  b    c", &[0, 5, 10]), vec!["ção", "b", "c"]);
    // shorter than the header: what is missing is empty
    assert_eq!(slice_columns("ab", &[0, 5, 10]), vec!["ab", "", ""]);
    // offsets out of order never reach backwards
    assert_eq!(slice_columns("abcdef", &[4, 2]), vec!["", "cdef"]);
    assert_eq!(slice_columns("abc", &[]), Vec::<&str>::new());
}

#[test]
fn the_header_is_the_first_line_with_both_labels() {
    let lines = |l: &[&str]| l.iter().map(|s| s.to_string()).collect::<Vec<String>>();
    assert_eq!(find_header(&lines(&["loading", "NAME  ID", "Name Id"])), Some(1));
    assert_eq!(find_header(&lines(&["Nome  Identificador"])), Some(0));
    assert_eq!(find_header(&lines(&["Name", "Id"])), None);
    assert!(mentions_labels("nome id"));
    assert!(!mentions_labels("Name Id"));
}

#[test]
fn a_row_has_two_spaces_in_a_row() {
    assert!(looks_like_row("a  b"));
    assert!(!looks_like_row("a b c"));
    assert!(!looks_like_row(""));
    assert!(!looks_like_row(" "));
    assert!(looks_like_row("  "));
}

#[test]
fn appended_lines_append_packages() {
    let head = "Name   Id   Version Source\n---\n";
    let table = format!("{head}A      b.c  1       winget\n");
    let longer = format!("{table}D      e.f  2       msstore\nG      h.i          winget\n");
    let (a, b) = (parse_winget_table(&table), parse_winget_table(&longer));
    assert_eq!((a.len(), b.len()), (1, 3));
    assert_eq!(a[0], b[0]);
    assert_eq!((b[1].name.as_str(), b[1].id.as_str()), ("D", "e.f"));
    assert_eq!(b[1].source.as_deref(), Some("msstore"));
    assert_eq!((b[2].name.as_str(), b[2].version.as_deref()), ("G", None));
}

#[test]
fn prose_and_rules_under_the_header_are_no_packages() {
    let table = "Name   Id   Version Source\n---\nA      b.c  1       winget\n";
    let longer = format!("{table}2 packages were found.\n\n   \n");
    let a = parse_winget_table(table);
    let b = parse_winget_table(&longer);
    assert_eq!(a, b);
    assert_eq!(a.len(), 1);
    assert_eq!(a[0].name, "A");
    assert_eq!(a[0].id, "b.c");
}

#[test]
fn a_table_without_a_column_gives_nothing() {
    assert!(parse_winget_table("Name   Id   Version\nA      b.c  1  x\n").is_empty());
    assert!(parse_upgrade_table("Name   Id   Version Source\nA      b.c  1       x\n").is_empty());
}

#[test]
fn a_row_without_a_name_is_skipped() {
    let sample = "Name   Id   Version Source\n       b.c  1       winget\n";
    assert!(parse_winget_table(sample).is_empty());
}

#[test]
fn an_extra_column_outside_version_and_source_is_ignored() {
    let sample = "Match  Name   Id   Version Source\nx      A      b.c  1       winget\n";
    let p = parse_winget_table(sample);
    assert_eq!(p[0].version.as_deref(), Some("1"));
    assert_eq!(p[0].source.as_deref(), Some("winget"));
}
