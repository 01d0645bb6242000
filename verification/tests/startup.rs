use wgtui::bootstrap::{advance, is_affirmative, parse_yes, question_line, Stage, BOOTSTRAP_PS};
use wgtui::{elevation_warning, ensure_winget, manual_instructions, Bootstrap};

#[test]
fn ready_when_winget_already_present() {
    let mut confirmed = false;
    let r = ensure_winget(
        || true,
        || {
            confirmed = true;
            true
        },
        || true,
    );
    assert_eq!(r, Bootstrap::Ready);
    assert!(!confirmed, "must not prompt when winget is already there");
}

#[test]
fn unavailable_when_user_declines() {
    let mut ran = false;
    let r = ensure_winget(
        || false,
        || false,
        || {
            ran = true;
            true
        },
    );
    assert_eq!(r, Bootstrap::Unavailable);
    assert!(!ran, "must not run bootstrap when the user says no");
}

#[test]
fn ready_after_successful_bootstrap() {
    let mut checks = 0;
    let mut ran = 0;
    let r = ensure_winget(
        || {
            checks += 1;
            checks > 1 // missing first, present after install
        },
        || true,
        || {
            ran += 1;
            true
        },
    );
    assert_eq!(r, Bootstrap::Ready);
    assert_eq!(ran, 1);
    assert_eq!(checks, 2);
}

#[test]
fn unavailable_when_bootstrap_does_not_fix_it() {
    let r = ensure_winget(|| false, || true, || false);
    assert_eq!(r, Bootstrap::Unavailable);
}

#[test]
fn parse_yes_accepts_pt_and_en() {
    for y in ["s", "S", " sim ", "y", "YES"] {
        assert!(parse_yes(y), "{y:?} should be yes");
    }
    for n in ["", "n", "nao", "later", "ss"] {
        assert!(!parse_yes(n), "{n:?} should be no");
    }
}

#[test]
fn warning_shown_only_when_not_elevated() {
    assert!(elevation_warning(true).is_none());
    let w = elevation_warning(false).expect("warning when not elevated");
    assert!(w.to_lowercase().contains("admin"));
}


#[test]
fn the_stages_ask_and_install_only_when_needed() {
    assert_eq!(advance(Stage::Check, true), Stage::Done(Bootstrap::Ready));
    assert_eq!(advance(Stage::Check, false), Stage::Confirm);
    assert_eq!(advance(Stage::Confirm, false), Stage::Done(Bootstrap::Unavailable));
    assert_eq!(advance(Stage::Confirm, true), Stage::Install);
    for answer in [true, false] {
        assert_eq!(advance(Stage::Install, answer), Stage::Recheck);
    }
    assert_eq!(advance(Stage::Recheck, true), Stage::Done(Bootstrap::Ready));
    assert_eq!(advance(Stage::Recheck, false), Stage::Done(Bootstrap::Unavailable));
    assert_eq!(
        advance(Stage::Done(Bootstrap::Ready), false),
        Stage::Done(Bootstrap::Ready)
    );
}

#[test]
fn a_yes_is_one_of_four_words() {
    for y in ["s", "sim", "y", "yes"] {
        assert!(is_affirmative(y));
    }
    for n in ["", "S", "YES", " y", "sí"] {
        assert!(!is_affirmative(n));
    }
    assert!(parse_yes("\u{a0}SIM\r\n"));
    assert!(!parse_yes("İ"));
}

#[test]
fn texts_of_the_bootstrap() {
    assert_eq!(
        BOOTSTRAP_PS,
        "Install-Module Microsoft.WinGet.Client -Force -Confirm:$false \
         -Scope CurrentUser; Repair-WinGetPackageManager"
    );
    assert_eq!(question_line("Instalar?"), "Instalar? [s/N] ");
    assert_eq!(
        manual_instructions(),
        [
            "winget continua indisponível. Instale manualmente e rode o wgtui de novo:",
            "  Install-Module Microsoft.WinGet.Client -Force -Scope CurrentUser",
            "  Repair-WinGetPackageManager",
        ]
    );
    assert_eq!(elevation_warning(false), Some(" ⚠ sem admin "));
}
