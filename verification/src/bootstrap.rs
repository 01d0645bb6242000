//! First-run winget bootstrap.
//!
//! When `winget` is not on `PATH`, wgtui offers to install the winget client
//! via PowerShell instead of just bailing out.

use vstd::prelude::*;

use crate::text;

verus! {

/// PowerShell command that installs and repairs the winget client for the
/// current user.
pub const BOOTSTRAP_PS: &'static str =
    "Install-Module Microsoft.WinGet.Client -Force -Confirm:$false -Scope CurrentUser; Repair-WinGetPackageManager";

/// Result of [`ensure_winget`].
#[derive(Debug, Clone, Copy, PartialEq, Eq, Structural)]
pub enum Bootstrap {
    /// winget is usable (already was, or the install succeeded).
    Ready,
    /// winget is still missing; the caller should print guidance and exit.
    Unavailable,
}

/// What comes next while it is decided whether winget is ready.
#[derive(Debug, Clone, Copy, PartialEq, Eq, Structural)]
pub enum Stage {
    /// Is winget available?
    Check,
    /// Does the user want the bootstrap?
    Confirm,
    /// Run the bootstrap.
    Install,
    /// Is winget available now?
    Recheck,
    /// It is decided.
    Done(Bootstrap),
}

/// The stage after `stage`, given the answer to it. The user is asked only if
/// winget is missing, the bootstrap runs only if the user agrees, and the last
/// check is authoritative, whatever the bootstrap said.
pub open spec fn following(stage: Stage, answer: bool) -> Stage {
    match stage {
        Stage::Check => if answer {
            Stage::Done(Bootstrap::Ready)
        } else {
            Stage::Confirm
        },
        Stage::Confirm => if answer {
            Stage::Install
        } else {
            Stage::Done(Bootstrap::Unavailable)
        },
        Stage::Install => Stage::Recheck,
        Stage::Recheck => if answer {
            Stage::Done(Bootstrap::Ready)
        } else {
            Stage::Done(Bootstrap::Unavailable)
        },
        Stage::Done(b) => Stage::Done(b),
    }
}

/// The stage after `stage`, given the answer to it.
pub fn advance(stage: Stage, answer: bool) -> (next: Stage)
    ensures
        next == following(stage, answer),
{
    match stage {
        Stage::Check => if answer {
            Stage::Done(Bootstrap::Ready)
        } else {
            Stage::Confirm
        },
        Stage::Confirm => if answer {
            Stage::Install
        } else {
            Stage::Done(Bootstrap::Unavailable)
        },
        Stage::Install => Stage::Recheck,
        Stage::Recheck => if answer {
            Stage::Done(Bootstrap::Ready)
        } else {
            Stage::Done(Bootstrap::Unavailable)
        },
        Stage::Done(b) => Stage::Done(b),
    }
}

/// What is decided for these answers.
pub open spec fn decision(present: bool, confirmed: bool, present_after: bool) -> Bootstrap {
    if present || (confirmed && present_after) {
        Bootstrap::Ready
    } else {
        Bootstrap::Unavailable
    }
}

/// Whatever the bootstrap answers, the stages lead to the decision, and they
/// pass `Confirm` only when winget is missing and `Install` only when the user
/// agreed.
pub proof fn stages_lead_to_decision(
    present: bool,
    confirmed: bool,
    installed: bool,
    present_after: bool,
)
    ensures
        present ==> following(Stage::Check, present) == Stage::Done(
            decision(present, confirmed, present_after),
        ),
        !present ==> following(Stage::Check, present) == Stage::Confirm,
        !present && !confirmed ==> following(Stage::Confirm, confirmed) == Stage::Done(
            decision(present, confirmed, present_after),
        ),
        confirmed ==> following(Stage::Confirm, confirmed) == Stage::Install,
        following(Stage::Install, installed) == Stage::Recheck,
        !present && confirmed ==> following(Stage::Recheck, present_after) == Stage::Done(
            decision(present, confirmed, present_after),
        ),
{
}

/// Decides whether winget is ready, prompting for and running the bootstrap if
/// it is missing.
///
/// The three effects are injected so the decision logic is testable:
/// * `check` — is winget available now?
/// * `confirm` — ask the user; `true` means "go ahead".
/// * `run_bootstrap` — perform the install (return value currently unused; the
///   post-install `check` is authoritative).
///
/// The user is asked only after a check that found nothing, and the bootstrap
/// runs only after the user agreed: before that neither need be callable.
///
/// The contract speaks of the answers that the closures may give. In what order
/// and how often they are called is not part of it, nor that the last answer of
/// `check` is a new one; [`advance`] fixes what is decided after each answer.
pub fn ensure_winget(
    mut check: impl FnMut() -> bool,
    mut confirm: impl FnMut() -> bool,
    mut run_bootstrap: impl FnMut() -> bool,
) -> (r: Bootstrap)
    requires
        call_requires(check, ()),
        call_ensures(check, (), false) ==> call_requires(confirm, ()),
        call_ensures(check, (), false) && call_ensures(confirm, (), true) ==> call_requires(
            run_bootstrap,
            (),
        ),
    ensures
        exists|present: bool| #[trigger]
            call_ensures(check, (), present) && if present {
                r == Bootstrap::Ready
            } else {
                exists|confirmed: bool| #[trigger]
                    call_ensures(confirm, (), confirmed) && if confirmed {
                        exists|installed: bool, present_after: bool|
                            #![trigger call_ensures(run_bootstrap, (), installed), call_ensures(check, (), present_after)]
                            call_ensures(run_bootstrap, (), installed) && call_ensures(
                                check,
                                (),
                                present_after,
                            ) && r == decision(false, true, present_after)
                    } else {
                        r == Bootstrap::Unavailable
                    }
            },
{
    let present: bool = check();
    match advance(Stage::Check, present) {
        Stage::Done(b) => b,
        _ => {
            let confirmed: bool = confirm();
            match advance(Stage::Confirm, confirmed) {
                Stage::Done(b) => b,
                next => {
                    let installed: bool = run_bootstrap();
                    let last: Stage = advance(next, installed);
                    let present_after: bool = check();
                    assert(call_ensures(run_bootstrap, (), installed));
                    assert(call_ensures(check, (), present_after));
                    match advance(last, present_after) {
                        Stage::Done(b) => b,
                        _ => Bootstrap::Unavailable,
                    }
                },
            }
        },
    }
}

/// A yes, in Portuguese or English.
pub open spec fn is_yes(word: Seq<char>) -> bool {
    word == "s"@ || word == "sim"@ || word == "y"@ || word == "yes"@
}

/// Whether `input` is an affirmative answer (pt/en, case-insensitive).
pub fn parse_yes(input: &str) -> (yes: bool)
    ensures
        yes == is_yes(text::lower(text::trimmed(input@))),
{
    let word: String = text::to_lower(text::trim(input));
    is_affirmative(word.as_str())
}

/// Whether a word, trimmed and in lower case, is a yes.
pub fn is_affirmative(word: &str) -> (yes: bool)
    ensures
        yes == is_yes(word@),
{
    text::same(word, "s") || text::same(word, "sim") || text::same(word, "y") || text::same(
        word,
        "yes",
    )
}

/// Of all words, in lower case, exactly `s`, `sim`, `y` and `yes` are a yes.
pub proof fn four_words_are_a_yes(word: Seq<char>)
    ensures
        is_yes(word) <==> word == seq!['s'] || word == seq!['s', 'i', 'm'] || word == seq!['y']
            || word == seq!['y', 'e', 's'],
{
    reveal_strlit("s");
    reveal_strlit("sim");
    reveal_strlit("y");
    reveal_strlit("yes");
    assert("s"@ =~= seq!['s']);
    assert("sim"@ =~= seq!['s', 'i', 'm']);
    assert("y"@ =~= seq!['y']);
    assert("yes"@ =~= seq!['y', 'e', 's']);
}

/// winget is ready exactly when it was there, or when the user agreed and it is
/// there afterwards.
pub proof fn ready_means_there_at_the_end(present: bool, confirmed: bool, present_after: bool)
    ensures
        decision(present, confirmed, present_after) == Bootstrap::Ready <==> present || (confirmed
            && present_after),
        decision(present, confirmed, present_after) == Bootstrap::Unavailable <==> !present && !(
        confirmed && present_after),
{
}

/// The question at the prompt, with the default answer in upper case.
pub fn question_line(question: &str) -> (s: String)
    ensures
        s@ == question@ + " [s/N] "@,
{
    text::concat(question, " [s/N] ")
}

/// Lines telling the user how to install winget by hand.
pub fn manual_instructions() -> (lines: [&'static str; 3])
    ensures
        lines@.map_values(|l: &str| l@) == seq![
            "winget continua indisponível. Instale manualmente e rode o wgtui de novo:"@,
            "  Install-Module Microsoft.WinGet.Client -Force -Scope CurrentUser"@,
            "  Repair-WinGetPackageManager"@,
        ],
{
    let lines = [
        "winget continua indisponível. Instale manualmente e rode o wgtui de novo:",
        "  Install-Module Microsoft.WinGet.Client -Force -Scope CurrentUser",
        "  Repair-WinGetPackageManager",
    ];
    assert(lines@.map_values(|l: &str| l@) =~= seq![
        "winget continua indisponível. Instale manualmente e rode o wgtui de novo:"@,
        "  Install-Module Microsoft.WinGet.Client -Force -Scope CurrentUser"@,
        "  Repair-WinGetPackageManager"@,
    ]);
    lines
}

} // verus!
