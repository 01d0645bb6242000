//! What `winget` is asked, and what its answers say.

use vstd::prelude::*;

use crate::package::{
    UpgradablePackage, UpgradablePackageModel, WingetPackage, WingetPackageModel,
};
use crate::table;
use crate::text;

verus! {

// ---------------------------------------------------------------------------
// Command lines
// ---------------------------------------------------------------------------

/// The arguments of the run that tells whether `winget` is there.
pub fn version_args() -> (args: Vec<String>)
    ensures
        args.deep_view() == seq!["--version"@],
{
    let args = text::owned(&["--version"]);
    assert(args.deep_view() =~= seq!["--version"@]);
    args
}

/// The arguments that refresh the package source indexes.
pub fn source_update_args() -> (args: Vec<String>)
    ensures
        args.deep_view() == seq!["source"@, "update"@],
{
    let args = text::owned(&["source", "update"]);
    assert(args.deep_view() =~= seq!["source"@, "update"@]);
    args
}

/// The arguments of a search.
pub open spec fn search_command(query: Seq<char>) -> Seq<Seq<char>> {
    seq!["search"@, query, "--accept-source-agreements"@]
}

/// The arguments of a search for `query`.
pub fn search_args(query: &str) -> (args: Vec<String>)
    ensures
        args.deep_view() == search_command(query@),
{
    let args = text::owned(&["search", query, "--accept-source-agreements"]);
    assert(args.deep_view() =~= search_command(query@));
    args
}

/// The arguments that list what is installed.
pub open spec fn list_command() -> Seq<Seq<char>> {
    seq!["list"@, "--accept-source-agreements"@]
}

/// The arguments that list what is installed.
pub fn list_args() -> (args: Vec<String>)
    ensures
        args.deep_view() == list_command(),
{
    let args = text::owned(&["list", "--accept-source-agreements"]);
    assert(args.deep_view() =~= list_command());
    args
}

/// The arguments that list what can be upgraded.
pub open spec fn upgrade_list_command() -> Seq<Seq<char>> {
    seq!["upgrade"@, "--accept-source-agreements"@]
}

/// The arguments that list what can be upgraded.
pub fn upgrade_list_args() -> (args: Vec<String>)
    ensures
        args.deep_view() == upgrade_list_command(),
{
    let args = text::owned(&["upgrade", "--accept-source-agreements"]);
    assert(args.deep_view() =~= upgrade_list_command());
    args
}

/// The arguments that upgrade every package, including those of unknown
/// version.
pub open spec fn upgrade_all_command() -> Seq<Seq<char>> {
    seq![
        "upgrade"@,
        "--all"@,
        "--include-unknown"@,
        "--silent"@,
        "--accept-package-agreements"@,
        "--accept-source-agreements"@,
    ]
}

/// The arguments that upgrade every package, including those of unknown
/// version.
pub fn upgrade_all_args() -> (args: Vec<String>)
    ensures
        args.deep_view() == upgrade_all_command(),
{
    let args = text::owned(
        &[
            "upgrade",
            "--all",
            "--include-unknown",
            "--silent",
            "--accept-package-agreements",
            "--accept-source-agreements",
        ],
    );
    assert(args.deep_view() =~= upgrade_all_command());
    args
}

/// The arguments of the `taskkill` that ends the process tree rooted at `pid`.
pub fn kill_args(pid: u32) -> (args: Vec<String>)
    ensures
        args.deep_view() == seq!["/PID"@, text::decimal(pid as nat), "/T"@, "/F"@],
{
    let number: String = text::to_decimal(pid as usize);
    let args = text::owned(&["/PID", number.as_str(), "/T", "/F"]);
    assert(args.deep_view() =~= seq!["/PID"@, text::decimal(pid as nat), "/T"@, "/F"@]);
    args
}

// ---------------------------------------------------------------------------
// Answers
// ---------------------------------------------------------------------------

/// The text that bytes stand for when what is no UTF-8 is replaced.
pub uninterp spec fn lossy_text(bytes: Seq<u8>) -> Seq<char>;

/// `String::from_utf8_lossy` depends on the bytes alone, and of valid UTF-8 it
/// gives the text that the bytes encode.
#[verifier::external_body]
fn decode_lossy(bytes: &Vec<u8>) -> (r: String)
    ensures
        r@ == lossy_text(bytes@),
        vstd::utf8::valid_utf8(bytes@) ==> r@ == vstd::utf8::decode_utf8(bytes@),
{
    String::from_utf8_lossy(bytes).into_owned()
}

/// The text that bytes stand for.
pub open spec fn decoded(bytes: Seq<u8>) -> Seq<char> {
    if vstd::utf8::valid_utf8(bytes) {
        vstd::utf8::decode_utf8(bytes)
    } else {
        lossy_text(bytes)
    }
}

fn decode(bytes: &Vec<u8>) -> (r: String)
    ensures
        r@ == decoded(bytes@),
{
    decode_lossy(bytes)
}

/// The packages in what `winget search` or `winget list` wrote; none if it
/// could not be run.
pub open spec fn packages_listed(stdout: Option<Seq<u8>>) -> Seq<WingetPackageModel> {
    match stdout {
        Some(bytes) => table::winget_table(decoded(bytes)),
        None => Seq::empty(),
    }
}

/// The upgrades in what `winget upgrade` wrote; none if it could not be run.
pub open spec fn upgrades_listed(stdout: Option<Seq<u8>>) -> Seq<UpgradablePackageModel> {
    match stdout {
        Some(bytes) => table::upgrade_table(decoded(bytes)),
        None => Seq::empty(),
    }
}

/// The packages in what `winget search` or `winget list` wrote to its standard
/// output; none if it could not be run (`None`).
#[must_use]
pub fn packages_in_output(stdout: &Option<Vec<u8>>) -> (packages: Vec<WingetPackage>)
    ensures
        packages.deep_view() == packages_listed(stdout.deep_view()),
{
    match stdout {
        Some(bytes) => {
            assert(bytes.deep_view() =~= bytes@);
            table::parse_winget_table(decode(bytes).as_str())
        },
        None => {
            let packages: Vec<WingetPackage> = Vec::new();
            assert(packages.deep_view() =~= Seq::<WingetPackageModel>::empty());
            packages
        },
    }
}

/// The upgrades in what `winget upgrade` wrote to its standard output; none if
/// it could not be run (`None`).
#[must_use]
pub fn upgrades_in_output(stdout: &Option<Vec<u8>>) -> (packages: Vec<UpgradablePackage>)
    ensures
        packages.deep_view() == upgrades_listed(stdout.deep_view()),
{
    match stdout {
        Some(bytes) => {
            assert(bytes.deep_view() =~= bytes@);
            table::parse_upgrade_table(decode(bytes).as_str())
        },
        None => {
            let packages: Vec<UpgradablePackage> = Vec::new();
            assert(packages.deep_view() =~= Seq::<UpgradablePackageModel>::empty());
            packages
        },
    }
}

/// How a program ended.
#[derive(Debug)]
pub enum Run {
    /// It could not be started, for this reason.
    NotStarted(String),
    /// Its end could not be awaited, for this reason.
    NotAwaited(String),
    /// It ended, well or not, and wrote this.
    Ended { success: bool, stdout: Vec<u8>, stderr: Vec<u8> },
}

/// What upgrading every package came to: what it wrote, or why it failed.
pub open spec fn upgrade_all_result(run: Run) -> Result<Seq<char>, Seq<char>> {
    match run {
        Run::NotStarted(reason) => Err(
            "Failed to run winget upgrade --all --include-unknown: "@ + reason@,
        ),
        Run::NotAwaited(reason) => Err(
            "Failed to wait on winget upgrade --all --include-unknown: "@ + reason@,
        ),
        Run::Ended { success, stdout, stderr } => end_result(
            success,
            decoded(stdout@),
            decoded(stderr@),
        ),
    }
}

/// What a text result stands for.
pub open spec fn texts(r: Result<String, String>) -> Result<Seq<char>, Seq<char>> {
    match r {
        Ok(s) => Ok(s@),
        Err(s) => Err(s@),
    }
}

/// The result of a run that ended: what it wrote to its standard output, or as
/// its error what it wrote to standard error, or else to standard output.
pub open spec fn end_result(success: bool, stdout: Seq<char>, stderr: Seq<char>) -> Result<
    Seq<char>,
    Seq<char>,
> {
    if success {
        Ok(stdout)
    } else if stderr.len() == 0 {
        Err(stdout)
    } else {
        Err(stderr)
    }
}

/// The result of a run that ended, given the texts that it wrote.
pub fn message_of(success: bool, stdout: String, stderr: String) -> (r: Result<String, String>)
    ensures
        texts(r) == end_result(success, stdout@, stderr@),
{
    if success {
        Ok(stdout)
    } else if stderr.as_str().is_empty() {
        Err(stdout)
    } else {
        Err(stderr)
    }
}

/// What upgrading every package came to, given how the run ended: what it
/// wrote, or why it failed.
pub fn upgrade_all_outcome(run: &Run) -> (r: Result<String, String>)
    ensures
        texts(r) == upgrade_all_result(*run),
{
    match run {
        Run::NotStarted(reason) => Err(
            text::concat(
                "Failed to run winget upgrade --all --include-unknown: ",
                reason.as_str(),
            ),
        ),
        Run::NotAwaited(reason) => Err(
            text::concat(
                "Failed to wait on winget upgrade --all --include-unknown: ",
                reason.as_str(),
            ),
        ),
        Run::Ended { success, stdout, stderr } => message_of(
            *success,
            decode(stdout),
            decode(stderr),
        ),
    }
}

// ---------------------------------------------------------------------------
// Laws
// ---------------------------------------------------------------------------

/// What `winget` writes is read as the text that it encodes: the packages listed
/// are those of the table in that text. What could not be run lists nothing.
pub proof fn what_is_written_is_what_is_read(written: Seq<char>)
    ensures
        packages_listed(Some(vstd::utf8::encode_utf8(written))) == table::winget_table(written),
        upgrades_listed(Some(vstd::utf8::encode_utf8(written))) == table::upgrade_table(written),
        packages_listed(None) == Seq::<WingetPackageModel>::empty(),
        upgrades_listed(None) == Seq::<UpgradablePackageModel>::empty(),
{
    vstd::utf8::encode_utf8_valid_utf8(written);
    vstd::utf8::encode_utf8_decode_utf8(written);
}

/// What is no UTF-8 is read as the text that is left when the rest is replaced.
pub proof fn other_bytes_are_read_with_replacements(bytes: Seq<u8>)
    requires
        !vstd::utf8::valid_utf8(bytes),
    ensures
        packages_listed(Some(bytes)) == table::winget_table(lossy_text(bytes)),
        upgrades_listed(Some(bytes)) == table::upgrade_table(lossy_text(bytes)),
{
}

/// The command lines in full.
pub proof fn commands_in_full(query: Seq<char>)
    ensures
        search_command(query) == seq!["search"@, query, "--accept-source-agreements"@],
        list_command() == seq!["list"@, "--accept-source-agreements"@],
        upgrade_list_command() == seq!["upgrade"@, "--accept-source-agreements"@],
        upgrade_all_command() == seq![
            "upgrade"@,
            "--all"@,
            "--include-unknown"@,
            "--silent"@,
            "--accept-package-agreements"@,
            "--accept-source-agreements"@,
        ],
{
}

/// A run that ended well gives what it wrote to its standard output. One that
/// failed gives as its error what it wrote to standard error, and what it wrote
/// to standard output only if that is nothing.
pub proof fn a_run_is_judged_by_its_end(stdout: Seq<char>, stderr: Seq<char>)
    ensures
        end_result(true, stdout, stderr) == Ok::<Seq<char>, Seq<char>>(stdout),
        stderr.len() > 0 ==> end_result(false, stdout, stderr) == Err::<Seq<char>, Seq<char>>(
            stderr,
        ),
        stderr.len() == 0 ==> end_result(false, stdout, stderr) == Err::<Seq<char>, Seq<char>>(
            stdout,
        ),
{
}

/// Upgrading every package fails with the reason if it could not be run or
/// awaited; else it is judged by its end, on the texts that it wrote.
pub proof fn upgrading_all_is_judged_by_its_run(run: Run, out: Seq<char>, err: Seq<char>)
    ensures
        run matches Run::NotStarted(reason) ==> upgrade_all_result(run) == Err::<
            Seq<char>,
            Seq<char>,
        >("Failed to run winget upgrade --all --include-unknown: "@ + reason@),
        run matches Run::NotAwaited(reason) ==> upgrade_all_result(run) == Err::<
            Seq<char>,
            Seq<char>,
        >("Failed to wait on winget upgrade --all --include-unknown: "@ + reason@),
        run matches Run::Ended { success, stdout, stderr } ==> (stdout@
            == vstd::utf8::encode_utf8(out) && stderr@ == vstd::utf8::encode_utf8(err)
            ==> upgrade_all_result(run) == end_result(success, out, err)),
{
    vstd::utf8::encode_utf8_valid_utf8(out);
    vstd::utf8::encode_utf8_decode_utf8(out);
    vstd::utf8::encode_utf8_valid_utf8(err);
    vstd::utf8::encode_utf8_decode_utf8(err);
}

/// A text result stands for its text, and stays a success or a failure.
pub proof fn a_result_stands_for_its_text(r: Result<String, String>)
    ensures
        r matches Ok(s) ==> texts(r) == Ok::<Seq<char>, Seq<char>>(s@),
        r matches Err(s) ==> texts(r) == Err::<Seq<char>, Seq<char>>(s@),
{
}

} // verus!
