//! Windows Update: the PowerShell that lists and installs pending updates, and
//! what a listing says.

use vstd::prelude::*;

use crate::text;

verus! {

/// A pending Windows Update item, as reported by `Get-WindowsUpdate`
/// (PSWindowsUpdate module).
///
/// Every field but `title` is optional: reading must tolerate a missing field
/// rather than fail outright.
#[derive(Debug, PartialEq)]
pub struct WindowsUpdateItem {
    pub kb: Option<String>,
    pub title: String,
    pub size: Option<String>,
}

impl Clone for WindowsUpdateItem {
    fn clone(&self) -> (r: Self)
        ensures
            r.kb.deep_view() == self.kb.deep_view(),
            r.title@ == self.title@,
            r.size.deep_view() == self.size.deep_view(),
    {
        WindowsUpdateItem {
            kb: text::copy_optional(&self.kb),
            title: self.title.clone(),
            size: text::copy_optional(&self.size),
        }
    }
}

/// The check script before the first mention of the file.
pub open spec fn check_head() -> Seq<char> {
    "Remove-Item -Path '"@
}

/// The check script between the two mentions of the file.
pub open spec fn check_middle() -> Seq<char> {
    "' -ErrorAction SilentlyContinue; if (-not (Get-Module -ListAvailable | Where-Object { $_.Name -eq 'PSWindowsUpdate' })) { Install-PackageProvider -Name NuGet -MinimumVersion 2.8.5.201 -Force -Scope CurrentUser; Install-Module -Name PSWindowsUpdate -Force -Scope CurrentUser }; Import-Module PSWindowsUpdate; $updates = @(Get-WindowsUpdate | Select-Object KB, Title, Size); ConvertTo-Json -InputObject $updates -Depth 3 | Out-File -FilePath '"@
}

/// The check script after the last mention of the file.
pub open spec fn check_tail() -> Seq<char> {
    "' -Encoding utf8"@
}

/// Builds the PowerShell one-liner that lists pending Windows updates as
/// JSON at `json_path`.
///
/// Ensures the PSWindowsUpdate module is present (installing it and its
/// NuGet provider at `-Scope CurrentUser`, so this never requires
/// Administrator), then writes `Get-WindowsUpdate`'s result to `json_path`
/// rather than relying on captured stdout: PSWindowsUpdate is a chatty module
/// (progress/verbose output).
///
/// `Remove-Item` on `json_path` runs first, before anything that could fail,
/// so "the file is missing after the process exits" always means "the check
/// didn't complete" — never a stale result from a previous run being reread
/// by mistake.
///
/// Two `ConvertTo-Json` pitfalls, both guarded against: `@(...)` around the
/// `Get-WindowsUpdate` pipeline forces array context so a single pending
/// update still serializes as a one-element JSON array; and
/// `-InputObject $updates` (not `$updates | ConvertTo-Json`) passes the array
/// as one value, so that an *empty* array is written as one too.
#[must_use]
pub fn windows_update_check_script(json_path: &str) -> (script: String)
    ensures
        script@ == check_head() + json_path@ + check_middle() + json_path@ + check_tail(),
{
    let mut script: String = text::copy_of("Remove-Item -Path '");
    script.append(json_path);
    script.append(
        "' -ErrorAction SilentlyContinue; if (-not (Get-Module -ListAvailable | Where-Object { $_.Name -eq 'PSWindowsUpdate' })) { Install-PackageProvider -Name NuGet -MinimumVersion 2.8.5.201 -Force -Scope CurrentUser; Install-Module -Name PSWindowsUpdate -Force -Scope CurrentUser }; Import-Module PSWindowsUpdate; $updates = @(Get-WindowsUpdate | Select-Object KB, Title, Size); ConvertTo-Json -InputObject $updates -Depth 3 | Out-File -FilePath '",
    );
    script.append(json_path);
    script.append("' -Encoding utf8");
    script
}

/// PowerShell one-liner that installs every pending Windows update.
///
/// Ensures PSWindowsUpdate is present (same `-Scope CurrentUser` guard as
/// [`windows_update_check_script`]), then runs
/// `-AcceptAll -Install -IgnoreReboot`: accepts every pending update and
/// installs it, but never reboots the machine on its own.
///
/// The execution policy of the machine is left alone: the process-scoped
/// `-ExecutionPolicy Bypass` flag passed to `powershell.exe` is enough and
/// changes nothing that outlives the process.
pub const WINDOWS_UPDATE_INSTALL_PS: &'static str =
    "if (-not (Get-Module -ListAvailable | Where-Object { $_.Name -eq 'PSWindowsUpdate' })) { Install-PackageProvider -Name NuGet -MinimumVersion 2.8.5.201 -Force -Scope CurrentUser; Install-Module -Name PSWindowsUpdate -Force -Scope CurrentUser }; Import-Module PSWindowsUpdate; Get-WindowsUpdate -AcceptAll -Install -IgnoreReboot";

/// What was found where a Windows Update check writes its result.
#[derive(Debug)]
pub enum CheckFile {
    /// The file could not be read, for this reason.
    Missing(String),
    /// Its text was read as JSON: the updates, or why it is no list of updates.
    Read(Result<Vec<WindowsUpdateItem>, String>),
}

/// The error of a text that is no list of updates.
pub open spec fn malformed_error(reason: Seq<char>) -> Seq<char> {
    "Failed to parse Windows Update JSON: "@ + reason
}

/// The error of a check that left no result.
pub open spec fn missing_error(reason: Seq<char>) -> Seq<char> {
    "Windows Update check produced no result: "@ + reason
}

/// The updates that the JSON of a Windows Update check lists, given what it
/// reads as. Malformed input is an `Err`, not a crash.
pub fn parse_windows_update_json(read: Result<Vec<WindowsUpdateItem>, String>) -> (r: Result<
    Vec<WindowsUpdateItem>,
    String,
>)
    ensures
        match read {
            Ok(items) => r == Ok::<Vec<WindowsUpdateItem>, String>(items),
            Err(reason) => r is Err && r->Err_0@ == malformed_error(reason@),
        },
{
    match read {
        Ok(items) => Ok(items),
        Err(reason) => Err(
            text::concat("Failed to parse Windows Update JSON: ", reason.as_str()),
        ),
    }
}

/// The result of a Windows Update check, given what was found where it writes
/// its JSON.
///
/// A missing file (the check never completed, or hasn't run yet) is reported
/// as its own distinct error rather than silently treated as "zero updates".
pub fn read_windows_update_result(found: CheckFile) -> (r: Result<Vec<WindowsUpdateItem>, String>)
    ensures
        match found {
            CheckFile::Missing(reason) => r is Err && r->Err_0@ == missing_error(reason@),
            CheckFile::Read(Ok(items)) => r == Ok::<Vec<WindowsUpdateItem>, String>(items),
            CheckFile::Read(Err(reason)) => r is Err && r->Err_0@ == malformed_error(reason@),
        },
{
    match found {
        CheckFile::Missing(reason) => Err(
            text::concat("Windows Update check produced no result: ", reason.as_str()),
        ),
        CheckFile::Read(read) => parse_windows_update_json(read),
    }
}

/// An error of a check says what went wrong and then the whole reason.
pub proof fn errors_carry_their_reason(reason: Seq<char>)
    ensures
        malformed_error(reason) == "Failed to parse Windows Update JSON: "@ + reason,
        missing_error(reason) == "Windows Update check produced no result: "@ + reason,
{
}

/// The two errors of a check are told apart: a missing result is never reported
/// as a malformed one, whatever the reasons.
pub proof fn missing_is_not_malformed(a: Seq<char>, b: Seq<char>)
    ensures
        missing_error(a) != malformed_error(b),
{
    reveal_strlit("Failed to parse Windows Update JSON: ");
    reveal_strlit("Windows Update check produced no result: ");
    assert(missing_error(a)[0] == 'W');
    assert(malformed_error(b)[0] == 'F');
}

} // verus!
