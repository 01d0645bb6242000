//! Packages: what `winget` reports and what a manifest asks for.

use vstd::prelude::*;

use crate::text;

verus! {

/// A package returned by `winget search` or `winget list`.
#[derive(Debug, PartialEq, Eq)]
pub struct WingetPackage {
    pub name: String,
    pub id: String,
    pub version: Option<String>,
    pub source: Option<String>,
}

/// A package with an available upgrade, returned by `winget upgrade` (list mode).
#[derive(Debug)]
pub struct UpgradablePackage {
    pub name: String,
    pub id: String,
    pub installed_version: String,
    pub available_version: String,
    pub source: Option<String>,
}

/// A package or script read from a manifest file.
#[derive(Debug)]
pub struct JsonPackage {
    pub id: String,
    pub name: String,
    /// For scripts: the argv to run. `None` for winget packages.
    pub command: Option<Vec<String>>,
    pub is_script: bool,
    /// Extra args appended to `winget install` (e.g. `["-a", "x86"]`).
    pub args: Vec<String>,
    /// `--scope` value; omitted (let winget pick) when `None`.
    pub scope: Option<String>,
    /// `--locale` value; omitted when `None`.
    pub locale: Option<String>,
}

/// The texts of a [`WingetPackage`].
#[verifier::ext_equal]
pub struct WingetPackageModel {
    pub name: Seq<char>,
    pub id: Seq<char>,
    pub version: Option<Seq<char>>,
    pub source: Option<Seq<char>>,
}

/// The texts of an [`UpgradablePackage`].
#[verifier::ext_equal]
pub struct UpgradablePackageModel {
    pub name: Seq<char>,
    pub id: Seq<char>,
    pub installed_version: Seq<char>,
    pub available_version: Seq<char>,
    pub source: Option<Seq<char>>,
}

/// The texts of a [`JsonPackage`].
#[verifier::ext_equal]
pub struct JsonPackageModel {
    pub id: Seq<char>,
    pub name: Seq<char>,
    pub command: Option<Seq<Seq<char>>>,
    pub is_script: bool,
    pub args: Seq<Seq<char>>,
    pub scope: Option<Seq<char>>,
    pub locale: Option<Seq<char>>,
}

impl DeepView for WingetPackage {
    type V = WingetPackageModel;

    open spec fn deep_view(&self) -> WingetPackageModel {
        WingetPackageModel {
            name: self.name@,
            id: self.id@,
            version: self.version.deep_view(),
            source: self.source.deep_view(),
        }
    }
}

impl DeepView for UpgradablePackage {
    type V = UpgradablePackageModel;

    open spec fn deep_view(&self) -> UpgradablePackageModel {
        UpgradablePackageModel {
            name: self.name@,
            id: self.id@,
            installed_version: self.installed_version@,
            available_version: self.available_version@,
            source: self.source.deep_view(),
        }
    }
}

impl DeepView for JsonPackage {
    type V = JsonPackageModel;

    open spec fn deep_view(&self) -> JsonPackageModel {
        JsonPackageModel {
            id: self.id@,
            name: self.name@,
            command: self.command.deep_view(),
            is_script: self.is_script,
            args: self.args.deep_view(),
            scope: self.scope.deep_view(),
            locale: self.locale.deep_view(),
        }
    }
}

impl Clone for WingetPackage {
    fn clone(&self) -> (r: Self)
        ensures
            r.deep_view() == self.deep_view(),
    {
        WingetPackage {
            name: self.name.clone(),
            id: self.id.clone(),
            version: text::copy_optional(&self.version),
            source: text::copy_optional(&self.source),
        }
    }
}

impl Clone for UpgradablePackage {
    fn clone(&self) -> (r: Self)
        ensures
            r.deep_view() == self.deep_view(),
    {
        UpgradablePackage {
            name: self.name.clone(),
            id: self.id.clone(),
            installed_version: self.installed_version.clone(),
            available_version: self.available_version.clone(),
            source: text::copy_optional(&self.source),
        }
    }
}

impl Clone for JsonPackage {
    fn clone(&self) -> (r: Self)
        ensures
            r.deep_view() == self.deep_view(),
    {
        JsonPackage {
            id: self.id.clone(),
            name: self.name.clone(),
            command: match &self.command {
                Some(argv) => Some(text::copy_texts(argv)),
                None => None,
            },
            is_script: self.is_script,
            args: text::copy_texts(&self.args),
            scope: text::copy_optional(&self.scope),
            locale: text::copy_optional(&self.locale),
        }
    }
}

// ---------------------------------------------------------------------------
// Installing a manifest entry
// ---------------------------------------------------------------------------

/// `flag` and its value, or nothing when there is no value.
pub open spec fn optional_flag(flag: Seq<char>, value: Option<Seq<char>>) -> Seq<Seq<char>> {
    match value {
        Some(v) => seq![flag, v],
        None => Seq::empty(),
    }
}

impl JsonPackageModel {
    /// The arguments of `winget` that install this package.
    pub open spec fn install_args(self) -> Seq<Seq<char>> {
        seq![
            "install"@,
            "--exact"@,
            self.id,
            "--silent"@,
            "--accept-package-agreements"@,
            "--accept-source-agreements"@,
        ] + optional_flag("--scope"@, self.scope) + optional_flag("--locale"@, self.locale)
            + self.args
    }
}

impl JsonPackage {
    /// The full `winget` argument list to install this package.
    ///
    /// Only meaningful for non-script entries.
    #[must_use]
    pub fn install_args(&self) -> (a: Vec<String>)
        ensures
            a.deep_view() == self.deep_view().install_args(),
    {
        let mut a: Vec<String> = Vec::new();
        text::add_text(&mut a, "install");
        text::add_text(&mut a, "--exact");
        text::add_text(&mut a, self.id.as_str());
        text::add_text(&mut a, "--silent");
        text::add_text(&mut a, "--accept-package-agreements");
        text::add_text(&mut a, "--accept-source-agreements");
        let ghost head = a.deep_view();
        assert(head =~= seq![
            "install"@,
            "--exact"@,
            self.id@,
            "--silent"@,
            "--accept-package-agreements"@,
            "--accept-source-agreements"@,
        ]);
        if let Some(scope) = &self.scope {
            text::add_text(&mut a, "--scope");
            text::add_text(&mut a, scope.as_str());
        }
        let ghost scoped = head + optional_flag("--scope"@, self.scope.deep_view());
        assert(a.deep_view() =~= scoped);
        if let Some(locale) = &self.locale {
            text::add_text(&mut a, "--locale");
            text::add_text(&mut a, locale.as_str());
        }
        let ghost localed = scoped + optional_flag("--locale"@, self.locale.deep_view());
        assert(a.deep_view() =~= localed);
        text::add_texts(&mut a, &self.args);
        a
    }
}

// ---------------------------------------------------------------------------
// Finding a manifest entry among the installed packages
// ---------------------------------------------------------------------------

/// `s` without the ellipses and full stops at its end.
pub open spec fn without_ellipsis(s: Seq<char>) -> Seq<char>
    decreases s.len(),
{
    if s.len() > 0 && (s.last() == '…' || s.last() == '.') {
        without_ellipsis(s.drop_last())
    } else {
        s
    }
}

/// A listed text was cut off: it ends in an ellipsis, the character or three
/// full stops.
pub open spec fn is_cut_off(listed: Seq<char>) -> bool {
    let n = listed.len();
    ||| n >= 1 && listed[n - 1] == '…'
    ||| n >= 3 && listed[n - 1] == '.' && listed[n - 2] == '.' && listed[n - 3] == '.'
}

/// A listed text was cut off, and what is left of it, without ellipsis and white
/// space, is at least four bytes long and begins `full`.
pub open spec fn cut_off_matches(listed: Seq<char>, full: Seq<char>) -> bool {
    let stem = text::trimmed(without_ellipsis(listed));
    is_cut_off(listed) && text::byte_count(stem) >= 4 && text::begins_with(full, stem)
}

/// A field of a manifest entry (`wanted`, in lower case) matches the same field
/// of a listed package (`listed`, in lower case).
pub open spec fn field_matches(wanted: Seq<char>, listed: Seq<char>) -> bool {
    wanted.len() > 0 && (listed == wanted || cut_off_matches(listed, wanted))
}

/// The entry `id` / `name` matches the listed package `p`, by either field,
/// whatever the case.
pub open spec fn entry_matches(id: Seq<char>, name: Seq<char>, p: WingetPackageModel) -> bool {
    ||| field_matches(text::lower(text::trimmed(id)), text::lower(p.id))
    ||| field_matches(text::lower(text::trimmed(name)), text::lower(p.name))
}

/// The entry `id` / `name` matches one of the listed packages.
pub open spec fn entry_installed(
    id: Seq<char>,
    name: Seq<char>,
    installed: Seq<WingetPackageModel>,
) -> bool {
    exists|i: int| 0 <= i < installed.len() && entry_matches(id, name, #[trigger] installed[i])
}

proof fn lemma_without_ellipsis(s: Seq<char>, j: int)
    requires
        0 <= j <= s.len(),
        forall|k: int| j <= k < s.len() ==> #[trigger] s[k] == '…' || s[k] == '.',
        j > 0 ==> s[j - 1] != '…' && s[j - 1] != '.',
    ensures
        without_ellipsis(s) == s.take(j),
    decreases s.len() - j,
{
    if j == s.len() {
        assert(s.take(j) =~= s);
    } else {
        let t = s.drop_last();
        assert(s.last() == s[s.len() - 1]);
        assert forall|k: int| j <= k < t.len() implies #[trigger] t[k] == '…' || t[k]
            == '.' by {
            assert(t[k] == s[k]);
        }
        lemma_without_ellipsis(t, j);
        assert(t.take(j) =~= s.take(j));
    }
}

fn is_cut_off_match(listed: &str, full: &str) -> (r: bool)
    ensures
        r == cut_off_matches(listed@, full@),
{
    let cs: Vec<char> = text::chars_of(listed);
    let n: usize = cs.len();
    let cut_off: bool = (n >= 1 && cs[n - 1] == '…') || (n >= 3 && cs[n - 1] == '.' && cs[n - 2]
        == '.' && cs[n - 3] == '.');
    if !cut_off {
        return false;
    }
    let mut j: usize = n;
    while j > 0 && (cs[j - 1] == '…' || cs[j - 1] == '.')
        invariant
            j <= cs@.len(),
            forall|k: int| j <= k < cs@.len() ==> #[trigger] cs@[k] == '…' || cs@[k] == '.',
        ensures
            j > 0 ==> cs@[j - 1] != '…' && cs@[j - 1] != '.',
        decreases j,
    {
        j -= 1;
    }
    proof {
        lemma_without_ellipsis(cs@, j as int);
    }
    let shown: String = text::text_of(&cs, 0, j);
    assert(shown@ =~= cs@.take(j as int));
    let stem: &str = text::trim(shown.as_str());
    text::byte_len(stem) >= 4 && text::starts_with(full, stem)
}

/// Whether a field of a manifest entry matches the same field of a listed
/// package, both in lower case.
pub fn is_field_match(wanted: &str, listed: &str) -> (r: bool)
    ensures
        r == field_matches(wanted@, listed@),
{
    !wanted.is_empty() && (text::same(listed, wanted) || is_cut_off_match(listed, wanted))
}

/// Whether the manifest entry `id` / `name` matches something in `installed`.
///
/// `winget list` output routinely differs in case from `winget search`, and
/// truncates long names/IDs with an ellipsis, so the match is case-insensitive
/// on both fields with an ellipsis-prefix fallback.
#[must_use]
pub fn is_installed(id: &str, name: &str, installed: &[WingetPackage]) -> (r: bool)
    ensures
        r == entry_installed(id@, name@, installed.deep_view()),
{
    let id_l: String = text::to_lower(text::trim(id));
    let name_l: String = text::to_lower(text::trim(name));
    let ghost all = installed.deep_view();
    let mut i: usize = 0;
    while i < installed.len()
        invariant
            i <= installed@.len(),
            all == installed.deep_view(),
            id_l@ == text::lower(text::trimmed(id@)),
            name_l@ == text::lower(text::trimmed(name@)),
            forall|k: int| 0 <= k < i ==> !entry_matches(id@, name@, #[trigger] all[k]),
        decreases installed@.len() - i,
    {
        let p: &WingetPackage = &installed[i];
        let p_id: String = text::to_lower(p.id.as_str());
        let p_name: String = text::to_lower(p.name.as_str());
        assert(all[i as int] == p.deep_view());
        if is_field_match(id_l.as_str(), p_id.as_str()) || is_field_match(
            name_l.as_str(),
            p_name.as_str(),
        ) {
            return true;
        }
        i += 1;
    }
    false
}

// ---------------------------------------------------------------------------
// Laws
// ---------------------------------------------------------------------------

/// Without a scope and a locale the arguments are the fixed ones and the
/// extra ones of the entry; a scope and a locale follow their flags.
pub proof fn scope_and_locale_are_passed_only_when_given(p: JsonPackageModel)
    ensures
        p.scope is None && p.locale is None ==> p.install_args() == seq![
            "install"@,
            "--exact"@,
            p.id,
            "--silent"@,
            "--accept-package-agreements"@,
            "--accept-source-agreements"@,
        ] + p.args,
        p.scope matches Some(scope) ==> p.install_args()[6] == "--scope"@ && p.install_args()[7]
            == scope,
        p.scope is None ==> (p.locale matches Some(locale) ==> p.install_args()[6] == "--locale"@
            && p.install_args()[7] == locale),
        p.scope is Some ==> (p.locale matches Some(locale) ==> p.install_args()[8] == "--locale"@
            && p.install_args()[9] == locale),
        p.install_args().skip(p.install_args().len() - p.args.len()) == p.args,
{
    let base = seq![
        "install"@,
        "--exact"@,
        p.id,
        "--silent"@,
        "--accept-package-agreements"@,
        "--accept-source-agreements"@,
    ];
    if p.scope is None && p.locale is None {
        assert(p.install_args() =~= base + p.args);
    }
    assert(p.install_args().skip(p.install_args().len() - p.args.len()) =~= p.args);
}

/// No flag for the scope is passed unless the entry asks for it.
pub proof fn no_scope_no_scope_flag(p: JsonPackageModel)
    requires
        p.scope is None,
        p.id != "--scope"@,
        p.locale != Some("--scope"@),
        !p.args.contains("--scope"@),
    ensures
        !p.install_args().contains("--scope"@),
{
    reveal_strlit("--scope");
    reveal_strlit("--locale");
    reveal_strlit("install");
    reveal_strlit("--exact");
    reveal_strlit("--silent");
    reveal_strlit("--accept-package-agreements");
    reveal_strlit("--accept-source-agreements");
    let all = p.install_args();
    assert("install"@[0] != "--scope"@[0]);
    assert("--exact"@[2] != "--scope"@[2]);
    assert("--silent"@.len() != "--scope"@.len());
    assert("--locale"@.len() != "--scope"@.len());
    assert forall|i: int| 0 <= i < all.len() implies all[i] != "--scope"@ by {
        let from = all.len() - p.args.len();
        if i >= from {
            assert(all[i] == p.args[i - from]);
            assert(p.args.contains(p.args[i - from]));
        }
    }
}

/// Of ASCII text the case does not matter: an entry is found among the installed
/// packages or not, however it is written.
pub proof fn case_does_not_matter(
    id: Seq<char>,
    name: Seq<char>,
    installed: Seq<WingetPackageModel>,
)
    requires
        text::all_ascii(id),
        text::all_ascii(name),
    ensures
        entry_installed(text::ascii_lowercase(id), text::ascii_lowercase(name), installed)
            == entry_installed(id, name, installed),
{
    text::lowering_ascii_twice_is_lowering_once(id);
    text::lowering_ascii_twice_is_lowering_once(name);
    let i2 = text::ascii_lowercase(id);
    let n2 = text::ascii_lowercase(name);
    assert forall|k: int| 0 <= k < installed.len() implies entry_matches(i2, n2, #[trigger] installed[k])
        == entry_matches(id, name, installed[k]) by {}
    if entry_installed(id, name, installed) {
        let k = choose|k: int|
            0 <= k < installed.len() && entry_matches(id, name, #[trigger] installed[k]);
        assert(entry_matches(i2, n2, installed[k]));
    }
    if entry_installed(i2, n2, installed) {
        let k = choose|k: int|
            0 <= k < installed.len() && entry_matches(i2, n2, #[trigger] installed[k]);
        assert(entry_matches(id, name, installed[k]));
    }
}

/// Nothing is found among no packages, and an entry is found among the packages
/// of two lists exactly when it is found in one of them.
pub proof fn an_entry_is_found_in_one_of_the_lists(
    id: Seq<char>,
    name: Seq<char>,
    a: Seq<WingetPackageModel>,
    b: Seq<WingetPackageModel>,
)
    ensures
        !entry_installed(id, name, Seq::empty()),
        entry_installed(id, name, a + b) <==> entry_installed(id, name, a) || entry_installed(
            id,
            name,
            b,
        ),
{
    if entry_installed(id, name, a) {
        let k = choose|k: int| 0 <= k < a.len() && entry_matches(id, name, #[trigger] a[k]);
        assert((a + b)[k] == a[k]);
    }
    if entry_installed(id, name, b) {
        let k = choose|k: int| 0 <= k < b.len() && entry_matches(id, name, #[trigger] b[k]);
        assert((a + b)[a.len() + k] == b[k]);
    }
    if entry_installed(id, name, a + b) {
        let k = choose|k: int|
            0 <= k < (a + b).len() && entry_matches(id, name, #[trigger] (a + b)[k]);
        if k < a.len() {
            assert(entry_matches(id, name, a[k]));
        } else {
            assert(entry_matches(id, name, b[k - a.len()]));
        }
    }
}

/// A listed value that was not cut off matches only as a whole.
pub proof fn a_whole_value_matches_only_as_a_whole(wanted: Seq<char>, listed: Seq<char>)
    requires
        !is_cut_off(listed),
    ensures
        field_matches(wanted, listed) <==> wanted.len() > 0 && listed == wanted,
{
}

/// White space and nothing else.
pub open spec fn is_blank(s: Seq<char>) -> bool {
    forall|i: int| 0 <= i < s.len() ==> text::is_space(#[trigger] s[i])
}

/// A listed text that was cut off, by its parts: what is left of the value, white
/// space around it, and the mark behind it, made of ellipses and full stops, that
/// ends in an ellipsis or in three full stops.
pub open spec fn is_cut_to(
    before: Seq<char>,
    left: Seq<char>,
    after: Seq<char>,
    mark: Seq<char>,
) -> bool {
    let n = mark.len();
    let kept = before + left + after;
    &&& is_blank(before)
    &&& is_blank(after)
    &&& left.len() > 0 ==> !text::is_space(left[0]) && !text::is_space(left[left.len() - 1])
    &&& forall|i: int| 0 <= i < n ==> #[trigger] mark[i] == '…' || mark[i] == '.'
    &&& n > 0
    &&& mark[n - 1] == '…' || (n >= 3 && mark[n - 1] == '.' && mark[n - 2] == '.' && mark[n - 3]
        == '.')
    &&& kept.len() > 0 ==> kept[kept.len() - 1] != '…' && kept[kept.len() - 1] != '.'
}

/// A listed field that was cut off matches a wanted field that it does not equal
/// exactly when at least four bytes are left of it and the wanted field begins
/// with the whole of what is left, character by character.
pub proof fn a_cut_off_field_matches_by_all_that_is_left(
    wanted: Seq<char>,
    before: Seq<char>,
    left: Seq<char>,
    after: Seq<char>,
    mark: Seq<char>,
)
    requires
        is_cut_to(before, left, after, mark),
        wanted != before + left + after + mark,
    ensures
        field_matches(wanted, before + left + after + mark) <==> wanted.len() > 0
            && vstd::utf8::encode_utf8(left).len() >= 4 && left.len() <= wanted.len() && forall|
            i: int,
        |
            0 <= i < left.len() ==> wanted[i] == #[trigger] left[i],
{
    let kept = before + left + after;
    let listed = kept + mark;
    let n = mark.len();
    assert(listed[listed.len() - 1] == mark[n - 1]);
    if mark[n - 1] != '…' {
        assert(listed[listed.len() - 2] == mark[n - 2]);
        assert(listed[listed.len() - 3] == mark[n - 3]);
    }
    assert(is_cut_off(listed));
    assert forall|k: int| kept.len() <= k < listed.len() implies #[trigger] listed[k] == '…'
        || listed[k] == '.' by {
        assert(listed[k] == mark[k - kept.len()]);
    }
    lemma_without_ellipsis(listed, kept.len() as int);
    assert(listed.take(kept.len() as int) =~= kept);
    text::trimming_takes_off_what_stands_around(before, left, after);
    text::byte_count_is_encoded_length(left);
    text::parts_are_found_where_they_stand(wanted, left);
}

/// Every listed text that ends in an ellipsis or in three full stops can be taken
/// apart that way.
pub proof fn every_cut_off_text_has_its_parts(listed: Seq<char>) -> (parts: (
    Seq<char>,
    Seq<char>,
    Seq<char>,
    Seq<char>,
))
    requires
        listed.len() > 0,
        listed[listed.len() - 1] == '…' || (listed.len() >= 3 && listed[listed.len() - 1] == '.'
            && listed[listed.len() - 2] == '.' && listed[listed.len() - 3] == '.'),
    ensures
        is_cut_to(parts.0, parts.1, parts.2, parts.3),
        listed == parts.0 + parts.1 + parts.2 + parts.3,
{
    let j = lemma_mark_place(listed);
    let kept = listed.take(j);
    let mark = listed.skip(j);
    let (before, left, after) = lemma_blank_ends(kept);
    assert(mark[mark.len() - 1] == listed[listed.len() - 1]);
    if listed[listed.len() - 1] == '.' {
        assert(mark[mark.len() - 2] == listed[listed.len() - 2]);
        assert(mark[mark.len() - 3] == listed[listed.len() - 3]);
    }
    assert(kept + mark =~= listed);
    (before, left, after, mark)
}

proof fn lemma_mark_place(s: Seq<char>) -> (j: int)
    ensures
        0 <= j <= s.len(),
        forall|k: int| j <= k < s.len() ==> #[trigger] s[k] == '…' || s[k] == '.',
        j > 0 ==> s[j - 1] != '…' && s[j - 1] != '.',
        s.len() >= 1 && s[s.len() - 1] == '…' ==> j <= s.len() - 1,
        s.len() >= 3 && s[s.len() - 1] == '.' && s[s.len() - 2] == '.' && s[s.len() - 3] == '.'
            ==> j <= s.len() - 3,
    decreases s.len(),
{
    if s.len() > 0 && (s.last() == '…' || s.last() == '.') {
        let t = s.drop_last();
        let j = lemma_mark_place(t);
        assert forall|k: int| j <= k < s.len() implies #[trigger] s[k] == '…' || s[k] == '.' by {
            if k < t.len() {
                assert(t[k] == s[k]);
            }
        }
        if s.len() >= 3 && s[s.len() - 1] == '.' && s[s.len() - 2] == '.' && s[s.len() - 3] == '.' {
            assert(j <= s.len() - 3) by {
                if j == s.len() - 1 {
                    assert(s[j - 1] == '.');
                }
                if j == s.len() - 2 {
                    assert(s[j - 1] == '.');
                }
            }
        }
        j
    } else {
        s.len() as int
    }
}

proof fn lemma_blank_start(s: Seq<char>, from: int) -> (i: int)
    requires
        0 <= from <= s.len(),
    ensures
        from <= i <= s.len(),
        forall|k: int| from <= k < i ==> text::is_space(#[trigger] s[k]),
        i < s.len() ==> !text::is_space(s[i]),
    decreases s.len() - from,
{
    if from < s.len() && text::is_space(s[from]) {
        lemma_blank_start(s, from + 1)
    } else {
        from
    }
}

proof fn lemma_blank_end(s: Seq<char>, from: int, to: int) -> (j: int)
    requires
        0 <= from <= to <= s.len(),
    ensures
        from <= j <= to,
        forall|k: int| j <= k < to ==> text::is_space(#[trigger] s[k]),
        from < j ==> !text::is_space(s[j - 1]),
    decreases to - from,
{
    if from < to && text::is_space(s[to - 1]) {
        lemma_blank_end(s, from, to - 1)
    } else {
        to
    }
}

proof fn lemma_blank_ends(s: Seq<char>) -> (parts: (Seq<char>, Seq<char>, Seq<char>))
    ensures
        s == parts.0 + parts.1 + parts.2,
        is_blank(parts.0),
        is_blank(parts.2),
        parts.1.len() > 0 ==> !text::is_space(parts.1[0]) && !text::is_space(
            parts.1[parts.1.len() - 1],
        ),
{
    let i = lemma_blank_start(s, 0);
    let j = lemma_blank_end(s, i, s.len() as int);
    let parts = (s.take(i), s.subrange(i, j), s.skip(j));
    assert(s =~= parts.0 + parts.1 + parts.2);
    parts
}

/// A field that equals the listed one matches it, unless it is empty; an empty
/// field matches nothing.
pub proof fn equal_fields_match(field: Seq<char>, listed: Seq<char>)
    ensures
        field.len() > 0 ==> field_matches(field, field),
        !field_matches(Seq::empty(), listed),
{
}

/// Among the packages of a list with one package more an entry is found exactly
/// when it was found before or the one more has its id or its name, both without
/// white space around them and in lower case. The id is held against ids alone,
/// the name against names alone.
pub proof fn an_entry_is_found_by_id_or_by_name(
    id: Seq<char>,
    name: Seq<char>,
    installed: Seq<WingetPackageModel>,
    p: WingetPackageModel,
)
    ensures
        entry_installed(id, name, installed.push(p)) <==> entry_installed(id, name, installed)
            || field_matches(text::lower(text::trimmed(id)), text::lower(p.id)) || field_matches(
            text::lower(text::trimmed(name)),
            text::lower(p.name),
        ),
        !entry_installed(id, name, Seq::empty()),
{
    an_entry_is_found_in_one_of_the_lists(id, name, installed, seq![p]);
    assert(installed + seq![p] =~= installed.push(p));
    let one = seq![p];
    if entry_installed(id, name, one) {
        let k = choose|k: int| 0 <= k < one.len() && entry_matches(id, name, #[trigger] one[k]);
        assert(one[k] == p);
    }
    if entry_matches(id, name, p) {
        assert(entry_matches(id, name, one[0]));
    }
}

/// The command line that installs a package names it exactly, asks no questions,
/// passes scope and locale where the entry gives them, and ends with the entry's
/// own arguments, all of them.
pub proof fn install_arguments_in_full(p: JsonPackageModel)
    ensures
        p.install_args() == seq![
            "install"@,
            "--exact"@,
            p.id,
            "--silent"@,
            "--accept-package-agreements"@,
            "--accept-source-agreements"@,
        ] + (match (p.scope, p.locale) {
            (None, None) => Seq::<Seq<char>>::empty(),
            (Some(scope), None) => seq!["--scope"@, scope],
            (None, Some(locale)) => seq!["--locale"@, locale],
            (Some(scope), Some(locale)) => seq!["--scope"@, scope, "--locale"@, locale],
        }) + p.args,
{
    let head = seq![
        "install"@,
        "--exact"@,
        p.id,
        "--silent"@,
        "--accept-package-agreements"@,
        "--accept-source-agreements"@,
    ];
    let e = Seq::<Seq<char>>::empty();
    match (p.scope, p.locale) {
        (None, None) => {
            assert(head + e + e + p.args =~= head + e + p.args);
        },
        (Some(scope), None) => {
            assert(head + seq!["--scope"@, scope] + e + p.args =~= head + seq!["--scope"@, scope]
                + p.args);
        },
        (None, Some(locale)) => {
            assert(head + e + seq!["--locale"@, locale] + p.args =~= head + seq![
                "--locale"@,
                locale,
            ] + p.args);
        },
        (Some(scope), Some(locale)) => {
            assert(head + seq!["--scope"@, scope] + seq!["--locale"@, locale] + p.args =~= head
                + seq!["--scope"@, scope, "--locale"@, locale] + p.args);
        },
    }
}

/// What stands for a package is all of its texts, each in its own field.
pub proof fn packages_are_told_apart_by_all_their_texts(
    p: WingetPackage,
    u: UpgradablePackage,
    j: JsonPackage,
)
    ensures
        p.deep_view().name == p.name@ && p.deep_view().id == p.id@,
        p.version matches Some(v) ==> p.deep_view().version == Some(v@),
        p.version is None ==> p.deep_view().version is None,
        p.source matches Some(s) ==> p.deep_view().source == Some(s@),
        p.source is None ==> p.deep_view().source is None,
        u.deep_view().name == u.name@ && u.deep_view().id == u.id@,
        u.deep_view().installed_version == u.installed_version@,
        u.deep_view().available_version == u.available_version@,
        u.source matches Some(s) ==> u.deep_view().source == Some(s@),
        u.source is None ==> u.deep_view().source is None,
        j.deep_view().id == j.id@ && j.deep_view().name == j.name@ && j.deep_view().is_script
            == j.is_script,
        j.command is None ==> j.deep_view().command is None,
        j.command matches Some(argv) ==> j.deep_view().command == Some(
            argv@.map_values(|w: String| w@),
        ),
        j.deep_view().args == j.args@.map_values(|w: String| w@),
        j.scope matches Some(s) ==> j.deep_view().scope == Some(s@),
        j.scope is None ==> j.deep_view().scope is None,
        j.locale matches Some(l) ==> j.deep_view().locale == Some(l@),
        j.locale is None ==> j.deep_view().locale is None,
{
    assert(j.args.deep_view() =~= j.args@.map_values(|w: String| w@));
    if let Some(argv) = j.command {
        assert(argv.deep_view() =~= argv@.map_values(|w: String| w@));
    }
}

/// A listed value that ends neither in an ellipsis nor in three full stops
/// matches nothing but itself.
pub proof fn a_value_without_a_mark_matches_itself_alone(wanted: Seq<char>, listed: Seq<char>)
    requires
        listed.len() > 0 ==> listed[listed.len() - 1] != '…',
        listed.len() >= 3 ==> !(listed[listed.len() - 1] == '.' && listed[listed.len() - 2] == '.'
            && listed[listed.len() - 3] == '.'),
    ensures
        field_matches(wanted, listed) <==> wanted.len() > 0 && wanted == listed,
{
}

} // verus!
