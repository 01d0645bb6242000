//! Manifests: the JSON files that say what to install and which scripts to run.
//!
//! The canonical schema is
//! `{ "packages": [{ "id", "name?", "args?", "scope?", "locale?" }],
//!    "scripts":  [{ "name", "command": [..] }] }`;
//! a file written by `winget export` can be imported too.

use vstd::prelude::*;

use crate::package::{JsonPackage, JsonPackageModel};
use crate::list;
use crate::selection;
use crate::text;

verus! {

/// The canonical manifest.
#[derive(Debug)]
pub struct Manifest {
    pub packages: Option<Vec<ManifestPackage>>,
    pub scripts: Option<Vec<ManifestScript>>,
}

/// A package of the canonical manifest.
#[derive(Debug)]
pub struct ManifestPackage {
    pub id: String,
    pub name: Option<String>,
    pub args: Vec<String>,
    pub scope: Option<String>,
    pub locale: Option<String>,
}

/// A script of the canonical manifest.
#[derive(Debug)]
pub struct ManifestScript {
    pub name: String,
    pub command: Vec<String>,
}

/// A file written by `winget export`.
#[derive(Debug)]
pub struct ExportRoot {
    pub sources: Vec<ExportSource>,
}

/// The packages of one source in a `winget export` file.
#[derive(Debug)]
pub struct ExportSource {
    pub packages: Vec<ExportPackage>,
}

/// A package in a `winget export` file.
#[derive(Debug)]
pub struct ExportPackage {
    pub package_identifier: String,
    pub package_name: Option<String>,
}

/// The texts of a [`ManifestPackage`].
#[verifier::ext_equal]
pub struct ManifestPackageModel {
    pub id: Seq<char>,
    pub name: Option<Seq<char>>,
    pub args: Seq<Seq<char>>,
    pub scope: Option<Seq<char>>,
    pub locale: Option<Seq<char>>,
}

/// The texts of a [`ManifestScript`].
#[verifier::ext_equal]
pub struct ManifestScriptModel {
    pub name: Seq<char>,
    pub command: Seq<Seq<char>>,
}

/// The texts of an [`ExportPackage`].
#[verifier::ext_equal]
pub struct ExportPackageModel {
    pub package_identifier: Seq<char>,
    pub package_name: Option<Seq<char>>,
}

impl DeepView for ManifestPackage {
    type V = ManifestPackageModel;

    open spec fn deep_view(&self) -> ManifestPackageModel {
        ManifestPackageModel {
            id: self.id@,
            name: self.name.deep_view(),
            args: self.args.deep_view(),
            scope: self.scope.deep_view(),
            locale: self.locale.deep_view(),
        }
    }
}

impl DeepView for ManifestScript {
    type V = ManifestScriptModel;

    open spec fn deep_view(&self) -> ManifestScriptModel {
        ManifestScriptModel { name: self.name@, command: self.command.deep_view() }
    }
}

impl DeepView for ExportPackage {
    type V = ExportPackageModel;

    open spec fn deep_view(&self) -> ExportPackageModel {
        ExportPackageModel {
            package_identifier: self.package_identifier@,
            package_name: self.package_name.deep_view(),
        }
    }
}

impl DeepView for ExportSource {
    type V = Seq<ExportPackageModel>;

    open spec fn deep_view(&self) -> Seq<ExportPackageModel> {
        self.packages.deep_view()
    }
}

// ---------------------------------------------------------------------------
// Recognizing a manifest
// ---------------------------------------------------------------------------

/// What `content` holds as JSON: `None` if it is no JSON, `Some(None)` if it
/// holds something else than an object, else the keys of the object.
pub uninterp spec fn json_keys(content: Seq<char>) -> Option<Option<Seq<Seq<char>>>>;

/// `serde_json::from_str` reads `content` as a JSON value; of an object the
/// keys are kept. What comes out depends on `content` alone.
#[verifier::external_body]
fn json_object_keys(content: &str) -> (r: Option<Option<Vec<String>>>)
    ensures
        r.deep_view() == json_keys(content@),
{
    match serde_json::from_str::<serde_json::Value>(content) {
        Ok(serde_json::Value::Object(members)) => Some(Some(members.keys().cloned().collect())),
        Ok(_) => Some(None),
        Err(_) => None,
    }
}

/// It is an object with a key that names a schema: `packages` / `scripts` for
/// the canonical one, `Sources` for a `winget export` file.
pub open spec fn names_schema(keys: Option<Option<Seq<Seq<char>>>>) -> bool {
    match keys {
        Some(Some(k)) => k.contains("packages"@) || k.contains("scripts"@) || k.contains(
            "Sources"@,
        ),
        _ => false,
    }
}

/// Whether the keys of a JSON object are those of a recognized manifest schema.
/// `None` stands for text that is no JSON, `Some(None)` for JSON that is no
/// object.
pub fn has_schema_key(keys: &Option<Option<Vec<String>>>) -> (r: bool)
    ensures
        r == names_schema(keys.deep_view()),
{
    match keys {
        Some(Some(k)) => {
            let ghost all = k.deep_view();
            let mut i: usize = 0;
            while i < k.len()
                invariant
                    i <= k@.len(),
                    all == k.deep_view(),
                    keys.deep_view() == Some(Some(all)),
                    forall|j: int|
                        0 <= j < i ==> #[trigger] all[j] != "packages"@ && all[j] != "scripts"@
                            && all[j] != "Sources"@,
                decreases k@.len() - i,
            {
                let key: &str = k[i].as_str();
                assert(all[i as int] == key@);
                if text::same(key, "packages") || text::same(key, "scripts") || text::same(
                    key,
                    "Sources",
                ) {
                    assert(all.contains(key@));
                    return true;
                }
                i += 1;
            }
            false
        },
        _ => false,
    }
}

/// True if `content` parses as JSON and carries a key of a recognized manifest
/// schema (`packages`/`scripts` for the wgtui format, `Sources` for winget export).
pub fn looks_like_manifest(content: &str) -> (r: bool)
    ensures
        r == names_schema(json_keys(content@)),
{
    has_schema_key(&json_object_keys(content))
}

/// A file name with the extension `json`.
pub open spec fn is_json_name(file_name: Seq<char>) -> bool {
    file_name.len() > 5 && file_name.skip(file_name.len() - 5) == ".json"@
}

/// Whether the extension of a file name is `json`.
pub fn has_json_extension(file_name: &str) -> (r: bool)
    ensures
        r == is_json_name(file_name@),
{
    let n: usize = file_name.unicode_len();
    if n <= 5 {
        return false;
    }
    let end: &str = file_name.substring_char(n - 5, n);
    assert(end@ =~= file_name@.skip(n - 5));
    text::same(end, ".json")
}

/// A file of a directory.
#[derive(Debug)]
pub struct DirFile {
    pub file_name: String,
    /// What it holds; `None` if it could not be read.
    pub content: Option<String>,
}

/// A manifest to offer: a `*.json` file that could be read and looks like a
/// manifest.
pub open spec fn is_offered(file: DirFile) -> bool {
    is_json_name(file.file_name@) && match file.content {
        Some(c) => names_schema(json_keys(c@)),
        None => false,
    }
}

/// Whether a file is a manifest to offer.
pub fn is_manifest_file(file: &DirFile) -> (r: bool)
    ensures
        r == is_offered(*file),
{
    has_json_extension(file.file_name.as_str()) && match &file.content {
        Some(c) => looks_like_manifest(c.as_str()),
        None => false,
    }
}

/// The places of the manifests to offer.
pub open spec fn offered(files: Seq<DirFile>) -> Set<usize> {
    Set::new(|i: usize| i < files.len() && is_offered(files[i as int]))
}

/// Finds the `*.json` files that look like a wgtui manifest or a winget export
/// among the files of a directory, returning their places.
#[must_use]
pub fn find_package_json_files(files: &Vec<DirFile>) -> (places: Vec<usize>)
    ensures
        selection::lists_ascending(places@, offered(files@)),
{
    let mut places: Vec<usize> = Vec::new();
    let mut i: usize = 0;
    while i < files.len()
        invariant
            i <= files@.len(),
            forall|a: int, b: int| 0 <= a < b < places@.len() ==> places@[a] < places@[b],
            forall|k: usize| #[trigger]
                places@.contains(k) <==> k < i && offered(files@).contains(k),
        decreases files@.len() - i,
    {
        let ghost before = places@;
        if is_manifest_file(&files[i]) {
            assert forall|a: int| 0 <= a < before.len() implies before[a] < i by {
                assert(before.contains(before[a]));
            }
            places.push(i);
            assert forall|k: usize| #[trigger]
                places@.contains(k) <==> k < i + 1 && offered(files@).contains(k) by {
                assert(places@[before.len() as int] == i);
                if before.contains(k) {
                    assert(places@[before.index_of(k)] == k);
                }
                if places@.contains(k) && k != i {
                    assert(before[places@.index_of(k)] == k);
                }
            }
        }
        i += 1;
    }
    places
}

// ---------------------------------------------------------------------------
// Entries
// ---------------------------------------------------------------------------

/// The text, or `other` when it is absent.
pub open spec fn text_or(o: Option<Seq<char>>, other: Seq<char>) -> Seq<char> {
    match o {
        Some(s) => s,
        None => other,
    }
}

/// The entry that a package of the canonical manifest stands for; its name is
/// its id when it has none.
pub open spec fn package_entry(p: ManifestPackageModel) -> JsonPackageModel {
    JsonPackageModel {
        id: p.id,
        name: text_or(p.name, p.id),
        command: None,
        is_script: false,
        args: p.args,
        scope: p.scope,
        locale: p.locale,
    }
}

/// The entry that a script of the canonical manifest stands for.
pub open spec fn script_entry(s: ManifestScriptModel) -> JsonPackageModel {
    JsonPackageModel {
        id: s.name,
        name: s.name,
        command: Some(s.command),
        is_script: true,
        args: Seq::empty(),
        scope: None,
        locale: None,
    }
}

/// The entry that a package of a `winget export` file stands for; its name is
/// its identifier when it has none.
pub open spec fn export_entry(p: ExportPackageModel) -> JsonPackageModel {
    JsonPackageModel {
        id: p.package_identifier,
        name: text_or(p.package_name, p.package_identifier),
        command: None,
        is_script: false,
        args: Seq::empty(),
        scope: None,
        locale: None,
    }
}

/// The packages, then the scripts, each in the order of the manifest.
pub open spec fn manifest_entries(
    packages: Option<Seq<ManifestPackageModel>>,
    scripts: Option<Seq<ManifestScriptModel>>,
) -> Seq<JsonPackageModel> {
    list::or_empty(packages).map_values(|p: ManifestPackageModel| package_entry(p)) + list::or_empty(
        scripts,
    ).map_values(|s: ManifestScriptModel| script_entry(s))
}

/// One of the entries has this id.
pub open spec fn has_id(entries: Seq<JsonPackageModel>, id: Seq<char>) -> bool {
    exists|i: int| 0 <= i < entries.len() && #[trigger] entries[i].id == id
}

/// The entries without those whose id an earlier one has.
pub open spec fn first_of_each_id(entries: Seq<JsonPackageModel>) -> Seq<JsonPackageModel>
    decreases entries.len(),
{
    if entries.len() == 0 {
        entries
    } else {
        let kept = first_of_each_id(entries.drop_last());
        if has_id(kept, entries.last().id) {
            kept
        } else {
            kept.push(entries.last())
        }
    }
}

/// The entries of a `winget export` file, each identifier once.
pub open spec fn export_entries(sources: Seq<Seq<ExportPackageModel>>) -> Seq<JsonPackageModel> {
    first_of_each_id(
        list::concatenated(sources).map_values(|p: ExportPackageModel| export_entry(p)),
    )
}

impl Manifest {
    /// At least one of the two lists is there.
    pub open spec fn is_canonical(&self) -> bool {
        self.packages is Some || self.scripts is Some
    }

    /// The entries of this manifest.
    pub open spec fn entries(&self) -> Seq<JsonPackageModel> {
        manifest_entries(self.packages.deep_view(), self.scripts.deep_view())
    }
}

fn name_or(name: &Option<String>, id: &String) -> (r: String)
    ensures
        r@ == text_or(name.deep_view(), id@),
{
    match name {
        Some(n) => n.clone(),
        None => id.clone(),
    }
}

fn entry_of_package(p: &ManifestPackage) -> (e: JsonPackage)
    ensures
        e.deep_view() == package_entry(p.deep_view()),
{
    JsonPackage {
        id: p.id.clone(),
        name: name_or(&p.name, &p.id),
        command: None,
        is_script: false,
        args: text::copy_texts(&p.args),
        scope: text::copy_optional(&p.scope),
        locale: text::copy_optional(&p.locale),
    }
}

fn entry_of_script(s: &ManifestScript) -> (e: JsonPackage)
    ensures
        e.deep_view() == script_entry(s.deep_view()),
{
    let args: Vec<String> = Vec::new();
    assert(args.deep_view() =~= Seq::<Seq<char>>::empty());
    JsonPackage {
        id: s.name.clone(),
        name: s.name.clone(),
        command: Some(text::copy_texts(&s.command)),
        is_script: true,
        args,
        scope: None,
        locale: None,
    }
}

fn entry_of_export(p: &ExportPackage) -> (e: JsonPackage)
    ensures
        e.deep_view() == export_entry(p.deep_view()),
{
    let args: Vec<String> = Vec::new();
    assert(args.deep_view() =~= Seq::<Seq<char>>::empty());
    JsonPackage {
        id: p.package_identifier.clone(),
        name: name_or(&p.package_name, &p.package_identifier),
        command: None,
        is_script: false,
        args,
        scope: None,
        locale: None,
    }
}

/// The entries of a canonical manifest: its packages, then its scripts.
pub fn entries_of_manifest(manifest: &Manifest) -> (result: Vec<JsonPackage>)
    ensures
        result.deep_view() == manifest.entries(),
{
    let mut result: Vec<JsonPackage> = Vec::new();
    let ghost packages = list::or_empty(manifest.packages.deep_view());
    let ghost scripts = list::or_empty(manifest.scripts.deep_view());
    let ghost first = packages.map_values(|p: ManifestPackageModel| package_entry(p));
    let ghost second = scripts.map_values(|s: ManifestScriptModel| script_entry(s));
    assert(result.deep_view() =~= first.take(0));
    if let Some(list) = &manifest.packages {
        let mut i: usize = 0;
        while i < list.len()
            invariant
                i <= list@.len(),
                packages == list.deep_view(),
                first == packages.map_values(|p: ManifestPackageModel| package_entry(p)),
                result.deep_view() == first.take(i as int),
            decreases list@.len() - i,
        {
            list::add_item(&mut result, entry_of_package(&list[i]));
            assert(first.take(i + 1) =~= first.take(i as int).push(first[i as int]));
            i += 1;
        }
    }
    assert(result.deep_view() =~= first + second.take(0));
    if let Some(list) = &manifest.scripts {
        let mut i: usize = 0;
        while i < list.len()
            invariant
                i <= list@.len(),
                scripts == list.deep_view(),
                second == scripts.map_values(|s: ManifestScriptModel| script_entry(s)),
                result.deep_view() == first + second.take(i as int),
            decreases list@.len() - i,
        {
            list::add_item(&mut result, entry_of_script(&list[i]));
            assert(first + second.take(i + 1) =~= (first + second.take(i as int)).push(
                second[i as int],
            ));
            i += 1;
        }
    }
    assert(second.take(second.len() as int) =~= second);
    result
}

/// Appends `entry` unless one with its id is there already.
fn add_entry(result: &mut Vec<JsonPackage>, entry: JsonPackage)
    ensures
        final(result).deep_view() == if has_id(old(result).deep_view(), entry.deep_view().id) {
            old(result).deep_view()
        } else {
            old(result).deep_view().push(entry.deep_view())
        },
{
    let ghost all = result.deep_view();
    let mut i: usize = 0;
    while i < result.len()
        invariant
            i <= result@.len(),
            all == result.deep_view(),
            *result == *old(result),
            forall|k: int| 0 <= k < i ==> #[trigger] all[k].id != entry.id@,
        decreases result@.len() - i,
    {
        assert(all[i as int].id == result@[i as int].id@);
        if result[i].id == entry.id {
            return ;
        }
        i += 1;
    }
    list::add_item(result, entry);
}

proof fn lemma_first_of_each_id_push(entries: Seq<JsonPackageModel>, e: JsonPackageModel)
    ensures
        first_of_each_id(entries.push(e)) == if has_id(first_of_each_id(entries), e.id) {
            first_of_each_id(entries)
        } else {
            first_of_each_id(entries).push(e)
        },
{
    assert(entries.push(e).drop_last() =~= entries);
}

/// The entries of a `winget export` file, each identifier once.
pub fn entries_of_export(root: &ExportRoot) -> (result: Vec<JsonPackage>)
    ensures
        result.deep_view() == export_entries(root.sources.deep_view()),
{
    let mut result: Vec<JsonPackage> = Vec::new();
    let ghost sources = root.sources.deep_view();
    let ghost f = |p: ExportPackageModel| export_entry(p);
    assert(result.deep_view() =~= first_of_each_id(list::concatenated(sources.take(0)).map_values(f)));
    let mut i: usize = 0;
    while i < root.sources.len()
        invariant
            i <= root.sources@.len(),
            sources == root.sources.deep_view(),
            f == (|p: ExportPackageModel| export_entry(p)),
            result.deep_view() == first_of_each_id(
                list::concatenated(sources.take(i as int)).map_values(f),
            ),
        decreases root.sources@.len() - i,
    {
        let list: &Vec<ExportPackage> = &root.sources[i].packages;
        let ghost before = list::concatenated(sources.take(i as int));
        let ghost here = list.deep_view();
        proof {
            assert(sources.take(i + 1).drop_last() =~= sources.take(i as int));
            assert(sources.take(i + 1).last() == here);
            assert(before + here.take(0) =~= before);
        }
        let mut j: usize = 0;
        while j < list.len()
            invariant
                j <= list@.len(),
                here == list.deep_view(),
                f == (|p: ExportPackageModel| export_entry(p)),
                result.deep_view() == first_of_each_id((before + here.take(j as int)).map_values(f)),
            decreases list@.len() - j,
        {
            add_entry(&mut result, entry_of_export(&list[j]));
            proof {
                let e = export_entry(here[j as int]);
                lemma_first_of_each_id_push((before + here.take(j as int)).map_values(f), e);
                assert((before + here.take(j + 1)).map_values(f) =~= (before + here.take(
                    j as int,
                )).map_values(f).push(e));
            }
            j += 1;
        }
        assert(here.take(j as int) =~= here);
        i += 1;
    }
    assert(sources.take(i as int) =~= sources);
    result
}

/// What a file holds: the entries of the canonical manifest if it reads as one,
/// else those of a `winget export` file if it reads as that, else nothing.
pub open spec fn loaded_entries(
    manifest: Option<Manifest>,
    export: Option<ExportRoot>,
) -> Seq<JsonPackageModel> {
    match manifest {
        Some(m) if m.is_canonical() => m.entries(),
        _ => match export {
            Some(root) => export_entries(root.sources.deep_view()),
            None => Seq::empty(),
        },
    }
}

/// The packages and scripts of a manifest file, given what its text reads as
/// under each schema (`None`: it does not).
///
/// Accepts the canonical wgtui schema first; falls back to importing a
/// `winget export` file. Returns an empty vec for anything else.
#[must_use]
pub fn load_packages_from_file(manifest: &Option<Manifest>, export: &Option<ExportRoot>) -> (result: Vec<
    JsonPackage,
>)
    ensures
        result.deep_view() == loaded_entries(*manifest, *export),
{
    if let Some(m) = manifest {
        if m.packages.is_some() || m.scripts.is_some() {
            return entries_of_manifest(m);
        }
    }
    if let Some(root) = export {
        return entries_of_export(root);
    }
    let result: Vec<JsonPackage> = Vec::new();
    assert(result.deep_view() =~= Seq::<JsonPackageModel>::empty());
    result
}

/// A file of a directory, and the entries that it holds as a manifest.
#[derive(Debug)]
pub struct LoadedFile {
    pub file_name: String,
    pub packages: Vec<JsonPackage>,
}

/// What a [`LoadedFile`] stands for.
#[verifier::ext_equal]
pub struct LoadedFileModel {
    pub file_name: Seq<char>,
    pub packages: Seq<JsonPackageModel>,
}

impl DeepView for LoadedFile {
    type V = LoadedFileModel;

    open spec fn deep_view(&self) -> LoadedFileModel {
        LoadedFileModel { file_name: self.file_name@, packages: self.packages.deep_view() }
    }
}

/// What a file adds to the merged list: its entries, if it is a `*.json` file.
pub open spec fn contribution(f: LoadedFileModel) -> Seq<JsonPackageModel> {
    if is_json_name(f.file_name) {
        f.packages
    } else {
        Seq::empty()
    }
}

/// The entries of the `*.json` files of a directory, each id once.
pub open spec fn merged(files: Seq<LoadedFileModel>) -> Seq<JsonPackageModel> {
    first_of_each_id(
        list::concatenated(files.map_values(|f: LoadedFileModel| contribution(f))),
    )
}

/// Merges what the `*.json` files of a directory hold into a deduplicated list
/// of packages and scripts.
#[must_use]
pub fn load_export_packages(files: &Vec<LoadedFile>) -> (result: Vec<JsonPackage>)
    ensures
        result.deep_view() == merged(files.deep_view()),
{
    let mut result: Vec<JsonPackage> = Vec::new();
    let ghost g = |f: LoadedFileModel| contribution(f);
    let ghost all = files.deep_view().map_values(g);
    assert(result.deep_view() =~= first_of_each_id(list::concatenated(all.take(0))));
    let mut i: usize = 0;
    while i < files.len()
        invariant
            i <= files@.len(),
            g == (|f: LoadedFileModel| contribution(f)),
            all == files.deep_view().map_values(g),
            result.deep_view() == first_of_each_id(list::concatenated(all.take(i as int))),
        decreases files@.len() - i,
    {
        let file: &LoadedFile = &files[i];
        let ghost before = list::concatenated(all.take(i as int));
        let ghost here = file.packages.deep_view();
        proof {
            assert(all[i as int] == contribution(file.deep_view()));
            assert(all.take(i + 1) =~= all.take(i as int).push(all[i as int]));
            list::lemma_concatenated_push(all.take(i as int), all[i as int]);
            assert(before + here.take(0) =~= before);
            assert(before + Seq::<JsonPackageModel>::empty() =~= before);
        }
        if has_json_extension(file.file_name.as_str()) {
            let mut j: usize = 0;
            while j < file.packages.len()
                invariant
                    j <= file.packages@.len(),
                    here == file.packages.deep_view(),
                    result.deep_view() == first_of_each_id(before + here.take(j as int)),
                decreases file.packages@.len() - j,
            {
                add_entry(&mut result, file.packages[j].clone());
                proof {
                    lemma_first_of_each_id_push(before + here.take(j as int), here[j as int]);
                    assert(before + here.take(j + 1) =~= (before + here.take(j as int)).push(
                        here[j as int],
                    ));
                }
                j += 1;
            }
            assert(here.take(j as int) =~= here);
        }
        i += 1;
    }
    assert(all.take(i as int) =~= all);
    result
}

// ---------------------------------------------------------------------------
// Laws
// ---------------------------------------------------------------------------

/// Of the entries that are kept no two have the same id.
pub proof fn no_id_is_kept_twice(entries: Seq<JsonPackageModel>)
    ensures
        forall|i: int, j: int|
            0 <= i < j < first_of_each_id(entries).len() ==> #[trigger] first_of_each_id(
                entries,
            )[i].id != #[trigger] first_of_each_id(entries)[j].id,
    decreases entries.len(),
{
    if entries.len() > 0 {
        no_id_is_kept_twice(entries.drop_last());
    }
}

/// Every id is kept, and no other.
pub proof fn every_id_is_kept(entries: Seq<JsonPackageModel>, id: Seq<char>)
    ensures
        has_id(first_of_each_id(entries), id) <==> has_id(entries, id),
    decreases entries.len(),
{
    if entries.len() > 0 {
        let init = entries.drop_last();
        let kept = first_of_each_id(init);
        every_id_is_kept(init, id);
        if has_id(entries, id) {
            let i = choose|i: int| 0 <= i < entries.len() && #[trigger] entries[i].id == id;
            if i < init.len() {
                assert(init[i].id == id);
                let k = choose|k: int| 0 <= k < kept.len() && #[trigger] kept[k].id == id;
                assert(first_of_each_id(entries)[k].id == id);
            } else if !has_id(kept, id) {
                assert(first_of_each_id(entries)[kept.len() as int].id == id);
            }
        }
        if has_id(first_of_each_id(entries), id) {
            let k = choose|k: int|
                0 <= k < first_of_each_id(entries).len() && #[trigger] first_of_each_id(entries)[k].id
                    == id;
            if k < kept.len() {
                assert(kept[k].id == id);
                let i = choose|i: int| 0 <= i < init.len() && #[trigger] init[i].id == id;
                assert(entries[i].id == id);
            } else {
                assert(entries[entries.len() - 1].id == id);
            }
        }
    }
}

/// The entry at `i` is the first with its id.
pub open spec fn is_first_with_its_id(entries: Seq<JsonPackageModel>, i: int) -> bool {
    forall|j: int| 0 <= j < i ==> #[trigger] entries[j].id != entries[i].id
}

proof fn lemma_first_in_init(entries: Seq<JsonPackageModel>, i: int)
    requires
        0 <= i < entries.len() - 1,
    ensures
        is_first_with_its_id(entries.drop_last(), i) == is_first_with_its_id(entries, i),
{
    let init = entries.drop_last();
    if is_first_with_its_id(entries, i) {
        assert forall|j: int| 0 <= j < i implies #[trigger] init[j].id != init[i].id by {
            assert(entries[j].id != entries[i].id);
        }
    }
    if is_first_with_its_id(init, i) {
        assert forall|j: int| 0 <= j < i implies #[trigger] entries[j].id != entries[i].id by {
            assert(init[j].id != init[i].id);
        }
    }
}

proof fn lemma_last_is_first(entries: Seq<JsonPackageModel>)
    requires
        entries.len() > 0,
    ensures
        is_first_with_its_id(entries, entries.len() - 1) == !has_id(
            first_of_each_id(entries.drop_last()),
            entries.last().id,
        ),
{
    let init = entries.drop_last();
    let last = entries.len() - 1;
    every_id_is_kept(init, entries.last().id);
    if has_id(init, entries.last().id) {
        let j = choose|j: int| 0 <= j < init.len() && #[trigger] init[j].id == entries.last().id;
        assert(entries[j].id == entries[last].id);
    } else {
        assert forall|j: int| 0 <= j < last implies #[trigger] entries[j].id
            != entries[last].id by {
            assert(init[j] == entries[j]);
        }
    }
}

/// The entry that is the first with its id is kept.
pub proof fn the_first_with_an_id_is_kept(entries: Seq<JsonPackageModel>, i: int)
    requires
        0 <= i < entries.len(),
        is_first_with_its_id(entries, i),
    ensures
        first_of_each_id(entries).contains(entries[i]),
    decreases entries.len(),
{
    let init = entries.drop_last();
    let kept = first_of_each_id(init);
    let all = first_of_each_id(entries);
    if i < init.len() {
        lemma_first_in_init(entries, i);
        the_first_with_an_id_is_kept(init, i);
        let k = kept.index_of(init[i]);
        assert(all[k] == entries[i]);
    } else {
        lemma_last_is_first(entries);
        assert(all[kept.len() as int] == entries[i]);
    }
}

/// What is kept is an entry that is the first with its id.
pub proof fn what_is_kept_is_the_first_with_its_id(entries: Seq<JsonPackageModel>, k: int) -> (i:
    int)
    requires
        0 <= k < first_of_each_id(entries).len(),
    ensures
        0 <= i < entries.len(),
        is_first_with_its_id(entries, i),
        entries[i] == first_of_each_id(entries)[k],
    decreases entries.len(),
{
    let init = entries.drop_last();
    let kept = first_of_each_id(init);
    if k < kept.len() {
        let i = what_is_kept_is_the_first_with_its_id(init, k);
        lemma_first_in_init(entries, i);
        i
    } else {
        lemma_last_is_first(entries);
        entries.len() - 1
    }
}

/// Entries that all have different ids are all kept, in their order; so merging
/// what has been merged changes nothing.
pub proof fn distinct_ids_are_all_kept(entries: Seq<JsonPackageModel>)
    requires
        forall|i: int, j: int|
            0 <= i < j < entries.len() ==> #[trigger] entries[i].id != #[trigger] entries[j].id,
    ensures
        first_of_each_id(entries) == entries,
    decreases entries.len(),
{
    if entries.len() > 0 {
        let init = entries.drop_last();
        assert forall|i: int, j: int| 0 <= i < j < init.len() implies #[trigger] init[i].id
            != #[trigger] init[j].id by {
            assert(entries[i].id != entries[j].id);
        }
        distinct_ids_are_all_kept(init);
        assert(!has_id(init, entries.last().id)) by {
            if has_id(init, entries.last().id) {
                let i = choose|i: int|
                    0 <= i < init.len() && #[trigger] init[i].id == entries.last().id;
                assert(entries[i].id == entries[entries.len() - 1].id);
            }
        }
        assert(init.push(entries.last()) =~= entries);
    }
}

/// A canonical manifest gives one entry per package and then one per script:
/// scripts come last and carry a command, packages do not.
pub proof fn packages_come_before_scripts(
    packages: Option<Seq<ManifestPackageModel>>,
    scripts: Option<Seq<ManifestScriptModel>>,
    i: int,
)
    requires
        0 <= i < manifest_entries(packages, scripts).len(),
    ensures
        manifest_entries(packages, scripts).len() == list::or_empty(packages).len()
            + list::or_empty(scripts).len(),
        manifest_entries(packages, scripts)[i].is_script <==> i >= list::or_empty(packages).len(),
        manifest_entries(packages, scripts)[i].command is Some
            <==> manifest_entries(packages, scripts)[i].is_script,
{
}

/// The words of an argument list, one by one.
pub open spec fn words(argv: Vec<String>) -> Seq<Seq<char>> {
    argv@.map_values(|w: String| w@)
}

/// A text that may be absent.
pub open spec fn optional_words(o: Option<String>) -> Option<Seq<char>> {
    match o {
        Some(s) => Some(s@),
        None => None,
    }
}

/// What a canonical manifest asks for is loaded in full and in its order. The
/// entry at a package's place has that package's id, arguments, scope and locale,
/// and its name, or its id where it has none. The entry at a script's place,
/// behind all packages, is a script with that script's name and the whole of its
/// argv. Whatever the text reads as otherwise does not matter.
pub proof fn a_manifest_is_loaded_in_full(m: Manifest, export: Option<ExportRoot>, k: int)
    requires
        m.packages is Some || m.scripts is Some,
    ensures
        ({
            let loaded = loaded_entries(Some(m), export);
            let n = if m.packages is Some {
                m.packages->0@.len() as int
            } else {
                0
            };
            let s = if m.scripts is Some {
                m.scripts->0@.len() as int
            } else {
                0
            };
            &&& loaded == m.entries()
            &&& loaded.len() == n + s
            &&& 0 <= k < n ==> {
                let p = m.packages->0@[k];
                &&& loaded[k].id == p.id@
                &&& loaded[k].name == if p.name is Some {
                    p.name->0@
                } else {
                    p.id@
                }
                &&& loaded[k].args == words(p.args)
                &&& loaded[k].scope == optional_words(p.scope)
                &&& loaded[k].locale == optional_words(p.locale)
                &&& !loaded[k].is_script
                &&& loaded[k].command is None
            }
            &&& 0 <= k < s ==> {
                let q = m.scripts->0@[k];
                &&& loaded[n + k].id == q.name@
                &&& loaded[n + k].name == q.name@
                &&& loaded[n + k].command == Some(words(q.command))
                &&& loaded[n + k].is_script
                &&& loaded[n + k].args.len() == 0
                &&& loaded[n + k].scope is None
                &&& loaded[n + k].locale is None
            }
        }),
{
    if let Some(packages) = m.packages {
        assert(packages.deep_view().len() == packages@.len());
        if 0 <= k < packages@.len() {
            let p = packages@[k];
            assert(packages.deep_view()[k] == p.deep_view());
            assert(p.args.deep_view() =~= words(p.args));
        }
    }
    if let Some(scripts) = m.scripts {
        assert(scripts.deep_view().len() == scripts@.len());
        if 0 <= k < scripts@.len() {
            let q = scripts@[k];
            assert(scripts.deep_view()[k] == q.deep_view());
            assert(q.command.deep_view() =~= words(q.command));
        }
    }
}

/// A file that reads as no canonical manifest is loaded as a `winget export` file
/// if it reads as that, and as nothing if it does not.
pub proof fn other_files_are_loaded_as_exports(m: Manifest, export: Option<ExportRoot>)
    requires
        m.packages is None,
        m.scripts is None,
    ensures
        m.entries() == Seq::<JsonPackageModel>::empty(),
        loaded_entries(Some(m), export) == loaded_entries(None, export),
        export is None ==> loaded_entries(None, export) == Seq::<JsonPackageModel>::empty(),
        export matches Some(root) ==> loaded_entries(None, export) == export_entries(
            root.sources.deep_view(),
        ),
{
}

/// Package by package: one more in the last source of a `winget export` file adds
/// an entry with its identifier and its name, or its identifier where it has
/// none, unless an entry with that identifier is there; it asks for no scope,
/// locale or argument. A source without packages adds nothing, and so does having
/// no source.
pub proof fn an_export_is_loaded_package_by_package(
    sources: Seq<Seq<ExportPackageModel>>,
    last: Seq<ExportPackageModel>,
    p: ExportPackageModel,
)
    ensures
        ({
            let before = export_entries(sources.push(last));
            let after = export_entries(sources.push(last.push(p)));
            &&& (exists|i: int|
                0 <= i < before.len() && #[trigger] before[i].id == p.package_identifier) ==> after
                == before
            &&& !(exists|i: int|
                0 <= i < before.len() && #[trigger] before[i].id == p.package_identifier)
                ==> after.len() == before.len() + 1 && after.take(before.len() as int) == before
                && after.last().id == p.package_identifier && after.last().name == (
            match p.package_name {
                Some(name) => name,
                None => p.package_identifier,
            }) && after.last().command is None && !after.last().is_script
                && after.last().args.len() == 0 && after.last().scope is None
                && after.last().locale is None
        }),
        export_entries(sources.push(Seq::empty())) == export_entries(sources),
        export_entries(Seq::empty()) == Seq::<JsonPackageModel>::empty(),
{
    let f = |p: ExportPackageModel| export_entry(p);
    list::lemma_concatenated_push(sources, last);
    list::lemma_concatenated_push(sources, last.push(p));
    list::lemma_concatenated_push(sources, Seq::empty());
    let a = list::concatenated(sources) + last;
    assert(list::concatenated(sources) + last.push(p) =~= a.push(p));
    assert(a.push(p).map_values(f) =~= a.map_values(f).push(export_entry(p)));
    lemma_first_of_each_id_push(a.map_values(f), export_entry(p));
    assert(list::concatenated(sources) + Seq::<ExportPackageModel>::empty() =~= list::concatenated(
        sources,
    ));
    assert(export_entries(sources.push(last.push(p))).take(
        export_entries(sources.push(last)).len() as int,
    ) =~= export_entries(sources.push(last)));
    assert(list::concatenated(Seq::<Seq<ExportPackageModel>>::empty()).map_values(f) =~= Seq::<
        JsonPackageModel,
    >::empty());
}

/// What stands for a `winget export` file is all of its packages, with identifier
/// and name.
pub proof fn exports_are_told_apart_by_their_packages(root: ExportRoot, i: int, j: int)
    requires
        0 <= i < root.sources@.len(),
        0 <= j < root.sources@[i].packages@.len(),
    ensures
        root.sources.deep_view().len() == root.sources@.len(),
        root.sources.deep_view()[i].len() == root.sources@[i].packages@.len(),
        root.sources.deep_view()[i][j].package_identifier
            == root.sources@[i].packages@[j].package_identifier@,
        root.sources.deep_view()[i][j].package_name == optional_words(
            root.sources@[i].packages@[j].package_name,
        ),
{
}

/// Entry by entry: what the last file of a directory holds one entry more adds
/// that entry to the merged list if the file is a `*.json` file and no entry with
/// its id is there, and nothing else. A file that is no `*.json` file adds
/// nothing.
pub proof fn files_are_merged_entry_by_entry(
    files: Seq<LoadedFileModel>,
    file_name: Seq<char>,
    packages: Seq<JsonPackageModel>,
    p: JsonPackageModel,
)
    ensures
        ({
            let before = merged(files.push(LoadedFileModel { file_name, packages }));
            let after = merged(
                files.push(LoadedFileModel { file_name, packages: packages.push(p) }),
            );
            &&& is_json_name(file_name) && !(exists|i: int|
                0 <= i < before.len() && #[trigger] before[i].id == p.id) ==> after
                == before.push(p)
            &&& !is_json_name(file_name) || (exists|i: int|
                0 <= i < before.len() && #[trigger] before[i].id == p.id) ==> after == before
        }),
        merged(files.push(LoadedFileModel { file_name, packages: Seq::empty() })) == merged(files),
        merged(Seq::empty()) == Seq::<JsonPackageModel>::empty(),
{
    let g = |f: LoadedFileModel| contribution(f);
    let a = LoadedFileModel { file_name, packages };
    let b = LoadedFileModel { file_name, packages: packages.push(p) };
    let c = LoadedFileModel { file_name, packages: Seq::empty() };
    assert(files.push(a).map_values(g) =~= files.map_values(g).push(contribution(a)));
    assert(files.push(b).map_values(g) =~= files.map_values(g).push(contribution(b)));
    assert(files.push(c).map_values(g) =~= files.map_values(g).push(contribution(c)));
    list::lemma_concatenated_push(files.map_values(g), contribution(a));
    list::lemma_concatenated_push(files.map_values(g), contribution(b));
    list::lemma_concatenated_push(files.map_values(g), contribution(c));
    let all = list::concatenated(files.map_values(g));
    assert(all + Seq::<JsonPackageModel>::empty() =~= all);
    if is_json_name(file_name) {
        assert(all + packages.push(p) =~= (all + packages).push(p));
        lemma_first_of_each_id_push(all + packages, p);
    }
    assert(Seq::<LoadedFileModel>::empty().map_values(g) =~= Seq::empty());
}

/// A file name is that of a `*.json` file exactly when something stands before a
/// final ".json".
pub proof fn json_files_end_in_json(stem: Seq<char>, name: Seq<char>)
    ensures
        is_json_name(stem + ".json"@) <==> stem.len() > 0,
        is_json_name(name) ==> name.len() > 5 && name == name.take(name.len() - 5) + ".json"@,
{
    reveal_strlit(".json");
    let s = stem + ".json"@;
    assert(s.skip(s.len() - 5) =~= ".json"@);
    if is_json_name(name) {
        assert(name =~= name.take(name.len() - 5) + name.skip(name.len() - 5));
    }
}

/// The keys "packages", "scripts" and "Sources" each make a JSON object a
/// manifest, wherever they stand; no other key does, and nothing but an object is
/// one.
pub proof fn manifests_are_known_by_three_keys(before: Seq<Seq<char>>, key: Seq<char>)
    ensures
        names_schema(Some(Some(before.push(key)))) <==> names_schema(Some(Some(before))) || key
            == "packages"@ || key == "scripts"@ || key == "Sources"@,
        !names_schema(Some(Some(Seq::empty()))),
        !names_schema(Some(None)),
        !names_schema(None),
{
    let keys = before.push(key);
    assert forall|k: Seq<char>| #[trigger] keys.contains(k) <==> before.contains(k) || k
        == key by {
        if before.contains(k) {
            assert(keys[before.index_of(k)] == k);
        }
        assert(keys[before.len() as int] == key);
        if keys.contains(k) && k != key {
            assert(before[keys.index_of(k)] == k);
        }
    }
}

/// A file of a directory is offered exactly when it is a `*.json` file, could be
/// read and reads as a manifest.
pub proof fn readable_manifests_are_offered(files: Seq<DirFile>, i: usize)
    requires
        i < files.len(),
    ensures
        files[i as int].content is None ==> !offered(files).contains(i),
        files[i as int].content matches Some(c) ==> (offered(files).contains(i) <==> is_json_name(
            files[i as int].file_name@,
        ) && names_schema(json_keys(c@))),
{
}

/// What stands for a loaded file is its name and all of its entries.
pub proof fn loaded_files_are_told_apart_by_their_entries(f: LoadedFile, i: int)
    ensures
        f.deep_view().file_name == f.file_name@,
        f.deep_view().packages.len() == f.packages@.len(),
        0 <= i < f.packages@.len() ==> f.deep_view().packages[i] == f.packages@[i].deep_view(),
{
}

} // verus!
