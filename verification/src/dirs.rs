//! Where manifest files are looked for.

use vstd::prelude::*;

use crate::list;
use crate::text;

verus! {

/// A directory that manifests may lie in or below, by the paths to look at.
#[derive(Debug)]
pub struct BaseDir {
    /// The subdirectory `examples`.
    pub examples: String,
    /// The subdirectory `manifests`.
    pub manifests: String,
    /// The directory itself.
    pub base: String,
}

impl DeepView for BaseDir {
    type V = Seq<Seq<char>>;

    /// The paths in the order in which they are looked at.
    open spec fn deep_view(&self) -> Seq<Seq<char>> {
        seq![self.examples@, self.manifests@, self.base@]
    }
}

/// The text at `i` has not stood earlier in the list.
pub open spec fn is_new(texts: Seq<Seq<char>>, i: int) -> bool {
    forall|j: int| 0 <= j < i ==> #[trigger] texts[j] != texts[i]
}

/// `places` lists, from the first on, the places of the texts that have not
/// stood earlier in the list.
pub open spec fn lists_new(places: Seq<usize>, texts: Seq<Seq<char>>) -> bool {
    &&& forall|a: int, b: int| 0 <= a < b < places.len() ==> places[a] < places[b]
    &&& forall|i: usize| #[trigger] places.contains(i) <==> i < texts.len() && is_new(texts, i as int)
}

fn seen_before(texts: &Vec<String>, i: usize) -> (r: bool)
    requires
        i < texts@.len(),
    ensures
        r == !is_new(texts.deep_view(), i as int),
{
    let ghost all = texts.deep_view();
    let mut j: usize = 0;
    while j < i
        invariant
            j <= i < texts@.len(),
            all == texts.deep_view(),
            forall|k: int| 0 <= k < j ==> #[trigger] all[k] != all[i as int],
        decreases i - j,
    {
        assert(all[j as int] == texts@[j as int]@);
        assert(all[i as int] == texts@[i as int]@);
        if text::same(texts[j].as_str(), texts[i].as_str()) {
            return true;
        }
        j += 1;
    }
    false
}

/// The directories to search for manifest JSON files, in priority order, each
/// once. For each base (exe dir, project root during dev, cwd) its `examples/`
/// and `manifests/` subdirectories and the base itself are searched.
///
/// A directory is given by its place among the paths of all bases.
pub fn package_dirs(bases: &Vec<BaseDir>) -> (places: Vec<usize>)
    ensures
        lists_new(places@, list::concatenated(bases.deep_view())),
{
    let ghost lists = bases.deep_view();
    let mut paths: Vec<String> = Vec::new();
    let mut b: usize = 0;
    assert(paths.deep_view() =~= list::concatenated(lists.take(0)));
    while b < bases.len()
        invariant
            b <= bases@.len(),
            lists == bases.deep_view(),
            paths.deep_view() == list::concatenated(lists.take(b as int)),
        decreases bases@.len() - b,
    {
        let ghost before = paths.deep_view();
        text::add_text(&mut paths, bases[b].examples.as_str());
        text::add_text(&mut paths, bases[b].manifests.as_str());
        text::add_text(&mut paths, bases[b].base.as_str());
        proof {
            assert(paths.deep_view() =~= before + lists[b as int]);
            assert(lists.take(b + 1) =~= lists.take(b as int).push(lists[b as int]));
            list::lemma_concatenated_push(lists.take(b as int), lists[b as int]);
        }
        b += 1;
    }
    assert(lists.take(b as int) =~= lists);
    let ghost texts = paths.deep_view();
    let mut places: Vec<usize> = Vec::new();
    let mut i: usize = 0;
    while i < paths.len()
        invariant
            i <= paths@.len(),
            texts == paths.deep_view(),
            forall|a: int, c: int| 0 <= a < c < places@.len() ==> places@[a] < places@[c],
            forall|k: usize| #[trigger] places@.contains(k) <==> k < i && is_new(texts, k as int),
        decreases paths@.len() - i,
    {
        let ghost before = places@;
        if !seen_before(&paths, i) {
            assert forall|a: int| 0 <= a < before.len() implies before[a] < i by {
                assert(before.contains(before[a]));
            }
            places.push(i);
            assert forall|k: usize| #[trigger] places@.contains(k) <==> k < i + 1 && is_new(
                texts,
                k as int,
            ) by {
                assert(places@[before.len() as int] == i);
                if before.contains(k) {
                    assert(places@[before.index_of(k)] == k);
                }
                if places@.contains(k) && k != i {
                    assert(before[places@.index_of(k)] == k);
                }
            }
        }
        i += 1;
    }
    places
}

// ---------------------------------------------------------------------------
// Laws
// ---------------------------------------------------------------------------

proof fn lemma_first_place(texts: Seq<Seq<char>>, i: int) -> (j: int)
    requires
        0 <= i < texts.len(),
    ensures
        0 <= j <= i,
        texts[j] == texts[i],
        is_new(texts, j),
    decreases i,
{
    if is_new(texts, i) {
        i
    } else {
        let k = choose|k: int| 0 <= k < i && #[trigger] texts[k] == texts[i];
        lemma_first_place(texts, k)
    }
}

/// Every path is searched, where it first stands, and none twice; the paths keep
/// their order.
pub proof fn every_path_is_searched_once(
    places: Seq<usize>,
    texts: Seq<Seq<char>>,
    i: int,
    a: int,
    b: int,
)
    requires
        lists_new(places, texts),
        texts.len() <= usize::MAX,
    ensures
        0 <= i < texts.len() ==> exists|k: int|
            0 <= k < places.len() && #[trigger] places[k] <= i && texts[places[k] as int]
                == texts[i],
        0 <= a < b < places.len() ==> places[a] < places[b] < texts.len()
            && texts[places[a] as int] != texts[places[b] as int],
{
    if 0 <= i < texts.len() {
        let j = lemma_first_place(texts, i);
        assert(places.contains(j as usize));
        let k = places.index_of(j as usize);
        assert(places[k] <= i && texts[places[k] as int] == texts[i]);
    }
    if 0 <= a < b < places.len() {
        assert(places.contains(places[b]));
        assert(is_new(texts, places[b] as int));
        assert(places.contains(places[a]));
    }
}

/// Of a base its examples are looked at first, then its manifests, then the base
/// itself.
pub proof fn subdirectories_come_first(d: BaseDir)
    ensures
        d.deep_view().len() == 3,
        d.deep_view()[0] == d.examples@,
        d.deep_view()[1] == d.manifests@,
        d.deep_view()[2] == d.base@,
{
}

} // verus!
