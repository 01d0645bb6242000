//! The rows that each tab shows, and which of them are selected.

use vstd::prelude::*;

use crate::app::{App, AppModel};
use crate::list;
use crate::package::{
    JsonPackage, JsonPackageModel, UpgradablePackage, UpgradablePackageModel, WingetPackage,
    WingetPackageModel,
};
use crate::selection::{self, Selection, SelectionModel};
use crate::tab::Tab;
use crate::text;

verus! {

// ---------------------------------------------------------------------------
// Filtering
// ---------------------------------------------------------------------------

/// Every item passes an empty filter; otherwise the characters of the filter
/// appear in the item in order, upper and lower case being the same.
pub open spec fn passes(item: Seq<char>, filter: Seq<char>) -> bool {
    filter.len() == 0 || text::in_order(text::lower(filter), text::lower(item))
}

/// The packages whose name passes the filter.
pub open spec fn filtered(
    packages: Seq<WingetPackageModel>,
    filter: Seq<char>,
) -> Seq<WingetPackageModel> {
    packages.filter(|p: WingetPackageModel| passes(p.name, filter))
}

/// The upgrades whose name passes the filter.
pub open spec fn filtered_upgrades(
    packages: Seq<UpgradablePackageModel>,
    filter: Seq<char>,
) -> Seq<UpgradablePackageModel> {
    packages.filter(|p: UpgradablePackageModel| passes(p.name, filter))
}

/// The manifest entries whose name or id passes the filter.
pub open spec fn filtered_entries(
    packages: Seq<JsonPackageModel>,
    filter: Seq<char>,
) -> Seq<JsonPackageModel> {
    packages.filter(|p: JsonPackageModel| passes(p.name, filter) || passes(p.id, filter))
}

impl AppModel {
    /// The ids of the rows that a tab shows, from the top.
    pub open spec fn ids_of(self, tab: Tab) -> Seq<Seq<char>> {
        match tab {
            Tab::Search => filtered(self.search_results, self.filter_query).map_values(
                |p: WingetPackageModel| p.id,
            ),
            Tab::Updates => filtered_upgrades(self.updates, self.filter_query).map_values(
                |p: UpgradablePackageModel| p.id,
            ),
            Tab::Installed => filtered(self.installed, self.filter_query).map_values(
                |p: WingetPackageModel| p.id,
            ),
            Tab::Packages => filtered_entries(self.packages, self.filter_query).map_values(
                |p: JsonPackageModel| p.id,
            ),
        }
    }

    /// The ids of the rows that the current tab shows.
    pub open spec fn visible_ids(self) -> Seq<Seq<char>> {
        self.ids_of(self.tab)
    }

    /// The selection of a tab.
    pub open spec fn sel_of(self, tab: Tab) -> SelectionModel {
        match tab {
            Tab::Search => self.search_sel,
            Tab::Updates => self.updates_sel,
            Tab::Installed => self.installed_sel,
            Tab::Packages => self.packages_sel,
        }
    }

    /// The selection of the current tab.
    pub open spec fn current_sel(self) -> SelectionModel {
        self.sel_of(self.tab)
    }

    /// The state with another selection in the current tab.
    pub open spec fn with_sel(self, sel: SelectionModel) -> AppModel {
        match self.tab {
            Tab::Search => AppModel { search_sel: sel, ..self },
            Tab::Updates => AppModel { updates_sel: sel, ..self },
            Tab::Installed => AppModel { installed_sel: sel, ..self },
            Tab::Packages => AppModel { packages_sel: sel, ..self },
        }
    }

    /// The ids of the rows to act on in the current tab.
    pub open spec fn chosen_ids(self) -> Seq<Seq<char>> {
        list::picked(self.visible_ids(), self.current_sel().active_rows())
    }

    /// Every cursor brought back into its list.
    pub open spec fn clamped(self) -> AppModel {
        AppModel {
            search_sel: self.search_sel.clamped(self.ids_of(Tab::Search).len()),
            updates_sel: self.updates_sel.clamped(self.ids_of(Tab::Updates).len()),
            installed_sel: self.installed_sel.clamped(self.ids_of(Tab::Installed).len()),
            packages_sel: self.packages_sel.clamped(self.ids_of(Tab::Packages).len()),
            ..self
        }
    }

    /// Nothing marked in any tab.
    pub open spec fn unmarked(self) -> AppModel {
        AppModel {
            search_sel: self.search_sel.unmarked(),
            updates_sel: self.updates_sel.unmarked(),
            installed_sel: self.installed_sel.unmarked(),
            packages_sel: self.packages_sel.unmarked(),
            ..self
        }
    }

    /// Another tab, with no filter and nothing marked.
    pub open spec fn switched(self, tab: Tab) -> AppModel {
        AppModel { tab, filter_query: Seq::empty(), filter_focused: false, ..self }.clamped().unmarked()
    }
}

/// Of ASCII text the case of the filter does not matter.
pub proof fn the_case_of_the_filter_does_not_matter(item: Seq<char>, filter: Seq<char>)
    requires
        text::all_ascii(filter),
    ensures
        passes(item, text::ascii_lowercase(filter)) == passes(item, filter),
{
    text::lowering_ascii_twice_is_lowering_once(filter);
}

/// Typing on narrows: what passes a longer ASCII filter passes what it began
/// with.
pub proof fn typing_on_narrows(item: Seq<char>, filter: Seq<char>, c: char)
    requires
        text::all_ascii(filter.push(c)),
        passes(item, filter.push(c)),
    ensures
        passes(item, filter),
{
    let longer = filter.push(c);
    assert forall|i: int| 0 <= i < filter.len() implies (#[trigger] filter[i] as u32) < 0x80 by {
        assert(longer[i] == filter[i]);
    }
    let s = text::lower(item);
    assert(text::ascii_lowercase(longer).drop_last() =~= text::ascii_lowercase(filter));
    let at = choose|at: Seq<int>| text::embeds(at, text::lower(longer), s);
    assert(text::embeds(at.drop_last(), text::lower(filter), s)) by {
        assert forall|k: int| 0 <= k < at.drop_last().len() implies 0 <= #[trigger] at.drop_last()[k]
            < s.len() && s[at.drop_last()[k]] == text::lower(filter)[k] by {
            assert(at.drop_last()[k] == at[k]);
            assert(text::lower(longer)[k] == text::lower(filter)[k]);
        }
    }
}

/// An item passes itself as the filter.
pub proof fn an_item_passes_itself(item: Seq<char>)
    ensures
        passes(item, item),
{
    let s = text::lower(item);
    assert(text::embeds(Seq::new(s.len(), |i: int| i), s, s));
}

impl App {
    /// Whether `item` passes the filter: its characters appear in order (simple
    /// fuzzy), upper and lower case being the same.
    pub fn matches_filter(item: &str, filter: &str) -> (r: bool)
        ensures
            r == passes(item@, filter@),
    {
        if filter.is_empty() {
            return true;
        }
        let lower: String = text::to_lower(item);
        let filter_lower: String = text::to_lower(filter);
        text::appears_in_order(filter_lower.as_str(), lower.as_str())
    }

    /// The search results that pass the filter.
    pub fn filtered_search_results(&self) -> (r: Vec<&WingetPackage>)
        ensures
            r.deep_view() == filtered(self@.search_results, self@.filter_query),
    {
        filter_packages(&self.search_results, self.filter_query.as_str())
    }

    /// The installed packages that pass the filter.
    pub fn filtered_installed(&self) -> (r: Vec<&WingetPackage>)
        ensures
            r.deep_view() == filtered(self@.installed, self@.filter_query),
    {
        filter_packages(&self.installed, self.filter_query.as_str())
    }

    /// The upgrades that pass the filter.
    pub fn filtered_updates(&self) -> (r: Vec<&UpgradablePackage>)
        ensures
            r.deep_view() == filtered_upgrades(self@.updates, self@.filter_query),
    {
        let ghost all = self.updates.deep_view();
        let ghost filter = self.filter_query@;
        let ghost pred = |p: UpgradablePackageModel| passes(p.name, filter);
        let mut r: Vec<&UpgradablePackage> = Vec::new();
        let mut i: usize = 0;
        proof {
            reveal(Seq::filter);
            assert(r.deep_view() =~= all.take(0).filter(pred));
        }
        while i < self.updates.len()
            invariant
                i <= self.updates@.len(),
                all == self.updates.deep_view(),
                filter == self.filter_query@,
                pred == (|p: UpgradablePackageModel| passes(p.name, filter)),
                r.deep_view() == all.take(i as int).filter(pred),
            decreases self.updates@.len() - i,
        {
            let p: &UpgradablePackage = &self.updates[i];
            proof {
                assert(all.take(i + 1) =~= all.take(i as int).push(all[i as int]));
                all.take(i as int).lemma_filter_push(all[i as int], pred);
            }
            if Self::matches_filter(p.name.as_str(), self.filter_query.as_str()) {
                list::add_item(&mut r, p);
            }
            i += 1;
        }
        assert(all.take(i as int) =~= all);
        r
    }

    /// The manifest entries that pass the filter, by name or by id.
    pub fn filtered_packages(&self) -> (r: Vec<&JsonPackage>)
        ensures
            r.deep_view() == filtered_entries(self@.packages, self@.filter_query),
    {
        let ghost all = self.packages.deep_view();
        let ghost filter = self.filter_query@;
        let ghost pred = |p: JsonPackageModel| passes(p.name, filter) || passes(p.id, filter);
        let mut r: Vec<&JsonPackage> = Vec::new();
        let mut i: usize = 0;
        proof {
            reveal(Seq::filter);
            assert(r.deep_view() =~= all.take(0).filter(pred));
        }
        while i < self.packages.len()
            invariant
                i <= self.packages@.len(),
                all == self.packages.deep_view(),
                filter == self.filter_query@,
                pred == (|p: JsonPackageModel| passes(p.name, filter) || passes(p.id, filter)),
                r.deep_view() == all.take(i as int).filter(pred),
            decreases self.packages@.len() - i,
        {
            let p: &JsonPackage = &self.packages[i];
            proof {
                assert(all.take(i + 1) =~= all.take(i as int).push(all[i as int]));
                all.take(i as int).lemma_filter_push(all[i as int], pred);
            }
            if Self::matches_filter(p.name.as_str(), self.filter_query.as_str())
                || Self::matches_filter(p.id.as_str(), self.filter_query.as_str()) {
                list::add_item(&mut r, p);
            }
            i += 1;
        }
        assert(all.take(i as int) =~= all);
        r
    }

    /// The current tab's selection state.
    pub fn sel(&self) -> (s: &Selection)
        ensures
            s@ == self@.current_sel(),
    {
        match self.tab {
            Tab::Search => &self.search_sel,
            Tab::Updates => &self.updates_sel,
            Tab::Installed => &self.installed_sel,
            Tab::Packages => &self.packages_sel,
        }
    }

    /// The current tab's selection state, to be changed.
    pub fn sel_mut(&mut self) -> (s: &mut Selection)
        ensures
            s@ == old(self)@.current_sel(),
            final(self)@ == old(self)@.with_sel(final(s)@),
    {
        match self.tab {
            Tab::Search => &mut self.search_sel,
            Tab::Updates => &mut self.updates_sel,
            Tab::Installed => &mut self.installed_sel,
            Tab::Packages => &mut self.packages_sel,
        }
    }

    /// Number of rows visible in the current tab (after filtering).
    pub fn filtered_len(&self) -> (n: usize)
        ensures
            n == self@.visible_ids().len(),
    {
        match self.tab {
            Tab::Search => self.filtered_search_results().len(),
            Tab::Updates => self.filtered_updates().len(),
            Tab::Installed => self.filtered_installed().len(),
            Tab::Packages => self.filtered_packages().len(),
        }
    }

    /// Brings every cursor back into its list.
    pub fn clamp_selected(&mut self)
        ensures
            final(self)@ == old(self)@.clamped(),
    {
        let s: usize = self.filtered_search_results().len();
        let u: usize = self.filtered_updates().len();
        let i: usize = self.filtered_installed().len();
        let p: usize = self.filtered_packages().len();
        self.search_sel.clamp(s);
        self.updates_sel.clamp(u);
        self.installed_sel.clamp(i);
        self.packages_sel.clamp(p);
    }

    /// The ids of the rows that the current tab shows.
    pub fn row_ids(&self) -> (ids: Vec<String>)
        ensures
            ids.deep_view() == self@.visible_ids(),
    {
        match self.tab {
            Tab::Search => ids_of_packages(&self.filtered_search_results()),
            Tab::Updates => ids_of_upgrades(&self.filtered_updates()),
            Tab::Installed => ids_of_packages(&self.filtered_installed()),
            Tab::Packages => ids_of_entries(&self.filtered_packages()),
        }
    }

    /// The ids of the rows to act on in the current tab.
    pub fn selected_ids(&self) -> (ids: Vec<String>)
        ensures
            ids.deep_view() == self@.chosen_ids(),
    {
        let rows: Vec<usize> = self.sel().active();
        let all: Vec<String> = self.row_ids();
        pick(&all, &rows)
    }

    /// Marks the cursor row of the current tab, or takes its mark away.
    pub fn toggle_selection(&mut self)
        ensures
            final(self)@ == old(self)@.with_sel(old(self)@.current_sel().toggled()),
    {
        self.sel_mut().toggle_current();
    }

    /// Takes every mark away, in every tab.
    pub fn clear_selections(&mut self)
        ensures
            final(self)@ == old(self)@.unmarked(),
    {
        self.search_sel.marked.clear();
        self.updates_sel.marked.clear();
        self.installed_sel.marked.clear();
        self.packages_sel.marked.clear();
        assert(self@ =~= old(self)@.unmarked());
    }

    /// Selects every visible row in the current tab, or clears if all are
    /// already selected.
    pub fn toggle_select_all(&mut self)
        ensures
            final(self)@ == old(self)@.with_sel(
                old(self)@.current_sel().all_toggled(old(self)@.visible_ids().len()),
            ),
    {
        let n: usize = self.filtered_len();
        self.sel_mut().toggle_all(n);
    }

    /// Switches to `tab`, resetting the shared filter and every tab's marks.
    pub fn switch_tab(&mut self, tab: Tab)
        ensures
            final(self)@ == old(self)@.switched(tab),
    {
        self.tab = tab;
        self.filter_query = String::new();
        self.filter_focused = false;
        assert(self.filter_query@ =~= Seq::<char>::empty());
        self.clamp_selected();
        self.clear_selections();
    }
}

fn filter_packages<'a>(packages: &'a Vec<WingetPackage>, filter: &str) -> (r: Vec<
    &'a WingetPackage,
>)
    ensures
        r.deep_view() == filtered(packages.deep_view(), filter@),
{
    let ghost all = packages.deep_view();
    let ghost pred = |p: WingetPackageModel| passes(p.name, filter@);
    let mut r: Vec<&WingetPackage> = Vec::new();
    let mut i: usize = 0;
    proof {
        reveal(Seq::filter);
        assert(r.deep_view() =~= all.take(0).filter(pred));
    }
    while i < packages.len()
        invariant
            i <= packages@.len(),
            all == packages.deep_view(),
            pred == (|p: WingetPackageModel| passes(p.name, filter@)),
            r.deep_view() == all.take(i as int).filter(pred),
        decreases packages@.len() - i,
    {
        let p: &WingetPackage = &packages[i];
        proof {
            assert(all.take(i + 1) =~= all.take(i as int).push(all[i as int]));
            all.take(i as int).lemma_filter_push(all[i as int], pred);
        }
        if App::matches_filter(p.name.as_str(), filter) {
            list::add_item(&mut r, p);
        }
        i += 1;
    }
    assert(all.take(i as int) =~= all);
    r
}

fn ids_of_packages(packages: &Vec<&WingetPackage>) -> (ids: Vec<String>)
    ensures
        ids.deep_view() == packages.deep_view().map_values(|p: WingetPackageModel| p.id),
{
    let mut ids: Vec<String> = Vec::new();
    let ghost all = packages.deep_view().map_values(|p: WingetPackageModel| p.id);
    let mut i: usize = 0;
    assert(ids.deep_view() =~= all.take(0));
    while i < packages.len()
        invariant
            i <= packages@.len(),
            all == packages.deep_view().map_values(|p: WingetPackageModel| p.id),
            ids.deep_view() == all.take(i as int),
        decreases packages@.len() - i,
    {
        text::add_text(&mut ids, packages[i].id.as_str());
        assert(all.take(i + 1) =~= all.take(i as int).push(all[i as int]));
        i += 1;
    }
    assert(all.take(i as int) =~= all);
    ids
}

fn ids_of_upgrades(packages: &Vec<&UpgradablePackage>) -> (ids: Vec<String>)
    ensures
        ids.deep_view() == packages.deep_view().map_values(|p: UpgradablePackageModel| p.id),
{
    let mut ids: Vec<String> = Vec::new();
    let ghost all = packages.deep_view().map_values(|p: UpgradablePackageModel| p.id);
    let mut i: usize = 0;
    assert(ids.deep_view() =~= all.take(0));
    while i < packages.len()
        invariant
            i <= packages@.len(),
            all == packages.deep_view().map_values(|p: UpgradablePackageModel| p.id),
            ids.deep_view() == all.take(i as int),
        decreases packages@.len() - i,
    {
        text::add_text(&mut ids, packages[i].id.as_str());
        assert(all.take(i + 1) =~= all.take(i as int).push(all[i as int]));
        i += 1;
    }
    assert(all.take(i as int) =~= all);
    ids
}

fn ids_of_entries(packages: &Vec<&JsonPackage>) -> (ids: Vec<String>)
    ensures
        ids.deep_view() == packages.deep_view().map_values(|p: JsonPackageModel| p.id),
{
    let mut ids: Vec<String> = Vec::new();
    let ghost all = packages.deep_view().map_values(|p: JsonPackageModel| p.id);
    let mut i: usize = 0;
    assert(ids.deep_view() =~= all.take(0));
    while i < packages.len()
        invariant
            i <= packages@.len(),
            all == packages.deep_view().map_values(|p: JsonPackageModel| p.id),
            ids.deep_view() == all.take(i as int),
        decreases packages@.len() - i,
    {
        text::add_text(&mut ids, packages[i].id.as_str());
        assert(all.take(i + 1) =~= all.take(i as int).push(all[i as int]));
        i += 1;
    }
    assert(all.take(i as int) =~= all);
    ids
}

/// The items at the given rows; rows past the end give nothing.
fn pick(items: &Vec<String>, rows: &Vec<usize>) -> (r: Vec<String>)
    ensures
        r.deep_view() == list::picked(items.deep_view(), rows@),
{
    let ghost all = items.deep_view();
    let ghost inside = |i: usize| i < all.len();
    let ghost at = |i: usize| all[i as int];
    let mut r: Vec<String> = Vec::new();
    let mut k: usize = 0;
    proof {
        reveal(Seq::filter);
        assert(r.deep_view() =~= rows@.take(0).filter(inside).map_values(at));
    }
    while k < rows.len()
        invariant
            k <= rows@.len(),
            all == items.deep_view(),
            inside == (|i: usize| i < all.len()),
            at == (|i: usize| all[i as int]),
            r.deep_view() == rows@.take(k as int).filter(inside).map_values(at),
        decreases rows@.len() - k,
    {
        let row: usize = rows[k];
        proof {
            assert(rows@.take(k + 1) =~= rows@.take(k as int).push(row));
            rows@.take(k as int).lemma_filter_push(row, inside);
            let before = rows@.take(k as int).filter(inside);
            assert(before.push(row).map_values(at) =~= before.map_values(at).push(at(row)));
        }
        if row < items.len() {
            text::add_text(&mut r, items[row].as_str());
        }
        k += 1;
    }
    assert(rows@.take(k as int) =~= rows@);
    r
}

// ---------------------------------------------------------------------------
// Laws
// ---------------------------------------------------------------------------

/// A text passes a filter by its lower-case form: every filter character is
/// found in order. An empty filter lets everything pass.
pub proof fn texts_pass_by_their_letters(item: Seq<char>, filter: Seq<char>)
    ensures
        passes(item, filter) <==> filter.len() == 0 || text::in_order(
            text::lower(filter),
            text::lower(item),
        ),
        passes(item, Seq::empty()),
{
}

/// Package by package: one package more at the end of a list is shown, behind the
/// others, exactly when its name passes the filter, and for a manifest entry also
/// when its id does.
pub proof fn packages_are_filtered_one_by_one(
    packages: Seq<WingetPackageModel>,
    p: WingetPackageModel,
    upgrades: Seq<UpgradablePackageModel>,
    u: UpgradablePackageModel,
    entries: Seq<JsonPackageModel>,
    e: JsonPackageModel,
    filter: Seq<char>,
)
    ensures
        filtered(packages.push(p), filter) == if passes(p.name, filter) {
            filtered(packages, filter).push(p)
        } else {
            filtered(packages, filter)
        },
        filtered_upgrades(upgrades.push(u), filter) == if passes(u.name, filter) {
            filtered_upgrades(upgrades, filter).push(u)
        } else {
            filtered_upgrades(upgrades, filter)
        },
        filtered_entries(entries.push(e), filter) == if passes(e.name, filter) || passes(
            e.id,
            filter,
        ) {
            filtered_entries(entries, filter).push(e)
        } else {
            filtered_entries(entries, filter)
        },
        filtered(Seq::empty(), filter) == Seq::<WingetPackageModel>::empty(),
        filtered_upgrades(Seq::empty(), filter) == Seq::<UpgradablePackageModel>::empty(),
        filtered_entries(Seq::empty(), filter) == Seq::<JsonPackageModel>::empty(),
{
    let f = |p: WingetPackageModel| passes(p.name, filter);
    let g = |p: UpgradablePackageModel| passes(p.name, filter);
    let h = |p: JsonPackageModel| passes(p.name, filter) || passes(p.id, filter);
    packages.lemma_filter_push(p, f);
    upgrades.lemma_filter_push(u, g);
    entries.lemma_filter_push(e, h);
    Seq::<WingetPackageModel>::empty().lemma_filter_len(f);
    Seq::<UpgradablePackageModel>::empty().lemma_filter_len(g);
    Seq::<JsonPackageModel>::empty().lemma_filter_len(h);
}

/// The rows of each tab stand for the packages of its own list that pass the
/// filter: as many, in the same order, each by its own id.
pub proof fn rows_stand_for_what_passes(m: AppModel, k: int)
    ensures
        m.ids_of(Tab::Search).len() == filtered(m.search_results, m.filter_query).len(),
        m.ids_of(Tab::Updates).len() == filtered_upgrades(m.updates, m.filter_query).len(),
        m.ids_of(Tab::Installed).len() == filtered(m.installed, m.filter_query).len(),
        m.ids_of(Tab::Packages).len() == filtered_entries(m.packages, m.filter_query).len(),
        0 <= k < m.ids_of(Tab::Search).len() ==> m.ids_of(Tab::Search)[k] == filtered(
            m.search_results,
            m.filter_query,
        )[k].id,
        0 <= k < m.ids_of(Tab::Updates).len() ==> m.ids_of(Tab::Updates)[k] == filtered_upgrades(
            m.updates,
            m.filter_query,
        )[k].id,
        0 <= k < m.ids_of(Tab::Installed).len() ==> m.ids_of(Tab::Installed)[k] == filtered(
            m.installed,
            m.filter_query,
        )[k].id,
        0 <= k < m.ids_of(Tab::Packages).len() ==> m.ids_of(Tab::Packages)[k] == filtered_entries(
            m.packages,
            m.filter_query,
        )[k].id,
        m.visible_ids() == m.ids_of(m.tab),
{
}

/// Every tab has its own selection, and changing the current one leaves the
/// others and all else alone.
pub proof fn every_tab_has_its_own_selection(m: AppModel, sel: SelectionModel, tab: Tab)
    ensures
        m.sel_of(Tab::Search) == m.search_sel,
        m.sel_of(Tab::Updates) == m.updates_sel,
        m.sel_of(Tab::Installed) == m.installed_sel,
        m.sel_of(Tab::Packages) == m.packages_sel,
        m.current_sel() == m.sel_of(m.tab),
        m.with_sel(sel).current_sel() == sel,
        tab != m.tab ==> m.with_sel(sel).sel_of(tab) == m.sel_of(tab),
        m.with_sel(sel) == (AppModel {
            search_sel: m.with_sel(sel).search_sel,
            updates_sel: m.with_sel(sel).updates_sel,
            installed_sel: m.with_sel(sel).installed_sel,
            packages_sel: m.with_sel(sel).packages_sel,
            ..m
        }),
        m.with_sel(m.current_sel()) == m,
{
}

/// Bringing the cursors back moves none that is on a row, puts one past the end
/// on the last row, and keeps every mark; taking the marks away moves no cursor.
/// Neither changes anything else.
pub proof fn cursors_come_back_and_nothing_else_moves(m: AppModel, tab: Tab)
    requires
        m.ids_of(tab).len() <= usize::MAX,
    ensures
        m.clamped().sel_of(tab).marked == m.sel_of(tab).marked,
        m.ids_of(tab).len() == 0 || m.sel_of(tab).cursor < m.ids_of(tab).len()
            ==> m.clamped().sel_of(tab).cursor == m.sel_of(tab).cursor,
        m.ids_of(tab).len() > 0 && m.sel_of(tab).cursor >= m.ids_of(tab).len()
            ==> m.clamped().sel_of(tab).cursor == m.ids_of(tab).len() - 1,
        m.unmarked().sel_of(tab).cursor == m.sel_of(tab).cursor,
        m.unmarked().sel_of(tab).marked == Set::<usize>::empty(),
        m.clamped() == (AppModel {
            search_sel: m.clamped().search_sel,
            updates_sel: m.clamped().updates_sel,
            installed_sel: m.clamped().installed_sel,
            packages_sel: m.clamped().packages_sel,
            ..m
        }),
        m.unmarked() == (AppModel {
            search_sel: m.unmarked().search_sel,
            updates_sel: m.unmarked().updates_sel,
            installed_sel: m.unmarked().installed_sel,
            packages_sel: m.unmarked().packages_sel,
            ..m
        }),
{
}

/// Changing the tab changes the tab, the filter and the selections, and nothing
/// else; a cursor that is on a row of the unfiltered list stays on it.
pub proof fn changing_the_tab_keeps_the_rest(m: AppModel, tab: Tab, other: Tab)
    ensures
        m.switched(tab) == (AppModel {
            tab,
            filter_query: Seq::empty(),
            filter_focused: false,
            search_sel: m.switched(tab).search_sel,
            updates_sel: m.switched(tab).updates_sel,
            installed_sel: m.switched(tab).installed_sel,
            packages_sel: m.switched(tab).packages_sel,
            ..m
        }),
        m.switched(tab).ids_of(other).len() == 0 || m.sel_of(other).cursor < m.switched(
            tab,
        ).ids_of(other).len() ==> m.switched(tab).sel_of(other).cursor == m.sel_of(other).cursor,
{
    let n = AppModel { tab, filter_query: Seq::empty(), filter_focused: false, ..m };
    assert(m.switched(tab).ids_of(other) == n.ids_of(other));
}

proof fn lemma_picked_inside<T>(items: Seq<T>, at: Seq<usize>)
    requires
        forall|k: int| 0 <= k < at.len() ==> #[trigger] at[k] < items.len(),
    ensures
        list::picked(items, at).len() == at.len(),
        forall|k: int|
            0 <= k < at.len() ==> #[trigger] list::picked(items, at)[k] == items[at[k] as int],
    decreases at.len(),
{
    if at.len() == 0 {
        assert(at =~= Seq::empty());
        list::picking_goes_place_by_place(items, at, 0);
    } else {
        let init = at.drop_last();
        assert forall|k: int| 0 <= k < init.len() implies #[trigger] init[k] < items.len() by {
            assert(init[k] == at[k]);
        }
        lemma_picked_inside(items, init);
        assert(at[at.len() - 1] < items.len());
        list::picking_goes_place_by_place(items, init, at.last());
        assert(init.push(at.last()) =~= at);
    }
}

/// With the rows `at` marked, listed from the top, the ids to act on are the ids
/// of exactly these rows, one for each, in that order; with none marked it is the
/// id of the cursor row.
pub proof fn the_ids_acted_on_are_those_of_the_rows(m: AppModel, at: Seq<usize>)
    requires
        forall|k: int| 0 <= k < at.len() ==> #[trigger] at[k] < m.visible_ids().len(),
        forall|i: int, j: int| 0 <= i < j < at.len() ==> at[i] < at[j],
        forall|row: usize| m.current_sel().marked.contains(row) <==> at.contains(row),
    ensures
        at.len() > 0 ==> m.chosen_ids().len() == at.len() && forall|k: int|
            0 <= k < at.len() ==> #[trigger] m.chosen_ids()[k] == m.visible_ids()[at[k] as int],
        at.len() == 0 && m.current_sel().cursor < m.visible_ids().len() ==> m.chosen_ids().len()
            == 1 && m.chosen_ids()[0] == m.visible_ids()[m.current_sel().cursor as int],
        at.len() == 0 && m.current_sel().cursor >= m.visible_ids().len() ==> m.chosen_ids().len()
            == 0,
{
    let sel = m.current_sel();
    if at.len() > 0 {
        assert(at.contains(at[0]));
        assert(sel.marked != Set::<usize>::empty());
        assert(selection::lists_ascending(at, sel.marked));
        selection::ascending_is_unique(at, sel.marked);
        lemma_picked_inside(m.visible_ids(), at);
    } else {
        assert forall|row: usize| !sel.marked.contains(row) by {
            assert(!at.contains(row));
        }
        assert(sel.marked =~= Set::empty());
        let e = Seq::<usize>::empty();
        list::picking_goes_place_by_place(m.visible_ids(), e, sel.cursor);
        assert(e.push(sel.cursor) =~= seq![sel.cursor]);
    }
}

} // verus!
