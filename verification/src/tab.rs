//! The tabs.

use vstd::prelude::*;

verus! {

/// The active tab.
#[derive(Debug, Clone, Copy, PartialEq, Eq, Structural)]
pub enum Tab {
    Updates,
    Search,
    Installed,
    Packages,
}

impl Tab {
    /// The tabs from left to right.
    pub fn all() -> (tabs: [Tab; 4])
        ensures
            tabs@ == seq![Tab::Updates, Tab::Search, Tab::Installed, Tab::Packages],
    {
        let tabs = [Tab::Updates, Tab::Search, Tab::Installed, Tab::Packages];
        assert(tabs@ =~= seq![Tab::Updates, Tab::Search, Tab::Installed, Tab::Packages]);
        tabs
    }

    /// Place among the tabs, from the left.
    pub open spec fn place(self) -> int {
        match self {
            Tab::Updates => 0,
            Tab::Search => 1,
            Tab::Installed => 2,
            Tab::Packages => 3,
        }
    }

    /// Place among the tabs, from the left.
    pub fn index(self) -> (i: usize)
        ensures
            i == self.place(),
    {
        match self {
            Tab::Updates => 0,
            Tab::Search => 1,
            Tab::Installed => 2,
            Tab::Packages => 3,
        }
    }

    /// The tab to the right; after the last comes the first.
    pub open spec fn following(self) -> Tab {
        match self {
            Tab::Updates => Tab::Search,
            Tab::Search => Tab::Installed,
            Tab::Installed => Tab::Packages,
            Tab::Packages => Tab::Updates,
        }
    }

    /// The tab to the left; before the first comes the last.
    pub open spec fn preceding(self) -> Tab {
        match self {
            Tab::Updates => Tab::Packages,
            Tab::Search => Tab::Updates,
            Tab::Installed => Tab::Search,
            Tab::Packages => Tab::Installed,
        }
    }

    /// The tab to the right; after the last comes the first.
    pub fn next(self) -> (t: Self)
        ensures
            t == self.following(),
    {
        match self {
            Tab::Updates => Tab::Search,
            Tab::Search => Tab::Installed,
            Tab::Installed => Tab::Packages,
            Tab::Packages => Tab::Updates,
        }
    }

    /// The tab to the left; before the first comes the last.
    pub fn prev(self) -> (t: Self)
        ensures
            t == self.preceding(),
    {
        match self {
            Tab::Updates => Tab::Packages,
            Tab::Search => Tab::Updates,
            Tab::Installed => Tab::Search,
            Tab::Packages => Tab::Installed,
        }
    }

    /// What the tab bar says of this tab.
    pub open spec fn label(self) -> Seq<char> {
        match self {
            Tab::Updates => "[1] Updates "@,
            Tab::Search => "[2] Search "@,
            Tab::Installed => "[3] Installed "@,
            Tab::Packages => "[4] Apps/Scripts "@,
        }
    }

    /// What the tab bar says of this tab.
    pub fn title(self) -> (s: &'static str)
        ensures
            s@ == self.label(),
    {
        match self {
            Tab::Updates => "[1] Updates ",
            Tab::Search => "[2] Search ",
            Tab::Installed => "[3] Installed ",
            Tab::Packages => "[4] Apps/Scripts ",
        }
    }
}

/// Left undoes right and right undoes left.
pub proof fn tab_navigation_is_reversible(t: Tab)
    ensures
        t.following().preceding() == t,
        t.preceding().following() == t,
{
}

/// Four steps to the right pass every tab and end where they began.
pub proof fn tab_navigation_is_cyclic(t: Tab)
    ensures
        t.following().following().following().following() == t,
        t.following().place() == (t.place() + 1) % 4,
        t.preceding().place() == (t.place() + 3) % 4,
{
}

} // verus!
