use vstd::prelude::*;

verus! {

/// Tabs of the left navigation pane.
#[derive(Debug, Clone, Copy, PartialEq, Eq, Hash, Structural)]
pub enum LeftNavTab {
    Files,
    Git,
    Gh,
    Search,
}

/// Tabs of the main pane.
#[derive(Debug, Clone, Copy, PartialEq, Eq, Hash, Structural)]
pub enum MainTab {
    Agent,
    Issues,
    Branches,
    Prs,
    Diff,
    Preview,
    Logs,
    Settings,
    Plugins,
}

/// Position of a left tab in the tab bar.
pub open spec fn left_index(t: LeftNavTab) -> nat {
    match t {
        LeftNavTab::Files => 0,
        LeftNavTab::Git => 1,
        LeftNavTab::Gh => 2,
        LeftNavTab::Search => 3,
    }
}

/// Caption of a left tab.
pub open spec fn left_label(t: LeftNavTab) -> Seq<char> {
    match t {
        LeftNavTab::Files => "Files"@,
        LeftNavTab::Git => "Git"@,
        LeftNavTab::Gh => "GH"@,
        LeftNavTab::Search => "Search"@,
    }
}

/// Left tabs in tab-bar order.
pub open spec fn left_tabs() -> Seq<LeftNavTab> {
    seq![LeftNavTab::Files, LeftNavTab::Git, LeftNavTab::Gh, LeftNavTab::Search]
}

/// Position of a main tab in the tab bar.
pub open spec fn main_index(t: MainTab) -> nat {
    match t {
        MainTab::Agent => 0,
        MainTab::Issues => 1,
        MainTab::Branches => 2,
        MainTab::Prs => 3,
        MainTab::Diff => 4,
        MainTab::Preview => 5,
        MainTab::Logs => 6,
        MainTab::Settings => 7,
        MainTab::Plugins => 8,
    }
}

/// Caption of a main tab.
pub open spec fn main_label(t: MainTab) -> Seq<char> {
    match t {
        MainTab::Agent => "Agent"@,
        MainTab::Issues => "Issues"@,
        MainTab::Branches => "Branches"@,
        MainTab::Prs => "PRs"@,
        MainTab::Diff => "Diff"@,
        MainTab::Preview => "Preview"@,
        MainTab::Logs => "Logs"@,
        MainTab::Settings => "Settings"@,
        MainTab::Plugins => "Plugins"@,
    }
}

/// Main tabs in tab-bar order.
pub open spec fn main_tabs() -> Seq<MainTab> {
    seq![
        MainTab::Agent,
        MainTab::Issues,
        MainTab::Branches,
        MainTab::Prs,
        MainTab::Diff,
        MainTab::Preview,
        MainTab::Logs,
        MainTab::Settings,
        MainTab::Plugins,
    ]
}

/// Left tab that selecting a main tab brings along.
pub open spec fn paired_left(t: MainTab) -> Option<LeftNavTab> {
    match t {
        MainTab::Issues | MainTab::Prs | MainTab::Branches => Some(LeftNavTab::Gh),
        MainTab::Preview => Some(LeftNavTab::Files),
        MainTab::Diff => Some(LeftNavTab::Git),
        MainTab::Agent | MainTab::Logs | MainTab::Settings | MainTab::Plugins => None,
    }
}

impl LeftNavTab {
    /// Every left tab in tab-bar order.
    pub fn all() -> (r: [LeftNavTab; 4])
        ensures
            r@ == left_tabs(),
    {
        let r = [LeftNavTab::Files, LeftNavTab::Git, LeftNavTab::Gh, LeftNavTab::Search];
        assert(r@ =~= left_tabs());
        r
    }

    pub fn index(self) -> (r: usize)
        ensures
            r == left_index(self),
    {
        match self {
            LeftNavTab::Files => 0,
            LeftNavTab::Git => 1,
            LeftNavTab::Gh => 2,
            LeftNavTab::Search => 3,
        }
    }

    pub fn label(self) -> (r: &'static str)
        ensures
            r@ == left_label(self),
    {
        match self {
            LeftNavTab::Files => "Files",
            LeftNavTab::Git => "Git",
            LeftNavTab::Gh => "GH",
            LeftNavTab::Search => "Search",
        }
    }

    pub fn from_index(index: usize) -> (r: Option<LeftNavTab>)
        ensures
            index < 4 ==> r == Some(left_tabs()[index as int]),
            index >= 4 ==> r is None,
    {
        match index {
            0 => Some(LeftNavTab::Files),
            1 => Some(LeftNavTab::Git),
            2 => Some(LeftNavTab::Gh),
            3 => Some(LeftNavTab::Search),
            _ => None,
        }
    }
}

impl MainTab {
    /// Every main tab in tab-bar order.
    pub fn all() -> (r: [MainTab; 9])
        ensures
            r@ == main_tabs(),
    {
        let r = [
            MainTab::Agent,
            MainTab::Issues,
            MainTab::Branches,
            MainTab::Prs,
            MainTab::Diff,
            MainTab::Preview,
            MainTab::Logs,
            MainTab::Settings,
            MainTab::Plugins,
        ];
        assert(r@ =~= main_tabs());
        r
    }

    pub fn index(self) -> (r: usize)
        ensures
            r == main_index(self),
    {
        match self {
            MainTab::Agent => 0,
            MainTab::Issues => 1,
            MainTab::Branches => 2,
            MainTab::Prs => 3,
            MainTab::Diff => 4,
            MainTab::Preview => 5,
            MainTab::Logs => 6,
            MainTab::Settings => 7,
            MainTab::Plugins => 8,
        }
    }

    pub fn label(self) -> (r: &'static str)
        ensures
            r@ == main_label(self),
    {
        match self {
            MainTab::Agent => "Agent",
            MainTab::Issues => "Issues",
            MainTab::Branches => "Branches",
            MainTab::Prs => "PRs",
            MainTab::Diff => "Diff",
            MainTab::Preview => "Preview",
            MainTab::Logs => "Logs",
            MainTab::Settings => "Settings",
            MainTab::Plugins => "Plugins",
        }
    }

    pub fn from_index(index: usize) -> (r: Option<MainTab>)
        ensures
            index < 9 ==> r == Some(main_tabs()[index as int]),
            index >= 9 ==> r is None,
    {
        match index {
            0 => Some(MainTab::Agent),
            1 => Some(MainTab::Issues),
            2 => Some(MainTab::Branches),
            3 => Some(MainTab::Prs),
            4 => Some(MainTab::Diff),
            5 => Some(MainTab::Preview),
            6 => Some(MainTab::Logs),
            7 => Some(MainTab::Settings),
            8 => Some(MainTab::Plugins),
            _ => None,
        }
    }

    /// Left nav tab to activate when this main tab is selected.
    pub fn paired_left_tab(self) -> (r: Option<LeftNavTab>)
        ensures
            r == paired_left(self),
    {
        match self {
            MainTab::Issues | MainTab::Prs | MainTab::Branches => Some(LeftNavTab::Gh),
            MainTab::Preview => Some(LeftNavTab::Files),
            MainTab::Diff => Some(LeftNavTab::Git),
            MainTab::Agent | MainTab::Logs | MainTab::Settings | MainTab::Plugins => None,
        }
    }
}

impl Default for LeftNavTab {
    fn default() -> (r: Self)
        ensures
            r == LeftNavTab::Files,
    {
        LeftNavTab::Files
    }
}

impl Default for MainTab {
    fn default() -> (r: Self)
        ensures
            r == MainTab::Agent,
    {
        MainTab::Agent
    }
}

/// Captions of the left tabs in tab-bar order.
pub fn left_tab_labels() -> (r: [&'static str; 4])
    ensures
        forall|i: int| 0 <= i < 4 ==> #[trigger] r@[i]@ == left_label(left_tabs()[i]),
{
    [LeftNavTab::Files.label(), LeftNavTab::Git.label(), LeftNavTab::Gh.label(), LeftNavTab::Search.label()]
}

/// Captions of the main tabs in tab-bar order.
pub fn main_tab_labels() -> (r: [&'static str; 9])
    ensures
        forall|i: int| 0 <= i < 9 ==> #[trigger] r@[i]@ == main_label(main_tabs()[i]),
{
    [
        MainTab::Agent.label(),
        MainTab::Issues.label(),
        MainTab::Branches.label(),
        MainTab::Prs.label(),
        MainTab::Diff.label(),
        MainTab::Preview.label(),
        MainTab::Logs.label(),
        MainTab::Settings.label(),
        MainTab::Plugins.label(),
    ]
}

/// Index and position agree: a tab sits at its own index of the tab bar,
/// so `from_index(index(t))` gives `t` back, for both tab bars.
pub proof fn law_tab_index_roundtrip(l: LeftNavTab, m: MainTab)
    ensures
        left_index(l) < 4,
        left_tabs()[left_index(l) as int] == l,
        main_index(m) < 9,
        main_tabs()[main_index(m) as int] == m,
{
}

/// Every index below the tab count names the tab at that position, whose
/// index is the same number again.
pub proof fn law_tab_position_roundtrip(i: int, j: int)
    requires
        0 <= i < 4,
        0 <= j < 9,
    ensures
        left_index(left_tabs()[i]) == i,
        main_index(main_tabs()[j]) == j,
{
}

/// Only main tabs with a left-hand counterpart move the left tab, and the
/// Issues, PRs and Branches tabs all pair with the GH tab.
pub proof fn law_paired_left_tab(m: MainTab)
    ensures
        (m == MainTab::Issues || m == MainTab::Prs || m == MainTab::Branches) <==> paired_left(m)
            == Some(LeftNavTab::Gh),
        paired_left(m) is None <==> (m == MainTab::Agent || m == MainTab::Logs || m
            == MainTab::Settings || m == MainTab::Plugins),
{
}

} // verus!
