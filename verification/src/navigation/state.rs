use vstd::prelude::*;

use super::focus::{focus_at, focus_position, FocusTarget};
use super::tabs::{left_index, main_index, paired_left, LeftNavTab, MainTab};

verus! {

/// Remembered scroll position and selection of one tab.
#[derive(Debug, Clone, Copy, PartialEq, Eq, Structural)]
pub struct TabSlotState {
    pub scroll_offset: u16,
    pub selected_index: usize,
}

impl Default for TabSlotState {
    fn default() -> (r: Self)
        ensures
            r.scroll_offset == 0,
            r.selected_index == 0,
    {
        TabSlotState { scroll_offset: 0, selected_index: 0 }
    }
}

/// Active tabs, focus and per-tab slot state.
///
/// There is one slot per left tab and one per main tab before `Plugins`;
/// the `Plugins` tab has no slot.
#[derive(Debug, Clone, PartialEq, Eq)]
pub struct NavigationState {
    pub left_tab: LeftNavTab,
    pub main_tab: MainTab,
    pub focus: FocusTarget,
    pub left_slots: [TabSlotState; 4],
    pub main_slots: [TabSlotState; 8],
}

/// A navigation request.
#[derive(Debug, Clone, Copy, PartialEq, Eq, Structural)]
pub enum NavCommand {
    SelectLeftTab(LeftNavTab),
    SelectMainTab(MainTab),
    SetFocus(FocusTarget),
    NextFocus,
    PreviousFocus,
}

/// Tabs and focus after a navigation command, slots left as they are.
pub open spec fn spec_apply(
    left: LeftNavTab,
    main: MainTab,
    focus: FocusTarget,
    command: NavCommand,
) -> (LeftNavTab, MainTab, FocusTarget) {
    match command {
        NavCommand::SelectLeftTab(tab) => (tab, main, focus),
        NavCommand::SelectMainTab(tab) => (
            match paired_left(tab) {
                Some(l) => l,
                None => left,
            },
            tab,
            focus,
        ),
        NavCommand::SetFocus(f) => (left, main, f),
        NavCommand::NextFocus => (left, main, focus_at(focus_position(focus) + 1)),
        NavCommand::PreviousFocus => (left, main, focus_at(focus_position(focus) + 3)),
    }
}

impl NavigationState {
    /// Slots of the left tabs, indexed by tab position.
    pub open spec fn left_slots_view(&self) -> Seq<TabSlotState> {
        self.left_slots@
    }

    /// Slots of the main tabs, indexed by tab position.
    pub open spec fn main_slots_view(&self) -> Seq<TabSlotState> {
        self.main_slots@
    }

    /// Slot counts are fixed by the array types.
    pub proof fn lemma_slot_counts(&self)
        ensures
            self.left_slots_view().len() == 4,
            self.main_slots_view().len() == 8,
    {
    }

    pub fn new() -> (r: Self)
        ensures
            r.left_tab == LeftNavTab::Files,
            r.main_tab == MainTab::Agent,
            r.focus == FocusTarget::Main,
            forall|i: int| 0 <= i < 4 ==> #[trigger] r.left_slots_view()[i] == (TabSlotState { scroll_offset: 0, selected_index: 0 }),
            forall|i: int| 0 <= i < 8 ==> #[trigger] r.main_slots_view()[i] == (TabSlotState { scroll_offset: 0, selected_index: 0 }),
    {
        let z = TabSlotState { scroll_offset: 0, selected_index: 0 };
        NavigationState {
            left_tab: LeftNavTab::Files,
            main_tab: MainTab::Agent,
            focus: FocusTarget::Main,
            left_slots: [z, z, z, z],
            main_slots: [z, z, z, z, z, z, z, z],
        }
    }

    pub fn left_slot(&self) -> (r: &TabSlotState)
        ensures
            *r == self.left_slots_view()[left_index(self.left_tab) as int],
    {
        &self.left_slots[self.left_tab.index()]
    }

    pub fn left_slot_mut(&mut self) -> (r: &mut TabSlotState)
        ensures
            *r == old(self).left_slots_view()[left_index(old(self).left_tab) as int],
            final(self).left_tab == old(self).left_tab,
            final(self).main_tab == old(self).main_tab,
            final(self).focus == old(self).focus,
            final(self).main_slots_view() == old(self).main_slots_view(),
            final(self).left_slots_view() == old(self).left_slots_view().update(
                left_index(old(self).left_tab) as int,
                *final(r),
            ),
    {
        let index = self.left_tab.index();
        &mut self.left_slots[index]
    }

    pub fn main_slot(&self) -> (r: &TabSlotState)
        requires
            self.main_tab != MainTab::Plugins,
        ensures
            *r == self.main_slots_view()[main_index(self.main_tab) as int],
    {
        &self.main_slots[self.main_tab.index()]
    }

    pub fn main_slot_mut(&mut self) -> (r: &mut TabSlotState)
        requires
            old(self).main_tab != MainTab::Plugins,
        ensures
            *r == old(self).main_slots_view()[main_index(old(self).main_tab) as int],
            final(self).left_tab == old(self).left_tab,
            final(self).main_tab == old(self).main_tab,
            final(self).focus == old(self).focus,
            final(self).left_slots_view() == old(self).left_slots_view(),
            final(self).main_slots_view() == old(self).main_slots_view().update(
                main_index(old(self).main_tab) as int,
                *final(r),
            ),
    {
        let index = self.main_tab.index();
        &mut self.main_slots[index]
    }

    pub fn left_slot_for(&self, tab: LeftNavTab) -> (r: &TabSlotState)
        ensures
            *r == self.left_slots_view()[left_index(tab) as int],
    {
        &self.left_slots[tab.index()]
    }

    pub fn main_slot_for(&self, tab: MainTab) -> (r: &TabSlotState)
        requires
            tab != MainTab::Plugins,
        ensures
            *r == self.main_slots_view()[main_index(tab) as int],
    {
        &self.main_slots[tab.index()]
    }

    /// Applies a navigation command. Selecting a main tab also selects its
    /// paired left tab; slot state is never touched.
    pub fn apply(&mut self, command: NavCommand)
        ensures
            (final(self).left_tab, final(self).main_tab, final(self).focus) == spec_apply(
                old(self).left_tab,
                old(self).main_tab,
                old(self).focus,
                command,
            ),
            final(self).left_slots_view() == old(self).left_slots_view(),
            final(self).main_slots_view() == old(self).main_slots_view(),
    {
        match command {
            NavCommand::SelectLeftTab(tab) => self.left_tab = tab,
            NavCommand::SelectMainTab(tab) => {
                self.main_tab = tab;
                if let Some(left) = tab.paired_left_tab() {
                    self.left_tab = left;
                }
            },
            NavCommand::SetFocus(focus) => self.focus = focus,
            NavCommand::NextFocus => {
                self.focus = self.focus.next();
            },
            NavCommand::PreviousFocus => {
                self.focus = self.focus.previous();
            },
        }
    }
}

impl Default for NavigationState {
    fn default() -> (r: Self)
        ensures
            r.left_tab == LeftNavTab::Files,
            r.main_tab == MainTab::Agent,
            r.focus == FocusTarget::Main,
    {
        NavigationState::new()
    }
}

/// Selecting another left tab and then the original one again gives back the
/// same tabs and focus (the slots are untouched by `apply` itself).
pub proof fn law_left_tab_round_trip(
    s: (LeftNavTab, MainTab, FocusTarget),
    c1: NavCommand,
    c2: NavCommand,
)
    ensures
        ({
            let t1 = spec_apply(s.0, s.1, s.2, c1);
            let t2 = spec_apply(t1.0, t1.1, t1.2, c2);
            (c1 is SelectLeftTab && c2 == NavCommand::SelectLeftTab(s.0)) ==> t2 == s
        }),
{
}

/// Selecting a left tab never changes the main tab, and selecting a main
/// tab without a pair never changes the left tab.
pub proof fn law_tab_selection_independence(
    s: (LeftNavTab, MainTab, FocusTarget),
    l: LeftNavTab,
    m: MainTab,
)
    ensures
        spec_apply(s.0, s.1, s.2, NavCommand::SelectLeftTab(l)).1 == s.1,
        paired_left(m) is None ==> spec_apply(s.0, s.1, s.2, NavCommand::SelectMainTab(m)).0
            == s.0,
        spec_apply(s.0, s.1, s.2, NavCommand::SelectMainTab(m)).2 == s.2,
{
}

} // verus!
