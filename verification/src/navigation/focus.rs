use vstd::prelude::*;

verus! {

/// The pane that receives keyboard input.
#[derive(Debug, Clone, Copy, PartialEq, Eq, Hash, Structural)]
pub enum FocusTarget {
    Left,
    Main,
    CommandPalette,
    Shell,
}

/// Screen regions that can carry focus or chrome.
#[derive(Debug, Clone, Copy, PartialEq, Eq, Hash, Structural)]
pub enum Region {
    LeftContent,
    MainContent,
    Palette,
    Shell,
    LeftTabs,
    MainTabs,
    StatusBar,
}

/// Region shown as focused for a focus target.
pub open spec fn spec_focused_region(f: FocusTarget) -> Region {
    match f {
        FocusTarget::Left => Region::LeftContent,
        FocusTarget::Main => Region::MainContent,
        FocusTarget::CommandPalette => Region::Palette,
        FocusTarget::Shell => Region::Shell,
    }
}

/// Position of a focus target in the focus cycle.
pub open spec fn focus_position(f: FocusTarget) -> int {
    match f {
        FocusTarget::Left => 0,
        FocusTarget::Main => 1,
        FocusTarget::CommandPalette => 2,
        FocusTarget::Shell => 3,
    }
}

/// The focus cycle order: left, main, palette, shell.
pub open spec fn focus_cycle() -> Seq<FocusTarget> {
    seq![FocusTarget::Left, FocusTarget::Main, FocusTarget::CommandPalette, FocusTarget::Shell]
}

/// Focus target at a position of the cycle (taken modulo its length).
pub open spec fn focus_at(i: int) -> FocusTarget {
    focus_cycle()[i % 4]
}

impl FocusTarget {
    /// Every focus target, in cycle order.
    pub fn cycle() -> (r: [FocusTarget; 4])
        ensures
            r@ == focus_cycle(),
    {
        let r = [FocusTarget::Left, FocusTarget::Main, FocusTarget::CommandPalette, FocusTarget::Shell];
        assert(r@ =~= focus_cycle());
        r
    }

    pub fn focused_region(self) -> (r: Region)
        ensures
            r == spec_focused_region(self),
    {
        match self {
            FocusTarget::Left => Region::LeftContent,
            FocusTarget::Main => Region::MainContent,
            FocusTarget::CommandPalette => Region::Palette,
            FocusTarget::Shell => Region::Shell,
        }
    }

    pub fn is_focused(self, region: Region) -> (r: bool)
        ensures
            r == (spec_focused_region(self) == region),
    {
        self.focused_region() == region
    }

    /// Next target in the cycle, wrapping from shell to left.
    pub fn next(self) -> (r: FocusTarget)
        ensures
            r == focus_at(focus_position(self) + 1),
    {
        match self {
            FocusTarget::Left => FocusTarget::Main,
            FocusTarget::Main => FocusTarget::CommandPalette,
            FocusTarget::CommandPalette => FocusTarget::Shell,
            FocusTarget::Shell => FocusTarget::Left,
        }
    }

    /// Previous target in the cycle, wrapping from left to shell.
    pub fn previous(self) -> (r: FocusTarget)
        ensures
            r == focus_at(focus_position(self) + 3),
    {
        match self {
            FocusTarget::Left => FocusTarget::Shell,
            FocusTarget::Main => FocusTarget::Left,
            FocusTarget::CommandPalette => FocusTarget::Main,
            FocusTarget::Shell => FocusTarget::CommandPalette,
        }
    }
}

/// Every target sits at its own position of the cycle.
pub proof fn lemma_focus_position(f: FocusTarget)
    ensures
        0 <= focus_position(f) < 4,
        focus_at(focus_position(f)) == f,
{
}

/// Moving forward and then back (or back and then forward) returns to the
/// same target, and four steps forward come back to the start.
pub proof fn law_focus_next_previous_inverse(f: FocusTarget)
    ensures
        focus_at(focus_position(focus_at(focus_position(f) + 1)) + 3) == f,
        focus_at(focus_position(focus_at(focus_position(f) + 3)) + 1) == f,
        focus_at(focus_position(f) + 4) == f,
{
}

/// The focused region of distinct targets differs: focus is never shown in
/// two places.
pub proof fn law_focused_region_injective(a: FocusTarget, b: FocusTarget)
    ensures
        spec_focused_region(a) == spec_focused_region(b) ==> a == b,
{
}

} // verus!
