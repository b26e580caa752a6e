//! The right-click menu of the issue and pull-request lists.
use vstd::prelude::*;

use crate::selection::{ring_index, ring_move};

verus! {

#[derive(Debug, Clone, Copy, PartialEq, Eq, Structural)]
pub enum GhContextMenuAction {
    View,
    CreateBranch,
    Comment,
    AddLabels,
    AssignMilestone,
    Merge,
    OpenInBrowser,
    SendToAgent,
}

pub open spec fn spec_action_label(a: GhContextMenuAction) -> Seq<char> {
    match a {
        GhContextMenuAction::View => "View"@,
        GhContextMenuAction::CreateBranch => "Create Branch"@,
        GhContextMenuAction::Comment => "Comment"@,
        GhContextMenuAction::AddLabels => "Add Labels"@,
        GhContextMenuAction::AssignMilestone => "Assign Milestone"@,
        GhContextMenuAction::Merge => "Merge into main"@,
        GhContextMenuAction::OpenInBrowser => "Open in Browser"@,
        GhContextMenuAction::SendToAgent => "Send To Agent"@,
    }
}

impl GhContextMenuAction {
    pub fn label(self) -> (r: &'static str)
        ensures
            r@ == spec_action_label(self),
    {
        match self {
            GhContextMenuAction::View => "View",
            GhContextMenuAction::CreateBranch => "Create Branch",
            GhContextMenuAction::Comment => "Comment",
            GhContextMenuAction::AddLabels => "Add Labels",
            GhContextMenuAction::AssignMilestone => "Assign Milestone",
            GhContextMenuAction::Merge => "Merge into main",
            GhContextMenuAction::OpenInBrowser => "Open in Browser",
            GhContextMenuAction::SendToAgent => "Send To Agent",
        }
    }

    /// Width of the label in columns.
    fn label_width(self) -> (r: u16)
        ensures
            r == spec_action_label(self).len(),
    {
        proof {
            reveal_strlit("View");
            reveal_strlit("Create Branch");
            reveal_strlit("Comment");
            reveal_strlit("Add Labels");
            reveal_strlit("Assign Milestone");
            reveal_strlit("Merge into main");
            reveal_strlit("Open in Browser");
            reveal_strlit("Send To Agent");
        }
        match self {
            GhContextMenuAction::View => 4,
            GhContextMenuAction::CreateBranch => 13,
            GhContextMenuAction::Comment => 7,
            GhContextMenuAction::AddLabels => 10,
            GhContextMenuAction::AssignMilestone => 16,
            GhContextMenuAction::Merge => 15,
            GhContextMenuAction::OpenInBrowser => 15,
            GhContextMenuAction::SendToAgent => 13,
        }
    }
}

/// Row of the list the menu was opened on.
#[derive(Debug, Clone, Copy, PartialEq, Eq, Structural)]
pub enum GhContextTarget {
    Issue { list_index: usize },
    PullRequest { list_index: usize },
}

#[derive(Debug, Clone, PartialEq, Eq)]
pub struct GhContextMenuState {
    pub target: GhContextTarget,
    pub anchor_x: u16,
    pub anchor_y: u16,
    pub items: Vec<GhContextMenuAction>,
    pub cursor: usize,
}

/// Entries of the menu for a target: the issue actions, or for a pull
/// request view, merge (when it can be merged), browser and agent.
pub open spec fn menu_items(target: GhContextTarget, merge_available: bool) -> Seq<GhContextMenuAction> {
    match target {
        GhContextTarget::Issue { .. } => seq![
            GhContextMenuAction::View,
            GhContextMenuAction::CreateBranch,
            GhContextMenuAction::Comment,
            GhContextMenuAction::AddLabels,
            GhContextMenuAction::AssignMilestone,
            GhContextMenuAction::OpenInBrowser,
            GhContextMenuAction::SendToAgent,
        ],
        GhContextTarget::PullRequest { .. } => if merge_available {
            seq![
                GhContextMenuAction::View,
                GhContextMenuAction::Merge,
                GhContextMenuAction::OpenInBrowser,
                GhContextMenuAction::SendToAgent,
            ]
        } else {
            seq![GhContextMenuAction::View, GhContextMenuAction::OpenInBrowser, GhContextMenuAction::SendToAgent]
        },
    }
}

/// Widest label among `items`, or 12 when there is none.
pub open spec fn widest_label(items: Seq<GhContextMenuAction>) -> nat
    decreases items.len(),
{
    if items.len() == 0 {
        12
    } else {
        let rest = items.drop_last();
        let w = spec_action_label(items.last()).len();
        if rest.len() == 0 || w > widest_label(rest) {
            w
        } else {
            widest_label(rest)
        }
    }
}

proof fn lemma_widest_label_bound(items: Seq<GhContextMenuAction>)
    ensures
        widest_label(items) <= 16,
    decreases items.len(),
{
    reveal_strlit("View");
    reveal_strlit("Create Branch");
    reveal_strlit("Comment");
    reveal_strlit("Add Labels");
    reveal_strlit("Assign Milestone");
    reveal_strlit("Merge into main");
    reveal_strlit("Open in Browser");
    reveal_strlit("Send To Agent");
    if items.len() > 0 {
        lemma_widest_label_bound(items.drop_last());
    }
}

/// Index into a list of `len` items reached by moving `delta` from
/// `cursor`, wrapping at both ends (positions past `i32::MAX` count as 0).
pub open spec fn menu_cursor_after(cursor: usize, delta: i32, len: nat) -> int {
    let l = if len <= i32::MAX { len as int } else { 1 };
    let c = if cursor <= i32::MAX { cursor as int } else { 0 };
    ring_index(c, delta as int, l)
}

impl GhContextMenuState {
    pub fn new(target: GhContextTarget, anchor_x: u16, anchor_y: u16, merge_available: bool) -> (r: Self)
        ensures
            r.target == target,
            r.anchor_x == anchor_x,
            r.anchor_y == anchor_y,
            r.items@ == menu_items(target, merge_available),
            r.cursor == 0,
    {
        let items = match target {
            GhContextTarget::Issue { .. } => vec![
                GhContextMenuAction::View,
                GhContextMenuAction::CreateBranch,
                GhContextMenuAction::Comment,
                GhContextMenuAction::AddLabels,
                GhContextMenuAction::AssignMilestone,
                GhContextMenuAction::OpenInBrowser,
                GhContextMenuAction::SendToAgent,
            ],
            GhContextTarget::PullRequest { .. } => {
                let mut items = vec![GhContextMenuAction::View];
                if merge_available {
                    items.push(GhContextMenuAction::Merge);
                }
                items.push(GhContextMenuAction::OpenInBrowser);
                items.push(GhContextMenuAction::SendToAgent);
                items
            },
        };
        assert(items@ =~= menu_items(target, merge_available));
        GhContextMenuState { target, anchor_x, anchor_y, items, cursor: 0 }
    }

    /// Moves the cursor, wrapping at both ends; an empty menu is left alone.
    pub fn move_cursor(&mut self, delta: i32)
        requires
            old(self).items@.len() > 0 ==> i32::MIN <= (if old(self).cursor <= i32::MAX {
                old(self).cursor as int
            } else {
                0
            }) + delta <= i32::MAX,
        ensures
            old(self).items@.len() == 0 ==> *final(self) == *old(self),
            old(self).items@.len() > 0 ==> *final(self) == (GhContextMenuState {
                cursor: menu_cursor_after(old(self).cursor, delta, old(self).items@.len()) as usize,
                ..*old(self)
            }),
    {
        if self.items.len() == 0 {
            return;
        }
        let len: usize = if self.items.len() <= i32::MAX as usize { self.items.len() } else { 1 };
        let current: usize = if self.cursor <= i32::MAX as usize { self.cursor } else { 0 };
        self.cursor = ring_move(current, delta, len);
    }

    pub fn selected_action(&self) -> (r: Option<GhContextMenuAction>)
        ensures
            r == if self.cursor < self.items@.len() { Some(self.items@[self.cursor as int]) } else { None },
    {
        if self.cursor < self.items.len() {
            Some(self.items[self.cursor])
        } else {
            None
        }
    }

    /// Widest label plus a border of four columns, at least sixteen.
    pub fn menu_width(&self) -> (r: u16)
        ensures
            r == if widest_label(self.items@) + 4 > 16 { widest_label(self.items@) + 4 } else { 16 },
    {
        let mut widest: u16 = 12;
        let mut i: usize = 0;
        while i < self.items.len()
            invariant
                i <= self.items@.len(),
                widest == widest_label(self.items@.take(i as int)),
            decreases self.items@.len() - i,
        {
            let ghost prev = self.items@.take(i as int);
            let w = self.items[i].label_width();
            proof {
                assert(self.items@.take(i as int + 1).drop_last() =~= prev);
            }
            if i == 0 || w > widest {
                widest = w;
            }
            i = i + 1;
        }
        proof {
            assert(self.items@.take(i as int) =~= self.items@);
            lemma_widest_label_bound(self.items@);
        }
        let padded = widest + 4;
        if padded > 16 { padded } else { 16 }
    }

    /// One row per entry plus the two borders.
    pub fn menu_height(&self) -> (r: u16)
        ensures
            r == if self.items@.len() > u16::MAX {
                2int
            } else if self.items@.len() + 2 > u16::MAX {
                u16::MAX as int
            } else {
                self.items@.len() + 2int
            },
    {
        if self.items.len() > u16::MAX as usize {
            2
        } else {
            (self.items.len() as u16).saturating_add(2)
        }
    }
}

} // verus!
