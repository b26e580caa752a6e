//! Filling the milestone picker once the repository milestones arrive.
use vstd::prelude::*;

use super::types::{MilestonePickerState, RepoMilestonesLoadResult};

verus! {

/// Stores the loaded milestones and pulls the cursor back onto the list.
pub fn apply_milestone_picker_load(picker: &mut MilestonePickerState, result: RepoMilestonesLoadResult)
    ensures
        *final(picker) == (MilestonePickerState {
            loading: false,
            error: result.error,
            milestones: result.milestones,
            cursor: if old(picker).cursor >= result.milestones@.len() {
                if result.milestones@.len() == 0 { 0 } else { (result.milestones@.len() - 1) as usize }
            } else {
                old(picker).cursor
            },
            ..*old(picker)
        }),
{
    picker.loading = false;
    picker.error = result.error;
    picker.milestones = result.milestones;
    if picker.cursor >= picker.milestones.len() {
        picker.cursor = picker.milestones.len().saturating_sub(1);
    }
}

} // verus!
