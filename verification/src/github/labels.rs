//! Filling the label picker once the repository labels arrive.
use vstd::prelude::*;

use crate::text::str_eq;

use super::types::{LabelPickerState, RepoLabelsLoadResult};

verus! {

/// Whether a label named `name` is among `existing`.
pub open spec fn has_label(existing: Seq<String>, name: Seq<char>) -> bool {
    exists|e: int| 0 <= e < existing.len() && existing[e]@ == name
}

fn contains_label(existing: &[String], name: &String) -> (r: bool)
    ensures
        r == has_label(existing@, name@),
{
    let mut e: usize = 0;
    while e < existing.len()
        invariant
            e <= existing@.len(),
            forall|x: int| 0 <= x < e ==> existing@[x]@ != name@,
        decreases existing.len() - e,
    {
        if str_eq(existing[e].as_str(), name.as_str()) {
            return true;
        }
        e = e + 1;
    }
    false
}

/// Stores the loaded labels, marks those the issue already has, and pulls
/// the cursor back onto the list.
pub fn apply_label_picker_load(picker: &mut LabelPickerState, result: RepoLabelsLoadResult, existing_labels: &[String])
    ensures
        !final(picker).loading,
        final(picker).error == result.error,
        final(picker).labels == result.labels,
        final(picker).selected@.len() == result.labels@.len(),
        forall|i: int| 0 <= i < result.labels@.len() ==> #[trigger] final(picker).selected@[i] == has_label(
            existing_labels@,
            result.labels@[i].name@,
        ),
        final(picker).cursor == if old(picker).cursor >= result.labels@.len() {
            if result.labels@.len() == 0 { 0 } else { result.labels@.len() - 1 }
        } else {
            old(picker).cursor as int
        },
        final(picker).issue_number == old(picker).issue_number,
        final(picker).existing_labels == old(picker).existing_labels,
        final(picker).applying == old(picker).applying,
{
    picker.loading = false;
    picker.error = result.error;
    picker.labels = result.labels;
    let mut selected: Vec<bool> = Vec::new();
    let mut i: usize = 0;
    while i < picker.labels.len()
        invariant
            i <= picker.labels@.len(),
            picker.labels == result.labels,
            selected@.len() == i,
            forall|k: int| 0 <= k < i ==> #[trigger] selected@[k] == has_label(existing_labels@, picker.labels@[k].name@),
        decreases picker.labels@.len() - i,
    {
        let mark = contains_label(existing_labels, &picker.labels[i].name);
        selected.push(mark);
        i = i + 1;
    }
    picker.selected = selected;
    if picker.cursor >= picker.labels.len() {
        picker.cursor = picker.labels.len().saturating_sub(1);
    }
}

} // verus!
