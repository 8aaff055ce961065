//! Navigation between annotations.

use vstd::prelude::*;
use crate::model::document::{borrowed_views, Document};

verus! {

/// Navigate to annotation by index in sorted list: the offset at which the
/// annotation at `index` of the display order starts, if there is one.
pub fn annotation_offset_by_index(doc: &Document, index: usize) -> (r: Option<usize>)
    ensures
        match r {
            Some(offset) => index < doc@.sorted().len() && offset
                == doc@.sorted()[index as int].range.start_offset,
            None => index >= doc@.sorted().len(),
        },
{
    let sorted = doc.annotations_sorted();
    if index < sorted.len() {
        assert(borrowed_views(sorted@)[index as int] == sorted@[index as int]@);
        Some(sorted[index].range.start_offset)
    } else {
        None
    }
}

} // verus!
