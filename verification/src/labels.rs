//! Resolving a class index to a human-readable label.
//!
//! The label table is an ordered list in which line N, counted from
//! one, names class N. An index outside the table is a mismatch
//! between the model and the table and is reported as such.

use crate::cache::ClassifyError;
use vstd::prelude::*;

verus! {

/// A fixed, ordered, 1-indexed table of label strings, loaded once and
/// read-only thereafter.
pub struct LabelTable {
    labels: Vec<String>,
}

impl View for LabelTable {
    type V = Seq<Seq<char>>;

    closed spec fn view(&self) -> Seq<Seq<char>> {
        self.labels.deep_view()
    }
}

impl LabelTable {
    /// Builds the table from its lines, in order.
    pub fn new(labels: Vec<String>) -> (r: LabelTable)
        ensures
            r@ == labels.deep_view(),
    {
        LabelTable { labels }
    }

    /// The number of labels in the table.
    pub fn len(&self) -> (r: usize)
        ensures
            r == self@.len(),
    {
        self.labels.len()
    }

    /// Maps a 1-based class index to its label. Exactly the indices
    /// from one through the table length resolve; any other index
    /// fails with a lookup error.
    pub fn resolve(&self, class_index: usize) -> (r: Result<String, ClassifyError>)
        ensures
            1 <= class_index <= self@.len() ==> (r matches Ok(v) && v@ == self@[class_index - 1]),
            !(1 <= class_index <= self@.len()) ==> r == Err::<String, ClassifyError>(
                ClassifyError::LookupError,
            ),
    {
        if 1 <= class_index && class_index <= self.labels.len() {
            let v = self.labels[class_index - 1].clone();
            proof {
                assert(v@ == self.labels.deep_view()[class_index - 1]);
            }
            Ok(v)
        } else {
            Err(ClassifyError::LookupError)
        }
    }
}

} // verus!
