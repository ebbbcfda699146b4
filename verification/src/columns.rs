//! The columns of the views that show one stack each: so that they line up,
//! each column is as wide in every view as it is in the widest.

use vstd::prelude::*;

verus! {

/// The widths of the four columns of one view.
pub type Widths = (i32, i32, i32, i32);

/// Whether `max` is the greatest of zero and the numbers that `pick` takes
/// out of the views.
pub open spec fn is_widest(views: Seq<Widths>, pick: spec_fn(Widths) -> i32, max: i32) -> bool {
    &&& max >= 0
    &&& forall|i: int| 0 <= i < views.len() ==> pick(#[trigger] views[i]) <= max
    &&& max == 0 || exists|i: int| 0 <= i < views.len() && pick(#[trigger] views[i]) == max
}

/// The width of each column in the widest view, and zero at least.
pub fn widest_columns(views: &Vec<Widths>) -> (max: Widths)
    ensures
        is_widest(views@, |w: Widths| w.0, max.0),
        is_widest(views@, |w: Widths| w.1, max.1),
        is_widest(views@, |w: Widths| w.2, max.2),
        is_widest(views@, |w: Widths| w.3, max.3),
{
    let mut max_1: i32 = 0;
    let mut max_2: i32 = 0;
    let mut max_3: i32 = 0;
    let mut max_4: i32 = 0;
    let mut i: usize = 0;
    while i < views.len()
        invariant
            i <= views.len(),
            is_widest(views@.take(i as int), |w: Widths| w.0, max_1),
            is_widest(views@.take(i as int), |w: Widths| w.1, max_2),
            is_widest(views@.take(i as int), |w: Widths| w.2, max_3),
            is_widest(views@.take(i as int), |w: Widths| w.3, max_4),
        decreases views.len() - i,
    {
        let (c1, c2, c3, c4) = views[i];
        let ghost before = views@.take(i as int);
        let ghost after = views@.take(i + 1);
        assert(after[i as int] == views[i as int]);
        assert(forall|k: int| 0 <= k < i ==> after[k] == before[k]);
        if c1 > max_1 {
            max_1 = c1;
        }
        if c2 > max_2 {
            max_2 = c2;
        }
        if c3 > max_3 {
            max_3 = c3;
        }
        if c4 > max_4 {
            max_4 = c4;
        }
        i = i + 1;
    }
    assert(views@.take(i as int) =~= views@);
    (max_1, max_2, max_3, max_4)
}

} // verus!
