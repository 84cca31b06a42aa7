use vstd::prelude::*;

verus! {

/// One write to the display: `text` at the start of row `y`.
pub struct Draw {
    pub y: i32,
    pub text: String,
}

/// An item of the display that the render loop polls once per iteration.
pub trait WindowItem {
    /// The item's state is consistent.
    spec fn item_wf(&self) -> bool;

    /// The item has finished its work.
    spec fn done_view(&self) -> bool;

    /// The first row the item occupies.
    fn bg_y(&self) -> i32;

    /// The number of rows the item occupies.
    fn len(&self) -> usize;

    /// Takes in what happened since the last poll at time `now_ms`
    /// (milliseconds of a monotonic clock), returns whether the item is done
    /// and what to write to the display.
    fn poll(&mut self, now_ms: u64) -> (r: (bool, Option<Draw>))
        requires
            old(self).item_wf(),
        ensures
            final(self).item_wf(),
            r.0 == final(self).done_view(),
    ;

    /// The item has finished its work.
    fn is_done(&self) -> (r: bool)
        requires
            self.item_wf(),
        ensures
            r == self.done_view(),
    ;
}

} // verus!
