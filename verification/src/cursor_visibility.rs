//! System-wide cursor hiding (Insert mode may hide the cursor; Normal mode shows it again).
//! The platform calls are reference-counted on some systems, so a request reaches them only
//! when it changes the state, which keeps hide and show calls balanced.
use vstd::prelude::*;

verus! {

/// Whether the cursor is hidden.
pub struct CursorVisibility {
    pub hidden: bool,
}

impl CursorVisibility {
    /// The cursor is shown at launch.
    pub fn new() -> (v: Self)
        ensures
            !v.hidden,
    {
        CursorVisibility { hidden: false }
    }
}

/// A request `hidden` made while the cursor is `was` hidden: the new state, and whether the
/// platform must be told.
pub open spec fn cursor_step(was: bool, hidden: bool) -> (bool, bool) {
    (hidden, was != hidden)
}

/// A run of requests from the state `start`: the final state, and the calls that reach the
/// platform, in order (each the value it is told).
pub open spec fn cursor_run(start: bool, requests: Seq<bool>) -> (bool, Seq<bool>)
    decreases requests.len(),
{
    if requests.len() == 0 {
        (start, Seq::empty())
    } else {
        let (was, calls) = cursor_run(start, requests.drop_last());
        let (now, apply) = cursor_step(was, requests.last());
        (now, if apply { calls.push(requests.last()) } else { calls })
    }
}

/// Records a request to hide (or show) the cursor; true when the platform must be told, that
/// is when the request changes the state.
pub fn set_cursor_hidden(visibility: &mut CursorVisibility, hidden: bool) -> (apply: bool)
    ensures
        (final(visibility).hidden, apply) == cursor_step(old(visibility).hidden, hidden),
{
    let was = visibility.hidden;
    visibility.hidden = hidden;
    was != hidden
}

/// Hide and show calls alternate: from the shown cursor of a new `CursorVisibility`, whatever
/// requests are made, the platform is told hide, show, hide, ... and never the same twice in
/// a row, so hide calls outnumber show calls by one exactly while the cursor is hidden.
pub proof fn law_cursor_calls_alternate(requests: Seq<bool>)
    ensures
        ({
            let (hidden, calls) = cursor_run(false, requests);
            &&& forall|i: int| 0 <= i < calls.len() ==> #[trigger] calls[i] == (i % 2 == 0)
            &&& hidden == (calls.len() % 2 == 1)
        }),
    decreases requests.len(),
{
    if requests.len() > 0 {
        law_cursor_calls_alternate(requests.drop_last());
    }
}

} // verus!
