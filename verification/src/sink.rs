//! What reaches a sink.
use vstd::prelude::*;

verus! {

/// As much of `items` as a sink sees that accepts `room` of them: the first one that it does not
/// accept is the last one that it is offered.
pub open spec fn offered<A>(items: Seq<A>, room: nat) -> Seq<A> {
    if items.len() <= room {
        items
    } else {
        items.take(room as int + 1)
    }
}

} // verus!
