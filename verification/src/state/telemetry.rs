//! The order of telemetry events.

use vstd::prelude::*;

verus! {

/// Monotonic event counter for run cache telemetry.
///
/// State selection (compilation phase) and task execution (run phase) take their values
/// from one counter, so that no two events have the same one.
#[derive(Debug)]
pub struct SharedEventOrder {
    pub following: i64,
}

/// The value behind a value; the last one is followed by the first.
pub open spec fn successor(n: i64) -> i64 {
    if n == i64::MAX {
        i64::MIN
    } else {
        (n + 1) as i64
    }
}

impl SharedEventOrder {
    pub fn new() -> (r: SharedEventOrder)
        ensures
            r.following == 0,
    {
        SharedEventOrder { following: 0 }
    }

    /// Increments the counter and returns the value that it had.
    pub fn next(&mut self) -> (r: i64)
        ensures
            r == old(self).following,
            final(self).following == successor(old(self).following),
    {
        let value = self.following;
        if value == i64::MAX {
            self.following = i64::MIN;
        } else {
            self.following = value + 1;
        }
        value
    }
}

/// The value that the counter gives out after so many values.
pub open spec fn value_at(start: i64, n: nat) -> i64
    decreases n,
{
    if n == 0 {
        start
    } else {
        successor(value_at(start, (n - 1) as nat))
    }
}

/// The values that calls get, in the order in which they reach the counter. A call is named
/// by the holder that makes it: holders that share the counter have no values of their own.
pub open spec fn given_out(start: i64, calls: Seq<int>) -> Seq<(int, i64)> {
    Seq::new(calls.len(), |k: int| (calls[k], value_at(start, k as nat)))
}

/// The counter after so many calls stands at the value that the next call gets.
pub proof fn a_call_gets_the_following_value(start: i64, calls: Seq<int>, holder: int)
    ensures
        given_out(start, calls.push(holder)) == given_out(start, calls).push(
            (holder, value_at(start, calls.len())),
        ),
        value_at(start, calls.len() + 1) == successor(value_at(start, calls.len())),
{
    assert(given_out(start, calls.push(holder)) =~= given_out(start, calls).push(
        (holder, value_at(start, calls.len())),
    ));
}

proof fn counted(n: nat)
    requires
        n <= i64::MAX,
    ensures
        value_at(0, n) == n,
    decreases n,
{
    if n > 0 {
        counted((n - 1) as nat);
    }
}

/// A new counter gives out 0, 1, 2 and so on, as long as they can be counted, whichever
/// holders call and in whichever order: each value once, none left out, and each greater
/// than those before.
pub proof fn values_ascend(calls: Seq<int>)
    requires
        calls.len() <= i64::MAX,
    ensures
        forall|k: int|
            0 <= k < calls.len() ==> (#[trigger] given_out(0, calls)[k]) == (calls[k], k as i64),
        forall|j: int, k: int|
            0 <= j < k < calls.len() ==> (#[trigger] given_out(0, calls)[j]).1 < (
            #[trigger] given_out(0, calls)[k]).1,
{
    assert forall|k: int| 0 <= k < calls.len() implies (#[trigger] given_out(0, calls)[k]) == (
        calls[k],
        k as i64,
    ) by {
        counted(k as nat);
    }
}

} // verus!
