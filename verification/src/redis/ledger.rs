//! The account of native handles: which ones the host has handed out and the
//! module has not yet given back.
//!
//! The account is a function of the calls made so far. A [`Ledger`] keeps the
//! calls, as ghost state, beside the list of handles that are still out, and
//! its invariant ties the two together.
use crate::redis::raw::Exchange;
use crate::redis::raw::RedisModuleCallReply;
use crate::redis::raw::RedisModuleKey;
use crate::redis::raw::RedisModuleString;
use vstd::prelude::*;

verus! {

/// A native handle that has to be given back to the host.
#[derive(Clone, Copy, Debug, PartialEq, Eq, Structural)]
pub enum Resource {
    String(RedisModuleString),
    Key(RedisModuleKey),
    Reply(RedisModuleCallReply),
}

/// The handle that a call hands to the module, if it hands one.
///
/// A key or a reply counts even when it is the null handle; a popped element
/// or a hash value counts only when there is one.
pub open spec fn acquired(e: Exchange) -> Option<Resource> {
    match e {
        Exchange::CreateString { string, .. } => Some(Resource::String(string)),
        Exchange::OpenKey { key, .. } => Some(Resource::Key(key)),
        Exchange::Call { reply, .. } => Some(Resource::Reply(reply)),
        Exchange::CallReplyArrayElement { element, .. } => Some(Resource::Reply(element)),
        Exchange::ListPop { string, .. } => if string.is_null() {
            None
        } else {
            Some(Resource::String(string))
        },
        Exchange::HashGet { string, .. } => if string.is_null() {
            None
        } else {
            Some(Resource::String(string))
        },
        _ => None,
    }
}

/// The handle that a call gives back to the host, if it gives one back.
pub open spec fn released(e: Exchange) -> Option<Resource> {
    match e {
        Exchange::FreeString { string, .. } => Some(Resource::String(string)),
        Exchange::CloseKey { key } => Some(Resource::Key(key)),
        Exchange::FreeCallReply { reply } => Some(Resource::Reply(reply)),
        _ => None,
    }
}

/// The greatest index at which `res` stands in `live`, or -1.
pub open spec fn last_index_of(live: Seq<Resource>, res: Resource) -> int
    decreases live.len(),
{
    if live.len() == 0 {
        -1
    } else if live.last() == res {
        live.len() - 1
    } else {
        last_index_of(live.drop_last(), res)
    }
}

/// `live` without the last occurrence of `res`.
pub open spec fn without_last(live: Seq<Resource>, res: Resource) -> Seq<Resource> {
    let i = last_index_of(live, res);
    if i < 0 {
        live
    } else {
        live.remove(i)
    }
}

/// The calls after an attempt to give `res` back by the call `e`, where
/// `live` is out: the call is made only where `res` is among `live`.
pub open spec fn release_of(
    trace: Seq<Exchange>,
    live: Seq<Resource>,
    res: Resource,
    e: Exchange,
) -> Seq<Exchange> {
    if live.contains(res) {
        trace.push(e)
    } else {
        trace
    }
}

/// The handles that are out after one more call.
pub open spec fn step(live: Seq<Resource>, e: Exchange) -> Seq<Resource> {
    match acquired(e) {
        Some(res) => live.push(res),
        None => match released(e) {
            Some(res) => without_last(live, res),
            None => live,
        },
    }
}

/// The handles that are out after the calls of `trace`, oldest first.
pub open spec fn outstanding(trace: Seq<Exchange>) -> Seq<Resource>
    decreases trace.len(),
{
    if trace.len() == 0 {
        Seq::empty()
    } else {
        step(outstanding(trace.drop_last()), trace.last())
    }
}

/// Whether every release in `trace` gives back a handle that was out at that
/// moment: nothing is released twice, and nothing that was never handed out.
pub open spec fn disciplined(trace: Seq<Exchange>) -> bool {
    forall|i: int|
        0 <= i < trace.len() ==> match released(#[trigger] trace[i]) {
            Some(res) => outstanding(trace.take(i)).contains(res),
            None => true,
        }
}

/// How often `res` stands in `live`.
pub open spec fn occurrences(live: Seq<Resource>, res: Resource) -> nat
    decreases live.len(),
{
    if live.len() == 0 {
        0
    } else {
        occurrences(live.drop_last(), res) + if live.last() == res {
            1nat
        } else {
            0nat
        }
    }
}

/// How often the calls of `trace` handed `res` to the module.
pub open spec fn times_acquired(trace: Seq<Exchange>, res: Resource) -> nat
    decreases trace.len(),
{
    if trace.len() == 0 {
        0
    } else {
        times_acquired(trace.drop_last(), res) + if acquired(trace.last()) == Some(res) {
            1nat
        } else {
            0nat
        }
    }
}

/// How often the calls of `trace` gave `res` back to the host.
pub open spec fn times_released(trace: Seq<Exchange>, res: Resource) -> nat
    decreases trace.len(),
{
    if trace.len() == 0 {
        0
    } else {
        times_released(trace.drop_last(), res) + if released(trace.last()) == Some(res) {
            1nat
        } else {
            0nat
        }
    }
}

pub proof fn lemma_last_index_of(live: Seq<Resource>, res: Resource)
    ensures
        last_index_of(live, res) >= 0 <==> live.contains(res),
        -1 <= last_index_of(live, res) < live.len(),
        last_index_of(live, res) >= 0 ==> live[last_index_of(live, res)] == res,
        forall|j: int| last_index_of(live, res) < j < live.len() ==> live[j] != res,
    decreases live.len(),
{
    if live.len() > 0 {
        let front = live.drop_last();
        lemma_last_index_of(front, res);
        if live.last() == res {
            assert(live[live.len() - 1] == res);
        } else {
            if front.contains(res) {
                let j = choose|j: int| 0 <= j < front.len() && front[j] == res;
                assert(live[j] == res);
            }
            if live.contains(res) {
                let j = choose|j: int| 0 <= j < live.len() && live[j] == res;
                assert(front[j] == res);
            }
            assert forall|j: int| last_index_of(live, res) < j < live.len() implies live[j]
                != res by {
                if j < front.len() {
                    assert(front[j] != res);
                }
            }
        }
    }
}

/// The handle that was handed out last is out, and giving it back leaves what
/// was out before it.
pub proof fn lemma_newest_is_out(live: Seq<Resource>, res: Resource)
    ensures
        live.push(res).contains(res),
        without_last(live.push(res), res) == live,
{
    let pushed = live.push(res);
    assert(pushed[live.len() as int] == res);
    assert(pushed.remove(live.len() as int) == live);
}

/// The last of the handles that are out is out, and giving it back leaves
/// those before it.
pub proof fn lemma_last_is_out(live: Seq<Resource>, res: Resource)
    requires
        live.len() > 0,
        live.last() == res,
    ensures
        live.contains(res),
        without_last(live, res) == live.drop_last(),
{
    lemma_newest_is_out(live.drop_last(), res);
    assert(live.drop_last().push(res) == live);
}

/// The handles out after `trace` and one more call follow from those out after `trace`.
pub proof fn lemma_outstanding_push(trace: Seq<Exchange>, e: Exchange)
    ensures
        outstanding(trace.push(e)) == step(outstanding(trace), e),
{
    assert(trace.push(e).drop_last() == trace);
}

/// A call that gives back only what is out keeps the trace disciplined.
pub proof fn lemma_disciplined_push(trace: Seq<Exchange>, e: Exchange)
    requires
        disciplined(trace),
        released(e) matches Some(res) ==> outstanding(trace).contains(res),
    ensures
        disciplined(trace.push(e)),
{
    let next = trace.push(e);
    assert forall|i: int| 0 <= i < next.len() implies match released(#[trigger] next[i]) {
        Some(res) => outstanding(next.take(i)).contains(res),
        None => true,
    } by {
        if i < trace.len() {
            assert(next.take(i) == trace.take(i));
            assert(next[i] == trace[i]);
        } else {
            assert(next.take(i) == trace);
        }
    }
}

proof fn lemma_occurrences_push(live: Seq<Resource>, pushed: Resource, res: Resource)
    ensures
        occurrences(live.push(pushed), res) == occurrences(live, res) + if pushed == res {
            1nat
        } else {
            0nat
        },
{
    assert(live.push(pushed).drop_last() == live);
}

proof fn lemma_occurrences_remove(live: Seq<Resource>, i: int, res: Resource)
    requires
        0 <= i < live.len(),
    ensures
        occurrences(live, res) == occurrences(live.remove(i), res) + if live[i] == res {
            1nat
        } else {
            0nat
        },
    decreases live.len(),
{
    if i == live.len() - 1 {
        assert(live.remove(i) == live.drop_last());
    } else {
        lemma_occurrences_remove(live.drop_last(), i, res);
        assert(live.remove(i).drop_last() == live.drop_last().remove(i));
        assert(live.remove(i).last() == live.last());
    }
}

/// What one call does to the number of times a handle is out.
proof fn lemma_step_occurrences(live: Seq<Resource>, e: Exchange, res: Resource)
    requires
        released(e) matches Some(back) ==> live.contains(back),
    ensures
        occurrences(step(live, e), res) + if released(e) == Some(res) {
            1nat
        } else {
            0nat
        } == occurrences(live, res) + if acquired(e) == Some(res) {
            1nat
        } else {
            0nat
        },
{
    match acquired(e) {
        Some(got) => {
            lemma_occurrences_push(live, got, res);
        },
        None => match released(e) {
            Some(back) => {
                lemma_last_index_of(live, back);
                lemma_occurrences_remove(live, last_index_of(live, back), res);
            },
            None => {},
        },
    }
}

/// In a disciplined trace every handle was handed out as often as it was
/// given back, apart from the times it is still out.
pub proof fn lemma_every_handle_accounted_for(trace: Seq<Exchange>, res: Resource)
    requires
        disciplined(trace),
    ensures
        times_acquired(trace, res) == times_released(trace, res) + occurrences(
            outstanding(trace),
            res,
        ),
    decreases trace.len(),
{
    if trace.len() > 0 {
        let front = trace.drop_last();
        lemma_disciplined_front(trace);
        lemma_every_handle_accounted_for(front, res);
        lemma_step_occurrences(outstanding(front), trace.last(), res);
    }
}

/// How many handles the calls of `trace` handed to the module.
pub open spec fn acquisitions(trace: Seq<Exchange>) -> nat
    decreases trace.len(),
{
    if trace.len() == 0 {
        0
    } else {
        acquisitions(trace.drop_last()) + if acquired(trace.last()) is Some {
            1nat
        } else {
            0nat
        }
    }
}

/// How many handles the calls of `trace` gave back to the host.
pub open spec fn releases(trace: Seq<Exchange>) -> nat
    decreases trace.len(),
{
    if trace.len() == 0 {
        0
    } else {
        releases(trace.drop_last()) + if released(trace.last()) is Some {
            1nat
        } else {
            0nat
        }
    }
}

/// A disciplined trace without its last call is disciplined, and what its
/// last call gives back was out before it.
proof fn lemma_disciplined_front(trace: Seq<Exchange>)
    requires
        disciplined(trace),
        trace.len() > 0,
    ensures
        disciplined(trace.drop_last()),
        released(trace.last()) matches Some(back) ==> outstanding(trace.drop_last()).contains(back),
{
    let front = trace.drop_last();
    assert forall|i: int| 0 <= i < front.len() implies match released(#[trigger] front[i]) {
        Some(back) => outstanding(front.take(i)).contains(back),
        None => true,
    } by {
        assert(front[i] == trace[i]);
        assert(front.take(i) == trace.take(i));
    }
    let last = trace.len() - 1;
    assert(trace.take(last) == front);
    assert(released(trace[last]) matches Some(back) ==> outstanding(front).contains(back));
}

/// In a disciplined trace the handles handed out are as many as those given
/// back and those still out together.
pub proof fn lemma_acquisitions_are_releases_and_outstanding(trace: Seq<Exchange>)
    requires
        disciplined(trace),
    ensures
        acquisitions(trace) == releases(trace) + outstanding(trace).len(),
    decreases trace.len(),
{
    if trace.len() > 0 {
        let front = trace.drop_last();
        lemma_disciplined_front(trace);
        lemma_acquisitions_are_releases_and_outstanding(front);
        match released(trace.last()) {
            Some(back) => {
                lemma_last_index_of(outstanding(front), back);
            },
            None => {},
        }
    }
}

/// Where a disciplined trace leaves nothing out, it holds exactly as many
/// releases as acquisitions, and every single handle was given back exactly
/// as often as it was handed out: no release is missing and none is made
/// twice.
pub proof fn lemma_settled_trace_is_balanced(trace: Seq<Exchange>)
    requires
        disciplined(trace),
        outstanding(trace).len() == 0,
    ensures
        acquisitions(trace) == releases(trace),
        forall|res: Resource| #[trigger] times_acquired(trace, res) == times_released(trace, res),
{
    lemma_acquisitions_are_releases_and_outstanding(trace);
    assert forall|res: Resource| #[trigger]
        times_acquired(trace, res) == times_released(trace, res) by {
        lemma_every_handle_accounted_for(trace, res);
    }
}

/// Where `res` stands in the later of two runs of handles, its last place in
/// both together is its last place in the later run.
proof fn lemma_last_index_of_concat(earlier: Seq<Resource>, later: Seq<Resource>, res: Resource)
    requires
        later.contains(res),
    ensures
        last_index_of(earlier + later, res) == earlier.len() + last_index_of(later, res),
        without_last(earlier + later, res) == earlier + without_last(later, res),
    decreases later.len(),
{
    let both = earlier + later;
    lemma_last_index_of(later, res);
    assert(both.drop_last() == earlier + later.drop_last());
    assert(both.last() == later.last());
    if later.last() != res {
        let front = later.drop_last();
        let at = choose|at: int| 0 <= at < later.len() && later[at] == res;
        assert(front[at] == res);
        lemma_last_index_of_concat(earlier, front, res);
        lemma_last_index_of(front, res);
    }
    let at = last_index_of(later, res);
    assert(both.remove(earlier.len() + at) =~= earlier + later.remove(at));
}

/// A beginning of a disciplined trace is disciplined.
pub proof fn lemma_disciplined_take(trace: Seq<Exchange>, n: int)
    requires
        disciplined(trace),
        0 <= n <= trace.len(),
    ensures
        disciplined(trace.take(n)),
{
    let front = trace.take(n);
    assert forall|i: int| 0 <= i < front.len() implies match released(#[trigger] front[i]) {
        Some(back) => outstanding(front.take(i)).contains(back),
        None => true,
    } by {
        assert(front[i] == trace[i]);
        assert(front.take(i) == trace.take(i));
    }
}

/// Behind any calls, a disciplined run of calls leaves out what was out
/// before it and what it leaves out itself.
pub proof fn lemma_outstanding_concat(earlier: Seq<Exchange>, later: Seq<Exchange>)
    requires
        disciplined(later),
    ensures
        outstanding(earlier + later) == outstanding(earlier) + outstanding(later),
    decreases later.len(),
{
    if later.len() == 0 {
        assert(earlier + later == earlier);
        assert(outstanding(earlier) + outstanding(later) == outstanding(earlier));
    } else {
        let front = later.drop_last();
        let e = later.last();
        lemma_disciplined_front(later);
        lemma_outstanding_concat(earlier, front);
        assert((earlier + later).drop_last() == earlier + front);
        assert((earlier + later).last() == e);
        let before = outstanding(earlier);
        let within = outstanding(front);
        match acquired(e) {
            Some(res) => {
                assert((before + within).push(res) == before + within.push(res));
            },
            None => match released(e) {
                Some(res) => {
                    lemma_last_index_of_concat(before, within, res);
                },
                None => {},
            },
        }
    }
}

/// Two disciplined runs of calls, one behind the other, are disciplined.
pub proof fn lemma_disciplined_concat(earlier: Seq<Exchange>, later: Seq<Exchange>)
    requires
        disciplined(earlier),
        disciplined(later),
    ensures
        disciplined(earlier + later),
{
    let both = earlier + later;
    assert forall|i: int| 0 <= i < both.len() implies match released(#[trigger] both[i]) {
        Some(back) => outstanding(both.take(i)).contains(back),
        None => true,
    } by {
        if i < earlier.len() {
            assert(both[i] == earlier[i]);
            assert(both.take(i) == earlier.take(i));
        } else {
            let j = i - earlier.len();
            assert(both[i] == later[j]);
            assert(both.take(i) == earlier + later.take(j));
            lemma_disciplined_take(later, j);
            lemma_outstanding_concat(earlier, later.take(j));
            match released(later[j]) {
                Some(back) => {
                    let within = outstanding(later.take(j));
                    let at = choose|at: int| 0 <= at < within.len() && within[at] == back;
                    assert((outstanding(earlier) + within)[outstanding(earlier).len() + at]
                        == back);
                },
                None => {},
            }
        }
    }
}

/// The calls made so far and the handles that are out because of them.
pub struct Ledger {
    live: Vec<Resource>,
    trace: Ghost<Seq<Exchange>>,
}

impl Ledger {
    #[verifier::type_invariant]
    spec fn well_formed(self) -> bool {
        &&& self.live@ == outstanding(self.trace@)
        &&& disciplined(self.trace@)
    }

    /// The calls made so far, oldest first.
    pub closed spec fn trace(&self) -> Seq<Exchange> {
        self.trace@
    }

    /// A ledger before the first call.
    pub fn new() -> (ledger: Ledger)
        ensures
            ledger.trace() == Seq::<Exchange>::empty(),
    {
        Ledger { live: Vec::new(), trace: Ghost(Seq::empty()) }
    }

    /// The ledger after a call that neither hands out nor gives back a handle.
    pub(crate) fn noted(self, Ghost(e): Ghost<Exchange>) -> (ledger: Ledger)
        requires
            acquired(e) is None,
            released(e) is None,
        ensures
            ledger.trace() == self.trace().push(e),
    {
        proof {
            use_type_invariant(&self);
            lemma_outstanding_push(self.trace@, e);
            lemma_disciplined_push(self.trace@, e);
        }
        let Ledger { live, trace } = self;
        Ledger { live, trace: Ghost(trace@.push(e)) }
    }

    /// The ledger after a call that handed `res` to the module.
    pub(crate) fn credited(self, res: Resource, Ghost(e): Ghost<Exchange>) -> (ledger: Ledger)
        requires
            acquired(e) == Some(res),
        ensures
            ledger.trace() == self.trace().push(e),
    {
        proof {
            use_type_invariant(&self);
            lemma_outstanding_push(self.trace@, e);
            lemma_disciplined_push(self.trace@, e);
        }
        let Ledger { mut live, trace } = self;
        live.push(res);
        Ledger { live, trace: Ghost(trace@.push(e)) }
    }

    /// Where `res` stands last among the handles that are out.
    pub(crate) fn position(&self, res: Resource) -> (found: Option<usize>)
        ensures
            found is Some <==> outstanding(self.trace()).contains(res),
            found matches Some(i) ==> i == last_index_of(outstanding(self.trace()), res),
    {
        proof {
            use_type_invariant(self);
        }
        let mut i: usize = self.live.len();
        while i > 0
            invariant
                i <= self.live.len(),
                self.live@ == outstanding(self.trace()),
                forall|j: int| i <= j < self.live.len() ==> self.live@[j] != res,
            decreases i,
        {
            if self.live[i - 1] == res {
                proof {
                    lemma_last_index_of(self.live@, res);
                    assert(self.live@[i - 1] == res);
                }
                return Some(i - 1);
            }
            i -= 1;
        }
        None
    }

    /// The ledger after a call that gave `res`, found at `at`, back to the host.
    pub(crate) fn debited(self, res: Resource, at: usize, Ghost(e): Ghost<Exchange>) -> (ledger:
        Ledger)
        requires
            released(e) == Some(res),
            acquired(e) is None,
            at == last_index_of(outstanding(self.trace()), res),
        ensures
            ledger.trace() == self.trace().push(e),
    {
        proof {
            use_type_invariant(&self);
            lemma_last_index_of(self.live@, res);
            lemma_outstanding_push(self.trace@, e);
            lemma_disciplined_push(self.trace@, e);
        }
        let Ledger { mut live, trace } = self;
        live.remove(at);
        Ledger { live, trace: Ghost(trace@.push(e)) }
    }

    /// The ledger of the calls of `self` and then those of `later`.
    pub(crate) fn joined(self, later: Ledger) -> (ledger: Ledger)
        ensures
            ledger.trace() == self.trace() + later.trace(),
            outstanding(ledger.trace()) == outstanding(self.trace()) + outstanding(later.trace()),
            disciplined(later.trace()),
    {
        proof {
            use_type_invariant(&self);
            use_type_invariant(&later);
            lemma_outstanding_concat(self.trace@, later.trace@);
            lemma_disciplined_concat(self.trace@, later.trace@);
        }
        let Ledger { mut live, trace } = self;
        let Ledger { live: mut later_live, trace: later_trace } = later;
        live.append(&mut later_live);
        Ledger { live, trace: Ghost(trace@ + later_trace@) }
    }

    /// The handle that was handed out last among those that are out. The
    /// trace of a ledger is disciplined at all times.
    pub(crate) fn newest(&self) -> (found: Option<Resource>)
        ensures
            disciplined(self.trace()),
            found == if outstanding(self.trace()).len() == 0 {
                None
            } else {
                Some(outstanding(self.trace()).last())
            },
    {
        proof {
            use_type_invariant(self);
        }
        if self.live.len() == 0 {
            None
        } else {
            Some(self.live[self.live.len() - 1])
        }
    }
}

} // verus!
