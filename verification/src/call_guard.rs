//! The guard of a call: whichever way a call ends, it is counted once.
use crate::composition;
use crate::composition::CallAccount;
use vstd::prelude::*;

verus! {

/// Stands for a call that has begun. The call is counted when it finishes, or as
/// a failure when it is given up; what comes after that counts nothing.
#[derive(Debug)]
pub struct NestedCallGuard {
    pub finished: bool,
}

/// What the end of a call makes of an account: nothing where the call was counted
/// before.
pub open spec fn counted_end(
    finished: bool,
    before: CallAccount,
    after: CallAccount,
    success: bool,
    raw_result_bytes: int,
) -> bool {
    if finished {
        after == before
    } else {
        composition::ended(before, after, success, raw_result_bytes)
    }
}

impl NestedCallGuard {
    /// The guard of a call that has begun.
    pub fn new() -> (guard: NestedCallGuard)
        ensures
            !guard.finished,
    {
        NestedCallGuard { finished: false }
    }

    /// Counts a call that finished, with the size of what it handed back.
    pub fn finish(&mut self, account: &mut CallAccount, success: bool, raw_result_bytes: usize)
        ensures
            final(self).finished,
            counted_end(
                old(self).finished,
                *old(account),
                *final(account),
                success,
                raw_result_bytes as int,
            ),
            composition::adds_up(*old(account)) && old(account).in_flight > 0
                ==> composition::adds_up(*final(account)),
    {
        if !self.finished {
            account.finish_call(success, raw_result_bytes);
            self.finished = true;
        }
    }

    /// Counts a call that was given up: as a failure that handed back nothing.
    pub fn give_up(&mut self, account: &mut CallAccount)
        ensures
            final(self).finished,
            counted_end(old(self).finished, *old(account), *final(account), false, 0),
            composition::adds_up(*old(account)) && old(account).in_flight > 0
                ==> composition::adds_up(*final(account)),
    {
        self.finish(account, false, 0);
    }
}

// ---- Laws ---------------------------------------------------------------------------------

/// What happens to the calls of one program. Calls are told apart by the order in
/// which they begin.
pub enum CallEvent {
    Begin { tool: Seq<char> },
    Finish { call: int, success: bool, raw_result_bytes: nat },
    GiveUp { call: int },
}

/// How many calls have begun.
pub open spec fn begins(events: Seq<CallEvent>) -> nat
    decreases events.len(),
{
    if events.len() == 0 {
        0
    } else {
        begins(events.drop_last()) + if events.last() is Begin {
            1nat
        } else {
            0nat
        }
    }
}

/// How a call ended: the first thing that ended it decides.
pub open spec fn settled(events: Seq<CallEvent>, call: int) -> Option<(bool, nat)>
    decreases events.len(),
{
    if events.len() == 0 {
        None
    } else if settled(events.drop_last(), call) is Some {
        settled(events.drop_last(), call)
    } else {
        match events.last() {
            CallEvent::Begin { .. } => None,
            CallEvent::Finish { call: ended, success, raw_result_bytes } => if ended == call {
                Some((success, raw_result_bytes))
            } else {
                None
            },
            CallEvent::GiveUp { call: ended } => if ended == call {
                Some((false, 0nat))
            } else {
                None
            },
        }
    }
}

/// How many of the first `calls` calls ended well, or badly.
pub open spec fn ended_so(events: Seq<CallEvent>, calls: nat, success: bool) -> nat
    decreases calls,
{
    if calls == 0 {
        0
    } else {
        ended_so(events, (calls - 1) as nat, success) + match settled(events, calls - 1) {
            Some(end) => if end.0 == success {
                1nat
            } else {
                0nat
            },
            None => 0nat,
        }
    }
}

/// How many of the first `calls` calls are open.
pub open spec fn open_calls(events: Seq<CallEvent>, calls: nat) -> nat
    decreases calls,
{
    if calls == 0 {
        0
    } else {
        open_calls(events, (calls - 1) as nat) + if settled(events, calls - 1) is None {
            1nat
        } else {
            0nat
        }
    }
}

/// How many bytes the first `calls` calls handed back.
pub open spec fn bytes_of(events: Seq<CallEvent>, calls: nat) -> nat
    decreases calls,
{
    if calls == 0 {
        0
    } else {
        bytes_of(events, (calls - 1) as nat) + match settled(events, calls - 1) {
            Some(end) => end.1,
            None => 0nat,
        }
    }
}

/// The most calls that were ever open at once.
pub open spec fn most_open(events: Seq<CallEvent>) -> nat
    decreases events.len(),
{
    if events.len() == 0 {
        0
    } else {
        let before = most_open(events.drop_last());
        let now = open_calls(events, begins(events));
        if now > before {
            now
        } else {
            before
        }
    }
}

/// Whether an event makes one account of another. Only a call that has begun can
/// end; the guard of a call knows whether it was counted.
pub open spec fn happens(
    events: Seq<CallEvent>,
    event: CallEvent,
    before: CallAccount,
    after: CallAccount,
) -> bool {
    match event {
        CallEvent::Begin { tool } => composition::begun(before, after, tool),
        CallEvent::Finish { call, success, raw_result_bytes } => 0 <= call < begins(events)
            && counted_end(
            settled(events, call) is Some,
            before,
            after,
            success,
            raw_result_bytes as int,
        ),
        CallEvent::GiveUp { call } => 0 <= call < begins(events) && counted_end(
            settled(events, call) is Some,
            before,
            after,
            false,
            0,
        ),
    }
}

/// Whether accounts follow one another as the events say, from the empty one on.
pub open spec fn follows(accounts: Seq<CallAccount>, events: Seq<CallEvent>) -> bool
    decreases events.len(),
{
    if events.len() == 0 {
        accounts.len() == 1 && composition::is_empty(accounts[0])
    } else {
        &&& accounts.len() == events.len() + 1
        &&& follows(accounts.drop_last(), events.drop_last())
        &&& happens(
            events.drop_last(),
            events.last(),
            accounts[accounts.len() - 2],
            accounts.last(),
        )
    }
}

/// However calls begin, finish and are given up, each is counted exactly once: one
/// that finished as it finished, one that was given up as a failure that handed
/// back nothing, and giving up a call that finished counts nothing. The account
/// knows how many calls are open and how many were at most.
pub proof fn law_each_call_is_counted_once(accounts: Seq<CallAccount>, events: Seq<CallEvent>)
    requires
        follows(accounts, events),
        begins(events) < usize::MAX,
        bytes_of(events, begins(events)) <= usize::MAX,
    ensures
        ({
            let account = accounts.last();
            let calls = begins(events);
            &&& account.nested_calls == calls
            &&& account.nested_successes == ended_so(events, calls, true)
            &&& account.nested_failures == ended_so(events, calls, false)
            &&& account.in_flight == open_calls(events, calls)
            &&& account.max_in_flight == most_open(events)
            &&& account.nested_raw_result_bytes_total == bytes_of(events, calls)
            &&& composition::total(composition::counts_view(account.nested_tool_counts@)) == calls
            &&& composition::adds_up(account)
            &&& open_calls(events, calls) == 0 ==> account.nested_calls
                == account.nested_successes + account.nested_failures
        }),
    decreases events.len(),
{
    if events.len() == 0 {
        assert(composition::counts_view(accounts[0].nested_tool_counts@) =~= Seq::empty());
    } else {
        let earlier = events.drop_last();
        let before = accounts[accounts.len() - 2];
        let after = accounts.last();
        assert(accounts.drop_last().last() == before);
        lemma_grows(events);
        law_each_call_is_counted_once(accounts.drop_last(), earlier);
        match events.last() {
            CallEvent::Begin { tool } => {
                lemma_unsettled(accounts.drop_last(), earlier, begins(earlier) as int);
                lemma_same_ends(earlier, events, begins(earlier));
                composition::lemma_begun_adds_up(before, after, tool);
            },
            CallEvent::Finish { call, .. } => {
                lemma_one_end(events, begins(earlier), call);
                if settled(earlier, call) is None {
                    lemma_open(earlier, begins(earlier), call);
                }
            },
            CallEvent::GiveUp { call } => {
                lemma_one_end(events, begins(earlier), call);
                if settled(earlier, call) is None {
                    lemma_open(earlier, begins(earlier), call);
                }
            },
        }
    }
}

/// No event takes back what was handed back before it.
proof fn lemma_grows(events: Seq<CallEvent>)
    requires
        events.len() > 0,
    ensures
        begins(events.drop_last()) <= begins(events),
        bytes_of(events.drop_last(), begins(events.drop_last())) <= bytes_of(
            events,
            begins(events),
        ),
{
    let earlier = events.drop_last();
    lemma_bytes_grow(events, begins(earlier));
    if events.last() is Begin {
        assert(begins(events) == begins(earlier) + 1);
    }
}

proof fn lemma_bytes_grow(events: Seq<CallEvent>, calls: nat)
    requires
        events.len() > 0,
    ensures
        bytes_of(events.drop_last(), calls) <= bytes_of(events, calls),
    decreases calls,
{
    if calls > 0 {
        lemma_bytes_grow(events, (calls - 1) as nat);
    }
}

/// A call that has not begun has not ended.
proof fn lemma_unsettled(accounts: Seq<CallAccount>, events: Seq<CallEvent>, call: int)
    requires
        follows(accounts, events),
        call >= begins(events),
    ensures
        settled(events, call) is None,
    decreases events.len(),
{
    if events.len() > 0 {
        lemma_unsettled(accounts.drop_last(), events.drop_last(), call);
    }
}

/// A call that begins ends none.
proof fn lemma_same_ends(earlier: Seq<CallEvent>, events: Seq<CallEvent>, calls: nat)
    requires
        events.len() > 0,
        earlier == events.drop_last(),
        events.last() is Begin,
    ensures
        ended_so(events, calls, true) == ended_so(earlier, calls, true),
        ended_so(events, calls, false) == ended_so(earlier, calls, false),
        open_calls(events, calls) == open_calls(earlier, calls),
        bytes_of(events, calls) == bytes_of(earlier, calls),
    decreases calls,
{
    if calls > 0 {
        lemma_same_ends(earlier, events, (calls - 1) as nat);
    }
}

/// An event that ends a call changes the numbers by that call, once.
proof fn lemma_one_end(events: Seq<CallEvent>, calls: nat, call: int)
    requires
        events.len() > 0,
        match events.last() {
            CallEvent::Begin { .. } => false,
            CallEvent::Finish { call: ended, .. } => ended == call,
            CallEvent::GiveUp { call: ended } => ended == call,
        },
    ensures
        ({
            let earlier = events.drop_last();
            let counts = 0 <= call < calls && settled(earlier, call) is None;
            let end = settled(events, call)->Some_0;
            &&& settled(events, call) is Some
            &&& ended_so(events, calls, true) == ended_so(earlier, calls, true) + if counts
                && end.0 {
                1int
            } else {
                0int
            }
            &&& ended_so(events, calls, false) == ended_so(earlier, calls, false) + if counts
                && !end.0 {
                1int
            } else {
                0int
            }
            &&& open_calls(events, calls) == open_calls(earlier, calls) - if counts {
                1int
            } else {
                0int
            }
            &&& bytes_of(events, calls) == bytes_of(earlier, calls) + if counts {
                end.1 as int
            } else {
                0int
            }
        }),
    decreases calls,
{
    if calls > 0 {
        lemma_one_end(events, (calls - 1) as nat, call);
    }
}

/// Where a call is open, some call is.
proof fn lemma_open(events: Seq<CallEvent>, calls: nat, call: int)
    requires
        0 <= call < calls,
        settled(events, call) is None,
    ensures
        open_calls(events, calls) > 0,
    decreases calls,
{
    if call < calls - 1 {
        lemma_open(events, (calls - 1) as nat, call);
    }
}

} // verus!
