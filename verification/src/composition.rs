//! The account of the calls that one program makes: how many, how they went, how
//! many were open at once, and of which tools.
use crate::text;
use crate::text::{comes_before, same_text};
use vstd::prelude::*;
use vstd::string::*;

verus! {

/// The account of the calls of a program.
#[derive(Debug)]
pub struct CallAccount {
    pub nested_calls: usize,
    pub nested_successes: usize,
    pub nested_failures: usize,
    pub in_flight: usize,
    pub max_in_flight: usize,
    /// How many bytes the results of the calls took, all together.
    pub nested_raw_result_bytes_total: usize,
    /// How often each tool was called, in the order of their names.
    pub nested_tool_counts: Vec<(String, usize)>,
}

/// How often tools were called.
pub open spec fn counts_view(counts: Seq<(String, usize)>) -> Seq<(Seq<char>, int)> {
    Seq::new(counts.len(), |i: int| (counts[i].0@, counts[i].1 as int))
}

/// How often a tool was called.
pub open spec fn count_of(counts: Seq<(Seq<char>, int)>, tool: Seq<char>) -> int
    decreases counts.len(),
{
    if counts.len() == 0 {
        0
    } else if counts[0].0 == tool {
        counts[0].1
    } else {
        count_of(counts.drop_first(), tool)
    }
}

/// One more, up to the largest number that there is.
pub open spec fn one_more(value: int) -> int {
    if value >= usize::MAX {
        value
    } else {
        value + 1
    }
}

/// Whether tools are in the order of their names, none of them twice.
pub open spec fn in_order(counts: Seq<(Seq<char>, int)>) -> bool {
    forall|i: int, j: int|
        0 <= i < j < counts.len() ==> text::precedes(
            (#[trigger] counts[i]).0,
            (#[trigger] counts[j]).0,
        )
}

/// One call more of a tool: in the place of its name.
pub open spec fn counted(counts: Seq<(Seq<char>, int)>, tool: Seq<char>) -> Seq<(Seq<char>, int)>
    decreases counts.len(),
{
    if counts.len() == 0 {
        seq![(tool, 1int)]
    } else if counts[0].0 == tool {
        counts.update(0, (tool, one_more(counts[0].1)))
    } else if text::precedes(tool, counts[0].0) {
        seq![(tool, 1int)] + counts
    } else {
        seq![counts[0]] + counted(counts.drop_first(), tool)
    }
}

/// All calls together.
pub open spec fn total(counts: Seq<(Seq<char>, int)>) -> int
    decreases counts.len(),
{
    if counts.len() == 0 {
        0
    } else {
        counts[0].1 + total(counts.drop_first())
    }
}

/// Whether the account adds up: every call ended well, ended badly or is open;
/// the counts of the tools come to all calls, no tool twice and in the order of
/// their names; and the most that were open at once
/// is no less than what is open and no more than all calls.
pub open spec fn adds_up(account: CallAccount) -> bool {
    &&& account.nested_successes + account.nested_failures + account.in_flight
        == account.nested_calls
    &&& total(counts_view(account.nested_tool_counts@)) == account.nested_calls
    &&& account.in_flight <= account.max_in_flight <= account.nested_calls
    &&& forall|i: int|
        0 <= i < account.nested_tool_counts@.len() ==> (#[trigger] account.nested_tool_counts@[i]).1
            > 0
    &&& in_order(counts_view(account.nested_tool_counts@))
}

/// What entering a call that begins makes of an account.
pub open spec fn begun(before: CallAccount, after: CallAccount, tool_name: Seq<char>) -> bool {
    &&& after.nested_calls == one_more(before.nested_calls as int)
    &&& after.in_flight == one_more(before.in_flight as int)
    &&& after.max_in_flight == if after.in_flight > before.max_in_flight {
        after.in_flight
    } else {
        before.max_in_flight
    }
    &&& after.nested_successes == before.nested_successes
    &&& after.nested_failures == before.nested_failures
    &&& after.nested_raw_result_bytes_total == before.nested_raw_result_bytes_total
    &&& counts_view(after.nested_tool_counts@) == counted(
        counts_view(before.nested_tool_counts@),
        tool_name,
    )
}

/// A sum, up to the largest size that there is.
pub open spec fn saturated_sum(a: int, b: int) -> int {
    if a + b > usize::MAX {
        usize::MAX as int
    } else {
        a + b
    }
}

/// An account of no calls.
pub open spec fn is_empty(account: CallAccount) -> bool {
    &&& account.nested_calls == 0
    &&& account.nested_successes == 0
    &&& account.nested_failures == 0
    &&& account.in_flight == 0
    &&& account.max_in_flight == 0
    &&& account.nested_raw_result_bytes_total == 0
    &&& account.nested_tool_counts@.len() == 0
}

/// What entering the end of a call makes of an account. Without an open call, it
/// only counts how the call went and how much it handed back.
pub open spec fn ended(
    before: CallAccount,
    after: CallAccount,
    success: bool,
    raw_result_bytes: int,
) -> bool {
    &&& after.nested_calls == before.nested_calls
    &&& after.max_in_flight == before.max_in_flight
    &&& after.nested_tool_counts == before.nested_tool_counts
    &&& after.nested_raw_result_bytes_total == saturated_sum(
        before.nested_raw_result_bytes_total as int,
        raw_result_bytes,
    )
    &&& after.in_flight == if before.in_flight == 0 {
        0
    } else {
        (before.in_flight - 1) as usize
    }
    &&& after.nested_successes == if success {
        one_more(before.nested_successes as int)
    } else {
        before.nested_successes as int
    }
    &&& after.nested_failures == if success {
        before.nested_failures as int
    } else {
        one_more(before.nested_failures as int)
    }
}

proof fn lemma_count_bounds(counts: Seq<(Seq<char>, int)>, tool: Seq<char>)
    requires
        forall|j: int| 0 <= j < counts.len() ==> (#[trigger] counts[j]).1 >= 0,
    ensures
        0 <= count_of(counts, tool) <= total(counts),
    decreases counts.len(),
{
    if counts.len() > 0 {
        let rest = counts.drop_first();
        assert forall|j: int| 0 <= j < rest.len() implies (#[trigger] rest[j]).1 >= 0 by {
            assert(rest[j] == counts[j + 1]);
        }
        lemma_count_bounds(rest, tool);
    }
}

/// A name that comes before all others was not called.
proof fn lemma_not_counted(counts: Seq<(Seq<char>, int)>, tool: Seq<char>)
    requires
        in_order(counts),
        counts.len() > 0 ==> text::precedes(tool, counts[0].0),
    ensures
        count_of(counts, tool) == 0,
    decreases counts.len(),
{
    if counts.len() > 0 {
        let rest = counts.drop_first();
        text::lemma_precedes_is_total(tool, counts[0].0);
        assert forall|i: int, j: int| 0 <= i < j < rest.len() implies text::precedes(
            (#[trigger] rest[i]).0,
            (#[trigger] rest[j]).0,
        ) by {
            assert(text::precedes(counts[i + 1].0, counts[j + 1].0));
        }
        if rest.len() > 0 {
            assert(text::precedes(counts[0].0, counts[1].0));
            text::lemma_precedes_carries(tool, counts[0].0, counts[1].0);
            assert(rest[0] == counts[1]);
        }
        lemma_not_counted(rest, tool);
    }
}

proof fn lemma_rest_in_order(counts: Seq<(Seq<char>, int)>)
    requires
        in_order(counts),
        counts.len() > 0,
    ensures
        in_order(counts.drop_first()),
{
    let rest = counts.drop_first();
    assert forall|i: int, j: int| 0 <= i < j < rest.len() implies text::precedes(
        (#[trigger] rest[i]).0,
        (#[trigger] rest[j]).0,
    ) by {
        assert(text::precedes(counts[i + 1].0, counts[j + 1].0));
    }
}

proof fn lemma_counted(counts: Seq<(Seq<char>, int)>, tool: Seq<char>)
    requires
        in_order(counts),
    ensures
        total(counted(counts, tool)) == total(counts) - count_of(counts, tool) + one_more(
            count_of(counts, tool),
        ),
        count_of(counted(counts, tool), tool) == one_more(count_of(counts, tool)),
        forall|other: Seq<char>|
            other != tool ==> #[trigger] count_of(counted(counts, tool), other) == count_of(
                counts,
                other,
            ),
    decreases counts.len(),
{
    let after = counted(counts, tool);
    if counts.len() == 0 || (counts[0].0 != tool && text::precedes(tool, counts[0].0)) {
        lemma_not_counted(counts, tool);
        assert(after.drop_first() =~= counts);
        assert(total(after) == 1 + total(after.drop_first()));
        assert forall|other: Seq<char>| other != tool implies #[trigger] count_of(after, other)
            == count_of(counts, other) by {
            assert(count_of(after, other) == count_of(after.drop_first(), other));
        }
    } else if counts[0].0 == tool {
        assert(after.drop_first() =~= counts.drop_first());
        assert forall|other: Seq<char>| other != tool implies #[trigger] count_of(after, other)
            == count_of(counts, other) by {
            assert(count_of(after, other) == count_of(after.drop_first(), other));
        }
    } else {
        let rest = counts.drop_first();
        lemma_rest_in_order(counts);
        lemma_counted(rest, tool);
        assert(after.drop_first() =~= counted(rest, tool));
        assert(after[0] == counts[0]);
        assert forall|other: Seq<char>| other != tool implies #[trigger] count_of(after, other)
            == count_of(counts, other) by {
            if other != counts[0].0 {
                assert(count_of(after, other) == count_of(after.drop_first(), other));
            }
        }
    }
}

proof fn lemma_counted_in_order(counts: Seq<(Seq<char>, int)>, tool: Seq<char>)
    requires
        in_order(counts),
    ensures
        in_order(counted(counts, tool)),
    decreases counts.len(),
{
    let after = counted(counts, tool);
    if counts.len() == 0 {
    } else if counts[0].0 == tool {
        assert forall|i: int, j: int| 0 <= i < j < after.len() implies text::precedes(
            (#[trigger] after[i]).0,
            (#[trigger] after[j]).0,
        ) by {
            assert(text::precedes(counts[i].0, counts[j].0));
        }
    } else if text::precedes(tool, counts[0].0) {
        assert forall|i: int, j: int| 0 <= i < j < after.len() implies text::precedes(
            (#[trigger] after[i]).0,
            (#[trigger] after[j]).0,
        ) by {
            assert(after[j] == counts[j - 1]);
            if i > 0 {
                assert(text::precedes(counts[i - 1].0, counts[j - 1].0));
            } else if j > 1 {
                assert(text::precedes(counts[0].0, counts[j - 1].0));
                text::lemma_precedes_carries(tool, counts[0].0, counts[j - 1].0);
            }
        }
    } else {
        let rest = counts.drop_first();
        let others = counted(rest, tool);
        lemma_rest_in_order(counts);
        lemma_counted_in_order(rest, tool);
        text::lemma_precedes_is_total(tool, counts[0].0);
        assert forall|i: int, j: int| 0 <= i < j < after.len() implies text::precedes(
            (#[trigger] after[i]).0,
            (#[trigger] after[j]).0,
        ) by {
            assert(after[j] == others[j - 1]);
            if i > 0 {
                assert(text::precedes(others[i - 1].0, others[j - 1].0));
            } else {
                law_only_called_tools_are_counted(rest, tool, j - 1);
                if others[j - 1].0 != tool {
                    let k = choose|k: int|
                        0 <= k < rest.len() && #[trigger] rest[k].0 == others[j - 1].0;
                    assert(text::precedes(counts[0].0, counts[k + 1].0));
                }
            }
        }
    }
}

proof fn lemma_counted_positive(counts: Seq<(Seq<char>, int)>, tool: Seq<char>, i: int)
    requires
        forall|j: int| 0 <= j < counts.len() ==> (#[trigger] counts[j]).1 > 0,
        0 <= i < counted(counts, tool).len(),
    ensures
        counted(counts, tool)[i].1 > 0,
    decreases counts.len(),
{
    if counts.len() > 0 && counts[0].0 != tool && text::precedes(tool, counts[0].0) {
        if i > 0 {
            assert(counted(counts, tool)[i] == counts[i - 1]);
        }
    } else if counts.len() > 0 && counts[0].0 != tool && i > 0 {
        let rest = counts.drop_first();
        assert forall|j: int| 0 <= j < rest.len() implies (#[trigger] rest[j]).1 > 0 by {
            assert(rest[j] == counts[j + 1]);
        }
        assert(counted(counts, tool)[i] == counted(rest, tool)[i - 1]);
        lemma_counted_positive(rest, tool, i - 1);
    }
}

/// An account that adds up still does after a call that begins.
pub proof fn lemma_begun_adds_up(before: CallAccount, after: CallAccount, tool: Seq<char>)
    requires
        adds_up(before),
        before.nested_calls < usize::MAX,
        begun(before, after, tool),
    ensures
        adds_up(after),
        total(counts_view(after.nested_tool_counts@)) == before.nested_calls + 1,
{
    let counts = counts_view(before.nested_tool_counts@);
    assert forall|j: int| 0 <= j < counts.len() implies (#[trigger] counts[j]).1 > 0 by {
        assert(counts[j].1 == before.nested_tool_counts@[j].1);
    }
    lemma_counted(counts, tool);
    lemma_counted_in_order(counts, tool);
    lemma_count_bounds(counts, tool);
    assert forall|i: int| 0 <= i < after.nested_tool_counts@.len() implies (
    #[trigger] after.nested_tool_counts@[i]).1 > 0 by {
        lemma_counted_positive(counts, tool, i);
        assert(counts_view(after.nested_tool_counts@)[i].1 == after.nested_tool_counts@[i].1);
    }
}

fn count_call(counts: Vec<(String, usize)>, tool: &str) -> (result: Vec<(String, usize)>)
    ensures
        counts_view(result@) == counted(counts_view(counts@), tool@),
{
    let ghost all = counts_view(counts@);
    let mut result = counts;
    let mut i: usize = 0;
    assert(all.skip(0) =~= all);
    assert(all.take(0) + counted(all.skip(0), tool@) =~= counted(all, tool@));
    while i < result.len()
        invariant
            i <= result@.len(),
            result@ == counts@,
            all == counts_view(counts@),
            all.take(i as int) + counted(all.skip(i as int), tool@) == counted(all, tool@),
        decreases result@.len() - i,
    {
        if same_text(result[i].0.as_str(), tool) {
            let entry = (result[i].0.clone(), result[i].1.saturating_add(1));
            result.set(i, entry);
            assert(counts_view(result@) =~= all.take(i as int) + counted(
                all.skip(i as int),
                tool@,
            ));
            return result;
        }
        if comes_before(tool, result[i].0.as_str()) {
            result.insert(i, (tool.to_owned(), 1));
            assert(counts_view(result@) =~= all.take(i as int) + counted(
                all.skip(i as int),
                tool@,
            ));
            return result;
        }
        proof {
            assert(all.skip(i as int).drop_first() =~= all.skip(i + 1));
            assert(all.take(i as int) + counted(all.skip(i as int), tool@) =~= all.take(i + 1)
                + counted(all.skip(i + 1), tool@));
        }
        i = i + 1;
    }
    result.push((tool.to_owned(), 1));
    assert(all.take(i as int) =~= all);
    assert(all.skip(i as int) =~= Seq::<(Seq<char>, int)>::empty());
    assert(counts_view(result@) =~= all + seq![(tool@, 1int)]);
    result
}

impl CallAccount {
    /// An account of no calls.
    pub fn new() -> (account: CallAccount)
        ensures
            adds_up(account),
            is_empty(account),
    {
        CallAccount {
            nested_calls: 0,
            nested_successes: 0,
            nested_failures: 0,
            in_flight: 0,
            max_in_flight: 0,
            nested_raw_result_bytes_total: 0,
            nested_tool_counts: Vec::new(),
        }
    }

    /// Enters a call that begins, and hands out its number.
    pub fn begin_call(&mut self, tool_name: &str) -> (ordinal: usize)
        ensures
            adds_up(*old(self)) && old(self).nested_calls < usize::MAX ==> adds_up(*final(self)),
            begun(*old(self), *final(self), tool_name@),
            ordinal == final(self).nested_calls,
    {
        let mut counts: Vec<(String, usize)> = Vec::new();
        std::mem::swap(&mut counts, &mut self.nested_tool_counts);
        self.nested_tool_counts = count_call(counts, tool_name);
        self.nested_calls = self.nested_calls.saturating_add(1);
        self.in_flight = self.in_flight.saturating_add(1);
        if self.in_flight > self.max_in_flight {
            self.max_in_flight = self.in_flight;
        }
        proof {
            if adds_up(*old(self)) && old(self).nested_calls < usize::MAX {
                lemma_begun_adds_up(*old(self), *self, tool_name@);
            }
        }
        self.nested_calls
    }

    /// Enters the end of a call, with the size of what it handed back.
    pub fn finish_call(&mut self, success: bool, raw_result_bytes: usize)
        ensures
            ended(*old(self), *final(self), success, raw_result_bytes as int),
            adds_up(*old(self)) && old(self).in_flight > 0 ==> adds_up(*final(self)),
    {
        if self.in_flight > 0 {
            self.in_flight = self.in_flight - 1;
        }
        self.nested_raw_result_bytes_total = self.nested_raw_result_bytes_total.saturating_add(
            raw_result_bytes,
        );
        if success {
            self.nested_successes = self.nested_successes.saturating_add(1);
        } else {
            self.nested_failures = self.nested_failures.saturating_add(1);
        }
    }
}

/// Copies of counts, in their order.
pub fn copy_counts(counts: &Vec<(String, usize)>) -> (copy: Vec<(String, usize)>)
    ensures
        counts_view(copy@) == counts_view(counts@),
{
    let mut copy: Vec<(String, usize)> = Vec::new();
    let mut i: usize = 0;
    while i < counts.len()
        invariant
            i <= counts@.len(),
            copy@.len() == i,
            forall|j: int|
                0 <= j < i ==> (#[trigger] copy@[j]).0@ == counts@[j].0@ && copy@[j].1
                    == counts@[j].1,
        decreases counts@.len() - i,
    {
        copy.push((counts[i].0.clone(), counts[i].1));
        i = i + 1;
    }
    assert(counts_view(copy@) =~= counts_view(counts@));
    copy
}

/// A call counts for its own tool and for no other.
pub proof fn law_a_call_counts_for_its_tool(
    counts: Seq<(Seq<char>, int)>,
    tool: Seq<char>,
    other: Seq<char>,
)
    requires
        in_order(counts),
        other != tool,
    ensures
        count_of(counted(counts, tool), tool) == one_more(count_of(counts, tool)),
        count_of(counted(counts, tool), other) == count_of(counts, other),
        count_of(counts, tool) < usize::MAX ==> total(counted(counts, tool)) == total(counts) + 1,
{
    lemma_counted(counts, tool);
}

/// Once no call is open, every call is entered as one that went well or badly.
pub proof fn law_account_adds_up_when_all_calls_ended(account: CallAccount)
    requires
        adds_up(account),
        account.in_flight == 0,
    ensures
        account.nested_successes + account.nested_failures == account.nested_calls,
        total(counts_view(account.nested_tool_counts@)) == account.nested_calls,
{
}

/// Entering a call adds the name of its tool to the counts, and no other name.
pub proof fn law_only_called_tools_are_counted(
    counts: Seq<(Seq<char>, int)>,
    tool: Seq<char>,
    i: int,
)
    requires
        0 <= i < counted(counts, tool).len(),
    ensures
        counted(counts, tool)[i].0 == tool || exists|j: int|
            0 <= j < counts.len() && #[trigger] counts[j].0 == counted(counts, tool)[i].0,
    decreases counts.len(),
{
    if counts.len() > 0 {
        if counts[0].0 == tool {
            if i > 0 {
                assert(counts[i].0 == counted(counts, tool)[i].0);
            }
        } else if text::precedes(tool, counts[0].0) {
            if i > 0 {
                assert(counts[i - 1].0 == counted(counts, tool)[i].0);
            }
        } else if i == 0 {
            assert(counts[0].0 == counted(counts, tool)[0].0);
        } else {
            let rest = counts.drop_first();
            assert(counted(counts, tool)[i] == counted(rest, tool)[i - 1]);
            law_only_called_tools_are_counted(rest, tool, i - 1);
            if counted(rest, tool)[i - 1].0 != tool {
                let j = choose|j: int|
                    0 <= j < rest.len() && #[trigger] rest[j].0 == counted(rest, tool)[i - 1].0;
                assert(counts[j + 1].0 == counted(counts, tool)[i].0);
            }
        }
    }
}

/// No tool is listed twice.
pub proof fn law_tools_are_listed_once(account: CallAccount, i: int, j: int)
    requires
        adds_up(account),
        0 <= i < j < account.nested_tool_counts@.len(),
    ensures
        account.nested_tool_counts@[i].0@ != account.nested_tool_counts@[j].0@,
        text::precedes(
            account.nested_tool_counts@[i].0@,
            account.nested_tool_counts@[j].0@,
        ),
{
    let counts = counts_view(account.nested_tool_counts@);
    assert(text::precedes(counts[i].0, counts[j].0));
    text::lemma_precedes_is_total(counts[i].0, counts[j].0);
}

/// What a call does to an account: its beginning is one more call, open; its end is
/// one open call less, and one success or one failure more, with its bytes added. An
/// account without calls holds nothing.
pub proof fn law_calls_are_entered_and_closed(
    before: CallAccount,
    after: CallAccount,
    tool: Seq<char>,
    success: bool,
    bytes: int,
)
    requires
        before.nested_calls < usize::MAX,
        before.in_flight < usize::MAX,
        before.nested_successes < usize::MAX,
        before.nested_failures < usize::MAX,
        0 <= bytes,
        before.nested_raw_result_bytes_total + bytes <= usize::MAX,
    ensures
        begun(before, after, tool) ==> after.nested_calls == before.nested_calls + 1
            && after.in_flight == before.in_flight + 1 && after.max_in_flight >= after.in_flight
            && after.max_in_flight >= before.max_in_flight && after.nested_successes
            == before.nested_successes && after.nested_failures == before.nested_failures
            && after.nested_raw_result_bytes_total == before.nested_raw_result_bytes_total,
        ended(before, after, success, bytes) ==> {
            &&& after.nested_calls == before.nested_calls
            &&& before.in_flight > 0 ==> after.in_flight == before.in_flight - 1
            &&& before.in_flight == 0 ==> after.in_flight == 0
            &&& success ==> after.nested_successes == before.nested_successes + 1
                && after.nested_failures == before.nested_failures
            &&& !success ==> after.nested_failures == before.nested_failures + 1
                && after.nested_successes == before.nested_successes
            &&& after.nested_raw_result_bytes_total == before.nested_raw_result_bytes_total + bytes
            &&& after.max_in_flight == before.max_in_flight
        },
        is_empty(before) ==> before.nested_calls == 0 && before.nested_successes == 0
            && before.nested_failures == 0 && before.in_flight == 0 && before.max_in_flight == 0
            && before.nested_raw_result_bytes_total == 0 && before.nested_tool_counts@.len() == 0,
{
}

} // verus!
