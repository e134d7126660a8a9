//! The bounded queue of machine events that a child process writes: progress
//! gives way to everything else, and the loss of anything else is reported.
use crate::json;
use crate::json::{add_field, number_value, set_field, text_value, JsonValue};
use crate::process_key::TunnelProfileId;
use crate::text;
use crate::text::{is_one_of, is_text};
use std::collections::VecDeque;
use vstd::prelude::*;
use vstd::string::*;

verus! {

/// The queue holds at most this many events.
pub const MACHINE_EVENT_CAPACITY: usize = 64;

/// So many places of the queue are kept free of progress.
pub const MACHINE_CRITICAL_RESERVE: usize = 8;

/// Whether an event tells of progress.
pub open spec fn is_progress(event: json::JsonView) -> bool {
    event.text_field("event"@) == Some("progress"@)
}

/// The names of the events that end or decide the run of a child.
pub open spec fn terminal_name(name: Seq<char>) -> bool {
    name == "ready"@ || name == "error"@ || name == "failed"@ || name == "stopped"@ || name
        == "exit"@ || name == "exited"@ || name == "terminal"@
}

/// Whether an event ends or decides the run of a child.
pub open spec fn is_terminal(event: json::JsonView) -> bool {
    event.text_field("event"@) matches Some(name) && terminal_name(name)
}

/// Whether an event tells of progress.
pub fn machine_event_is_progress(event: &JsonValue) -> (found: bool)
    ensures
        found == is_progress(event@),
{
    is_text(event.text_field("event"), "progress")
}

/// Whether an event ends or decides the run of a child.
pub fn machine_event_is_terminal(event: &JsonValue) -> (found: bool)
    ensures
        found == is_terminal(event@),
{
    match event.text_field("event") {
        Some(name) => {
            let names: [&str; 7] = [
                "ready",
                "error",
                "failed",
                "stopped",
                "exit",
                "exited",
                "terminal",
            ];
            let found = is_one_of(name, names.as_slice());
            proof {
                assert(names@[0]@ == "ready"@ && names@[1]@ == "error"@ && names@[2]@ == "failed"@
                    && names@[3]@ == "stopped"@ && names@[4]@ == "exit"@ && names@[5]@
                    == "exited"@ && names@[6]@ == "terminal"@);
            }
            found
        },
        None => false,
    }
}

/// The events of a child that were not received yet.
#[derive(Debug)]
pub struct MachineEventState {
    pub queue: VecDeque<JsonValue>,
    pub closed: bool,
    pub dropped_progress: u64,
    pub dropped_critical: u64,
}

/// What a [`MachineEventState`] stands for.
pub struct EventsView {
    pub queue: Seq<json::JsonView>,
    pub closed: bool,
    pub dropped_progress: u64,
    pub dropped_critical: u64,
}

impl View for MachineEventState {
    type V = EventsView;

    open spec fn view(&self) -> EventsView {
        EventsView {
            queue: json::items_view(self.queue@),
            closed: self.closed,
            dropped_progress: self.dropped_progress,
            dropped_critical: self.dropped_critical,
        }
    }
}

/// Whether the queue is within its bound.
pub open spec fn bounded(state: EventsView) -> bool {
    state.queue.len() <= MACHINE_EVENT_CAPACITY
}

/// The place of the first event of progress, or the length of the queue.
pub open spec fn first_progress(queue: Seq<json::JsonView>) -> nat
    decreases queue.len(),
{
    if queue.len() == 0 || is_progress(queue[0]) {
        0
    } else {
        1 + first_progress(queue.drop_first())
    }
}

/// The place of the last event of progress, or -1.
pub open spec fn last_progress(queue: Seq<json::JsonView>) -> int
    decreases queue.len(),
{
    if queue.len() == 0 {
        -1
    } else if is_progress(queue.last()) {
        queue.len() - 1
    } else {
        last_progress(queue.drop_last())
    }
}

/// The place of the first event that is not terminal, or the length of the
/// queue.
pub open spec fn first_transient(queue: Seq<json::JsonView>) -> nat
    decreases queue.len(),
{
    if queue.len() == 0 || !is_terminal(queue[0]) {
        0
    } else {
        1 + first_transient(queue.drop_first())
    }
}

/// One more, up to the largest number that there is.
pub open spec fn counted(value: u64) -> u64 {
    if value == u64::MAX {
        value
    } else {
        (value + 1) as u64
    }
}

/// The state after a progress event, and whether the receiver is woken. Where
/// progress has used up its places, the newest event of progress is replaced.
pub open spec fn sent_progress(state: EventsView, event: json::JsonView) -> (EventsView, bool) {
    let at = last_progress(state.queue);
    if state.queue.len() < MACHINE_EVENT_CAPACITY - MACHINE_CRITICAL_RESERVE {
        (EventsView { queue: state.queue.push(event), ..state }, true)
    } else if at >= 0 {
        (EventsView { queue: state.queue.update(at, event), ..state }, false)
    } else {
        (EventsView { dropped_progress: counted(state.dropped_progress), ..state }, false)
    }
}

/// The state after any other event, which wakes the receiver. In a full queue
/// the oldest event of progress gives way; else a terminal event displaces the
/// oldest event that is not terminal, or the oldest, and any other is lost.
pub open spec fn sent_critical(state: EventsView, event: json::JsonView) -> EventsView {
    let progress = first_progress(state.queue);
    let transient = first_transient(state.queue);
    if state.queue.len() < MACHINE_EVENT_CAPACITY {
        EventsView { queue: state.queue.push(event), ..state }
    } else if progress < state.queue.len() {
        EventsView {
            queue: state.queue.remove(progress as int).push(event),
            dropped_progress: counted(state.dropped_progress),
            ..state
        }
    } else if is_terminal(event) {
        EventsView {
            queue: state.queue.remove(
                if transient < state.queue.len() {
                    transient as int
                } else {
                    0
                },
            ).push(event),
            dropped_critical: counted(state.dropped_critical),
            ..state
        }
    } else {
        EventsView { dropped_critical: counted(state.dropped_critical), ..state }
    }
}

/// The state after an event was sent, and whether the receiver is woken. A
/// closed queue takes nothing.
pub open spec fn sent(state: EventsView, event: json::JsonView) -> (EventsView, bool) {
    if state.closed {
        (state, false)
    } else if is_progress(event) {
        sent_progress(state, event)
    } else {
        (sent_critical(state, event), true)
    }
}

/// What a receiver gets.
#[derive(Debug)]
pub enum Received {
    Event(JsonValue),
    /// Nothing is there yet.
    Pending,
    /// Nothing will come any more.
    Closed,
}

/// What a [`Received`] stands for.
pub enum ReceivedView {
    Event(json::JsonView),
    Pending,
    Closed,
}

impl View for Received {
    type V = ReceivedView;

    open spec fn view(&self) -> ReceivedView {
        match self {
            Received::Event(event) => ReceivedView::Event(event@),
            Received::Pending => ReceivedView::Pending,
            Received::Closed => ReceivedView::Closed,
        }
    }
}

/// The event that reports lost events.
pub open spec fn overflow_event(dropped: u64) -> json::JsonView {
    json::JsonView::Object(
        seq![
            ("event"@, json::JsonView::Text("machine_event_overflow"@)),
            ("dropped_critical"@, json::number(dropped)),
        ],
    )
}

/// An event with the profile that its child runs for: what the child itself
/// wrote there is replaced.
pub open spec fn attributed(event: json::JsonView, profile: Option<TunnelProfileId>) -> json::JsonView {
    match (event, profile) {
        (json::JsonView::Object(fields), Some(id)) => json::JsonView::Object(
            json::with_field(fields, "tunnel_profile_id"@, json::number(id.value)),
        ),
        _ => event,
    }
}

/// The state after a receipt, and what was received: the report of lost events
/// first, then the oldest event.
pub open spec fn received(state: EventsView, profile: Option<TunnelProfileId>) -> (
    EventsView,
    ReceivedView,
) {
    if state.dropped_critical > 0 {
        (
            EventsView { dropped_critical: 0, ..state },
            ReceivedView::Event(overflow_event(state.dropped_critical)),
        )
    } else if state.queue.len() > 0 {
        (
            EventsView { queue: state.queue.drop_first(), ..state },
            ReceivedView::Event(attributed(state.queue[0], profile)),
        )
    } else if state.closed {
        (state, ReceivedView::Closed)
    } else {
        (state, ReceivedView::Pending)
    }
}

// ---- Operations -----------------------------------------------------------------

proof fn lemma_first_progress(queue: Seq<json::JsonView>, at: int)
    requires
        0 <= at <= queue.len(),
        forall|i: int| 0 <= i < at ==> !is_progress(#[trigger] queue[i]),
        at < queue.len() ==> is_progress(queue[at]),
    ensures
        first_progress(queue) == at,
    decreases queue.len(),
{
    if at > 0 {
        let rest = queue.drop_first();
        assert forall|i: int| 0 <= i < at - 1 implies !is_progress(#[trigger] rest[i]) by {
            assert(rest[i] == queue[i + 1]);
        }
        assert(!is_progress(queue[0]));
        lemma_first_progress(rest, at - 1);
    }
}

proof fn lemma_first_transient(queue: Seq<json::JsonView>, at: int)
    requires
        0 <= at <= queue.len(),
        forall|i: int| 0 <= i < at ==> is_terminal(#[trigger] queue[i]),
        at < queue.len() ==> !is_terminal(queue[at]),
    ensures
        first_transient(queue) == at,
    decreases queue.len(),
{
    if at > 0 {
        let rest = queue.drop_first();
        assert forall|i: int| 0 <= i < at - 1 implies is_terminal(#[trigger] rest[i]) by {
            assert(rest[i] == queue[i + 1]);
        }
        assert(is_terminal(queue[0]));
        lemma_first_transient(rest, at - 1);
    }
}

proof fn lemma_last_progress(queue: Seq<json::JsonView>)
    ensures
        -1 <= last_progress(queue) < queue.len(),
        last_progress(queue) >= 0 ==> is_progress(queue[last_progress(queue)]),
        forall|i: int|
            last_progress(queue) < i < queue.len() ==> !is_progress(#[trigger] queue[i]),
    decreases queue.len(),
{
    if queue.len() > 0 && !is_progress(queue.last()) {
        let front = queue.drop_last();
        lemma_last_progress(front);
        assert forall|i: int| last_progress(queue) < i < queue.len() implies !is_progress(
            #[trigger] queue[i],
        ) by {
            if i < front.len() {
                assert(front[i] == queue[i]);
            }
        }
    }
}

fn find_first_progress(queue: &VecDeque<JsonValue>) -> (found: Option<usize>)
    ensures
        match found {
            Some(at) => at < queue@.len() && first_progress(json::items_view(queue@)) == at,
            None => first_progress(json::items_view(queue@)) == queue@.len(),
        },
{
    let ghost all = json::items_view(queue@);
    let mut i: usize = 0;
    while i < queue.len()
        invariant
            i <= queue@.len(),
            all == json::items_view(queue@),
            forall|j: int| 0 <= j < i ==> !is_progress(#[trigger] all[j]),
        decreases queue@.len() - i,
    {
        if machine_event_is_progress(&queue[i]) {
            proof {
                lemma_first_progress(all, i as int);
            }
            return Some(i);
        }
        i = i + 1;
    }
    proof {
        lemma_first_progress(all, i as int);
    }
    None
}

fn find_last_progress(queue: &VecDeque<JsonValue>) -> (found: Option<usize>)
    ensures
        match found {
            Some(at) => at < queue@.len() && last_progress(json::items_view(queue@)) == at,
            None => last_progress(json::items_view(queue@)) == -1,
        },
{
    let ghost all = json::items_view(queue@);
    proof {
        lemma_last_progress(all);
    }
    let mut i: usize = queue.len();
    while i > 0
        invariant
            i <= queue@.len(),
            all == json::items_view(queue@),
            -1 <= last_progress(all) < i,
            last_progress(all) >= 0 ==> is_progress(all[last_progress(all)]),
            forall|j: int| last_progress(all) < j < all.len() ==> !is_progress(#[trigger] all[j]),
        decreases i,
    {
        i = i - 1;
        if machine_event_is_progress(&queue[i]) {
            assert(is_progress(all[i as int]));
            return Some(i);
        }
        assert(!is_progress(all[i as int]));
    }
    None
}

fn find_first_transient(queue: &VecDeque<JsonValue>) -> (found: Option<usize>)
    ensures
        match found {
            Some(at) => at < queue@.len() && first_transient(json::items_view(queue@)) == at,
            None => first_transient(json::items_view(queue@)) == queue@.len(),
        },
{
    let ghost all = json::items_view(queue@);
    let mut i: usize = 0;
    while i < queue.len()
        invariant
            i <= queue@.len(),
            all == json::items_view(queue@),
            forall|j: int| 0 <= j < i ==> is_terminal(#[trigger] all[j]),
        decreases queue@.len() - i,
    {
        if !machine_event_is_terminal(&queue[i]) {
            proof {
                lemma_first_transient(all, i as int);
            }
            return Some(i);
        }
        i = i + 1;
    }
    proof {
        lemma_first_transient(all, i as int);
    }
    None
}

fn push_event(queue: &mut VecDeque<JsonValue>, event: JsonValue)
    ensures
        json::items_view(final(queue)@) == json::items_view(old(queue)@).push(event@),
{
    let ghost before = json::items_view(queue@);
    queue.push_back(event);
    assert(json::items_view(queue@) =~= before.push(event@));
}

fn remove_event(queue: &mut VecDeque<JsonValue>, at: usize)
    requires
        at < old(queue)@.len(),
    ensures
        json::items_view(final(queue)@) == json::items_view(old(queue)@).remove(at as int),
{
    let ghost before = json::items_view(queue@);
    let _ = queue.remove(at);
    assert(json::items_view(queue@) =~= before.remove(at as int));
}

fn replace_event(queue: &mut VecDeque<JsonValue>, at: usize, event: JsonValue)
    requires
        at < old(queue)@.len(),
    ensures
        json::items_view(final(queue)@) == json::items_view(old(queue)@).update(
            at as int,
            event@,
        ),
{
    let ghost before = json::items_view(queue@);
    let _ = queue.remove(at);
    queue.insert(at, event);
    assert(json::items_view(queue@) =~= before.update(at as int, event@));
}

fn count(value: u64) -> (next: u64)
    ensures
        next == counted(value),
{
    if value == u64::MAX {
        value
    } else {
        value + 1
    }
}

impl MachineEventState {
    /// An open queue with nothing in it.
    pub fn new() -> (state: MachineEventState)
        ensures
            state@ == (EventsView {
                queue: Seq::empty(),
                closed: false,
                dropped_progress: 0,
                dropped_critical: 0,
            }),
            bounded(state@),
    {
        let state = MachineEventState {
            queue: VecDeque::new(),
            closed: false,
            dropped_progress: 0,
            dropped_critical: 0,
        };
        assert(state@.queue =~= Seq::<json::JsonView>::empty());
        state
    }

    fn send_progress(&mut self, event: JsonValue) -> (wake: bool)
        ensures
            (final(self)@, wake) == sent_progress(old(self)@, event@),
    {
        let limit: usize = MACHINE_EVENT_CAPACITY - MACHINE_CRITICAL_RESERVE;
        if self.queue.len() < limit {
            push_event(&mut self.queue, event);
            return true;
        }
        match find_last_progress(&self.queue) {
            Some(at) => {
                replace_event(&mut self.queue, at, event);
            },
            None => {
                self.dropped_progress = count(self.dropped_progress);
            },
        }
        false
    }

    fn send_critical(&mut self, event: JsonValue)
        ensures
            final(self)@ == sent_critical(old(self)@, event@),
    {
        if self.queue.len() >= MACHINE_EVENT_CAPACITY {
            match find_first_progress(&self.queue) {
                Some(at) => {
                    remove_event(&mut self.queue, at);
                    self.dropped_progress = count(self.dropped_progress);
                },
                None => {
                    let terminal = machine_event_is_terminal(&event);
                    if terminal {
                        match find_first_transient(&self.queue) {
                            Some(at) => {
                                remove_event(&mut self.queue, at);
                            },
                            None => {
                                remove_event(&mut self.queue, 0);
                            },
                        }
                    }
                    self.dropped_critical = count(self.dropped_critical);
                    if !terminal {
                        return ;
                    }
                },
            }
        }
        push_event(&mut self.queue, event);
    }

    /// Takes an event of the child; whether the receiver is to be woken.
    pub fn send(&mut self, event: JsonValue) -> (wake: bool)
        requires
            bounded(old(self)@),
        ensures
            (final(self)@, wake) == sent(old(self)@, event@),
            bounded(final(self)@),
    {
        proof {
            law_queue_is_bounded(self@, event@);
        }
        if self.closed {
            return false;
        }
        if machine_event_is_progress(&event) {
            self.send_progress(event)
        } else {
            self.send_critical(event);
            true
        }
    }

    /// Closes the queue: what it holds can still be received.
    pub fn close(&mut self)
        ensures
            final(self)@ == (EventsView { closed: true, ..old(self)@ }),
    {
        self.closed = true;
    }

    /// Receives what comes next for a child that runs for `profile`.
    pub fn receive(&mut self, profile: Option<TunnelProfileId>) -> (event: Received)
        ensures
            (final(self)@, event@) == received(old(self)@, profile),
            bounded(old(self)@) ==> bounded(final(self)@),
    {
        if self.dropped_critical > 0 {
            let dropped = self.dropped_critical;
            self.dropped_critical = 0;
            return Received::Event(overflow(dropped));
        }
        let ghost before = self@.queue;
        match self.queue.pop_front() {
            Some(event) => {
                assert(self@.queue =~= before.drop_first());
                Received::Event(attribute(event, profile))
            },
            None => if self.closed {
                Received::Closed
            } else {
                Received::Pending
            },
        }
    }
}

fn overflow(dropped: u64) -> (event: JsonValue)
    ensures
        event@ == overflow_event(dropped),
{
    let mut fields: Vec<(String, JsonValue)> = Vec::new();
    add_field(&mut fields, "event", text_value("machine_event_overflow"));
    add_field(&mut fields, "dropped_critical", number_value(dropped));
    proof {
        json::lemma_object_view(fields);
        assert(json::fields_view(fields@) =~= overflow_event(dropped)->Object_0);
    }
    JsonValue::Object(fields)
}

fn attribute(event: JsonValue, profile: Option<TunnelProfileId>) -> (result: JsonValue)
    ensures
        result@ == attributed(event@, profile),
{
    match (event, profile) {
        (JsonValue::Object(fields), Some(id)) => {
            proof {
                json::lemma_object_view(fields);
            }
            let updated = set_field(fields, "tunnel_profile_id", number_value(id.value));
            proof {
                json::lemma_object_view(updated);
            }
            JsonValue::Object(updated)
        },
        (event, _) => event,
    }
}

// ---- Laws -------------------------------------------------------------------------

/// However many events are sent, the queue stays within its bound, and progress
/// alone never fills the places kept for other events.
pub proof fn law_queue_is_bounded(state: EventsView, event: json::JsonView)
    requires
        bounded(state),
    ensures
        bounded(sent(state, event).0),
        is_progress(event) ==> sent(state, event).0.queue.len() <= if state.queue.len()
            < MACHINE_EVENT_CAPACITY - MACHINE_CRITICAL_RESERVE {
            MACHINE_EVENT_CAPACITY - MACHINE_CRITICAL_RESERVE
        } else {
            state.queue.len() as int
        },
{
    lemma_last_progress(state.queue);
    lemma_transient_within(state.queue);
}

proof fn lemma_transient_within(queue: Seq<json::JsonView>)
    ensures
        first_transient(queue) <= queue.len(),
        first_progress(queue) <= queue.len(),
        first_progress(queue) < queue.len() ==> is_progress(queue[first_progress(queue) as int]),
        first_progress(queue) == queue.len() ==> forall|i: int|
            0 <= i < queue.len() ==> !is_progress(#[trigger] queue[i]),
    decreases queue.len(),
{
    if queue.len() > 0 {
        let rest = queue.drop_first();
        lemma_transient_within(rest);
        if !is_progress(queue[0]) {
            if first_progress(queue) < queue.len() {
                assert(rest[first_progress(rest) as int] == queue[first_progress(queue) as int]);
            } else {
                assert forall|i: int| 0 <= i < queue.len() implies !is_progress(
                    #[trigger] queue[i],
                ) by {
                    if i > 0 {
                        assert(rest[i - 1] == queue[i]);
                    }
                }
            }
        }
    }
}

/// A terminal event that an open queue is sent is the newest event of the queue.
pub proof fn law_terminal_event_is_retained(state: EventsView, event: json::JsonView)
    requires
        bounded(state),
        !state.closed,
        is_terminal(event),
    ensures
        sent(state, event).0.queue.len() > 0,
        sent(state, event).0.queue.last() == event,
        sent(state, event).1,
{
    lemma_terminal_is_no_progress(event);
    lemma_transient_within(state.queue);
}

proof fn lemma_terminal_is_no_progress(event: json::JsonView)
    requires
        is_terminal(event),
    ensures
        !is_progress(event),
{
    reveal_strlit("progress");
    reveal_strlit("ready");
    reveal_strlit("error");
    reveal_strlit("failed");
    reveal_strlit("stopped");
    reveal_strlit("exit");
    reveal_strlit("exited");
    reveal_strlit("terminal");
    assert("progress"@.len() == 8 && "progress"@[0] == 'p');
    assert("terminal"@[0] == 't');
}

/// How many events of a queue do not tell of progress.
pub open spec fn critical_count(queue: Seq<json::JsonView>) -> nat
    decreases queue.len(),
{
    if queue.len() == 0 {
        0
    } else {
        critical_count(queue.drop_last()) + if is_progress(queue.last()) {
            0nat
        } else {
            1nat
        }
    }
}

proof fn lemma_count_split(a: Seq<json::JsonView>, b: Seq<json::JsonView>)
    ensures
        critical_count(a + b) == critical_count(a) + critical_count(b),
    decreases b.len(),
{
    if b.len() == 0 {
        assert(a + b =~= a);
    } else {
        assert((a + b).drop_last() =~= a + b.drop_last());
        lemma_count_split(a, b.drop_last());
    }
}

proof fn lemma_count_one(event: json::JsonView)
    ensures
        critical_count(seq![event]) == if is_progress(event) {
            0nat
        } else {
            1nat
        },
{
    assert(seq![event].drop_last() =~= Seq::<json::JsonView>::empty());
    assert(critical_count(seq![event].drop_last()) == 0);
    assert(seq![event].last() == event);
}

proof fn lemma_count_at(queue: Seq<json::JsonView>, at: int, event: json::JsonView)
    requires
        0 <= at < queue.len(),
    ensures
        critical_count(queue.remove(at)) == critical_count(queue) - if is_progress(queue[at]) {
            0int
        } else {
            1int
        },
        critical_count(queue.update(at, event)) == critical_count(queue.remove(at))
            + if is_progress(event) {
            0int
        } else {
            1int
        },
{
    let before = queue.take(at);
    let after = queue.skip(at + 1);
    assert(queue =~= before + (seq![queue[at]] + after));
    assert(queue.remove(at) =~= before + after);
    assert(queue.update(at, event) =~= before + (seq![event] + after));
    lemma_count_split(before, after);
    lemma_count_split(before, seq![queue[at]] + after);
    lemma_count_split(seq![queue[at]], after);
    lemma_count_split(before, seq![event] + after);
    lemma_count_split(seq![event], after);
    lemma_count_one(queue[at]);
    lemma_count_one(event);
}

proof fn lemma_count_push(queue: Seq<json::JsonView>, event: json::JsonView)
    ensures
        critical_count(queue.push(event)) == critical_count(queue) + if is_progress(event) {
            0nat
        } else {
            1nat
        },
{
    assert(queue.push(event).drop_last() =~= queue);
}

/// The loss of an event other than progress is never silent: every such event
/// that an open queue is sent is held by the queue or counted as lost. Progress
/// displaces no such event.
pub proof fn law_critical_loss_is_counted(state: EventsView, event: json::JsonView)
    requires
        bounded(state),
        !state.closed,
        state.dropped_critical < u64::MAX,
    ensures
        critical_count(sent(state, event).0.queue) + sent(state, event).0.dropped_critical
            == critical_count(state.queue) + state.dropped_critical + if is_progress(event) {
            0int
        } else {
            1int
        },
{
    let queue = state.queue;
    let after = sent(state, event).0;
    lemma_last_progress(queue);
    lemma_transient_within(queue);
    lemma_count_push(queue, event);
    if is_progress(event) {
        let at = last_progress(queue);
        if at >= 0 {
            lemma_count_at(queue, at, event);
        }
    } else if queue.len() >= MACHINE_EVENT_CAPACITY {
        let progress = first_progress(queue);
        if progress < queue.len() {
            lemma_count_at(queue, progress as int, event);
            lemma_count_push(queue.remove(progress as int), event);
        } else if is_terminal(event) {
            let transient = first_transient(queue);
            let at = if transient < queue.len() {
                transient as int
            } else {
                0int
            };
            assert(!is_progress(queue[at]));
            lemma_count_at(queue, at, event);
            lemma_count_push(queue.remove(at), event);
        }
    }
}

/// Once events were lost, the next receipt reports how many, before any event.
pub proof fn law_loss_is_reported_first(state: EventsView, profile: Option<TunnelProfileId>)
    requires
        state.dropped_critical > 0,
    ensures
        received(state, profile).1 == ReceivedView::Event(overflow_event(state.dropped_critical)),
        received(state, profile).0.dropped_critical == 0,
        received(state, profile).0.queue == state.queue,
{
}

/// The profile of an event that is received is the one that its child runs for,
/// whatever the child wrote.
pub proof fn law_child_cannot_choose_its_profile(
    fields: Seq<(Seq<char>, json::JsonView)>,
    id: TunnelProfileId,
)
    ensures
        attributed(json::JsonView::Object(fields), Some(id)).get("tunnel_profile_id"@) == Some(
            json::number(id.value),
        ),
{
    json::lemma_with_field_lookup(
        fields,
        "tunnel_profile_id"@,
        json::number(id.value),
        "tunnel_profile_id"@,
    );
}

/// What tells of lost events says so, and how many.
pub proof fn law_overflow_says_how_many_were_lost(dropped: u64)
    ensures
        overflow_event(dropped) is Object,
        (overflow_event(dropped)->Object_0).len() == 2,
        overflow_event(dropped).get("event"@) == Some(json::JsonView::Text("machine_event_overflow"@)),
        overflow_event(dropped).get("dropped_critical"@) == Some(json::number(dropped)),
{
    reveal_strlit("event");
    reveal_strlit("dropped_critical");
    assert("event"@.len() == 5);
    assert("dropped_critical"@.len() == 16);
    let fields = overflow_event(dropped)->Object_0;
    json::law_field_is_found(fields, 0);
    json::law_field_is_found(fields, 1);
}

/// Which events tell of progress, and which of the end of something: each is told
/// by its name alone.
pub proof fn law_events_are_told_by_their_name(event: json::JsonView, name: Seq<char>)
    requires
        event.get("event"@) == Some(json::JsonView::Text(name)),
    ensures
        is_progress(event) <==> name == "progress"@,
        is_terminal(event) <==> name == "ready"@
            || name == "error"@
            || name == "failed"@
            || name == "stopped"@
            || name == "exit"@
            || name == "exited"@
            || name == "terminal"@,
{
}

/// An event without a name tells neither of progress nor of an end.
pub proof fn law_nameless_event_is_neither(event: json::JsonView)
    requires
        event.get("event"@) is None,
    ensures
        !is_progress(event) && !is_terminal(event),
{
}

/// While there is room, events queue up in the order in which they are sent, and
/// whoever waits is woken; of the room, the last eight places are not for progress.
pub proof fn law_events_queue_up_in_order(state: EventsView, event: json::JsonView)
    requires
        !state.closed,
        state.queue.len() < 56 || (!is_progress(event) && state.queue.len() < 64),
    ensures
        sent(state, event).0.queue == state.queue.push(event),
        sent(state, event).0.dropped_progress == state.dropped_progress,
        sent(state, event).0.dropped_critical == state.dropped_critical,
        !sent(state, event).0.closed,
        sent(state, event).1,
{
}

/// Where there is no room for more progress, the newest progress takes the place of
/// the one before it, and nothing else in the queue changes; where there is none, it
/// is lost, and counted.
pub proof fn law_newest_progress_replaces_the_last(state: EventsView, event: json::JsonView, at: int)
    requires
        !state.closed,
        is_progress(event),
        state.queue.len() >= 56,
        -1 <= at < state.queue.len(),
        at >= 0 ==> is_progress(state.queue[at]),
        forall|i: int| at < i < state.queue.len() ==> !is_progress(#[trigger] state.queue[i]),
    ensures
        !sent(state, event).1,
        at >= 0 ==> sent(state, event).0.queue == state.queue.update(at, event) && sent(
            state,
            event,
        ).0.dropped_progress == state.dropped_progress,
        at == -1 ==> sent(state, event).0.queue == state.queue && (state.dropped_progress < u64::MAX
            ==> sent(state, event).0.dropped_progress == state.dropped_progress + 1),
        sent(state, event).0.dropped_critical == state.dropped_critical,
{
    lemma_last_progress(state.queue);
    let found = last_progress(state.queue);
    if found > at {
        assert(!is_progress(state.queue[found]));
    } else if found < at {
        assert(!is_progress(state.queue[at]));
    }
}

/// Where the queue is full, an event that does not tell of progress takes the room
/// of the oldest progress, which is lost and counted.
pub proof fn law_progress_makes_room(state: EventsView, event: json::JsonView, at: int)
    requires
        !state.closed,
        !is_progress(event),
        state.queue.len() == 64,
        0 <= at < state.queue.len(),
        is_progress(state.queue[at]),
        forall|i: int| 0 <= i < at ==> !is_progress(#[trigger] state.queue[i]),
    ensures
        sent(state, event).0.queue == state.queue.remove(at).push(event),
        state.dropped_progress < u64::MAX ==> sent(state, event).0.dropped_progress
            == state.dropped_progress + 1,
        sent(state, event).0.dropped_critical == state.dropped_critical,
        sent(state, event).1,
{
    lemma_first_progress(state.queue, at);
}

/// Where the queue is full and holds no progress, an event that tells of an end
/// takes the room of the oldest event that does not, or of the oldest where all do;
/// any other event is lost. Either loss is counted.
pub proof fn law_ends_make_room_for_themselves(state: EventsView, event: json::JsonView, at: int)
    requires
        !state.closed,
        !is_progress(event),
        state.queue.len() == 64,
        state.dropped_critical < u64::MAX,
        forall|i: int| 0 <= i < state.queue.len() ==> !is_progress(#[trigger] state.queue[i]),
        0 <= at <= state.queue.len(),
        forall|i: int| 0 <= i < at ==> is_terminal(#[trigger] state.queue[i]),
        at < state.queue.len() ==> !is_terminal(state.queue[at]),
    ensures
        sent(state, event).0.dropped_critical == state.dropped_critical + 1,
        sent(state, event).0.dropped_progress == state.dropped_progress,
        !is_terminal(event) ==> sent(state, event).0.queue == state.queue,
        is_terminal(event) && at < state.queue.len() ==> sent(state, event).0.queue
            == state.queue.remove(at).push(event),
        is_terminal(event) && at == state.queue.len() ==> sent(state, event).0.queue
            == state.queue.remove(0).push(event),
{
    lemma_first_progress(state.queue, state.queue.len() as int);
    lemma_first_transient(state.queue, at);
}

/// A queue that is closed takes nothing more.
pub proof fn law_closed_queue_takes_nothing(state: EventsView, event: json::JsonView)
    requires
        state.closed,
    ensures
        sent(state, event) == (state, false),
{
}

/// Events come out in the order in which they were queued, the oldest first, each
/// once; with none left the receiver waits, and with none left of a closed queue it
/// is told so.
pub proof fn law_events_come_out_in_order(state: EventsView, profile: Option<TunnelProfileId>)
    requires
        state.dropped_critical == 0,
    ensures
        state.queue.len() > 0 ==> {
            &&& received(state, profile).0.queue == state.queue.skip(1)
            &&& received(state, profile).1 matches ReceivedView::Event(event) && (profile is None
                ==> event == state.queue[0])
        },
        state.queue.len() == 0 && state.closed ==> received(state, profile) == (
            state,
            ReceivedView::Closed,
        ),
        state.queue.len() == 0 && !state.closed ==> received(state, profile) == (
            state,
            ReceivedView::Pending,
        ),
        received(state, profile).0.closed == state.closed,
{
    if state.queue.len() > 0 {
        assert(state.queue.drop_first() =~= state.queue.skip(1));
    }
}

/// Of an event only its profile is set on the way: all else comes out as the child
/// wrote it, and what is no object comes out as it is.
pub proof fn law_event_keeps_the_rest(
    event: json::JsonView,
    profile: Option<TunnelProfileId>,
    key: Seq<char>,
)
    requires
        key != "tunnel_profile_id"@,
    ensures
        attributed(event, profile).get(key) == event.get(key),
        profile is None || !(event is Object) ==> attributed(event, profile) == event,
{
    if let json::JsonView::Object(fields) = event {
        if let Some(id) = profile {
            json::lemma_with_field_lookup(
                fields,
                "tunnel_profile_id"@,
                json::number(id.value),
                key,
            );
        }
    }
}

} // verus!
