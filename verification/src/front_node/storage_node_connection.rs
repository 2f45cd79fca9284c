//! The bookkeeping of one link to a storage node.
//!
//! Many requests share one connection. Each gets an identifier, and the
//! response that carries the same identifier is handed to the caller that
//! waits under it. This module keeps the table of waiting callers and hands
//! out the identifiers; the socket, and whatever a caller waits on, belong to
//! the code that drives it.

use std::collections::HashMap;
use vstd::prelude::*;
use crate::message::MessageID;

verus! {

broadcast use vstd::std_specs::hash::group_hash_axioms;

/// A request got no response: the link is dead, or no identifier is free.
/// The caller gives the link up.
#[derive(Debug, Clone, Copy, PartialEq, Eq, Structural)]
pub enum ConnectionError {
    ClientDisconnected,
}

/// Whether `x` lies after `from` and before `to` on the circle of 32-bit
/// identifiers, walking upwards from `from` and wrapping after the largest.
/// With `to == from` the walk goes once around: every other identifier lies
/// between.
pub open spec fn strictly_between(from: u32, x: u32, to: u32) -> bool {
    if from < to {
        from < x < to
    } else if from > to {
        x > from || x < to
    } else {
        x != from
    }
}

/// How many steps upwards, wrapping, lead from `from` to `to`.
pub open spec fn steps_to(from: u32, to: u32) -> int {
    if from <= to {
        to - from
    } else {
        to - from + 0x1_0000_0000
    }
}

/// The state of a link as contracts see it.
pub struct LinkView<W> {
    /// The identifier that the next request gets.
    pub next_message_id: u32,
    /// Who waits under which identifier.
    pub waiting: Map<u32, W>,
    /// Set once the link has failed; never cleared.
    pub is_disconnected: bool,
}

impl<W> LinkView<W> {
    /// A link that has sent nothing yet.
    pub open spec fn fresh() -> Self {
        LinkView { next_message_id: 0, waiting: Map::empty(), is_disconnected: false }
    }

    /// What every link state satisfies: the identifier that comes next is not
    /// waited under, and nobody waits on a dead link.
    pub open spec fn well_formed(self) -> bool {
        &&& !self.waiting.contains_key(self.next_message_id)
        &&& self.is_disconnected ==> self.waiting == Map::<u32, W>::empty()
    }

    /// Whether every identifier but the next one is waited under.
    pub open spec fn exhausted(self) -> bool {
        forall|x: u32| x != self.next_message_id ==> self.waiting.contains_key(x)
    }

    /// A request begins: `waiter` is installed under `id`, the identifier that
    /// was next, and the counter moves on to the nearest identifier that
    /// nobody waits under, skipping those still waited under.
    pub open spec fn begins(self, waiter: W, id: MessageID, after: Self) -> bool {
        &&& !self.is_disconnected
        &&& !after.is_disconnected
        &&& id.0 == self.next_message_id
        &&& after.waiting == self.waiting.insert(id.0, waiter)
        &&& after.next_message_id != id.0
        &&& !self.waiting.contains_key(after.next_message_id)
        &&& forall|x: u32|
            strictly_between(id.0, x, after.next_message_id) ==> self.waiting.contains_key(x)
    }

    /// A response arrives: whoever waits under `id` is taken out and handed
    /// over; nobody else is touched.
    pub open spec fn completes(self, id: MessageID, waiter: Option<W>, after: Self) -> bool {
        &&& after.next_message_id == self.next_message_id
        &&& after.is_disconnected == self.is_disconnected
        &&& after.waiting == self.waiting.remove(id.0)
        &&& waiter == if self.waiting.contains_key(id.0) {
            Some(self.waiting[id.0])
        } else {
            None
        }
    }

    /// The link dies: everybody who waits is dropped, and the link stays dead.
    pub open spec fn disconnects(self, after: Self) -> bool {
        &&& after.next_message_id == self.next_message_id
        &&& after.is_disconnected
        &&& after.waiting == Map::<u32, W>::empty()
    }
}

/// The identifier that the counter moves to from `id`: the nearest one
/// upwards, wrapping after the largest, that nobody waits under. Every
/// identifier that is passed over is waited under. Nothing where every
/// identifier but `id` is waited under.
pub fn next_free_id<W>(waiting: &HashMap<u32, W>, id: MessageID) -> (next: Option<MessageID>)
    ensures
        match next {
            Some(next) => {
                &&& next != id
                &&& !waiting@.contains_key(next.0)
                &&& forall|x: u32| strictly_between(id.0, x, next.0) ==> waiting@.contains_key(x)
            },
            None => forall|x: u32| x != id.0 ==> waiting@.contains_key(x),
        },
{
    let id = id.0;
    let mut candidate = id.wrapping_add(1);
    while candidate != id && waiting.contains_key(&candidate)
        invariant
            forall|x: u32|
                candidate != id && strictly_between(id, x, candidate) ==> waiting@.contains_key(x),
            candidate == id ==> forall|x: u32| x != id ==> waiting@.contains_key(x),
        decreases steps_to(candidate, id),
    {
        let ghost before = candidate;
        candidate = candidate.wrapping_add(1);
        assert forall|x: u32|
            candidate != id && strictly_between(id, x, candidate) implies waiting@.contains_key(
            x,
        ) by {
            if x != before {
                assert(strictly_between(id, x, before));
            }
        }
        assert(candidate == id ==> forall|x: u32| x != id ==> waiting@.contains_key(x)) by {
            if candidate == id {
                assert forall|x: u32| x != id implies waiting@.contains_key(x) by {
                    if x != before {
                        assert(strictly_between(id, x, before));
                    }
                }
            }
        }
    }
    if candidate == id {
        None
    } else {
        Some(MessageID(candidate))
    }
}

/// The state of one link: the identifier counter, the callers that wait for
/// a response, and whether the link has died. `W` is whatever a caller waits
/// on.
pub struct LinkState<W> {
    next_message_id: MessageID,
    waiting_responses: HashMap<u32, W>,
    is_disconnected: bool,
}

impl<W> View for LinkState<W> {
    type V = LinkView<W>;

    closed spec fn view(&self) -> LinkView<W> {
        LinkView {
            next_message_id: self.next_message_id.0,
            waiting: self.waiting_responses@,
            is_disconnected: self.is_disconnected,
        }
    }
}

impl<W> LinkState<W> {
    /// The state of a link that was just opened.
    pub fn new() -> (link: Self)
        ensures
            link@ == LinkView::<W>::fresh(),
            link@.well_formed(),
    {
        LinkState {
            next_message_id: MessageID(0),
            waiting_responses: HashMap::new(),
            is_disconnected: false,
        }
    }

    /// The state of a link that was just opened and whose first request gets
    /// the identifier `next`.
    pub fn starting_at(next: MessageID) -> (link: Self)
        ensures
            link@ == (LinkView::<W> { next_message_id: next.0, ..LinkView::<W>::fresh() }),
            link@.well_formed(),
    {
        LinkState { next_message_id: next, waiting_responses: HashMap::new(), is_disconnected: false }
    }

    /// The identifier that the next request gets.
    pub fn next_message_id(&self) -> (next: MessageID)
        ensures
            next.0 == self@.next_message_id,
    {
        self.next_message_id
    }

    /// Whether the link has died.
    pub fn is_disconnected(&self) -> (dead: bool)
        ensures
            dead == self@.is_disconnected,
    {
        self.is_disconnected
    }

    /// How many callers wait for a response.
    pub fn pending(&self) -> (count: usize)
        ensures
            count == self@.waiting.len(),
    {
        self.waiting_responses.len()
    }

    /// Whether somebody waits under `id`.
    pub fn is_pending(&self, id: MessageID) -> (waits: bool)
        ensures
            waits == self@.waiting.contains_key(id.0),
    {
        self.waiting_responses.contains_key(&id.0)
    }

    /// Begins a request: installs `waiter` under the next identifier and
    /// returns it, for the caller to send its message under. Fails, and leaves
    /// everything as it was, where the link is dead or every other identifier
    /// is still waited under.
    pub fn begin_request(&mut self, waiter: W) -> (id: Result<MessageID, ConnectionError>)
        requires
            old(self)@.well_formed(),
        ensures
            final(self)@.well_formed(),
            match id {
                Ok(id) => old(self)@.begins(waiter, id, final(self)@),
                Err(_) => final(self)@ == old(self)@,
            },
            id is Err <==> old(self)@.is_disconnected || old(self)@.exhausted(),
    {
        if self.is_disconnected {
            return Err(ConnectionError::ClientDisconnected);
        }
        let id = self.next_message_id;
        let candidate = match next_free_id(&self.waiting_responses, id) {
            Some(next) => next,
            None => {
                assert(self@.exhausted());
                return Err(ConnectionError::ClientDisconnected);
            },
        };
        assert(!self@.exhausted());
        self.next_message_id = candidate;
        self.waiting_responses.insert(id.0, waiter);
        Ok(id)
    }

    /// Takes out whoever waits under `id`, for the response to be handed to.
    /// Returns nothing where nobody waits under it: the response is dropped.
    pub fn complete(&mut self, id: MessageID) -> (waiter: Option<W>)
        requires
            old(self)@.well_formed(),
        ensures
            final(self)@.well_formed(),
            old(self)@.completes(id, waiter, final(self)@),
    {
        let waiter = self.waiting_responses.remove(&id.0);
        assert(self.is_disconnected ==> self.waiting_responses@ =~= Map::<u32, W>::empty());
        waiter
    }

    /// Marks the link dead and drops everybody who waits.
    pub fn disconnect(&mut self)
        requires
            old(self)@.well_formed(),
        ensures
            final(self)@.well_formed(),
            old(self)@.disconnects(final(self)@),
    {
        self.is_disconnected = true;
        self.waiting_responses.clear();
    }
}


/// A request gets an identifier that nobody waits under, so it takes over
/// nobody's place: everybody who waited still waits, under the same
/// identifier, and the new caller waits under the new one.
pub proof fn lemma_request_gets_fresh_identifier<W>(
    before: LinkView<W>,
    waiter: W,
    id: MessageID,
    after: LinkView<W>,
)
    requires
        before.well_formed(),
        before.begins(waiter, id, after),
    ensures
        after.well_formed(),
        !before.waiting.contains_key(id.0),
        after.waiting.contains_key(id.0) && after.waiting[id.0] == waiter,
        forall|other: u32| #[trigger]
            before.waiting.contains_key(other) ==> after.waiting.contains_key(other)
                && after.waiting[other] == before.waiting[other],
{
}

/// A response goes to the caller that waits under its identifier and to
/// nobody else: that caller is handed over and waits no longer, so a second
/// response under the same identifier finds nobody; all others stay where
/// they are.
pub proof fn lemma_response_reaches_its_caller<W>(
    before: LinkView<W>,
    id: MessageID,
    handed: Option<W>,
    after: LinkView<W>,
)
    requires
        before.well_formed(),
        before.completes(id, handed, after),
    ensures
        after.well_formed(),
        before.waiting.contains_key(id.0) ==> handed == Some(before.waiting[id.0]),
        !before.waiting.contains_key(id.0) ==> handed is None && after.waiting == before.waiting,
        !after.waiting.contains_key(id.0),
        forall|other: u32|
            other != id.0 && #[trigger] before.waiting.contains_key(other)
                ==> after.waiting.contains_key(other) && after.waiting[other]
                == before.waiting[other],
{
    if !before.waiting.contains_key(id.0) {
        assert(after.waiting =~= before.waiting);
    }
    if before.is_disconnected {
        assert(after.waiting =~= Map::<u32, W>::empty());
    }
}

/// Two requests that both still wait never share an identifier, and each is
/// answered by the response that carries its own.
pub proof fn lemma_responses_are_not_crossed<W>(
    start: LinkView<W>,
    first: W,
    first_id: MessageID,
    between: LinkView<W>,
    second: W,
    second_id: MessageID,
    both: LinkView<W>,
    handed: Option<W>,
    after: LinkView<W>,
)
    requires
        start.well_formed(),
        start.begins(first, first_id, between),
        between.begins(second, second_id, both),
        both.completes(second_id, handed, after),
    ensures
        first_id != second_id,
        handed == Some(second),
        after.waiting.contains_key(first_id.0) && after.waiting[first_id.0] == first,
{
}

/// A dead link stays dead: no request begins on it, and nobody waits.
pub proof fn lemma_disconnect_is_final<W>(before: LinkView<W>, after: LinkView<W>)
    requires
        before.disconnects(after),
    ensures
        after.well_formed(),
        after.is_disconnected,
        forall|waiter: W, id: MessageID, later: LinkView<W>| !after.begins(waiter, id, later),
        forall|id: MessageID, handed: Option<W>, later: LinkView<W>| #[trigger]
            after.completes(id, handed, later) ==> handed is None && later.is_disconnected,
{
}

/// The counter moves on by one where the identifier that follows is free, and
/// wraps from the largest identifier to zero.
pub proof fn lemma_counter_steps_and_wraps<W>(
    before: LinkView<W>,
    waiter: W,
    id: MessageID,
    after: LinkView<W>,
)
    requires
        before.begins(waiter, id, after),
        !before.waiting.contains_key(
            if id.0 == u32::MAX {
                0u32
            } else {
                (id.0 + 1) as u32
            },
        ),
    ensures
        id.0 < u32::MAX ==> after.next_message_id == id.0 + 1,
        id.0 == u32::MAX ==> after.next_message_id == 0,
{
    let follower = if id.0 == u32::MAX {
        0u32
    } else {
        (id.0 + 1) as u32
    };
    if after.next_message_id != follower {
        assert(strictly_between(id.0, follower, after.next_message_id));
    }
}

/// The counter never comes to rest on an identifier that is still waited
/// under: the one it moves to is free, and every identifier it passed over
/// is waited under.
pub proof fn lemma_counter_skips_waiting<W>(
    before: LinkView<W>,
    waiter: W,
    id: MessageID,
    after: LinkView<W>,
    skipped: u32,
)
    requires
        before.well_formed(),
        before.begins(waiter, id, after),
        strictly_between(id.0, skipped, after.next_message_id),
    ensures
        before.waiting.contains_key(skipped),
        after.waiting.contains_key(skipped),
        !after.waiting.contains_key(after.next_message_id),
{
}


/// What happens on a link.
pub enum LinkEvent<W> {
    /// A caller begins a request and waits.
    Request(W),
    /// A response arrives under an identifier.
    Response(MessageID),
    /// The link dies.
    Death,
}

impl<W> LinkView<W> {
    /// Whether a request can begin.
    pub open spec fn accepts(self) -> bool {
        !self.is_disconnected && !self.exhausted()
    }

    /// Whether `next` is where the counter moves to when a request begins.
    pub open spec fn is_free_after(self, next: u32) -> bool {
        &&& next != self.next_message_id
        &&& !self.waiting.contains_key(next)
        &&& forall|x: u32|
            strictly_between(self.next_message_id, x, next) ==> self.waiting.contains_key(x)
    }

    /// The link after one event. A request that cannot begin changes
    /// nothing.
    pub open spec fn after(self, event: LinkEvent<W>) -> LinkView<W> {
        match event {
            LinkEvent::Request(waiter) => if self.accepts() {
                LinkView {
                    next_message_id: choose|next: u32| self.is_free_after(next),
                    waiting: self.waiting.insert(self.next_message_id, waiter),
                    is_disconnected: false,
                }
            } else {
                self
            },
            LinkEvent::Response(id) => LinkView { waiting: self.waiting.remove(id.0), ..self },
            LinkEvent::Death => LinkView {
                waiting: Map::empty(),
                is_disconnected: true,
                ..self
            },
        }
    }

    /// The link after the first `count` of a row of events.
    pub open spec fn after_first(self, events: Seq<LinkEvent<W>>, count: nat) -> LinkView<W>
        decreases count,
    {
        if count == 0 {
            self
        } else {
            self.after_first(events, (count - 1) as nat).after(events[count - 1])
        }
    }

    /// Which request waits under `id` after the first `count` events, by its
    /// place in the row: the latest one that was given `id` and has since
    /// neither been answered nor been dropped by the death of the link.
    /// Nothing where there is no such request.
    pub open spec fn waits_under(self, events: Seq<LinkEvent<W>>, count: nat, id: u32) -> Option<
        int,
    >
        decreases count,
    {
        if count == 0 {
            None
        } else {
            let before = self.after_first(events, (count - 1) as nat);
            let earlier = self.waits_under(events, (count - 1) as nat, id);
            match events[count - 1] {
                LinkEvent::Request(_) => if before.accepts() && before.next_message_id == id {
                    Some(count - 1)
                } else {
                    earlier
                },
                LinkEvent::Response(answered) => if answered.0 == id {
                    None
                } else {
                    earlier
                },
                LinkEvent::Death => None,
            }
        }
    }
}

/// Where the counter moves to is determined: two identifiers that both are
/// the nearest free one are the same.
pub proof fn lemma_counter_is_determined<W>(link: LinkView<W>, one: u32, other: u32)
    requires
        link.is_free_after(one),
        link.is_free_after(other),
    ensures
        one == other,
{
    if one != other {
        if strictly_between(link.next_message_id, one, other) {
            assert(link.waiting.contains_key(one));
        } else {
            assert(strictly_between(link.next_message_id, other, one));
            assert(link.waiting.contains_key(other));
        }
    }
}

/// One event on the link is what `begin_request`, `complete` and
/// `disconnect` do.
pub proof fn lemma_events_are_the_operations<W>(
    before: LinkView<W>,
    waiter: W,
    id: MessageID,
    handed: Option<W>,
    after: LinkView<W>,
)
    requires
        before.well_formed(),
    ensures
        before.begins(waiter, id, after) ==> before.accepts() && after == before.after(
            LinkEvent::Request(waiter),
        ),
        before.completes(id, handed, after) ==> after == before.after(LinkEvent::Response(id)),
        before.disconnects(after) ==> after == before.after(LinkEvent::Death),
{
    if before.begins(waiter, id, after) {
        assert(before.is_free_after(after.next_message_id));
        let chosen = choose|next: u32| before.is_free_after(next);
        lemma_counter_is_determined(before, chosen, after.next_message_id);
    }
}

/// Every event keeps the link well formed.
pub proof fn lemma_events_keep_the_link_well_formed<W>(
    start: LinkView<W>,
    events: Seq<LinkEvent<W>>,
    count: nat,
)
    requires
        start.well_formed(),
        count <= events.len(),
    ensures
        start.after_first(events, count).well_formed(),
    decreases count,
{
    if count > 0 {
        lemma_events_keep_the_link_well_formed(start, events, (count - 1) as nat);
        let before = start.after_first(events, (count - 1) as nat);
        match events[count - 1] {
            LinkEvent::Request(waiter) => {
                if before.accepts() {
                    let witness = choose|x: u32|
                        x != before.next_message_id && !before.waiting.contains_key(x);
                    lemma_some_identifier_is_free(before, witness);
                }
            },
            LinkEvent::Response(id) => {
                assert(before.is_disconnected ==> before.waiting.remove(id.0) =~= Map::<
                    u32,
                    W,
                >::empty());
            },
            LinkEvent::Death => {},
        }
    }
}

/// Where some identifier other than the next one is free, the counter has
/// somewhere to move to: the nearest free identifier exists.
pub proof fn lemma_some_identifier_is_free<W>(link: LinkView<W>, free: u32)
    requires
        free != link.next_message_id,
        !link.waiting.contains_key(free),
    ensures
        exists|next: u32| link.is_free_after(next),
    decreases steps_to(link.next_message_id, free),
{
    if !link.is_free_after(free) {
        let nearer = choose|x: u32|
            strictly_between(link.next_message_id, x, free) && !link.waiting.contains_key(x);
        lemma_some_identifier_is_free(link, nearer);
    }
}

/// No response reaches a caller that it is not meant for. On a link that
/// starts with nobody waiting, after any row of events, whoever waits under
/// an identifier is the caller of the latest request that was given that
/// identifier and has not been answered or dropped since; and nobody waits
/// under an identifier that no such request was given. The response that
/// arrives under the identifier is handed to that caller.
pub proof fn lemma_responses_reach_their_callers<W>(
    events: Seq<LinkEvent<W>>,
    count: nat,
    id: u32,
)
    requires
        count <= events.len(),
    ensures
        ({
            let link = LinkView::<W>::fresh().after_first(events, count);
            match LinkView::<W>::fresh().waits_under(events, count, id) {
                Some(request) => 0 <= request < count && events[request] is Request
                    && link.waiting.contains_key(id) && link.waiting[id]
                    == events[request]->Request_0,
                None => !link.waiting.contains_key(id),
            }
        }),
    decreases count,
{
    if count > 0 {
        lemma_responses_reach_their_callers(events, (count - 1) as nat, id);
    }
}

} // verus!
