//! The dispatcher's decisions, apart from its threads and its channel:
//! numbering requests, framing them, and routing each parsed packet either
//! to the request that awaits it or to the notification queue.

use std::collections::HashMap;
use vstd::prelude::*;

use crate::error::RvrError;
use crate::protocol::framing::{buffer_bytes, encode_bytes, EOP, SOP};
use crate::protocol::packet::{frame_spec, Packet, PacketView};

verus! {

broadcast use vstd::std_specs::hash::group_hash_axioms;

/// The sequence number after `s`: one more, wrapping from 255 to 0.
pub open spec fn following(s: u8) -> u8 {
    if s == 255 {
        0
    } else {
        (s + 1) as u8
    }
}

/// Hands out sequence numbers 0, 1, ..., 255, 0, ...
pub struct SequenceCounter {
    next: u8,
}

impl View for SequenceCounter {
    type V = u8;

    /// The number the next call to `next` returns.
    closed spec fn view(&self) -> u8 {
        self.next
    }
}

impl SequenceCounter {
    /// A counter whose first number is 0.
    pub fn new() -> (r: Self)
        ensures
            r@ == 0,
    {
        SequenceCounter { next: 0 }
    }

    /// A counter whose first number is `first`.
    pub fn starting_at(first: u8) -> (r: Self)
        ensures
            r@ == first,
    {
        SequenceCounter { next: first }
    }

    /// Returns the current number and moves on to the following one.
    pub fn next(&mut self) -> (r: u8)
        ensures
            r == old(self)@,
            final(self)@ == following(old(self)@),
    {
        let r = self.next;
        self.next = if self.next == 255 { 0 } else { self.next + 1 };
        r
    }
}

/// Serializes `packet`, escapes it and wraps it in start and end markers.
pub fn frame_packet(packet: &Packet) -> (r: Vec<u8>)
    requires
        packet.payload@.len() <= isize::MAX - 7,
    ensures
        r@ == frame_spec(packet@),
{
    let unescaped = packet.to_bytes();
    let escaped = encode_bytes(unescaped.as_slice());
    let body = buffer_bytes(&escaped);
    let mut framed: Vec<u8> = Vec::new();
    framed.push(SOP);
    let mut i: usize = 0;
    while i < body.len()
        invariant
            i <= body@.len(),
            framed@ == seq![SOP] + body@.subrange(0, i as int),
        decreases body@.len() - i,
    {
        framed.push(body[i]);
        assert(body@.subrange(0, i + 1) =~= body@.subrange(0, i as int).push(body@[i as int]));
        i = i + 1;
    }
    assert(body@.subrange(0, i as int) =~= body@);
    framed.push(EOP);
    framed
}

/// The slot a packet is delivered to: the one registered under its
/// sequence number, when it is a response and that request is pending.
pub open spec fn matched_slot<S>(slots: Map<u8, S>, p: PacketView) -> Option<S> {
    if p.flags.is_response && slots.contains_key(p.sequence_number) {
        Some(slots[p.sequence_number])
    } else {
        None
    }
}

/// The pending slots after routing `p`: its request leaves when matched.
pub open spec fn after_route<S>(slots: Map<u8, S>, p: PacketView) -> Map<u8, S> {
    if matched_slot(slots, p) is Some {
        slots.remove(p.sequence_number)
    } else {
        slots
    }
}

/// Where a parsed packet goes.
pub enum Route<S> {
    /// A response whose request is pending: hand `packet` to `slot`.
    Deliver { slot: S, packet: Packet },
    /// A response that no pending request awaits: drop it.
    Unmatched(Packet),
    /// Not a response: queue it as a notification.
    Notify(Packet),
}

/// The pending-request table as a mathematical value.
pub struct PendingView<S> {
    /// The sequence number the next request gets.
    pub next: u8,
    /// Each pending request's response slot, by sequence number.
    pub slots: Map<u8, S>,
}

/// Sequence numbering and the pending-request table of one dispatcher.
/// At most one slot is live per sequence number; when more than 256
/// requests are in flight a new one replaces the oldest with its number.
pub struct PendingRequests<S> {
    sequence: SequenceCounter,
    slots: HashMap<u8, S>,
}

impl<S> View for PendingRequests<S> {
    type V = PendingView<S>;

    closed spec fn view(&self) -> PendingView<S> {
        PendingView { next: self.sequence@, slots: self.slots@ }
    }
}

impl<S> PendingRequests<S> {
    /// An empty table whose first sequence number is 0.
    pub fn new() -> (r: Self)
        ensures
            r@.next == 0,
            r@.slots == Map::<u8, S>::empty(),
    {
        PendingRequests { sequence: SequenceCounter::new(), slots: HashMap::new() }
    }

    /// An empty table whose first sequence number is `first`.
    pub fn starting_at(first: u8) -> (r: Self)
        ensures
            r@.next == first,
            r@.slots == Map::<u8, S>::empty(),
    {
        PendingRequests { sequence: SequenceCounter::starting_at(first), slots: HashMap::new() }
    }

    /// The sequence number the next request gets.
    pub fn next_sequence(&self) -> (r: u8)
        ensures
            r == self@.next,
    {
        self.sequence.next
    }

    /// Number of pending requests.
    pub fn len(&self) -> (r: usize)
        ensures
            r == self@.slots.len(),
    {
        self.slots.len()
    }

    /// Whether a request with sequence number `seq` is pending.
    pub fn is_pending(&self, seq: u8) -> (r: bool)
        ensures
            r == self@.slots.contains_key(seq),
    {
        self.slots.contains_key(&seq)
    }

    /// Takes the next sequence number and registers `slot` under it.
    pub fn register(&mut self, slot: S) -> (seq: u8)
        ensures
            seq == old(self)@.next,
            final(self)@.next == following(old(self)@.next),
            final(self)@.slots == old(self)@.slots.insert(seq, slot),
    {
        let seq = self.sequence.next();
        self.slots.insert(seq, slot);
        seq
    }

    /// Numbers `packet` with the next sequence number, overwriting what it
    /// held, registers `slot` under that number and frames the packet.
    /// Returns the number and the bytes to write.
    pub fn begin_command(&mut self, packet: Packet, slot: S) -> (r: (u8, Vec<u8>))
        requires
            packet.payload@.len() <= isize::MAX - 7,
        ensures
            r.0 == old(self)@.next,
            final(self)@.next == following(old(self)@.next),
            final(self)@.slots == old(self)@.slots.insert(r.0, slot),
            r.1@ == frame_spec(PacketView { sequence_number: r.0, ..packet@ }),
    {
        let mut packet = packet;
        let seq = self.register(slot);
        packet.sequence_number = seq;
        let framed = frame_packet(&packet);
        (seq, framed)
    }

    /// Removes the request with sequence number `seq`, if pending, and returns its slot.
    pub fn cancel(&mut self, seq: u8) -> (r: Option<S>)
        ensures
            final(self)@.next == old(self)@.next,
            final(self)@.slots == old(self)@.slots.remove(seq),
            match r {
                Some(slot) => old(self)@.slots.contains_key(seq) && slot == old(self)@.slots[seq],
                None => !old(self)@.slots.contains_key(seq),
            },
    {
        self.slots.remove(&seq)
    }

    /// Ends the wait of request `seq`: the response if one came (`received`),
    /// else `Timeout`, after removing the request from the table.
    pub fn finish(&mut self, seq: u8, received: Option<Packet>) -> (r: Result<Packet, RvrError>)
        ensures
            final(self)@.next == old(self)@.next,
            match received {
                Some(p) => r == Ok::<Packet, RvrError>(p) && final(self)@.slots == old(self)@.slots,
                None => r == Err::<Packet, RvrError>(RvrError::Timeout) && final(self)@.slots
                    == old(self)@.slots.remove(seq),
            },
            !received.is_some() ==> !final(self)@.slots.contains_key(seq),
    {
        match received {
            Some(p) => Ok(p),
            None => {
                self.cancel(seq);
                Err(RvrError::Timeout)
            },
        }
    }

    /// Decides where a parsed packet goes. A response is matched by its
    /// sequence number alone, whatever the order of arrival, and its request
    /// leaves the table; anything else is a notification.
    pub fn route(&mut self, packet: Packet) -> (r: Route<S>)
        ensures
            final(self)@.next == old(self)@.next,
            final(self)@.slots == after_route(old(self)@.slots, packet@),
            match r {
                Route::Deliver { slot, packet: q } => matched_slot(old(self)@.slots, packet@) == Some(slot)
                    && q == packet,
                Route::Unmatched(q) => packet.flags.is_response && matched_slot(old(self)@.slots, packet@)
                    is None && q == packet,
                Route::Notify(q) => !packet.flags.is_response && q == packet,
            },
    {
        if packet.flags.is_response {
            match self.slots.remove(&packet.sequence_number) {
                Some(slot) => Route::Deliver { slot, packet },
                None => Route::Unmatched(packet),
            }
        } else {
            Route::Notify(packet)
        }
    }
}

/// Two requests registered one after the other, under `n` and the number
/// after it, each get their own response, whichever response arrives
/// first: routing the second's response and then the first's delivers
/// the second's slot and then the first's, and leaves neither pending.
pub proof fn lemma_responses_matched_by_sequence<S>(
    slots: Map<u8, S>,
    n: u8,
    first_slot: S,
    second_slot: S,
    first_response: PacketView,
    second_response: PacketView,
)
    requires
        first_response.flags.is_response,
        second_response.flags.is_response,
        first_response.sequence_number == n,
        second_response.sequence_number == following(n),
    ensures
        ({
            let registered = slots.insert(n, first_slot).insert(following(n), second_slot);
            let after_second = after_route(registered, second_response);
            &&& matched_slot(registered, second_response) == Some(second_slot)
            &&& matched_slot(after_second, first_response) == Some(first_slot)
            &&& !after_route(after_second, first_response).contains_key(n)
            &&& !after_route(after_second, first_response).contains_key(following(n))
        }),
{
    let registered = slots.insert(n, first_slot).insert(following(n), second_slot);
    assert(following(n) != n);
    assert(registered.remove(following(n)).contains_key(n));
}

} // verus!
