//! Incremental frame parser: consumes one byte at a time from a live stream
//! and recovers by itself from noise, lost end markers and bad packets.

use vstd::prelude::*;

use crate::error::RvrError;
use crate::protocol::framing::{
    encode_spec, escape_byte, is_marker, lemma_unescape_marker, EOP, ESC, ESC_MASK, SOP,
};
use crate::protocol::packet::{
    frame_spec, lemma_parse_serialize, parse, serialize, view_parsed, Packet, PacketView,
};

verus! {

enum ParserState {
    WaitingForSop,
    ReadingPacket { buffer: Vec<u8>, is_escaped: bool },
}

/// The parser's state as a mathematical value.
pub enum ParserView {
    /// Idle: every byte but a start marker is ignored.
    Waiting,
    /// Inside a frame: the unescaped bytes so far, and whether an escape is pending.
    Reading { buffer: Seq<u8>, escaped: bool },
}

/// The state right after a start marker.
pub open spec fn fresh() -> ParserView {
    ParserView::Reading { buffer: Seq::empty(), escaped: false }
}

/// What one byte does: the next state, and what is emitted (nothing yet,
/// one packet, or one error).
pub open spec fn feed_step(s: ParserView, b: u8) -> (ParserView, Result<Option<PacketView>, RvrError>) {
    match s {
        ParserView::Waiting => if b == SOP {
            (fresh(), Ok(None))
        } else {
            (ParserView::Waiting, Ok(None))
        },
        ParserView::Reading { buffer, escaped } => if escaped {
            if is_marker(b) {
                (ParserView::Waiting, Err(RvrError::InvalidEscape))
            } else {
                (ParserView::Reading { buffer: buffer.push(b | ESC_MASK), escaped: false }, Ok(None))
            }
        } else if b == ESC {
            (ParserView::Reading { buffer, escaped: true }, Ok(None))
        } else if b == SOP {
            (fresh(), Err(RvrError::UnexpectedStart))
        } else if b == EOP {
            (
                ParserView::Waiting,
                match parse(buffer) {
                    Ok(p) => Ok(Some(p)),
                    Err(e) => Err(e),
                },
            )
        } else {
            (ParserView::Reading { buffer: buffer.push(b), escaped: false }, Ok(None))
        },
    }
}

/// The view of what `feed` returns.
pub open spec fn view_fed(r: Result<Option<Packet>, RvrError>) -> Result<Option<PacketView>, RvrError> {
    match r {
        Ok(Some(p)) => Ok(Some(p@)),
        Ok(None) => Ok(None),
        Err(e) => Err(e),
    }
}

/// What an emission adds to the list of events: nothing, a packet or an error.
pub open spec fn events_of(o: Result<Option<PacketView>, RvrError>) -> Seq<Result<PacketView, RvrError>> {
    match o {
        Ok(Some(p)) => seq![Ok(p)],
        Ok(None) => Seq::empty(),
        Err(e) => seq![Err(e)],
    }
}

/// Feeding `bytes` in order from state `s`: the final state and every
/// packet or error emitted, in order.
pub open spec fn run(s: ParserView, bytes: Seq<u8>) -> (ParserView, Seq<Result<PacketView, RvrError>>)
    decreases bytes.len(),
{
    if bytes.len() == 0 {
        (s, Seq::empty())
    } else {
        let (mid, events) = run(s, bytes.drop_last());
        let (next, out) = feed_step(mid, bytes.last());
        (next, events + events_of(out))
    }
}

/// Feeding `a` and then `b` is feeding `a + b`.
pub proof fn lemma_run_append(s: ParserView, a: Seq<u8>, b: Seq<u8>)
    ensures
        run(s, a + b) == (run(run(s, a).0, b).0, run(s, a).1 + run(run(s, a).0, b).1),
    decreases b.len(),
{
    let (mid, ea) = run(s, a);
    if b.len() == 0 {
        assert(a + b =~= a);
        assert(ea + Seq::<Result<PacketView, RvrError>>::empty() =~= ea);
    } else {
        lemma_run_append(s, a, b.drop_last());
        assert((a + b).drop_last() =~= a + b.drop_last());
        assert((a + b).last() == b.last());
        let (m2, eb) = run(mid, b.drop_last());
        let out = feed_step(m2, b.last()).1;
        assert(ea + eb + events_of(out) =~= ea + (eb + events_of(out)));
    }
}

proof fn lemma_run_single(s: ParserView, b: u8)
    ensures
        run(s, seq![b]) == (feed_step(s, b).0, events_of(feed_step(s, b).1)),
{
    assert(seq![b].drop_last() =~= Seq::<u8>::empty());
    assert(run(s, Seq::<u8>::empty()) == (s, Seq::<Result<PacketView, RvrError>>::empty()));
    assert(Seq::<Result<PacketView, RvrError>>::empty() + events_of(feed_step(s, b).1) =~= events_of(
        feed_step(s, b).1,
    ));
}

/// Inside a frame with no escape pending, an encoded body adds exactly the
/// bytes it encodes to the buffer and emits nothing.
pub proof fn lemma_run_encoded(buffer: Seq<u8>, x: Seq<u8>)
    ensures
        run(ParserView::Reading { buffer, escaped: false }, encode_spec(x)) == (
            ParserView::Reading { buffer: buffer + x, escaped: false },
            Seq::<Result<PacketView, RvrError>>::empty(),
        ),
    decreases x.len(),
{
    let s = ParserView::Reading { buffer, escaped: false };
    if x.len() == 0 {
        assert(buffer + x =~= buffer);
    } else {
        let head = escape_byte(x[0]);
        let rest = x.skip(1);
        lemma_run_append(s, head, encode_spec(rest));
        let grown = buffer.push(x[0]);
        if is_marker(x[0]) {
            let c = x[0] & 0x77;
            lemma_unescape_marker(x[0]);
            lemma_run_append(s, seq![ESC], seq![c]);
            assert(seq![ESC] + seq![c] =~= head);
            lemma_run_single(s, ESC);
            lemma_run_single(ParserView::Reading { buffer, escaped: true }, c);
        } else {
            lemma_run_single(s, x[0]);
        }
        assert(run(s, head) == (
            ParserView::Reading { buffer: grown, escaped: false },
            Seq::<Result<PacketView, RvrError>>::empty(),
        )) by {
            if is_marker(x[0]) {
                assert(Seq::<Result<PacketView, RvrError>>::empty() + Seq::<Result<PacketView, RvrError>>::empty()
                    =~= Seq::<Result<PacketView, RvrError>>::empty());
            }
        }
        lemma_run_encoded(grown, rest);
        assert(grown + rest =~= buffer + x);
        assert(Seq::<Result<PacketView, RvrError>>::empty() + Seq::<Result<PacketView, RvrError>>::empty()
            =~= Seq::<Result<PacketView, RvrError>>::empty());
    }
}

/// Just after a start marker, the escaped wire form of a well-formed packet
/// and an end marker yield that packet and nothing else, and leave the
/// parser waiting.
pub proof fn lemma_run_body(p: PacketView)
    requires
        p.well_formed(),
    ensures
        run(fresh(), encode_spec(serialize(p)) + seq![EOP]) == (ParserView::Waiting, seq![
            Ok::<PacketView, RvrError>(p),
        ]),
{
    let w = serialize(p);
    lemma_run_append(fresh(), encode_spec(w), seq![EOP]);
    lemma_run_encoded(Seq::empty(), w);
    assert(Seq::<u8>::empty() + w =~= w);
    lemma_parse_serialize(p);
    lemma_run_single(ParserView::Reading { buffer: w, escaped: false }, EOP);
    assert(Seq::<Result<PacketView, RvrError>>::empty() + seq![Ok::<PacketView, RvrError>(p)] =~= seq![
        Ok::<PacketView, RvrError>(p),
    ]);
}

/// The parser reads back exactly the frame written for a well-formed packet:
/// from the waiting state, the frame yields that packet alone.
pub proof fn lemma_run_frame(p: PacketView)
    requires
        p.well_formed(),
    ensures
        run(ParserView::Waiting, frame_spec(p)) == (ParserView::Waiting, seq![Ok::<PacketView, RvrError>(p)]),
{
    let body = encode_spec(serialize(p)) + seq![EOP];
    assert(frame_spec(p) =~= seq![SOP] + body);
    lemma_run_append(ParserView::Waiting, seq![SOP], body);
    lemma_run_single(ParserView::Waiting, SOP);
    lemma_run_body(p);
    assert(Seq::<Result<PacketView, RvrError>>::empty() + seq![Ok::<PacketView, RvrError>(p)] =~= seq![
        Ok::<PacketView, RvrError>(p),
    ]);
}

proof fn lemma_run_junk(junk: Seq<u8>)
    requires
        forall|i: int| 0 <= i < junk.len() ==> junk[i] != SOP,
    ensures
        run(ParserView::Waiting, junk) == (ParserView::Waiting, Seq::<Result<PacketView, RvrError>>::empty()),
    decreases junk.len(),
{
    if junk.len() > 0 {
        lemma_run_junk(junk.drop_last());
        assert(junk.last() == junk[junk.len() - 1]);
        assert(Seq::<Result<PacketView, RvrError>>::empty() + Seq::<Result<PacketView, RvrError>>::empty()
            =~= Seq::<Result<PacketView, RvrError>>::empty());
    }
}

/// Bytes before a frame that hold no start marker are ignored: junk followed
/// by the frame of a well-formed packet yields exactly that packet.
pub proof fn lemma_junk_before_frame(junk: Seq<u8>, p: PacketView)
    requires
        forall|i: int| 0 <= i < junk.len() ==> junk[i] != SOP,
        p.well_formed(),
    ensures
        run(ParserView::Waiting, junk + frame_spec(p)) == (ParserView::Waiting, seq![
            Ok::<PacketView, RvrError>(p),
        ]),
{
    lemma_run_append(ParserView::Waiting, junk, frame_spec(p));
    lemma_run_junk(junk);
    lemma_run_frame(p);
    assert(Seq::<Result<PacketView, RvrError>>::empty() + seq![Ok::<PacketView, RvrError>(p)] =~= seq![
        Ok::<PacketView, RvrError>(p),
    ]);
}

/// Resynchronization: a partial frame (a start marker and the escaped form
/// of any bytes), then the frame of a well-formed packet, yields exactly one
/// `UnexpectedStart` followed by exactly that packet.
pub proof fn lemma_resync_after_partial_frame(partial: Seq<u8>, p: PacketView)
    requires
        p.well_formed(),
    ensures
        run(ParserView::Waiting, seq![SOP] + encode_spec(partial) + frame_spec(p)) == (
            ParserView::Waiting,
            seq![Err::<PacketView, RvrError>(RvrError::UnexpectedStart), Ok::<PacketView, RvrError>(p)],
        ),
{
    let head = seq![SOP] + encode_spec(partial);
    let body = encode_spec(serialize(p)) + seq![EOP];
    lemma_run_append(ParserView::Waiting, seq![SOP], encode_spec(partial));
    lemma_run_single(ParserView::Waiting, SOP);
    lemma_run_encoded(Seq::empty(), partial);
    assert(Seq::<u8>::empty() + partial =~= partial);
    let reading = ParserView::Reading { buffer: partial, escaped: false };
    assert(run(ParserView::Waiting, head) == (reading, Seq::<Result<PacketView, RvrError>>::empty())) by {
        assert(Seq::<Result<PacketView, RvrError>>::empty() + Seq::<Result<PacketView, RvrError>>::empty()
            =~= Seq::<Result<PacketView, RvrError>>::empty());
    }
    assert(head + frame_spec(p) =~= head + seq![SOP] + body);
    lemma_run_append(ParserView::Waiting, head, seq![SOP]);
    lemma_run_single(reading, SOP);
    lemma_run_append(ParserView::Waiting, head + seq![SOP], body);
    lemma_run_body(p);
    assert(Seq::<Result<PacketView, RvrError>>::empty() + seq![Err::<PacketView, RvrError>(
        RvrError::UnexpectedStart,
    )] + seq![Ok::<PacketView, RvrError>(p)] =~= seq![
        Err::<PacketView, RvrError>(RvrError::UnexpectedStart),
        Ok::<PacketView, RvrError>(p),
    ]);
}

/// Streaming parser for framed packets.
pub struct SpheroParser {
    state: ParserState,
}

impl View for SpheroParser {
    type V = ParserView;

    closed spec fn view(&self) -> ParserView {
        match self.state {
            ParserState::WaitingForSop => ParserView::Waiting,
            ParserState::ReadingPacket { buffer, is_escaped } => ParserView::Reading {
                buffer: buffer@,
                escaped: is_escaped,
            },
        }
    }
}

impl SpheroParser {
    /// A parser waiting for a start marker.
    pub fn new() -> (r: Self)
        ensures
            r@ == ParserView::Waiting,
    {
        SpheroParser { state: ParserState::WaitingForSop }
    }

    /// Consumes one byte. A marker right after an escape, the end marker
    /// included, is an `InvalidEscape`. After any error the parser is waiting
    /// for a start marker or has just begun a fresh frame, so feeding may go
    /// on at once.
    pub fn feed(&mut self, byte: u8) -> (r: Result<Option<Packet>, RvrError>)
        ensures
            final(self)@ == feed_step(old(self)@, byte).0,
            view_fed(r) == feed_step(old(self)@, byte).1,
            r is Err ==> final(self)@ == ParserView::Waiting || final(self)@ == fresh(),
    {
        let mut state = ParserState::WaitingForSop;
        core::mem::swap(&mut self.state, &mut state);
        match state {
            ParserState::WaitingForSop => {
                if byte == SOP {
                    self.state = ParserState::ReadingPacket { buffer: Vec::new(), is_escaped: false };
                }
                Ok(None)
            },
            ParserState::ReadingPacket { mut buffer, is_escaped } => {
                if is_escaped {
                    if byte == EOP || byte == SOP || byte == ESC {
                        return Err(RvrError::InvalidEscape);
                    }
                    buffer.push(byte | ESC_MASK);
                    self.state = ParserState::ReadingPacket { buffer, is_escaped: false };
                    Ok(None)
                } else if byte == ESC {
                    self.state = ParserState::ReadingPacket { buffer, is_escaped: true };
                    Ok(None)
                } else if byte == SOP {
                    self.state = ParserState::ReadingPacket { buffer: Vec::new(), is_escaped: false };
                    Err(RvrError::UnexpectedStart)
                } else if byte == EOP {
                    match Self::parse_buffer(buffer.as_slice()) {
                        Ok(packet) => Ok(Some(packet)),
                        Err(e) => Err(e),
                    }
                } else {
                    buffer.push(byte);
                    self.state = ParserState::ReadingPacket { buffer, is_escaped: false };
                    Ok(None)
                }
            },
        }
    }

    /// Parses the unescaped bytes of one complete frame.
    fn parse_buffer(buffer: &[u8]) -> (r: Result<Packet, RvrError>)
        ensures
            view_parsed(r) == parse(buffer@),
    {
        Packet::from_bytes(buffer)
    }

    /// Feeds every byte of `bytes` in order and returns what was emitted:
    /// each complete packet and each error, in the order they arose.
    pub fn feed_slice(&mut self, bytes: &[u8]) -> (r: Vec<Result<Packet, RvrError>>)
        ensures
            final(self)@ == run(old(self)@, bytes@).0,
            r@.map_values(|e: Result<Packet, RvrError>| view_parsed(e)) == run(old(self)@, bytes@).1,
    {
        let mut events: Vec<Result<Packet, RvrError>> = Vec::new();
        let mut i: usize = 0;
        assert(bytes@.subrange(0, 0) =~= Seq::<u8>::empty());
        assert(events@.map_values(|e: Result<Packet, RvrError>| view_parsed(e)) =~= Seq::<
            Result<PacketView, RvrError>,
        >::empty());
        while i < bytes.len()
            invariant
                i <= bytes@.len(),
                self@ == run(old(self)@, bytes@.subrange(0, i as int)).0,
                events@.map_values(|e: Result<Packet, RvrError>| view_parsed(e)) == run(
                    old(self)@,
                    bytes@.subrange(0, i as int),
                ).1,
            decreases bytes@.len() - i,
        {
            let ghost before = events@.map_values(|e: Result<Packet, RvrError>| view_parsed(e));
            let ghost s0 = self@;
            assert(bytes@.subrange(0, i + 1).drop_last() =~= bytes@.subrange(0, i as int));
            let out = self.feed(bytes[i]);
            match out {
                Ok(Some(p)) => {
                    events.push(Ok(p));
                },
                Ok(None) => {},
                Err(e) => {
                    events.push(Err(e));
                },
            }
            assert(events@.map_values(|e: Result<Packet, RvrError>| view_parsed(e)) =~= before
                + events_of(feed_step(s0, bytes@[i as int]).1));
            i = i + 1;
        }
        assert(bytes@.subrange(0, i as int) =~= bytes@);
        events
    }

    /// Drops any partial frame and waits for the next start marker.
    pub fn reset(&mut self)
        ensures
            final(self)@ == ParserView::Waiting,
    {
        self.state = ParserState::WaitingForSop;
    }
}

impl Default for SpheroParser {
    fn default() -> (r: Self)
        ensures
            r@ == ParserView::Waiting,
    {
        Self::new()
    }
}

} // verus!
