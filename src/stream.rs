use vstd::prelude::*;
use crate::etmv4::{
    dispatch, etmv4_synchronization, first_sync_from, lemma_packet_len, packet_effect, DecodeError,
};
use crate::pktproto::{
    classify_header, first_match_in, lemma_packet_rules_len, packet_names, packet_rules, rules_of,
    PacketKind, TracePkt,
};
use crate::tracer_etmv4::{cleared_registers, with_registers, Etmv4Tracer, Event};

verus! {

/// Lifecycle of a trace source stream; it only ever moves forward.
#[derive(Clone, Copy, Debug, PartialEq, Eq, Structural)]
pub enum State {
    Reading,
    Syncing,
    InSync,
    Decoding,
    Decoded,
}

impl State {
    /// Position along `Reading -> Syncing -> InSync -> Decoding -> Decoded`.
    pub open spec fn rank(self) -> nat {
        match self {
            State::Reading => 0,
            State::Syncing => 1,
            State::InSync => 2,
            State::Decoding => 3,
            State::Decoded => 4,
        }
    }

    pub fn is_synchronized(&self) -> (r: bool)
        ensures
            r == (self.rank() >= State::InSync.rank()),
    {
        match self {
            State::Reading | State::Syncing => false,
            _ => true,
        }
    }
}

/// The bytes of one trace source, its lifecycle state, its tracer and the
/// events decoded so far.
pub struct Stream {
    pub buff: Vec<u8>,
    pub state: State,
    pub tracer: Etmv4Tracer,
    pub events: Vec<Event>,
}

impl Stream {
    pub fn new() -> (r: Self)
        ensures
            r.buff@ == Seq::<u8>::empty(),
            r.state == State::Reading,
            r.tracer == Etmv4Tracer::initial(),
            r.events@ == Seq::<Event>::empty(),
    {
        Self { buff: Vec::new(), state: State::Reading, tracer: Etmv4Tracer::new(), events: Vec::new() }
    }

    /// A fresh stream, with room for as many bytes as this one holds.
    pub fn init_new(&self) -> (r: Self)
        ensures
            r.buff@ == Seq::<u8>::empty(),
            r.state == State::Reading,
            r.tracer == Etmv4Tracer::initial(),
            r.events@ == Seq::<Event>::empty(),
    {
        Self {
            buff: Vec::with_capacity(self.buff.len()),
            state: State::Reading,
            tracer: Etmv4Tracer::new(),
            events: Vec::new(),
        }
    }
}


/// The table of classification rules, in the order of `packet_rules`.
pub fn initialize_tracepkts() -> (r: [TracePkt; 56])
    ensures
        forall|i: int| 0 <= i < 56 ==> #[trigger] r[i].rule() == packet_rules()[i],
        forall|i: int| 0 <= i < 56 ==> #[trigger] r[i].name@ == packet_names()[i],
{
    proof {
        reveal(packet_rules);
        reveal(packet_names);
    }
    let r = [
        TracePkt::new("extension", 0xff, 0x00, PacketKind::Extension),
        TracePkt::new("trace_info", 0xff, 0x01, PacketKind::TraceInfo),
        TracePkt::new("trace_on", 0xff, 0x04, PacketKind::TraceOn),
        TracePkt::new("timestamp", 0xfe, 0x02, PacketKind::Timestamp),
        TracePkt::new("exception", 0xfe, 0x06, PacketKind::Exception),
        TracePkt::new("cc_format_1", 0xfe, 0x0e, PacketKind::CcFormat1),
        TracePkt::new("cc_format_2", 0xfe, 0x0c, PacketKind::CcFormat2),
        TracePkt::new("cc_format_3", 0xf0, 0x10, PacketKind::CcFormat3),
        TracePkt::new("data_sync_marker", 0xf0, 0x20, PacketKind::DataSyncMarker),
        TracePkt::new("commit", 0xff, 0x2d, PacketKind::Commit),
        TracePkt::new("cancel_format_1", 0xfe, 0x2e, PacketKind::Cancel),
        TracePkt::new("cancel_format_2", 0xfc, 0x34, PacketKind::Cancel),
        TracePkt::new("cancel_format_3", 0xf8, 0x38, PacketKind::Cancel),
        TracePkt::new("mispredict", 0xfc, 0x30, PacketKind::Mispredict),
        TracePkt::new("cond_inst_format_1", 0xff, 0x6c, PacketKind::CondInstFormat1),
        TracePkt::new("cond_inst_format_2", 0xfc, 0x40, PacketKind::CondInstFormat2),
        TracePkt::new("cond_inst_format_3", 0xff, 0x6d, PacketKind::CondInstFormat3),
        TracePkt::new("cond_flush", 0xff, 0x43, PacketKind::CondFlush),
        TracePkt::new("cond_result_format_1", 0xf8, 0x68, PacketKind::CondResultFormat1),
        TracePkt::new("cond_result_format_2", 0xf8, 0x48, PacketKind::CondResultFormat2),
        TracePkt::new("cond_result_format_3", 0xf0, 0x50, PacketKind::CondResultFormat3),
        TracePkt::new("cond_result_format_4", 0xfc, 0x44, PacketKind::CondResultFormat4),
        TracePkt::new("event", 0xf0, 0x70, PacketKind::Event),
        TracePkt::new("short_address_is0", 0xff, 0x95, PacketKind::ShortAddress),
        TracePkt::new("short_address_is1", 0xff, 0x96, PacketKind::ShortAddress),
        TracePkt::new("long_address_32bit_is0", 0xff, 0x9a, PacketKind::LongAddress),
        TracePkt::new("long_address_32bit_is1", 0xff, 0x9b, PacketKind::LongAddress),
        TracePkt::new("long_address_64bit_is0", 0xff, 0x9d, PacketKind::LongAddress),
        TracePkt::new("long_address_64bit_is1", 0xff, 0x9e, PacketKind::LongAddress),
        TracePkt::new("exact_match_address", 0xfc, 0x90, PacketKind::ExactMatchAddress),
        TracePkt::new("context", 0xfe, 0x80, PacketKind::Context),
        TracePkt::new("address_context_32bit_is0", 0xff, 0x82, PacketKind::AddressContext),
        TracePkt::new("address_context_32bit_is1", 0xff, 0x83, PacketKind::AddressContext),
        TracePkt::new("address_context_64bit_is0", 0xff, 0x85, PacketKind::AddressContext),
        TracePkt::new("address_context_64bit_is1", 0xff, 0x86, PacketKind::AddressContext),
        TracePkt::new("atom_format_1", 0xfe, 0xf6, PacketKind::AtomFormat1),
        TracePkt::new("atom_format_2", 0xfc, 0xd8, PacketKind::AtomFormat2),
        TracePkt::new("atom_format_3", 0xf8, 0xf8, PacketKind::AtomFormat3),
        TracePkt::new("atom_format_4", 0xfc, 0xdc, PacketKind::AtomFormat4),
        TracePkt::new("atom_format_5_1", 0xff, 0xf5, PacketKind::AtomFormat5),
        TracePkt::new("atom_format_5_2", 0xff, 0xd5, PacketKind::AtomFormat5),
        TracePkt::new("atom_format_5_3", 0xff, 0xd6, PacketKind::AtomFormat5),
        TracePkt::new("atom_format_5_4", 0xff, 0xd7, PacketKind::AtomFormat5),
        TracePkt::new("atom_format_6_1", 0xff, 0xd0, PacketKind::AtomFormat6),
        TracePkt::new("atom_format_6_2", 0xff, 0xd1, PacketKind::AtomFormat6),
        TracePkt::new("atom_format_6_3", 0xff, 0xd2, PacketKind::AtomFormat6),
        TracePkt::new("atom_format_6_4", 0xff, 0xd3, PacketKind::AtomFormat6),
        TracePkt::new("atom_format_6_5", 0xff, 0xd4, PacketKind::AtomFormat6),
        TracePkt::new("atom_format_6_6", 0xff, 0xf0, PacketKind::AtomFormat6),
        TracePkt::new("atom_format_6_7", 0xff, 0xf1, PacketKind::AtomFormat6),
        TracePkt::new("atom_format_6_8", 0xff, 0xf2, PacketKind::AtomFormat6),
        TracePkt::new("atom_format_6_9", 0xff, 0xf3, PacketKind::AtomFormat6),
        TracePkt::new("atom_format_6_10", 0xff, 0xf4, PacketKind::AtomFormat6),
        TracePkt::new("atom_format_6_11", 0xf0, 0xc0, PacketKind::AtomFormat6),
        TracePkt::new("atom_format_6_12", 0xf0, 0xe0, PacketKind::AtomFormat6),
        TracePkt::new("q", 0xf0, 0xa0, PacketKind::Q),
    ];
    r
}

/// The index of the first rule of `tracepkts` that header `c` matches.
pub fn classify(tracepkts: &[TracePkt; 56], c: u8) -> (r: Option<usize>)
    ensures
        match first_match_in(c, rules_of(tracepkts@), 0) {
            Some(i) => r == Some(i as usize) && 0 <= i < 56,
            None => r == None::<usize>,
        },
{
    let ghost rules = rules_of(tracepkts@);
    let mut i: usize = 0;
    while i < 56
        invariant
            i <= 56,
            rules == rules_of(tracepkts@),
            rules.len() == 56,
            first_match_in(c, rules, 0) == first_match_in(c, rules, i as int),
        decreases 56 - i,
    {
        if c & tracepkts[i].mask == tracepkts[i].val {
            return Some(i);
        }
        i = i + 1;
    }
    None
}

/// The tracer and events after decoding from `cur` to the end of `s`, from
/// tracer `t` and events `ev`. The packet at `cur` is classified by its
/// header and handed to its handler; a header that no rule matches, or a
/// packet that its handler rejects, is reported and skipped by one byte.
pub open spec fn decode_run(s: Seq<u8>, cur: int, t: Etmv4Tracer, ev: Seq<Event>) -> (Etmv4Tracer, Seq<Event>)
    decreases s.len() - cur,
{
    if cur < 0 || cur >= s.len() {
        (t, ev)
    } else {
        match classify_header(s[cur]) {
            None => decode_run(s, cur + 1, t, ev.push(Event::UnknownHeader { offset: cur as usize, header: s[cur] })),
            Some(k) => match packet_effect(k, s, cur, State::Decoding, t) {
                Ok(e) => {
                    proof {
                        lemma_packet_len(k, s, cur, State::Decoding, t);
                    }
                    decode_run(s, cur + e.len, e.tracer, ev + e.events)
                },
                Err(err) => decode_run(
                    s,
                    cur + 1,
                    t,
                    ev.push(Event::PacketError { offset: cur as usize, kind: k, error: err }),
                ),
            },
        }
    }
}

/// Decodes a stream that is still `Reading`: synchronises it, then decodes
/// every packet from the synchronisation point to the end of the buffer,
/// leaving the stream `Decoded`. A stream in any other state is refused
/// unchanged; a stream without a synchronisation point stays `Syncing`.
pub fn decode_stream(stream: &mut Stream) -> (r: Result<(), DecodeError>)
    ensures
        final(stream).buff@ == old(stream).buff@,
        final(stream).state.rank() >= old(stream).state.rank(),
        old(stream).state != State::Reading ==> {
            &&& r == Err::<(), DecodeError>(DecodeError::BadState)
            &&& final(stream).state == old(stream).state
            &&& final(stream).tracer == old(stream).tracer
            &&& final(stream).events@ == old(stream).events@
        },
        old(stream).state == State::Reading ==> match first_sync_from(old(stream).buff@, 0) {
            None => {
                &&& r == Err::<(), DecodeError>(DecodeError::NoSync)
                &&& final(stream).state == State::Syncing
                &&& final(stream).tracer == old(stream).tracer
                &&& final(stream).events@ == old(stream).events@
            },
            Some(i) => {
                &&& r == Ok::<(), DecodeError>(())
                &&& final(stream).state == State::Decoded
                &&& (final(stream).tracer, final(stream).events@) == decode_run(
                    old(stream).buff@,
                    i,
                    with_registers(old(stream).tracer, cleared_registers()),
                    old(stream).events@,
                )
            },
        },
{
    let tracepkts = initialize_tracepkts();
    match stream.state {
        State::Reading => {},
        _ => {
            return Err(DecodeError::BadState);
        },
    }
    stream.state = State::Syncing;
    let mut cur = match etmv4_synchronization(stream) {
        Ok(i) => i,
        Err(e) => {
            return Err(e);
        },
    };
    stream.state = State::Decoding;
    let ghost s = stream.buff@;
    let ghost target = decode_run(s, cur as int, stream.tracer, stream.events@);
    while cur < stream.buff.len()
        invariant
            stream.buff@ == s,
            stream.state == State::Decoding,
            cur <= s.len(),
            decode_run(s, cur as int, stream.tracer, stream.events@) == target,
            forall|i: int| 0 <= i < 56 ==> #[trigger] tracepkts[i].rule() == packet_rules()[i],
        decreases s.len() - cur,
    {
        let c = stream.buff[cur];
        proof {
            lemma_packet_rules_len();
            assert(rules_of(tracepkts@) =~= packet_rules()) by {
                assert forall|i: int| 0 <= i < 56 implies rules_of(tracepkts@)[i] == packet_rules()[i] by {
                    assert(tracepkts[i].rule() == packet_rules()[i]);
                }
            }
        }
        match classify(&tracepkts, c) {
            None => {
                stream.events.push(Event::UnknownHeader { offset: cur, header: c });
                cur = cur + 1;
            },
            Some(i) => {
                let kind = tracepkts[i].decode;
                assert(tracepkts[i as int].rule() == packet_rules()[i as int]);
                match dispatch(kind, cur, stream) {
                    Ok(n) => {
                        cur = cur + n;
                    },
                    Err(e) => {
                        stream.events.push(Event::PacketError { offset: cur, kind, error: e });
                        cur = cur + 1;
                    },
                }
            },
        }
    }
    stream.state = State::Decoded;
    Ok(())
}

} // verus!
