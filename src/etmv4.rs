use vstd::prelude::*;
use vstd::string::StringSliceAdditionalSpecFns;
use crate::fields::{
    byte_at, lemma_count_field_bounds, lemma_parse_field_bounds, lemma_timestamp_field_bounds,
    optional_field, parse_count_field, parse_field, parse_timestamp_field, read_count_field,
    read_field, read_optional_field, read_timestamp_field, timestamp_bits, C_BIT,
};
use crate::pktproto::PacketKind;
use crate::stream::{State, Stream};
use crate::tracer_etmv4::{
    address_event, after_p0_element, after_p0_elements, atom_run_events, cleared_registers,
    context_applied, context_event, exception_events, merged_timestamp, pushed_registers,
    reset_address_register, trace_info_applied, trace_info_event, tracer_address, tracer_atoms,
    tracer_context, tracer_discard, tracer_exception, tracer_exception_return, tracer_overflow,
    tracer_trace_info, tracer_trace_on, tracer_ts, update_address_regs, with_registers, AddrReg,
    AddressRegister, AtomType, Etmv4Tracer, Event,
};

verus! {

/// Why a packet, or a stream, could not be decoded.
#[derive(Clone, Copy, Debug, PartialEq, Eq, Structural)]
pub enum DecodeError {
    /// The packet runs past the end of the buffer.
    Truncated,
    /// A variable-length field has more bytes than its packet allows.
    FieldTooLong,
    /// An A-Sync packet whose payload is not ten zero bytes and 0x80.
    InvalidAsync,
    /// An extension packet whose first payload byte names no known extension.
    InvalidExtension,
    /// An exception packet whose EE field is neither 1 nor 2.
    InvalidExceptionEe,
    /// An exception packet that announces an address but is not followed by one.
    InvalidAddressInException,
    /// An exact-match address packet that names no address register.
    InvalidExactMatchIndex,
    /// The handler was given a header byte that is not one of its packets.
    UnexpectedHeader,
    /// A packet class that this decoder recognises but does not decode.
    Unsupported,
    /// No A-Sync packet followed by a Trace-Info packet was found.
    NoSync,
    /// The stream is not in the state the operation starts from.
    BadState,
}

impl DecodeError {
    pub fn message(&self) -> &'static str {
        match self {
            DecodeError::Truncated => "Truncated packet",
            DecodeError::FieldTooLong => "Too many bytes in a field of the packet",
            DecodeError::InvalidAsync => "Invalid async packet: Payload bytes of async are not correct",
            DecodeError::InvalidExtension => "Invalid async packet: First payload byte of async is not correct",
            DecodeError::InvalidExceptionEe => "Invalid EE in the exception packet",
            DecodeError::InvalidAddressInException => "Invalid address packet in the exception packet",
            DecodeError::InvalidExactMatchIndex => "Invalid address register index in the exact match packet",
            DecodeError::UnexpectedHeader => "The header does not belong to this packet type",
            DecodeError::Unsupported => "Decoding of this packet type is not supported",
            DecodeError::NoSync => "No trace info packet right after an a-sync packet",
            DecodeError::BadState => "Stream state is not correct",
        }
    }
}

/// What decoding one packet does: how many bytes it spans, the tracer
/// afterwards, and the events it emits.
pub struct Effect {
    pub len: nat,
    pub tracer: Etmv4Tracer,
    pub events: Seq<Event>,
}

/// `new` is `old` after a handler at `pos` returned `r`, given the packet's
/// effect `e`: on success the tracer and events follow the effect and the
/// result is the packet's length, which lies within the buffer; on failure
/// nothing changes. The buffer and the state never change.
pub open spec fn packet_applied(
    e: Result<Effect, DecodeError>,
    pos: int,
    r: Result<usize, DecodeError>,
    old: Stream,
    new: Stream,
) -> bool {
    &&& new.buff@ == old.buff@
    &&& new.state == old.state
    &&& match e {
        Ok(eff) => {
            &&& r == Ok::<usize, DecodeError>(eff.len as usize)
            &&& 1 <= eff.len
            &&& pos + eff.len <= old.buff@.len()
            &&& new.tracer == eff.tracer
            &&& new.events@ =~= old.events@ + eff.events
        },
        Err(err) => {
            &&& r == Err::<usize, DecodeError>(err)
            &&& new.tracer == old.tracer
            &&& new.events@ == old.events@
        },
    }
}

/// The fields of a Trace-Info packet; a section whose PLCTL bit is clear reads as zero.
#[derive(Clone, Copy, Debug, PartialEq, Eq, Structural)]
pub struct TraceInfoFields {
    pub plctl: u32,
    pub info: u32,
    pub key: u32,
    pub spec: u32,
    pub cyct: u32,
}

/// The sections of a Trace-Info packet from INFO on, starting at `pos`,
/// for the presence bits `plctl`: INFO (one byte), KEY (up to four), SPEC
/// (up to four) and CYCT (up to two), each present when its PLCTL bit (1,
/// 2, 4, 8) is set. Gives the fields and the sections' length.
pub open spec fn trace_info_sections(s: Seq<u8>, pos: int, plctl: u32) -> Result<(TraceInfoFields, nat), DecodeError> {
    match optional_field(s, pos, plctl & 1 != 0, 1) {
        Err(e) => Err(e),
        Ok((info, n1)) => match optional_field(s, pos + n1, plctl & 2 != 0, 4) {
            Err(e) => Err(e),
            Ok((key, n2)) => match optional_field(s, pos + n1 + n2, plctl & 4 != 0, 4) {
                Err(e) => Err(e),
                Ok((spec, n3)) => match optional_field(s, pos + n1 + n2 + n3, plctl & 8 != 0, 2) {
                    Err(e) => Err(e),
                    Ok((cyct, n4)) => Ok(
                        (
                            TraceInfoFields {
                                plctl,
                                info: info as u32,
                                key: key as u32,
                                spec: spec as u32,
                                cyct: cyct as u32,
                            },
                            n1 + n2 + n3 + n4,
                        ),
                    ),
                },
            },
        },
    }
}

/// A Trace-Info packet with its header at `pos`: a one-byte PLCTL field,
/// then the sections it announces. Gives the fields and the packet length.
pub open spec fn trace_info_spec(s: Seq<u8>, pos: int) -> Result<(TraceInfoFields, nat), DecodeError> {
    match parse_field(s, pos + 1, 1) {
        Err(e) => Err(e),
        Ok((plctl, n0)) => match trace_info_sections(s, pos + 1 + n0, plctl as u32) {
            Err(e) => Err(e),
            Ok((f, n)) => Ok((f, 1 + n0 + n)),
        },
    }
}

#[verifier::rlimit(50)]
fn parse_trace_info_sections(buf: &Vec<u8>, pos: usize, plctl: u32) -> (r: Result<
    (TraceInfoFields, usize),
    DecodeError,
>)
    requires
        pos <= buf@.len(),
    ensures
        match trace_info_sections(buf@, pos as int, plctl) {
            Ok((f, n)) => r == Ok::<(TraceInfoFields, usize), DecodeError>((f, n as usize)) && pos
                + n <= buf@.len(),
            Err(e) => r == Err::<(TraceInfoFields, usize), DecodeError>(e),
        },
{
    assert(buf@.len() == buf.len());
    let (info, n1) = match read_optional_field(buf, pos, plctl & 1 != 0, 1) {
        Ok(x) => x,
        Err(e) => {
            return Err(e);
        },
    };
    let (key, n2) = match read_optional_field(buf, pos + n1, plctl & 2 != 0, 4) {
        Ok(x) => x,
        Err(e) => {
            return Err(e);
        },
    };
    let (spec, n3) = match read_optional_field(buf, pos + n1 + n2, plctl & 4 != 0, 4) {
        Ok(x) => x,
        Err(e) => {
            return Err(e);
        },
    };
    let (cyct, n4) = match read_optional_field(buf, pos + n1 + n2 + n3, plctl & 8 != 0, 2) {
        Ok(x) => x,
        Err(e) => {
            return Err(e);
        },
    };
    Ok((TraceInfoFields { plctl, info, key, spec, cyct }, n1 + n2 + n3 + n4))
}

/// Parses the Trace-Info packet whose header is at `pos`.
pub fn parse_trace_info(buf: &Vec<u8>, pos: usize) -> (r: Result<(TraceInfoFields, usize), DecodeError>)
    ensures
        match trace_info_spec(buf@, pos as int) {
            Ok((f, n)) => r == Ok::<(TraceInfoFields, usize), DecodeError>((f, n as usize)) && pos
                + n <= buf@.len(),
            Err(e) => r == Err::<(TraceInfoFields, usize), DecodeError>(e),
        },
{
    if pos >= buf.len() {
        return Err(DecodeError::Truncated);
    }
    proof {
        lemma_parse_field_bounds(buf@, pos + 1, 1);
    }
    let (plctl, n0) = match read_field(buf, pos + 1, 1) {
        Ok(x) => x,
        Err(e) => {
            return Err(e);
        },
    };
    match parse_trace_info_sections(buf, pos + 1 + n0, plctl) {
        Ok((f, n)) => Ok((f, 1 + n0 + n)),
        Err(e) => Err(e),
    }
}

/// A Trace-Info packet applies its fields only once the stream is in sync;
/// before that it is parsed for its length alone.
pub open spec fn trace_info_effect(s: Seq<u8>, pos: int, state: State, t: Etmv4Tracer) -> Result<Effect, DecodeError> {
    match trace_info_spec(s, pos) {
        Err(e) => Err(e),
        Ok((f, n)) => if state.rank() >= State::InSync.rank() {
            let t2 = trace_info_applied(t, f.plctl, f.info, f.key, f.spec, f.cyct);
            Ok(Effect { len: n, tracer: t2, events: seq![trace_info_event(t2)] })
        } else {
            Ok(Effect { len: n, tracer: t, events: seq![] })
        },
    }
}

pub fn decode_trace_info(pkt_offset: usize, stream: &mut Stream) -> (r: Result<usize, DecodeError>)
    ensures
        packet_applied(
            trace_info_effect(old(stream).buff@, pkt_offset as int, old(stream).state, old(stream).tracer),
            pkt_offset as int,
            r,
            *old(stream),
            *final(stream),
        ),
{
    let (f, n) = match parse_trace_info(&stream.buff, pkt_offset) {
        Ok(x) => x,
        Err(e) => {
            return Err(e);
        },
    };
    if stream.state.is_synchronized() {
        tracer_trace_info(&mut stream.tracer, &mut stream.events, f.plctl, f.info, f.key, f.spec, f.cyct);
    }
    Ok(n)
}


/// Whether an A-Sync payload follows the header at `pos`: ten zero bytes, then 0x80.
pub open spec fn is_async_at(s: Seq<u8>, pos: int) -> bool {
    &&& 0 <= pos
    &&& pos + 12 <= s.len()
    &&& forall|k: int| pos + 1 <= k < pos + 11 ==> #[trigger] s[k] == 0
    &&& s[pos + 11] == 0x80
}

pub fn is_async(buf: &Vec<u8>, pos: usize) -> (r: bool)
    ensures
        r == is_async_at(buf@, pos as int),
{
    if pos >= buf.len() || buf.len() - pos < 12 {
        return false;
    }
    let mut k: usize = 1;
    while k < 11
        invariant
            1 <= k <= 11,
            pos + 12 <= buf.len(),
            forall|j: int| pos + 1 <= j < pos + k ==> #[trigger] buf@[j] == 0,
        decreases 11 - k,
    {
        if buf[pos + k] != 0 {
            return false;
        }
        k = k + 1;
    }
    buf[pos + 11] == 0x80
}

/// An extension packet: A-Sync (first payload byte 0, twelve bytes in all),
/// discard (3) or overflow (5); any other first payload byte is invalid.
pub open spec fn extension_effect(s: Seq<u8>, pos: int, t: Etmv4Tracer) -> Result<Effect, DecodeError> {
    if pos < 0 || pos + 1 >= s.len() {
        Err(DecodeError::Truncated)
    } else if s[pos + 1] == 0 {
        if pos + 12 > s.len() {
            Err(DecodeError::Truncated)
        } else if is_async_at(s, pos) {
            Ok(Effect { len: 12, tracer: t, events: seq![] })
        } else {
            Err(DecodeError::InvalidAsync)
        }
    } else if s[pos + 1] == 3 {
        Ok(Effect { len: 2, tracer: t, events: seq![Event::Discard] })
    } else if s[pos + 1] == 5 {
        Ok(Effect { len: 2, tracer: t, events: seq![Event::Overflow] })
    } else {
        Err(DecodeError::InvalidExtension)
    }
}

pub fn decode_extension(pkt_offset: usize, stream: &mut Stream) -> (r: Result<usize, DecodeError>)
    ensures
        packet_applied(
            extension_effect(old(stream).buff@, pkt_offset as int, old(stream).tracer),
            pkt_offset as int,
            r,
            *old(stream),
            *final(stream),
        ),
{
    let kind = match byte_at(&stream.buff, pkt_offset, 1) {
        Ok(b) => b,
        Err(e) => {
            return Err(e);
        },
    };
    match kind {
        0 => {
            if stream.buff.len() - pkt_offset < 12 {
                return Err(DecodeError::Truncated);
            }
            if is_async(&stream.buff, pkt_offset) {
                Ok(12)
            } else {
                Err(DecodeError::InvalidAsync)
            }
        },
        3 => {
            tracer_discard(&stream.tracer, &mut stream.events);
            Ok(2)
        },
        5 => {
            tracer_overflow(&stream.tracer, &mut stream.events);
            Ok(2)
        },
        _ => Err(DecodeError::InvalidExtension),
    }
}

pub open spec fn trace_on_effect(s: Seq<u8>, pos: int, t: Etmv4Tracer) -> Result<Effect, DecodeError> {
    if pos < 0 || pos >= s.len() {
        Err(DecodeError::Truncated)
    } else {
        Ok(Effect { len: 1, tracer: t, events: seq![Event::TraceOn] })
    }
}

pub fn decode_trace_on(pkt_offset: usize, stream: &mut Stream) -> (r: Result<usize, DecodeError>)
    ensures
        packet_applied(
            trace_on_effect(old(stream).buff@, pkt_offset as int, old(stream).tracer),
            pkt_offset as int,
            r,
            *old(stream),
            *final(stream),
        ),
{
    if pkt_offset >= stream.buff.len() {
        return Err(DecodeError::Truncated);
    }
    tracer_trace_on(&stream.tracer, &mut stream.events);
    Ok(1)
}

/// A timestamp packet: the value field, then a cycle count when bit 0 of
/// the header is set. The value replaces the low bits of the running
/// timestamp that its bytes span.
pub open spec fn timestamp_effect(s: Seq<u8>, pos: int, t: Etmv4Tracer) -> Result<Effect, DecodeError> {
    if pos < 0 || pos >= s.len() {
        Err(DecodeError::Truncated)
    } else {
        let have_cc = s[pos] & 1 != 0;
        match parse_timestamp_field(s, pos + 1, 0) {
            Err(e) => Err(e),
            Ok((ts, n)) => {
                let cc = if have_cc {
                    parse_count_field(s, pos + 1 + n, 0)
                } else {
                    Ok((0, 0))
                };
                match cc {
                    Err(e) => Err(e),
                    Ok((count, m)) => {
                        let t2 = Etmv4Tracer {
                            timestamp: merged_timestamp(t.timestamp, ts as u64, timestamp_bits(n)),
                            ..t
                        };
                        Ok(
                            Effect {
                                len: 1 + n + m,
                                tracer: t2,
                                events: seq![
                                    Event::Timestamp {
                                        timestamp: t2.timestamp,
                                        cycle_count: if have_cc {
                                            Some(count as u32)
                                        } else {
                                            None
                                        },
                                    },
                                ],
                            },
                        )
                    },
                }
            },
        }
    }
}

pub fn decode_timestamp(pkt_offset: usize, stream: &mut Stream) -> (r: Result<usize, DecodeError>)
    ensures
        packet_applied(
            timestamp_effect(old(stream).buff@, pkt_offset as int, old(stream).tracer),
            pkt_offset as int,
            r,
            *old(stream),
            *final(stream),
        ),
{
    if pkt_offset >= stream.buff.len() {
        return Err(DecodeError::Truncated);
    }
    let have_cc = stream.buff[pkt_offset] & 1 != 0;
    let (ts, n) = match read_timestamp_field(&stream.buff, pkt_offset + 1) {
        Ok(x) => x,
        Err(e) => {
            return Err(e);
        },
    };
    let mut count: u32 = 0;
    let mut m: usize = 0;
    if have_cc {
        let (c, len) = match read_count_field(&stream.buff, pkt_offset + 1 + n) {
            Ok(x) => x,
            Err(e) => {
                return Err(e);
            },
        };
        count = c;
        m = len;
    }
    let nr_replace: u32 = if n >= 9 {
        64
    } else {
        7 * n as u32
    };
    tracer_ts(&mut stream.tracer, &mut stream.events, ts, have_cc, count, nr_replace);
    Ok(1 + n + m)
}


/// The number of address bytes after the header of a long-address or
/// address-with-context packet: eight for the 64-bit forms, four otherwise.
pub open spec fn address_bytes_len(h: u8) -> nat {
    if h == 0x9d || h == 0x9e || h == 0x85 || h == 0x86 {
        8
    } else {
        4
    }
}

/// The instruction set of a long-address or address-with-context packet.
pub open spec fn address_is(h: u8) -> AddrReg {
    if h == 0x9a || h == 0x9d || h == 0x82 || h == 0x85 {
        AddrReg::AddrRegIs0
    } else {
        AddrReg::AddrRegIs1
    }
}

/// The address that the bytes at `p` of a long-address or
/// address-with-context packet with header `h` give, after `prev`. The
/// 32-bit forms keep the upper half of `prev`; IS0 addresses are
/// word-aligned, IS1 addresses half-word aligned.
pub open spec fn long_address_value(h: u8, prev: u64, s: Seq<u8>, p: int) -> u64 {
    if h == 0x9a || h == 0x82 {
        (prev & !0xffff_ffffu64) | (((s[p] & 0x7f) as u64) << 2u64) | (((s[p + 1] & 0x7f) as u64)
            << 9u64) | ((s[p + 2] as u64) << 16u64) | ((s[p + 3] as u64) << 24u64)
    } else if h == 0x9b || h == 0x83 {
        (prev & !0xffff_ffffu64) | (((s[p] & 0x7f) as u64) << 1u64) | ((s[p + 1] as u64) << 8u64)
            | ((s[p + 2] as u64) << 16u64) | ((s[p + 3] as u64) << 24u64)
    } else if h == 0x9d || h == 0x85 {
        (((s[p] & 0x7f) as u64) << 2u64) | (((s[p + 1] & 0x7f) as u64) << 9u64) | ((s[p + 2] as u64)
            << 16u64) | ((s[p + 3] as u64) << 24u64) | ((s[p + 4] as u64) << 32u64) | ((s[p
            + 5] as u64) << 40u64) | ((s[p + 6] as u64) << 48u64) | ((s[p + 7] as u64) << 56u64)
    } else {
        (((s[p] & 0x7f) as u64) << 1u64) | ((s[p + 1] as u64) << 8u64) | ((s[p + 2] as u64)
            << 16u64) | ((s[p + 3] as u64) << 24u64) | ((s[p + 4] as u64) << 32u64) | ((s[p
            + 5] as u64) << 40u64) | ((s[p + 6] as u64) << 48u64) | ((s[p + 7] as u64) << 56u64)
    }
}

fn read_long_address(buf: &Vec<u8>, p: usize, h: u8, prev: u64) -> (r: u64)
    requires
        h == 0x9a || h == 0x9b || h == 0x9d || h == 0x9e || h == 0x82 || h == 0x83 || h == 0x85
            || h == 0x86,
        p + address_bytes_len(h) <= buf.len(),
    ensures
        r == long_address_value(h, prev, buf@, p as int),
{
    if h == 0x9a || h == 0x82 {
        (prev & !0xffff_ffffu64) | (((buf[p] & 0x7f) as u64) << 2u64) | (((buf[p + 1] & 0x7f) as u64)
            << 9u64) | ((buf[p + 2] as u64) << 16u64) | ((buf[p + 3] as u64) << 24u64)
    } else if h == 0x9b || h == 0x83 {
        (prev & !0xffff_ffffu64) | (((buf[p] & 0x7f) as u64) << 1u64) | ((buf[p + 1] as u64) << 8u64)
            | ((buf[p + 2] as u64) << 16u64) | ((buf[p + 3] as u64) << 24u64)
    } else if h == 0x9d || h == 0x85 {
        (((buf[p] & 0x7f) as u64) << 2u64) | (((buf[p + 1] & 0x7f) as u64) << 9u64) | ((buf[p
            + 2] as u64) << 16u64) | ((buf[p + 3] as u64) << 24u64) | ((buf[p + 4] as u64) << 32u64)
            | ((buf[p + 5] as u64) << 40u64) | ((buf[p + 6] as u64) << 48u64) | ((buf[p
            + 7] as u64) << 56u64)
    } else {
        (((buf[p] & 0x7f) as u64) << 1u64) | ((buf[p + 1] as u64) << 8u64) | ((buf[p + 2] as u64)
            << 16u64) | ((buf[p + 3] as u64) << 24u64) | ((buf[p + 4] as u64) << 32u64) | ((buf[p
            + 5] as u64) << 40u64) | ((buf[p + 6] as u64) << 48u64) | ((buf[p + 7] as u64)
            << 56u64)
    }
}

/// `t` with `address` and `is` pushed onto its address history.
pub open spec fn address_pushed(t: Etmv4Tracer, address: u64, is: AddrReg) -> Etmv4Tracer {
    with_registers(t, pushed_registers(t.address_register, AddressRegister { address, is }))
}

/// The address of a short-address packet with header `h`, first payload
/// byte `b1` and, when `b1` has its top bit set, second payload byte `b2`,
/// after `prev`. The IS1 form combines its second byte with `&`, unlike the
/// IS0 form, which uses `|`; this is kept until checked against the
/// architecture definition.
pub open spec fn short_address_value(h: u8, prev: u64, b1: u8, b2: u8) -> u64 {
    if h == 0x95 {
        let a = (prev & !0x1ffu64) | (((b1 & 0x7f) as u64) << 2u64);
        if b1 & 0x80 != 0 {
            (a & !0x1fe00u64) | ((b2 as u64) << 9u64)
        } else {
            a
        }
    } else {
        let a = (prev & !0xffu64) | (((b1 & 0x7f) as u64) << 1u64);
        if b1 & 0x80 != 0 {
            (a & !0xff00u64) & ((b2 as u64) << 8u64)
        } else {
            a
        }
    }
}

/// A short-address packet (0x95 for IS0, 0x96 for IS1): one or two payload
/// bytes that replace the low bits of the most recent address.
pub open spec fn short_address_effect(s: Seq<u8>, pos: int, t: Etmv4Tracer) -> Result<Effect, DecodeError> {
    if pos < 0 || pos >= s.len() {
        Err(DecodeError::Truncated)
    } else if s[pos] != 0x95 && s[pos] != 0x96 {
        Err(DecodeError::UnexpectedHeader)
    } else if pos + 1 >= s.len() || (s[pos + 1] & 0x80 != 0 && pos + 2 >= s.len()) {
        Err(DecodeError::Truncated)
    } else {
        let two = s[pos + 1] & 0x80 != 0;
        let b2: u8 = if two {
            s[pos + 2]
        } else {
            0
        };
        let is = if s[pos] == 0x95 {
            AddrReg::AddrRegIs0
        } else {
            AddrReg::AddrRegIs1
        };
        let t2 = address_pushed(
            t,
            short_address_value(s[pos], t.address_register[0].address, s[pos + 1], b2),
            is,
        );
        Ok(
            Effect {
                len: if two {
                    3
                } else {
                    2
                },
                tracer: t2,
                events: seq![address_event(t2)],
            },
        )
    }
}

pub fn decode_short_address(pkt_offset: usize, stream: &mut Stream) -> (r: Result<usize, DecodeError>)
    ensures
        packet_applied(
            short_address_effect(old(stream).buff@, pkt_offset as int, old(stream).tracer),
            pkt_offset as int,
            r,
            *old(stream),
            *final(stream),
        ),
{
    let h = match byte_at(&stream.buff, pkt_offset, 0) {
        Ok(b) => b,
        Err(e) => {
            return Err(e);
        },
    };
    if h != 0x95 && h != 0x96 {
        return Err(DecodeError::UnexpectedHeader);
    }
    let b1 = match byte_at(&stream.buff, pkt_offset, 1) {
        Ok(b) => b,
        Err(e) => {
            return Err(e);
        },
    };
    let mut index: usize = 2;
    let mut b2: u8 = 0;
    if b1 & C_BIT != 0 {
        b2 = match byte_at(&stream.buff, pkt_offset, 2) {
            Ok(b) => b,
            Err(e) => {
                return Err(e);
            },
        };
        index = 3;
    }
    let prev = stream.tracer.address_register[0].address;
    let address = if h == 0x95 {
        let a = (prev & !0x1ffu64) | (((b1 & 0x7f) as u64) << 2u64);
        if b1 & 0x80 != 0 {
            (a & !0x1fe00u64) | ((b2 as u64) << 9u64)
        } else {
            a
        }
    } else {
        let a = (prev & !0xffu64) | (((b1 & 0x7f) as u64) << 1u64);
        if b1 & 0x80 != 0 {
            (a & !0xff00u64) & ((b2 as u64) << 8u64)
        } else {
            a
        }
    };
    let is = if h == 0x95 {
        AddrReg::AddrRegIs0
    } else {
        AddrReg::AddrRegIs1
    };
    update_address_regs(&mut stream.tracer, address, is);
    tracer_address(&stream.tracer, &mut stream.events);
    Ok(index)
}

/// A long-address packet: 0x9a / 0x9b carry a 32-bit address for IS0 /
/// IS1, 0x9d / 0x9e a 64-bit one.
pub open spec fn long_address_effect(s: Seq<u8>, pos: int, t: Etmv4Tracer) -> Result<Effect, DecodeError> {
    if pos < 0 || pos >= s.len() {
        Err(DecodeError::Truncated)
    } else if !(s[pos] == 0x9a || s[pos] == 0x9b || s[pos] == 0x9d || s[pos] == 0x9e) {
        Err(DecodeError::UnexpectedHeader)
    } else if pos + 1 + address_bytes_len(s[pos]) > s.len() {
        Err(DecodeError::Truncated)
    } else {
        let h = s[pos];
        let t2 = address_pushed(
            t,
            long_address_value(h, t.address_register[0].address, s, pos + 1),
            address_is(h),
        );
        Ok(Effect { len: 1 + address_bytes_len(h), tracer: t2, events: seq![address_event(t2)] })
    }
}

pub fn decode_long_address(pkt_offset: usize, stream: &mut Stream) -> (r: Result<usize, DecodeError>)
    ensures
        packet_applied(
            long_address_effect(old(stream).buff@, pkt_offset as int, old(stream).tracer),
            pkt_offset as int,
            r,
            *old(stream),
            *final(stream),
        ),
{
    let h = match byte_at(&stream.buff, pkt_offset, 0) {
        Ok(b) => b,
        Err(e) => {
            return Err(e);
        },
    };
    let nbytes: usize = match h {
        0x9a | 0x9b => 4,
        0x9d | 0x9e => 8,
        _ => {
            return Err(DecodeError::UnexpectedHeader);
        },
    };
    if stream.buff.len() - pkt_offset - 1 < nbytes {
        return Err(DecodeError::Truncated);
    }
    let prev = stream.tracer.address_register[0].address;
    let address = read_long_address(&stream.buff, pkt_offset + 1, h, prev);
    let is = if h == 0x9a || h == 0x9d {
        AddrReg::AddrRegIs0
    } else {
        AddrReg::AddrRegIs1
    };
    update_address_regs(&mut stream.tracer, address, is);
    tracer_address(&stream.tracer, &mut stream.events);
    Ok(1 + nbytes)
}

/// An exact-match packet (0x90 to 0x92): the address register named by
/// the header's low two bits becomes the most recent address again.
pub open spec fn exact_match_address_effect(s: Seq<u8>, pos: int, t: Etmv4Tracer) -> Result<Effect, DecodeError> {
    if pos < 0 || pos >= s.len() {
        Err(DecodeError::Truncated)
    } else if s[pos] & 0xfc != 0x90 {
        Err(DecodeError::UnexpectedHeader)
    } else if s[pos] & 0x03 == 3 {
        Err(DecodeError::InvalidExactMatchIndex)
    } else {
        let reg = t.address_register[(s[pos] & 0x03) as int];
        let t2 = address_pushed(t, reg.address, reg.is);
        Ok(Effect { len: 1, tracer: t2, events: seq![address_event(t2)] })
    }
}

pub fn decode_exact_match_address(pkt_offset: usize, stream: &mut Stream) -> (r: Result<usize, DecodeError>)
    ensures
        packet_applied(
            exact_match_address_effect(old(stream).buff@, pkt_offset as int, old(stream).tracer),
            pkt_offset as int,
            r,
            *old(stream),
            *final(stream),
        ),
{
    let h = match byte_at(&stream.buff, pkt_offset, 0) {
        Ok(b) => b,
        Err(e) => {
            return Err(e);
        },
    };
    if h & 0xfc != 0x90 {
        return Err(DecodeError::UnexpectedHeader);
    }
    let qe = (h & 0x03) as usize;
    assert(h & 0x03 <= 3) by (bit_vector);
    if qe == 3 {
        return Err(DecodeError::InvalidExactMatchIndex);
    }
    let reg = stream.tracer.address_register[qe];
    update_address_regs(&mut stream.tracer, reg.address, reg.is);
    tracer_address(&stream.tracer, &mut stream.events);
    Ok(1)
}

/// The fields of a context-information byte and the fields it announces.
#[derive(Clone, Copy, Debug, PartialEq, Eq, Structural)]
pub struct ContextInfo {
    pub el: u8,
    pub sf: u8,
    pub ns: u8,
    pub v: u8,
    pub vmid: u8,
    pub c: i32,
    pub contextid: u32,
}

/// A little-endian 32-bit value at `p`.
pub open spec fn le_u32(s: Seq<u8>, p: int) -> u32 {
    (s[p] as u32) | ((s[p + 1] as u32) << 8u32) | ((s[p + 2] as u32) << 16u32) | ((s[p
        + 3] as u32) << 24u32)
}

/// The length of the context information at `p`: the information byte,
/// one VMID byte when bit 6 is set, four context-ID bytes when bit 7 is set.
pub open spec fn context_info_len(d: u8) -> nat {
    1 + (if d & 0x40 != 0 {
        1nat
    } else {
        0nat
    }) + (if d & 0x80 != 0 {
        4nat
    } else {
        0nat
    })
}

/// The context information at `p`: exception level in bits 0-1, 64-bit
/// flag in bit 4, non-secure flag in bit 5, then the optional VMID and
/// context ID. Gives the fields and their length.
pub open spec fn context_info_spec(s: Seq<u8>, p: int) -> Result<(ContextInfo, nat), DecodeError> {
    if p < 0 || p >= s.len() || p + context_info_len(s[p]) > s.len() {
        Err(DecodeError::Truncated)
    } else {
        let d = s[p];
        let hv = d & 0x40 != 0;
        let hc = d & 0x80 != 0;
        let cp = if hv {
            p + 2
        } else {
            p + 1
        };
        Ok(
            (
                ContextInfo {
                    el: d & 0x3,
                    sf: (d & 0x10) >> 4u8,
                    ns: (d & 0x20) >> 5u8,
                    v: if hv {
                        1
                    } else {
                        0
                    },
                    vmid: if hv {
                        s[p + 1]
                    } else {
                        0
                    },
                    c: if hc {
                        1
                    } else {
                        0
                    },
                    contextid: if hc {
                        le_u32(s, cp)
                    } else {
                        0
                    },
                },
                context_info_len(d),
            ),
        )
    }
}

fn parse_context_info(buf: &Vec<u8>, p: usize) -> (r: Result<(ContextInfo, usize), DecodeError>)
    ensures
        match context_info_spec(buf@, p as int) {
            Ok((ci, n)) => r == Ok::<(ContextInfo, usize), DecodeError>((ci, n as usize)) && p + n
                <= buf@.len(),
            Err(e) => r == Err::<(ContextInfo, usize), DecodeError>(e),
        },
{
    if p >= buf.len() {
        return Err(DecodeError::Truncated);
    }
    let d = buf[p];
    let hv = d & 0x40 != 0;
    let hc = d & 0x80 != 0;
    let n: usize = 1 + (if hv {
        1
    } else {
        0
    }) + (if hc {
        4
    } else {
        0
    });
    if buf.len() - p < n {
        return Err(DecodeError::Truncated);
    }
    let cp = if hv {
        p + 2
    } else {
        p + 1
    };
    let ci = ContextInfo {
        el: d & 0x3,
        sf: (d & 0x10) >> 4u8,
        ns: (d & 0x20) >> 5u8,
        v: if hv {
            1
        } else {
            0
        },
        vmid: if hv {
            buf[p + 1]
        } else {
            0
        },
        c: if hc {
            1
        } else {
            0
        },
        contextid: if hc {
            (buf[cp] as u32) | ((buf[cp + 1] as u32) << 8u32) | ((buf[cp + 2] as u32) << 16u32) | ((
            buf[cp + 3] as u32) << 24u32)
        } else {
            0
        },
    };
    Ok((ci, n))
}

/// The tracer after context information `ci` is applied.
pub open spec fn context_info_applied(t: Etmv4Tracer, ci: ContextInfo) -> Etmv4Tracer {
    context_applied(t, 1, ci.el, ci.sf, ci.ns, ci.v, ci.vmid, ci.c, ci.contextid)
}

/// A context packet: when bit 0 of the header is clear the context is
/// unchanged and emitted again; otherwise context information follows.
pub open spec fn context_effect(s: Seq<u8>, pos: int, t: Etmv4Tracer) -> Result<Effect, DecodeError> {
    if pos < 0 || pos >= s.len() {
        Err(DecodeError::Truncated)
    } else if s[pos] & 1 == 0 {
        Ok(Effect { len: 1, tracer: t, events: seq![context_event(t)] })
    } else {
        match context_info_spec(s, pos + 1) {
            Err(e) => Err(e),
            Ok((ci, n)) => {
                let t2 = context_info_applied(t, ci);
                Ok(Effect { len: 1 + n, tracer: t2, events: seq![context_event(t2)] })
            },
        }
    }
}

pub fn decode_context(pkt_offset: usize, stream: &mut Stream) -> (r: Result<usize, DecodeError>)
    ensures
        packet_applied(
            context_effect(old(stream).buff@, pkt_offset as int, old(stream).tracer),
            pkt_offset as int,
            r,
            *old(stream),
            *final(stream),
        ),
{
    let h = match byte_at(&stream.buff, pkt_offset, 0) {
        Ok(b) => b,
        Err(e) => {
            return Err(e);
        },
    };
    if h & 1 == 0 {
        tracer_context(&mut stream.tracer, &mut stream.events, 0, 0, 0, 0, 0, 0, 0, 0);
        return Ok(1);
    }
    let (ci, n) = match parse_context_info(&stream.buff, pkt_offset + 1) {
        Ok(x) => x,
        Err(e) => {
            return Err(e);
        },
    };
    tracer_context(
        &mut stream.tracer,
        &mut stream.events,
        1,
        ci.el,
        ci.sf,
        ci.ns,
        ci.v,
        ci.vmid,
        ci.c,
        ci.contextid,
    );
    Ok(1 + n)
}

/// An address-with-context packet: a long address (0x82 / 0x83 32-bit,
/// 0x85 / 0x86 64-bit, for IS0 / IS1) followed by context information.
/// Emits the context, then the address.
pub open spec fn address_context_effect(s: Seq<u8>, pos: int, t: Etmv4Tracer) -> Result<Effect, DecodeError> {
    if pos < 0 || pos >= s.len() {
        Err(DecodeError::Truncated)
    } else if !(s[pos] == 0x82 || s[pos] == 0x83 || s[pos] == 0x85 || s[pos] == 0x86) {
        Err(DecodeError::UnexpectedHeader)
    } else if pos + 1 + address_bytes_len(s[pos]) > s.len() {
        Err(DecodeError::Truncated)
    } else {
        let h = s[pos];
        let nb = address_bytes_len(h);
        match context_info_spec(s, pos + 1 + nb) {
            Err(e) => Err(e),
            Ok((ci, n)) => {
                let t1 = address_pushed(
                    t,
                    long_address_value(h, t.address_register[0].address, s, pos + 1),
                    address_is(h),
                );
                let t2 = context_info_applied(t1, ci);
                Ok(
                    Effect {
                        len: 1 + nb + n,
                        tracer: t2,
                        events: seq![context_event(t2), address_event(t2)],
                    },
                )
            },
        }
    }
}

pub fn decode_address_context(pkt_offset: usize, stream: &mut Stream) -> (r: Result<usize, DecodeError>)
    ensures
        packet_applied(
            address_context_effect(old(stream).buff@, pkt_offset as int, old(stream).tracer),
            pkt_offset as int,
            r,
            *old(stream),
            *final(stream),
        ),
{
    let h = match byte_at(&stream.buff, pkt_offset, 0) {
        Ok(b) => b,
        Err(e) => {
            return Err(e);
        },
    };
    let nbytes: usize = match h {
        0x82 | 0x83 => 4,
        0x85 | 0x86 => 8,
        _ => {
            return Err(DecodeError::UnexpectedHeader);
        },
    };
    if stream.buff.len() - pkt_offset - 1 < nbytes {
        return Err(DecodeError::Truncated);
    }
    let (ci, n) = match parse_context_info(&stream.buff, pkt_offset + 1 + nbytes) {
        Ok(x) => x,
        Err(e) => {
            return Err(e);
        },
    };
    let prev = stream.tracer.address_register[0].address;
    let address = read_long_address(&stream.buff, pkt_offset + 1, h, prev);
    let is = if h == 0x82 || h == 0x85 {
        AddrReg::AddrRegIs0
    } else {
        AddrReg::AddrRegIs1
    };
    update_address_regs(&mut stream.tracer, address, is);
    tracer_context(
        &mut stream.tracer,
        &mut stream.events,
        1,
        ci.el,
        ci.sf,
        ci.ns,
        ci.v,
        ci.vmid,
        ci.c,
        ci.contextid,
    );
    tracer_address(&stream.tracer, &mut stream.events);
    Ok(1 + nbytes + n)
}


/// The address-class packet that header `h` starts, if any.
pub open spec fn address_packet_kind(h: u8) -> Option<PacketKind> {
    if h == 0x95 || h == 0x96 {
        Some(PacketKind::ShortAddress)
    } else if h == 0x9a || h == 0x9b || h == 0x9d || h == 0x9e {
        Some(PacketKind::LongAddress)
    } else if h & 0xfc == 0x90 {
        Some(PacketKind::ExactMatchAddress)
    } else if h == 0x82 || h == 0x83 || h == 0x85 || h == 0x86 {
        Some(PacketKind::AddressContext)
    } else {
        None
    }
}

fn address_kind_of(h: u8) -> (r: Option<PacketKind>)
    ensures
        r == address_packet_kind(h),
{
    if h == 0x95 || h == 0x96 {
        Some(PacketKind::ShortAddress)
    } else if h == 0x9a || h == 0x9b || h == 0x9d || h == 0x9e {
        Some(PacketKind::LongAddress)
    } else if h & 0xfc == 0x90 {
        Some(PacketKind::ExactMatchAddress)
    } else if h == 0x82 || h == 0x83 || h == 0x85 || h == 0x86 {
        Some(PacketKind::AddressContext)
    } else {
        None
    }
}

/// The effect of an address-class packet of the given kind.
pub open spec fn address_effect(kind: PacketKind, s: Seq<u8>, pos: int, t: Etmv4Tracer) -> Result<Effect, DecodeError> {
    match kind {
        PacketKind::ShortAddress => short_address_effect(s, pos, t),
        PacketKind::LongAddress => long_address_effect(s, pos, t),
        PacketKind::ExactMatchAddress => exact_match_address_effect(s, pos, t),
        PacketKind::AddressContext => address_context_effect(s, pos, t),
        _ => Err(DecodeError::UnexpectedHeader),
    }
}

fn decode_address_packet(kind: PacketKind, pkt_offset: usize, stream: &mut Stream) -> (r: Result<usize, DecodeError>)
    ensures
        packet_applied(
            address_effect(kind, old(stream).buff@, pkt_offset as int, old(stream).tracer),
            pkt_offset as int,
            r,
            *old(stream),
            *final(stream),
        ),
{
    match kind {
        PacketKind::ShortAddress => decode_short_address(pkt_offset, stream),
        PacketKind::LongAddress => decode_long_address(pkt_offset, stream),
        PacketKind::ExactMatchAddress => decode_exact_match_address(pkt_offset, stream),
        PacketKind::AddressContext => decode_address_context(pkt_offset, stream),
        _ => Err(DecodeError::UnexpectedHeader),
    }
}

/// The EE field of an exception packet, from bits 6 and 0 of its first payload byte.
pub open spec fn exception_ee(d1: u8) -> u8 {
    ((d1 & 0x40) >> 5u8) | (d1 & 0x01)
}

/// The exception type of an exception packet, from bits 1-5 of its first
/// payload byte and bits 0-4 of its second (zero when absent).
pub open spec fn exception_type(d1: u8, d2: u8) -> u32 {
    (((d1 & 0x3e) >> 1u8) | (d2 & 0x1f)) as u32
}

/// An exception packet. Bit 0 of the header marks an exception return.
/// Otherwise one or two payload bytes give the EE field and the type: EE 1
/// means no address follows, EE 2 that an address-class packet follows and
/// is decoded first; any other EE is invalid. The exception is then a P0
/// element taken at the most recent address.
pub open spec fn exception_effect(s: Seq<u8>, pos: int, t: Etmv4Tracer) -> Result<Effect, DecodeError> {
    if pos < 0 || pos >= s.len() {
        Err(DecodeError::Truncated)
    } else if s[pos] & 1 != 0 {
        Ok(Effect { len: 1, tracer: t, events: seq![Event::ExceptionReturn] })
    } else if pos + 1 >= s.len() || (s[pos + 1] & 0x80 != 0 && pos + 2 >= s.len()) {
        Err(DecodeError::Truncated)
    } else {
        let d1 = s[pos + 1];
        let two = d1 & 0x80 != 0;
        let d2: u8 = if two {
            s[pos + 2]
        } else {
            0
        };
        let idx: nat = if two {
            3
        } else {
            2
        };
        let ee = exception_ee(d1);
        let tp = exception_type(d1, d2);
        if ee != 1 && ee != 2 {
            Err(DecodeError::InvalidExceptionEe)
        } else if ee == 1 {
            Ok(Effect { len: idx, tracer: after_p0_element(t), events: exception_events(t, tp) })
        } else if pos + idx >= s.len() {
            Err(DecodeError::Truncated)
        } else {
            match address_packet_kind(s[pos + idx]) {
                None => Err(DecodeError::InvalidAddressInException),
                Some(k) => match address_effect(k, s, pos + idx, t) {
                    Err(_) => Err(DecodeError::InvalidAddressInException),
                    Ok(a) => Ok(
                        Effect {
                            len: idx + a.len,
                            tracer: after_p0_element(a.tracer),
                            events: a.events + exception_events(a.tracer, tp),
                        },
                    ),
                },
            }
        }
    }
}

pub fn decode_exception(pkt_offset: usize, stream: &mut Stream) -> (r: Result<usize, DecodeError>)
    ensures
        packet_applied(
            exception_effect(old(stream).buff@, pkt_offset as int, old(stream).tracer),
            pkt_offset as int,
            r,
            *old(stream),
            *final(stream),
        ),
{
    let h = match byte_at(&stream.buff, pkt_offset, 0) {
        Ok(b) => b,
        Err(e) => {
            return Err(e);
        },
    };
    if h & 1 != 0 {
        tracer_exception_return(&stream.tracer, &mut stream.events);
        return Ok(1);
    }
    let d1 = match byte_at(&stream.buff, pkt_offset, 1) {
        Ok(b) => b,
        Err(e) => {
            return Err(e);
        },
    };
    let mut index: usize = 2;
    let mut d2: u8 = 0;
    if d1 & C_BIT != 0 {
        d2 = match byte_at(&stream.buff, pkt_offset, 2) {
            Ok(b) => b,
            Err(e) => {
                return Err(e);
            },
        };
        index = 3;
    }
    let ee = ((d1 & 0x40) >> 5u8) | (d1 & 0x01);
    let tp = (((d1 & 0x3e) >> 1u8) | (d2 & 0x1f)) as u32;
    if ee != 1 && ee != 2 {
        return Err(DecodeError::InvalidExceptionEe);
    }
    if ee == 2 {
        let a = match byte_at(&stream.buff, pkt_offset, index) {
            Ok(b) => b,
            Err(e) => {
                return Err(e);
            },
        };
        let kind = match address_kind_of(a) {
            Some(k) => k,
            None => {
                return Err(DecodeError::InvalidAddressInException);
            },
        };
        match decode_address_packet(kind, pkt_offset + index, stream) {
            Ok(n) => {
                index = index + n;
            },
            Err(_) => {
                return Err(DecodeError::InvalidAddressInException);
            },
        }
    }
    tracer_exception(&mut stream.tracer, &mut stream.events, tp);
    Ok(index)
}

pub open spec fn atom_of(executed: bool) -> AtomType {
    if executed {
        AtomType::AtomTypeE
    } else {
        AtomType::AtomTypeN
    }
}

/// The atoms that an atom packet of format `kind` with header `h` carries.
/// Formats 1 to 3 give one to three atoms from the header's low bits, E for
/// a set bit; formats 4 and 5 select one of a few fixed patterns.
pub open spec fn atom_pattern(kind: PacketKind, h: u8) -> Seq<AtomType> {
    let e = AtomType::AtomTypeE;
    let n = AtomType::AtomTypeN;
    match kind {
        PacketKind::AtomFormat1 => seq![atom_of(h & 1 != 0)],
        PacketKind::AtomFormat2 => seq![atom_of(h & 1 != 0), atom_of(h & 2 != 0)],
        PacketKind::AtomFormat3 => seq![atom_of(h & 1 != 0), atom_of(h & 2 != 0), atom_of(h & 4 != 0)],
        PacketKind::AtomFormat4 => if h & 3 == 0 {
            seq![n, e, e, e]
        } else if h & 3 == 1 {
            seq![n, n, n, n]
        } else if h & 3 == 2 {
            seq![n, e, n, e]
        } else {
            seq![e, n, e, n]
        },
        _ => {
            let abc = ((h >> 3u8) & 0x04) | (h & 0x3);
            if abc == 5 {
                seq![n, e, e, e, e]
            } else if abc == 1 {
                seq![n, n, n, n, n]
            } else if abc == 2 {
                seq![n, e, n, e, n]
            } else if abc == 3 {
                seq![e, n, e, n, e]
            } else {
                seq![]
            }
        },
    }
}

fn atom_pattern_of(kind: PacketKind, h: u8) -> (r: Vec<AtomType>)
    ensures
        r@ == atom_pattern(kind, h),
{
    let e = AtomType::AtomTypeE;
    let n = AtomType::AtomTypeN;
    let bit0 = if h & 1 != 0 { e } else { n };
    let bit1 = if h & 2 != 0 { e } else { n };
    let bit2 = if h & 4 != 0 { e } else { n };
    let r = match kind {
        PacketKind::AtomFormat1 => vec![bit0],
        PacketKind::AtomFormat2 => vec![bit0, bit1],
        PacketKind::AtomFormat3 => vec![bit0, bit1, bit2],
        PacketKind::AtomFormat4 => if h & 3 == 0 {
            vec![n, e, e, e]
        } else if h & 3 == 1 {
            vec![n, n, n, n]
        } else if h & 3 == 2 {
            vec![n, e, n, e]
        } else {
            vec![e, n, e, n]
        },
        _ => {
            let abc = ((h >> 3u8) & 0x04) | (h & 0x3);
            if abc == 5 {
                vec![n, e, e, e, e]
            } else if abc == 1 {
                vec![n, n, n, n, n]
            } else if abc == 2 {
                vec![n, e, n, e, n]
            } else if abc == 3 {
                vec![e, n, e, n, e]
            } else {
                Vec::new()
            }
        },
    };
    assert(r@ =~= atom_pattern(kind, h));
    r
}

/// An atom packet: each of its atoms is traced in order; the packet is its header alone.
pub open spec fn atom_effect(kind: PacketKind, s: Seq<u8>, pos: int, t: Etmv4Tracer) -> Result<Effect, DecodeError> {
    if pos < 0 || pos >= s.len() {
        Err(DecodeError::Truncated)
    } else {
        let atoms = atom_pattern(kind, s[pos]);
        Ok(
            Effect {
                len: 1,
                tracer: after_p0_elements(t, atoms.len()),
                events: atom_run_events(t, atoms),
            },
        )
    }
}

fn decode_atoms(kind: PacketKind, pkt_offset: usize, stream: &mut Stream) -> (r: Result<usize, DecodeError>)
    ensures
        packet_applied(
            atom_effect(kind, old(stream).buff@, pkt_offset as int, old(stream).tracer),
            pkt_offset as int,
            r,
            *old(stream),
            *final(stream),
        ),
{
    let h = match byte_at(&stream.buff, pkt_offset, 0) {
        Ok(b) => b,
        Err(e) => {
            return Err(e);
        },
    };
    let atoms = atom_pattern_of(kind, h);
    tracer_atoms(&mut stream.tracer, &mut stream.events, &atoms);
    Ok(1)
}

pub fn decode_atom_format_1(pkt_offset: usize, stream: &mut Stream) -> (r: Result<usize, DecodeError>)
    ensures
        packet_applied(
            atom_effect(PacketKind::AtomFormat1, old(stream).buff@, pkt_offset as int, old(stream).tracer),
            pkt_offset as int,
            r,
            *old(stream),
            *final(stream),
        ),
{
    decode_atoms(PacketKind::AtomFormat1, pkt_offset, stream)
}

pub fn decode_atom_format_2(pkt_offset: usize, stream: &mut Stream) -> (r: Result<usize, DecodeError>)
    ensures
        packet_applied(
            atom_effect(PacketKind::AtomFormat2, old(stream).buff@, pkt_offset as int, old(stream).tracer),
            pkt_offset as int,
            r,
            *old(stream),
            *final(stream),
        ),
{
    decode_atoms(PacketKind::AtomFormat2, pkt_offset, stream)
}

pub fn decode_atom_format_3(pkt_offset: usize, stream: &mut Stream) -> (r: Result<usize, DecodeError>)
    ensures
        packet_applied(
            atom_effect(PacketKind::AtomFormat3, old(stream).buff@, pkt_offset as int, old(stream).tracer),
            pkt_offset as int,
            r,
            *old(stream),
            *final(stream),
        ),
{
    decode_atoms(PacketKind::AtomFormat3, pkt_offset, stream)
}

pub fn decode_atom_format_4(pkt_offset: usize, stream: &mut Stream) -> (r: Result<usize, DecodeError>)
    ensures
        packet_applied(
            atom_effect(PacketKind::AtomFormat4, old(stream).buff@, pkt_offset as int, old(stream).tracer),
            pkt_offset as int,
            r,
            *old(stream),
            *final(stream),
        ),
{
    decode_atoms(PacketKind::AtomFormat4, pkt_offset, stream)
}

pub fn decode_atom_format_5(pkt_offset: usize, stream: &mut Stream) -> (r: Result<usize, DecodeError>)
    ensures
        packet_applied(
            atom_effect(PacketKind::AtomFormat5, old(stream).buff@, pkt_offset as int, old(stream).tracer),
            pkt_offset as int,
            r,
            *old(stream),
            *final(stream),
        ),
{
    decode_atoms(PacketKind::AtomFormat5, pkt_offset, stream)
}

/// The packet classes that are recognised but not decoded: their handlers
/// fail at once and change nothing, so the caller's recovery applies.
pub open spec fn unsupported_effect() -> Result<Effect, DecodeError> {
    Err(DecodeError::Unsupported)
}

pub fn decode_cc_format_1(pkt_offset: usize, stream: &mut Stream) -> (r: Result<usize, DecodeError>)
    ensures
        packet_applied(unsupported_effect(), pkt_offset as int, r, *old(stream), *final(stream)),
{
    Err(DecodeError::Unsupported)
}

pub fn decode_cc_format_2(pkt_offset: usize, stream: &mut Stream) -> (r: Result<usize, DecodeError>)
    ensures
        packet_applied(unsupported_effect(), pkt_offset as int, r, *old(stream), *final(stream)),
{
    Err(DecodeError::Unsupported)
}

pub fn decode_cc_format_3(pkt_offset: usize, stream: &mut Stream) -> (r: Result<usize, DecodeError>)
    ensures
        packet_applied(unsupported_effect(), pkt_offset as int, r, *old(stream), *final(stream)),
{
    Err(DecodeError::Unsupported)
}

pub fn decode_data_sync_marker(pkt_offset: usize, stream: &mut Stream) -> (r: Result<usize, DecodeError>)
    ensures
        packet_applied(unsupported_effect(), pkt_offset as int, r, *old(stream), *final(stream)),
{
    Err(DecodeError::Unsupported)
}

pub fn decode_commit(pkt_offset: usize, stream: &mut Stream) -> (r: Result<usize, DecodeError>)
    ensures
        packet_applied(unsupported_effect(), pkt_offset as int, r, *old(stream), *final(stream)),
{
    Err(DecodeError::Unsupported)
}

pub fn decode_cancel(pkt_offset: usize, stream: &mut Stream) -> (r: Result<usize, DecodeError>)
    ensures
        packet_applied(unsupported_effect(), pkt_offset as int, r, *old(stream), *final(stream)),
{
    Err(DecodeError::Unsupported)
}

pub fn decode_mispredict(pkt_offset: usize, stream: &mut Stream) -> (r: Result<usize, DecodeError>)
    ensures
        packet_applied(unsupported_effect(), pkt_offset as int, r, *old(stream), *final(stream)),
{
    Err(DecodeError::Unsupported)
}

pub fn decode_cond_inst_format_1(pkt_offset: usize, stream: &mut Stream) -> (r: Result<usize, DecodeError>)
    ensures
        packet_applied(unsupported_effect(), pkt_offset as int, r, *old(stream), *final(stream)),
{
    Err(DecodeError::Unsupported)
}

pub fn decode_cond_inst_format_2(pkt_offset: usize, stream: &mut Stream) -> (r: Result<usize, DecodeError>)
    ensures
        packet_applied(unsupported_effect(), pkt_offset as int, r, *old(stream), *final(stream)),
{
    Err(DecodeError::Unsupported)
}

pub fn decode_cond_inst_format_3(pkt_offset: usize, stream: &mut Stream) -> (r: Result<usize, DecodeError>)
    ensures
        packet_applied(unsupported_effect(), pkt_offset as int, r, *old(stream), *final(stream)),
{
    Err(DecodeError::Unsupported)
}

pub fn decode_cond_flush(pkt_offset: usize, stream: &mut Stream) -> (r: Result<usize, DecodeError>)
    ensures
        packet_applied(unsupported_effect(), pkt_offset as int, r, *old(stream), *final(stream)),
{
    Err(DecodeError::Unsupported)
}

pub fn decode_cond_result_format_1(pkt_offset: usize, stream: &mut Stream) -> (r: Result<usize, DecodeError>)
    ensures
        packet_applied(unsupported_effect(), pkt_offset as int, r, *old(stream), *final(stream)),
{
    Err(DecodeError::Unsupported)
}

pub fn decode_cond_result_format_2(pkt_offset: usize, stream: &mut Stream) -> (r: Result<usize, DecodeError>)
    ensures
        packet_applied(unsupported_effect(), pkt_offset as int, r, *old(stream), *final(stream)),
{
    Err(DecodeError::Unsupported)
}

pub fn decode_cond_result_format_3(pkt_offset: usize, stream: &mut Stream) -> (r: Result<usize, DecodeError>)
    ensures
        packet_applied(unsupported_effect(), pkt_offset as int, r, *old(stream), *final(stream)),
{
    Err(DecodeError::Unsupported)
}

pub fn decode_cond_result_format_4(pkt_offset: usize, stream: &mut Stream) -> (r: Result<usize, DecodeError>)
    ensures
        packet_applied(unsupported_effect(), pkt_offset as int, r, *old(stream), *final(stream)),
{
    Err(DecodeError::Unsupported)
}

pub fn decode_event(pkt_offset: usize, stream: &mut Stream) -> (r: Result<usize, DecodeError>)
    ensures
        packet_applied(unsupported_effect(), pkt_offset as int, r, *old(stream), *final(stream)),
{
    Err(DecodeError::Unsupported)
}

pub fn decode_atom_format_6(pkt_offset: usize, stream: &mut Stream) -> (r: Result<usize, DecodeError>)
    ensures
        packet_applied(unsupported_effect(), pkt_offset as int, r, *old(stream), *final(stream)),
{
    Err(DecodeError::Unsupported)
}

pub fn decode_q(pkt_offset: usize, stream: &mut Stream) -> (r: Result<usize, DecodeError>)
    ensures
        packet_applied(unsupported_effect(), pkt_offset as int, r, *old(stream), *final(stream)),
{
    Err(DecodeError::Unsupported)
}


fn same_bytes(a: &str, b: &str) -> (r: bool)
    ensures
        r == (a.spec_bytes() == b.spec_bytes()),
{
    let x = a.as_bytes();
    let y = b.as_bytes();
    if x.len() != y.len() {
        return false;
    }
    let mut i: usize = 0;
    while i < x.len()
        invariant
            x@ == a.spec_bytes(),
            y@ == b.spec_bytes(),
            x@.len() == y@.len(),
            i <= x@.len(),
            forall|j: int| 0 <= j < i ==> x@[j] == y@[j],
        decreases x@.len() - i,
    {
        if x[i] != y[i] {
            assert(x@[i as int] != y@[i as int]);
            return false;
        }
        i = i + 1;
    }
    assert(x@ =~= y@);
    true
}

/// The handler of the table entry with the given name.
pub open spec fn kind_named(name: Seq<u8>) -> Option<PacketKind> {
    if name == "extension".spec_bytes() {
        Some(PacketKind::Extension)
    } else if name == "trace_info".spec_bytes() {
        Some(PacketKind::TraceInfo)
    } else if name == "trace_on".spec_bytes() {
        Some(PacketKind::TraceOn)
    } else if name == "timestamp".spec_bytes() {
        Some(PacketKind::Timestamp)
    } else if name == "exception".spec_bytes() {
        Some(PacketKind::Exception)
    } else if name == "cc_format_1".spec_bytes() {
        Some(PacketKind::CcFormat1)
    } else if name == "cc_format_2".spec_bytes() {
        Some(PacketKind::CcFormat2)
    } else if name == "cc_format_3".spec_bytes() {
        Some(PacketKind::CcFormat3)
    } else if name == "data_sync_marker".spec_bytes() {
        Some(PacketKind::DataSyncMarker)
    } else if name == "commit".spec_bytes() {
        Some(PacketKind::Commit)
    } else if name == "cancel_format_1".spec_bytes() {
        Some(PacketKind::Cancel)
    } else if name == "cancel_format_2".spec_bytes() {
        Some(PacketKind::Cancel)
    } else if name == "cancel_format_3".spec_bytes() {
        Some(PacketKind::Cancel)
    } else if name == "mispredict".spec_bytes() {
        Some(PacketKind::Mispredict)
    } else if name == "cond_inst_format_1".spec_bytes() {
        Some(PacketKind::CondInstFormat1)
    } else if name == "cond_inst_format_2".spec_bytes() {
        Some(PacketKind::CondInstFormat2)
    } else if name == "cond_inst_format_3".spec_bytes() {
        Some(PacketKind::CondInstFormat3)
    } else if name == "cond_flush".spec_bytes() {
        Some(PacketKind::CondFlush)
    } else if name == "cond_result_format_1".spec_bytes() {
        Some(PacketKind::CondResultFormat1)
    } else if name == "cond_result_format_2".spec_bytes() {
        Some(PacketKind::CondResultFormat2)
    } else if name == "cond_result_format_3".spec_bytes() {
        Some(PacketKind::CondResultFormat3)
    } else if name == "cond_result_format_4".spec_bytes() {
        Some(PacketKind::CondResultFormat4)
    } else if name == "event".spec_bytes() {
        Some(PacketKind::Event)
    } else if name == "short_address_is0".spec_bytes() {
        Some(PacketKind::ShortAddress)
    } else if name == "short_address_is1".spec_bytes() {
        Some(PacketKind::ShortAddress)
    } else if name == "long_address_32bit_is0".spec_bytes() {
        Some(PacketKind::LongAddress)
    } else if name == "long_address_32bit_is1".spec_bytes() {
        Some(PacketKind::LongAddress)
    } else if name == "long_address_64bit_is0".spec_bytes() {
        Some(PacketKind::LongAddress)
    } else if name == "long_address_64bit_is1".spec_bytes() {
        Some(PacketKind::LongAddress)
    } else if name == "exact_match_address".spec_bytes() {
        Some(PacketKind::ExactMatchAddress)
    } else if name == "context".spec_bytes() {
        Some(PacketKind::Context)
    } else if name == "address_context_32bit_is0".spec_bytes() {
        Some(PacketKind::AddressContext)
    } else if name == "address_context_32bit_is1".spec_bytes() {
        Some(PacketKind::AddressContext)
    } else if name == "address_context_64bit_is0".spec_bytes() {
        Some(PacketKind::AddressContext)
    } else if name == "address_context_64bit_is1".spec_bytes() {
        Some(PacketKind::AddressContext)
    } else if name == "atom_format_1".spec_bytes() {
        Some(PacketKind::AtomFormat1)
    } else if name == "atom_format_2".spec_bytes() {
        Some(PacketKind::AtomFormat2)
    } else if name == "atom_format_3".spec_bytes() {
        Some(PacketKind::AtomFormat3)
    } else if name == "atom_format_4".spec_bytes() {
        Some(PacketKind::AtomFormat4)
    } else if name == "atom_format_5_1".spec_bytes() {
        Some(PacketKind::AtomFormat5)
    } else if name == "atom_format_5_2".spec_bytes() {
        Some(PacketKind::AtomFormat5)
    } else if name == "atom_format_5_3".spec_bytes() {
        Some(PacketKind::AtomFormat5)
    } else if name == "atom_format_5_4".spec_bytes() {
        Some(PacketKind::AtomFormat5)
    } else if name == "atom_format_6_1".spec_bytes() {
        Some(PacketKind::AtomFormat6)
    } else if name == "atom_format_6_2".spec_bytes() {
        Some(PacketKind::AtomFormat6)
    } else if name == "atom_format_6_3".spec_bytes() {
        Some(PacketKind::AtomFormat6)
    } else if name == "atom_format_6_4".spec_bytes() {
        Some(PacketKind::AtomFormat6)
    } else if name == "atom_format_6_5".spec_bytes() {
        Some(PacketKind::AtomFormat6)
    } else if name == "atom_format_6_6".spec_bytes() {
        Some(PacketKind::AtomFormat6)
    } else if name == "atom_format_6_7".spec_bytes() {
        Some(PacketKind::AtomFormat6)
    } else if name == "atom_format_6_8".spec_bytes() {
        Some(PacketKind::AtomFormat6)
    } else if name == "atom_format_6_9".spec_bytes() {
        Some(PacketKind::AtomFormat6)
    } else if name == "atom_format_6_10".spec_bytes() {
        Some(PacketKind::AtomFormat6)
    } else if name == "atom_format_6_11".spec_bytes() {
        Some(PacketKind::AtomFormat6)
    } else if name == "atom_format_6_12".spec_bytes() {
        Some(PacketKind::AtomFormat6)
    } else if name == "q".spec_bytes() {
        Some(PacketKind::Q)
    } else {
        None
    }
}

pub fn get_decode_func(pkt_name: &str) -> (r: Option<PacketKind>)
    ensures
        r == kind_named(pkt_name.spec_bytes()),
{
    if same_bytes(pkt_name, "extension") {
        Some(PacketKind::Extension)
    } else if same_bytes(pkt_name, "trace_info") {
        Some(PacketKind::TraceInfo)
    } else if same_bytes(pkt_name, "trace_on") {
        Some(PacketKind::TraceOn)
    } else if same_bytes(pkt_name, "timestamp") {
        Some(PacketKind::Timestamp)
    } else if same_bytes(pkt_name, "exception") {
        Some(PacketKind::Exception)
    } else if same_bytes(pkt_name, "cc_format_1") {
        Some(PacketKind::CcFormat1)
    } else if same_bytes(pkt_name, "cc_format_2") {
        Some(PacketKind::CcFormat2)
    } else if same_bytes(pkt_name, "cc_format_3") {
        Some(PacketKind::CcFormat3)
    } else if same_bytes(pkt_name, "data_sync_marker") {
        Some(PacketKind::DataSyncMarker)
    } else if same_bytes(pkt_name, "commit") {
        Some(PacketKind::Commit)
    } else if same_bytes(pkt_name, "cancel_format_1") {
        Some(PacketKind::Cancel)
    } else if same_bytes(pkt_name, "cancel_format_2") {
        Some(PacketKind::Cancel)
    } else if same_bytes(pkt_name, "cancel_format_3") {
        Some(PacketKind::Cancel)
    } else if same_bytes(pkt_name, "mispredict") {
        Some(PacketKind::Mispredict)
    } else if same_bytes(pkt_name, "cond_inst_format_1") {
        Some(PacketKind::CondInstFormat1)
    } else if same_bytes(pkt_name, "cond_inst_format_2") {
        Some(PacketKind::CondInstFormat2)
    } else if same_bytes(pkt_name, "cond_inst_format_3") {
        Some(PacketKind::CondInstFormat3)
    } else if same_bytes(pkt_name, "cond_flush") {
        Some(PacketKind::CondFlush)
    } else if same_bytes(pkt_name, "cond_result_format_1") {
        Some(PacketKind::CondResultFormat1)
    } else if same_bytes(pkt_name, "cond_result_format_2") {
        Some(PacketKind::CondResultFormat2)
    } else if same_bytes(pkt_name, "cond_result_format_3") {
        Some(PacketKind::CondResultFormat3)
    } else if same_bytes(pkt_name, "cond_result_format_4") {
        Some(PacketKind::CondResultFormat4)
    } else if same_bytes(pkt_name, "event") {
        Some(PacketKind::Event)
    } else if same_bytes(pkt_name, "short_address_is0") {
        Some(PacketKind::ShortAddress)
    } else if same_bytes(pkt_name, "short_address_is1") {
        Some(PacketKind::ShortAddress)
    } else if same_bytes(pkt_name, "long_address_32bit_is0") {
        Some(PacketKind::LongAddress)
    } else if same_bytes(pkt_name, "long_address_32bit_is1") {
        Some(PacketKind::LongAddress)
    } else if same_bytes(pkt_name, "long_address_64bit_is0") {
        Some(PacketKind::LongAddress)
    } else if same_bytes(pkt_name, "long_address_64bit_is1") {
        Some(PacketKind::LongAddress)
    } else if same_bytes(pkt_name, "exact_match_address") {
        Some(PacketKind::ExactMatchAddress)
    } else if same_bytes(pkt_name, "context") {
        Some(PacketKind::Context)
    } else if same_bytes(pkt_name, "address_context_32bit_is0") {
        Some(PacketKind::AddressContext)
    } else if same_bytes(pkt_name, "address_context_32bit_is1") {
        Some(PacketKind::AddressContext)
    } else if same_bytes(pkt_name, "address_context_64bit_is0") {
        Some(PacketKind::AddressContext)
    } else if same_bytes(pkt_name, "address_context_64bit_is1") {
        Some(PacketKind::AddressContext)
    } else if same_bytes(pkt_name, "atom_format_1") {
        Some(PacketKind::AtomFormat1)
    } else if same_bytes(pkt_name, "atom_format_2") {
        Some(PacketKind::AtomFormat2)
    } else if same_bytes(pkt_name, "atom_format_3") {
        Some(PacketKind::AtomFormat3)
    } else if same_bytes(pkt_name, "atom_format_4") {
        Some(PacketKind::AtomFormat4)
    } else if same_bytes(pkt_name, "atom_format_5_1") {
        Some(PacketKind::AtomFormat5)
    } else if same_bytes(pkt_name, "atom_format_5_2") {
        Some(PacketKind::AtomFormat5)
    } else if same_bytes(pkt_name, "atom_format_5_3") {
        Some(PacketKind::AtomFormat5)
    } else if same_bytes(pkt_name, "atom_format_5_4") {
        Some(PacketKind::AtomFormat5)
    } else if same_bytes(pkt_name, "atom_format_6_1") {
        Some(PacketKind::AtomFormat6)
    } else if same_bytes(pkt_name, "atom_format_6_2") {
        Some(PacketKind::AtomFormat6)
    } else if same_bytes(pkt_name, "atom_format_6_3") {
        Some(PacketKind::AtomFormat6)
    } else if same_bytes(pkt_name, "atom_format_6_4") {
        Some(PacketKind::AtomFormat6)
    } else if same_bytes(pkt_name, "atom_format_6_5") {
        Some(PacketKind::AtomFormat6)
    } else if same_bytes(pkt_name, "atom_format_6_6") {
        Some(PacketKind::AtomFormat6)
    } else if same_bytes(pkt_name, "atom_format_6_7") {
        Some(PacketKind::AtomFormat6)
    } else if same_bytes(pkt_name, "atom_format_6_8") {
        Some(PacketKind::AtomFormat6)
    } else if same_bytes(pkt_name, "atom_format_6_9") {
        Some(PacketKind::AtomFormat6)
    } else if same_bytes(pkt_name, "atom_format_6_10") {
        Some(PacketKind::AtomFormat6)
    } else if same_bytes(pkt_name, "atom_format_6_11") {
        Some(PacketKind::AtomFormat6)
    } else if same_bytes(pkt_name, "atom_format_6_12") {
        Some(PacketKind::AtomFormat6)
    } else if same_bytes(pkt_name, "q") {
        Some(PacketKind::Q)
    } else {
        None
    }
}

/// The effect of a packet of the given kind with its header at `pos`, in a
/// stream in state `state` whose tracer is `t`.
#[verifier::opaque]
pub open spec fn packet_effect(kind: PacketKind, s: Seq<u8>, pos: int, state: State, t: Etmv4Tracer) -> Result<Effect, DecodeError> {
    match kind {
        PacketKind::Extension => extension_effect(s, pos, t),
        PacketKind::TraceInfo => trace_info_effect(s, pos, state, t),
        PacketKind::TraceOn => trace_on_effect(s, pos, t),
        PacketKind::Timestamp => timestamp_effect(s, pos, t),
        PacketKind::Exception => exception_effect(s, pos, t),
        PacketKind::ShortAddress => short_address_effect(s, pos, t),
        PacketKind::LongAddress => long_address_effect(s, pos, t),
        PacketKind::ExactMatchAddress => exact_match_address_effect(s, pos, t),
        PacketKind::Context => context_effect(s, pos, t),
        PacketKind::AddressContext => address_context_effect(s, pos, t),
        PacketKind::AtomFormat1 => atom_effect(kind, s, pos, t),
        PacketKind::AtomFormat2 => atom_effect(kind, s, pos, t),
        PacketKind::AtomFormat3 => atom_effect(kind, s, pos, t),
        PacketKind::AtomFormat4 => atom_effect(kind, s, pos, t),
        PacketKind::AtomFormat5 => atom_effect(kind, s, pos, t),
        _ => unsupported_effect(),
    }
}

proof fn lemma_trace_info_bounds(s: Seq<u8>, pos: int)
    ensures
        trace_info_spec(s, pos) matches Ok((f, n)) ==> pos + n <= s.len(),
{
    reveal(optional_field);
    lemma_parse_field_bounds(s, pos + 1, 1);
    if let Ok((pl, n0)) = parse_field(s, pos + 1, 1) {
        let p = pl as u32;
        let p1 = pos + 1 + n0;
        lemma_parse_field_bounds(s, p1, 1);
        if let Ok((_, n1)) = optional_field(s, p1, p & 1 != 0, 1) {
            lemma_parse_field_bounds(s, p1 + n1, 4);
            if let Ok((_, n2)) = optional_field(s, p1 + n1, p & 2 != 0, 4) {
                lemma_parse_field_bounds(s, p1 + n1 + n2, 4);
                if let Ok((_, n3)) = optional_field(s, p1 + n1 + n2, p & 4 != 0, 4) {
                    lemma_parse_field_bounds(s, p1 + n1 + n2 + n3, 2);
                }
            }
        }
    }
}

/// Every decoded packet spans at least its header byte and lies within the buffer.
pub proof fn lemma_packet_len(kind: PacketKind, s: Seq<u8>, pos: int, state: State, t: Etmv4Tracer)
    requires
        0 <= pos,
    ensures
        packet_effect(kind, s, pos, state, t) matches Ok(e) ==> 1 <= e.len && pos + e.len
            <= s.len(),
{
    reveal(packet_effect);
    match kind {
        PacketKind::TraceInfo => {
            lemma_trace_info_bounds(s, pos);
        },
        PacketKind::Timestamp => {
            lemma_timestamp_field_bounds(s, pos + 1, 0);
            if let Ok((_, n)) = parse_timestamp_field(s, pos + 1, 0) {
                lemma_count_field_bounds(s, pos + 1 + n, 0);
            }
        },
        PacketKind::Exception => {
            assert(exception_effect(s, pos, t) matches Ok(e) ==> 1 <= e.len && pos + e.len
                <= s.len());
        },
        _ => {},
    }
}

/// Runs the handler of `kind` on the packet at `pkt_offset`.
pub fn dispatch(kind: PacketKind, pkt_offset: usize, stream: &mut Stream) -> (r: Result<usize, DecodeError>)
    ensures
        packet_applied(
            packet_effect(kind, old(stream).buff@, pkt_offset as int, old(stream).state, old(stream).tracer),
            pkt_offset as int,
            r,
            *old(stream),
            *final(stream),
        ),
{
    proof {
        reveal(packet_effect);
    }
    match kind {
        PacketKind::Extension => decode_extension(pkt_offset, stream),
        PacketKind::TraceInfo => decode_trace_info(pkt_offset, stream),
        PacketKind::TraceOn => decode_trace_on(pkt_offset, stream),
        PacketKind::Timestamp => decode_timestamp(pkt_offset, stream),
        PacketKind::Exception => decode_exception(pkt_offset, stream),
        PacketKind::CcFormat1 => decode_cc_format_1(pkt_offset, stream),
        PacketKind::CcFormat2 => decode_cc_format_2(pkt_offset, stream),
        PacketKind::CcFormat3 => decode_cc_format_3(pkt_offset, stream),
        PacketKind::DataSyncMarker => decode_data_sync_marker(pkt_offset, stream),
        PacketKind::Commit => decode_commit(pkt_offset, stream),
        PacketKind::Cancel => decode_cancel(pkt_offset, stream),
        PacketKind::Mispredict => decode_mispredict(pkt_offset, stream),
        PacketKind::CondInstFormat1 => decode_cond_inst_format_1(pkt_offset, stream),
        PacketKind::CondInstFormat2 => decode_cond_inst_format_2(pkt_offset, stream),
        PacketKind::CondInstFormat3 => decode_cond_inst_format_3(pkt_offset, stream),
        PacketKind::CondFlush => decode_cond_flush(pkt_offset, stream),
        PacketKind::CondResultFormat1 => decode_cond_result_format_1(pkt_offset, stream),
        PacketKind::CondResultFormat2 => decode_cond_result_format_2(pkt_offset, stream),
        PacketKind::CondResultFormat3 => decode_cond_result_format_3(pkt_offset, stream),
        PacketKind::CondResultFormat4 => decode_cond_result_format_4(pkt_offset, stream),
        PacketKind::Event => decode_event(pkt_offset, stream),
        PacketKind::ShortAddress => decode_short_address(pkt_offset, stream),
        PacketKind::LongAddress => decode_long_address(pkt_offset, stream),
        PacketKind::ExactMatchAddress => decode_exact_match_address(pkt_offset, stream),
        PacketKind::Context => decode_context(pkt_offset, stream),
        PacketKind::AddressContext => decode_address_context(pkt_offset, stream),
        PacketKind::AtomFormat1 => decode_atom_format_1(pkt_offset, stream),
        PacketKind::AtomFormat2 => decode_atom_format_2(pkt_offset, stream),
        PacketKind::AtomFormat3 => decode_atom_format_3(pkt_offset, stream),
        PacketKind::AtomFormat4 => decode_atom_format_4(pkt_offset, stream),
        PacketKind::AtomFormat5 => decode_atom_format_5(pkt_offset, stream),
        PacketKind::AtomFormat6 => decode_atom_format_6(pkt_offset, stream),
        PacketKind::Q => decode_q(pkt_offset, stream),
    }
}

/// Whether decoding can start at `i`: an A-Sync packet there, and a valid
/// Trace-Info packet right after it.
pub open spec fn sync_point(s: Seq<u8>, i: int) -> bool {
    &&& 0 <= i < s.len()
    &&& s[i] == 0x00
    &&& is_async_at(s, i)
    &&& i + 12 < s.len()
    &&& s[i + 12] == 0x01
    &&& trace_info_spec(s, i + 12) is Ok
}

proof fn lemma_first_sync_in_range(s: Seq<u8>, i: int)
    ensures
        first_sync_from(s, i) matches Some(j) ==> i <= j < s.len(),
    decreases s.len() - i,
{
    if 0 <= i < s.len() && !sync_point(s, i) {
        lemma_first_sync_in_range(s, i + 1);
    }
}

/// The first synchronisation point at or after `i`.
pub open spec fn first_sync_from(s: Seq<u8>, i: int) -> Option<int>
    decreases s.len() - i,
{
    if i < 0 || i >= s.len() {
        None
    } else if sync_point(s, i) {
        Some(i)
    } else {
        first_sync_from(s, i + 1)
    }
}

/// Looks for the first A-Sync packet that a Trace-Info packet follows at
/// once. On success the stream is in sync, its address registers are
/// cleared, and the A-Sync packet's offset is returned; otherwise the
/// stream stays `Syncing`. Only a stream that is `Reading` or `Syncing` can
/// synchronise.
pub fn etmv4_synchronization(stream: &mut Stream) -> (r: Result<usize, DecodeError>)
    ensures
        final(stream).buff@ == old(stream).buff@,
        final(stream).events@ == old(stream).events@,
        final(stream).state.rank() >= old(stream).state.rank(),
        old(stream).state != State::Reading && old(stream).state != State::Syncing ==> {
            &&& r == Err::<usize, DecodeError>(DecodeError::BadState)
            &&& final(stream).state == old(stream).state
            &&& final(stream).tracer == old(stream).tracer
        },
        old(stream).state == State::Reading || old(stream).state == State::Syncing ==> match first_sync_from(old(stream).buff@, 0) {
            Some(i) => {
                &&& r == Ok::<usize, DecodeError>(i as usize)
                &&& 0 <= i < old(stream).buff@.len()
                &&& final(stream).state == State::InSync
                &&& final(stream).tracer == with_registers(old(stream).tracer, cleared_registers())
            },
            None => {
                &&& r == Err::<usize, DecodeError>(DecodeError::NoSync)
                &&& final(stream).state == State::Syncing
                &&& final(stream).tracer == old(stream).tracer
            },
        },
{
    match stream.state {
        State::Reading | State::Syncing => {},
        _ => {
            return Err(DecodeError::BadState);
        },
    }
    stream.state = State::Syncing;
    proof {
        lemma_first_sync_in_range(stream.buff@, 0);
    }
    let mut i: usize = 0;
    while i < stream.buff.len()
        invariant
            i <= stream.buff@.len(),
            stream.buff@ == old(stream).buff@,
            stream.events@ == old(stream).events@,
            stream.tracer == old(stream).tracer,
            stream.state == State::Syncing,
            old(stream).state == State::Reading || old(stream).state == State::Syncing,
            first_sync_from(stream.buff@, 0) == first_sync_from(stream.buff@, i as int),
        decreases stream.buff@.len() - i,
    {
        if stream.buff[i] == 0x00 && is_async(&stream.buff, i) && stream.buff.len() - i > 12
            && stream.buff[i + 12] == 0x01 {
            if let Ok(_) = parse_trace_info(&stream.buff, i + 12) {
                stream.state = State::InSync;
                reset_address_register(&mut stream.tracer);
                return Ok(i);
            }
        }
        i = i + 1;
    }
    Err(DecodeError::NoSync)
}

} // verus!
