use vstd::prelude::*;
use crate::etmv4::first_sync_from;
use crate::stream::{decode_run, decode_stream, State, Stream};
use crate::tracer_etmv4::{cleared_registers, with_registers, Etmv4Tracer, Event};

verus! {

/// The demultiplexer's state between bytes: one buffer per trace source
/// seen so far, the current and the previous source, and whether a
/// terminal ID byte has stopped it.
pub struct Demux {
    pub bufs: Seq<Seq<u8>>,
    pub cur: Option<nat>,
    pub pre: Option<nat>,
    pub stopped: bool,
}

impl Demux {
    /// Before the first frame: one empty buffer and no source yet.
    pub open spec fn initial() -> Demux {
        Demux { bufs: seq![Seq::<u8>::empty()], cur: None, pre: None, stopped: false }
    }

    /// The current and previous sources name existing buffers.
    pub open spec fn wf(self) -> bool {
        &&& self.bufs.len() >= 1
        &&& (self.cur matches Some(i) ==> i < self.bufs.len())
        &&& (self.pre matches Some(i) ==> i < self.bufs.len())
    }
}

/// `d` with `c` appended to the buffer of `target`; nothing when there is no target.
pub open spec fn append_to(d: Demux, target: Option<nat>, c: u8) -> Demux {
    match target {
        Some(i) => Demux { bufs: d.bufs.update(i as int, d.bufs[i as int].push(c)), ..d },
        None => d,
    }
}

/// `bufs` extended with empty buffers to at least `n` of them.
pub open spec fn grown(bufs: Seq<Seq<u8>>, n: nat) -> Seq<Seq<u8>> {
    if bufs.len() >= n {
        bufs
    } else {
        bufs + Seq::new((n - bufs.len()) as nat, |i: int| Seq::<u8>::empty())
    }
}

/// Whether the flag of the lane that holds byte position `b` is set in the
/// frame's last byte `end`.
pub open spec fn lane_set(end: u8, b: int) -> bool {
    end & (1u8 << ((b / 2) as u8)) != 0
}

/// The demultiplexer after byte `b` (0 to 14) of the 16-byte frame at `f`.
/// An odd position always holds data; it goes to the previous source when
/// the byte before was an ID byte and the lane flag is set. At an even
/// position a set low bit marks an ID byte, whose ID 0 stops everything;
/// otherwise the byte is data whose low bit is the lane flag.
pub open spec fn demux_byte(d: Demux, s: Seq<u8>, f: int, b: int) -> Demux {
    let c = s[f + b];
    let end = s[f + 15];
    if b % 2 == 1 {
        let target = if s[f + b - 1] & 1 != 0 && lane_set(end, b) {
            d.pre
        } else {
            d.cur
        };
        append_to(d, target, c)
    } else if c & 1 != 0 {
        let id = (c >> 1u8) & 0x7f;
        if id == 0 {
            Demux { stopped: true, ..d }
        } else {
            let idx = (id - 1) as nat;
            Demux { bufs: grown(d.bufs, idx + 1), pre: d.cur, cur: Some(idx), ..d }
        }
    } else {
        let v: u8 = c | (if lane_set(end, b) {
            1u8
        } else {
            0u8
        });
        append_to(d, d.cur, v)
    }
}

/// The demultiplexer after bytes `b` to 14 of the frame at `f`, unless stopped.
pub open spec fn demux_frame_from(d: Demux, s: Seq<u8>, f: int, b: int) -> Demux
    decreases 15 - b,
{
    if b >= 15 || d.stopped {
        d
    } else {
        demux_frame_from(demux_byte(d, s, f, b), s, f, b + 1)
    }
}

/// Whether the frame-sync marker FF FF FF 7F starts at `pos`.
pub open spec fn fsync_at(s: Seq<u8>, pos: int) -> bool {
    &&& 0 <= pos
    &&& pos + 4 <= s.len()
    &&& s[pos] == 0xff
    &&& s[pos + 1] == 0xff
    &&& s[pos + 2] == 0xff
    &&& s[pos + 3] == 0x7f
}

/// The demultiplexer after the frames from `pos` on. A frame-sync marker
/// at a frame boundary is skipped; a frame cut short by the end of the
/// capture is ignored.
pub open spec fn demux_from(d: Demux, s: Seq<u8>, pos: int) -> Demux
    decreases s.len() - pos,
{
    if d.stopped || pos < 0 || pos >= s.len() {
        d
    } else {
        let f = if fsync_at(s, pos) {
            pos + 4
        } else {
            pos
        };
        if f + 16 > s.len() {
            d
        } else {
            demux_from(demux_frame_from(d, s, f, 0), s, f + 16)
        }
    }
}

/// The per-source byte streams of an ETB capture; the stream of source ID
/// `k` has index `k - 1`.
pub open spec fn demux_spec(s: Seq<u8>) -> Seq<Seq<u8>> {
    demux_from(Demux::initial(), s, 0).bufs
}

pub open spec fn opt_nat(o: Option<usize>) -> Option<nat> {
    match o {
        Some(i) => Some(i as nat),
        None => None,
    }
}

/// The buffers of `streams`.
pub open spec fn buffers(streams: Seq<Stream>) -> Seq<Seq<u8>> {
    Seq::new(streams.len(), |i: int| streams[i].buff@)
}

/// `st` is a new stream apart from its bytes.
pub open spec fn is_fresh(st: Stream) -> bool {
    &&& st.state == State::Reading
    &&& st.tracer == Etmv4Tracer::initial()
    &&& st.events@ == Seq::<Event>::empty()
}

fn lane_flag(end: u8, b: usize) -> (r: bool)
    requires
        b < 16,
    ensures
        r == lane_set(end, b as int),
{
    end & (1u8 << ((b / 2) as u8)) != 0
}

proof fn lemma_append_wf(d: Demux, target: Option<nat>, c: u8)
    requires
        d.wf(),
        target matches Some(i) ==> i < d.bufs.len(),
    ensures
        append_to(d, target, c).wf(),
        append_to(d, target, c).bufs.len() == d.bufs.len(),
{
}

/// Splits an ETB capture into one stream per trace source. Each stream is
/// new but for its bytes, made from `etb_stream` as `init_new` makes them.
pub fn demultiplex(etb_stream: &Stream) -> (r: Vec<Stream>)
    ensures
        buffers(r@) == demux_spec(etb_stream.buff@),
        forall|i: int| 0 <= i < r@.len() ==> is_fresh(#[trigger] r@[i]),
{
    let ghost s = etb_stream.buff@;
    let ghost target = demux_spec(s);
    let mut streams: Vec<Stream> = Vec::new();
    streams.push(etb_stream.init_new());
    let mut cur: Option<usize> = None;
    let mut pre: Option<usize> = None;
    let mut stopped = false;
    let mut pkt_idx: usize = 0;
    proof {
        assert(buffers(streams@) =~= seq![Seq::<u8>::empty()]);
    }
    while !stopped && pkt_idx < etb_stream.buff.len()
        invariant
            etb_stream.buff@ == s,
            pkt_idx <= s.len(),
            (Demux { bufs: buffers(streams@), cur: opt_nat(cur), pre: opt_nat(pre), stopped }).wf(),
            demux_from(
                Demux { bufs: buffers(streams@), cur: opt_nat(cur), pre: opt_nat(pre), stopped },
                s,
                pkt_idx as int,
            ).bufs == target,
            forall|i: int| 0 <= i < streams@.len() ==> is_fresh(#[trigger] streams@[i]),
        decreases s.len() - pkt_idx,
    {
        let mut f = pkt_idx;
        if etb_stream.buff.len() - pkt_idx >= 4 && etb_stream.buff[pkt_idx] == 0xff
            && etb_stream.buff[pkt_idx + 1] == 0xff && etb_stream.buff[pkt_idx + 2] == 0xff
            && etb_stream.buff[pkt_idx + 3] == 0x7f {
            f = pkt_idx + 4;
        }
        if etb_stream.buff.len() - f < 16 {
            // a frame cut short by the end of the capture is ignored
            pkt_idx = etb_stream.buff.len();
            continue;
        }
        let end = etb_stream.buff[f + 15];
        let ghost d0 = Demux {
            bufs: buffers(streams@),
            cur: opt_nat(cur),
            pre: opt_nat(pre),
            stopped,
        };
        let mut b: usize = 0;
        while b < 15 && !stopped
            invariant
                etb_stream.buff@ == s,
                f + 16 <= etb_stream.buff.len(),
                end == s[f + 15],
                b <= 15,
                (Demux { bufs: buffers(streams@), cur: opt_nat(cur), pre: opt_nat(pre), stopped }).wf(),
                demux_frame_from(
                    Demux { bufs: buffers(streams@), cur: opt_nat(cur), pre: opt_nat(pre), stopped },
                    s,
                    f as int,
                    b as int,
                ) == demux_frame_from(d0, s, f as int, 0),
                forall|i: int| 0 <= i < streams@.len() ==> is_fresh(#[trigger] streams@[i]),
            decreases 15 - b,
        {
            let ghost d = Demux {
                bufs: buffers(streams@),
                cur: opt_nat(cur),
                pre: opt_nat(pre),
                stopped,
            };
            let ghost next = demux_byte(d, s, f as int, b as int);
            let c = etb_stream.buff[f + b];
            if b % 2 == 1 {
                let tmp = etb_stream.buff[f + b - 1];
                let target_id = if tmp & 1 != 0 && lane_flag(end, b) {
                    pre
                } else {
                    cur
                };
                if let Some(idx) = target_id {
                    streams[idx].buff.push(c);
                }
                proof {
                    lemma_append_wf(d, opt_nat(target_id), c);
                    assert(buffers(streams@) =~= next.bufs);
                }
            } else if c & 1 != 0 {
                let id = (c >> 1u8) & 0x7f;
                if id == 0 {
                    stopped = true;
                } else {
                    let idx = (id - 1) as usize;
                    pre = cur;
                    cur = Some(idx);
                    let ghost start = buffers(streams@);
                    while streams.len() <= idx
                        invariant
                            start.len() >= 1,
                            streams@.len() >= start.len(),
                            streams@.len() == start.len() || streams@.len() <= idx + 1,
                            buffers(streams@) =~= start + Seq::new(
                                (streams@.len() - start.len()) as nat,
                                |i: int| Seq::<u8>::empty(),
                            ),
                            forall|i: int| 0 <= i < streams@.len() ==> is_fresh(#[trigger] streams@[i]),
                        decreases idx + 1 - streams@.len(),
                    {
                        let ghost prev = streams@;
                        streams.push(etb_stream.init_new());
                        proof {
                            assert(buffers(streams@) =~= buffers(prev).push(Seq::<u8>::empty()));
                        }
                    }
                    proof {
                        assert(buffers(streams@) =~= next.bufs);
                    }
                }
            } else {
                let v: u8 = c | (if lane_flag(end, b) {
                    1u8
                } else {
                    0u8
                });
                if let Some(idx) = cur {
                    streams[idx].buff.push(v);
                }
                proof {
                    lemma_append_wf(d, opt_nat(cur), v);
                    assert(buffers(streams@) =~= next.bufs);
                }
            }
            b = b + 1;
        }
        pkt_idx = f + 16;
    }
    streams
}

/// What decoding a new stream holding `s` gives: its state, tracer and events.
pub open spec fn stream_outcome(s: Seq<u8>) -> (State, Etmv4Tracer, Seq<Event>) {
    if s.len() == 0 {
        (State::Reading, Etmv4Tracer::initial(), Seq::empty())
    } else {
        match first_sync_from(s, 0) {
            None => (State::Syncing, Etmv4Tracer::initial(), Seq::empty()),
            Some(i) => {
                let (t, ev) = decode_run(
                    s,
                    i,
                    with_registers(Etmv4Tracer::initial(), cleared_registers()),
                    Seq::empty(),
                );
                (State::Decoded, t, ev)
            },
        }
    }
}

/// Splits an ETB capture into per-source streams and decodes each stream
/// that holds any bytes; an empty stream is left `Reading`.
pub fn decode_etb_stream(etb_stream: Stream) -> (r: Vec<Stream>)
    ensures
        buffers(r@) == demux_spec(etb_stream.buff@),
        forall|i: int|
            0 <= i < r@.len() ==> (#[trigger] r@[i].state, r@[i].tracer, r@[i].events@)
                == stream_outcome(r@[i].buff@),
{
    let mut streams = demultiplex(&etb_stream);
    let ghost bufs = buffers(streams@);
    let mut i: usize = 0;
    while i < streams.len()
        invariant
            i <= streams@.len(),
            buffers(streams@) == bufs,
            forall|j: int|
                0 <= j < i ==> (#[trigger] streams@[j].state, streams@[j].tracer, streams@[j].events@)
                    == stream_outcome(streams@[j].buff@),
            forall|j: int| i <= j < streams@.len() ==> is_fresh(#[trigger] streams@[j]),
        decreases streams@.len() - i,
    {
        let ghost before = streams@;
        if streams[i].buff.len() != 0 {
            let _ = decode_stream(&mut streams[i]);
        }
        proof {
            assert(buffers(streams@) =~= bufs) by {
                assert forall|j: int| 0 <= j < streams@.len() implies streams@[j].buff@ == bufs[j] by {
                    if j != i {
                        assert(streams@[j] == before[j]);
                    }
                }
            }
        }
        i = i + 1;
    }
    streams
}


proof fn lemma_stopped_stays(d: Demux, s: Seq<u8>, f: int, b: int, pos: int)
    requires
        d.stopped,
    ensures
        demux_frame_from(d, s, f, b) == d,
        demux_from(d, s, pos) == d,
{
}

/// An ID byte with ID 0 stops demultiplexing at once: whatever follows it,
/// in its frame or in later frames, leaves the streams as they were.
pub proof fn lemma_zero_id_stops(d: Demux, s: Seq<u8>, f: int, b: int, pos: int)
    requires
        0 <= b < 15,
        b % 2 == 0,
        s[f + b] & 1 != 0,
        (s[f + b] >> 1u8) & 0x7f == 0,
    ensures
        demux_from(demux_frame_from(d, s, f, b), s, pos).bufs == d.bufs,
{
    let next = demux_byte(d, s, f, b);
    if !d.stopped {
        assert(next == Demux { stopped: true, ..d });
        lemma_stopped_stays(next, s, f, b + 1, pos);
    }
    lemma_stopped_stays(demux_frame_from(d, s, f, b), s, f, b, pos);
}

proof fn lemma_single_source_rest(d: Demux, s: Seq<u8>, b: int, k: nat)
    requires
        s.len() == 16,
        1 <= b <= 15,
        s[15] == 0,
        forall|j: int| 1 <= j < 8 ==> #[trigger] s[2 * j] & 1 == 0,
        s[0] & 1 != 0,
        !d.stopped,
        d.wf(),
        d.cur == Some(k),
        d.bufs[k as int] == s.subrange(1, b),
    ensures
        demux_frame_from(d, s, 0, b).bufs[k as int] == s.subrange(1, 15),
    decreases 15 - b,
{
    if b < 15 {
        let c = s[b];
        assert(!lane_set(0, b)) by {
            let x = ((b / 2) as u8);
            assert(0u8 & (1u8 << x) == 0) by (bit_vector);
        }
        if b % 2 == 0 {
            assert(s[2 * (b / 2)] & 1 == 0);
            assert(c | 0u8 == c) by (bit_vector);
        } else if b > 1 {
            assert(s[2 * ((b - 1) / 2)] & 1 == 0);
        }
        let next = demux_byte(d, s, 0, b);
        assert(next.bufs[k as int] =~= s.subrange(1, b + 1));
        lemma_single_source_rest(next, s, b + 1, k);
    }
}

/// A capture of one 16-byte frame whose first byte names a single source
/// and whose other even bytes are data, with no lane flag set: every data
/// byte, at even and odd positions alike, lands unchanged and in order in
/// that source's stream.
pub proof fn lemma_single_source_frame(s: Seq<u8>)
    requires
        s.len() == 16,
        s[0] & 1 != 0,
        (s[0] >> 1u8) & 0x7f != 0,
        forall|j: int| 1 <= j < 8 ==> #[trigger] s[2 * j] & 1 == 0,
        s[15] == 0,
    ensures
        demux_spec(s)[((s[0] >> 1u8) & 0x7f) - 1] == s.subrange(1, 15),
{
    let d = Demux::initial();
    assert(s[2 * 1int] & 1 == 0);
    assert(s[2] != 0xff) by {
        assert(0xffu8 & 1 == 1) by (bit_vector);
    }
    let k = (((s[0] >> 1u8) & 0x7f) - 1) as nat;
    let d1 = demux_byte(d, s, 0, 0);
    assert(d1.cur == Some(k));
    assert(d1.bufs[k as int] =~= s.subrange(1, 1));
    lemma_single_source_rest(d1, s, 1, k);
    let r = demux_frame_from(d, s, 0, 0);
    assert(demux_from(r, s, 16) == r);
}

} // verus!
