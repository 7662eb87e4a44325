use vstd::prelude::*;
use crate::etmv4::DecodeError;
use crate::pktproto::PacketKind;

verus! {

/// Instruction-set tag of an address register.
#[derive(Clone, Copy, Debug, PartialEq, Eq, Structural)]
pub enum AddrReg {
    AddrRegIsUnknown,
    AddrRegIs0,
    AddrRegIs1,
}

/// Outcome of one traced branch: executed (E) or not executed (N).
#[derive(Clone, Copy, Debug, PartialEq, Eq, Structural)]
pub enum AtomType {
    AtomTypeE,
    AtomTypeN,
}

/// One register of the tracer's address history.
#[derive(Clone, Copy, Debug, PartialEq, Eq, Structural)]
pub struct AddressRegister {
    pub address: u64,
    pub is: AddrReg,
}

impl AddressRegister {
    /// A cleared register: address 0, instruction set unknown.
    pub open spec fn cleared() -> AddressRegister {
        AddressRegister { address: 0, is: AddrReg::AddrRegIsUnknown }
    }

    pub fn new() -> (r: Self)
        ensures
            r == AddressRegister::cleared(),
    {
        AddressRegister { address: 0, is: AddrReg::AddrRegIsUnknown }
    }
}

/// A semantic element of the decoded trace, in the order the trace gives it.
#[derive(Clone, Copy, Debug, PartialEq, Eq, Structural)]
pub enum Event {
    /// A Trace-Info packet was applied; the fields are the values now in force.
    TraceInfo { info: u32, p0_key: u32, curr_spec_depth: u32, cc_threshold: u32 },
    /// A discontinuity in the trace.
    TraceOn,
    Discard,
    Overflow,
    /// The running timestamp after a timestamp packet, with the optional cycle count.
    Timestamp { timestamp: u64, cycle_count: Option<u32> },
    /// An exception of the given type, taken at the most recent address.
    Exception { exception_type: u32, address: u64 },
    ExceptionReturn,
    CondFlush,
    /// `count` speculative elements were committed.
    Commit { count: u32 },
    /// The most recent instruction address and the instruction set it runs in.
    Address { address: u64, is: AddrReg, sixty_four_bit: bool },
    /// The execution context now in force.
    Context { context_id: u32, vmid: u8, ex_level: u8, security: bool, sixty_four_bit: bool },
    Atom { atom: AtomType },
    /// No packet class has the header at this offset; decoding went on at the next byte.
    UnknownHeader { offset: usize, header: u8 },
    /// The packet at this offset could not be decoded; decoding went on at the next byte.
    PacketError { offset: usize, kind: PacketKind, error: DecodeError },
}

/// The architectural state that trace packets update.
#[derive(Clone, Copy, Debug)]
pub struct Etmv4Tracer {
    /// The INFO field of the last applied Trace-Info packet.
    pub info: u32,
    pub condtype: i32,
    pub commopt: i32,
    pub timestamp: u64,
    /// Address history, most recent first.
    pub address_register: [AddressRegister; 3],
    pub context_id: u32,
    pub vmid: u8,
    pub ex_level: u8,
    pub security: bool,
    pub sixty_four_bit: bool,
    pub curr_spec_depth: u32,
    pub p0_key: u32,
    pub cond_c_key: u32,
    pub cond_r_key: u32,
    pub p0_key_max: u32,
    pub cond_key_max_incr: u32,
    pub max_spec_depth: u32,
    pub cc_threshold: u32,
}

/// The three cleared address registers.
pub open spec fn cleared_registers() -> [AddressRegister; 3] {
    [AddressRegister::cleared(), AddressRegister::cleared(), AddressRegister::cleared()]
}

/// The address history after `r` is pushed on top of `regs`.
pub open spec fn pushed_registers(regs: [AddressRegister; 3], r: AddressRegister) -> [AddressRegister; 3] {
    [r, regs[0], regs[1]]
}

impl Etmv4Tracer {
    /// The tracer before any packet was seen: every field zero, false or cleared.
    pub open spec fn initial() -> Etmv4Tracer {
        Etmv4Tracer {
            info: 0,
            condtype: 0,
            commopt: 0,
            timestamp: 0,
            address_register: cleared_registers(),
            context_id: 0,
            vmid: 0,
            ex_level: 0,
            security: false,
            sixty_four_bit: false,
            curr_spec_depth: 0,
            p0_key: 0,
            cond_c_key: 0,
            cond_r_key: 0,
            p0_key_max: 0,
            cond_key_max_incr: 0,
            max_spec_depth: 0,
            cc_threshold: 0,
        }
    }

    pub fn new() -> (r: Self)
        ensures
            r == Etmv4Tracer::initial(),
    {
        Etmv4Tracer {
            info: 0,
            condtype: 0,
            commopt: 0,
            timestamp: 0,
            address_register: [AddressRegister::new(), AddressRegister::new(), AddressRegister::new()],
            context_id: 0,
            vmid: 0,
            ex_level: 0,
            security: false,
            sixty_four_bit: false,
            curr_spec_depth: 0,
            p0_key: 0,
            cond_c_key: 0,
            cond_r_key: 0,
            p0_key_max: 0,
            cond_key_max_incr: 0,
            max_spec_depth: 0,
            cc_threshold: 0,
        }
    }
}

/// `t` with its address history replaced by `regs`.
pub open spec fn with_registers(t: Etmv4Tracer, regs: [AddressRegister; 3]) -> Etmv4Tracer {
    Etmv4Tracer { address_register: regs, ..t }
}

pub fn reset_address_register(tracer: &mut Etmv4Tracer)
    ensures
        *final(tracer) == with_registers(*old(tracer), cleared_registers()),
{
    tracer.address_register = [AddressRegister::new(), AddressRegister::new(), AddressRegister::new()];
}

/// Pushes a new most recent address onto the history, dropping the oldest.
pub fn update_address_regs(tracer: &mut Etmv4Tracer, address: u64, is: AddrReg)
    ensures
        *final(tracer) == with_registers(
            *old(tracer),
            pushed_registers(old(tracer).address_register, AddressRegister { address, is }),
        ),
{
    let r0 = tracer.address_register[0];
    let r1 = tracer.address_register[1];
    tracer.address_register = [AddressRegister { address, is }, r0, r1];
}

/// The tracer after a Trace-Info packet with the given fields: the address
/// history is cleared, and each of INFO, KEY, SPEC and CYCT is taken when
/// its PLCTL presence bit is set and zeroed otherwise.
pub open spec fn trace_info_applied(
    t: Etmv4Tracer,
    plctl: u32,
    info: u32,
    key: u32,
    spec: u32,
    cyct: u32,
) -> Etmv4Tracer {
    Etmv4Tracer {
        address_register: cleared_registers(),
        info: if plctl & 1 != 0 { info } else { 0 },
        p0_key: if plctl & 2 != 0 { key } else { 0 },
        curr_spec_depth: if plctl & 4 != 0 { spec } else { 0 },
        cc_threshold: if plctl & 8 != 0 { cyct } else { 0 },
        ..t
    }
}

pub open spec fn trace_info_event(t: Etmv4Tracer) -> Event {
    Event::TraceInfo {
        info: t.info,
        p0_key: t.p0_key,
        curr_spec_depth: t.curr_spec_depth,
        cc_threshold: t.cc_threshold,
    }
}

pub fn tracer_trace_info(
    tracer: &mut Etmv4Tracer,
    events: &mut Vec<Event>,
    plctl: u32,
    info: u32,
    key: u32,
    spec: u32,
    cyct: u32,
)
    ensures
        *final(tracer) == trace_info_applied(*old(tracer), plctl, info, key, spec, cyct),
        final(events)@ == old(events)@.push(trace_info_event(*final(tracer))),
{
    reset_address_register(tracer);
    tracer.info = if (plctl & 1) != 0 { info } else { 0 };
    tracer.p0_key = if (plctl & 2) != 0 { key } else { 0 };
    tracer.curr_spec_depth = if (plctl & 4) != 0 { spec } else { 0 };
    tracer.cc_threshold = if (plctl & 8) != 0 { cyct } else { 0 };
    events.push(
        Event::TraceInfo {
            info: tracer.info,
            p0_key: tracer.p0_key,
            curr_spec_depth: tracer.curr_spec_depth,
            cc_threshold: tracer.cc_threshold,
        },
    );
}

pub fn tracer_trace_on(_tracer: &Etmv4Tracer, events: &mut Vec<Event>)
    ensures
        final(events)@ == old(events)@.push(Event::TraceOn),
{
    events.push(Event::TraceOn);
}

pub fn tracer_discard(_tracer: &Etmv4Tracer, events: &mut Vec<Event>)
    ensures
        final(events)@ == old(events)@.push(Event::Discard),
{
    events.push(Event::Discard);
}

pub fn tracer_overflow(_tracer: &Etmv4Tracer, events: &mut Vec<Event>)
    ensures
        final(events)@ == old(events)@.push(Event::Overflow),
{
    events.push(Event::Overflow);
}

/// The mask of the low `nr_replace` bits of a 64-bit value.
pub open spec fn low_bits_mask(nr_replace: u32) -> u64 {
    if nr_replace >= 64 {
        0xffff_ffff_ffff_ffff
    } else {
        ((1u64 << nr_replace) - 1) as u64
    }
}

/// The running timestamp after a newly parsed value `ts` that spans the
/// low `nr_replace` bits: those bits are replaced, the others kept. A zero
/// value leaves the running timestamp as it is.
pub open spec fn merged_timestamp(running: u64, ts: u64, nr_replace: u32) -> u64 {
    if ts == 0 {
        running
    } else {
        (running & !low_bits_mask(nr_replace)) | ts
    }
}

pub fn merge_timestamp(running: u64, ts: u64, nr_replace: u32) -> (r: u64)
    ensures
        r == merged_timestamp(running, ts, nr_replace),
{
    if ts == 0 {
        return running;
    }
    let mask: u64 = if nr_replace >= 64 {
        0xffff_ffff_ffff_ffff
    } else {
        assert(1u64 << nr_replace >= 1) by (bit_vector)
            requires
                nr_replace < 64,
        ;
        (1u64 << nr_replace) - 1
    };
    (running & !mask) | ts
}

/// Replacing the low `nr_replace` bits keeps every bit above them and
/// leaves exactly the new value below them.
pub proof fn lemma_timestamp_merge(running: u64, ts: u64, nr_replace: u32)
    requires
        0 < ts,
        nr_replace < 64,
        ts <= low_bits_mask(nr_replace),
    ensures
        merged_timestamp(running, ts, nr_replace) & low_bits_mask(nr_replace) == ts,
        merged_timestamp(running, ts, nr_replace) >> nr_replace == running >> nr_replace,
{
    let m = low_bits_mask(nr_replace);
    assert(m == ((1u64 << nr_replace) - 1) as u64);
    let r = merged_timestamp(running, ts, nr_replace);
    assert(r == (running & !m) | ts);
    assert(((running & !m) | ts) & m == ts) by (bit_vector)
        requires
            ts <= m,
            nr_replace < 64,
            m == ((1u64 << nr_replace) - 1) as u64,
    ;
    assert(((running & !m) | ts) >> nr_replace == running >> nr_replace) by (bit_vector)
        requires
            ts <= m,
            nr_replace < 64,
            m == ((1u64 << nr_replace) - 1) as u64,
    ;
}

pub fn tracer_ts(
    tracer: &mut Etmv4Tracer,
    events: &mut Vec<Event>,
    timestamp: u64,
    have_cc: bool,
    count: u32,
    nr_replace: u32,
)
    ensures
        *final(tracer) == (Etmv4Tracer {
            timestamp: merged_timestamp(old(tracer).timestamp, timestamp, nr_replace),
            ..*old(tracer)
        }),
        final(events)@ == old(events)@.push(
            Event::Timestamp {
                timestamp: final(tracer).timestamp,
                cycle_count: if have_cc { Some(count) } else { None },
            },
        ),
{
    tracer.timestamp = merge_timestamp(tracer.timestamp, timestamp, nr_replace);
    let cycle_count = if have_cc { Some(count) } else { None };
    events.push(Event::Timestamp { timestamp: tracer.timestamp, cycle_count });
}

/// The P0 key after one more P0 element: it counts modulo `p0_key_max`,
/// and a zero `p0_key_max` means the target uses no P0 keys.
pub open spec fn next_p0_key(key: u32, p0_key_max: u32) -> u32 {
    if p0_key_max == 0 {
        key
    } else {
        ((key + 1) % (p0_key_max as int)) as u32
    }
}

/// A new speculative element is committed at once when the target allows
/// no speculation, or when it would exceed the maximum depth.
pub open spec fn commits_at_once(t: Etmv4Tracer) -> bool {
    t.max_spec_depth == 0 || t.curr_spec_depth + 1 > t.max_spec_depth
}

/// The tracer after one P0 element (an atom or an exception): the P0 key
/// rotates, and the speculative depth grows by one unless the element is
/// committed at once.
pub open spec fn after_p0_element(t: Etmv4Tracer) -> Etmv4Tracer {
    Etmv4Tracer {
        p0_key: next_p0_key(t.p0_key, t.p0_key_max),
        curr_spec_depth: if commits_at_once(t) {
            t.curr_spec_depth
        } else {
            (t.curr_spec_depth + 1) as u32
        },
        ..t
    }
}

/// The events that close a P0 element: one commit when it is committed at once.
pub open spec fn p0_commit_events(t: Etmv4Tracer) -> Seq<Event> {
    if commits_at_once(t) {
        seq![Event::Commit { count: 1 }]
    } else {
        seq![]
    }
}

fn tracer_p0_element(tracer: &mut Etmv4Tracer, events: &mut Vec<Event>)
    ensures
        *final(tracer) == after_p0_element(*old(tracer)),
        final(events)@ == old(events)@ + p0_commit_events(*old(tracer)),
{
    if tracer.p0_key_max != 0 {
        tracer.p0_key = ((tracer.p0_key as u64 + 1) % (tracer.p0_key_max as u64)) as u32;
    }
    if tracer.max_spec_depth == 0 || tracer.curr_spec_depth >= tracer.max_spec_depth {
        // the element raises the depth by one and its commit lowers it again
        events.push(Event::Commit { count: 1 });
    } else {
        tracer.curr_spec_depth = tracer.curr_spec_depth + 1;
    }
}

/// The name of an exception type; types without a name are "Reserved".
pub open spec fn exception_name_of(tp: u32) -> Seq<char> {
    if tp == 0 {
        "PE reset"@
    } else if tp == 1 {
        "Debug halt"@
    } else if tp == 2 {
        "Call"@
    } else if tp == 3 {
        "Trap"@
    } else if tp == 4 {
        "System error"@
    } else if tp == 6 {
        "Inst debug"@
    } else if tp == 7 {
        "Data debug"@
    } else if tp == 10 {
        "Alignment"@
    } else if tp == 11 {
        "Inst fault"@
    } else if tp == 12 {
        "Data fault"@
    } else if tp == 14 {
        "IRQ"@
    } else if tp == 15 {
        "FIQ"@
    } else {
        "Reserved"@
    }
}

pub fn exception_name(tp: u32) -> (r: &'static str)
    ensures
        r@ == exception_name_of(tp),
{
    match tp {
        0 => "PE reset",
        1 => "Debug halt",
        2 => "Call",
        3 => "Trap",
        4 => "System error",
        6 => "Inst debug",
        7 => "Data debug",
        10 => "Alignment",
        11 => "Inst fault",
        12 => "Data fault",
        14 => "IRQ",
        15 => "FIQ",
        _ => "Reserved",
    }
}

/// The events of an exception of type `tp` taken at the most recent address.
pub open spec fn exception_events(t: Etmv4Tracer, tp: u32) -> Seq<Event> {
    seq![
        Event::Exception { exception_type: tp, address: t.address_register[0].address },
        Event::CondFlush,
    ] + p0_commit_events(t)
}

pub fn tracer_exception(tracer: &mut Etmv4Tracer, events: &mut Vec<Event>, tp: u32)
    ensures
        *final(tracer) == after_p0_element(*old(tracer)),
        final(events)@ == old(events)@ + exception_events(*old(tracer), tp),
{
    events.push(
        Event::Exception { exception_type: tp, address: tracer.address_register[0].address },
    );
    tracer_cond_flush(tracer, events);
    tracer_p0_element(tracer, events);
}

pub fn tracer_exception_return(_tracer: &Etmv4Tracer, events: &mut Vec<Event>)
    ensures
        final(events)@ == old(events)@.push(Event::ExceptionReturn),
{
    events.push(Event::ExceptionReturn);
}

fn tracer_cond_flush(_tracer: &Etmv4Tracer, events: &mut Vec<Event>)
    ensures
        final(events)@ == old(events)@.push(Event::CondFlush),
{
    events.push(Event::CondFlush);
}

/// The address event for the most recent address.
pub open spec fn address_event(t: Etmv4Tracer) -> Event {
    Event::Address {
        address: t.address_register[0].address,
        is: t.address_register[0].is,
        sixty_four_bit: t.sixty_four_bit,
    }
}

pub fn tracer_address(tracer: &Etmv4Tracer, events: &mut Vec<Event>)
    ensures
        final(events)@ == old(events)@.push(address_event(*tracer)),
{
    events.push(
        Event::Address {
            address: tracer.address_register[0].address,
            is: tracer.address_register[0].is,
            sixty_four_bit: tracer.sixty_four_bit,
        },
    );
}

/// The tracer after a context element. When `p` is zero the context is
/// unchanged; otherwise the exception level, the 64-bit flag and the
/// security state are taken, the VMID when `v` is set, the context ID when
/// `c` is set.
pub open spec fn context_applied(
    t: Etmv4Tracer,
    p: u8,
    el: u8,
    sf: u8,
    ns: u8,
    v: u8,
    vmid: u8,
    c: i32,
    contextid: u32,
) -> Etmv4Tracer {
    if p == 0 {
        t
    } else {
        Etmv4Tracer {
            ex_level: el,
            sixty_four_bit: sf != 0,
            security: ns == 0,
            vmid: if v != 0 { vmid } else { t.vmid },
            context_id: if c != 0 { contextid } else { t.context_id },
            ..t
        }
    }
}

pub open spec fn context_event(t: Etmv4Tracer) -> Event {
    Event::Context {
        context_id: t.context_id,
        vmid: t.vmid,
        ex_level: t.ex_level,
        security: t.security,
        sixty_four_bit: t.sixty_four_bit,
    }
}

pub fn tracer_context(
    tracer: &mut Etmv4Tracer,
    events: &mut Vec<Event>,
    p: u8,
    el: u8,
    sf: u8,
    ns: u8,
    v: u8,
    vmid: u8,
    c: i32,
    contextid: u32,
)
    ensures
        *final(tracer) == context_applied(*old(tracer), p, el, sf, ns, v, vmid, c, contextid),
        final(events)@ == old(events)@.push(context_event(*final(tracer))),
{
    if p != 0 {
        tracer.ex_level = el;
        tracer.sixty_four_bit = sf != 0;
        tracer.security = ns == 0;
        if v != 0 {
            tracer.vmid = vmid;
        }
        if c != 0 {
            tracer.context_id = contextid;
        }
    }
    events.push(
        Event::Context {
            context_id: tracer.context_id,
            vmid: tracer.vmid,
            ex_level: tracer.ex_level,
            security: tracer.security,
            sixty_four_bit: tracer.sixty_four_bit,
        },
    );
}

pub fn tracer_atom(tracer: &mut Etmv4Tracer, events: &mut Vec<Event>, tp: AtomType)
    ensures
        *final(tracer) == after_p0_element(*old(tracer)),
        final(events)@ == old(events)@.push(Event::Atom { atom: tp }) + p0_commit_events(
            *old(tracer),
        ),
{
    events.push(Event::Atom { atom: tp });
    tracer_p0_element(tracer, events);
}


/// The tracer after `n` P0 elements.
pub open spec fn after_p0_elements(t: Etmv4Tracer, n: nat) -> Etmv4Tracer
    decreases n,
{
    if n == 0 {
        t
    } else {
        after_p0_element(after_p0_elements(t, (n - 1) as nat))
    }
}

/// The events of a run of atoms traced one after another from `t`.
pub open spec fn atom_run_events(t: Etmv4Tracer, atoms: Seq<AtomType>) -> Seq<Event>
    decreases atoms.len(),
{
    if atoms.len() == 0 {
        seq![]
    } else {
        let before = after_p0_elements(t, (atoms.len() - 1) as nat);
        atom_run_events(t, atoms.drop_last()).push(Event::Atom { atom: atoms.last() })
            + p0_commit_events(before)
    }
}

/// Traces each atom of `atoms` in order.
pub fn tracer_atoms(tracer: &mut Etmv4Tracer, events: &mut Vec<Event>, atoms: &Vec<AtomType>)
    ensures
        *final(tracer) == after_p0_elements(*old(tracer), atoms@.len()),
        final(events)@ == old(events)@ + atom_run_events(*old(tracer), atoms@),
{
    let ghost t0 = *tracer;
    let ghost e0 = events@;
    let mut i: usize = 0;
    while i < atoms.len()
        invariant
            i <= atoms@.len(),
            *tracer == after_p0_elements(t0, i as nat),
            events@ == e0 + atom_run_events(t0, atoms@.subrange(0, i as int)),
        decreases atoms@.len() - i,
    {
        let ghost before = *tracer;
        let ghost ev = events@;
        tracer_atom(tracer, events, atoms[i]);
        proof {
            let pre = atoms@.subrange(0, i as int);
            let next = atoms@.subrange(0, i + 1);
            assert(next.drop_last() =~= pre);
            assert(next.last() == atoms@[i as int]);
            assert(events@ =~= e0 + atom_run_events(t0, next));
        }
        i = i + 1;
    }
    assert(atoms@.subrange(0, atoms@.len() as int) =~= atoms@);
}


/// Address history: after updates with A, then B, then C, the most recent
/// register holds C, the next B and the oldest A.
pub proof fn lemma_address_ring(
    regs: [AddressRegister; 3],
    a: AddressRegister,
    b: AddressRegister,
    c: AddressRegister,
)
    ensures
        pushed_registers(pushed_registers(pushed_registers(regs, a), b), c)[0] == c,
        pushed_registers(pushed_registers(pushed_registers(regs, a), b), c)[1] == b,
        pushed_registers(pushed_registers(pushed_registers(regs, a), b), c)[2] == a,
{
}

proof fn lemma_p0_elements_keep_limits(t: Etmv4Tracer, n: nat)
    ensures
        after_p0_elements(t, n).p0_key_max == t.p0_key_max,
        after_p0_elements(t, n).max_spec_depth == t.max_spec_depth,
    decreases n,
{
    if n > 0 {
        lemma_p0_elements_keep_limits(t, (n - 1) as nat);
    }
}

/// P0 keys: when `p0_key_max` is 0 the key never changes, however many
/// atoms and exceptions are traced.
pub proof fn lemma_p0_key_unused(t: Etmv4Tracer, n: nat)
    requires
        t.p0_key_max == 0,
    ensures
        after_p0_elements(t, n).p0_key == t.p0_key,
    decreases n,
{
    if n > 0 {
        lemma_p0_key_unused(t, (n - 1) as nat);
        lemma_p0_elements_keep_limits(t, (n - 1) as nat);
    }
}

/// P0 keys: when `p0_key_max` is N > 0, a key below N counts up by one for
/// each atom or exception and wraps to 0 after N - 1.
pub proof fn lemma_p0_key_cycles(t: Etmv4Tracer, n: nat)
    requires
        t.p0_key_max > 0,
        t.p0_key < t.p0_key_max,
    ensures
        after_p0_elements(t, n).p0_key == (t.p0_key + n) % (t.p0_key_max as int),
        after_p0_elements(t, n).p0_key < t.p0_key_max,
    decreases n,
{
    let m = t.p0_key_max as int;
    if n == 0 {
        assert((t.p0_key as int) % m == t.p0_key as int) by {
            vstd::arithmetic::div_mod::lemma_small_mod(t.p0_key as nat, m as nat);
        }
    } else {
        lemma_p0_key_cycles(t, (n - 1) as nat);
        lemma_p0_elements_keep_limits(t, (n - 1) as nat);
        let k = t.p0_key + n - 1;
        assert(((k % m) + 1) % m == (k + 1) % m) by {
            vstd::arithmetic::div_mod::lemma_add_mod_noop(k, 1, m);
            if m > 1 {
                vstd::arithmetic::div_mod::lemma_small_mod(1, m as nat);
            }
        }
        vstd::arithmetic::div_mod::lemma_mod_bound(k + 1, m);
    }
}

/// Speculation: when `max_spec_depth` is 0 each atom or exception is
/// committed at once, so the depth after any number of them is the depth
/// before, and each of them emits one commit.
pub proof fn lemma_no_speculation(t: Etmv4Tracer, n: nat)
    requires
        t.max_spec_depth == 0,
    ensures
        after_p0_elements(t, n).curr_spec_depth == t.curr_spec_depth,
        p0_commit_events(after_p0_elements(t, n)) == seq![Event::Commit { count: 1 }],
    decreases n,
{
    lemma_p0_elements_keep_limits(t, n);
    if n > 0 {
        lemma_no_speculation(t, (n - 1) as nat);
        lemma_p0_elements_keep_limits(t, (n - 1) as nat);
    }
}

} // verus!
