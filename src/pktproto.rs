use vstd::prelude::*;

verus! {

pub type PktHeader = u8;

/// The handler that decodes a class of packets. Several header patterns
/// may share one handler.
#[derive(Clone, Copy, Debug, PartialEq, Eq, Structural)]
pub enum PacketKind {
    Extension,
    TraceInfo,
    TraceOn,
    Timestamp,
    Exception,
    CcFormat1,
    CcFormat2,
    CcFormat3,
    DataSyncMarker,
    Commit,
    Cancel,
    Mispredict,
    CondInstFormat1,
    CondInstFormat2,
    CondInstFormat3,
    CondFlush,
    CondResultFormat1,
    CondResultFormat2,
    CondResultFormat3,
    CondResultFormat4,
    Event,
    ShortAddress,
    LongAddress,
    ExactMatchAddress,
    Context,
    AddressContext,
    AtomFormat1,
    AtomFormat2,
    AtomFormat3,
    AtomFormat4,
    AtomFormat5,
    AtomFormat6,
    Q,
}

/// A classification rule: a header byte `c` matches when `c & mask == val`.
pub struct TracePkt {
    pub name: &'static str,
    pub mask: PktHeader,
    pub val: PktHeader,
    pub decode: PacketKind,
}

impl TracePkt {
    pub fn new(name: &'static str, mask: PktHeader, val: PktHeader, decode: PacketKind) -> (r: Self)
        ensures
            r.name == name,
            r.mask == mask,
            r.val == val,
            r.decode == decode,
    {
        Self { name, mask, val, decode }
    }

    /// The rule as a (mask, value, handler) triple.
    pub open spec fn rule(&self) -> (u8, u8, PacketKind) {
        (self.mask, self.val, self.decode)
    }
}

/// The ordered classification rules of ETMv4 packet headers. A header
/// belongs to the first rule it matches, so narrower rules come first.
#[verifier::opaque]
pub open spec fn packet_rules() -> Seq<(u8, u8, PacketKind)> {
    seq![
        (0xffu8, 0x00u8, PacketKind::Extension),
        (0xffu8, 0x01u8, PacketKind::TraceInfo),
        (0xffu8, 0x04u8, PacketKind::TraceOn),
        (0xfeu8, 0x02u8, PacketKind::Timestamp),
        (0xfeu8, 0x06u8, PacketKind::Exception),
        (0xfeu8, 0x0eu8, PacketKind::CcFormat1),
        (0xfeu8, 0x0cu8, PacketKind::CcFormat2),
        (0xf0u8, 0x10u8, PacketKind::CcFormat3),
        (0xf0u8, 0x20u8, PacketKind::DataSyncMarker),
        (0xffu8, 0x2du8, PacketKind::Commit),
        (0xfeu8, 0x2eu8, PacketKind::Cancel),
        (0xfcu8, 0x34u8, PacketKind::Cancel),
        (0xf8u8, 0x38u8, PacketKind::Cancel),
        (0xfcu8, 0x30u8, PacketKind::Mispredict),
        (0xffu8, 0x6cu8, PacketKind::CondInstFormat1),
        (0xfcu8, 0x40u8, PacketKind::CondInstFormat2),
        (0xffu8, 0x6du8, PacketKind::CondInstFormat3),
        (0xffu8, 0x43u8, PacketKind::CondFlush),
        (0xf8u8, 0x68u8, PacketKind::CondResultFormat1),
        (0xf8u8, 0x48u8, PacketKind::CondResultFormat2),
        (0xf0u8, 0x50u8, PacketKind::CondResultFormat3),
        (0xfcu8, 0x44u8, PacketKind::CondResultFormat4),
        (0xf0u8, 0x70u8, PacketKind::Event),
        (0xffu8, 0x95u8, PacketKind::ShortAddress),
        (0xffu8, 0x96u8, PacketKind::ShortAddress),
        (0xffu8, 0x9au8, PacketKind::LongAddress),
        (0xffu8, 0x9bu8, PacketKind::LongAddress),
        (0xffu8, 0x9du8, PacketKind::LongAddress),
        (0xffu8, 0x9eu8, PacketKind::LongAddress),
        (0xfcu8, 0x90u8, PacketKind::ExactMatchAddress),
        (0xfeu8, 0x80u8, PacketKind::Context),
        (0xffu8, 0x82u8, PacketKind::AddressContext),
        (0xffu8, 0x83u8, PacketKind::AddressContext),
        (0xffu8, 0x85u8, PacketKind::AddressContext),
        (0xffu8, 0x86u8, PacketKind::AddressContext),
        (0xfeu8, 0xf6u8, PacketKind::AtomFormat1),
        (0xfcu8, 0xd8u8, PacketKind::AtomFormat2),
        (0xf8u8, 0xf8u8, PacketKind::AtomFormat3),
        (0xfcu8, 0xdcu8, PacketKind::AtomFormat4),
        (0xffu8, 0xf5u8, PacketKind::AtomFormat5),
        (0xffu8, 0xd5u8, PacketKind::AtomFormat5),
        (0xffu8, 0xd6u8, PacketKind::AtomFormat5),
        (0xffu8, 0xd7u8, PacketKind::AtomFormat5),
        (0xffu8, 0xd0u8, PacketKind::AtomFormat6),
        (0xffu8, 0xd1u8, PacketKind::AtomFormat6),
        (0xffu8, 0xd2u8, PacketKind::AtomFormat6),
        (0xffu8, 0xd3u8, PacketKind::AtomFormat6),
        (0xffu8, 0xd4u8, PacketKind::AtomFormat6),
        (0xffu8, 0xf0u8, PacketKind::AtomFormat6),
        (0xffu8, 0xf1u8, PacketKind::AtomFormat6),
        (0xffu8, 0xf2u8, PacketKind::AtomFormat6),
        (0xffu8, 0xf3u8, PacketKind::AtomFormat6),
        (0xffu8, 0xf4u8, PacketKind::AtomFormat6),
        (0xf0u8, 0xc0u8, PacketKind::AtomFormat6),
        (0xf0u8, 0xe0u8, PacketKind::AtomFormat6),
        (0xf0u8, 0xa0u8, PacketKind::Q),
    ]
}

pub proof fn lemma_packet_rules_len()
    ensures
        packet_rules().len() == 56,
{
    reveal(packet_rules);
}

/// The names of the classification rules, in the order of `packet_rules`.
#[verifier::opaque]
pub open spec fn packet_names() -> Seq<Seq<char>> {
    seq![
        "extension"@,
        "trace_info"@,
        "trace_on"@,
        "timestamp"@,
        "exception"@,
        "cc_format_1"@,
        "cc_format_2"@,
        "cc_format_3"@,
        "data_sync_marker"@,
        "commit"@,
        "cancel_format_1"@,
        "cancel_format_2"@,
        "cancel_format_3"@,
        "mispredict"@,
        "cond_inst_format_1"@,
        "cond_inst_format_2"@,
        "cond_inst_format_3"@,
        "cond_flush"@,
        "cond_result_format_1"@,
        "cond_result_format_2"@,
        "cond_result_format_3"@,
        "cond_result_format_4"@,
        "event"@,
        "short_address_is0"@,
        "short_address_is1"@,
        "long_address_32bit_is0"@,
        "long_address_32bit_is1"@,
        "long_address_64bit_is0"@,
        "long_address_64bit_is1"@,
        "exact_match_address"@,
        "context"@,
        "address_context_32bit_is0"@,
        "address_context_32bit_is1"@,
        "address_context_64bit_is0"@,
        "address_context_64bit_is1"@,
        "atom_format_1"@,
        "atom_format_2"@,
        "atom_format_3"@,
        "atom_format_4"@,
        "atom_format_5_1"@,
        "atom_format_5_2"@,
        "atom_format_5_3"@,
        "atom_format_5_4"@,
        "atom_format_6_1"@,
        "atom_format_6_2"@,
        "atom_format_6_3"@,
        "atom_format_6_4"@,
        "atom_format_6_5"@,
        "atom_format_6_6"@,
        "atom_format_6_7"@,
        "atom_format_6_8"@,
        "atom_format_6_9"@,
        "atom_format_6_10"@,
        "atom_format_6_11"@,
        "atom_format_6_12"@,
        "q"@,
    ]
}

/// The index of the first rule of `rules` at or after `i` that header `c` matches.
pub open spec fn first_match_in(c: u8, rules: Seq<(u8, u8, PacketKind)>, i: int) -> Option<int>
    decreases rules.len() - i,
{
    if i < 0 || i >= rules.len() {
        None
    } else if c & rules[i].0 == rules[i].1 {
        Some(i)
    } else {
        first_match_in(c, rules, i + 1)
    }
}

/// The index of the first ETMv4 rule that header `c` matches.
pub open spec fn first_match(c: u8) -> Option<int> {
    first_match_in(c, packet_rules(), 0)
}

/// The rules of a table, in order.
pub open spec fn rules_of(table: Seq<TracePkt>) -> Seq<(u8, u8, PacketKind)> {
    Seq::new(table.len(), |i: int| table[i].rule())
}

/// The handler of the first rule that header `c` matches.
pub open spec fn classify_header(c: u8) -> Option<PacketKind> {
    match first_match(c) {
        Some(i) => Some(packet_rules()[i].2),
        None => None,
    }
}

} // verus!
