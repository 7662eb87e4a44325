use etmv4_decoder::etb_format::{decode_etb_stream, demultiplex};
use etmv4_decoder::etmv4::{
    decode_address_context, decode_atom_format_1, decode_atom_format_2, decode_atom_format_3,
    decode_atom_format_4, decode_atom_format_5, decode_atom_format_6, decode_commit,
    decode_context, decode_exact_match_address, decode_exception, decode_extension,
    decode_long_address, decode_q, decode_short_address, decode_timestamp, decode_trace_info,
    decode_trace_on, etmv4_synchronization, get_decode_func, is_async, parse_trace_info,
    DecodeError,
};
use etmv4_decoder::fields::read_field;
use etmv4_decoder::pktproto::{PacketKind, TracePkt};
use etmv4_decoder::stream::{classify, decode_stream, initialize_tracepkts, State, Stream};
use etmv4_decoder::tracer_etmv4::{
    exception_name, merge_timestamp, reset_address_register, tracer_atom, tracer_context,
    tracer_exception, tracer_trace_info, tracer_ts, update_address_regs, AddrReg,
    AddressRegister, AtomType, Etmv4Tracer, Event,
};

fn stream_of(bytes: &[u8]) -> Stream {
    let mut s = Stream::new();
    s.buff = bytes.to_vec();
    s
}

fn decoding_stream_of(bytes: &[u8]) -> Stream {
    let mut s = stream_of(bytes);
    s.state = State::Decoding;
    s
}

fn async_packet() -> Vec<u8> {
    let mut v = vec![0u8; 11];
    v.push(0x80);
    v
}

fn atoms(events: &[Event]) -> Vec<AtomType> {
    events
        .iter()
        .filter_map(|e| match e {
            Event::Atom { atom } => Some(*atom),
            _ => None,
        })
        .collect()
}

const E: AtomType = AtomType::AtomTypeE;
const N: AtomType = AtomType::AtomTypeN;

// ---- ETB demultiplexing ----

#[test]
fn single_source_frame_keeps_every_data_byte_in_order() {
    let frame: Vec<u8> = vec![
        0x0b, 0x11, 0x22, 0x33, 0x44, 0x55, 0x66, 0x77, 0x88, 0x99, 0xaa, 0xbb, 0xcc, 0xdd, 0xee,
        0x00,
    ];
    let streams = demultiplex(&stream_of(&frame));
    assert_eq!(streams.len(), 5);
    assert_eq!(streams[4].buff, frame[1..15].to_vec());
}

#[test]
fn zero_id_stops_demultiplexing_mid_frame() {
    let mut capture: Vec<u8> = vec![
        0x03, 0x11, 0x22, 0x33, 0x01, 0x55, 0x66, 0x77, 0x88, 0x99, 0xaa, 0xbb, 0xcc, 0xdd, 0xee,
        0x00,
    ];
    capture.extend_from_slice(&[
        0x05, 0x10, 0x20, 0x30, 0x40, 0x50, 0x60, 0x70, 0x80, 0x90, 0xa0, 0xb0, 0xc0, 0xd0, 0xe0,
        0x00,
    ]);
    let streams = demultiplex(&stream_of(&capture));
    assert_eq!(streams.len(), 1);
    assert_eq!(streams[0].buff, vec![0x11, 0x22, 0x33]);
}

#[test]
fn id_five_creates_streams_up_to_index_four() {
    let frame: Vec<u8> = vec![
        0x0b, 0x12, 0x34, 0x56, 0x78, 0x00, 0x00, 0x00, 0x00, 0x00, 0x00, 0x00, 0x00, 0x00, 0x00,
        0x00,
    ];
    let streams = decode_etb_stream(stream_of(&frame));
    assert_eq!(streams.len(), 5);
    for i in 0..4 {
        assert!(streams[i].buff.is_empty());
        assert_eq!(streams[i].state, State::Reading);
    }
    assert_eq!(streams[4].buff.len(), 14);
    assert_eq!(streams[4].state, State::Syncing);
}

#[test]
fn odd_byte_after_id_goes_to_previous_source_when_flagged() {
    // lane 1 flag: byte 3 belongs to the source before the ID at byte 2;
    // lane 3 flag: the even data byte 6 gets its low bit back
    let frame: Vec<u8> = vec![
        0x03, 0x10, 0x05, 0x20, 0x30, 0x00, 0x40, 0x00, 0x00, 0x00, 0x00, 0x00, 0x00, 0x00, 0x00,
        0x0a,
    ];
    let streams = demultiplex(&stream_of(&frame));
    assert_eq!(streams.len(), 2);
    assert_eq!(streams[0].buff, vec![0x10, 0x20]);
    let mut expected = vec![0x30, 0x00, 0x41];
    expected.extend_from_slice(&[0u8; 8]);
    assert_eq!(streams[1].buff, expected);
}

#[test]
fn frame_sync_marker_is_skipped_and_partial_frame_ignored() {
    let mut capture: Vec<u8> = vec![0xff, 0xff, 0xff, 0x7f];
    capture.extend_from_slice(&[
        0x03, 0x01, 0x02, 0x03, 0x04, 0x05, 0x06, 0x07, 0x08, 0x09, 0x0a, 0x0b, 0x0c, 0x0d, 0x0e,
        0x00,
    ]);
    capture.extend_from_slice(&[0x03, 0x99, 0x98]);
    let streams = demultiplex(&stream_of(&capture));
    assert_eq!(streams.len(), 1);
    assert_eq!(streams[0].buff, vec![0x01, 0x02, 0x03, 0x04, 0x05, 0x06, 0x07, 0x08, 0x09, 0x0a, 0x0b, 0x0c, 0x0d, 0x0e]);
}

#[test]
fn empty_capture_gives_one_empty_stream() {
    let streams = decode_etb_stream(Stream::new());
    assert_eq!(streams.len(), 1);
    assert!(streams[0].buff.is_empty());
    assert_eq!(streams[0].state, State::Reading);
}

#[test]
fn capture_is_demultiplexed_and_decoded() {
    let mut capture: Vec<u8> = vec![0xff, 0xff, 0xff, 0x7f];
    // stream bytes: A-Sync, Trace-Info (PLCTL 0), atom E (0xf7), trace on (0x04)
    capture.extend_from_slice(&[
        0x03, 0x00, 0x00, 0x00, 0x00, 0x00, 0x00, 0x00, 0x00, 0x00, 0x00, 0x00, 0x80, 0x01, 0x00,
        0x00,
    ]);
    // 0xf7 at an even position travels as 0xf6 with the lane 0 flag; then ID 0 ends the capture
    capture.extend_from_slice(&[
        0xf6, 0x04, 0x01, 0x00, 0x00, 0x00, 0x00, 0x00, 0x00, 0x00, 0x00, 0x00, 0x00, 0x00, 0x00,
        0x01,
    ]);
    let streams = decode_etb_stream(stream_of(&capture));
    assert_eq!(streams.len(), 1);
    let mut expected = async_packet();
    expected.extend_from_slice(&[0x01, 0x00, 0xf7, 0x04]);
    assert_eq!(streams[0].buff, expected);
    assert_eq!(streams[0].state, State::Decoded);
    assert_eq!(
        streams[0].events,
        vec![
            Event::TraceInfo { info: 0, p0_key: 0, curr_spec_depth: 0, cc_threshold: 0 },
            Event::Atom { atom: E },
            Event::Commit { count: 1 },
            Event::TraceOn,
        ]
    );
}

// ---- classification ----

#[test]
fn header_zero_classifies_as_extension() {
    let table = initialize_tracepkts();
    let i = classify(&table, 0x00).unwrap();
    assert_eq!(table[i].name, "extension");
    assert_eq!(table[i].decode, PacketKind::Extension);
}

#[test]
fn classification_takes_the_first_matching_rule() {
    let table = initialize_tracepkts();
    let name_of = |c: u8| classify(&table, c).map(|i| table[i].name);
    assert_eq!(name_of(0x01), Some("trace_info"));
    assert_eq!(name_of(0x03), Some("timestamp"));
    assert_eq!(name_of(0x2e), Some("data_sync_marker"));
    assert_eq!(name_of(0x2f), Some("data_sync_marker"));
    assert_eq!(name_of(0x3c), Some("cancel_format_3"));
    assert_eq!(name_of(0x91), Some("exact_match_address"));
    assert_eq!(name_of(0xf6), Some("atom_format_1"));
    assert_eq!(name_of(0xf5), Some("atom_format_5_1"));
    assert_eq!(name_of(0xd4), Some("atom_format_6_5"));
    assert_eq!(name_of(0xf8), Some("atom_format_3"));
    assert_eq!(name_of(0x0a), None);
}

#[test]
fn packet_table_has_fifty_six_rules() {
    let table: [TracePkt; 56] = initialize_tracepkts();
    assert_eq!(table[0].mask, 0xff);
    assert_eq!(table[55].name, "q");
    assert_eq!(table[55].mask, 0xf0);
    assert_eq!(table[55].val, 0xa0);
}

#[test]
fn decode_function_is_found_by_name() {
    assert_eq!(get_decode_func("extension"), Some(PacketKind::Extension));
    assert_eq!(get_decode_func("cancel_format_2"), Some(PacketKind::Cancel));
    assert_eq!(get_decode_func("atom_format_6_12"), Some(PacketKind::AtomFormat6));
    assert_eq!(get_decode_func("address_context_64bit_is1"), Some(PacketKind::AddressContext));
    assert_eq!(get_decode_func("no_such_packet"), None);
    assert_eq!(get_decode_func(""), None);
}

// ---- fields and Trace-Info ----

#[test]
fn field_is_little_endian_base_128() {
    let buf = vec![0x83, 0x01, 0x7f];
    assert_eq!(read_field(&buf, 0, 4), Ok((131, 2)));
    assert_eq!(read_field(&buf, 2, 1), Ok((0x7f, 1)));
    assert_eq!(read_field(&buf, 0, 1), Err(DecodeError::FieldTooLong));
    assert_eq!(read_field(&vec![0x80, 0x80], 0, 4), Err(DecodeError::Truncated));
}

#[test]
fn trace_info_applies_present_sections_when_in_sync() {
    let mut s = decoding_stream_of(&[0x01, 0x0f, 0x05, 0x83, 0x01, 0x02, 0x10]);
    s.tracer.address_register[0].address = 0x1000;
    assert_eq!(decode_trace_info(0, &mut s), Ok(7));
    assert_eq!(s.tracer.info, 5);
    assert_eq!(s.tracer.p0_key, 131);
    assert_eq!(s.tracer.curr_spec_depth, 2);
    assert_eq!(s.tracer.cc_threshold, 16);
    assert_eq!(s.tracer.address_register[0].address, 0);
    assert_eq!(
        s.events,
        vec![Event::TraceInfo { info: 5, p0_key: 131, curr_spec_depth: 2, cc_threshold: 16 }]
    );
}

#[test]
fn trace_info_zeroes_absent_sections() {
    let mut s = decoding_stream_of(&[0x01, 0x02, 0x07]);
    s.tracer.info = 9;
    s.tracer.curr_spec_depth = 4;
    assert_eq!(decode_trace_info(0, &mut s), Ok(3));
    assert_eq!(s.tracer.info, 0);
    assert_eq!(s.tracer.p0_key, 7);
    assert_eq!(s.tracer.curr_spec_depth, 0);
}

#[test]
fn trace_info_before_sync_is_only_parsed() {
    let mut s = stream_of(&[0x01, 0x01, 0x05]);
    s.state = State::Syncing;
    assert_eq!(decode_trace_info(0, &mut s), Ok(3));
    assert_eq!(s.tracer.info, 0);
    assert!(s.events.is_empty());
}

#[test]
fn trace_info_field_limits_are_errors() {
    let mut s = decoding_stream_of(&[0x01, 0x80, 0x00]);
    assert_eq!(decode_trace_info(0, &mut s), Err(DecodeError::FieldTooLong));
    let mut s = decoding_stream_of(&[0x01, 0x02, 0x80, 0x80, 0x80, 0x80, 0x00]);
    assert_eq!(decode_trace_info(0, &mut s), Err(DecodeError::FieldTooLong));
    let mut s = decoding_stream_of(&[0x01, 0x08, 0x80, 0x80, 0x00]);
    assert_eq!(decode_trace_info(0, &mut s), Err(DecodeError::FieldTooLong));
    let mut s = decoding_stream_of(&[0x01, 0x04, 0x80]);
    assert_eq!(decode_trace_info(0, &mut s), Err(DecodeError::Truncated));
    assert!(s.events.is_empty());
}

#[test]
fn parse_trace_info_reads_cycle_threshold() {
    let buf = vec![0x01, 0x08, 0x81, 0x01];
    let (f, n) = parse_trace_info(&buf, 0).unwrap();
    assert_eq!(n, 4);
    assert_eq!(f.plctl, 8);
    assert_eq!(f.cyct, 129);
}

// ---- synchronisation and stream decoding ----

#[test]
fn async_then_trace_info_synchronises_at_offset_zero() {
    let mut bytes = async_packet();
    bytes.extend_from_slice(&[0x01, 0x00]);
    let mut s = stream_of(&bytes);
    assert_eq!(etmv4_synchronization(&mut s), Ok(0));
    assert_eq!(s.state, State::InSync);
    assert_eq!(s.tracer.info, 0);
    assert_eq!(s.tracer.p0_key, 0);
    assert_eq!(s.tracer.curr_spec_depth, 0);
    assert_eq!(s.tracer.cc_threshold, 0);
    assert_eq!(s.tracer.address_register, [AddressRegister::new(); 3]);

    let mut s = stream_of(&bytes);
    assert_eq!(decode_stream(&mut s), Ok(()));
    assert_eq!(s.state, State::Decoded);
    assert_eq!(s.tracer.info, 0);
    assert_eq!(s.tracer.p0_key, 0);
    assert_eq!(s.tracer.curr_spec_depth, 0);
    assert_eq!(s.tracer.cc_threshold, 0);
}

#[test]
fn synchronisation_skips_invalid_candidates() {
    let mut bytes = vec![0x04, 0x00, 0x00, 0x05];
    bytes.extend_from_slice(&async_packet());
    bytes.extend_from_slice(&[0x04]);
    bytes.extend_from_slice(&async_packet());
    bytes.extend_from_slice(&[0x01, 0x00]);
    let mut s = stream_of(&bytes);
    assert_eq!(etmv4_synchronization(&mut s), Ok(17));
    assert!(s.events.is_empty());
}

#[test]
fn synchronisation_cleans_address_registers() {
    let mut bytes = async_packet();
    bytes.extend_from_slice(&[0x01, 0x00]);
    let mut s = stream_of(&bytes);
    s.tracer.address_register[1].address = 77;
    assert_eq!(etmv4_synchronization(&mut s), Ok(0));
    assert_eq!(s.tracer.address_register[1].address, 0);
}

#[test]
fn stream_without_sync_point_stays_syncing() {
    let mut s = stream_of(&[0x04, 0x04, 0x00, 0x00]);
    assert_eq!(decode_stream(&mut s), Err(DecodeError::NoSync));
    assert_eq!(s.state, State::Syncing);
    assert!(s.events.is_empty());
}

#[test]
fn decoding_a_stream_not_reading_is_refused() {
    let mut bytes = async_packet();
    bytes.extend_from_slice(&[0x01, 0x00]);
    let mut s = stream_of(&bytes);
    s.state = State::Decoded;
    assert_eq!(decode_stream(&mut s), Err(DecodeError::BadState));
    assert_eq!(s.state, State::Decoded);
    let mut s = stream_of(&bytes);
    s.state = State::Decoding;
    assert_eq!(etmv4_synchronization(&mut s), Err(DecodeError::BadState));
}

#[test]
fn dispatch_loop_skips_bad_bytes_one_at_a_time() {
    let mut bytes = async_packet();
    bytes.extend_from_slice(&[0x01, 0x00, 0xf7, 0x04, 0x70, 0x0a, 0x04]);
    let mut s = stream_of(&bytes);
    assert_eq!(decode_stream(&mut s), Ok(()));
    assert_eq!(s.state, State::Decoded);
    assert_eq!(
        s.events,
        vec![
            Event::TraceInfo { info: 0, p0_key: 0, curr_spec_depth: 0, cc_threshold: 0 },
            Event::Atom { atom: E },
            Event::Commit { count: 1 },
            Event::TraceOn,
            Event::PacketError {
                offset: 16,
                kind: PacketKind::Event,
                error: DecodeError::Unsupported,
            },
            Event::UnknownHeader { offset: 17, header: 0x0a },
            Event::TraceOn,
        ]
    );
}

// ---- extension, trace on, timestamp ----

#[test]
fn extension_packets() {
    let mut s = decoding_stream_of(&async_packet());
    assert!(is_async(&s.buff, 0));
    assert_eq!(decode_extension(0, &mut s), Ok(12));
    assert!(s.events.is_empty());

    let mut s = decoding_stream_of(&[0x00, 0x03]);
    assert_eq!(decode_extension(0, &mut s), Ok(2));
    assert_eq!(s.events, vec![Event::Discard]);

    let mut s = decoding_stream_of(&[0x00, 0x05]);
    assert_eq!(decode_extension(0, &mut s), Ok(2));
    assert_eq!(s.events, vec![Event::Overflow]);

    let mut s = decoding_stream_of(&[0x00, 0x07]);
    assert_eq!(decode_extension(0, &mut s), Err(DecodeError::InvalidExtension));

    let mut bad = async_packet();
    bad[5] = 0x01;
    let mut s = decoding_stream_of(&bad);
    assert!(!is_async(&s.buff, 0));
    assert_eq!(decode_extension(0, &mut s), Err(DecodeError::InvalidAsync));

    let mut s = decoding_stream_of(&[0x00, 0x00, 0x00]);
    assert_eq!(decode_extension(0, &mut s), Err(DecodeError::Truncated));
    let mut s = decoding_stream_of(&[0x00]);
    assert_eq!(decode_extension(0, &mut s), Err(DecodeError::Truncated));
}

#[test]
fn trace_on_is_one_byte() {
    let mut s = decoding_stream_of(&[0x04]);
    assert_eq!(decode_trace_on(0, &mut s), Ok(1));
    assert_eq!(s.events, vec![Event::TraceOn]);
    assert_eq!(decode_trace_on(1, &mut s), Err(DecodeError::Truncated));
}

#[test]
fn timestamp_merge_replaces_low_bits() {
    assert_eq!(merge_timestamp(0x1234_5678, 0xABC, 12), 0x1234_5ABC);
    assert_eq!(merge_timestamp(0x1234_5678, 0, 12), 0x1234_5678);
    assert_eq!(merge_timestamp(0xffff_ffff_ffff_ffff, 0x5, 64), 0x5);
}

#[test]
fn timestamp_packet_with_cycle_count() {
    let mut s = decoding_stream_of(&[0x03, 0x81, 0x01, 0x05]);
    s.tracer.timestamp = 0xffff;
    assert_eq!(decode_timestamp(0, &mut s), Ok(4));
    assert_eq!(s.tracer.timestamp, 0xc081);
    assert_eq!(s.events, vec![Event::Timestamp { timestamp: 0xc081, cycle_count: Some(5) }]);
}

#[test]
fn timestamp_ninth_byte_gives_eight_bits() {
    let mut bytes = vec![0x02];
    bytes.extend_from_slice(&[0x80; 8]);
    bytes.push(0xff);
    let mut s = decoding_stream_of(&bytes);
    s.tracer.timestamp = 0x1234;
    assert_eq!(decode_timestamp(0, &mut s), Ok(10));
    assert_eq!(s.tracer.timestamp, 0xff00_0000_0000_0000);
    assert_eq!(
        s.events,
        vec![Event::Timestamp { timestamp: 0xff00_0000_0000_0000, cycle_count: None }]
    );
}

#[test]
fn timestamp_zero_keeps_running_value() {
    let mut s = decoding_stream_of(&[0x02, 0x00]);
    s.tracer.timestamp = 0x42;
    assert_eq!(decode_timestamp(0, &mut s), Ok(2));
    assert_eq!(s.tracer.timestamp, 0x42);
    let mut s = decoding_stream_of(&[0x03, 0x01, 0x80]);
    assert_eq!(decode_timestamp(0, &mut s), Err(DecodeError::Truncated));
    assert!(s.events.is_empty());
}

#[test]
fn tracer_ts_reports_cycle_count() {
    let mut t = Etmv4Tracer::new();
    let mut ev = Vec::new();
    tracer_ts(&mut t, &mut ev, 0x7f, true, 3, 7);
    assert_eq!(t.timestamp, 0x7f);
    assert_eq!(ev, vec![Event::Timestamp { timestamp: 0x7f, cycle_count: Some(3) }]);
}

// ---- addresses and context ----

#[test]
fn long_address_32bit_is0() {
    let mut s = decoding_stream_of(&[0x9a, 0x7f, 0x7f, 0x34, 0x12]);
    s.tracer.address_register[0].address = 0xaaaa_bbbb_0000_0000;
    assert_eq!(decode_long_address(0, &mut s), Ok(5));
    assert_eq!(s.tracer.address_register[0].address, 0xaaaa_bbbb_1234_fffc);
    assert_eq!(s.tracer.address_register[0].is, AddrReg::AddrRegIs0);
    assert_eq!(
        s.events,
        vec![Event::Address {
            address: 0xaaaa_bbbb_1234_fffc,
            is: AddrReg::AddrRegIs0,
            sixty_four_bit: false
        }]
    );
}

#[test]
fn long_address_64bit_is1() {
    let mut s = decoding_stream_of(&[0x9e, 0x01, 0x02, 0x03, 0x04, 0x05, 0x06, 0x07, 0x08]);
    assert_eq!(decode_long_address(0, &mut s), Ok(9));
    assert_eq!(s.tracer.address_register[0].address, 0x0807_0605_0403_0202);
    assert_eq!(s.tracer.address_register[0].is, AddrReg::AddrRegIs1);
}

#[test]
fn long_address_errors() {
    let mut s = decoding_stream_of(&[0x9a, 0x00]);
    assert_eq!(decode_long_address(0, &mut s), Err(DecodeError::Truncated));
    let mut s = decoding_stream_of(&[0x95, 0x00, 0x00, 0x00, 0x00]);
    assert_eq!(decode_long_address(0, &mut s), Err(DecodeError::UnexpectedHeader));
    assert!(s.events.is_empty());
}

#[test]
fn short_address_replaces_low_bits() {
    let mut s = decoding_stream_of(&[0x95, 0x05]);
    s.tracer.address_register[0].address = 0x1234_fffc;
    assert_eq!(decode_short_address(0, &mut s), Ok(2));
    assert_eq!(s.tracer.address_register[0].address, 0x1234_fe14);
    assert_eq!(s.tracer.address_register[1].address, 0x1234_fffc);

    let mut s = decoding_stream_of(&[0x95, 0x81, 0x12]);
    assert_eq!(decode_short_address(0, &mut s), Ok(3));
    assert_eq!(s.tracer.address_register[0].address, (0x12 << 9) | (0x01 << 2));
}

#[test]
fn short_address_is1_second_byte_combines_with_and() {
    let mut s = decoding_stream_of(&[0x96, 0x81, 0x12]);
    s.tracer.address_register[0].address = 0xffff;
    assert_eq!(decode_short_address(0, &mut s), Ok(3));
    assert_eq!(s.tracer.address_register[0].address, 0);
    assert_eq!(s.tracer.address_register[0].is, AddrReg::AddrRegIs1);

    let mut s = decoding_stream_of(&[0x96, 0x05]);
    s.tracer.address_register[0].address = 0xff00;
    assert_eq!(decode_short_address(0, &mut s), Ok(2));
    assert_eq!(s.tracer.address_register[0].address, 0xff0a);
}

#[test]
fn exact_match_reuses_an_older_address() {
    let mut s = decoding_stream_of(&[0x91, 0x93]);
    update_address_regs(&mut s.tracer, 0xa, AddrReg::AddrRegIs0);
    update_address_regs(&mut s.tracer, 0xb, AddrReg::AddrRegIs1);
    assert_eq!(decode_exact_match_address(0, &mut s), Ok(1));
    let addrs: Vec<u64> = s.tracer.address_register.iter().map(|r| r.address).collect();
    assert_eq!(addrs, vec![0xa, 0xb, 0xa]);
    assert_eq!(s.tracer.address_register[0].is, AddrReg::AddrRegIs0);
    assert_eq!(decode_exact_match_address(1, &mut s), Err(DecodeError::InvalidExactMatchIndex));
}

#[test]
fn address_register_history_keeps_three() {
    let mut t = Etmv4Tracer::new();
    update_address_regs(&mut t, 0xa, AddrReg::AddrRegIs0);
    update_address_regs(&mut t, 0xb, AddrReg::AddrRegIs1);
    update_address_regs(&mut t, 0xc, AddrReg::AddrRegIs0);
    assert_eq!(t.address_register[0].address, 0xc);
    assert_eq!(t.address_register[1].address, 0xb);
    assert_eq!(t.address_register[2].address, 0xa);
    update_address_regs(&mut t, 0xd, AddrReg::AddrRegIs0);
    assert_eq!(t.address_register[2].address, 0xb);
    reset_address_register(&mut t);
    assert_eq!(t.address_register, [AddressRegister::new(); 3]);
}

#[test]
fn context_packet_with_vmid_and_context_id() {
    let mut s = decoding_stream_of(&[0x81, 0xc2, 0x07, 0x78, 0x56, 0x34, 0x12]);
    assert_eq!(decode_context(0, &mut s), Ok(7));
    assert_eq!(s.tracer.ex_level, 2);
    assert!(!s.tracer.sixty_four_bit);
    assert!(s.tracer.security);
    assert_eq!(s.tracer.vmid, 7);
    assert_eq!(s.tracer.context_id, 0x1234_5678);
    assert_eq!(
        s.events,
        vec![Event::Context {
            context_id: 0x1234_5678,
            vmid: 7,
            ex_level: 2,
            security: true,
            sixty_four_bit: false
        }]
    );
}

#[test]
fn context_packet_without_update_repeats_context() {
    let mut s = decoding_stream_of(&[0x80, 0xff]);
    s.tracer.vmid = 3;
    assert_eq!(decode_context(0, &mut s), Ok(1));
    assert_eq!(s.tracer.vmid, 3);
    assert_eq!(s.events.len(), 1);
    let mut s = decoding_stream_of(&[0x81, 0x80, 0x01]);
    assert_eq!(decode_context(0, &mut s), Err(DecodeError::Truncated));
}

#[test]
fn address_with_context_emits_context_then_address() {
    let mut s = decoding_stream_of(&[0x85, 0x01, 0x00, 0x00, 0x00, 0x00, 0x00, 0x00, 0x00, 0x31]);
    assert_eq!(decode_address_context(0, &mut s), Ok(10));
    assert_eq!(s.tracer.address_register[0].address, 0x4);
    assert_eq!(s.tracer.ex_level, 1);
    assert!(s.tracer.sixty_four_bit);
    assert!(!s.tracer.security);
    assert_eq!(
        s.events,
        vec![
            Event::Context {
                context_id: 0,
                vmid: 0,
                ex_level: 1,
                security: false,
                sixty_four_bit: true
            },
            Event::Address { address: 0x4, is: AddrReg::AddrRegIs0, sixty_four_bit: true },
        ]
    );
}

// ---- exceptions ----

#[test]
fn exception_without_address() {
    let mut s = decoding_stream_of(&[0x06, 0x1d]);
    s.tracer.address_register[0].address = 0x400;
    assert_eq!(decode_exception(0, &mut s), Ok(2));
    assert_eq!(
        s.events,
        vec![
            Event::Exception { exception_type: 14, address: 0x400 },
            Event::CondFlush,
            Event::Commit { count: 1 },
        ]
    );
    assert_eq!(exception_name(14), "IRQ");
}

#[test]
fn exception_with_address_decodes_the_address_first() {
    let mut s = decoding_stream_of(&[0x06, 0x40, 0x9a, 0x00, 0x01, 0x00, 0x00]);
    assert_eq!(decode_exception(0, &mut s), Ok(7));
    assert_eq!(s.tracer.address_register[0].address, 0x200);
    assert_eq!(
        s.events,
        vec![
            Event::Address { address: 0x200, is: AddrReg::AddrRegIs0, sixty_four_bit: false },
            Event::Exception { exception_type: 0, address: 0x200 },
            Event::CondFlush,
            Event::Commit { count: 1 },
        ]
    );
}

#[test]
fn exception_errors() {
    let mut s = decoding_stream_of(&[0x06, 0x02]);
    assert_eq!(decode_exception(0, &mut s), Err(DecodeError::InvalidExceptionEe));
    let mut s = decoding_stream_of(&[0x06, 0x40, 0x04]);
    assert_eq!(decode_exception(0, &mut s), Err(DecodeError::InvalidAddressInException));
    let mut s = decoding_stream_of(&[0x06, 0x40, 0x9a, 0x00]);
    assert_eq!(decode_exception(0, &mut s), Err(DecodeError::InvalidAddressInException));
    assert!(s.events.is_empty());
    let mut s = decoding_stream_of(&[0x06, 0x80]);
    assert_eq!(decode_exception(0, &mut s), Err(DecodeError::Truncated));
}

#[test]
fn exception_return() {
    let mut s = decoding_stream_of(&[0x07]);
    assert_eq!(decode_exception(0, &mut s), Ok(1));
    assert_eq!(s.events, vec![Event::ExceptionReturn]);
}

#[test]
fn exception_names() {
    assert_eq!(exception_name(0), "PE reset");
    assert_eq!(exception_name(5), "Reserved");
    assert_eq!(exception_name(15), "FIQ");
    assert_eq!(exception_name(20), "Reserved");
}

// ---- atoms, P0 keys and speculation ----

#[test]
fn atom_formats() {
    let cases: Vec<(u8, Vec<AtomType>)> = vec![
        (0xf7, vec![E]),
        (0xf6, vec![N]),
        (0xd9, vec![E, N]),
        (0xfa, vec![N, E, N]),
        (0xdc, vec![N, E, E, E]),
        (0xdd, vec![N, N, N, N]),
        (0xde, vec![N, E, N, E]),
        (0xdf, vec![E, N, E, N]),
        (0xf5, vec![N, E, E, E, E]),
        (0xd5, vec![N, N, N, N, N]),
        (0xd6, vec![N, E, N, E, N]),
        (0xd7, vec![E, N, E, N, E]),
    ];
    for (h, expected) in cases {
        let mut s = decoding_stream_of(&[h]);
        let r = match h {
            0xf6 | 0xf7 => decode_atom_format_1(0, &mut s),
            0xd8..=0xdb => decode_atom_format_2(0, &mut s),
            0xf8..=0xff => decode_atom_format_3(0, &mut s),
            0xdc..=0xdf => decode_atom_format_4(0, &mut s),
            _ => decode_atom_format_5(0, &mut s),
        };
        assert_eq!(r, Ok(1));
        assert_eq!(atoms(&s.events), expected, "header {:#x}", h);
    }
}

#[test]
fn p0_key_without_maximum_never_changes() {
    let mut t = Etmv4Tracer::new();
    t.p0_key = 6;
    let mut ev = Vec::new();
    for _ in 0..5 {
        tracer_atom(&mut t, &mut ev, E);
        tracer_exception(&mut t, &mut ev, 2);
    }
    assert_eq!(t.p0_key, 6);
}

#[test]
fn p0_key_cycles_below_maximum() {
    let mut t = Etmv4Tracer::new();
    t.p0_key_max = 3;
    let mut ev = Vec::new();
    let mut seen = Vec::new();
    for _ in 0..7 {
        tracer_atom(&mut t, &mut ev, N);
        seen.push(t.p0_key);
    }
    assert_eq!(seen, vec![1, 2, 0, 1, 2, 0, 1]);
}

#[test]
fn p0_key_at_limit_does_not_overflow() {
    let mut t = Etmv4Tracer::new();
    t.p0_key_max = u32::MAX;
    t.p0_key = u32::MAX - 1;
    let mut ev = Vec::new();
    tracer_atom(&mut t, &mut ev, E);
    assert_eq!(t.p0_key, 0);
}

#[test]
fn speculation_depth_unchanged_without_speculation() {
    let mut t = Etmv4Tracer::new();
    t.curr_spec_depth = 4;
    let mut ev = Vec::new();
    tracer_atom(&mut t, &mut ev, E);
    assert_eq!(t.curr_spec_depth, 4);
    tracer_exception(&mut t, &mut ev, 3);
    assert_eq!(t.curr_spec_depth, 4);
    assert_eq!(
        ev,
        vec![
            Event::Atom { atom: E },
            Event::Commit { count: 1 },
            Event::Exception { exception_type: 3, address: 0 },
            Event::CondFlush,
            Event::Commit { count: 1 },
        ]
    );
}

#[test]
fn speculation_depth_grows_up_to_maximum() {
    let mut t = Etmv4Tracer::new();
    t.max_spec_depth = 2;
    let mut ev = Vec::new();
    tracer_atom(&mut t, &mut ev, E);
    tracer_atom(&mut t, &mut ev, E);
    assert_eq!(t.curr_spec_depth, 2);
    assert_eq!(ev, vec![Event::Atom { atom: E }, Event::Atom { atom: E }]);
    tracer_atom(&mut t, &mut ev, N);
    assert_eq!(t.curr_spec_depth, 2);
    assert_eq!(ev.last(), Some(&Event::Commit { count: 1 }));
}

// ---- tracer helpers ----

#[test]
fn tracer_trace_info_reports_new_values() {
    let mut t = Etmv4Tracer::new();
    let mut ev = Vec::new();
    tracer_trace_info(&mut t, &mut ev, 0x5, 1, 2, 3, 4);
    assert_eq!(t.info, 1);
    assert_eq!(t.p0_key, 0);
    assert_eq!(t.curr_spec_depth, 3);
    assert_eq!(t.cc_threshold, 0);
    assert_eq!(ev, vec![Event::TraceInfo { info: 1, p0_key: 0, curr_spec_depth: 3, cc_threshold: 0 }]);
}

#[test]
fn tracer_context_without_update_keeps_state() {
    let mut t = Etmv4Tracer::new();
    t.ex_level = 3;
    let mut ev = Vec::new();
    tracer_context(&mut t, &mut ev, 0, 1, 1, 1, 1, 9, 1, 5);
    assert_eq!(t.ex_level, 3);
    assert_eq!(t.vmid, 0);
    tracer_context(&mut t, &mut ev, 1, 1, 1, 1, 0, 9, 0, 5);
    assert_eq!(t.ex_level, 1);
    assert!(t.sixty_four_bit);
    assert!(!t.security);
    assert_eq!(t.vmid, 0);
    assert_eq!(t.context_id, 0);
}

// ---- unsupported packet classes ----

#[test]
fn unsupported_packets_fail_without_side_effects() {
    let mut s = decoding_stream_of(&[0x2d, 0xd0, 0xa0]);
    assert_eq!(decode_commit(0, &mut s), Err(DecodeError::Unsupported));
    assert_eq!(decode_atom_format_6(1, &mut s), Err(DecodeError::Unsupported));
    assert_eq!(decode_q(2, &mut s), Err(DecodeError::Unsupported));
    assert!(s.events.is_empty());
    assert_eq!(DecodeError::Unsupported.message(), "Decoding of this packet type is not supported");
}
