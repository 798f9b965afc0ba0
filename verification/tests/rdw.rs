use ebcdic_lsp::rdw::{
    for_each_record, Deframer, Error, Records, SegmentFlag, Stats, Step, Tally, DESCRIPTOR_LEN,
};

/// Build a physical segment: 2-byte length including descriptor, flag, reserved zero.
fn segment(flag: u8, payload: &[u8]) -> Vec<u8> {
    let total = (payload.len() + DESCRIPTOR_LEN) as u16;
    let mut out = total.to_be_bytes().to_vec();
    out.push(flag);
    out.push(0x00);
    out.extend_from_slice(payload);
    out
}

fn collect(bytes: &[u8]) -> Result<Vec<Vec<u8>>, Error> {
    let mut records = Records::new(bytes);
    let mut out = Vec::new();
    while let Some(record) = records.next()? {
        out.push(record);
    }
    Ok(out)
}

#[test]
fn reads_complete_records() {
    let mut file = segment(0x00, b"first");
    file.extend(segment(0x00, b"second"));
    assert_eq!(
        collect(&file).unwrap(),
        [b"first".to_vec(), b"second".to_vec()]
    );
}

#[test]
fn rejoins_a_first_last_segment_pair() {
    // The common two-segment shape: a first segment (0x01) then a last segment (0x02).
    let mut file = segment(0x01, b"HELLO ");
    file.extend(segment(0x02, b"WORLD"));
    assert_eq!(collect(&file).unwrap(), [b"HELLO WORLD".to_vec()]);
}

#[test]
fn rejoins_a_span_with_middle_segments() {
    let mut file = segment(0x01, b"AA");
    file.extend(segment(0x03, b"BB"));
    file.extend(segment(0x03, b"CC"));
    file.extend(segment(0x02, b"DD"));
    assert_eq!(collect(&file).unwrap(), [b"AABBCCDD".to_vec()]);
}

#[test]
fn interleaves_complete_and_spanned_records() {
    let mut file = segment(0x00, b"one");
    file.extend(segment(0x01, b"tw"));
    file.extend(segment(0x02, b"o"));
    file.extend(segment(0x00, b"three"));
    assert_eq!(
        collect(&file).unwrap(),
        [b"one".to_vec(), b"two".to_vec(), b"three".to_vec()]
    );
}

#[test]
fn handles_zero_length_payload() {
    let mut file = segment(0x00, b"");
    file.extend(segment(0x00, b"x"));
    assert_eq!(collect(&file).unwrap(), [Vec::new(), b"x".to_vec()]);
}

#[test]
fn empty_input_yields_no_records() {
    assert_eq!(collect(&[]).unwrap(), Vec::<Vec<u8>>::new());
}

#[test]
fn rejects_an_unknown_segment_flag() {
    // 0x04 is not a valid flag; a plain text file hits this almost immediately, which is what
    // makes --rdw safe to pass by mistake.
    let file = segment(0x04, b"x");
    assert!(matches!(
        collect(&file),
        Err(Error::BadDescriptor { offset: 0, .. })
    ));
}

#[test]
fn rejects_a_nonzero_reserved_byte() {
    let file = vec![0x00, 0x06, 0x00, 0x99, b'a', b'b'];
    assert!(matches!(
        collect(&file),
        Err(Error::BadDescriptor { offset: 0, .. })
    ));
}

#[test]
fn rejects_a_length_below_the_descriptor() {
    let file = vec![0x00, 0x03, 0x00, 0x00];
    assert!(matches!(
        collect(&file),
        Err(Error::BadDescriptor { offset: 0, .. })
    ));
}

#[test]
fn reports_truncation_with_the_offset() {
    // Claims 10 bytes total but supplies only 2 of the 6 payload bytes.
    let file = vec![0x00, 0x0A, 0x00, 0x00, b'a', b'b'];
    match collect(&file) {
        Err(Error::Truncated {
            offset,
            expected,
            got,
        }) => {
            assert_eq!((offset, expected, got), (4, 6, 2));
        }
        other => panic!("expected truncation, got {other:?}"),
    }
}

#[test]
fn reports_an_unterminated_spanned_record() {
    let file = segment(0x01, b"start");
    assert!(matches!(
        collect(&file),
        Err(Error::UnterminatedSegment { offset: 0 })
    ));
}

#[test]
fn rejects_a_complete_record_inside_a_span() {
    let mut file = segment(0x01, b"start");
    file.extend(segment(0x00, b"oops"));
    assert!(matches!(collect(&file), Err(Error::BadDescriptor { .. })));
}

#[test]
fn stats_count_segments_and_spans() {
    let mut file = segment(0x00, b"one");
    file.extend(segment(0x01, b"tw"));
    file.extend(segment(0x02, b"o"));
    let mut seen = Vec::new();
    let stats = for_each_record(&file[..], |record| {
        seen.push(record.to_vec());
        Ok(())
    })
    .unwrap();

    assert_eq!(stats.logical_records, 2);
    assert_eq!(
        stats.physical_segments, 3,
        "the spanned record used two segments"
    );
    assert_eq!(stats.spanned_records, 1);
    assert_eq!(stats.payload_bytes, 6, "\"one\" plus \"two\"");
    assert_eq!(seen, [b"one".to_vec(), b"two".to_vec()]);
}

#[test]
fn an_error_from_the_callback_stops_the_walk() {
    let mut file = segment(0x00, b"one");
    file.extend(segment(0x00, b"two"));
    file.extend(segment(0x00, b"three"));
    let mut seen = 0;
    let result = for_each_record(&file, |_| {
        seen += 1;
        if seen == 2 {
            Err(Error::Io("output closed".to_string()))
        } else {
            Ok(())
        }
    });
    assert_eq!(seen, 2);
    assert_eq!(result.unwrap_err().message(), "output closed");
}

#[test]
fn records_before_a_fault_are_still_handed_out() {
    let mut file = segment(0x00, b"one");
    file.extend(b"not a descriptor");
    let mut seen = Vec::new();
    let result = for_each_record(&file, |record| {
        seen.push(record.to_vec());
        Ok(())
    });
    assert_eq!(seen, [b"one".to_vec()]);
    assert!(matches!(
        result,
        Err(Error::BadDescriptor { offset: 7, .. })
    ));
}

#[test]
fn an_unterminated_record_is_reported_where_it_starts() {
    let mut file = segment(0x00, b"one");
    file.extend(segment(0x01, b"tw"));
    file.extend(segment(0x03, b"o"));
    assert!(matches!(
        collect(&file),
        Err(Error::UnterminatedSegment { offset: 7 })
    ));
}

#[test]
fn a_file_may_end_inside_a_descriptor() {
    let mut file = segment(0x00, b"one");
    file.extend([0x00, 0x05]);
    assert!(matches!(
        collect(&file),
        Err(Error::Truncated {
            offset: 7,
            expected: 4,
            got: 2
        })
    ));
}

#[test]
fn messages_say_what_is_wrong_and_where() {
    let bad_flag = collect(&segment(0x04, b"x")).unwrap_err();
    assert_eq!(
        bad_flag.message(),
        "invalid record descriptor at byte 0: unknown segment flag 0x04. The file may not be \
         RDW-framed; try again without --rdw."
    );
    let reserved = collect(&[0x00, 0x06, 0x00, 0x99, b'a', b'b']).unwrap_err();
    assert_eq!(
        reserved.message(),
        "invalid record descriptor at byte 0: reserved byte is 0x99, expected 0x00. The file may \
         not be RDW-framed; try again without --rdw."
    );
    let short = collect(&[0x00, 0x03, 0x00, 0x00]).unwrap_err();
    assert_eq!(
        short.message(),
        "invalid record descriptor at byte 0: length 3 is smaller than the 4-byte descriptor. The \
         file may not be RDW-framed; try again without --rdw."
    );
    let truncated = collect(&[0x00, 0x0A, 0x00, 0x00, b'a', b'b']).unwrap_err();
    assert_eq!(
        truncated.message(),
        "record at byte 4 claims 6 bytes but only 2 remain"
    );
    let unterminated = collect(&segment(0x01, b"start")).unwrap_err();
    assert_eq!(
        unterminated.message(),
        "file ends inside a spanned record starting at byte 0"
    );
}

#[test]
fn flags_are_read_off_their_bytes() {
    assert_eq!(SegmentFlag::from_byte(0x00), Some(SegmentFlag::Complete));
    assert_eq!(SegmentFlag::from_byte(0x01), Some(SegmentFlag::First));
    assert_eq!(SegmentFlag::from_byte(0x02), Some(SegmentFlag::Last));
    assert_eq!(SegmentFlag::from_byte(0x03), Some(SegmentFlag::Middle));
    assert_eq!(SegmentFlag::from_byte(0x04), None);
    assert_eq!(SegmentFlag::from_byte(0xFF), None);
}

#[test]
fn a_full_segment_and_its_record_come_back() {
    let payload: Vec<u8> = (0..65_531u32).map(|i| i as u8).collect();
    let mut file = segment(0x01, &payload);
    file.extend(segment(0x02, &payload));
    let records = collect(&file).unwrap();
    assert_eq!(records.len(), 1);
    assert_eq!(records[0], [payload.clone(), payload].concat());
}

#[test]
fn a_deframer_asks_for_descriptors_and_payloads_in_turn() {
    let mut deframer = Deframer::new();
    assert_eq!(deframer.wanted(), 4);
    assert!(matches!(
        deframer.supply(&[0x00, 0x07, 0x00, 0x00]),
        Ok(Step::Read)
    ));
    assert_eq!(deframer.wanted(), 3);
    match deframer.supply(b"abc") {
        Ok(Step::Record(record)) => assert_eq!(record, b"abc"),
        other => panic!("expected a record, got {other:?}"),
    }
    assert_eq!(deframer.offset(), 7);
    assert!(matches!(deframer.supply(b""), Ok(Step::End)));
    assert_eq!(deframer.wanted(), 0);
}

#[test]
fn a_tally_infers_segments_from_the_offset() {
    let mut tally = Tally::new();
    assert_eq!(tally.stats(), Stats::default());
    tally.count(7, 3);
    tally.count(26, 11);
    assert_eq!(
        tally.stats(),
        Stats {
            logical_records: 2,
            physical_segments: 3,
            spanned_records: 1,
            payload_bytes: 14,
        }
    );
}

#[test]
fn a_span_is_open_though_its_segments_are_empty() {
    let mut records = Records::new(&[0x00, 0x04, 0x01, 0x00]);
    assert!(matches!(
        records.next(),
        Err(Error::UnterminatedSegment { offset: 0 })
    ));

    let mut file = segment(0x01, b"");
    file.extend(segment(0x00, b"oops"));
    assert!(matches!(
        collect(&file),
        Err(Error::BadDescriptor { offset: 4, .. })
    ));

    let mut file = segment(0x01, b"");
    file.extend(segment(0x03, b""));
    file.extend(segment(0x02, b""));
    assert_eq!(collect(&file).unwrap(), [Vec::<u8>::new()]);
}

#[test]
fn a_middle_segment_without_a_first_starts_a_span() {
    let mut file = segment(0x00, b"one");
    file.extend(segment(0x03, b"two"));
    assert!(matches!(
        collect(&file),
        Err(Error::UnterminatedSegment { offset: 7 })
    ));
    file.extend(segment(0x02, b"!"));
    assert_eq!(collect(&file).unwrap(), [b"one".to_vec(), b"two!".to_vec()]);
}

#[test]
fn the_end_is_final() {
    let file = segment(0x00, b"one");
    let mut records = Records::new(&file);
    assert!(records.next().unwrap().is_some());
    for _ in 0..3 {
        assert!(records.next().unwrap().is_none());
        assert_eq!(records.offset(), 7);
    }

    let file = segment(0x01, b"one");
    let mut records = Records::new(&file);
    assert!(records.next().is_err());
    assert!(records.next().unwrap().is_none());
}
