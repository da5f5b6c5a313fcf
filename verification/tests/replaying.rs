//! The framing of a replay file, and what it says of a file that is wrong.

use bota::replay::{
    Budget, Fault, Flaw, Framing, MAX_BYTES_PER_POLL, MAX_PAYLOAD_LEN, MAX_READS_PER_POLL,
    MAX_RECORDS_PER_POLL,
};

/// What the framing says of a whole file handed in at once, then ended.
fn framed(bytes: &[u8]) -> (Vec<Vec<u8>>, Result<(), Fault>) {
    let mut framing = Framing::new();
    let mut out = Vec::new();
    let mut at = 0;
    while at < bytes.len() {
        let n = framing.wanted(MAX_BYTES_PER_POLL).min(bytes.len() - at);
        match framing.took(&bytes[at..at + n]) {
            Ok(Some(whole)) => out.push(whole),
            Ok(None) => {}
            Err(fault) => return (out, Err(fault)),
        }
        at += n;
    }
    let end = framing.ended();
    (out, end)
}

#[test]
fn empty_input_is_an_error_instead_of_clean_eof() {
    assert_eq!(framed(&[]).1, Err(Fault { record: 1, at: 0, flaw: Flaw::NoRecords }));
}

#[test]
fn zero_payload_length_is_rejected() {
    assert_eq!(framed(&[0; 4]).1, Err(Fault { record: 1, at: 0, flaw: Flaw::EmptyPayload }));
}

#[test]
fn every_partial_length_prefix_reports_the_missing_bytes() {
    for length in 1..4 {
        assert_eq!(
            framed(&vec![1; length]).1,
            Err(Fault { record: 1, at: 0, flaw: Flaw::TruncatedPrefix(length) })
        );
    }
}

#[test]
fn oversized_lengths_are_rejected_before_reading_a_payload() {
    for length in [MAX_PAYLOAD_LEN as u32 + 1, u32::MAX] {
        assert_eq!(
            framed(&length.to_le_bytes()).1,
            Err(Fault { record: 1, at: 0, flaw: Flaw::TooLong(length as usize) })
        );
    }
}

#[test]
fn a_payload_is_handed_over_whole_for_decoding() {
    // The framing hands the byte over whole; deciding that it decodes to
    // nothing is for whoever decodes it, and the file has not ended early.
    let (records, end) = framed(&[1, 0, 0, 0, 255]);
    assert_eq!(records, vec![vec![255]]);
    assert_eq!(end, Ok(()));
}

#[test]
fn every_partial_payload_reports_the_missing_bytes() {
    let payload: Vec<u8> = (0..37).collect();
    let mut frame = (payload.len() as u32).to_le_bytes().to_vec();
    frame.extend(&payload);
    let length = frame.len() - 4;
    for received in 0..length {
        assert_eq!(
            framed(&frame[..4 + received]).1,
            Err(Fault { record: 1, at: 0, flaw: Flaw::TruncatedPayload(length, received) })
        );
    }
}

#[test]
fn a_fault_names_the_record_and_the_byte_it_starts_at() {
    let mut file = vec![2, 0, 0, 0, 7, 8, 1, 0, 0, 0, 9];
    file.extend([0, 0, 0, 0]);
    let (records, end) = framed(&file);
    assert_eq!(records, vec![vec![7, 8], vec![9]]);
    assert_eq!(end, Err(Fault { record: 3, at: 11, flaw: Flaw::EmptyPayload }));
}

#[test]
fn no_more_is_asked_for_than_the_budget_or_the_record_wants() {
    let mut framing = Framing::new();
    assert_eq!(framing.wanted(MAX_BYTES_PER_POLL), 4);
    assert_eq!(framing.wanted(3), 3);
    assert_eq!(framing.took(&[0, 0, 1, 0]), Ok(None));
    assert_eq!(framing.wanted(MAX_BYTES_PER_POLL), 65536);
    assert_eq!(framing.wanted(100), 100);
}

#[test]
fn a_poll_asks_within_its_bytes_and_stops_when_they_are_spent() {
    let framing = Framing::new();
    let mut budget = Budget::full();
    assert_eq!(budget.ask(&framing), Some(4));
    budget.spend(MAX_BYTES_PER_POLL - 2);
    assert_eq!(budget.bytes, 2);
    assert_eq!(budget.calls, MAX_READS_PER_POLL - 1);
    assert_eq!(budget.ask(&framing), Some(2));
    budget.spend(2);
    assert_eq!(budget.ask(&framing), None);
}

#[test]
fn an_interrupted_call_counts_against_the_calls() {
    let framing = Framing::new();
    let mut budget = Budget::full();
    for _ in 0..MAX_READS_PER_POLL {
        assert!(budget.ask(&framing).is_some());
        budget.spend(0);
    }
    assert_eq!(budget.bytes, MAX_BYTES_PER_POLL);
    assert_eq!(budget.ask(&framing), None);
}

#[test]
fn a_poll_hands_over_no_more_records_than_its_budget() {
    // Records of one byte each, read a call at a time.
    let mut framing = Framing::new();
    let mut budget = Budget::full();
    let mut handed = 0;
    let record = [1u8, 0, 0, 0, 42];
    let mut at = 0;
    while let Some(asked) = budget.ask(&framing) {
        let count = asked.min(record.len() - at);
        budget.spend(count);
        if let Some(whole) = framing.took(&record[at..at + count]).expect("well framed") {
            assert_eq!(whole, vec![42]);
            budget.handed();
            handed += 1;
        }
        at = (at + count) % record.len();
    }
    assert_eq!(handed, MAX_RECORDS_PER_POLL);
    assert_eq!(budget.records, 0);
    assert_eq!(budget.calls, MAX_READS_PER_POLL - 2 * MAX_RECORDS_PER_POLL);
}
