//! Tests of the account framing and the event-queue split-ring decoding.

use crank::decode::{strip_padding, MalformedAccount};
use crank::keys::Pubkey;
use crank::queue::{parse_event_queue, Event, MalformedQueue};

fn framed(inner: &[u8]) -> Vec<u8> {
    let mut v = Vec::new();
    v.extend_from_slice(b"serum");
    v.extend_from_slice(inner);
    v.extend_from_slice(b"padding");
    v
}

fn words_to_bytes(words: &[u64]) -> Vec<u8> {
    let mut v = Vec::new();
    for w in words {
        v.extend_from_slice(&w.to_le_bytes());
    }
    v
}

#[test]
fn strip_padding_round_trip() {
    let inner: Vec<u64> = vec![1, 2, 0xdead_beef_0000_0001, u64::MAX];
    let data = framed(&words_to_bytes(&inner));
    let words = strip_padding(&data).expect("well-framed account");
    assert_eq!(words, inner);
}

#[test]
fn strip_padding_empty_inner() {
    let data = framed(&[]);
    assert_eq!(data.len(), 12);
    let words = strip_padding(&data).expect("empty inner payload");
    assert!(words.is_empty());
}

#[test]
fn strip_padding_too_short() {
    assert_eq!(strip_padding(b"serumpaddin"), Err(MalformedAccount::TooShort));
    assert_eq!(strip_padding(b""), Err(MalformedAccount::TooShort));
}

#[test]
fn strip_padding_head_mismatch() {
    let mut data = framed(&[1, 2, 3, 4, 5, 6, 7, 8]);
    data[0] = b'x';
    assert_eq!(strip_padding(&data), Err(MalformedAccount::HeadMismatch));
}

#[test]
fn strip_padding_tail_mismatch() {
    let mut data = framed(&[1, 2, 3, 4, 5, 6, 7, 8]);
    let last = data.len() - 1;
    data[last] = b'x';
    assert_eq!(strip_padding(&data), Err(MalformedAccount::TailMismatch));
}

#[test]
fn strip_padding_word_misaligned() {
    let data = framed(&[1, 2, 3]);
    assert_eq!(strip_padding(&data), Err(MalformedAccount::WordMisaligned));
}

#[test]
fn strip_padding_little_endian_words() {
    let data = framed(&[0x01, 0x02, 0x03, 0x04, 0x05, 0x06, 0x07, 0x08]);
    let words = strip_padding(&data).expect("one word");
    assert_eq!(words, vec![0x0807_0605_0403_0201]);
}

/// Builds the inner words of an event queue: header then `capacity` event
/// records whose owner's first word is the record index.
fn queue_words(head: u64, count: u64, capacity: usize) -> Vec<u64> {
    let mut words: Vec<u64> = vec![0x11, head, count, 7];
    for i in 0..capacity {
        let mut record = [0u64; 11];
        record[0] = 0x0001_0203; // flags, owner slot, fee tier
        record[6] = i as u64; // owner word 0
        record[10] = 1000 + i as u64; // client order id
        words.extend_from_slice(&record);
    }
    words
}

#[test]
fn parse_event_queue_header_decode() {
    assert_eq!(
        parse_event_queue(&vec![1, 2, 3]),
        Err(MalformedQueue::HeaderDecode)
    );
}

#[test]
fn parse_event_queue_event_decode() {
    assert_eq!(
        parse_event_queue(&vec![1, 2, 3, 4, 5]),
        Err(MalformedQueue::EventDecode)
    );
}

#[test]
fn parse_event_queue_no_wrap() {
    let words = queue_words(2, 3, 8);
    let (header, seg0, seg1) = parse_event_queue(&words).expect("valid queue");
    assert_eq!(header.head, 2);
    assert_eq!(header.count, 3);
    assert_eq!(header.seq_num, 7);
    assert_eq!(seg0.len(), 3);
    assert_eq!(seg1.len(), 0);
    let owners: Vec<u64> = seg0.iter().map(|e| e.owner.w0).collect();
    assert_eq!(owners, vec![2, 3, 4]);
}

#[test]
fn parse_event_queue_wrap_around() {
    // capacity 16, head 14, count 5: two events at the end, three wrapped.
    let words = queue_words(14, 5, 16);
    let (_header, seg0, seg1) = parse_event_queue(&words).expect("valid queue");
    assert_eq!(seg0.len(), 2);
    assert_eq!(seg1.len(), 3);
    let owners0: Vec<u64> = seg0.iter().map(|e| e.owner.w0).collect();
    let owners1: Vec<u64> = seg1.iter().map(|e| e.owner.w0).collect();
    assert_eq!(owners0, vec![14, 15]);
    assert_eq!(owners1, vec![0, 1, 2]);
}

#[test]
fn parse_event_queue_empty() {
    let words = queue_words(0, 0, 4);
    let (_header, seg0, seg1) = parse_event_queue(&words).expect("valid queue");
    assert!(seg0.is_empty());
    assert!(seg1.is_empty());
}

#[test]
fn parse_event_queue_field_decoding() {
    let mut words: Vec<u64> = vec![0x11, 0, 1, 0];
    let record: [u64; 11] = [
        0x0102_0304, // fee tier 2, owner slot 3, flags 4
        111,
        222,
        333,
        0xaaaa,
        0xbbbb,
        5,
        6,
        7,
        8,
        999,
    ];
    words.extend_from_slice(&record);
    let (_header, seg0, seg1) = parse_event_queue(&words).expect("valid queue");
    assert_eq!(seg0.len(), 1);
    assert!(seg1.is_empty());
    let e: &Event = &seg0[0];
    assert_eq!(e.event_flags, 0x04);
    assert_eq!(e.owner_slot, 0x03);
    assert_eq!(e.fee_tier, 0x02);
    assert_eq!(e.native_qty_released, 111);
    assert_eq!(e.native_qty_paid, 222);
    assert_eq!(e.native_fee_or_rebate, 333);
    assert_eq!(e.order_id, 0xaaaa_u128 + (0xbbbb_u128 << 64));
    assert_eq!(e.owner, Pubkey::new(5, 6, 7, 8));
    assert_eq!(e.client_order_id, 999);
}

#[test]
fn strip_then_parse_full_account() {
    let words = queue_words(1, 2, 4);
    let data = framed(&words_to_bytes(&words));
    let stripped = strip_padding(&data).expect("framed queue account");
    assert_eq!(stripped, words);
    let (header, seg0, seg1) = parse_event_queue(&stripped).expect("valid queue");
    assert_eq!(header.count, 2);
    assert_eq!(seg0.len() + seg1.len(), 2);
}
