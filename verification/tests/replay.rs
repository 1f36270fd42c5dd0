use morgul::deluge::{DelugeSender, SenderStep};
use morgul::header::{decode_packet, SlsDetectorHeader};
use morgul::trigger::Debouncer;
use morgul::DelugeTrigger;

fn trigger_bytes(frames: u128, exptime: f32, uuid: [u8; 12]) -> Vec<u8> {
    DelugeTrigger { frames, exptime_bits: exptime.to_bits(), uuid }.encode()
}

#[test]
fn trigger_is_thirty_two_little_endian_bytes() {
    let trigger = DelugeTrigger {
        frames: 0x0102_0304_0506_0708_090a_0b0c_0d0e_0f10,
        exptime_bits: 0.001f32.to_bits(),
        uuid: [1, 2, 3, 4, 5, 6, 7, 8, 9, 10, 11, 12],
    };
    assert_eq!(0.001f32.to_bits(), 0x3a83_126f);
    assert_eq!(
        trigger.encode(),
        vec![
            0x10, 0x0f, 0x0e, 0x0d, 0x0c, 0x0b, 0x0a, 0x09, 0x08, 0x07, 0x06, 0x05, 0x04, 0x03, 0x02, 0x01,
            0x6f, 0x12, 0x83, 0x3a, 1, 2, 3, 4, 5, 6, 7, 8, 9, 10, 11, 12
        ]
    );
    assert_eq!(DelugeTrigger::decode(&trigger.encode()), Some(trigger));
    assert_eq!(f32::from_bits(DelugeTrigger::decode(&trigger.encode()).unwrap().exptime_bits), 0.001);
}

#[test]
fn trigger_of_another_length_is_not_read() {
    let bytes = trigger_bytes(100, 0.001, [0; 12]);
    assert_eq!(bytes.len(), 32);
    assert_eq!(DelugeTrigger::decode(&bytes[..31]), None);
    let mut long = bytes.clone();
    long.push(0);
    assert_eq!(DelugeTrigger::decode(&long), None);
    assert_eq!(DelugeTrigger::decode(&[]), None);
}

#[test]
fn default_trigger_asks_for_nothing_under_a_fresh_tag() {
    let first = DelugeTrigger::default();
    let second = DelugeTrigger::default();
    assert_eq!(first.frames, 0);
    assert_eq!(first.exptime_bits, 0);
    assert_eq!(f32::from_bits(first.exptime_bits), 0.0);
    assert_eq!(second.frames, 0);
    assert_eq!(second.exptime_bits, 0);
    assert_ne!(first.uuid, second.uuid);
    let tagged = DelugeTrigger::with_uuid([7; 12]);
    assert_eq!(tagged, DelugeTrigger { frames: 0, exptime_bits: 0, uuid: [7; 12] });
}

#[test]
fn retrigger_within_the_window_is_dropped() {
    let mut debouncer = Debouncer::new();
    assert_eq!(debouncer.last_accepted(), None);
    let first = trigger_bytes(100, 0.001, [1; 12]);
    let second = trigger_bytes(100, 0.001, [2; 12]);
    let mut acquisitions: usize = 0;
    if debouncer.offer(&first, 1000).is_some() {
        acquisitions += 1;
    }
    if debouncer.offer(&second, 1100).is_some() {
        acquisitions += 1;
    }
    assert_eq!(acquisitions, 1);
    assert_eq!(debouncer.last_accepted(), Some(1000));
}

#[test]
fn trigger_after_the_window_is_accepted() {
    let mut debouncer = Debouncer::new();
    let bytes = trigger_bytes(5, 0.5, [3; 12]);
    let accepted = debouncer.offer(&bytes, 0).unwrap();
    assert_eq!(accepted, DelugeTrigger { frames: 5, exptime_bits: 0.5f32.to_bits(), uuid: [3; 12] });
    assert!(debouncer.offer(&bytes, 0).is_none());
    assert!(debouncer.offer(&bytes, 499).is_none());
    assert_eq!(debouncer.last_accepted(), Some(0));
    assert!(debouncer.offer(&bytes, 500).is_some());
    assert_eq!(debouncer.last_accepted(), Some(500));
    assert!(debouncer.offer(&bytes, 999).is_none());
    assert!(debouncer.offer(&bytes, 400).is_none());
    assert!(debouncer.offer(&bytes, 1000).is_some());
    assert!(debouncer.offer(&bytes, u64::MAX).is_some());
    assert!(debouncer.offer(&bytes, u64::MAX).is_none());
}

#[test]
fn dropped_triggers_do_not_move_the_window() {
    let mut debouncer = Debouncer::new();
    let bytes = trigger_bytes(5, 0.5, [3; 12]);
    assert!(debouncer.offer(&bytes, 100).is_some());
    assert!(debouncer.offer(&bytes, 300).is_none());
    assert!(debouncer.offer(&bytes, 500).is_none());
    assert!(debouncer.offer(&bytes, 600).is_some());
}

#[test]
fn malformed_trigger_is_dropped() {
    let mut debouncer = Debouncer::new();
    assert!(debouncer.offer(&[0u8; 31], 1000).is_none());
    assert!(debouncer.offer(&[0u8; 33], 1000).is_none());
    assert!(debouncer.offer(&[], 1000).is_none());
    assert_eq!(debouncer.last_accepted(), None);
    assert!(debouncer.offer(&[0u8; 32], 1000).is_some());
    assert!(debouncer.offer(&[0u8; 31], 5000).is_none());
    assert_eq!(debouncer.last_accepted(), Some(1000));
}

/// Runs one burst on a clock that only moves when the sender is told to
/// wait. Returns the headers sent, each with the time at which it went out.
fn run_burst(sender: &mut DelugeSender, frames: u128, exptime_nanos: u64) -> Vec<(u64, SlsDetectorHeader)> {
    assert!(sender.can_start(frames));
    sender.start(frames, exptime_nanos);
    let mut now: u64 = 0;
    let mut sent: Vec<(u64, SlsDetectorHeader)> = Vec::new();
    loop {
        match sender.next_step(now) {
            SenderStep::Wait { nanos } => {
                assert!(nanos > 0);
                now += nanos as u64;
            }
            SenderStep::Transmit => {
                let datagram = sender.packet();
                assert_eq!(datagram.len(), 8240);
                let (header, payload) = decode_packet(datagram).unwrap();
                assert_eq!(header, sender.header());
                assert!(payload.iter().all(|byte| *byte == 0));
                sent.push((now, header));
                sender.packet_sent();
            }
            SenderStep::Finished => break,
        }
    }
    sent
}

#[test]
fn burst_of_a_hundred_frames_is_paced() {
    let mut sender = DelugeSender::new();
    let sent = run_burst(&mut sender, 100, 1_000_000);
    assert_eq!(sent.len(), 6400);
    let mut frames: Vec<u64> = sent.iter().map(|(_, header)| header.frame_number).collect();
    frames.dedup();
    assert_eq!(frames, (0..100u64).collect::<Vec<u64>>());
    for (place, (time, header)) in sent.iter().enumerate() {
        assert_eq!(header.packet_number as usize, place % 64);
        assert_eq!(header.frame_number as usize, place / 64);
        assert_eq!(*time, (place / 64) as u64 * 1_000_000);
        let mut expected = SlsDetectorHeader::zeroed();
        expected.frame_number = header.frame_number;
        expected.packet_number = header.packet_number;
        assert_eq!(*header, expected);
    }
    let span: u64 = sent[6399].0 - sent[0].0;
    assert!(span >= 99_000_000);
    assert_eq!(sender.next_step(span), SenderStep::Finished);
}

#[test]
fn sender_waits_until_the_image_is_due() {
    let mut sender = DelugeSender::new();
    sender.start(3, 1000);
    assert_eq!(sender.next_step(0), SenderStep::Transmit);
    for _ in 0..63 {
        sender.packet_sent();
        assert_eq!(sender.next_step(0), SenderStep::Transmit);
    }
    assert_eq!(sender.header().packet_number, 63);
    sender.packet_sent();
    assert_eq!(sender.header().frame_number, 1);
    assert_eq!(sender.header().packet_number, 0);
    assert_eq!(sender.next_step(0), SenderStep::Wait { nanos: 1000 });
    assert_eq!(sender.next_step(1), SenderStep::Wait { nanos: 999 });
    assert_eq!(sender.next_step(999), SenderStep::Wait { nanos: 1 });
    assert_eq!(sender.next_step(1000), SenderStep::Transmit);
    assert_eq!(sender.next_step(5000), SenderStep::Transmit);
    sender.packet_sent();
    assert_eq!(sender.next_step(0), SenderStep::Transmit);
}

#[test]
fn frame_numbers_go_on_from_burst_to_burst() {
    let mut sender = DelugeSender::new();
    assert_eq!(sender.next_step(0), SenderStep::Finished);
    sender.packet_sent();
    assert_eq!(sender.header(), SlsDetectorHeader::zeroed());
    let first = run_burst(&mut sender, 2, 10);
    assert_eq!(first.len(), 128);
    assert_eq!(first[127].1.frame_number, 1);
    let second = run_burst(&mut sender, 3, 0);
    assert_eq!(second.len(), 192);
    assert_eq!(second[0].1.frame_number, 2);
    assert_eq!(second[0].1.packet_number, 0);
    assert_eq!(second[191].1.frame_number, 4);
    assert_eq!(second[191].1.packet_number, 63);
    assert!(second.iter().all(|(time, _)| *time == 0));
    let none = run_burst(&mut sender, 0, 10);
    assert!(none.is_empty());
    assert_eq!(sender.header().frame_number, 5);
}

#[test]
fn burst_must_fit_the_frame_numbers() {
    let mut sender = DelugeSender::new();
    assert!(sender.can_start(u64::MAX as u128));
    assert!(!sender.can_start(u64::MAX as u128 + 1));
    assert!(!sender.can_start(u128::MAX));
    run_burst(&mut sender, 1, 0);
    assert!(!sender.can_start(u64::MAX as u128));
    assert!(sender.can_start(u64::MAX as u128 - 1));
}

#[test]
fn long_waits_are_told_in_full() {
    let mut sender = DelugeSender::new();
    sender.start(2, u64::MAX);
    for _ in 0..64 {
        sender.packet_sent();
    }
    assert_eq!(sender.next_step(5), SenderStep::Wait { nanos: u64::MAX as u128 - 5 });
    sender.start(1 << 40, u64::MAX);
    assert_eq!(sender.next_step(0), SenderStep::Transmit);
}
