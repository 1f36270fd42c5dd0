use morgul::frame::{AcquisitionLifecycleState, AcquisitionStats};
use morgul::header::{encode_packet, PacketError, SlsDetectorHeader};
use morgul::listener::Listener;

fn header(frame_number: u64, packet_number: u32) -> SlsDetectorHeader {
    let mut header = SlsDetectorHeader::zeroed();
    header.frame_number = frame_number;
    header.packet_number = packet_number;
    header
}

/// A payload that names its frame and its packet in every byte pair.
fn payload(frame_number: u64, packet_number: u32) -> Vec<u8> {
    let mut bytes: Vec<u8> = Vec::with_capacity(8192);
    for i in 0..8192usize {
        if i % 2 == 0 {
            bytes.push(packet_number as u8 + 1);
        } else {
            bytes.push((frame_number % 251) as u8);
        }
    }
    bytes
}

fn feed(listener: &mut Listener, frame_number: u64, packet_number: u32) -> Vec<AcquisitionLifecycleState> {
    assert!(listener.has_room(0));
    listener.on_packet(
        &header(frame_number, packet_number),
        &payload(frame_number, packet_number),
        0,
        7,
    )
}

fn stats(images_seen: u64, complete_images: u64, packets_dropped: u64, out_of_order: u64) -> AcquisitionStats {
    AcquisitionStats { images_seen, complete_images, packets_dropped, out_of_order }
}

#[test]
fn test_create() {
    let r = Listener::new(30001);
    assert_eq!(r.port(), 30001);
    assert!(!r.is_acquiring());
}

#[test]
fn new_listener_is_idle_with_ten_buffers() {
    let mut listener = Listener::new(30000);
    assert_eq!(listener.port(), 30000);
    assert!(!listener.is_acquiring());
    assert_eq!(listener.stats(), stats(0, 0, 0, 0));
    assert_eq!(listener.spare_buffers(), 10);
    assert_eq!(listener.buffers_checked_out(), 0);
    assert!(listener.in_flight().is_none());
    let mut first = header(1, 0);
    first.version = 2;
    let events = listener.on_packet(&first, &payload(1, 0), 0, 0);
    assert_eq!(events, vec![AcquisitionLifecycleState::Starting { acquisition_number: 0 }]);
    assert!(listener.is_acquiring());
    assert_eq!(listener.port(), 30000);
    assert_eq!(listener.in_flight().unwrap().header, first);
    assert_eq!(listener.in_flight().unwrap().header.version, 2);
}

#[test]
fn happy_path_one_complete_image() {
    let mut listener = Listener::new(30000);
    let mut completed: u64 = 0;
    for packet_number in 0..64u32 {
        let events = feed(&mut listener, 100, packet_number);
        if packet_number == 0 {
            assert_eq!(events, vec![AcquisitionLifecycleState::Starting { acquisition_number: 7 }]);
        } else {
            assert!(events.is_empty());
        }
        if listener.in_flight().is_none() {
            completed += 1;
        }
        assert_eq!(listener.stats().complete_images, completed);
        assert_eq!(completed == 1, packet_number == 63);
    }
    assert_eq!(completed, 1);
    assert_eq!(listener.stats(), stats(1, 1, 0, 0));
    assert!(listener.in_flight().is_none());
    let image = listener.last_returned().unwrap();
    assert_eq!(image.len(), 524288);
    for packet_number in 0..64u32 {
        let from: usize = packet_number as usize * 8192;
        assert_eq!(&image[from..from + 8192], payload(100, packet_number).as_slice());
    }
}

#[test]
fn dropped_tail_is_counted_when_the_next_frame_begins() {
    let mut listener = Listener::new(30000);
    for packet_number in 0..61u32 {
        feed(&mut listener, 200, packet_number);
    }
    assert_eq!(listener.stats(), stats(1, 0, 0, 0));
    feed(&mut listener, 201, 0);
    assert_eq!(listener.stats(), stats(2, 0, 3, 0));
    for packet_number in 1..64u32 {
        feed(&mut listener, 201, packet_number);
    }
    assert_eq!(listener.stats(), stats(2, 1, 3, 0));
}

#[test]
fn late_straggler_is_counted_and_thrown_away() {
    let mut listener = Listener::new(30000);
    for packet_number in 0..64u32 {
        if packet_number != 33 {
            feed(&mut listener, 300, packet_number);
        }
    }
    let before: Vec<u8> = listener.in_flight().unwrap().data.clone();
    let spare: usize = listener.spare_buffers();
    let events = feed(&mut listener, 299, 10);
    assert!(events.is_empty());
    assert_eq!(listener.stats(), stats(1, 0, 0, 1));
    assert_eq!(listener.in_flight().unwrap().frame_number, 300);
    assert_eq!(listener.in_flight().unwrap().header, header(300, 0));
    assert_eq!(listener.in_flight().unwrap().received_packets, 63);
    assert_eq!(listener.in_flight().unwrap().data, before);
    assert_eq!(listener.spare_buffers(), spare);
    feed(&mut listener, 300, 33);
    assert_eq!(listener.stats(), stats(1, 1, 0, 1));
    assert_eq!(listener.stats().complete_images, 1);
    assert_eq!(listener.stats().out_of_order, 1);
    assert_eq!(listener.stats().packets_dropped, 0);
}

#[test]
fn acquisition_boundary_gives_two_pairs_of_events() {
    let mut listener = Listener::new(30000);
    let mut log: Vec<AcquisitionLifecycleState> = Vec::new();
    for packet_number in 0..64u32 {
        log.extend(listener.on_packet(&header(1, packet_number), &payload(1, packet_number), 0, 4));
    }
    log.extend(listener.on_timeout());
    assert!(!listener.is_acquiring());
    assert_eq!(listener.stats(), stats(0, 0, 0, 0));
    assert_eq!(listener.on_timeout(), None);
    for packet_number in 0..64u32 {
        log.extend(listener.on_packet(&header(2, packet_number), &payload(2, packet_number), 0, 5));
    }
    log.extend(listener.on_timeout());
    assert_eq!(
        log,
        vec![
            AcquisitionLifecycleState::Starting { acquisition_number: 4 },
            AcquisitionLifecycleState::Ended(stats(1, 1, 0, 0)),
            AcquisitionLifecycleState::Starting { acquisition_number: 5 },
            AcquisitionLifecycleState::Ended(stats(1, 1, 0, 0)),
        ]
    );
}

#[test]
fn packets_in_any_order_give_the_same_image() {
    let mut order: Vec<u32> = (0..64u32).collect();
    order.reverse();
    order.swap(3, 40);
    order.swap(17, 62);
    order.swap(0, 29);
    let mut listener = Listener::new(30000);
    for (place, packet_number) in order.iter().enumerate() {
        let events = feed(&mut listener, 9, *packet_number);
        if place < 63 {
            assert_eq!(listener.stats().complete_images, 0);
            assert_eq!(listener.in_flight().unwrap().received_packets as usize, place + 1);
            assert_eq!(listener.in_flight().unwrap().header, header(9, order[0]));
        }
        assert_eq!(events.is_empty(), place != 0);
    }
    assert_eq!(listener.stats(), stats(1, 1, 0, 0));
    let image = listener.last_returned().unwrap();
    for packet_number in 0..64u32 {
        let from: usize = packet_number as usize * 8192;
        assert_eq!(&image[from..from + 8192], payload(9, packet_number).as_slice());
    }
}

#[test]
fn loss_is_sixty_four_less_what_arrived() {
    for arrived in [1u32, 2, 31, 63] {
        let mut listener = Listener::new(30000);
        for packet_number in 0..arrived {
            feed(&mut listener, 50, packet_number);
        }
        let before = listener.stats();
        feed(&mut listener, 51, 5);
        let after = listener.stats();
        assert_eq!(after.packets_dropped - before.packets_dropped, (64 - arrived) as u64);
        assert_eq!(after.images_seen, before.images_seen + 1);
        assert_eq!(listener.in_flight().unwrap().frame_number, 51);
        assert_eq!(listener.in_flight().unwrap().received_packets, 1);
    }
}

#[test]
fn frame_numbers_may_skip() {
    let mut listener = Listener::new(30000);
    feed(&mut listener, 10, 0);
    feed(&mut listener, 10, 1);
    feed(&mut listener, 1000, 0);
    assert_eq!(listener.stats(), stats(2, 0, 62, 0));
    assert_eq!(listener.in_flight().unwrap().frame_number, 1000);
}

#[test]
fn stale_packet_takes_one_off_the_dropped_count() {
    let mut listener = Listener::new(30000);
    for packet_number in 0..60u32 {
        feed(&mut listener, 20, packet_number);
    }
    feed(&mut listener, 21, 0);
    assert_eq!(listener.stats(), stats(2, 0, 4, 0));
    feed(&mut listener, 20, 60);
    assert_eq!(listener.stats(), stats(2, 0, 3, 1));
    feed(&mut listener, 20, 61);
    assert_eq!(listener.stats(), stats(2, 0, 2, 2));
    assert_eq!(listener.in_flight().unwrap().frame_number, 21);
    assert_eq!(listener.in_flight().unwrap().received_packets, 1);
}

#[test]
fn kernel_drops_are_added_as_they_are_reported() {
    let mut listener = Listener::new(30000);
    assert!(listener.has_room(12));
    listener.on_packet(&header(1, 0), &payload(1, 0), 12, 0);
    assert_eq!(listener.stats(), stats(1, 0, 12, 0));
    listener.on_packet(&header(1, 1), &payload(1, 1), 0, 0);
    listener.on_packet(&header(0, 1), &payload(0, 1), 5, 0);
    assert_eq!(listener.stats(), stats(1, 0, 16, 1));
    listener.on_packet(&header(2, 0), &payload(2, 0), 1, 0);
    assert_eq!(listener.stats(), stats(2, 0, 16 + 1 + 62, 1));
}

#[test]
fn a_packet_after_a_complete_frame_begins_a_new_one() {
    let mut listener = Listener::new(30000);
    for packet_number in 0..64u32 {
        feed(&mut listener, 7, packet_number);
    }
    let events = feed(&mut listener, 6, 3);
    assert!(events.is_empty());
    assert_eq!(listener.stats(), stats(2, 1, 0, 0));
    assert_eq!(listener.in_flight().unwrap().frame_number, 6);
    assert_eq!(listener.in_flight().unwrap().header, header(6, 3));
}

#[test]
fn buffers_out_equal_frames_in_flight() {
    let mut listener = Listener::new(30000);
    assert_eq!(listener.buffers_checked_out(), 0);
    assert_eq!(listener.spare_buffers(), 10);
    for frame_number in 1..=3u64 {
        for packet_number in 0..64u32 {
            feed(&mut listener, frame_number, packet_number);
            let in_flight: usize = if listener.in_flight().is_some() { 1 } else { 0 };
            assert_eq!(listener.buffers_checked_out(), in_flight);
            assert_eq!(listener.spare_buffers(), 10 - in_flight);
        }
    }
    feed(&mut listener, 4, 0);
    feed(&mut listener, 5, 0);
    assert_eq!(listener.buffers_checked_out(), 1);
    let ended = listener.on_timeout();
    assert_eq!(ended, Some(AcquisitionLifecycleState::Ended(stats(5, 3, 63, 0))));
    assert_eq!(listener.buffers_checked_out(), 0);
    assert_eq!(listener.spare_buffers(), 10);
    assert!(listener.in_flight().is_none());
}

#[test]
fn timeout_on_an_idle_listener_reports_nothing() {
    let mut listener = Listener::new(30000);
    assert_eq!(listener.on_timeout(), None);
    assert_eq!(listener.on_timeout(), None);
    assert!(!listener.is_acquiring());
    assert_eq!(listener.spare_buffers(), 10);
}

#[test]
fn datagrams_are_decoded_and_bad_ones_refused() {
    let mut listener = Listener::new(30000);
    let good = encode_packet(&header(3, 2), &payload(3, 2));
    assert_eq!(good.len(), 8240);
    let events = listener.on_datagram(&good, 0, 9).unwrap();
    assert_eq!(events, vec![AcquisitionLifecycleState::Starting { acquisition_number: 9 }]);
    assert_eq!(listener.stats(), stats(1, 0, 0, 0));
    let from: usize = 2 * 8192;
    assert_eq!(&listener.in_flight().unwrap().data[from..from + 8192], payload(3, 2).as_slice());

    let short = &good[..8239];
    assert_eq!(listener.on_datagram(short, 3, 9), Err(PacketError::WrongLength));
    let mut long = good.clone();
    long.push(0);
    assert_eq!(listener.on_datagram(&long, 3, 9), Err(PacketError::WrongLength));
    let bad_number = encode_packet(&header(3, 64), &payload(3, 0));
    assert_eq!(listener.on_datagram(&bad_number, 3, 9), Err(PacketError::PacketNumberOutOfRange));
    assert_eq!(listener.stats(), stats(1, 0, 0, 0));
    assert_eq!(listener.in_flight().unwrap().received_packets, 1);
}

#[test]
fn room_is_told_before_counters_would_pass_their_width() {
    let full = AcquisitionStats {
        images_seen: u64::MAX,
        complete_images: 0,
        packets_dropped: 0,
        out_of_order: 0,
    };
    assert!(!full.has_room(0));
    let nearly = AcquisitionStats {
        images_seen: 0,
        complete_images: 0,
        packets_dropped: u64::MAX - 63 - 10,
        out_of_order: 0,
    };
    assert!(nearly.has_room(10));
    assert!(!nearly.has_room(11));
    assert_eq!(AcquisitionStats::default(), stats(0, 0, 0, 0));
}

#[test]
fn a_packet_that_comes_twice_counts_twice() {
    let mut listener = Listener::new(30000);
    for packet_number in 0..63u32 {
        feed(&mut listener, 40, packet_number);
    }
    assert_eq!(listener.in_flight().unwrap().received_packets, 63);
    let events = feed(&mut listener, 40, 5);
    assert!(events.is_empty());
    assert_eq!(listener.stats(), stats(1, 1, 0, 0));
    assert!(listener.in_flight().is_none());
    let image = listener.last_returned().unwrap();
    assert_eq!(&image[5 * 8192..6 * 8192], payload(40, 5).as_slice());
    assert!(image[63 * 8192..].iter().all(|byte| *byte == 0));
}

#[test]
fn only_the_first_packet_of_an_acquisition_is_reported() {
    let mut listener = Listener::new(30000);
    let mut log: Vec<AcquisitionLifecycleState> = Vec::new();
    for frame_number in 1..=3u64 {
        for packet_number in 0..64u32 {
            log.extend(feed(&mut listener, frame_number, packet_number));
        }
    }
    log.extend(feed(&mut listener, 2, 0));
    log.extend(feed(&mut listener, 9, 0));
    log.extend(feed(&mut listener, 8, 0));
    assert_eq!(log, vec![AcquisitionLifecycleState::Starting { acquisition_number: 7 }]);
    assert_eq!(listener.on_timeout(), Some(AcquisitionLifecycleState::Ended(stats(5, 3, 62, 1))));
}
