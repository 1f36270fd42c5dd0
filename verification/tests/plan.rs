use morgul::address::Ipv4Address;
use morgul::control::{dropped_or_zero, get_dropped_packets, ControlMessage};
use morgul::coordinator::{
    listener_assignments, port_range, ports_fit, repeat_each, reversed, sender_assignments, target_sequence,
    ListenerAssignment, SenderAssignment,
};
use morgul::get_interface_addreses_with_prefix;

fn ip(first: u8, second: u8, third: u8, fourth: u8) -> Ipv4Address {
    Ipv4Address::new(first, second, third, fourth)
}

#[test]
fn addresses_with_the_prefix_come_out_sorted() {
    let all = vec![
        ip(192, 168, 204, 101),
        ip(10, 0, 0, 1),
        ip(192, 168, 201, 101),
        ip(127, 0, 0, 1),
        ip(192, 168, 203, 101),
        ip(193, 0, 0, 1),
        ip(192, 168, 202, 101),
        ip(192, 2, 255, 255),
        ip(192, 168, 201, 101),
    ];
    assert_eq!(
        get_interface_addreses_with_prefix(&all, 192),
        vec![
            ip(192, 2, 255, 255),
            ip(192, 168, 201, 101),
            ip(192, 168, 201, 101),
            ip(192, 168, 202, 101),
            ip(192, 168, 203, 101),
            ip(192, 168, 204, 101),
        ]
    );
    assert_eq!(get_interface_addreses_with_prefix(&all, 10), vec![ip(10, 0, 0, 1)]);
    assert_eq!(get_interface_addreses_with_prefix(&all, 11), vec![]);
    assert_eq!(get_interface_addreses_with_prefix(&Vec::new(), 192), vec![]);
}

#[test]
fn address_order_is_that_of_the_octets() {
    let all = vec![ip(1, 0, 0, 2), ip(1, 0, 1, 0), ip(1, 255, 0, 0), ip(1, 0, 0, 255), ip(1, 1, 0, 0)];
    assert_eq!(
        get_interface_addreses_with_prefix(&all, 1),
        vec![ip(1, 0, 0, 2), ip(1, 0, 0, 255), ip(1, 0, 1, 0), ip(1, 1, 0, 0), ip(1, 255, 0, 0)]
    );
    assert_eq!(ip(192, 168, 1, 2).bits(), 0xc0a8_0102);
    assert_eq!(ip(255, 255, 255, 255).bits(), u32::MAX);
    assert_eq!(ip(0, 0, 0, 0).bits(), 0);
}

#[test]
fn nine_listeners_on_each_interface() {
    let interfaces = vec![ip(192, 168, 201, 101), ip(192, 168, 202, 101)];
    let cores: Vec<usize> = (0..32usize).collect();
    let plan = listener_assignments(&interfaces, 30000, &cores);
    assert_eq!(plan.len(), 18);
    for (place, listener) in plan.iter().enumerate() {
        assert_eq!(
            *listener,
            ListenerAssignment {
                port: 30000 + place as u16,
                address: interfaces[place / 9],
                core: 31 - place,
            }
        );
    }
    assert_eq!(plan[0], ListenerAssignment { port: 30000, address: ip(192, 168, 201, 101), core: 31 });
    assert_eq!(plan[8], ListenerAssignment { port: 30008, address: ip(192, 168, 201, 101), core: 23 });
    assert_eq!(plan[9], ListenerAssignment { port: 30009, address: ip(192, 168, 202, 101), core: 22 });
    assert_eq!(plan[17], ListenerAssignment { port: 30017, address: ip(192, 168, 202, 101), core: 14 });
}

#[test]
fn listeners_take_the_cores_as_they_are_named() {
    let interfaces = vec![ip(192, 0, 0, 1)];
    let cores: Vec<usize> = vec![4, 9, 2, 7, 30, 31, 0, 1, 5, 6];
    let plan = listener_assignments(&interfaces, 65526, &cores);
    let taken: Vec<usize> = plan.iter().map(|listener| listener.core).collect();
    assert_eq!(taken, vec![6, 5, 1, 0, 31, 30, 7, 2, 9]);
    assert_eq!(plan[8].port, 65534);
    assert_eq!(listener_assignments(&Vec::new(), 30000, &cores), vec![]);
}

#[test]
fn port_ranges_that_exist() {
    assert!(ports_fit(30000, 36));
    assert!(ports_fit(65526, 9));
    assert!(!ports_fit(65527, 9));
    assert!(ports_fit(65535, 0));
    assert!(!ports_fit(0, 65536));
    assert!(ports_fit(0, 65535));
    assert!(!ports_fit(1, usize::MAX));
    assert_eq!(port_range(65533, 2), vec![65533, 65534]);
    assert_eq!(port_range(7, 0), Vec::<u16>::new());
}

#[test]
fn helpers_of_the_plan() {
    let pair = vec![ip(1, 1, 1, 1), ip(2, 2, 2, 2)];
    assert_eq!(
        repeat_each(&pair, 3),
        vec![ip(1, 1, 1, 1), ip(1, 1, 1, 1), ip(1, 1, 1, 1), ip(2, 2, 2, 2), ip(2, 2, 2, 2), ip(2, 2, 2, 2)]
    );
    assert_eq!(repeat_each(&pair, 1), pair);
    assert_eq!(repeat_each(&pair, 0), vec![]);
    assert_eq!(repeat_each(&Vec::new(), 5), vec![]);
    assert_eq!(reversed(&vec![1, 2, 3]), vec![3, 2, 1]);
    assert_eq!(reversed(&Vec::new()), Vec::<usize>::new());
    assert_eq!(
        target_sequence(4, 1, ip(9, 9, 9, 9), ip(8, 8, 8, 8)),
        vec![ip(9, 9, 9, 9), ip(8, 8, 8, 8), ip(8, 8, 8, 8), ip(8, 8, 8, 8)]
    );
}

#[test]
fn four_senders_on_each_interface() {
    let interfaces = vec![ip(192, 168, 1, 1), ip(192, 168, 2, 1), ip(192, 168, 3, 1)];
    let first = ip(10, 0, 0, 1);
    let second = ip(10, 0, 0, 2);
    let plan = sender_assignments(&interfaces, 30000, first, Some(second), None);
    assert_eq!(plan.len(), 12);
    for (place, sender) in plan.iter().enumerate() {
        assert_eq!(
            *sender,
            SenderAssignment {
                port: 30000 + place as u16,
                source: interfaces[place / 4],
                target: if place < 9 { first } else { second },
            }
        );
    }
}

#[test]
fn first_target_takes_as_many_senders_as_asked() {
    let interfaces = vec![ip(192, 168, 1, 1), ip(192, 168, 2, 1)];
    let first = ip(10, 0, 0, 1);
    let second = ip(10, 0, 0, 2);
    let targets = |to_first: Option<u8>, target_2: Option<Ipv4Address>| -> Vec<Ipv4Address> {
        sender_assignments(&interfaces, 40000, first, target_2, to_first)
            .iter()
            .map(|sender| sender.target)
            .collect()
    };
    assert_eq!(targets(Some(0), Some(second)), vec![second; 8]);
    assert_eq!(
        targets(Some(3), Some(second)),
        vec![first, first, first, second, second, second, second, second]
    );
    assert_eq!(targets(Some(8), Some(second)), vec![first; 8]);
    assert_eq!(targets(Some(200), Some(second)), vec![first; 8]);
    assert_eq!(targets(None, Some(second)), vec![first; 8]);
    assert_eq!(targets(Some(3), None), vec![first; 8]);
    assert_eq!(targets(None, None), vec![first; 8]);
}

#[test]
fn senders_beyond_the_eighteenth_stay_with_the_second_target() {
    let interfaces: Vec<Ipv4Address> = (1..=6u8).map(|n| ip(192, 168, n, 1)).collect();
    let first = ip(10, 0, 0, 1);
    let second = ip(10, 0, 0, 2);
    let plan = sender_assignments(&interfaces, 30000, first, Some(second), None);
    assert_eq!(plan.len(), 24);
    assert_eq!(plan[8].target, first);
    assert_eq!(plan[9].target, second);
    assert_eq!(plan[17].target, second);
    assert_eq!(plan[18].target, second);
    assert_eq!(plan[23], SenderAssignment { port: 30023, source: ip(192, 168, 6, 1), target: second });
}

#[test]
fn dropped_packets_are_read_from_the_first_overflow_message() {
    assert_eq!(get_dropped_packets(&vec![]), 0);
    assert_eq!(get_dropped_packets(&vec![ControlMessage::Other]), 0);
    assert_eq!(get_dropped_packets(&vec![ControlMessage::RxqOvfl(17)]), 17);
    assert_eq!(
        get_dropped_packets(&vec![
            ControlMessage::Other,
            ControlMessage::RxqOvfl(3),
            ControlMessage::RxqOvfl(9),
            ControlMessage::Other
        ]),
        3
    );
    assert_eq!(get_dropped_packets(&vec![ControlMessage::RxqOvfl(0), ControlMessage::RxqOvfl(9)]), 0);
    assert_eq!(get_dropped_packets(&vec![ControlMessage::RxqOvfl(u32::MAX)]), u32::MAX);
    assert_eq!(dropped_or_zero(&None), 0);
    assert_eq!(dropped_or_zero(&Some(vec![ControlMessage::Other, ControlMessage::RxqOvfl(4)])), 4);
}
