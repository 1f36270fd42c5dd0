//! Who listens where, and who sends where.
//!
//! A receiver runs nine listeners on each data-plane interface, on
//! consecutive ports, each on a core of its own, the highest cores first. A
//! replay generator runs four senders on each interface, towards consecutive
//! ports of one or two targets.

use vstd::prelude::*;
use crate::address::Ipv4Address;

verus! {

/// Listeners on each interface.
pub const LISTENERS_PER_PORT: usize = 9;

/// Senders on each interface.
pub const SENDERS_PER_INTERFACE: usize = 4;

/// Senders that go to the first target when nothing else is asked for.
pub const DEFAULT_TO_FIRST: u8 = 9;

/// Port of the first listener, and of the first target, by default.
pub const DEFAULT_UDP_PORT: u16 = 30000;

/// First octet of the addresses of the data plane.
pub const DATA_PLANE_PREFIX: u8 = 192;

/// One listener: the port it binds, the interface it serves and the core it
/// runs on.
#[derive(Clone, Copy, Debug, PartialEq, Eq, Structural)]
pub struct ListenerAssignment {
    pub port: u16,
    pub address: Ipv4Address,
    pub core: usize,
}

/// One sender: the interface it sends from and the target it sends to.
#[derive(Clone, Copy, Debug, PartialEq, Eq, Structural)]
pub struct SenderAssignment {
    pub port: u16,
    pub source: Ipv4Address,
    pub target: Ipv4Address,
}

/// The smallest of three lengths.
pub open spec fn shortest(first: nat, second: nat, third: nat) -> nat {
    if first <= second && first <= third {
        first
    } else if second <= third {
        second
    } else {
        third
    }
}

/// Walks three vectors in lockstep with `itertools::multizip` and collects
/// the triples. The walk ends with the shortest vector, and the triple at
/// each place holds the elements that the vectors have at that place.
#[verifier::external_body]
fn zip3<A, B, C>(first: Vec<A>, second: Vec<B>, third: Vec<C>) -> (zipped: Vec<(A, B, C)>)
    ensures
        zipped@.len() == shortest(first@.len(), second@.len(), third@.len()),
        forall|i: int|
            0 <= i < zipped@.len() ==> #[trigger] zipped@[i] == (first@[i], second@[i], third@[i]),
{
    itertools::multizip((first, second, third)).collect()
}

/// The ports `first`, `first + 1`, and so on: `count` of them.
pub fn port_range(first: u16, count: usize) -> (ports: Vec<u16>)
    requires
        first + count <= u16::MAX,
    ensures
        ports@.len() == count,
        forall|i: int| 0 <= i < count ==> #[trigger] ports@[i] == first + i,
{
    let mut ports: Vec<u16> = Vec::new();
    let mut port: u16 = first;
    while ports.len() < count
        invariant
            first + count <= u16::MAX,
            ports@.len() <= count,
            port == first + ports@.len(),
            forall|i: int| 0 <= i < ports@.len() ==> #[trigger] ports@[i] == first + i,
        decreases count - ports@.len(),
    {
        ports.push(port);
        port = port + 1;
    }
    ports
}

/// Every item of `items` repeated `times` times, in order; nothing where
/// `times` is zero.
pub fn repeat_each(items: &Vec<Ipv4Address>, times: usize) -> (repeated: Vec<Ipv4Address>)
    requires
        items@.len() * times <= usize::MAX,
    ensures
        repeated@.len() == items@.len() * times,
        forall|i: int| 0 <= i < repeated@.len() ==> #[trigger] repeated@[i] == items@[i / times as int],
{
    let mut repeated: Vec<Ipv4Address> = Vec::new();
    let mut item: usize = 0;
    while item < items.len()
        invariant
            item <= items@.len(),
            repeated@.len() == item * times,
            forall|i: int|
                0 <= i < repeated@.len() ==> #[trigger] repeated@[i] == items@[i / times as int],
        decreases items@.len() - item,
    {
        let mut copy: usize = 0;
        while copy < times
            invariant
                item < items@.len(),
                copy <= times,
                repeated@.len() == item * times + copy,
                forall|i: int|
                    0 <= i < repeated@.len() ==> #[trigger] repeated@[i] == items@[i
                        / times as int],
            decreases times - copy,
        {
            proof {
                lemma_place_in_group(item as int, copy as int, times as int);
            }
            repeated.push(items[item]);
            copy = copy + 1;
        }
        assert(item * times + times == (item + 1) * times) by (nonlinear_arith);
        item = item + 1;
    }
    repeated
}

/// The place `group * size + within` lies in group `group`.
proof fn lemma_place_in_group(group: int, within: int, size: int)
    requires
        0 <= group,
        0 <= within < size,
    ensures
        (group * size + within) / size == group,
{
    vstd::arithmetic::div_mod::lemma_fundamental_div_mod_converse(
        group * size + within,
        size,
        group,
        within,
    );
}

/// The items of `items`, the last one first.
pub fn reversed(items: &Vec<usize>) -> (backwards: Vec<usize>)
    ensures
        backwards@.len() == items@.len(),
        forall|i: int|
            0 <= i < items@.len() ==> #[trigger] backwards@[i] == items@[items@.len() - 1 - i],
{
    let mut backwards: Vec<usize> = Vec::new();
    let mut left: usize = items.len();
    while left > 0
        invariant
            left <= items@.len(),
            backwards@.len() == items@.len() - left,
            forall|i: int|
                0 <= i < backwards@.len() ==> #[trigger] backwards@[i] == items@[items@.len() - 1
                    - i],
        decreases left,
    {
        left = left - 1;
        backwards.push(items[left]);
    }
    backwards
}

/// The listener that stands at place `place` of the plan.
pub open spec fn listener_at(
    interfaces: Seq<Ipv4Address>,
    udp_port: u16,
    cores: Seq<usize>,
    place: int,
) -> ListenerAssignment {
    ListenerAssignment {
        port: (udp_port + place) as u16,
        address: interfaces[place / LISTENERS_PER_PORT as int],
        core: cores[cores.len() - 1 - place],
    }
}

/// Tells whether `count` consecutive ports from `first` on exist.
pub fn ports_fit(first: u16, count: usize) -> (fit: bool)
    ensures
        fit == (first + count <= u16::MAX),
{
    count <= 0xffff && count as u16 <= u16::MAX - first
}

/// Plans the listeners of a receiver.
///
/// Each interface gets nine listeners. The ports run from `udp_port` upwards
/// in the order of the plan, and the cores are taken from the end of `cores`
/// backwards, one for each listener. The ports must exist, and there must be
/// a core for every listener.
pub fn listener_assignments(interfaces: &Vec<Ipv4Address>, udp_port: u16, cores: &Vec<usize>) -> (plan:
    Vec<ListenerAssignment>)
    requires
        udp_port + LISTENERS_PER_PORT * interfaces@.len() <= u16::MAX,
        LISTENERS_PER_PORT * interfaces@.len() <= cores@.len(),
    ensures
        plan@.len() == LISTENERS_PER_PORT * interfaces@.len(),
        forall|i: int|
            0 <= i < plan@.len() ==> #[trigger] plan@[i] == listener_at(
                interfaces@,
                udp_port,
                cores@,
                i,
            ),
{
    let num_listeners: usize = interfaces.len() * LISTENERS_PER_PORT;
    let ports = port_range(udp_port, num_listeners);
    let addresses = repeat_each(interfaces, LISTENERS_PER_PORT);
    let core_ids = reversed(cores);
    let triples = zip3(ports, addresses, core_ids);
    let mut plan: Vec<ListenerAssignment> = Vec::new();
    let mut place: usize = 0;
    while place < triples.len()
        invariant
            place <= triples@.len() == num_listeners,
            num_listeners == LISTENERS_PER_PORT * interfaces@.len(),
            num_listeners <= cores@.len(),
            udp_port + num_listeners <= u16::MAX,
            plan@.len() == place,
            forall|i: int|
                0 <= i < triples@.len() ==> #[trigger] triples@[i] == (
                    (udp_port + i) as u16,
                    interfaces@[i / LISTENERS_PER_PORT as int],
                    cores@[cores@.len() - 1 - i],
                ),
            forall|i: int|
                0 <= i < place ==> #[trigger] plan@[i] == listener_at(
                    interfaces@,
                    udp_port,
                    cores@,
                    i,
                ),
        decreases triples@.len() - place,
    {
        let (port, address, core) = triples[place];
        plan.push(ListenerAssignment { port, address, core });
        place = place + 1;
    }
    plan
}

/// When no core is named twice, no two listeners of a plan share a core.
pub proof fn lemma_cores_distinct(
    interfaces: Seq<Ipv4Address>,
    udp_port: u16,
    cores: Seq<usize>,
    left: int,
    right: int,
)
    requires
        forall|i: int, j: int| 0 <= i < j < cores.len() ==> cores[i] != cores[j],
        0 <= left < right < cores.len(),
    ensures
        listener_at(interfaces, udp_port, cores, left).core != listener_at(
            interfaces,
            udp_port,
            cores,
            right,
        ).core,
{
    let low = cores.len() - 1 - right;
    let high = cores.len() - 1 - left;
    assert(cores[low] != cores[high]);
}

/// Number of senders that go to the first target: the number asked for, or
/// nine when none is asked for.
pub open spec fn first_target_share(to_first: Option<u8>) -> int {
    match to_first {
        Some(count) => count as int,
        None => DEFAULT_TO_FIRST as int,
    }
}

/// The sender that stands at place `place` of the plan.
pub open spec fn sender_at(
    interfaces: Seq<Ipv4Address>,
    target_port: u16,
    target: Ipv4Address,
    target_2: Option<Ipv4Address>,
    to_first: Option<u8>,
    place: int,
) -> SenderAssignment {
    SenderAssignment {
        port: (target_port + place) as u16,
        source: interfaces[place / SENDERS_PER_INTERFACE as int],
        target: if place < first_target_share(to_first) {
            target
        } else {
            match target_2 {
                Some(second) => second,
                None => target,
            }
        },
    }
}

/// The targets of `count` senders, in the order of the plan: the first
/// `share` senders go to `target`, the others to `second`.
pub fn target_sequence(count: usize, share: u8, target: Ipv4Address, second: Ipv4Address) -> (targets:
    Vec<Ipv4Address>)
    ensures
        targets@.len() == count,
        forall|i: int|
            0 <= i < count ==> #[trigger] targets@[i] == if i < share {
                target
            } else {
                second
            },
{
    let mut targets: Vec<Ipv4Address> = Vec::new();
    while targets.len() < count
        invariant
            targets@.len() <= count,
            forall|i: int|
                0 <= i < targets@.len() ==> #[trigger] targets@[i] == if i < share {
                    target
                } else {
                    second
                },
        decreases count - targets@.len(),
    {
        if targets.len() < share as usize {
            targets.push(target);
        } else {
            targets.push(second);
        }
    }
    targets
}

/// Plans the senders of a replay generator.
///
/// Each interface gets four senders. The ports run from `target_port`
/// upwards in the order of the plan. The first `to_first` senders, nine when
/// none is given, send to `target`, and all others to `target_2`, which is
/// `target` again when none is given; a `to_first` beyond the number of
/// senders sends them all to `target`. The ports must exist.
pub fn sender_assignments(
    interfaces: &Vec<Ipv4Address>,
    target_port: u16,
    target: Ipv4Address,
    target_2: Option<Ipv4Address>,
    to_first: Option<u8>,
) -> (plan: Vec<SenderAssignment>)
    requires
        target_port + SENDERS_PER_INTERFACE * interfaces@.len() <= u16::MAX,
    ensures
        plan@.len() == SENDERS_PER_INTERFACE * interfaces@.len(),
        forall|i: int|
            0 <= i < plan@.len() ==> #[trigger] plan@[i] == sender_at(
                interfaces@,
                target_port,
                target,
                target_2,
                to_first,
                i,
            ),
{
    let num_senders: usize = interfaces.len() * SENDERS_PER_INTERFACE;
    let share: u8 = match to_first {
        Some(count) => count,
        None => DEFAULT_TO_FIRST,
    };
    let second: Ipv4Address = match target_2 {
        Some(other) => other,
        None => target,
    };
    let ports = port_range(target_port, num_senders);
    let sources = repeat_each(interfaces, SENDERS_PER_INTERFACE);
    let targets = target_sequence(num_senders, share, target, second);
    let triples = zip3(ports, sources, targets);
    let mut plan: Vec<SenderAssignment> = Vec::new();
    let mut place: usize = 0;
    while place < triples.len()
        invariant
            place <= triples@.len() == num_senders,
            num_senders == SENDERS_PER_INTERFACE * interfaces@.len(),
            target_port + num_senders <= u16::MAX,
            share == first_target_share(to_first),
            second == match target_2 {
                Some(other) => other,
                None => target,
            },
            plan@.len() == place,
            forall|i: int|
                0 <= i < triples@.len() ==> #[trigger] triples@[i] == (
                    (target_port + i) as u16,
                    interfaces@[i / SENDERS_PER_INTERFACE as int],
                    if i < share {
                        target
                    } else {
                        second
                    },
                ),
            forall|i: int|
                0 <= i < place ==> #[trigger] plan@[i] == sender_at(
                    interfaces@,
                    target_port,
                    target,
                    target_2,
                    to_first,
                    i,
                ),
        decreases triples@.len() - place,
    {
        let (port, source, to) = triples[place];
        plan.push(SenderAssignment { port, source, target: to });
        place = place + 1;
    }
    plan
}

} // verus!
