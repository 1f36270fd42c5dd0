//! IPv4 addresses of local interfaces, and the choice of those that belong
//! to the data plane.

use vstd::prelude::*;

verus! {

/// An IPv4 address, octet by octet as it is written.
#[derive(Clone, Copy, Debug, PartialEq, Eq, Structural)]
pub struct Ipv4Address {
    pub first: u8,
    pub second: u8,
    pub third: u8,
    pub fourth: u8,
}

impl Ipv4Address {
    /// The address as one number, the first octet weighing most. Addresses
    /// are ordered by this number.
    pub open spec fn value(self) -> nat {
        (self.first * 0x100_0000 + self.second * 0x1_0000 + self.third * 0x100
            + self.fourth) as nat
    }

    /// Makes the address `first.second.third.fourth`.
    pub fn new(first: u8, second: u8, third: u8, fourth: u8) -> (address: Ipv4Address)
        ensures
            address == (Ipv4Address { first, second, third, fourth }),
    {
        Ipv4Address { first, second, third, fourth }
    }

    /// Returns the address as one number, the first octet weighing most.
    pub fn bits(&self) -> (bits: u32)
        ensures
            bits == self.value(),
    {
        self.first as u32 * 0x100_0000 + self.second as u32 * 0x1_0000 + self.third as u32
            * 0x100 + self.fourth as u32
    }
}

/// Two addresses with the same number are the same address.
pub proof fn lemma_value_injective(left: Ipv4Address, right: Ipv4Address)
    requires
        left.value() == right.value(),
    ensures
        left == right,
{
    lemma_octets_of_value(left);
    lemma_octets_of_value(right);
}

/// Each octet can be read off the number of an address.
proof fn lemma_octets_of_value(address: Ipv4Address)
    ensures
        address.fourth == address.value() % 0x100,
        address.third == (address.value() / 0x100) % 0x100,
        address.second == (address.value() / 0x1_0000) % 0x100,
        address.first == address.value() / 0x100_0000,
{
    let high: int = address.first * 0x1_0000 + address.second * 0x100 + address.third;
    let middle: int = address.first * 0x100 + address.second;
    assert(address.value() == high * 0x100 + address.fourth);
    assert(address.value() / 0x100 == high);
    assert(high == middle * 0x100 + address.third);
    assert(high / 0x100 == middle);
    assert(address.value() / 0x1_0000 == middle);
    assert(middle == address.first * 0x100 + address.second);
    assert(middle / 0x100 == address.first as int);
    assert(address.value() / 0x100_0000 == address.first as int);
}

/// The addresses whose first octet is `prefix`.
pub open spec fn has_prefix(prefix: u8) -> spec_fn(Ipv4Address) -> bool {
    |address: Ipv4Address| address.first == prefix
}

/// Every address is at most the ones behind it.
pub open spec fn ascending(addresses: Seq<Ipv4Address>) -> bool {
    forall|i: int, j: int|
        0 <= i <= j < addresses.len() ==> (#[trigger] addresses[i]).value() <= (
        #[trigger] addresses[j]).value()
}

/// Inserting an element adds it to what a sequence holds.
proof fn lemma_insert_to_multiset(addresses: Seq<Ipv4Address>, at: int, address: Ipv4Address)
    requires
        0 <= at <= addresses.len(),
    ensures
        addresses.insert(at, address).to_multiset() == addresses.to_multiset().insert(address),
{
    let grown = addresses.insert(at, address);
    assert(grown.remove(at) =~= addresses);
    assert(grown[at] == address);
    vstd::seq_lib::to_multiset_remove(grown, at);
    grown.to_multiset_ensures();
    assert(grown.contains(address));
    assert(grown.to_multiset() =~= addresses.to_multiset().insert(address));
}

/// Taking one more element of a sequence adds that element to the chosen
/// ones if it has the prefix, and nothing otherwise.
proof fn lemma_filter_step(addresses: Seq<Ipv4Address>, prefix: u8, count: int)
    requires
        0 <= count < addresses.len(),
    ensures
        addresses.take(count + 1).filter(has_prefix(prefix)) == if addresses[count].first
            == prefix {
            addresses.take(count).filter(has_prefix(prefix)).push(addresses[count])
        } else {
            addresses.take(count).filter(has_prefix(prefix))
        },
{
    reveal(Seq::filter);
    let longer = addresses.take(count + 1);
    assert(longer.drop_last() =~= addresses.take(count));
    assert(longer.last() == addresses[count]);
}

/// Chooses the interface addresses that belong to the data plane.
///
/// Of `addresses`, the IPv4 addresses of the host's interfaces, the result
/// holds those whose first octet is `prefix`, each as often as it was given,
/// in ascending order.
pub fn get_interface_addreses_with_prefix(addresses: &Vec<Ipv4Address>, prefix: u8) -> (chosen:
    Vec<Ipv4Address>)
    ensures
        ascending(chosen@),
        chosen@.to_multiset() == addresses@.filter(has_prefix(prefix)).to_multiset(),
{
    let mut chosen: Vec<Ipv4Address> = Vec::new();
    let total: usize = addresses.len();
    let mut seen: usize = 0;
    proof {
        reveal(Seq::filter);
        assert(addresses@.take(0).filter(has_prefix(prefix)) =~= Seq::empty());
    }
    while seen < total
        invariant
            seen <= total == addresses@.len(),
            ascending(chosen@),
            chosen@.to_multiset() == addresses@.take(seen as int).filter(
                has_prefix(prefix),
            ).to_multiset(),
        decreases total - seen,
    {
        let address: Ipv4Address = addresses[seen];
        proof {
            lemma_filter_step(addresses@, prefix, seen as int);
        }
        if address.first == prefix {
            let key: u32 = address.bits();
            let mut at: usize = 0;
            while at < chosen.len() && chosen[at].bits() <= key
                invariant
                    at <= chosen@.len(),
                    key == address.value(),
                    forall|k: int| 0 <= k < at ==> (#[trigger] chosen@[k]).value() <= key,
                decreases chosen@.len() - at,
            {
                at = at + 1;
            }
            proof {
                lemma_insert_to_multiset(chosen@, at as int, address);
                vstd::seq_lib::to_multiset_build(
                    addresses@.take(seen as int).filter(has_prefix(prefix)),
                    address,
                );
                let grown = chosen@.insert(at as int, address);
                assert forall|i: int, j: int| 0 <= i <= j < grown.len() implies (
                #[trigger] grown[i]).value() <= (#[trigger] grown[j]).value() by {
                    if i < at && j > at {
                        assert(grown[i] == chosen@[i]);
                        assert(grown[j] == chosen@[j - 1]);
                    } else if i < at && j < at {
                        assert(grown[i] == chosen@[i]);
                        assert(grown[j] == chosen@[j]);
                    } else if i > at {
                        assert(grown[i] == chosen@[i - 1]);
                        assert(grown[j] == chosen@[j - 1]);
                    } else if i == at && j > at {
                        assert(grown[j] == chosen@[j - 1]);
                        assert(chosen@[at as int].value() <= chosen@[j - 1].value());
                    } else if j == at && i < at {
                        assert(grown[i] == chosen@[i]);
                    }
                }
            }
            chosen.insert(at, address);
        }
        seen = seen + 1;
    }
    proof {
        assert(addresses@.take(total as int) =~= addresses@);
    }
    chosen
}

} // verus!
