//! The ancillary messages that come with a datagram, as far as a listener
//! reads them.

use vstd::prelude::*;

verus! {

/// One ancillary message of a received datagram.
#[derive(Clone, Copy, Debug, PartialEq, Eq, Structural)]
pub enum ControlMessage {
    /// The number of packets that the socket dropped between the last
    /// received packet and this one, because its queue was full.
    RxqOvfl(u32),
    /// Any other message.
    Other,
}

/// The count of the first queue-overflow message among `messages`, or zero
/// where there is none.
pub open spec fn first_overflow(messages: Seq<ControlMessage>) -> u32
    decreases messages.len(),
{
    if messages.len() == 0 {
        0
    } else {
        match messages[0] {
            ControlMessage::RxqOvfl(count) => count,
            ControlMessage::Other => first_overflow(messages.skip(1)),
        }
    }
}

/// What a listener counts as dropped by the kernel: the count of the first
/// queue-overflow message, and zero where the messages could not be read.
pub open spec fn kernel_dropped(messages: Option<Seq<ControlMessage>>) -> u32 {
    match messages {
        Some(read) => first_overflow(read),
        None => 0,
    }
}

/// Returns the number of packets that the kernel reports as dropped with a
/// datagram: the count of the first queue-overflow message among its
/// ancillary messages, zero where there is none.
pub fn get_dropped_packets(messages: &Vec<ControlMessage>) -> (dropped: u32)
    ensures
        dropped == first_overflow(messages@),
{
    let total: usize = messages.len();
    let mut at: usize = 0;
    assert(messages@.skip(0) =~= messages@);
    while at < total
        invariant
            at <= total == messages@.len(),
            first_overflow(messages@) == first_overflow(messages@.skip(at as int)),
        decreases total - at,
    {
        match messages[at] {
            ControlMessage::RxqOvfl(count) => {
                return count;
            },
            ControlMessage::Other => {
                assert(messages@.skip(at as int).skip(1) =~= messages@.skip(at + 1));
            },
        }
        at = at + 1;
    }
    0
}

/// Returns what a listener counts as dropped by the kernel for a datagram
/// whose ancillary messages are `messages`, or `None` where they could not be
/// read: then nothing is counted.
pub fn dropped_or_zero(messages: &Option<Vec<ControlMessage>>) -> (dropped: u32)
    ensures
        dropped == kernel_dropped(
            match messages {
                Some(read) => Some(read@),
                None => None,
            },
        ),
{
    match messages {
        Some(read) => get_dropped_packets(read),
        None => 0,
    }
}

} // verus!
