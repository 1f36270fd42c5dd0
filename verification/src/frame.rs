//! A frame under assembly, and the counters of an acquisition.
//!
//! A frame is 64 packets of 8192 bytes. Packet `k` fills the bytes from
//! `k * 8192` up to `(k + 1) * 8192` of the image, whatever the order in
//! which the packets arrive.

use vstd::prelude::*;
use crate::header::{PACKETS_PER_FRAME, PAYLOAD_SIZE, SlsDetectorHeader};
use crate::pool::IMAGE_BYTES;

verus! {

/// The counters of an acquisition as natural numbers.
pub struct Tally {
    pub images_seen: nat,
    pub complete_images: nat,
    pub packets_dropped: nat,
    pub out_of_order: nat,
}

impl Tally {
    /// All counters at zero.
    pub open spec fn zero() -> Tally {
        Tally { images_seen: 0, complete_images: 0, packets_dropped: 0, out_of_order: 0 }
    }

    /// One more packet, reported together with `kernel_dropped` lost
    /// packets, cannot push a counter beyond 64 bits: it adds at most one
    /// to a count of images or of late packets, and at most `kernel_dropped`
    /// and the 63 packets that a frame can miss to the count of dropped
    /// packets.
    pub open spec fn has_room(self, kernel_dropped: u32) -> bool {
        &&& self.images_seen < u64::MAX
        &&& self.complete_images < u64::MAX
        &&& self.out_of_order < u64::MAX
        &&& self.packets_dropped + kernel_dropped + (PACKETS_PER_FRAME - 1) <= u64::MAX
    }
}

/// What a listener has counted since the acquisition began.
#[derive(Clone, Copy, Debug, PartialEq, Eq, Structural)]
pub struct AcquisitionStats {
    /// Images of which at least one packet was seen.
    pub images_seen: u64,
    /// Images of which all 64 packets were received.
    pub complete_images: u64,
    /// Packets that were expected and did not arrive.
    pub packets_dropped: u64,
    /// Packets that arrived after their image had been closed.
    pub out_of_order: u64,
}

impl View for AcquisitionStats {
    type V = Tally;

    open spec fn view(&self) -> Tally {
        Tally {
            images_seen: self.images_seen as nat,
            complete_images: self.complete_images as nat,
            packets_dropped: self.packets_dropped as nat,
            out_of_order: self.out_of_order as nat,
        }
    }
}

impl Default for AcquisitionStats {
    /// All counters at zero.
    fn default() -> (stats: AcquisitionStats)
        ensures
            stats@ == Tally::zero(),
    {
        AcquisitionStats { images_seen: 0, complete_images: 0, packets_dropped: 0, out_of_order: 0 }
    }
}

impl AcquisitionStats {
    /// Tells whether one more packet, reported together with `kernel_dropped`
    /// lost packets, can be counted without a counter passing 64 bits.
    pub fn has_room(&self, kernel_dropped: u32) -> (room: bool)
        ensures
            room == self@.has_room(kernel_dropped),
    {
        let limit: u64 = u64::MAX - 63 - kernel_dropped as u64;
        self.images_seen < u64::MAX && self.complete_images < u64::MAX && self.out_of_order
            < u64::MAX && self.packets_dropped <= limit
    }
}

/// What a listener reports to the coordinator.
#[derive(Clone, Copy, Debug, PartialEq, Eq, Structural)]
pub enum AcquisitionLifecycleState {
    /// The listener has received the first packet of an acquisition.
    Starting { acquisition_number: u64 },
    /// An image was received, with so many packets dropped. A listener does
    /// not report it: it is there for those who pass images on.
    ImageReceived { image_number: u64, dropped_packets: u64 },
    /// The acquisition is over; the counters are those it ended with.
    Ended(AcquisitionStats),
}

/// The bytes that packet `packet_number` fills in an image.
pub open spec fn slot(data: Seq<u8>, packet_number: int) -> Seq<u8> {
    data.subrange(packet_number * PAYLOAD_SIZE, (packet_number + 1) * PAYLOAD_SIZE)
}

/// The image `data` with the bytes of packet `packet_number` replaced by
/// `payload`.
pub open spec fn with_slot(data: Seq<u8>, packet_number: int, payload: Seq<u8>) -> Seq<u8> {
    data.subrange(0, packet_number * PAYLOAD_SIZE) + payload + data.subrange(
        (packet_number + 1) * PAYLOAD_SIZE,
        data.len() as int,
    )
}

/// A frame under assembly, as a mathematical value.
pub struct FrameView {
    pub frame_number: u64,
    pub header: SlsDetectorHeader,
    pub received_packets: nat,
    pub data: Seq<u8>,
}

/// A frame under assembly.
#[derive(Debug)]
pub struct ReceiveImage {
    /// Number of the frame.
    pub frame_number: u64,
    /// Header of the packet that was seen first.
    pub header: SlsDetectorHeader,
    /// Packets received so far.
    pub received_packets: u32,
    /// The image, in packet order.
    pub data: Vec<u8>,
}

impl View for ReceiveImage {
    type V = FrameView;

    open spec fn view(&self) -> FrameView {
        FrameView {
            frame_number: self.frame_number,
            header: self.header,
            received_packets: self.received_packets as nat,
            data: self.data@,
        }
    }
}

/// Writing a slot keeps the length of the image, sets that slot, and leaves
/// every other slot as it was.
pub proof fn lemma_with_slot(data: Seq<u8>, packet_number: int, payload: Seq<u8>)
    requires
        data.len() == IMAGE_BYTES,
        0 <= packet_number < PACKETS_PER_FRAME,
        payload.len() == PAYLOAD_SIZE,
    ensures
        with_slot(data, packet_number, payload).len() == IMAGE_BYTES,
        slot(with_slot(data, packet_number, payload), packet_number) == payload,
        forall|other: int|
            0 <= other < PACKETS_PER_FRAME && other != packet_number ==> #[trigger] slot(
                with_slot(data, packet_number, payload),
                other,
            ) == slot(data, other),
{
    let written = with_slot(data, packet_number, payload);
    assert(written.len() == IMAGE_BYTES);
    assert(slot(written, packet_number) =~= payload);
    assert forall|other: int|
        0 <= other < PACKETS_PER_FRAME && other != packet_number implies #[trigger] slot(
        written,
        other,
    ) == slot(data, other) by {
        assert(slot(written, other) =~= slot(data, other));
    }
}

/// Copies `payload` into the slot of packet `packet_number`.
pub fn write_slot(data: &mut Vec<u8>, packet_number: u32, payload: &[u8])
    requires
        old(data)@.len() == IMAGE_BYTES,
        packet_number < PACKETS_PER_FRAME,
        payload@.len() == PAYLOAD_SIZE,
    ensures
        final(data)@ == with_slot(old(data)@, packet_number as int, payload@),
{
    let base: usize = packet_number as usize * PAYLOAD_SIZE;
    let mut at: usize = 0;
    assert(data@ =~= old(data)@.subrange(0, base as int) + payload@.subrange(0, 0) + old(
        data,
    )@.subrange(base as int, IMAGE_BYTES as int));
    while at < PAYLOAD_SIZE
        invariant
            at <= PAYLOAD_SIZE,
            base == packet_number * PAYLOAD_SIZE,
            packet_number < PACKETS_PER_FRAME,
            payload@.len() == PAYLOAD_SIZE,
            old(data)@.len() == IMAGE_BYTES,
            data@ == old(data)@.subrange(0, base as int) + payload@.subrange(0, at as int) + old(
                data,
            )@.subrange(base + at, IMAGE_BYTES as int),
        decreases PAYLOAD_SIZE - at,
    {
        let byte: u8 = payload[at];
        data.set(base + at, byte);
        at = at + 1;
        assert(data@ =~= old(data)@.subrange(0, base as int) + payload@.subrange(0, at as int)
            + old(data)@.subrange(base + at, IMAGE_BYTES as int));
    }
    assert(payload@.subrange(0, PAYLOAD_SIZE as int) =~= payload@);
}

} // verus!
