//! What holds of a listener over whole runs of packets.

use vstd::prelude::*;
use crate::frame::{AcquisitionLifecycleState, Tally, lemma_with_slot, slot};
use crate::header::{PACKETS_PER_FRAME, PAYLOAD_SIZE, SlsDetectorHeader};
use crate::listener::{ListenerView, lemma_after_packet_wf, lemma_after_timeout_wf};
use crate::pool::{IMAGE_BYTES, THREAD_IMAGE_BUFFER_LENGTH};

verus! {

/// One packet as it is handed to a listener.
pub struct Arrival {
    pub header: SlsDetectorHeader,
    pub payload: Seq<u8>,
    pub kernel_dropped: nat,
}

impl Arrival {
    /// The packet number is below 64 and the payload is 8192 bytes long.
    pub open spec fn valid(self) -> bool {
        self.header.packet_number < PACKETS_PER_FRAME && self.payload.len() == PAYLOAD_SIZE
    }
}

/// The listener after it has taken `arrivals` in order.
pub open spec fn after_packets(start: ListenerView, arrivals: Seq<Arrival>) -> ListenerView
    decreases arrivals.len(),
{
    if arrivals.len() == 0 {
        start
    } else {
        after_packets(start, arrivals.drop_last()).after_packet(
            arrivals.last().header,
            arrivals.last().payload,
            arrivals.last().kernel_dropped,
        )
    }
}

/// All of `arrivals` are valid packets of frame `frame_number`.
pub open spec fn all_of_frame(arrivals: Seq<Arrival>, frame_number: u64) -> bool {
    forall|i: int|
        0 <= i < arrivals.len() ==> (#[trigger] arrivals[i]).valid() && arrivals[i].header.frame_number
            == frame_number
}

/// No two of `arrivals` have the same packet number.
pub open spec fn distinct_packets(arrivals: Seq<Arrival>) -> bool {
    forall|i: int, j: int|
        0 <= i < j < arrivals.len() ==> (#[trigger] arrivals[i]).header.packet_number != (
        #[trigger] arrivals[j]).header.packet_number
}

/// A listener at which a packet of frame `frame_number` begins that frame: it
/// has no frame under assembly, or one with a lower number, which the packet
/// closes.
pub open spec fn ready_for(start: ListenerView, frame_number: u64) -> bool {
    match start.in_flight {
        Some(frame) => frame.frame_number < frame_number,
        None => true,
    }
}

/// The spare buffers while the frame that began at `start` is under
/// assembly.
pub open spec fn spare_during(start: ListenerView) -> Seq<Seq<u8>> {
    if start.in_flight is None {
        start.spare.drop_last()
    } else {
        start.spare
    }
}

/// Buffer conservation: after any run of valid packets, the number of
/// buffers out of the pool equals the number of frames under assembly, and a
/// timeout after the run brings every buffer back.
pub proof fn lemma_buffer_conservation(start: ListenerView, arrivals: Seq<Arrival>)
    requires
        start.wf(),
        forall|i: int| 0 <= i < arrivals.len() ==> (#[trigger] arrivals[i]).valid(),
    ensures
        after_packets(start, arrivals).wf(),
        after_packets(start, arrivals).buffers_checked_out() == after_packets(
            start,
            arrivals,
        ).frames_in_flight(),
        after_packets(start, arrivals).after_timeout().buffers_checked_out() == 0,
        after_packets(start, arrivals).after_timeout().frames_in_flight() == 0,
    decreases arrivals.len(),
{
    if arrivals.len() > 0 {
        let earlier = arrivals.drop_last();
        assert forall|i: int| 0 <= i < earlier.len() implies (#[trigger] earlier[i]).valid() by {
            assert(earlier[i] == arrivals[i]);
        }
        lemma_buffer_conservation(start, earlier);
        lemma_after_packet_wf(
            after_packets(start, earlier),
            arrivals.last().header,
            arrivals.last().payload,
            arrivals.last().kernel_dropped,
        );
    }
    lemma_after_timeout_wf(after_packets(start, arrivals));
}

/// While fewer than 64 packets of one frame have arrived at a listener at
/// which the first of them began the frame, the frame is under assembly with
/// as many packets as arrived, each in its slot, and no frame has been
/// completed.
pub proof fn lemma_frame_in_progress(start: ListenerView, arrivals: Seq<Arrival>, frame_number: u64)
    requires
        start.wf(),
        ready_for(start, frame_number),
        1 <= arrivals.len() < PACKETS_PER_FRAME,
        all_of_frame(arrivals, frame_number),
        distinct_packets(arrivals),
    ensures
        after_packets(start, arrivals).wf(),
        after_packets(start, arrivals).in_flight matches Some(frame) && frame.frame_number
            == frame_number && frame.received_packets == arrivals.len() && frame.header
            == arrivals[0].header && forall|i: int|
            0 <= i < arrivals.len() ==> slot(
                frame.data,
                (#[trigger] arrivals[i]).header.packet_number as int,
            ) == arrivals[i].payload,
        after_packets(start, arrivals).spare == spare_during(start),
        after_packets(start, arrivals).stats.complete_images == start.stats.complete_images,
        after_packets(start, arrivals).stats.images_seen == start.stats.images_seen + 1,
        after_packets(start, arrivals).stats.out_of_order == start.stats.out_of_order,
    decreases arrivals.len(),
{
    let earlier = arrivals.drop_last();
    let last = arrivals.last();
    assert(last == arrivals[arrivals.len() - 1]);
    assert(last.valid());
    if earlier.len() == 0 {
        assert(after_packets(start, earlier) == start);
        assert(arrivals[0] == last);
        lemma_after_packet_wf(start, last.header, last.payload, last.kernel_dropped);
        lemma_with_slot(
            start.frame_for(last.header).data,
            last.header.packet_number as int,
            last.payload,
        );
    } else {
        assert forall|i: int| 0 <= i < earlier.len() implies (#[trigger] earlier[i]).valid()
            && earlier[i].header.frame_number == frame_number by {
            assert(earlier[i] == arrivals[i]);
        }
        assert forall|i: int, j: int| 0 <= i < j < earlier.len() implies (
        #[trigger] earlier[i]).header.packet_number != (#[trigger] earlier[j]).header.packet_number by {
            assert(earlier[i] == arrivals[i]);
            assert(earlier[j] == arrivals[j]);
        }
        lemma_frame_in_progress(start, earlier, frame_number);
        let before = after_packets(start, earlier);
        let frame = before.in_flight->0;
        lemma_after_packet_wf(before, last.header, last.payload, last.kernel_dropped);
        lemma_with_slot(frame.data, last.header.packet_number as int, last.payload);
        let after = after_packets(start, arrivals);
        let grown = after.in_flight->0;
        assert(earlier[0] == arrivals[0]);
        assert forall|i: int| 0 <= i < arrivals.len() implies slot(
            grown.data,
            (#[trigger] arrivals[i]).header.packet_number as int,
        ) == arrivals[i].payload by {
            if i < earlier.len() {
                assert(earlier[i] == arrivals[i]);
                assert(arrivals[i].header.packet_number != last.header.packet_number);
            }
        }
    }
}

/// Reassembly: when the 64 packets of one frame arrive in any order at a
/// listener at which the first of them begins the frame, no frame is complete
/// before the last of them, exactly one is complete with it, and the finished
/// image, on top of the pool, holds the payload of each packet in the slot of
/// its packet number.
pub proof fn lemma_reassembly(start: ListenerView, arrivals: Seq<Arrival>, frame_number: u64)
    requires
        start.wf(),
        ready_for(start, frame_number),
        arrivals.len() == PACKETS_PER_FRAME,
        all_of_frame(arrivals, frame_number),
        distinct_packets(arrivals),
    ensures
        forall|n: int|
            0 <= n < PACKETS_PER_FRAME ==> (#[trigger] after_packets(
                start,
                arrivals.take(n),
            )).stats.complete_images == start.stats.complete_images,
        forall|n: int|
            0 <= n < PACKETS_PER_FRAME ==> ((#[trigger] after_packets(
                start,
                arrivals.take(n),
            )).completes_frame(arrivals[n].header) <==> n == PACKETS_PER_FRAME - 1),
        after_packets(start, arrivals).stats.complete_images == start.stats.complete_images + 1,
        after_packets(start, arrivals).stats.images_seen == start.stats.images_seen + 1,
        after_packets(start, arrivals).in_flight is None,
        after_packets(start, arrivals).spare.len() == THREAD_IMAGE_BUFFER_LENGTH,
        after_packets(start, arrivals).spare.last().len() == IMAGE_BYTES,
        forall|i: int|
            0 <= i < PACKETS_PER_FRAME ==> slot(
                after_packets(start, arrivals).spare.last(),
                (#[trigger] arrivals[i]).header.packet_number as int,
            ) == arrivals[i].payload,
{
    assert forall|n: int| 0 <= n < PACKETS_PER_FRAME implies (#[trigger] after_packets(
        start,
        arrivals.take(n),
    )).stats.complete_images == start.stats.complete_images by {
        lemma_prefix_of_frame(arrivals, frame_number, n);
        if n > 0 {
            lemma_frame_in_progress(start, arrivals.take(n), frame_number);
        }
    }
    assert forall|n: int| 0 <= n < PACKETS_PER_FRAME implies ((#[trigger] after_packets(
        start,
        arrivals.take(n),
    )).completes_frame(arrivals[n].header) <==> n == PACKETS_PER_FRAME - 1) by {
        lemma_prefix_of_frame(arrivals, frame_number, n);
        assert(arrivals[n].valid());
        if n > 0 {
            lemma_frame_in_progress(start, arrivals.take(n), frame_number);
        }
    }
    let earlier = arrivals.drop_last();
    let last = arrivals.last();
    assert(earlier =~= arrivals.take(PACKETS_PER_FRAME - 1));
    lemma_prefix_of_frame(arrivals, frame_number, PACKETS_PER_FRAME - 1);
    lemma_frame_in_progress(start, earlier, frame_number);
    let before = after_packets(start, earlier);
    let frame = before.in_flight->0;
    assert(last == arrivals[PACKETS_PER_FRAME - 1]);
    assert(last.valid());
    lemma_after_packet_wf(before, last.header, last.payload, last.kernel_dropped);
    lemma_with_slot(frame.data, last.header.packet_number as int, last.payload);
    let image = after_packets(start, arrivals).spare.last();
    assert forall|i: int| 0 <= i < PACKETS_PER_FRAME implies slot(
        image,
        (#[trigger] arrivals[i]).header.packet_number as int,
    ) == arrivals[i].payload by {
        if i < earlier.len() {
            assert(earlier[i] == arrivals[i]);
            assert(arrivals[i].header.packet_number != last.header.packet_number);
        }
    }
}

/// The first `n` of the packets of a frame are packets of that frame, and no
/// two of them have the same number.
proof fn lemma_prefix_of_frame(arrivals: Seq<Arrival>, frame_number: u64, n: int)
    requires
        0 <= n <= arrivals.len(),
        all_of_frame(arrivals, frame_number),
        distinct_packets(arrivals),
    ensures
        arrivals.take(n).len() == n,
        all_of_frame(arrivals.take(n), frame_number),
        distinct_packets(arrivals.take(n)),
{
    let prefix = arrivals.take(n);
    assert forall|i: int| 0 <= i < prefix.len() implies (#[trigger] prefix[i]).valid()
        && prefix[i].header.frame_number == frame_number by {
        assert(prefix[i] == arrivals[i]);
    }
    assert forall|i: int, j: int| 0 <= i < j < prefix.len() implies (
    #[trigger] prefix[i]).header.packet_number != (#[trigger] prefix[j]).header.packet_number by {
        assert(prefix[i] == arrivals[i]);
        assert(prefix[j] == arrivals[j]);
    }
}

/// Loss accounting: when `m` packets of a frame, `1 <= m < 64`, no two with
/// the same number, have arrived and a packet of a later frame follows, that
/// packet raises the count of dropped packets by `64 - m`, beyond what the
/// kernel reports with it, and the count of images seen by one.
pub proof fn lemma_loss_accounting(
    start: ListenerView,
    arrivals: Seq<Arrival>,
    frame_number: u64,
    next: Arrival,
)
    requires
        start.wf(),
        ready_for(start, frame_number),
        1 <= arrivals.len() < PACKETS_PER_FRAME,
        all_of_frame(arrivals, frame_number),
        distinct_packets(arrivals),
        next.valid(),
        next.header.frame_number > frame_number,
    ensures
        after_packets(start, arrivals.push(next)).stats.packets_dropped == after_packets(
            start,
            arrivals,
        ).stats.packets_dropped + next.kernel_dropped + (PACKETS_PER_FRAME - arrivals.len()),
        after_packets(start, arrivals.push(next)).stats.images_seen == after_packets(
            start,
            arrivals,
        ).stats.images_seen + 1,
        after_packets(start, arrivals.push(next)).stats.complete_images == after_packets(
            start,
            arrivals,
        ).stats.complete_images,
        after_packets(start, arrivals.push(next)).in_flight matches Some(frame)
            && frame.frame_number == next.header.frame_number && frame.received_packets == 1,
{
    lemma_frame_in_progress(start, arrivals, frame_number);
    let extended = arrivals.push(next);
    assert(extended.drop_last() =~= arrivals);
    assert(extended.last() == next);
}

/// Out-of-order compensation: a packet of a frame older than the one under
/// assembly raises the count of out-of-order packets by one and lowers the
/// count of dropped packets by one, where that count, with what the kernel
/// reports, is not zero. It leaves the other counters, the frame under
/// assembly and the pool as they are: its payload is written nowhere. And it
/// reports nothing.
pub proof fn lemma_out_of_order(before: ListenerView, stale: Arrival, acquisition_number: u64)
    requires
        before.wf(),
        stale.valid(),
        before.in_flight matches Some(frame) && stale.header.frame_number < frame.frame_number,
        before.stats.packets_dropped + stale.kernel_dropped >= 1,
    ensures
        before.after_packet(stale.header, stale.payload, stale.kernel_dropped).stats.out_of_order
            == before.stats.out_of_order + 1,
        before.after_packet(
            stale.header,
            stale.payload,
            stale.kernel_dropped,
        ).stats.packets_dropped == before.stats.packets_dropped + stale.kernel_dropped - 1,
        before.after_packet(stale.header, stale.payload, stale.kernel_dropped).stats.images_seen
            == before.stats.images_seen,
        before.after_packet(
            stale.header,
            stale.payload,
            stale.kernel_dropped,
        ).stats.complete_images == before.stats.complete_images,
        before.after_packet(stale.header, stale.payload, stale.kernel_dropped).in_flight
            == before.in_flight,
        before.after_packet(stale.header, stale.payload, stale.kernel_dropped).spare
            == before.spare,
        before.after_packet(stale.header, stale.payload, stale.kernel_dropped).acquiring,
        before.after_packet(stale.header, stale.payload, stale.kernel_dropped).wf(),
        before.packet_events(acquisition_number) == Seq::<AcquisitionLifecycleState>::empty(),
{
}

/// A late packet that finds the count of dropped packets at zero leaves it at
/// zero.
pub proof fn lemma_out_of_order_at_zero(before: ListenerView, stale: Arrival)
    requires
        before.wf(),
        stale.valid(),
        before.in_flight matches Some(frame) && stale.header.frame_number < frame.frame_number,
        before.stats.packets_dropped + stale.kernel_dropped == 0,
    ensures
        before.after_packet(stale.header, stale.payload, stale.kernel_dropped).stats.out_of_order
            == before.stats.out_of_order + 1,
        before.after_packet(
            stale.header,
            stale.payload,
            stale.kernel_dropped,
        ).stats.packets_dropped == 0,
        before.after_packet(stale.header, stale.payload, stale.kernel_dropped).in_flight
            == before.in_flight,
{
}

/// Acquisition end: a timeout in an acquisition reports the counters once and
/// leaves the listener idle with its counters at zero; a second timeout
/// reports nothing and changes nothing; and the next packet reports
/// `Starting` first and is counted from zero.
pub proof fn lemma_acquisition_end(before: ListenerView, next: Arrival, acquisition_number: u64)
    requires
        before.wf(),
        before.acquiring,
        next.valid(),
    ensures
        before.timeout_report() == Some(before.stats),
        before.after_timeout().wf(),
        !before.after_timeout().acquiring,
        before.after_timeout().stats == Tally::zero(),
        before.after_timeout().timeout_report() is None,
        before.after_timeout().after_timeout() == before.after_timeout(),
        before.after_timeout().packet_events(acquisition_number)
            == seq![AcquisitionLifecycleState::Starting { acquisition_number }],
        before.after_timeout().after_packet(
            next.header,
            next.payload,
            next.kernel_dropped,
        ).stats == (Tally {
            images_seen: 1,
            complete_images: 0,
            packets_dropped: next.kernel_dropped,
            out_of_order: 0,
        }),
{
    let idle = before.after_timeout();
    lemma_after_timeout_wf(before);
    assert(idle.after_timeout() =~= idle);
    assert(idle.packet_events(acquisition_number)
        =~= seq![AcquisitionLifecycleState::Starting { acquisition_number }]);
}

/// What the listener reports while it takes `arrivals` in order.
pub open spec fn events_of_packets(
    start: ListenerView,
    arrivals: Seq<Arrival>,
    acquisition_number: u64,
) -> Seq<AcquisitionLifecycleState>
    decreases arrivals.len(),
{
    if arrivals.len() == 0 {
        Seq::empty()
    } else {
        events_of_packets(start, arrivals.drop_last(), acquisition_number) + after_packets(
            start,
            arrivals.drop_last(),
        ).packet_events(acquisition_number)
    }
}

/// A run of packets reports `Starting` once, with its first packet, if it
/// begins the acquisition, and nothing if the acquisition was under way;
/// whichever frames it completes, it reports nothing else.
pub proof fn lemma_starting_once(
    start: ListenerView,
    arrivals: Seq<Arrival>,
    acquisition_number: u64,
)
    requires
        arrivals.len() >= 1,
    ensures
        after_packets(start, arrivals).acquiring,
        events_of_packets(start, arrivals, acquisition_number) == if start.acquiring {
            Seq::<AcquisitionLifecycleState>::empty()
        } else {
            seq![AcquisitionLifecycleState::Starting { acquisition_number }]
        },
    decreases arrivals.len(),
{
    let earlier = arrivals.drop_last();
    if earlier.len() == 0 {
        assert(after_packets(start, earlier) == start);
        assert(events_of_packets(start, earlier, acquisition_number)
            =~= Seq::<AcquisitionLifecycleState>::empty());
        assert(events_of_packets(start, arrivals, acquisition_number) =~= start.packet_events(
            acquisition_number,
        ));
    } else {
        lemma_starting_once(start, earlier, acquisition_number);
        assert(events_of_packets(start, arrivals, acquisition_number) =~= events_of_packets(
            start,
            earlier,
            acquisition_number,
        ));
    }
}

/// Acquisition boundary: an idle listener that takes a run of packets and
/// then a timeout reports `Starting` and then the counters of the run, and is
/// idle again with its counters at zero and every buffer in the pool, so that
/// the next run is reported and counted in the same way.
pub proof fn lemma_acquisition_boundary(
    start: ListenerView,
    arrivals: Seq<Arrival>,
    acquisition_number: u64,
)
    requires
        start.wf(),
        !start.acquiring,
        arrivals.len() >= 1,
        forall|i: int| 0 <= i < arrivals.len() ==> (#[trigger] arrivals[i]).valid(),
    ensures
        events_of_packets(start, arrivals, acquisition_number)
            == seq![AcquisitionLifecycleState::Starting { acquisition_number }],
        after_packets(start, arrivals).timeout_report() == Some(
            after_packets(start, arrivals).stats,
        ),
        after_packets(start, arrivals).after_timeout().wf(),
        !after_packets(start, arrivals).after_timeout().acquiring,
        after_packets(start, arrivals).after_timeout().stats == Tally::zero(),
        after_packets(start, arrivals).after_timeout().spare.len() == THREAD_IMAGE_BUFFER_LENGTH,
{
    lemma_starting_once(start, arrivals, acquisition_number);
    lemma_buffer_conservation(start, arrivals);
    lemma_after_timeout_wf(after_packets(start, arrivals));
}

} // verus!
