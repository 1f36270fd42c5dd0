//! The reassembly state machine of one listener.
//!
//! A listener is idle until a packet arrives, and then acquiring until its
//! owner tells it that the socket has been silent for the timeout. While it
//! acquires it holds at most one frame under assembly. It takes decoded
//! packets and tells what to report; reading the socket is its owner's work.

use vstd::prelude::*;
use crate::frame::{AcquisitionLifecycleState, AcquisitionStats, FrameView, ReceiveImage, Tally,
    lemma_with_slot, with_slot, write_slot};
use crate::header::{PACKETS_PER_FRAME, PAYLOAD_SIZE, PacketError, SlsDetectorHeader,
    decode_packet, packet_fault, packet_payload};
use crate::pool::{BufferPool, IMAGE_BYTES, THREAD_IMAGE_BUFFER_LENGTH, blank_image, pool_wf};

verus! {

/// Silence on the socket, in milliseconds, that ends an acquisition.
pub const ACQUISITION_TIMEOUT_MS: u64 = 500;

/// Bytes that a listener asks for as its socket receive buffer.
pub const RECEIVE_BUFFER_BYTES: usize = 536870912;

/// A listener as a mathematical value.
pub struct ListenerView {
    /// Whether an acquisition is under way.
    pub acquiring: bool,
    /// The counters of the acquisition.
    pub stats: Tally,
    /// The frame under assembly.
    pub in_flight: Option<FrameView>,
    /// The spare buffers, the next one to be taken last.
    pub spare: Seq<Seq<u8>>,
}

impl ListenerView {
    /// The listener before its first packet: idle, with ten blank buffers.
    pub open spec fn idle() -> ListenerView {
        ListenerView {
            acquiring: false,
            stats: Tally::zero(),
            in_flight: None,
            spare: Seq::new(THREAD_IMAGE_BUFFER_LENGTH as nat, |i: int| blank_image()),
        }
    }

    /// Number of frames under assembly: one or none.
    pub open spec fn frames_in_flight(self) -> nat {
        if self.in_flight is Some {
            1
        } else {
            0
        }
    }

    /// Number of buffers that are out of the pool.
    pub open spec fn buffers_checked_out(self) -> int {
        THREAD_IMAGE_BUFFER_LENGTH - self.spare.len()
    }

    /// The invariant of a listener: the pool is sound, every buffer is either
    /// spare or holds the frame under assembly, that frame has between 1 and
    /// 63 packets, and an idle listener has counted nothing.
    pub open spec fn wf(self) -> bool {
        &&& pool_wf(self.spare)
        &&& self.buffers_checked_out() == self.frames_in_flight()
        &&& self.in_flight matches Some(frame) ==> {
            &&& self.acquiring
            &&& frame.data.len() == IMAGE_BYTES
            &&& 1 <= frame.received_packets < PACKETS_PER_FRAME
        }
        &&& !self.acquiring ==> self.stats == Tally::zero() && self.in_flight is None
    }

    /// The packet belongs to a frame older than the one under assembly.
    pub open spec fn is_stale(self, header: SlsDetectorHeader) -> bool {
        self.in_flight matches Some(frame) && header.frame_number < frame.frame_number
    }

    /// The packet belongs to a frame newer than the one under assembly, which
    /// it therefore closes.
    pub open spec fn closes_frame(self, header: SlsDetectorHeader) -> bool {
        self.in_flight matches Some(frame) && header.frame_number > frame.frame_number
    }

    /// The packet is the first of a frame: there is no frame under assembly,
    /// or the packet closes it.
    pub open spec fn opens_frame(self, header: SlsDetectorHeader) -> bool {
        self.in_flight is None || self.closes_frame(header)
    }

    /// Packets of the frame under assembly that are still missing when the
    /// packet closes it; zero when the packet closes no frame.
    pub open spec fn lost_at_closure(self, header: SlsDetectorHeader) -> nat {
        if self.closes_frame(header) {
            (PACKETS_PER_FRAME - self.in_flight->0.received_packets) as nat
        } else {
            0
        }
    }

    /// The frame that takes the packet, before the packet is written: the
    /// frame under assembly if the packet belongs to it, otherwise a new
    /// frame. A new frame takes the buffer that was given back last, which
    /// is that of the frame it closes if it closes one.
    pub open spec fn frame_for(self, header: SlsDetectorHeader) -> FrameView {
        match self.in_flight {
            Some(frame) => if frame.frame_number == header.frame_number {
                frame
            } else {
                FrameView {
                    frame_number: header.frame_number,
                    header,
                    received_packets: 0,
                    data: frame.data,
                }
            },
            None => FrameView {
                frame_number: header.frame_number,
                header,
                received_packets: 0,
                data: self.spare.last(),
            },
        }
    }

    /// The frame that takes the packet, after the packet is written.
    pub open spec fn frame_with(self, header: SlsDetectorHeader, payload: Seq<u8>) -> FrameView {
        let frame = self.frame_for(header);
        FrameView {
            frame_number: frame.frame_number,
            header: frame.header,
            received_packets: frame.received_packets + 1,
            data: with_slot(frame.data, header.packet_number as int, payload),
        }
    }

    /// The packet is the 64th of its frame. Packets are counted as they
    /// come: one that comes twice counts twice, so that 64 packets complete a
    /// frame whatever their numbers.
    pub open spec fn completes_frame(self, header: SlsDetectorHeader) -> bool {
        !self.is_stale(header) && self.frame_for(header).received_packets + 1
            == PACKETS_PER_FRAME
    }

    /// The counters after a packet that came with `kernel_dropped` packets
    /// lost in the socket queue.
    pub open spec fn stats_after_packet(
        self,
        header: SlsDetectorHeader,
        kernel_dropped: nat,
    ) -> Tally {
        let dropped = self.stats.packets_dropped + kernel_dropped;
        if self.is_stale(header) {
            Tally {
                images_seen: self.stats.images_seen,
                complete_images: self.stats.complete_images,
                packets_dropped: if dropped > 0 {
                    (dropped - 1) as nat
                } else {
                    0
                },
                out_of_order: self.stats.out_of_order + 1,
            }
        } else {
            Tally {
                images_seen: if self.opens_frame(header) {
                    self.stats.images_seen + 1
                } else {
                    self.stats.images_seen
                },
                complete_images: if self.completes_frame(header) {
                    self.stats.complete_images + 1
                } else {
                    self.stats.complete_images
                },
                packets_dropped: dropped + self.lost_at_closure(header),
                out_of_order: self.stats.out_of_order,
            }
        }
    }

    /// The listener after a packet.
    ///
    /// A stale packet is counted and thrown away. Any other packet is written
    /// into its frame; when that makes 64 packets the frame is complete and
    /// its buffer goes back on top of the pool, where the finished image can
    /// be read until the next frame begins.
    pub open spec fn after_packet(
        self,
        header: SlsDetectorHeader,
        payload: Seq<u8>,
        kernel_dropped: nat,
    ) -> ListenerView {
        let stats = self.stats_after_packet(header, kernel_dropped);
        if self.is_stale(header) {
            ListenerView { acquiring: true, stats, in_flight: self.in_flight, spare: self.spare }
        } else {
            let frame = self.frame_with(header, payload);
            let rest = if self.in_flight is None {
                self.spare.drop_last()
            } else {
                self.spare
            };
            if self.completes_frame(header) {
                ListenerView {
                    acquiring: true,
                    stats,
                    in_flight: None,
                    spare: rest.push(frame.data),
                }
            } else {
                ListenerView { acquiring: true, stats, in_flight: Some(frame), spare: rest }
            }
        }
    }

    /// What the listener reports for a packet: `Starting` if the packet
    /// begins an acquisition, and nothing otherwise. A completed frame shows
    /// in the count of complete images and on top of the pool.
    pub open spec fn packet_events(self, acquisition_number: u64) -> Seq<
        AcquisitionLifecycleState,
    > {
        if self.acquiring {
            Seq::empty()
        } else {
            seq![AcquisitionLifecycleState::Starting { acquisition_number }]
        }
    }

    /// The counters that a timeout reports: those of the acquisition that it
    /// ends, or nothing when the listener is idle.
    pub open spec fn timeout_report(self) -> Option<Tally> {
        if self.acquiring {
            Some(self.stats)
        } else {
            None
        }
    }

    /// The listener after the socket has timed out: idle, with counters at
    /// zero and every buffer in the pool.
    pub open spec fn after_timeout(self) -> ListenerView {
        ListenerView {
            acquiring: false,
            stats: Tally::zero(),
            in_flight: None,
            spare: match self.in_flight {
                Some(frame) => self.spare.push(frame.data),
                None => self.spare,
            },
        }
    }
}

/// The state of one listener: its counters, the frame under assembly and its
/// pool of buffers.
pub struct Listener {
    port: u16,
    acquiring: bool,
    stats: AcquisitionStats,
    last_image: Option<ReceiveImage>,
    spare_images: BufferPool,
}

impl View for Listener {
    type V = ListenerView;

    closed spec fn view(&self) -> ListenerView {
        ListenerView {
            acquiring: self.acquiring,
            stats: self.stats@,
            in_flight: match self.last_image {
                Some(image) => Some(image@),
                None => None,
            },
            spare: self.spare_images@,
        }
    }
}

impl Listener {
    /// The invariant of a listener.
    pub open spec fn wf(&self) -> bool {
        self@.wf()
    }

    /// The port that the listener serves.
    pub closed spec fn spec_port(&self) -> u16 {
        self.port
    }

    /// Makes an idle listener for `port` and allocates its ten buffers.
    pub fn new(port: u16) -> (listener: Listener)
        ensures
            listener.wf(),
            listener@ == ListenerView::idle(),
            listener.spec_port() == port,
    {
        Listener {
            port,
            acquiring: false,
            stats: AcquisitionStats::default(),
            last_image: None,
            spare_images: BufferPool::new(),
        }
    }

    /// Returns the port that the listener serves.
    #[verifier::when_used_as_spec(spec_port)]
    pub fn port(&self) -> (port: u16)
        ensures
            port == self.spec_port(),
    {
        self.port
    }

    /// Tells whether an acquisition is under way.
    pub fn is_acquiring(&self) -> (acquiring: bool)
        ensures
            acquiring == self@.acquiring,
    {
        self.acquiring
    }

    /// Returns the counters of the acquisition.
    pub fn stats(&self) -> (stats: AcquisitionStats)
        ensures
            stats@ == self@.stats,
    {
        self.stats
    }

    /// Returns the frame under assembly, if there is one.
    pub fn in_flight(&self) -> (image: Option<&ReceiveImage>)
        ensures
            match image {
                Some(found) => self@.in_flight == Some(found@),
                None => self@.in_flight is None,
            },
    {
        self.last_image.as_ref()
    }

    /// Number of spare buffers.
    pub fn spare_buffers(&self) -> (count: usize)
        ensures
            count == self@.spare.len(),
    {
        self.spare_images.available()
    }

    /// Number of buffers that are out of the pool: as many as there are
    /// frames under assembly.
    pub fn buffers_checked_out(&self) -> (count: usize)
        requires
            self.wf(),
        ensures
            count == self@.buffers_checked_out(),
            count == self@.frames_in_flight(),
    {
        self.spare_images.checked_out()
    }

    /// Returns the buffer that went back to the pool last. Right after a
    /// packet has completed a frame, this is the finished image.
    pub fn last_returned(&self) -> (image: Option<&Vec<u8>>)
        ensures
            self@.spare.len() == 0 ==> image.is_none(),
            self@.spare.len() > 0 ==> (image matches Some(data) && data@ == self@.spare.last()),
    {
        self.spare_images.top()
    }

    /// Tells whether one more packet, reported together with `kernel_dropped`
    /// lost packets, can be counted without a counter passing 64 bits.
    pub fn has_room(&self, kernel_dropped: u32) -> (room: bool)
        ensures
            room == self@.stats.has_room(kernel_dropped),
    {
        self.stats.has_room(kernel_dropped)
    }

    /// Takes a buffer for a new frame. The invariant keeps a buffer spare
    /// whenever no frame is under assembly.
    fn take_buffer(&mut self) -> (data: Vec<u8>)
        requires
            old(self).spare_images.wf(),
            old(self).spare_images@.len() > 0,
        ensures
            data@ == old(self).spare_images@.last(),
            final(self).spare_images@ == old(self).spare_images@.drop_last(),
            final(self).spare_images.wf(),
            final(self).port == old(self).port,
            final(self).acquiring == old(self).acquiring,
            final(self).stats == old(self).stats,
            final(self).last_image == old(self).last_image,
    {
        match self.spare_images.take() {
            Ok(data) => data,
            Err(_) => vstd::pervasive::unreached(),
        }
    }

    /// Takes one decoded packet.
    ///
    /// `kernel_dropped` is the number of packets that the kernel reports as
    /// lost in the socket queue, and `acquisition_number` the number to
    /// report if the packet begins an acquisition. The result lists what to
    /// report to the coordinator: `Starting` for the first packet of an
    /// acquisition, nothing for any other.
    pub fn on_packet(
        &mut self,
        header: &SlsDetectorHeader,
        payload: &[u8],
        kernel_dropped: u32,
        acquisition_number: u64,
    ) -> (events: Vec<AcquisitionLifecycleState>)
        requires
            old(self).wf(),
            header.packet_number < PACKETS_PER_FRAME,
            payload@.len() == PAYLOAD_SIZE,
            old(self)@.stats.has_room(kernel_dropped),
        ensures
            final(self).wf(),
            final(self).spec_port() == old(self).spec_port(),
            final(self)@ == old(self)@.after_packet(*header, payload@, kernel_dropped as nat),
            events@ == old(self)@.packet_events(acquisition_number),
    {
        let ghost before = self@;
        proof {
            lemma_after_packet_wf(before, *header, payload@, kernel_dropped as nat);
        }
        let mut events: Vec<AcquisitionLifecycleState> = Vec::new();
        if !self.acquiring {
            self.acquiring = true;
            events.push(AcquisitionLifecycleState::Starting { acquisition_number });
        }
        self.stats.packets_dropped = self.stats.packets_dropped + kernel_dropped as u64;
        let mut current = match self.last_image.take() {
            Some(image) => image,
            None => {
                self.stats.images_seen = self.stats.images_seen + 1;
                let data = self.take_buffer();
                ReceiveImage {
                    frame_number: header.frame_number,
                    header: *header,
                    received_packets: 0,
                    data,
                }
            },
        };
        if header.frame_number != current.frame_number {
            if header.frame_number < current.frame_number {
                self.stats.out_of_order = self.stats.out_of_order + 1;
                if self.stats.packets_dropped > 0 {
                    self.stats.packets_dropped = self.stats.packets_dropped - 1;
                }
                self.last_image = Some(current);
                assert(self@ == before.after_packet(*header, payload@, kernel_dropped as nat));
                assert(events@ =~= before.packet_events(acquisition_number));
                return events;
            }
            let missing: u32 = PACKETS_PER_FRAME - current.received_packets;
            self.stats.packets_dropped = self.stats.packets_dropped + missing as u64;
            self.stats.images_seen = self.stats.images_seen + 1;
            self.spare_images.put(current.data);
            let data = self.take_buffer();
            assert(self.spare_images@ =~= before.spare);
            current =
            ReceiveImage {
                frame_number: header.frame_number,
                header: *header,
                received_packets: 0,
                data,
            };
        }
        assert(current@ == before.frame_for(*header));
        current.received_packets = current.received_packets + 1;
        write_slot(&mut current.data, header.packet_number, payload);
        assert(current@ == before.frame_with(*header, payload@));
        if current.received_packets == PACKETS_PER_FRAME {
            self.spare_images.put(current.data);
            self.stats.complete_images = self.stats.complete_images + 1;
        } else {
            self.last_image = Some(current);
        }
        assert(self@ == before.after_packet(*header, payload@, kernel_dropped as nat));
        assert(events@ =~= before.packet_events(acquisition_number));
        events
    }

    /// Takes one datagram as it came from the socket.
    ///
    /// A datagram that is not a packet is refused and changes nothing. A
    /// packet is taken as by `on_packet`.
    pub fn on_datagram(
        &mut self,
        datagram: &[u8],
        kernel_dropped: u32,
        acquisition_number: u64,
    ) -> (result: Result<Vec<AcquisitionLifecycleState>, PacketError>)
        requires
            old(self).wf(),
            old(self)@.stats.has_room(kernel_dropped),
        ensures
            final(self).wf(),
            final(self).spec_port() == old(self).spec_port(),
            match packet_fault(datagram@) {
                Some(fault) => result == Err::<Vec<AcquisitionLifecycleState>, PacketError>(fault)
                    && final(self)@ == old(self)@,
                None => result matches Ok(events) && final(self)@ == old(self)@.after_packet(
                    SlsDetectorHeader::decoding(datagram@),
                    packet_payload(datagram@),
                    kernel_dropped as nat,
                ) && events@ == old(self)@.packet_events(acquisition_number),
            },
    {
        match decode_packet(datagram) {
            Ok((header, payload)) => Ok(
                self.on_packet(&header, payload, kernel_dropped, acquisition_number),
            ),
            Err(fault) => Err(fault),
        }
    }

    /// Takes the news that the socket has been silent for the timeout.
    ///
    /// An acquiring listener ends its acquisition: it reports `Ended` with
    /// the counters, sets them to zero, puts the buffer of an unfinished
    /// frame back into the pool and becomes idle. An idle listener reports
    /// nothing and stays as it is.
    pub fn on_timeout(&mut self) -> (event: Option<AcquisitionLifecycleState>)
        requires
            old(self).wf(),
        ensures
            final(self).wf(),
            final(self).spec_port() == old(self).spec_port(),
            final(self)@ == old(self)@.after_timeout(),
            match old(self)@.timeout_report() {
                Some(tally) => event matches Some(AcquisitionLifecycleState::Ended(stats))
                    && stats@ == tally,
                None => event.is_none(),
            },
    {
        if !self.acquiring {
            assert(self@ =~= old(self)@.after_timeout());
            return None;
        }
        let ended = self.stats;
        match self.last_image.take() {
            Some(image) => {
                self.spare_images.put(image.data);
            },
            None => {},
        }
        self.stats = AcquisitionStats::default();
        self.acquiring = false;
        assert(self@ =~= old(self)@.after_timeout());
        Some(AcquisitionLifecycleState::Ended(ended))
    }
}

/// A packet leaves a sound listener sound.
pub proof fn lemma_after_packet_wf(
    before: ListenerView,
    header: SlsDetectorHeader,
    payload: Seq<u8>,
    kernel_dropped: nat,
)
    requires
        before.wf(),
        header.packet_number < PACKETS_PER_FRAME,
        payload.len() == PAYLOAD_SIZE,
    ensures
        before.after_packet(header, payload, kernel_dropped).wf(),
        before.after_packet(header, payload, kernel_dropped).acquiring,
{
    if !before.is_stale(header) {
        let frame = before.frame_for(header);
        assert(frame.data.len() == IMAGE_BYTES);
        lemma_with_slot(frame.data, header.packet_number as int, payload);
    }
}

/// A timeout leaves a sound listener sound, idle, and with all ten buffers
/// in its pool.
pub proof fn lemma_after_timeout_wf(before: ListenerView)
    requires
        before.wf(),
    ensures
        before.after_timeout().wf(),
        !before.after_timeout().acquiring,
        before.after_timeout().spare.len() == THREAD_IMAGE_BUFFER_LENGTH,
        before.after_timeout().buffers_checked_out() == 0,
{
}

} // verus!
