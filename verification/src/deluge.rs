//! One sender of the replay generator.
//!
//! A burst is `frames` images of 64 packets each. Image `k` of a burst is
//! due `k` exposure times after the burst began: the sender waits for that
//! moment and then transmits the 64 packets of the image back to back. It
//! tells its owner what to do next; sleeping and sending are the owner's
//! work.

use vstd::prelude::*;
use crate::header::{HEADER_SIZE, PACKETS_PER_FRAME, PACKET_SIZE, PAYLOAD_SIZE, SlsDetectorHeader,
    lemma_encoding_len, packet_bytes};

verus! {

/// What a sender asks of its owner.
#[derive(Clone, Copy, Debug, PartialEq, Eq, Structural)]
pub enum SenderStep {
    /// The next image is not due yet: sleep for so many nanoseconds, then ask
    /// again.
    Wait { nanos: u128 },
    /// Send the current packet, then report that it was sent.
    Transmit,
    /// The burst is over.
    Finished,
}

/// A sender as a mathematical value.
pub struct SenderView {
    /// The header of the packet to send next.
    pub header: SlsDetectorHeader,
    /// Images of the burst.
    pub frames: nat,
    /// Images of the burst that were sent in full.
    pub images_sent: nat,
    /// Time between the starts of two images, in nanoseconds.
    pub exptime_nanos: nat,
}

/// The payload of every packet that a sender sends: 8192 zero bytes.
pub open spec fn blank_payload() -> Seq<u8> {
    Seq::new(PAYLOAD_SIZE as nat, |i: int| 0u8)
}

impl SenderView {
    /// The sender before its first burst.
    pub open spec fn idle() -> SenderView {
        SenderView { header: SlsDetectorHeader::zero(), frames: 0, images_sent: 0, exptime_nanos: 0 }
    }

    /// The header with the given frame and packet number and every other
    /// field zero.
    pub open spec fn header_of(frame_number: u64, packet_number: u32) -> SlsDetectorHeader {
        SlsDetectorHeader {
            frame_number,
            exposure_length: 0,
            packet_number,
            bunch_id: 0,
            timestamp: 0,
            module_id: 0,
            row: 0,
            column: 0,
            det_spec_2: 0,
            daq_info: 0,
            det_spec_4: 0,
            det_type: 0,
            version: 0,
        }
    }

    /// The invariant of a sender: only the frame and the packet number of
    /// its header are ever set, the packet number is below 64 and zero
    /// between bursts, and the frame numbers of the images that are left fit
    /// 64 bits.
    pub open spec fn wf(self) -> bool {
        &&& self.header == Self::header_of(self.header.frame_number, self.header.packet_number)
        &&& self.header.packet_number < PACKETS_PER_FRAME
        &&& self.images_sent <= self.frames <= u64::MAX
        &&& self.exptime_nanos <= u64::MAX
        &&& self.images_sent == self.frames ==> self.header.packet_number == 0
        &&& self.header.frame_number + (self.frames - self.images_sent) <= u64::MAX
    }

    /// The burst is over, or none has begun.
    pub open spec fn finished(self) -> bool {
        self.images_sent == self.frames
    }

    /// Nanoseconds after the start of the burst at which the current image
    /// is due.
    pub open spec fn due(self) -> nat {
        self.images_sent * self.exptime_nanos
    }

    /// What to do `elapsed` nanoseconds after the burst began.
    pub open spec fn step_at(self, elapsed: nat) -> SenderStep {
        if self.finished() {
            SenderStep::Finished
        } else if self.header.packet_number == 0 && elapsed < self.due() {
            SenderStep::Wait { nanos: (self.due() - elapsed) as u128 }
        } else {
            SenderStep::Transmit
        }
    }

    /// The datagram to send next: the header and a payload of zeros.
    pub open spec fn datagram(self) -> Seq<u8> {
        packet_bytes(self.header, blank_payload())
    }

    /// The sender at the start of a burst of `frames` images.
    pub open spec fn after_start(self, frames: nat, exptime_nanos: nat) -> SenderView {
        SenderView {
            header: Self::header_of(self.header.frame_number, 0),
            frames,
            images_sent: 0,
            exptime_nanos,
        }
    }

    /// The sender after the current packet was sent: at the next packet of
    /// the image, or after the 64th at the first packet of the next image.
    pub open spec fn after_packet_sent(self) -> SenderView {
        if self.finished() {
            self
        } else if self.header.packet_number + 1 < PACKETS_PER_FRAME {
            SenderView {
                header: Self::header_of(
                    self.header.frame_number,
                    (self.header.packet_number + 1) as u32,
                ),
                frames: self.frames,
                images_sent: self.images_sent,
                exptime_nanos: self.exptime_nanos,
            }
        } else {
            SenderView {
                header: Self::header_of((self.header.frame_number + 1) as u64, 0),
                frames: self.frames,
                images_sent: self.images_sent + 1,
                exptime_nanos: self.exptime_nanos,
            }
        }
    }
}

/// The state of one sender.
pub struct DelugeSender {
    header: SlsDetectorHeader,
    frames: u128,
    images_sent: u128,
    exptime_nanos: u64,
    packet: Vec<u8>,
}

impl View for DelugeSender {
    type V = SenderView;

    closed spec fn view(&self) -> SenderView {
        SenderView {
            header: self.header,
            frames: self.frames as nat,
            images_sent: self.images_sent as nat,
            exptime_nanos: self.exptime_nanos as nat,
        }
    }
}

/// Writes `front` over the first bytes of `buffer`.
fn overwrite_front(buffer: &mut Vec<u8>, front: &Vec<u8>)
    requires
        front@.len() <= old(buffer)@.len(),
    ensures
        final(buffer)@ == front@ + old(buffer)@.subrange(
            front@.len() as int,
            old(buffer)@.len() as int,
        ),
{
    let count: usize = front.len();
    let mut at: usize = 0;
    assert(buffer@ =~= front@.subrange(0, 0) + old(buffer)@.subrange(
        0,
        old(buffer)@.len() as int,
    ));
    while at < count
        invariant
            at <= count == front@.len(),
            count <= old(buffer)@.len(),
            buffer@ == front@.subrange(0, at as int) + old(buffer)@.subrange(
                at as int,
                old(buffer)@.len() as int,
            ),
        decreases count - at,
    {
        let byte: u8 = front[at];
        buffer.set(at, byte);
        at = at + 1;
        assert(buffer@ =~= front@.subrange(0, at as int) + old(buffer)@.subrange(
            at as int,
            old(buffer)@.len() as int,
        ));
    }
    assert(front@.subrange(0, count as int) =~= front@);
}

impl DelugeSender {
    /// The invariant of a sender; the packet it holds is the datagram of its
    /// header.
    pub closed spec fn wf(&self) -> bool {
        self@.wf() && self.packet@ == self@.datagram()
    }

    /// A sound sender has a sound view.
    pub proof fn lemma_wf_view(&self)
        requires
            self.wf(),
        ensures
            self@.wf(),
    {
    }

    /// Makes a sender that has sent nothing: its first packet will be packet
    /// 0 of frame 0.
    pub fn new() -> (sender: DelugeSender)
        ensures
            sender.wf(),
            sender@ == SenderView::idle(),
    {
        let header = SlsDetectorHeader::zeroed();
        let mut packet: Vec<u8> = Vec::with_capacity(PACKET_SIZE);
        header.encode_into(&mut packet);
        proof {
            lemma_encoding_len(header);
        }
        let mut filled: usize = 0;
        while filled < PAYLOAD_SIZE
            invariant
                filled <= PAYLOAD_SIZE,
                packet@.len() == HEADER_SIZE + filled,
                packet@.subrange(0, HEADER_SIZE as int) == header.encoding(),
                forall|i: int| HEADER_SIZE <= i < packet@.len() ==> packet@[i] == 0,
            decreases PAYLOAD_SIZE - filled,
        {
            let ghost before = packet@;
            packet.push(0u8);
            filled = filled + 1;
            assert(packet@.subrange(0, HEADER_SIZE as int) =~= before.subrange(
                0,
                HEADER_SIZE as int,
            ));
        }
        assert(packet@ =~= packet_bytes(header, blank_payload()));
        DelugeSender { header, frames: 0, images_sent: 0, exptime_nanos: 0, packet }
    }

    /// Tells whether a burst of `frames` images can begin: their frame
    /// numbers must fit 64 bits.
    pub fn can_start(&self, frames: u128) -> (fits: bool)
        requires
            self.wf(),
        ensures
            fits == (self@.header.frame_number + frames <= u64::MAX),
    {
        frames <= (u64::MAX - self.header.frame_number) as u128
    }

    /// Begins a burst of `frames` images, `exptime_nanos` nanoseconds apart.
    /// The frame numbers go on from where the last burst ended.
    pub fn start(&mut self, frames: u128, exptime_nanos: u64)
        requires
            old(self).wf(),
            old(self)@.header.frame_number + frames <= u64::MAX,
        ensures
            final(self).wf(),
            final(self)@ == old(self)@.after_start(frames as nat, exptime_nanos as nat),
    {
        proof {
            lemma_encoding_len(self.header);
            assert(self.packet@.subrange(HEADER_SIZE as int, PACKET_SIZE as int)
                =~= blank_payload());
        }
        self.frames = frames;
        self.images_sent = 0;
        self.exptime_nanos = exptime_nanos;
        self.header.packet_number = 0;
        self.refresh_packet();
    }

    /// Brings the packet in line with the header.
    fn refresh_packet(&mut self)
        requires
            old(self).packet@.len() == PACKET_SIZE,
            old(self).packet@.subrange(HEADER_SIZE as int, PACKET_SIZE as int) == blank_payload(),
        ensures
            final(self).packet@ == final(self)@.datagram(),
            final(self)@ == old(self)@,
    {
        let encoded = self.header.encode();
        overwrite_front(&mut self.packet, &encoded);
    }

    /// Tells what to do `elapsed_nanos` nanoseconds after the burst began.
    pub fn next_step(&self, elapsed_nanos: u64) -> (step: SenderStep)
        requires
            self.wf(),
        ensures
            step == self@.step_at(elapsed_nanos as nat),
    {
        if self.images_sent == self.frames {
            return SenderStep::Finished;
        }
        if self.header.packet_number == 0 {
            assert(self.images_sent * self.exptime_nanos <= u64::MAX * u64::MAX) by (nonlinear_arith)
                requires
                    self.images_sent <= u64::MAX,
                    self.exptime_nanos <= u64::MAX,
            ;
            let due: u128 = self.images_sent * self.exptime_nanos as u128;
            if (elapsed_nanos as u128) < due {
                return SenderStep::Wait { nanos: due - elapsed_nanos as u128 };
            }
        }
        SenderStep::Transmit
    }

    /// Returns the datagram to send next: 8240 bytes, the header and a
    /// payload of zeros.
    pub fn packet(&self) -> (datagram: &Vec<u8>)
        requires
            self.wf(),
        ensures
            datagram@ == self@.datagram(),
            datagram@.len() == PACKET_SIZE,
    {
        proof {
            lemma_encoding_len(self.header);
        }
        &self.packet
    }

    /// Returns the header of the packet to send next.
    pub fn header(&self) -> (header: SlsDetectorHeader)
        ensures
            header == self@.header,
    {
        self.header
    }

    /// Takes the news that the current packet was sent, and moves on to the
    /// next. After the 64th packet of an image the next image begins. A
    /// sender whose burst is over stays as it is.
    pub fn packet_sent(&mut self)
        requires
            old(self).wf(),
        ensures
            final(self).wf(),
            final(self)@ == old(self)@.after_packet_sent(),
    {
        if self.images_sent == self.frames {
            return ;
        }
        proof {
            lemma_encoding_len(self.header);
            assert(self.packet@.subrange(HEADER_SIZE as int, PACKET_SIZE as int)
                =~= blank_payload());
        }
        if self.header.packet_number + 1 < PACKETS_PER_FRAME {
            self.header.packet_number = self.header.packet_number + 1;
        } else {
            self.header.packet_number = 0;
            self.header.frame_number = self.header.frame_number + 1;
            self.images_sent = self.images_sent + 1;
        }
        self.refresh_packet();
    }
}

/// Pacing: the first packet of image `k` of a burst is released only when at
/// least `k` exposure times have passed since the burst began.
pub proof fn lemma_image_not_early(sender: SenderView, elapsed: nat)
    requires
        sender.wf(),
        sender.header.packet_number == 0,
        sender.step_at(elapsed) == SenderStep::Transmit,
    ensures
        elapsed >= sender.images_sent * sender.exptime_nanos,
        sender.images_sent < sender.frames,
{
}

/// A sender that is told to wait is told to wait exactly until the current
/// image is due.
pub proof fn lemma_wait_until_due(sender: SenderView, elapsed: nat)
    requires
        sender.wf(),
        sender.step_at(elapsed) is Wait,
    ensures
        elapsed + sender.step_at(elapsed)->nanos == sender.due(),
        sender.step_at((elapsed + sender.step_at(elapsed)->nanos) as nat) == SenderStep::Transmit,
{
    assert(sender.images_sent * sender.exptime_nanos <= u64::MAX * u64::MAX) by (nonlinear_arith)
        requires
            sender.images_sent <= u64::MAX,
            sender.exptime_nanos <= u64::MAX,
    ;
}

/// Sending a packet leaves a sound sender sound.
pub proof fn lemma_after_packet_sent_wf(sender: SenderView)
    requires
        sender.wf(),
    ensures
        sender.after_packet_sent().wf(),
{
}

/// The sender after `count` packets were sent.
pub open spec fn after_packets_sent(sender: SenderView, count: nat) -> SenderView
    decreases count,
{
    if count == 0 {
        sender
    } else {
        after_packets_sent(sender, (count - 1) as nat).after_packet_sent()
    }
}

/// Within an image the packets go out in the order of their numbers: after
/// `count` packets of an image that has just begun, the next packet has the
/// number `count` and the frame number of the image.
pub proof fn lemma_packets_in_order(sender: SenderView, count: nat)
    requires
        sender.wf(),
        !sender.finished(),
        sender.header.packet_number == 0,
        count < PACKETS_PER_FRAME,
    ensures
        after_packets_sent(sender, count).wf(),
        after_packets_sent(sender, count).header == SenderView::header_of(
            sender.header.frame_number,
            count as u32,
        ),
        after_packets_sent(sender, count).images_sent == sender.images_sent,
        after_packets_sent(sender, count).frames == sender.frames,
        after_packets_sent(sender, count).exptime_nanos == sender.exptime_nanos,
    decreases count,
{
    if count > 0 {
        lemma_packets_in_order(sender, (count - 1) as nat);
    }
}

/// After the 64 packets of an image the sender stands at packet 0 of the
/// next frame number, with one more image sent.
pub proof fn lemma_image_sent(sender: SenderView)
    requires
        sender.wf(),
        !sender.finished(),
        sender.header.packet_number == 0,
    ensures
        after_packets_sent(sender, PACKETS_PER_FRAME as nat).wf(),
        after_packets_sent(sender, PACKETS_PER_FRAME as nat).header == SenderView::header_of(
            (sender.header.frame_number + 1) as u64,
            0,
        ),
        after_packets_sent(sender, PACKETS_PER_FRAME as nat).images_sent == sender.images_sent + 1,
        after_packets_sent(sender, PACKETS_PER_FRAME as nat).frames == sender.frames,
{
    lemma_packets_in_order(sender, (PACKETS_PER_FRAME - 1) as nat);
}

} // verus!
