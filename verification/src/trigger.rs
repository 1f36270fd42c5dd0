//! The broadcast trigger of the replay generator, and the debouncer that drops
//! triggers that come too soon after one that was accepted.
//!
//! A trigger is 32 bytes on the wire, little-endian: the number of frames in
//! 16 bytes, the exposure time as the four bytes of a single-precision float,
//! and a tag of 12 bytes.

use vstd::prelude::*;
use crate::wire::{append_le, le_bytes, le_value, lemma_le_bytes_len, lemma_le_value_of_bytes,
    lemma_radix_values, read_le};

verus! {

/// Bytes of a trigger on the wire.
pub const TRIGGER_SIZE: usize = 32;

/// Bytes of the tag of a trigger.
pub const UUID_SIZE: usize = 12;

/// Port on which triggers are broadcast, by default.
pub const DEFAULT_TRIGGER_PORT: u16 = 9999;

/// Milliseconds after an accepted trigger in which further triggers are
/// dropped.
pub const RETRIGGER_WINDOW_MS: u64 = 500;

/// A trigger as a mathematical value.
pub struct TriggerView {
    pub frames: nat,
    pub exptime_bits: nat,
    pub uuid: Seq<u8>,
}

/// A request to send a burst of frames.
#[derive(Clone, Copy, Debug, PartialEq, Eq)]
pub struct DelugeTrigger {
    /// Number of images to send.
    pub frames: u128,
    /// Interval between two images in seconds, as the bits of a
    /// single-precision float.
    pub exptime_bits: u32,
    /// Tag that tells one trigger from the next.
    pub uuid: [u8; 12],
}

impl View for DelugeTrigger {
    type V = TriggerView;

    open spec fn view(&self) -> TriggerView {
        TriggerView {
            frames: self.frames as nat,
            exptime_bits: self.exptime_bits as nat,
            uuid: self.uuid@,
        }
    }
}

impl TriggerView {
    /// The 32 bytes that stand for this trigger on the wire.
    pub open spec fn encoding(self) -> Seq<u8> {
        le_bytes(self.frames, 16) + le_bytes(self.exptime_bits, 4) + self.uuid
    }

    /// The trigger that 32 bytes stand for.
    pub open spec fn decoding(bytes: Seq<u8>) -> TriggerView {
        TriggerView {
            frames: le_value(bytes.subrange(0, 16)),
            exptime_bits: le_value(bytes.subrange(16, 20)),
            uuid: bytes.subrange(20, 32),
        }
    }

    /// The numbers fit their fields and the tag is 12 bytes long.
    pub open spec fn wf(self) -> bool {
        &&& self.frames <= u128::MAX
        &&& self.exptime_bits <= u32::MAX
        &&& self.uuid.len() == UUID_SIZE
    }
}

/// Draws a tag of twelve bytes with `rand::random`. The bytes come from the
/// thread's random number generator, so nothing is said of them.
#[verifier::external_body]
fn random_uuid() -> (uuid: [u8; 12]) {
    rand::random()
}

impl DelugeTrigger {
    /// Makes the trigger for no frames and no exposure time under the tag
    /// `uuid`.
    pub fn with_uuid(uuid: [u8; 12]) -> (trigger: DelugeTrigger)
        ensures
            trigger@ == (TriggerView { frames: 0, exptime_bits: 0, uuid: uuid@ }),
    {
        DelugeTrigger { frames: 0, exptime_bits: 0, uuid }
    }

    /// Returns the 32 bytes that stand for this trigger on the wire.
    pub fn encode(&self) -> (bytes: Vec<u8>)
        ensures
            bytes@ == self@.encoding(),
            bytes@.len() == TRIGGER_SIZE,
    {
        let mut bytes: Vec<u8> = Vec::new();
        append_le(&mut bytes, self.frames, 16);
        append_le(&mut bytes, self.exptime_bits as u128, 4);
        proof {
            lemma_le_bytes_len(self.frames as nat, 16);
            lemma_le_bytes_len(self.exptime_bits as nat, 4);
        }
        let mut at: usize = 0;
        while at < UUID_SIZE
            invariant
                at <= UUID_SIZE,
                bytes@ == le_bytes(self.frames as nat, 16) + le_bytes(self.exptime_bits as nat, 4)
                    + self.uuid@.subrange(0, at as int),
            decreases UUID_SIZE - at,
        {
            bytes.push(self.uuid[at]);
            at = at + 1;
        }
        assert(self.uuid@.subrange(0, UUID_SIZE as int) =~= self.uuid@);
        bytes
    }

    /// Reads a trigger from exactly 32 bytes: `None` for any other length.
    pub fn decode(bytes: &[u8]) -> (trigger: Option<DelugeTrigger>)
        ensures
            bytes@.len() == TRIGGER_SIZE ==> (trigger matches Some(read) && read@
                == TriggerView::decoding(bytes@)),
            bytes@.len() != TRIGGER_SIZE ==> trigger.is_none(),
    {
        if bytes.len() != TRIGGER_SIZE {
            return None;
        }
        proof {
            lemma_radix_values();
        }
        let frames: u128 = read_le(bytes, 0, 16);
        let exptime_bits: u32 = read_le(bytes, 16, 4) as u32;
        let uuid: [u8; 12] = [
            bytes[20],
            bytes[21],
            bytes[22],
            bytes[23],
            bytes[24],
            bytes[25],
            bytes[26],
            bytes[27],
            bytes[28],
            bytes[29],
            bytes[30],
            bytes[31],
        ];
        assert(uuid@ =~= bytes@.subrange(20, 32));
        Some(DelugeTrigger { frames, exptime_bits, uuid })
    }
}

impl Default for DelugeTrigger {
    /// The trigger for no frames and no exposure time, under a random tag.
    fn default() -> (trigger: DelugeTrigger)
        ensures
            trigger@.frames == 0,
            trigger@.exptime_bits == 0,
    {
        DelugeTrigger::with_uuid(random_uuid())
    }
}

/// Decoding an encoded trigger gives the trigger back, and the encoding is 32
/// bytes long.
pub proof fn lemma_trigger_round_trip(trigger: TriggerView)
    requires
        trigger.wf(),
    ensures
        trigger.encoding().len() == TRIGGER_SIZE,
        TriggerView::decoding(trigger.encoding()) == trigger,
{
    lemma_radix_values();
    lemma_le_bytes_len(trigger.frames, 16);
    lemma_le_bytes_len(trigger.exptime_bits, 4);
    lemma_le_value_of_bytes(trigger.frames, 16);
    lemma_le_value_of_bytes(trigger.exptime_bits, 4);
    let bytes = trigger.encoding();
    assert(bytes.subrange(0, 16) =~= le_bytes(trigger.frames, 16));
    assert(bytes.subrange(16, 20) =~= le_bytes(trigger.exptime_bits, 4));
    assert(bytes.subrange(20, 32) =~= trigger.uuid);
}

/// The time of the last accepted trigger, after a datagram of `length` bytes
/// was offered at time `now`.
pub open spec fn debounce_after(last: Option<u64>, length: nat, now: u64) -> Option<u64> {
    if debounce_accepts(last, length, now) {
        Some(now)
    } else {
        last
    }
}

/// A datagram of `length` bytes offered at time `now` is accepted: it has the
/// size of a trigger, and no trigger was accepted in the 500 ms before.
pub open spec fn debounce_accepts(last: Option<u64>, length: nat, now: u64) -> bool {
    &&& length == TRIGGER_SIZE
    &&& match last {
        Some(then) => now >= then + RETRIGGER_WINDOW_MS,
        None => true,
    }
}

/// The debouncer at the trigger socket: it lets a trigger pass only if none
/// passed in the 500 ms before.
pub struct Debouncer {
    last_accepted: Option<u64>,
}

impl View for Debouncer {
    type V = Option<u64>;

    /// The time at which the last trigger was accepted, in milliseconds.
    closed spec fn view(&self) -> Option<u64> {
        self.last_accepted
    }
}

impl Debouncer {
    /// Makes a debouncer that has accepted no trigger yet.
    pub fn new() -> (debouncer: Debouncer)
        ensures
            debouncer@ is None,
    {
        Debouncer { last_accepted: None }
    }

    /// Returns the time at which the last trigger was accepted.
    pub fn last_accepted(&self) -> (last: Option<u64>)
        ensures
            last == self@,
    {
        self.last_accepted
    }

    /// Offers a datagram that arrived at `now_ms`, a time in milliseconds on
    /// a clock that does not run backwards.
    ///
    /// A datagram that is not 32 bytes long is dropped, and so is one that
    /// comes less than 500 ms after the last trigger that was accepted. Any
    /// other is accepted and returned decoded, and `now_ms` is remembered as
    /// the time of the last accepted trigger.
    pub fn offer(&mut self, datagram: &[u8], now_ms: u64) -> (accepted: Option<DelugeTrigger>)
        ensures
            final(self)@ == debounce_after(old(self)@, datagram@.len(), now_ms),
            debounce_accepts(old(self)@, datagram@.len(), now_ms) ==> (accepted matches Some(trigger)
                && trigger@ == TriggerView::decoding(datagram@)),
            !debounce_accepts(old(self)@, datagram@.len(), now_ms) ==> accepted.is_none(),
    {
        let trigger = match DelugeTrigger::decode(datagram) {
            Some(trigger) => trigger,
            None => {
                return None;
            },
        };
        match self.last_accepted {
            Some(then) => {
                if now_ms < RETRIGGER_WINDOW_MS || now_ms - RETRIGGER_WINDOW_MS < then {
                    return None;
                }
            },
            None => {},
        }
        self.last_accepted = Some(now_ms);
        Some(trigger)
    }
}

/// Debounce: of two triggers less than 500 ms apart, at most one is
/// accepted, and exactly one, the first, where none had been accepted in
/// the 500 ms before the first.
pub proof fn lemma_trigger_debounce(last: Option<u64>, first_ms: u64, second_ms: u64)
    requires
        first_ms <= second_ms < first_ms + RETRIGGER_WINDOW_MS,
    ensures
        !(debounce_accepts(last, TRIGGER_SIZE as nat, first_ms) && debounce_accepts(
            debounce_after(last, TRIGGER_SIZE as nat, first_ms),
            TRIGGER_SIZE as nat,
            second_ms,
        )),
        (last matches Some(then) ==> first_ms >= then + RETRIGGER_WINDOW_MS) ==> debounce_accepts(
            last,
            TRIGGER_SIZE as nat,
            first_ms,
        ) && !debounce_accepts(
            debounce_after(last, TRIGGER_SIZE as nat, first_ms),
            TRIGGER_SIZE as nat,
            second_ms,
        ),
{
}

/// A datagram of the wrong size is dropped and changes nothing.
pub proof fn lemma_malformed_trigger_dropped(last: Option<u64>, length: nat, now: u64)
    requires
        length != TRIGGER_SIZE,
    ensures
        !debounce_accepts(last, length, now),
        debounce_after(last, length, now) == last,
{
}

} // verus!
