//! The bus framer: a sliding window over a reusable byte buffer, from which
//! newline-terminated packets are taken, and the two-phase transfer protocol
//! (acknowledgment `OK`, then an optional `rcv` response) driven over it.
//!
//! The framer performs no I/O. Its owner writes the line that `start` returns,
//! then calls `step` until it reports `Done`: on `Read` it reads what the
//! transport has into at most `free_space()` bytes and hands them to
//! `receive`; on `Acknowledged` it arms the longer response deadline.
use vstd::prelude::*;
use crate::error::{ReadError, ReadFault};
use crate::frames::{decode_fault, decode_text, decoded_frame, encode_line, rcv_word, CanFdFrame, FdCanUSBFrame, FrameModel};
use crate::text::{lossy_string, lossy_text, utf8_text};
use vstd::utf8::{decode_utf8, valid_utf8};

verus! {

/// Where a transfer stands.
#[derive(Debug, Clone, Copy)]
pub enum Phase {
    /// No transfer is in progress.
    Idle,
    /// The command was sent; the `OK` acknowledgment is awaited. `response`
    /// tells whether a `rcv` response is awaited after it.
    AwaitOk { response: bool },
    /// The `rcv` response is awaited.
    AwaitResponse,
}

/// The abstract state of a framer: the bytes received since the last reset,
/// the buffer's capacity, how many leading received bytes were consumed as
/// packets, and the phase of the transfer.
pub struct FramerModel {
    pub received: Seq<u8>,
    pub capacity: nat,
    pub used_bytes: nat,
    pub phase: Phase,
}

impl FramerModel {
    pub open spec fn wf(self) -> bool {
        self.used_bytes <= self.received.len() <= self.capacity
    }

    /// The received bytes not yet consumed.
    pub open spec fn pending(self) -> Seq<u8> {
        self.received.subrange(self.used_bytes as int, self.received.len() as int)
    }
}

/// The index of the first `\n` in `s`.
pub open spec fn first_newline(s: Seq<u8>) -> Option<nat>
    decreases s.len(),
{
    if s.len() == 0 {
        None
    } else if s[0] == 10 {
        Some(0)
    } else {
        match first_newline(s.drop_first()) {
            Some(k) => Some(k + 1),
            None => None,
        }
    }
}

proof fn lemma_first_newline(s: Seq<u8>, k: int)
    requires
        0 <= k <= s.len(),
        forall|j: int| 0 <= j < k ==> s[j] != 10,
    ensures
        k < s.len() && s[k] == 10 ==> first_newline(s) == Some(k as nat),
        k == s.len() ==> first_newline(s) is None,
    decreases k,
{
    if k > 0 {
        lemma_first_newline(s.drop_first(), k - 1);
    }
}

pub open spec fn starts_with(s: Seq<u8>, prefix: Seq<u8>) -> bool {
    prefix.len() <= s.len() && s.take(prefix.len() as int) == prefix
}

/// `OK` as bytes.
pub open spec fn ok_bytes() -> Seq<u8> {
    seq![0x4Fu8, 0x4Bu8]
}

/// `rcv` as bytes.
pub open spec fn rcv_bytes() -> Seq<u8> {
    seq![0x72u8, 0x63u8, 0x76u8]
}

/// `OK` as characters.
pub open spec fn ok_word() -> Seq<char> {
    seq!['O', 'K']
}

/// What a lost-sync error reports as received when the deadline expired.
pub open spec fn timeout_text() -> Seq<char> {
    seq!['t', 'i', 'm', 'e', 'o', 'u', 't']
}

/// The abstract result of one `step`.
pub enum StepModel {
    Read,
    Acknowledged,
    Done(Result<Option<FrameModel>, ReadFault>),
}

/// What the framer's owner does next.
#[derive(Debug)]
pub enum Step {
    /// No complete packet is buffered: read from the transport, then `receive`.
    Read,
    /// `OK` arrived and a response is awaited: arm the response deadline.
    Acknowledged,
    /// The transfer is over, with a response frame when one was awaited.
    Done(Result<Option<CanFdFrame>, ReadError>),
}

impl View for Step {
    type V = StepModel;

    open spec fn view(&self) -> StepModel {
        match self {
            Step::Read => StepModel::Read,
            Step::Acknowledged => StepModel::Acknowledged,
            Step::Done(Ok(None)) => StepModel::Done(Ok(None)),
            Step::Done(Ok(Some(f))) => StepModel::Done(Ok(Some(f@))),
            Step::Done(Err(e)) => StepModel::Done(Err(e@)),
        }
    }
}

/// The word awaited in a phase.
pub open spec fn expected_word(phase: Phase) -> Seq<char> {
    match phase {
        Phase::AwaitResponse => rcv_word(),
        _ => ok_word(),
    }
}

/// What a complete packet means in a phase: `OK` acknowledges, a `rcv` line
/// is decoded as the response, anything else is lost sync.
pub open spec fn packet_outcome(phase: Phase, packet: Seq<u8>) -> StepModel {
    match phase {
        Phase::AwaitResponse => if !starts_with(packet, rcv_bytes()) {
            StepModel::Done(
                Err(ReadFault::LostSync { expected: rcv_word(), received: lossy_text(packet) }),
            )
        } else if !valid_utf8(packet) {
            StepModel::Done(Err(ReadFault::Utf8))
        } else {
            match decode_fault(decode_utf8(packet)) {
                Some(f) => StepModel::Done(Err(ReadFault::Parse(f))),
                None => StepModel::Done(Ok(Some(decoded_frame(decode_utf8(packet))))),
            }
        },
        _ => if !starts_with(packet, ok_bytes()) {
            StepModel::Done(
                Err(ReadFault::LostSync { expected: ok_word(), received: lossy_text(packet) }),
            )
        } else if phase == (Phase::AwaitOk { response: true }) {
            StepModel::Acknowledged
        } else {
            StepModel::Done(Ok(None))
        },
    }
}

pub open spec fn phase_after(phase: Phase, o: StepModel) -> Phase {
    match o {
        StepModel::Read => phase,
        StepModel::Acknowledged => Phase::AwaitResponse,
        StepModel::Done(_) => Phase::Idle,
    }
}

/// One step of a transfer: take the first complete pending packet and act on
/// it; with none, fail when the deadline has passed, else ask for a read.
pub open spec fn step_result(s: FramerModel, deadline_passed: bool) -> (StepModel, FramerModel) {
    match first_newline(s.pending()) {
        Some(k) => {
            let o = packet_outcome(s.phase, s.pending().take(k + 1 as int));
            (
                o,
                FramerModel {
                    received: s.received,
                    capacity: s.capacity,
                    used_bytes: s.used_bytes + k + 1,
                    phase: phase_after(s.phase, o),
                },
            )
        },
        None => if deadline_passed {
            (
                StepModel::Done(
                    Err(
                        ReadFault::LostSync {
                            expected: expected_word(s.phase),
                            received: timeout_text(),
                        },
                    ),
                ),
                FramerModel {
                    received: s.received,
                    capacity: s.capacity,
                    used_bytes: s.used_bytes,
                    phase: Phase::Idle,
                },
            )
        } else {
            (StepModel::Read, s)
        },
    }
}

proof fn lemma_first_newline_found(s: Seq<u8>)
    requires
        first_newline(s) is Some,
    ensures
        first_newline(s)->Some_0 < s.len(),
        s[first_newline(s)->Some_0 as int] == 10,
    decreases s.len(),
{
    if s[0] != 10 {
        lemma_first_newline_found(s.drop_first());
    }
}

/// When the first complete packet after a command does not begin with `OK`,
/// the step that takes it ends the transfer with a lost-sync error that
/// expects `OK` and reports that packet. No frame is returned, the phase goes
/// back to idle, and only that packet is consumed: the bytes after it (a `rcv`
/// line among them) are neither consumed nor taken as a response.
pub proof fn lemma_bad_ack_loses_sync(s: FramerModel, response: bool, deadline_passed: bool)
    requires
        s.wf(),
        s.phase == (Phase::AwaitOk { response }),
        first_newline(s.pending()) is Some,
        !starts_with(s.pending().take(first_newline(s.pending())->Some_0 + 1 as int), ok_bytes()),
    ensures
        ({
            let packet = s.pending().take(first_newline(s.pending())->Some_0 + 1 as int);
            let (o, next) = step_result(s, deadline_passed);
            &&& o == StepModel::Done(
                Err(ReadFault::LostSync { expected: ok_word(), received: lossy_text(packet) }),
            )
            &&& next.phase == Phase::Idle
            &&& next.received == s.received
            &&& next.used_bytes == s.used_bytes + packet.len()
        }),
{
    lemma_first_newline_found(s.pending());
}

/// The packet terminator, `\n`.
pub const NEWLINE: u8 = 0x0A;

/// Default capacity of a framer's buffer.
pub const DEFAULT_BUFFER_LEN: usize = 256;

/// The buffer and cursors of the bus framer, and the phase of the transfer in
/// progress.
#[derive(Debug)]
pub struct Framer {
    /// The buffer used to store data read from the adapter.
    buffer: Vec<u8>,
    /// The total number of valid bytes in the buffer.
    read_len: usize,
    /// The number of leading bytes in the buffer that have already been used.
    used_bytes: usize,
    phase: Phase,
}

impl View for Framer {
    type V = FramerModel;

    closed spec fn view(&self) -> FramerModel {
        FramerModel {
            received: self.buffer@.take(self.read_len as int),
            capacity: self.buffer@.len(),
            used_bytes: self.used_bytes as nat,
            phase: self.phase,
        }
    }
}

impl Framer {
    /// The cursors lie within the buffer, the used prefix within the valid one.
    pub closed spec fn wf(&self) -> bool {
        self.used_bytes <= self.read_len <= self.buffer@.len()
    }

    /// A framer over a buffer of the default capacity.
    pub fn new() -> (r: Framer)
        ensures
            r.wf(),
            r@ == (FramerModel {
                received: Seq::empty(),
                capacity: DEFAULT_BUFFER_LEN as nat,
                used_bytes: 0,
                phase: Phase::Idle,
            }),
    {
        Framer::with_buffer(vec![0u8; DEFAULT_BUFFER_LEN])
    }

    /// A framer over the given buffer; its length is the capacity.
    pub fn with_buffer(buffer: Vec<u8>) -> (r: Framer)
        ensures
            r.wf(),
            r@ == (FramerModel {
                received: Seq::empty(),
                capacity: buffer@.len(),
                used_bytes: 0,
                phase: Phase::Idle,
            }),
    {
        let r = Framer { buffer, read_len: 0, used_bytes: 0, phase: Phase::Idle };
        assert(r@.received =~= Seq::<u8>::empty());
        r
    }

    /// How many more bytes the buffer can take.
    pub fn free_space(&self) -> (r: usize)
        requires
            self.wf(),
        ensures
            self@.wf(),
            r == self@.capacity - self@.received.len(),
    {
        self.buffer.len() - self.read_len
    }

    /// Whether a transfer is in progress.
    pub fn in_transfer(&self) -> (r: bool)
        ensures
            r == !(self@.phase is Idle),
    {
        !matches!(self.phase, Phase::Idle)
    }

    /// Begins a transfer: encodes the frame into the command line to be
    /// written, discards everything buffered, and awaits the acknowledgment,
    /// then a response if `response` is set.
    pub fn start(&mut self, frame: CanFdFrame, response: bool) -> (r: FdCanUSBFrame)
        requires
            old(self).wf(),
            frame.data@.len() <= 64,
        ensures
            final(self).wf(),
            r@ == encode_line(frame@),
            final(self)@ == (FramerModel {
                received: Seq::empty(),
                capacity: old(self)@.capacity,
                used_bytes: 0,
                phase: Phase::AwaitOk { response },
            }),
    {
        let line = FdCanUSBFrame::encode(frame);
        self.read_len = 0;
        self.used_bytes = 0;
        self.phase = Phase::AwaitOk { response };
        assert(self@.received =~= Seq::<u8>::empty());
        line
    }

    /// Awaits a `rcv` response over what is buffered, without a new command.
    pub fn await_response(&mut self)
        requires
            old(self).wf(),
        ensures
            final(self).wf(),
            final(self)@ == (FramerModel { phase: Phase::AwaitResponse, ..old(self)@ }),
    {
        self.phase = Phase::AwaitResponse;
    }

    /// Appends bytes read from the transport.
    pub fn receive(&mut self, bytes: &[u8])
        requires
            old(self).wf(),
            bytes@.len() <= old(self)@.capacity - old(self)@.received.len(),
        ensures
            final(self).wf(),
            final(self)@ == (FramerModel { received: old(self)@.received + bytes@, ..old(self)@ }),
    {
        let ghost old_buffer = self.buffer@;
        let ghost old_view = self@;
        let start = self.read_len;
        let capacity = self.buffer.len();
        let mut k: usize = 0;
        while k < bytes.len()
            invariant
                start == self.read_len,
                self.used_bytes <= start,
                start + bytes@.len() <= self.buffer@.len(),
                self.buffer@.len() == old_buffer.len(),
                old_buffer.len() == capacity,
                self.used_bytes == old_view.used_bytes,
                self.phase == old_view.phase,
                k <= bytes@.len(),
                self.buffer@.take(start as int) == old_buffer.take(start as int),
                self.buffer@.subrange(start as int, start + k) == bytes@.take(k as int),
            decreases bytes.len() - k,
        {
            self.buffer.set(start + k, bytes[k]);
            assert(self.buffer@.take(start as int) =~= old_buffer.take(start as int));
            assert(self.buffer@.subrange(start as int, start + k + 1) =~= bytes@.take(k as int + 1));
            k += 1;
        }
        self.read_len = start + bytes.len();
        assert(bytes@.take(bytes@.len() as int) =~= bytes@);
        assert(self.buffer@.take(self.read_len as int) =~= self.buffer@.take(start as int)
            + self.buffer@.subrange(start as int, self.read_len as int));
        assert(self.buffer@.take(self.read_len as int) =~= old_buffer.take(start as int) + bytes@);
        assert(self@.received =~= old_view.received + bytes@);
    }

    /// One step of the transfer in progress (see `step_result`).
    pub fn step(&mut self, deadline_passed: bool) -> (r: Step)
        requires
            old(self).wf(),
            !(old(self)@.phase is Idle),
        ensures
            final(self).wf(),
            (r@, final(self)@) == step_result(old(self)@, deadline_passed),
            ({
                let pending = old(self)@.pending();
                match first_newline(pending) {
                    Some(k) => valid_utf8(pending.take(k + 1 as int)) ==> match r@ {
                        StepModel::Done(Err(ReadFault::LostSync { received, .. })) => received
                            == decode_utf8(pending.take(k + 1 as int)),
                        _ => true,
                    },
                    None => true,
                }
            }),
    {
        let ghost s = self@;
        let ghost pending = s.pending();
        assert(pending =~= self.buffer@.subrange(self.used_bytes as int, self.read_len as int));
        let mut i = self.used_bytes;
        while i < self.read_len
            invariant
                self.used_bytes <= i <= self.read_len <= self.buffer@.len(),
                self@ == s,
                pending == self.buffer@.subrange(self.used_bytes as int, self.read_len as int),
                forall|j: int| 0 <= j < i - self.used_bytes ==> pending[j] != 10,
            ensures
                self.used_bytes <= i <= self.read_len,
                self@ == s,
                forall|j: int| 0 <= j < i - self.used_bytes ==> pending[j] != 10,
                i < self.read_len ==> pending[i - self.used_bytes] == 10,
            decreases self.read_len - i,
        {
            if self.buffer[i] == NEWLINE {
                break;
            }
            i += 1;
        }
        if i == self.read_len {
            proof {
                lemma_first_newline(pending, pending.len() as int);
            }
            if deadline_passed {
                let expected = match self.phase {
                    Phase::AwaitResponse => "rcv",
                    _ => "OK",
                };
                self.phase = Phase::Idle;
                proof {
                    reveal_strlit("rcv");
                    reveal_strlit("OK");
                    reveal_strlit("timeout");
                    assert("rcv"@ =~= rcv_word());
                    assert("OK"@ =~= ok_word());
                    assert("timeout"@ =~= timeout_text());
                }
                return Step::Done(
                    Err(
                        ReadError::LostSync {
                            expected: expected.to_owned(),
                            received: "timeout".to_owned(),
                        },
                    ),
                );
            }
            return Step::Read;
        }
        let ghost k = i - self.used_bytes;
        proof {
            lemma_first_newline(pending, k);
        }
        let packet = vstd::slice::slice_subrange(self.buffer.as_slice(), self.used_bytes, i + 1);
        assert(packet@ =~= pending.take(k + 1));
        self.used_bytes = i + 1;
        let r = match self.phase {
            Phase::AwaitResponse => {
                if packet.len() >= 3 && packet[0] == 0x72 && packet[1] == 0x63 && packet[2] == 0x76 {
                    assert(packet@.take(3) =~= rcv_bytes());
                    match utf8_text(packet) {
                        Ok(text) => match decode_text(text) {
                            Ok(frame) => Step::Done(Ok(Some(frame))),
                            Err(e) => Step::Done(Err(ReadError::Parse(e))),
                        },
                        Err(e) => Step::Done(Err(ReadError::Utf8(e))),
                    }
                } else {
                    proof {
                        reveal_strlit("rcv");
                        assert("rcv"@ =~= rcv_word());
                    }
                    Step::Done(
                        Err(
                            ReadError::LostSync {
                                expected: "rcv".to_owned(),
                                received: lossy_string(packet),
                            },
                        ),
                    )
                }
            },
            Phase::AwaitOk { response } => {
                if packet.len() >= 2 && packet[0] == 0x4F && packet[1] == 0x4B {
                    assert(packet@.take(2) =~= ok_bytes());
                    if response {
                        Step::Acknowledged
                    } else {
                        Step::Done(Ok(None))
                    }
                } else {
                    proof {
                        reveal_strlit("OK");
                        assert("OK"@ =~= ok_word());
                    }
                    Step::Done(
                        Err(
                            ReadError::LostSync {
                                expected: "OK".to_owned(),
                                received: lossy_string(packet),
                            },
                        ),
                    )
                }
            },
            Phase::Idle => Step::Done(Ok(None)),
        };
        self.phase = match r {
            Step::Acknowledged => Phase::AwaitResponse,
            _ => Phase::Idle,
        };
        r
    }
}

} // verus!
