//! The frame parser: a state machine that takes the bytes of a serial line
//! one at a time and hands out the registers of each frame whose checksum
//! holds.
//!
//! A frame is a run of fields, each written as a line feed, a label, a tab,
//! a value and a carriage return, closed by the field `Checksum` whose value
//! is one byte that makes the 8-bit sum of the whole frame zero.

use vstd::prelude::*;
use crate::device::{resolve, resolved, VeDirectDevice};
use crate::register::{decode_field, field_of, Register, TAB};

verus! {

/// The byte that opens a field.
pub const LF: u8 = 0x0A;

/// The byte that closes a value.
pub const CR: u8 = 0x0D;

/// The longest label that is taken, in bytes.
pub const MAX_LABEL: usize = 8;

/// The longest value that is taken, in bytes.
pub const MAX_VALUE: usize = 20;

/// Where in a frame the parser stands.
#[derive(Debug, Copy, Clone, PartialEq, Eq, Structural)]
pub enum ParseState {
    /// Between fields.
    Idle,
    /// Inside a label.
    RecordingLabel,
    /// Inside a value.
    RecordingValue,
    /// The label `Checksum` and its tab have been read; the next byte is the
    /// checksum byte.
    Checksum,
}

/// The label of the field that closes a frame.
pub open spec fn checksum_label() -> Seq<u8> {
    seq![
        'C' as u8,
        'h' as u8,
        'e' as u8,
        'c' as u8,
        'k' as u8,
        's' as u8,
        'u' as u8,
        'm' as u8,
    ]
}

/// The running checksum after one more byte: the sum modulo 256.
pub open spec fn fold(checksum: u8, b: u8) -> u8 {
    ((checksum + b) % 256) as u8
}

/// What a parser holds, as mathematical values.
pub struct ParserModel {
    /// The class of the device on this line, once a product id has told it.
    pub device: Option<VeDirectDevice>,
    pub state: ParseState,
    /// The registers decoded so far in the frame that is being read.
    pub regs: Seq<Register>,
    /// The bytes of the label that is being read, or that was read last.
    pub label: Seq<u8>,
    /// The bytes of the value that is being read.
    pub value: Seq<u8>,
    /// The 8-bit sum of the bytes of the frame so far.
    pub checksum: u8,
}

/// Every product id among `regs` has been fed to `device`: feeding it again
/// changes nothing.
pub open spec fn identified(device: Option<VeDirectDevice>, regs: Seq<Register>) -> bool {
    forall|i: int|
        0 <= i < regs.len() ==> (#[trigger] regs[i] matches Register::Pid(pid) ==> resolved(
            device,
            pid,
        ) == device)
}

impl ParserModel {
    /// A parser between frames: nothing read, nothing summed.
    pub open spec fn fresh(device: Option<VeDirectDevice>) -> ParserModel {
        ParserModel {
            device,
            state: ParseState::Idle,
            regs: Seq::empty(),
            label: Seq::empty(),
            value: Seq::empty(),
            checksum: 0,
        }
    }

    /// The parser after it has given up on the frame it was reading. Only
    /// the device class outlives a frame.
    pub open spec fn reset(self) -> ParserModel {
        ParserModel::fresh(self.device)
    }

    /// What holds of every parser, whatever bytes it has been given.
    pub open spec fn inv(self) -> bool {
        &&& self.label.len() <= MAX_LABEL
        &&& self.value.len() <= MAX_VALUE
        &&& self.state is Idle ==> self.label.len() == 0 && self.value.len() == 0
        &&& self.state is RecordingLabel ==> self.value.len() == 0
        &&& self.state is Checksum ==> self.value.len() == 0
        &&& identified(self.device, self.regs)
    }

    /// The parser after a field has been closed: the register that the
    /// field decodes to, if any, joins the frame, and a product id is fed
    /// to the device class.
    pub open spec fn close_field(self, checksum: u8) -> ParserModel {
        let decoded = decode_field(field_of(self.label, self.value));
        ParserModel {
            device: match decoded {
                Some(Register::Pid(pid)) => resolved(self.device, pid),
                _ => self.device,
            },
            state: ParseState::Idle,
            regs: match decoded {
                Some(reg) => self.regs.push(reg),
                None => self.regs,
            },
            label: Seq::empty(),
            value: Seq::empty(),
            checksum,
        }
    }

    /// The parser after one more byte.
    pub open spec fn step(self, b: u8) -> ParserModel {
        let sum = fold(self.checksum, b);
        match self.state {
            ParseState::Idle => {
                if b == LF {
                    ParserModel { state: ParseState::RecordingLabel, checksum: sum, ..self }
                } else if b == CR {
                    ParserModel { checksum: sum, ..self }
                } else {
                    self.reset()
                }
            },
            ParseState::RecordingLabel => {
                if b == TAB {
                    ParserModel {
                        state: if self.label == checksum_label() {
                            ParseState::Checksum
                        } else {
                            ParseState::RecordingValue
                        },
                        checksum: sum,
                        ..self
                    }
                } else if self.label.len() >= MAX_LABEL {
                    self.reset()
                } else {
                    ParserModel { label: self.label.push(b), checksum: sum, ..self }
                }
            },
            ParseState::RecordingValue => {
                if b == CR {
                    self.close_field(sum)
                } else if self.value.len() >= MAX_VALUE {
                    self.reset()
                } else {
                    ParserModel { value: self.value.push(b), checksum: sum, ..self }
                }
            },
            ParseState::Checksum => self.reset(),
        }
    }

    /// The frame that one more byte completes, if it completes one: the
    /// byte is the checksum byte and brings the running sum to zero.
    pub open spec fn emits(self, b: u8) -> Option<Seq<Register>> {
        if self.state is Checksum && fold(self.checksum, b) == 0 {
            Some(self.regs)
        } else {
            None
        }
    }
}

/// No byte leads a parser out of what holds of every parser.
pub proof fn lemma_step_keeps_inv(m: ParserModel, b: u8)
    requires
        m.inv(),
    ensures
        m.step(b).inv(),
{
    let n = m.step(b);
    if m.state is RecordingValue && b == CR {
        assert(identified(n.device, n.regs)) by {
            assert forall|i: int| 0 <= i < n.regs.len() implies (
            #[trigger] n.regs[i] matches Register::Pid(pid) ==> resolved(n.device, pid)
                == n.device) by {
                if i < m.regs.len() {
                    assert(n.regs[i] == m.regs[i]);
                }
            }
        }
    }
}

/// Whatever the checksum byte is, the parser stands between frames after it
/// with nothing kept; the frame is handed out exactly when the byte brings
/// the running sum to zero.
pub proof fn lemma_checksum_byte_ends_frame(m: ParserModel, b: u8)
    requires
        m.state is Checksum,
    ensures
        m.step(b) == m.reset(),
        m.emits(b) == if fold(m.checksum, b) == 0 {
            Some(m.regs)
        } else {
            None
        },
{
}

/// The product ids of a frame that is handed out have all been fed to the
/// device class by then: whoever takes the frame need not feed them again.
pub proof fn lemma_emitted_frame_identified(m: ParserModel, b: u8)
    requires
        m.inv(),
        m.emits(b) is Some,
    ensures
        identified(m.step(b).device, m.emits(b)->0),
{
}

/// A byte stream parser for one VE.Direct line.
pub struct VeDirectParser {
    device: Option<VeDirectDevice>,
    state: ParseState,
    regs: Vec<Register>,
    flabel: Vec<u8>,
    fvalue: Vec<u8>,
    checksum: u8,
}

impl View for VeDirectParser {
    type V = ParserModel;

    closed spec fn view(&self) -> ParserModel {
        ParserModel {
            device: self.device,
            state: self.state,
            regs: self.regs@,
            label: self.flabel@,
            value: self.fvalue@,
            checksum: self.checksum,
        }
    }
}

impl VeDirectParser {
    /// A parser at the start of a line, with no device class known.
    pub fn new() -> (parser: VeDirectParser)
        ensures
            parser@ == ParserModel::fresh(None),
            parser@.inv(),
    {
        VeDirectParser {
            device: None,
            state: ParseState::Idle,
            regs: Vec::new(),
            flabel: Vec::new(),
            fvalue: Vec::new(),
            checksum: 0,
        }
    }

    /// The class of the device on this line; `None` until a product id that
    /// names a known class has been read.
    pub fn device(&self) -> (device: Option<VeDirectDevice>)
        ensures
            device == self@.device,
    {
        self.device
    }

    /// Where in a frame the parser stands.
    pub fn state(&self) -> (state: ParseState)
        ensures
            state == self@.state,
    {
        self.state
    }

    /// Takes one byte. Returns the registers of a frame when `b` is the
    /// checksum byte of that frame and the checksum holds; a frame in which
    /// no field could be decoded gives an empty list. Returns `None` for
    /// every other byte.
    pub fn push_one(&mut self, b: u8) -> (frame: Option<Vec<Register>>)
        ensures
            final(self)@ == old(self)@.step(b),
            old(self)@.inv() ==> final(self)@.inv(),
            match frame {
                Some(regs) => old(self)@.emits(b) == Some(regs@),
                None => old(self)@.emits(b) is None,
            },
    {
        proof {
            if self@.inv() {
                lemma_step_keeps_inv(self@, b);
            }
        }
        let mut result: Option<Vec<Register>> = None;
        self.push_into_checksum(b);
        match self.state {
            ParseState::Idle => {
                if b == LF {
                    self.state = ParseState::RecordingLabel;
                } else if b == CR {
                } else {
                    self.reset();
                }
            },
            ParseState::RecordingLabel => {
                if b == TAB {
                    if self.label_is_checksum() {
                        self.state = ParseState::Checksum;
                    } else {
                        self.state = ParseState::RecordingValue;
                    }
                } else if self.flabel.len() >= MAX_LABEL {
                    self.reset();
                } else {
                    self.flabel.push(b);
                }
            },
            ParseState::RecordingValue => {
                if b == CR {
                    let field = self.field();
                    if let Ok(reg) = Register::from_bytes(field.as_slice()) {
                        if let Register::Pid(pid) = reg {
                            self.set_device(pid);
                        }
                        self.regs.push(reg);
                    }
                    self.flabel.clear();
                    self.fvalue.clear();
                    self.state = ParseState::Idle;
                } else if self.fvalue.len() >= MAX_VALUE {
                    self.reset();
                } else {
                    self.fvalue.push(b);
                }
            },
            ParseState::Checksum => {
                if self.checksum == 0 {
                    let mut regs: Vec<Register> = Vec::new();
                    core::mem::swap(&mut regs, &mut self.regs);
                    result = Some(regs);
                }
                self.reset();
            },
        }
        assert(self@ =~= old(self)@.step(b));
        result
    }

    /// Folds one byte into the running checksum.
    fn push_into_checksum(&mut self, byte: u8)
        ensures
            final(self)@ == (ParserModel { checksum: fold(old(self)@.checksum, byte), ..old(self)@ }),
    {
        self.checksum = self.checksum.wrapping_add(byte);
    }

    /// Feeds a product id to the device class of this line.
    fn set_device(&mut self, pid: u16)
        ensures
            final(self)@ == (ParserModel { device: resolved(old(self)@.device, pid), ..old(self)@ }),
    {
        self.device = resolve(self.device, pid);
    }

    /// Gives up on the frame that is being read.
    fn reset(&mut self)
        ensures
            final(self)@ == old(self)@.reset(),
    {
        self.regs.clear();
        self.flabel.clear();
        self.fvalue.clear();
        self.checksum = 0;
        self.state = ParseState::Idle;
    }

    /// Whether the label that was read is the one that closes a frame.
    fn label_is_checksum(&self) -> (r: bool)
        ensures
            r == (self@.label == checksum_label()),
    {
        let expected: [u8; 8] = [
            'C' as u8,
            'h' as u8,
            'e' as u8,
            'c' as u8,
            'k' as u8,
            's' as u8,
            'u' as u8,
            'm' as u8,
        ];
        assert(expected@ =~= checksum_label());
        if self.flabel.len() != 8 {
            return false;
        }
        let mut i: usize = 0;
        while i < 8
            invariant
                0 <= i <= 8,
                self.flabel.len() == 8,
                expected@ == checksum_label(),
                forall|j: int| 0 <= j < i ==> self.flabel@[j] == expected@[j],
            decreases 8 - i,
        {
            if self.flabel[i] != expected[i] {
                return false;
            }
            i += 1;
        }
        assert(self.flabel@ =~= expected@);
        true
    }

    /// The label and the value that were read, joined by a tab.
    fn field(&self) -> (field: Vec<u8>)
        ensures
            field@ == field_of(self@.label, self@.value),
    {
        let mut field: Vec<u8> = Vec::new();
        let mut i: usize = 0;
        while i < self.flabel.len()
            invariant
                0 <= i <= self.flabel.len(),
                field@ == self.flabel@.take(i as int),
            decreases self.flabel.len() - i,
        {
            field.push(self.flabel[i]);
            assert(self.flabel@.take(i + 1) =~= self.flabel@.take(i as int).push(
                self.flabel@[i as int],
            ));
            i += 1;
        }
        assert(self.flabel@.take(i as int) =~= self.flabel@);
        field.push(TAB);
        let mut j: usize = 0;
        while j < self.fvalue.len()
            invariant
                0 <= j <= self.fvalue.len(),
                field@ == self.flabel@ + seq![TAB] + self.fvalue@.take(j as int),
            decreases self.fvalue.len() - j,
        {
            field.push(self.fvalue[j]);
            assert(self.fvalue@.take(j + 1) =~= self.fvalue@.take(j as int).push(
                self.fvalue@[j as int],
            ));
            assert(field@ =~= self.flabel@ + seq![TAB] + self.fvalue@.take(j + 1));
            j += 1;
        }
        assert(self.fvalue@.take(j as int) =~= self.fvalue@);
        field
    }
}

} // verus!
