//! What the frame parser does with whole byte streams: the laws of framing,
//! stated over the parser's model and proved from its single step.

use vstd::prelude::*;
use crate::device::{resolved, VeDirectDevice};
use crate::parser::{checksum_label, fold, ParseState, ParserModel, CR, LF, MAX_LABEL, MAX_VALUE};
use crate::register::{decode_field, field_of, Register, TAB};

verus! {

/// The parser after it has taken `bytes`, first to last.
pub open spec fn run(m: ParserModel, bytes: Seq<u8>) -> ParserModel
    decreases bytes.len(),
{
    if bytes.len() == 0 {
        m
    } else {
        run(m, bytes.drop_last()).step(bytes.last())
    }
}

/// The frames that the parser hands out while it takes `bytes`, in the
/// order in which they are completed.
pub open spec fn frames(m: ParserModel, bytes: Seq<u8>) -> Seq<Seq<Register>>
    decreases bytes.len(),
{
    if bytes.len() == 0 {
        Seq::empty()
    } else {
        let before = frames(m, bytes.drop_last());
        match run(m, bytes.drop_last()).emits(bytes.last()) {
            Some(frame) => before.push(frame),
            None => before,
        }
    }
}

/// The sum of the bytes of `bytes`, as an integer.
pub open spec fn byte_sum(bytes: Seq<u8>) -> int
    decreases bytes.len(),
{
    if bytes.len() == 0 {
        0
    } else {
        byte_sum(bytes.drop_last()) + bytes.last()
    }
}

/// The running checksum after `bytes` have been folded into `checksum`.
pub open spec fn summed(checksum: u8, bytes: Seq<u8>) -> u8 {
    ((checksum + byte_sum(bytes)) % 256) as u8
}

/// One field of a frame as it was sent: the bytes of its label and of its
/// value.
pub struct Field {
    pub label: Seq<u8>,
    pub value: Seq<u8>,
}

impl Field {
    /// The field can be told apart on the wire: its label is at most 8
    /// bytes, holds no tab and is not the label that closes a frame; its
    /// value is at most 20 bytes and holds no carriage return.
    pub open spec fn well_formed(self) -> bool {
        &&& self.label.len() <= MAX_LABEL
        &&& !self.label.contains(TAB)
        &&& self.label != checksum_label()
        &&& self.value.len() <= MAX_VALUE
        &&& !self.value.contains(CR)
    }

    /// The bytes of the field on the wire, from its line feed to the
    /// carriage return that closes its value.
    pub open spec fn bytes(self) -> Seq<u8> {
        seq![LF] + self.label + seq![TAB] + self.value + seq![CR]
    }

    /// The register that the field decodes to, if it decodes.
    pub open spec fn decoded(self) -> Option<Register> {
        decode_field(field_of(self.label, self.value))
    }
}

/// Every field of `fields` is well formed.
pub open spec fn all_well_formed(fields: Seq<Field>) -> bool {
    forall|i: int| 0 <= i < fields.len() ==> (#[trigger] fields[i]).well_formed()
}

/// The bytes of a run of fields on the wire.
pub open spec fn fields_bytes(fields: Seq<Field>) -> Seq<u8>
    decreases fields.len(),
{
    if fields.len() == 0 {
        Seq::empty()
    } else {
        fields_bytes(fields.drop_last()) + fields.last().bytes()
    }
}

/// The registers of the fields that decode, in the order of the fields.
pub open spec fn decoded_registers(fields: Seq<Field>) -> Seq<Register>
    decreases fields.len(),
{
    if fields.len() == 0 {
        Seq::empty()
    } else {
        let before = decoded_registers(fields.drop_last());
        match fields.last().decoded() {
            Some(reg) => before.push(reg),
            None => before,
        }
    }
}

/// The device class after the product ids among `fields` have been fed to
/// `device`, in the order of the fields.
pub open spec fn identified_by(device: Option<VeDirectDevice>, fields: Seq<Field>) -> Option<
    VeDirectDevice,
>
    decreases fields.len(),
{
    if fields.len() == 0 {
        device
    } else {
        let before = identified_by(device, fields.drop_last());
        match fields.last().decoded() {
            Some(Register::Pid(pid)) => resolved(before, pid),
            _ => before,
        }
    }
}

/// The field that closes a frame, up to and including its tab.
pub open spec fn trailer() -> Seq<u8> {
    seq![LF] + checksum_label() + seq![TAB]
}

/// A whole frame on the wire: the carriage return that the device sends
/// ahead of the first line feed, the fields, the closing label, and the
/// checksum byte `c`.
pub open spec fn frame_bytes(fields: Seq<Field>, c: u8) -> Seq<u8> {
    seq![CR] + fields_bytes(fields) + trailer() + seq![c]
}

/// Taking `a` and then `b` is taking `a + b`.
pub proof fn lemma_run_concat(m: ParserModel, a: Seq<u8>, b: Seq<u8>)
    ensures
        run(m, a + b) == run(run(m, a), b),
        frames(m, a + b) == frames(m, a) + frames(run(m, a), b),
    decreases b.len(),
{
    if b.len() == 0 {
        assert(a + b =~= a);
        assert(frames(m, a) + frames(run(m, a), b) =~= frames(m, a));
    } else {
        lemma_run_concat(m, a, b.drop_last());
        assert((a + b).drop_last() =~= a + b.drop_last());
        assert((a + b).last() == b.last());
        let before = frames(m, a) + frames(run(m, a), b.drop_last());
        match run(run(m, a), b.drop_last()).emits(b.last()) {
            Some(frame) => {
                assert(before.push(frame) =~= frames(m, a) + frames(run(m, a), b));
            },
            None => {},
        }
    }
}

/// Taking a stream of one byte is taking one step.
pub proof fn lemma_run_one(m: ParserModel, b: u8)
    ensures
        run(m, seq![b]) == m.step(b),
        frames(m, seq![b]) == match m.emits(b) {
            Some(frame) => seq![frame],
            None => Seq::empty(),
        },
{
    let s = seq![b];
    assert(s.drop_last() =~= Seq::<u8>::empty());
    assert(s.last() == b);
    assert(run(m, s.drop_last()) == m);
    assert(frames(m, s.drop_last()) =~= Seq::<Seq<Register>>::empty());
    match m.emits(b) {
        Some(frame) => {
            assert(Seq::<Seq<Register>>::empty().push(frame) =~= seq![frame]);
        },
        None => {},
    }
}

/// The sum of a stream is the sum of its parts.
pub proof fn lemma_byte_sum_concat(a: Seq<u8>, b: Seq<u8>)
    ensures
        byte_sum(a + b) == byte_sum(a) + byte_sum(b),
    decreases b.len(),
{
    if b.len() == 0 {
        assert(a + b =~= a);
    } else {
        lemma_byte_sum_concat(a, b.drop_last());
        assert((a + b).drop_last() =~= a + b.drop_last());
        assert((a + b).last() == b.last());
    }
}

/// The sum of a stream of one byte is that byte.
pub proof fn lemma_byte_sum_one(b: u8)
    ensures
        byte_sum(seq![b]) == b,
{
    let s = seq![b];
    assert(s.drop_last() =~= Seq::<u8>::empty());
    assert(byte_sum(s.drop_last()) == 0);
}

/// Folding bytes one after the other is folding their sum.
pub proof fn lemma_summed_concat(checksum: u8, a: Seq<u8>, b: Seq<u8>)
    ensures
        summed(summed(checksum, a), b) == summed(checksum, a + b),
{
    lemma_byte_sum_concat(a, b);
}

/// Folding one byte is folding a stream of one byte.
pub proof fn lemma_summed_one(checksum: u8, b: u8)
    ensures
        summed(checksum, seq![b]) == fold(checksum, b),
{
    lemma_byte_sum_one(b);
}

/// Folding one more byte is folding the longer stream.
pub proof fn lemma_summed_push(checksum: u8, bytes: Seq<u8>, b: u8)
    ensures
        fold(summed(checksum, bytes), b) == summed(checksum, bytes.push(b)),
{
    assert(bytes.push(b).drop_last() =~= bytes);
    assert(bytes.push(b).last() == b);
}

/// Inside a label, bytes other than a tab are gathered as long as the label
/// stays within its limit.
pub proof fn lemma_label_gathered(m: ParserModel, label: Seq<u8>)
    requires
        m.state is RecordingLabel,
        !label.contains(TAB),
        m.label.len() + label.len() <= MAX_LABEL,
    ensures
        run(m, label) == (ParserModel {
            label: m.label + label,
            checksum: summed(m.checksum, label),
            ..m
        }),
        frames(m, label) == Seq::<Seq<Register>>::empty(),
    decreases label.len(),
{
    if label.len() == 0 {
        assert(m.label + label =~= m.label);
    } else {
        let head = label.drop_last();
        let b = label.last();
        assert(!head.contains(TAB)) by {
            if head.contains(TAB) {
                let i = choose|i: int| 0 <= i < head.len() && head[i] == TAB;
                assert(label[i] == TAB);
            }
        }
        assert(label.contains(b)) by {
            assert(label[label.len() - 1] == b);
        }
        lemma_label_gathered(m, head);
        let before = run(m, head);
        lemma_summed_push(m.checksum, head, b);
        assert(head.push(b) =~= label);
        assert(before.label.push(b) =~= m.label + label);
    }
}

/// Inside a value, bytes other than a carriage return are gathered as long
/// as the value stays within its limit.
pub proof fn lemma_value_gathered(m: ParserModel, value: Seq<u8>)
    requires
        m.state is RecordingValue,
        !value.contains(CR),
        m.value.len() + value.len() <= MAX_VALUE,
    ensures
        run(m, value) == (ParserModel {
            value: m.value + value,
            checksum: summed(m.checksum, value),
            ..m
        }),
        frames(m, value) == Seq::<Seq<Register>>::empty(),
    decreases value.len(),
{
    if value.len() == 0 {
        assert(m.value + value =~= m.value);
    } else {
        let head = value.drop_last();
        let b = value.last();
        assert(!head.contains(CR)) by {
            if head.contains(CR) {
                let i = choose|i: int| 0 <= i < head.len() && head[i] == CR;
                assert(value[i] == CR);
            }
        }
        assert(value.contains(b)) by {
            assert(value[value.len() - 1] == b);
        }
        lemma_value_gathered(m, head);
        let before = run(m, head);
        lemma_summed_push(m.checksum, head, b);
        assert(head.push(b) =~= value);
        assert(before.value.push(b) =~= m.value + value);
    }
}

/// The parser after it has closed a field that held `decoded`.
pub open spec fn after_field(m: ParserModel, decoded: Option<Register>, checksum: u8) -> ParserModel {
    ParserModel {
        device: match decoded {
            Some(Register::Pid(pid)) => resolved(m.device, pid),
            _ => m.device,
        },
        state: ParseState::Idle,
        regs: match decoded {
            Some(reg) => m.regs.push(reg),
            None => m.regs,
        },
        label: Seq::empty(),
        value: Seq::empty(),
        checksum,
    }
}

/// Between fields, a well-formed field is taken whole: its register joins
/// the frame if it decodes, and the parser stands between fields again.
pub proof fn lemma_field_taken(m: ParserModel, f: Field)
    requires
        m.state is Idle,
        m.label.len() == 0,
        m.value.len() == 0,
        f.well_formed(),
    ensures
        run(m, f.bytes()) == after_field(m, f.decoded(), summed(m.checksum, f.bytes())),
        frames(m, f.bytes()) == Seq::<Seq<Register>>::empty(),
{
    let none = Seq::<Seq<Register>>::empty();
    let s1 = seq![LF];
    let s2 = s1 + f.label;
    let s3 = s2 + seq![TAB];
    let s4 = s3 + f.value;
    assert(f.bytes() == s4 + seq![CR]);

    lemma_run_one(m, LF);
    lemma_summed_one(m.checksum, LF);
    let m1 = run(m, s1);
    assert(m1 == ParserModel { state: ParseState::RecordingLabel, checksum: summed(m.checksum, s1), ..m });

    lemma_label_gathered(m1, f.label);
    lemma_run_concat(m, s1, f.label);
    lemma_summed_concat(m.checksum, s1, f.label);
    let m2 = run(m, s2);
    assert(m1.label + f.label =~= f.label);
    assert(m2 == ParserModel { label: f.label, checksum: summed(m.checksum, s2), ..m1 });
    assert(frames(m, s2) =~= none);

    lemma_run_one(m2, TAB);
    lemma_summed_one(m2.checksum, TAB);
    lemma_run_concat(m, s2, seq![TAB]);
    lemma_summed_concat(m.checksum, s2, seq![TAB]);
    let m3 = run(m, s3);
    assert(m3 == ParserModel { state: ParseState::RecordingValue, checksum: summed(m.checksum, s3), ..m2 });
    assert(frames(m, s3) =~= none);

    lemma_value_gathered(m3, f.value);
    lemma_run_concat(m, s3, f.value);
    lemma_summed_concat(m.checksum, s3, f.value);
    let m4 = run(m, s4);
    assert(m3.value + f.value =~= f.value);
    assert(m4 == ParserModel { value: f.value, checksum: summed(m.checksum, s4), ..m3 });
    assert(frames(m, s4) =~= none);

    lemma_run_one(m4, CR);
    lemma_summed_one(m4.checksum, CR);
    lemma_run_concat(m, s4, seq![CR]);
    lemma_summed_concat(m.checksum, s4, seq![CR]);
    assert(frames(m, f.bytes()) =~= none);
}

/// Between fields, a run of well-formed fields is taken whole: the
/// registers of those that decode join the frame in the order of the
/// fields, and nothing is handed out yet.
pub proof fn lemma_fields_taken(m: ParserModel, fields: Seq<Field>)
    requires
        m.state is Idle,
        m.label.len() == 0,
        m.value.len() == 0,
        all_well_formed(fields),
    ensures
        run(m, fields_bytes(fields)) == (ParserModel {
            device: identified_by(m.device, fields),
            regs: m.regs + decoded_registers(fields),
            checksum: summed(m.checksum, fields_bytes(fields)),
            ..m
        }),
        frames(m, fields_bytes(fields)) == Seq::<Seq<Register>>::empty(),
    decreases fields.len(),
{
    let none = Seq::<Seq<Register>>::empty();
    if fields.len() == 0 {
        assert(m.regs + decoded_registers(fields) =~= m.regs);
        assert(byte_sum(fields_bytes(fields)) == 0);
    } else {
        let head = fields.drop_last();
        let f = fields.last();
        assert(all_well_formed(head)) by {
            assert forall|i: int| 0 <= i < head.len() implies (#[trigger] head[i]).well_formed() by {
                assert(head[i] == fields[i]);
            }
        }
        assert(f.well_formed());
        lemma_fields_taken(m, head);
        let before = run(m, fields_bytes(head));
        lemma_field_taken(before, f);
        lemma_run_concat(m, fields_bytes(head), f.bytes());
        lemma_summed_concat(m.checksum, fields_bytes(head), f.bytes());
        let after = run(m, fields_bytes(fields));
        assert(after.regs =~= m.regs + decoded_registers(fields));
        assert(after.label =~= m.label);
        assert(after.value =~= m.value);
        assert(frames(m, fields_bytes(fields)) =~= none);
    }
}

/// The label that closes a frame is gathered like any other label, and its
/// tab leaves the parser waiting for the checksum byte.
pub proof fn lemma_trailer_taken(m: ParserModel)
    requires
        m.state is Idle,
        m.label.len() == 0,
        m.value.len() == 0,
    ensures
        run(m, trailer()) == (ParserModel {
            state: ParseState::Checksum,
            label: checksum_label(),
            checksum: summed(m.checksum, trailer()),
            ..m
        }),
        frames(m, trailer()) == Seq::<Seq<Register>>::empty(),
{
    let none = Seq::<Seq<Register>>::empty();
    let s1 = seq![LF];
    let s2 = s1 + checksum_label();
    assert(trailer() == s2 + seq![TAB]);
    assert(!checksum_label().contains(TAB)) by {
        if checksum_label().contains(TAB) {
            let i = choose|i: int| 0 <= i < checksum_label().len() && checksum_label()[i] == TAB;
            assert(checksum_label()[i] != TAB);
        }
    }

    lemma_run_one(m, LF);
    lemma_summed_one(m.checksum, LF);
    let m1 = run(m, s1);

    lemma_label_gathered(m1, checksum_label());
    lemma_run_concat(m, s1, checksum_label());
    lemma_summed_concat(m.checksum, s1, checksum_label());
    let m2 = run(m, s2);
    assert(m1.label + checksum_label() =~= checksum_label());
    assert(frames(m, s2) =~= none);

    lemma_run_one(m2, TAB);
    lemma_summed_one(m2.checksum, TAB);
    lemma_run_concat(m, s2, seq![TAB]);
    lemma_summed_concat(m.checksum, s2, seq![TAB]);
    assert(frames(m, trailer()) =~= none);
    assert(run(m, trailer()).value =~= m.value);
}

/// A frame without its checksum byte.
pub open spec fn frame_body(fields: Seq<Field>) -> Seq<u8> {
    seq![CR] + fields_bytes(fields) + trailer()
}

/// A parser that starts between frames and takes a frame of well-formed
/// fields up to the checksum byte holds the decoded registers of the frame
/// and waits for that byte, having handed out nothing.
pub proof fn lemma_frame_body_taken(device: Option<VeDirectDevice>, fields: Seq<Field>)
    requires
        all_well_formed(fields),
    ensures
        run(ParserModel::fresh(device), frame_body(fields)) == (ParserModel {
            device: identified_by(device, fields),
            state: ParseState::Checksum,
            regs: decoded_registers(fields),
            label: checksum_label(),
            value: Seq::empty(),
            checksum: summed(0, frame_body(fields)),
        }),
        frames(ParserModel::fresh(device), frame_body(fields)) == Seq::<Seq<Register>>::empty(),
{
    let none = Seq::<Seq<Register>>::empty();
    let m = ParserModel::fresh(device);
    let s1 = seq![CR];
    let s2 = s1 + fields_bytes(fields);

    lemma_run_one(m, CR);
    lemma_summed_one(m.checksum, CR);
    let m1 = run(m, s1);
    assert(m1 == ParserModel { checksum: summed(0, s1), ..m });

    lemma_fields_taken(m1, fields);
    lemma_run_concat(m, s1, fields_bytes(fields));
    lemma_summed_concat(0, s1, fields_bytes(fields));
    let m2 = run(m, s2);
    assert(m1.regs + decoded_registers(fields) =~= decoded_registers(fields));
    assert(frames(m, s2) =~= none);

    lemma_trailer_taken(m2);
    lemma_run_concat(m, s2, trailer());
    lemma_summed_concat(0, s2, trailer());
    assert(frames(m, frame_body(fields)) =~= none);
    assert(run(m, frame_body(fields)).value =~= Seq::<u8>::empty());
}

/// A frame of well-formed fields whose checksum byte brings the 8-bit sum
/// of the whole frame to zero is handed out when that byte arrives and not
/// before, and holds exactly the registers of the fields that decode, in
/// the order of the fields. The parser then stands between frames again.
pub proof fn lemma_valid_frame_emitted(device: Option<VeDirectDevice>, fields: Seq<Field>, c: u8)
    requires
        all_well_formed(fields),
        byte_sum(frame_bytes(fields, c)) % 256 == 0,
    ensures
        frames(ParserModel::fresh(device), frame_bytes(fields, c).drop_last()) == Seq::<
            Seq<Register>,
        >::empty(),
        frames(ParserModel::fresh(device), frame_bytes(fields, c)) == seq![
            decoded_registers(fields),
        ],
        run(ParserModel::fresh(device), frame_bytes(fields, c)) == ParserModel::fresh(
            identified_by(device, fields),
        ),
{
    let m = ParserModel::fresh(device);
    let body = frame_body(fields);
    assert(frame_bytes(fields, c) == body + seq![c]);
    assert(frame_bytes(fields, c).drop_last() =~= body);
    lemma_frame_body_taken(device, fields);
    let waiting = run(m, body);
    lemma_run_one(waiting, c);
    lemma_run_concat(m, body, seq![c]);
    lemma_summed_one(waiting.checksum, c);
    lemma_summed_concat(0, body, seq![c]);
    assert(fold(waiting.checksum, c) == 0);
    assert(Seq::<Seq<Register>>::empty() + seq![decoded_registers(fields)] =~= seq![
        decoded_registers(fields),
    ]);
}

/// Valid frames that follow each other on the line are handed out one after
/// the other, and a device class that the first has told is known to the
/// second.
pub proof fn lemma_valid_frames_in_sequence(
    device: Option<VeDirectDevice>,
    first: Seq<Field>,
    c1: u8,
    second: Seq<Field>,
    c2: u8,
)
    requires
        all_well_formed(first),
        all_well_formed(second),
        byte_sum(frame_bytes(first, c1)) % 256 == 0,
        byte_sum(frame_bytes(second, c2)) % 256 == 0,
    ensures
        frames(ParserModel::fresh(device), frame_bytes(first, c1) + frame_bytes(second, c2))
            == seq![decoded_registers(first), decoded_registers(second)],
        run(ParserModel::fresh(device), frame_bytes(first, c1) + frame_bytes(second, c2))
            == ParserModel::fresh(identified_by(identified_by(device, first), second)),
{
    let m = ParserModel::fresh(device);
    lemma_valid_frame_emitted(device, first, c1);
    lemma_valid_frame_emitted(identified_by(device, first), second, c2);
    lemma_run_concat(m, frame_bytes(first, c1), frame_bytes(second, c2));
    assert(seq![decoded_registers(first)] + seq![decoded_registers(second)] =~= seq![
        decoded_registers(first),
        decoded_registers(second),
    ]);
}

/// A frame of well-formed fields whose checksum byte does not bring the
/// 8-bit sum of the whole frame to zero is never handed out, and after its
/// last byte the parser stands between frames with nothing kept.
pub proof fn lemma_corrupt_frame_dropped(device: Option<VeDirectDevice>, fields: Seq<Field>, c: u8)
    requires
        all_well_formed(fields),
        byte_sum(frame_bytes(fields, c)) % 256 != 0,
    ensures
        frames(ParserModel::fresh(device), frame_bytes(fields, c)) == Seq::<
            Seq<Register>,
        >::empty(),
        run(ParserModel::fresh(device), frame_bytes(fields, c)) == ParserModel::fresh(
            identified_by(device, fields),
        ),
{
    let m = ParserModel::fresh(device);
    let body = frame_body(fields);
    assert(frame_bytes(fields, c) == body + seq![c]);
    lemma_frame_body_taken(device, fields);
    let waiting = run(m, body);
    lemma_run_one(waiting, c);
    lemma_run_concat(m, body, seq![c]);
    lemma_summed_one(waiting.checksum, c);
    lemma_summed_concat(0, body, seq![c]);
    assert(fold(waiting.checksum, c) != 0);
    assert(Seq::<Seq<Register>>::empty() + Seq::<Seq<Register>>::empty() =~= Seq::<
        Seq<Register>,
    >::empty());
}

/// A label that runs to a ninth byte without a tab ends the frame that was
/// being read: nothing is handed out, and no register of it is kept.
pub proof fn lemma_oversized_label_aborts(m: ParserModel, label: Seq<u8>)
    requires
        m.inv(),
        m.state is Idle,
        label.len() == MAX_LABEL + 1,
        !label.contains(TAB),
    ensures
        run(m, seq![LF] + label) == m.reset(),
        frames(m, seq![LF] + label) == Seq::<Seq<Register>>::empty(),
{
    let none = Seq::<Seq<Register>>::empty();
    let s1 = seq![LF];
    let head = label.drop_last();
    let s2 = s1 + head;
    assert(seq![LF] + label =~= s2 + seq![label.last()]);
    assert(!head.contains(TAB)) by {
        if head.contains(TAB) {
            let i = choose|i: int| 0 <= i < head.len() && head[i] == TAB;
            assert(label[i] == TAB);
        }
    }
    assert(label.last() != TAB) by {
        assert(label[label.len() - 1] == label.last());
    }
    lemma_run_one(m, LF);
    let m1 = run(m, s1);
    lemma_label_gathered(m1, head);
    lemma_run_concat(m, s1, head);
    let m2 = run(m, s2);
    assert(m2.label.len() == MAX_LABEL);
    lemma_run_one(m2, label.last());
    lemma_run_concat(m, s2, seq![label.last()]);
    assert(frames(m, s2) =~= none);
    assert(frames(m, s2 + seq![label.last()]) =~= none);
}

/// A value that runs to a twenty-first byte without a carriage return ends
/// the frame that was being read: nothing is handed out, and no register of
/// it is kept.
pub proof fn lemma_oversized_value_aborts(m: ParserModel, label: Seq<u8>, value: Seq<u8>)
    requires
        m.inv(),
        m.state is Idle,
        label.len() <= MAX_LABEL,
        !label.contains(TAB),
        label != checksum_label(),
        value.len() == MAX_VALUE + 1,
        !value.contains(CR),
    ensures
        run(m, seq![LF] + label + seq![TAB] + value) == m.reset(),
        frames(m, seq![LF] + label + seq![TAB] + value) == Seq::<Seq<Register>>::empty(),
{
    let none = Seq::<Seq<Register>>::empty();
    let s1 = seq![LF];
    let s2 = s1 + label;
    let s3 = s2 + seq![TAB];
    let head = value.drop_last();
    let s4 = s3 + head;
    assert(seq![LF] + label + seq![TAB] + value =~= s4 + seq![value.last()]);
    assert(!head.contains(CR)) by {
        if head.contains(CR) {
            let i = choose|i: int| 0 <= i < head.len() && head[i] == CR;
            assert(value[i] == CR);
        }
    }
    assert(value.last() != CR) by {
        assert(value[value.len() - 1] == value.last());
    }
    lemma_run_one(m, LF);
    let m1 = run(m, s1);
    lemma_label_gathered(m1, label);
    lemma_run_concat(m, s1, label);
    let m2 = run(m, s2);
    assert(m1.label + label =~= label);
    assert(frames(m, s2) =~= none);
    lemma_run_one(m2, TAB);
    lemma_run_concat(m, s2, seq![TAB]);
    let m3 = run(m, s3);
    assert(m3.state is RecordingValue);
    assert(frames(m, s3) =~= none);
    lemma_value_gathered(m3, head);
    lemma_run_concat(m, s3, head);
    let m4 = run(m, s4);
    assert(m4.value.len() == MAX_VALUE);
    assert(frames(m, s4) =~= none);
    lemma_run_one(m4, value.last());
    lemma_run_concat(m, s4, seq![value.last()]);
    assert(frames(m, s4 + seq![value.last()]) =~= none);
}

} // verus!
