//! The register decoder: one `label<TAB>value` field of a frame becomes one
//! typed register, or is refused.
//!
//! Numeric registers keep the integer that the device sent, in the unit the
//! protocol uses on the wire (millivolts, milliamperes, tenths of a percent
//! and so on). [`Register::scale`] is the divisor that turns that integer
//! into volts, amperes or percent.

use vstd::prelude::*;
use vstd::string::StringSliceAdditionalSpecFns;
use crate::number::{decimal_i32, hex_u16, parse_hex_u16, parse_i32};

verus! {

/// The byte that parts a label from its value.
pub const TAB: u8 = 0x09;

/// One decoded field of a frame.
#[derive(Debug, Copy, Clone, PartialEq, Eq, Structural)]
pub enum Register {
    /// `V`: main (battery) voltage, in millivolts.
    MainVoltage(i32),
    /// `VS`: auxiliary (starter) voltage, in millivolts.
    AuxVoltage(i32),
    /// `VPV`: panel voltage, in millivolts.
    PanelVoltage(i32),
    /// `PPV`: panel power, in watts.
    PanelPower(i32),
    /// `I`: main (battery) current, in milliamperes.
    MainCurrent(i32),
    /// `IL`: load current, in milliamperes.
    LoadCurrent(i32),
    /// `P`: instantaneous power, in thousandths of a watt.
    InstantaneousPower(i32),
    /// `CE`: consumed charge, in milliampere hours.
    ConsumedAmpHours(i32),
    /// `SOC`: state of charge, in tenths of a percent.
    StateOfCharge(i32),
    /// `AC_OUT_V`: inverter output voltage, in hundredths of a volt.
    ACOutputVoltage(i32),
    /// `AC_OUT_S`: inverter apparent output power, in volt-amperes.
    ACOutputApparentPower(i32),
    /// `MPPT`: the tracker reported its operation mode; the mode itself is
    /// not kept.
    TrackerOperationMode(),
    /// `MON`: the monitor reported its mode; the mode itself is not kept.
    DcMonitorMode(),
    /// `PID`: the product id of the device.
    Pid(u16),
}

/// The field could not be decoded: it is not a label, one tab and a value,
/// the label is not a known one, or the value is not a number of the kind
/// that the label calls for.
#[derive(Debug, Copy, Clone, PartialEq, Eq, Structural)]
pub struct ParseRegisterError;

/// The label `V`, as bytes.
pub open spec fn label_v() -> Seq<u8> {
    seq!['V' as u8]
}

/// The label `VS`, as bytes.
pub open spec fn label_vs() -> Seq<u8> {
    seq!['V' as u8, 'S' as u8]
}

/// The label `VPV`, as bytes.
pub open spec fn label_vpv() -> Seq<u8> {
    seq!['V' as u8, 'P' as u8, 'V' as u8]
}

/// The label `PPV`, as bytes.
pub open spec fn label_ppv() -> Seq<u8> {
    seq!['P' as u8, 'P' as u8, 'V' as u8]
}

/// The label `I`, as bytes.
pub open spec fn label_i() -> Seq<u8> {
    seq!['I' as u8]
}

/// The label `IL`, as bytes.
pub open spec fn label_il() -> Seq<u8> {
    seq!['I' as u8, 'L' as u8]
}

/// The label `P`, as bytes.
pub open spec fn label_p() -> Seq<u8> {
    seq!['P' as u8]
}

/// The label `CE`, as bytes.
pub open spec fn label_ce() -> Seq<u8> {
    seq!['C' as u8, 'E' as u8]
}

/// The label `SOC`, as bytes.
pub open spec fn label_soc() -> Seq<u8> {
    seq!['S' as u8, 'O' as u8, 'C' as u8]
}

/// The label `AC_OUT_V`, as bytes.
pub open spec fn label_ac_out_v() -> Seq<u8> {
    seq![
        'A' as u8,
        'C' as u8,
        '_' as u8,
        'O' as u8,
        'U' as u8,
        'T' as u8,
        '_' as u8,
        'V' as u8,
    ]
}

/// The label `AC_OUT_S`, as bytes.
pub open spec fn label_ac_out_s() -> Seq<u8> {
    seq![
        'A' as u8,
        'C' as u8,
        '_' as u8,
        'O' as u8,
        'U' as u8,
        'T' as u8,
        '_' as u8,
        'S' as u8,
    ]
}

/// The label `MPPT`, as bytes.
pub open spec fn label_mppt() -> Seq<u8> {
    seq!['M' as u8, 'P' as u8, 'P' as u8, 'T' as u8]
}

/// The label `MON`, as bytes.
pub open spec fn label_mon() -> Seq<u8> {
    seq!['M' as u8, 'O' as u8, 'N' as u8]
}

/// The label `PID`, as bytes.
pub open spec fn label_pid() -> Seq<u8> {
    seq!['P' as u8, 'I' as u8, 'D' as u8]
}

/// The product id that a `PID` value writes: whatever its first two bytes
/// are, the rest is the id in hexadecimal.
pub open spec fn product_id(value: Seq<u8>) -> Option<u16> {
    if value.len() >= 2 {
        hex_u16(value.skip(2))
    } else {
        None
    }
}

/// The register that a label and a value decode to: the decode table.
pub open spec fn decode_pair(label: Seq<u8>, value: Seq<u8>) -> Option<Register> {
    if label == label_mppt() {
        Some(Register::TrackerOperationMode())
    } else if label == label_mon() {
        Some(Register::DcMonitorMode())
    } else if label == label_pid() {
        match product_id(value) {
            Some(pid) => Some(Register::Pid(pid)),
            None => None,
        }
    } else {
        match decimal_i32(value) {
            Some(n) => if label == label_v() {
                Some(Register::MainVoltage(n))
            } else if label == label_vs() {
                Some(Register::AuxVoltage(n))
            } else if label == label_vpv() {
                Some(Register::PanelVoltage(n))
            } else if label == label_ppv() {
                Some(Register::PanelPower(n))
            } else if label == label_i() {
                Some(Register::MainCurrent(n))
            } else if label == label_il() {
                Some(Register::LoadCurrent(n))
            } else if label == label_p() {
                Some(Register::InstantaneousPower(n))
            } else if label == label_ce() {
                Some(Register::ConsumedAmpHours(n))
            } else if label == label_soc() {
                Some(Register::StateOfCharge(n))
            } else if label == label_ac_out_v() {
                Some(Register::ACOutputVoltage(n))
            } else if label == label_ac_out_s() {
                Some(Register::ACOutputApparentPower(n))
            } else {
                None
            },
            None => None,
        }
    }
}

/// Position `k` holds the one and only tab of `field`.
pub open spec fn sole_tab(field: Seq<u8>, k: int) -> bool {
    &&& 0 <= k < field.len()
    &&& field[k] == TAB
    &&& forall|j: int| 0 <= j < field.len() && j != k ==> #[trigger] field[j] != TAB
}

/// The register that a whole field decodes to. The field must hold exactly
/// one tab; what stands before it is the label, what follows is the value.
#[verifier::opaque]
pub open spec fn decode_field(field: Seq<u8>) -> Option<Register> {
    if exists|k: int| sole_tab(field, k) {
        let k = choose|k: int| sole_tab(field, k);
        decode_pair(field.take(k), field.skip(k + 1))
    } else {
        None
    }
}

/// A label followed by a tab and a value, as the decoder takes a field.
pub open spec fn field_of(label: Seq<u8>, value: Seq<u8>) -> Seq<u8> {
    label + seq![TAB] + value
}

/// A field put together from a label without a tab and a value without a
/// tab decodes as the decode table says of the two.
pub proof fn lemma_decode_field_of(label: Seq<u8>, value: Seq<u8>)
    requires
        !label.contains(TAB),
        !value.contains(TAB),
    ensures
        decode_field(field_of(label, value)) == decode_pair(label, value),
{
    reveal(decode_field);
    let field = field_of(label, value);
    let k = label.len() as int;
    assert(sole_tab(field, k)) by {
        assert forall|j: int| 0 <= j < field.len() && j != k implies #[trigger] field[j]
            != TAB by {
            if j < k {
                assert(label.contains(label[j]));
            } else {
                assert(value.contains(value[j - k - 1]));
            }
        }
    }
    let c = choose|c: int| sole_tab(field, c);
    assert(c == k);
    assert(field.take(k) =~= label);
    assert(field.skip(k + 1) =~= value);
}

/// A field whose label or value holds a tab of its own decodes to nothing.
pub proof fn lemma_decode_field_extra_tab(label: Seq<u8>, value: Seq<u8>)
    requires
        label.contains(TAB) || value.contains(TAB),
    ensures
        decode_field(field_of(label, value)) is None,
{
    reveal(decode_field);
    let field = field_of(label, value);
    let k = label.len() as int;
    assert(field[k] == TAB);
    if label.contains(TAB) {
        let j = choose|j: int| 0 <= j < label.len() && label[j] == TAB;
        assert(field[j] == TAB);
        assert forall|c: int| !sole_tab(field, c) by {
            if sole_tab(field, c) {
                if c == k {
                    assert(field[j] != TAB);
                } else {
                    assert(field[k] != TAB);
                }
            }
        }
    } else {
        let j = choose|j: int| 0 <= j < value.len() && value[j] == TAB;
        assert(field[k + 1 + j] == TAB);
        assert forall|c: int| !sole_tab(field, c) by {
            if sole_tab(field, c) {
                if c == k {
                    assert(field[k + 1 + j] != TAB);
                } else {
                    assert(field[k] != TAB);
                }
            }
        }
    }
}

/// Compares two byte strings.
fn same_bytes(a: &[u8], b: &[u8]) -> (r: bool)
    ensures
        r == (a@ == b@),
{
    if a.len() != b.len() {
        return false;
    }
    let mut i: usize = 0;
    while i < a.len()
        invariant
            0 <= i <= a.len(),
            a.len() == b.len(),
            a@.take(i as int) == b@.take(i as int),
        decreases a.len() - i,
    {
        if a[i] != b[i] {
            return false;
        }
        assert(a@.take(i + 1) =~= a@.take(i as int).push(a@[i as int]));
        assert(b@.take(i + 1) =~= b@.take(i as int).push(b@[i as int]));
        i += 1;
    }
    assert(a@.take(i as int) =~= a@);
    assert(b@.take(i as int) =~= b@);
    true
}

impl Register {
    /// The divisor that turns the integer of a numeric register into its
    /// physical unit: 1000 for millivolts to volts, 10 for tenths of a
    /// percent to percent, and so on. Registers without a measured quantity
    /// have the divisor 1.
    pub open spec fn spec_scale(self) -> int {
        match self {
            Register::MainVoltage(_) => 1000,
            Register::AuxVoltage(_) => 1000,
            Register::PanelVoltage(_) => 1000,
            Register::PanelPower(_) => 1,
            Register::MainCurrent(_) => 1000,
            Register::LoadCurrent(_) => 1000,
            Register::InstantaneousPower(_) => 1000,
            Register::ConsumedAmpHours(_) => 1000,
            Register::StateOfCharge(_) => 10,
            Register::ACOutputVoltage(_) => 100,
            Register::ACOutputApparentPower(_) => 1,
            Register::TrackerOperationMode() => 1,
            Register::DcMonitorMode() => 1,
            Register::Pid(_) => 1,
        }
    }

    /// The integer that a numeric register carries, in the unit of the wire;
    /// `None` for the mode markers and the product id.
    pub open spec fn spec_reading(self) -> Option<i32> {
        match self {
            Register::MainVoltage(n) => Some(n),
            Register::AuxVoltage(n) => Some(n),
            Register::PanelVoltage(n) => Some(n),
            Register::PanelPower(n) => Some(n),
            Register::MainCurrent(n) => Some(n),
            Register::LoadCurrent(n) => Some(n),
            Register::InstantaneousPower(n) => Some(n),
            Register::ConsumedAmpHours(n) => Some(n),
            Register::StateOfCharge(n) => Some(n),
            Register::ACOutputVoltage(n) => Some(n),
            Register::ACOutputApparentPower(n) => Some(n),
            Register::TrackerOperationMode() => None,
            Register::DcMonitorMode() => None,
            Register::Pid(_) => None,
        }
    }

    /// See [`Register::spec_scale`].
    pub fn scale(&self) -> (divisor: u32)
        ensures
            divisor == self.spec_scale(),
    {
        match self {
            Register::MainVoltage(_) => 1000,
            Register::AuxVoltage(_) => 1000,
            Register::PanelVoltage(_) => 1000,
            Register::PanelPower(_) => 1,
            Register::MainCurrent(_) => 1000,
            Register::LoadCurrent(_) => 1000,
            Register::InstantaneousPower(_) => 1000,
            Register::ConsumedAmpHours(_) => 1000,
            Register::StateOfCharge(_) => 10,
            Register::ACOutputVoltage(_) => 100,
            Register::ACOutputApparentPower(_) => 1,
            Register::TrackerOperationMode() => 1,
            Register::DcMonitorMode() => 1,
            Register::Pid(_) => 1,
        }
    }

    /// See [`Register::spec_reading`].
    pub fn reading(&self) -> (raw: Option<i32>)
        ensures
            raw == self.spec_reading(),
    {
        match self {
            Register::MainVoltage(n) => Some(*n),
            Register::AuxVoltage(n) => Some(*n),
            Register::PanelVoltage(n) => Some(*n),
            Register::PanelPower(n) => Some(*n),
            Register::MainCurrent(n) => Some(*n),
            Register::LoadCurrent(n) => Some(*n),
            Register::InstantaneousPower(n) => Some(*n),
            Register::ConsumedAmpHours(n) => Some(*n),
            Register::StateOfCharge(n) => Some(*n),
            Register::ACOutputVoltage(n) => Some(*n),
            Register::ACOutputApparentPower(n) => Some(*n),
            Register::TrackerOperationMode() => None,
            Register::DcMonitorMode() => None,
            Register::Pid(_) => None,
        }
    }

    /// Decodes a label and a value that have already been parted.
    pub fn decode(label: &[u8], value: &[u8]) -> (r: Option<Register>)
        ensures
            r == decode_pair(label@, value@),
    {
        let mppt: [u8; 4] = ['M' as u8, 'P' as u8, 'P' as u8, 'T' as u8];
        let mon: [u8; 3] = ['M' as u8, 'O' as u8, 'N' as u8];
        let pid: [u8; 3] = ['P' as u8, 'I' as u8, 'D' as u8];
        assert(mppt@ =~= label_mppt());
        assert(mon@ =~= label_mon());
        assert(pid@ =~= label_pid());
        if same_bytes(label, mppt.as_slice()) {
            return Some(Register::TrackerOperationMode());
        }
        if same_bytes(label, mon.as_slice()) {
            return Some(Register::DcMonitorMode());
        }
        if same_bytes(label, pid.as_slice()) {
            if value.len() < 2 {
                return None;
            }
            let digits = vstd::slice::slice_subrange(value, 2, value.len());
            assert(digits@ =~= value@.skip(2));
            return match parse_hex_u16(digits) {
                Some(id) => Some(Register::Pid(id)),
                None => None,
            };
        }
        let n: i32 = match parse_i32(value) {
            Some(n) => n,
            None => {
                return None;
            },
        };
        let v: [u8; 1] = ['V' as u8];
        let vs: [u8; 2] = ['V' as u8, 'S' as u8];
        let vpv: [u8; 3] = ['V' as u8, 'P' as u8, 'V' as u8];
        let ppv: [u8; 3] = ['P' as u8, 'P' as u8, 'V' as u8];
        let i: [u8; 1] = ['I' as u8];
        let il: [u8; 2] = ['I' as u8, 'L' as u8];
        let p: [u8; 1] = ['P' as u8];
        let ce: [u8; 2] = ['C' as u8, 'E' as u8];
        let soc: [u8; 3] = ['S' as u8, 'O' as u8, 'C' as u8];
        let ac_out_v: [u8; 8] = [
            'A' as u8,
            'C' as u8,
            '_' as u8,
            'O' as u8,
            'U' as u8,
            'T' as u8,
            '_' as u8,
            'V' as u8,
        ];
        let ac_out_s: [u8; 8] = [
            'A' as u8,
            'C' as u8,
            '_' as u8,
            'O' as u8,
            'U' as u8,
            'T' as u8,
            '_' as u8,
            'S' as u8,
        ];
        assert(v@ =~= label_v());
        assert(vs@ =~= label_vs());
        assert(vpv@ =~= label_vpv());
        assert(ppv@ =~= label_ppv());
        assert(i@ =~= label_i());
        assert(il@ =~= label_il());
        assert(p@ =~= label_p());
        assert(ce@ =~= label_ce());
        assert(soc@ =~= label_soc());
        assert(ac_out_v@ =~= label_ac_out_v());
        assert(ac_out_s@ =~= label_ac_out_s());
        if same_bytes(label, v.as_slice()) {
            Some(Register::MainVoltage(n))
        } else if same_bytes(label, vs.as_slice()) {
            Some(Register::AuxVoltage(n))
        } else if same_bytes(label, vpv.as_slice()) {
            Some(Register::PanelVoltage(n))
        } else if same_bytes(label, ppv.as_slice()) {
            Some(Register::PanelPower(n))
        } else if same_bytes(label, i.as_slice()) {
            Some(Register::MainCurrent(n))
        } else if same_bytes(label, il.as_slice()) {
            Some(Register::LoadCurrent(n))
        } else if same_bytes(label, p.as_slice()) {
            Some(Register::InstantaneousPower(n))
        } else if same_bytes(label, ce.as_slice()) {
            Some(Register::ConsumedAmpHours(n))
        } else if same_bytes(label, soc.as_slice()) {
            Some(Register::StateOfCharge(n))
        } else if same_bytes(label, ac_out_v.as_slice()) {
            Some(Register::ACOutputVoltage(n))
        } else if same_bytes(label, ac_out_s.as_slice()) {
            Some(Register::ACOutputApparentPower(n))
        } else {
            None
        }
    }

    /// Decodes one field given as bytes: a label, one tab, a value.
    pub fn from_bytes(field: &[u8]) -> (r: Result<Register, ParseRegisterError>)
        ensures
            match r {
                Ok(reg) => decode_field(field@) == Some(reg),
                Err(_) => decode_field(field@) is None,
            },
    {
        proof {
            reveal(decode_field);
        }
        let n: usize = field.len();
        let mut k: usize = 0;
        while k < n && field[k] != TAB
            invariant
                0 <= k <= n,
                n == field.len(),
                forall|j: int| 0 <= j < k ==> #[trigger] field@[j] != TAB,
            decreases n - k,
        {
            k += 1;
        }
        if k == n {
            assert forall|c: int| !sole_tab(field@, c) by {}
            return Err(ParseRegisterError);
        }
        let mut m: usize = k + 1;
        while m < n && field[m] != TAB
            invariant
                k < m <= n,
                n == field.len(),
                forall|j: int| k < j < m ==> #[trigger] field@[j] != TAB,
            decreases n - m,
        {
            m += 1;
        }
        if m < n {
            assert forall|c: int| !sole_tab(field@, c) by {
                if sole_tab(field@, c) {
                    if c == k as int {
                        assert(field@[m as int] != TAB);
                    } else {
                        assert(field@[k as int] != TAB);
                    }
                }
            }
            return Err(ParseRegisterError);
        }
        assert(sole_tab(field@, k as int));
        proof {
            let c = choose|c: int| sole_tab(field@, c);
            assert(c == k) by {
                if c != k {
                    assert(field@[k as int] != TAB);
                }
            }
        }
        let label = vstd::slice::slice_subrange(field, 0, k);
        let value = vstd::slice::slice_subrange(field, k + 1, n);
        assert(label@ =~= field@.take(k as int));
        assert(value@ =~= field@.skip(k + 1));
        match Register::decode(label, value) {
            Some(reg) => Ok(reg),
            None => Err(ParseRegisterError),
        }
    }
}

/// Decodes one field given as text, which is taken as its UTF-8 bytes.
impl core::str::FromStr for Register {
    type Err = ParseRegisterError;

    fn from_str(s: &str) -> (r: Result<Register, ParseRegisterError>)
        ensures
            match r {
                Ok(reg) => decode_field(s.spec_bytes()) == Some(reg),
                Err(_) => decode_field(s.spec_bytes()) is None,
            },
    {
        Register::from_bytes(s.as_bytes())
    }
}

} // verus!
