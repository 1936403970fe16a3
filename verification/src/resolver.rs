//! The device path resolver: from a USB slot to the serial device node that
//! the kernel made for the cable in it.
//!
//! The resolver decides; it does not touch the machine. The caller reads the
//! product string of the USB device and lists the directory that
//! [`device_tree_path`] names, and hands both over as text.

use vstd::prelude::*;
use vstd::string::StringExecFns;
use vstd::string::StrSliceExecFns;

verus! {

/// The product string of the one cable that is accepted.
pub open spec fn cable_name() -> Seq<char> {
    "VE Direct cable"@
}

/// What the name of a serial device node of a USB bridge holds.
pub open spec fn tty_marker() -> Seq<char> {
    "ttyUSB"@
}

/// The directory in which the device nodes live.
pub open spec fn dev_dir() -> Seq<char> {
    "/dev/"@
}

/// The decimal digit `d` as a character.
pub open spec fn digit_char(d: nat) -> char {
    (('0' as u8) + d) as char
}

/// `n` written in base ten, without leading zeros.
pub open spec fn decimal(n: nat) -> Seq<char>
    decreases n,
{
    if n < 10 {
        seq![digit_char(n)]
    } else {
        decimal(n / 10).push(digit_char(n % 10))
    }
}

/// The directory below which the kernel puts the serial device of the
/// bridge in slot `bus`, `port` with active configuration `config`:
/// `/sys/bus/usb/devices/usbB/B-P/B-P:C.0`.
pub open spec fn device_tree(bus: u8, port: u8, config: u8) -> Seq<char> {
    "/sys/bus/usb/devices/usb"@ + decimal(bus as nat) + "/"@ + decimal(bus as nat) + "-"@
        + decimal(port as nat) + "/"@ + decimal(bus as nat) + "-"@ + decimal(port as nat) + ":"@
        + decimal(config as nat) + ".0"@
}

/// `pattern` occurs in `text` at position `at`.
pub open spec fn occurs_at(text: Seq<char>, pattern: Seq<char>, at: int) -> bool {
    0 <= at && at + pattern.len() <= text.len() && text.subrange(at, at + pattern.len())
        == pattern
}

/// `pattern` occurs somewhere in `text`.
pub open spec fn occurs_in(text: Seq<char>, pattern: Seq<char>) -> bool {
    exists|at: int| occurs_at(text, pattern, at)
}

/// `k` is the first of `names` that holds the marker of a serial device.
pub open spec fn first_tty(names: Seq<Seq<char>>, k: int) -> bool {
    &&& 0 <= k < names.len()
    &&& occurs_in(names[k], tty_marker())
    &&& forall|j: int| 0 <= j < k ==> !occurs_in(#[trigger] names[j], tty_marker())
}

/// The names of `names` as text.
pub open spec fn texts(names: Seq<String>) -> Seq<Seq<char>> {
    names.map_values(|name: String| name@)
}

/// Whether a USB product string is that of the accepted cable. The match is
/// exact.
pub fn is_vedirect(product: &str) -> (r: bool)
    ensures
        r == (product@ == cable_name()),
{
    let found = product.to_owned();
    let expected = "VE Direct cable".to_owned();
    found == expected
}

/// One decimal digit as text.
fn digit_text(d: u8) -> (text: &'static str)
    requires
        d < 10,
    ensures
        text@ == seq![digit_char(d as nat)],
{
    proof {
        reveal_strlit("0");
        reveal_strlit("1");
        reveal_strlit("2");
        reveal_strlit("3");
        reveal_strlit("4");
        reveal_strlit("5");
        reveal_strlit("6");
        reveal_strlit("7");
        reveal_strlit("8");
        reveal_strlit("9");
    }
    let text = if d == 0 {
        "0"
    } else if d == 1 {
        "1"
    } else if d == 2 {
        "2"
    } else if d == 3 {
        "3"
    } else if d == 4 {
        "4"
    } else if d == 5 {
        "5"
    } else if d == 6 {
        "6"
    } else if d == 7 {
        "7"
    } else if d == 8 {
        "8"
    } else {
        "9"
    };
    assert(text@ =~= seq![digit_char(d as nat)]);
    text
}

/// Writes `n` in base ten at the end of `text`.
fn append_decimal(text: &mut String, n: u8)
    ensures
        final(text)@ == old(text)@ + decimal(n as nat),
{
    proof {
        reveal_with_fuel(decimal, 3);
    }
    if n >= 100 {
        text.append(digit_text(n / 100));
    }
    if n >= 10 {
        text.append(digit_text((n / 10) % 10));
    }
    text.append(digit_text(n % 10));
    assert(text@ =~= old(text)@ + decimal(n as nat));
}

/// The directory to list for the serial device of the bridge in slot
/// `bus`, `port` with active configuration `config`.
pub fn device_tree_path(bus: u8, port: u8, config: u8) -> (path: String)
    ensures
        path@ == device_tree(bus, port, config),
{
    let mut path = String::from_str("/sys/bus/usb/devices/usb");
    append_decimal(&mut path, bus);
    path.append("/");
    append_decimal(&mut path, bus);
    path.append("-");
    append_decimal(&mut path, port);
    path.append("/");
    append_decimal(&mut path, bus);
    path.append("-");
    append_decimal(&mut path, port);
    path.append(":");
    append_decimal(&mut path, config);
    path.append(".0");
    path
}

/// The characters of `text`.
fn chars_of(text: &str) -> (chars: Vec<char>)
    ensures
        chars@ == text@,
{
    let n: usize = text.unicode_len();
    let mut chars: Vec<char> = Vec::new();
    let mut i: usize = 0;
    while i < n
        invariant
            0 <= i <= n,
            n == text@.len(),
            chars@ == text@.take(i as int),
        decreases n - i,
    {
        chars.push(text.get_char(i));
        assert(text@.take(i + 1) =~= text@.take(i as int).push(text@[i as int]));
        i += 1;
    }
    assert(text@.take(n as int) =~= text@);
    chars
}

/// Whether `pattern` occurs in `text` at position `at`.
fn matches_at(text: &Vec<char>, pattern: &Vec<char>, at: usize) -> (r: bool)
    requires
        at + pattern.len() <= text.len(),
    ensures
        r == occurs_at(text@, pattern@, at as int),
{
    let mut j: usize = 0;
    while j < pattern.len()
        invariant
            0 <= j <= pattern.len(),
            at + pattern.len() <= text.len(),
            forall|k: int| 0 <= k < j ==> text@[at + k] == pattern@[k],
        decreases pattern.len() - j,
    {
        if text[at + j] != pattern[j] {
            assert(text@.subrange(at as int, at + pattern.len())[j as int] != pattern@[j as int]);
            return false;
        }
        j += 1;
    }
    assert(text@.subrange(at as int, at + pattern.len()) =~= pattern@);
    true
}

/// Whether `pattern` occurs somewhere in `text`.
fn occurs(text: &Vec<char>, pattern: &Vec<char>) -> (r: bool)
    ensures
        r == occurs_in(text@, pattern@),
{
    if pattern.len() > text.len() {
        assert forall|at: int| !occurs_at(text@, pattern@, at) by {}
        return false;
    }
    let last: usize = text.len() - pattern.len();
    let mut at: usize = 0;
    while at < last
        invariant
            0 <= at <= last,
            last == text.len() - pattern.len(),
            forall|k: int| 0 <= k < at ==> !occurs_at(text@, pattern@, k),
        decreases last - at,
    {
        if matches_at(text, pattern, at) {
            return true;
        }
        at += 1;
    }
    if matches_at(text, pattern, last) {
        return true;
    }
    assert forall|k: int| !occurs_at(text@, pattern@, k) by {}
    false
}

/// Whether a file name is that of a serial device node of a USB bridge: it
/// holds `ttyUSB`.
pub fn is_tty_name(name: &str) -> (r: bool)
    ensures
        r == occurs_in(name@, tty_marker()),
{
    let text = chars_of(name);
    let marker = chars_of("ttyUSB");
    occurs(&text, &marker)
}

/// Picks the serial device node among the entries of the directory that
/// [`device_tree_path`] names: the first entry whose name holds `ttyUSB`,
/// as a path below `/dev/`. `None` if there is no such entry.
pub fn resolve_tty(names: &Vec<String>) -> (path: Option<String>)
    ensures
        match path {
            Some(path) => exists|k: int|
                first_tty(texts(names@), k) && path@ == dev_dir() + #[trigger] names@[k]@,
            None => forall|k: int|
                0 <= k < names.len() ==> !occurs_in(#[trigger] names@[k]@, tty_marker()),
        },
{
    let mut k: usize = 0;
    while k < names.len()
        invariant
            0 <= k <= names.len(),
            forall|j: int| 0 <= j < k ==> !occurs_in(#[trigger] names@[j]@, tty_marker()),
        decreases names.len() - k,
    {
        if is_tty_name(names[k].as_str()) {
            let mut path = String::from_str("/dev/");
            path.append(names[k].as_str());
            assert(first_tty(texts(names@), k as int)) by {
                assert(texts(names@)[k as int] == names@[k as int]@);
                assert forall|j: int| 0 <= j < k implies !occurs_in(
                    #[trigger] texts(names@)[j],
                    tty_marker(),
                ) by {
                    assert(texts(names@)[j] == names@[j]@);
                }
            }
            return Some(path);
        }
        k += 1;
    }
    None
}

} // verus!
