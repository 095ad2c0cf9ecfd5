//! Reading one unsigned integer from one sysfs node, and locating the device.

use vstd::prelude::*;

use crate::error::{Error, Fault, Node};

verus! {

/// What reading the first line of a node gave.
#[derive(Clone, Debug, PartialEq, Eq)]
pub enum LineRead {
    /// The first line, without its line terminator.
    Line(String),
    /// The node held no line.
    Empty,
    /// Reading failed with "no such device or address": the kernel's answer for
    /// a channel that is physically absent.
    NoDevice,
    /// Opening or reading failed otherwise; the message of the I/O error.
    Failed(String),
}

/// A decimal digit, `0` to `9`.
pub open spec fn is_digit(c: char) -> bool {
    '0' <= c && c <= '9'
}

/// The value of a decimal digit.
pub open spec fn digit_value(c: char) -> nat {
    (c as u32 - '0' as u32) as nat
}

/// The number that a string of decimal digits spells, most significant first.
pub open spec fn digits_value(s: Seq<char>) -> nat
    decreases s.len(),
{
    if s.len() == 0 {
        0
    } else {
        10 * digits_value(s.drop_last()) + digit_value(s.last())
    }
}

/// Every character of `s` is a decimal digit.
pub open spec fn all_digits(s: Seq<char>) -> bool {
    forall|i: int| 0 <= i < s.len() ==> is_digit(#[trigger] s[i])
}

/// The digits of an unsigned decimal: the text without one leading `+`.
pub open spec fn unsigned_digits(s: Seq<char>) -> Seq<char> {
    if s.len() > 0 && s[0] == '+' {
        s.drop_first()
    } else {
        s
    }
}

/// The value of `s` read as an unsigned decimal that fits in `u32`: an optional
/// `+`, then one or more digits. Any other text has none.
pub open spec fn decimal_u32(s: Seq<char>) -> Option<u32> {
    let d = unsigned_digits(s);
    if d.len() > 0 && all_digits(d) && digits_value(d) <= u32::MAX {
        Some(digits_value(d) as u32)
    } else {
        None
    }
}

proof fn lemma_digits_value_prefix(s: Seq<char>, k: int)
    requires
        0 <= k < s.len(),
    ensures
        digits_value(s.subrange(0, k + 1)) == 10 * digits_value(s.subrange(0, k))
            + digit_value(s[k]),
{
    assert(s.subrange(0, k + 1).drop_last() =~= s.subrange(0, k));
}

proof fn lemma_digits_value_grows(s: Seq<char>, k: int)
    requires
        0 <= k <= s.len(),
    ensures
        digits_value(s.subrange(0, k)) <= digits_value(s),
    decreases s.len() - k,
{
    if k < s.len() {
        lemma_digits_value_prefix(s, k);
        lemma_digits_value_grows(s, k + 1);
    } else {
        assert(s.subrange(0, k) =~= s);
    }
}

/// Parses an unsigned decimal that fits in `u32`.
pub fn parse_u32(s: &str) -> (r: Option<u32>)
    ensures
        r == decimal_u32(s@),
{
    let len = s.unicode_len();
    let mut start: usize = 0;
    if len > 0 && s.get_char(0) == '+' {
        start = 1;
    }
    let ghost d = unsigned_digits(s@);
    assert(d =~= s@.subrange(start as int, len as int));
    if start == len {
        return None;
    }
    let mut value: u64 = 0;
    let mut i: usize = start;
    while i < len
        invariant
            start <= i <= len,
            len == s@.len(),
            d == s@.subrange(start as int, len as int),
            d == unsigned_digits(s@),
            all_digits(d.subrange(0, i - start)),
            value == digits_value(d.subrange(0, i - start)),
            value <= u32::MAX,
        decreases len - i,
    {
        let c = s.get_char(i);
        assert(d[i - start] == c);
        if !('0' <= c && c <= '9') {
            assert(!is_digit(d[i - start]));
            return None;
        }
        proof {
            lemma_digits_value_prefix(d, i - start);
        }
        value = value * 10 + (c as u64 - '0' as u64);
        i = i + 1;
        assert(all_digits(d.subrange(0, i - start))) by {
            assert forall|j: int| 0 <= j < i - start implies is_digit(
                #[trigger] d.subrange(0, i - start)[j],
            ) by {
                if j < i - 1 - start {
                    assert(d.subrange(0, i - start)[j] == d.subrange(0, i - 1 - start)[j]);
                }
            }
        }
        if value > 0xffff_ffff {
            proof {
                lemma_digits_value_grows(d, i - start);
            }
            return None;
        }
    }
    assert(d.subrange(0, i - start) =~= d);
    Some(value as u32)
}

/// Whether two strings hold the same characters.
pub fn same_text(a: &str, b: &str) -> (r: bool)
    ensures
        r == (a@ == b@),
{
    let n = a.unicode_len();
    if n != b.unicode_len() {
        return false;
    }
    let mut i: usize = 0;
    while i < n
        invariant
            i <= n,
            n == a@.len(),
            n == b@.len(),
            forall|j: int| 0 <= j < i ==> a@[j] == b@[j],
        decreases n - i,
    {
        if a.get_char(i) != b.get_char(i) {
            return false;
        }
        i = i + 1;
    }
    assert(a@ =~= b@);
    true
}

/// Why the hwmon device could not be located.
#[derive(Clone, Copy, Debug, PartialEq, Eq, Structural)]
pub enum LocateError {
    /// No device directory is named for the driver.
    NotFound,
    /// More than one device directory is named for the driver.
    Ambiguous,
}

/// The content of a `name` node that names the `thinkpad_acpi` driver:
/// `thinkpad`, with or without a trailing newline.
pub open spec fn is_driver_name(s: Seq<char>) -> bool {
    s == "thinkpad"@ || s == "thinkpad\n"@
}

/// The `i`-th device directory is named for the driver.
pub open spec fn names_driver(names: Seq<Option<String>>, i: int) -> bool {
    names[i] matches Some(n) && is_driver_name(n@)
}

/// Picks the hwmon device of the driver, where `names[i]` is the content of
/// the `name` node of the `i`-th device directory, or `None` where it could
/// not be read: the one directory named for the driver.
pub fn locate_device(names: &Vec<Option<String>>) -> (r: Result<usize, LocateError>)
    ensures
        r matches Ok(i) ==> 0 <= i < names.len() && names_driver(names@, i as int) && forall|j: int|
            0 <= j < names.len() && j != i ==> !names_driver(names@, j),
        r == Err::<usize, LocateError>(LocateError::NotFound) <==> forall|j: int|
            0 <= j < names.len() ==> !names_driver(names@, j),
        r == Err::<usize, LocateError>(LocateError::Ambiguous) <==> exists|i: int, j: int|
            0 <= i < j < names.len() && names_driver(names@, i) && names_driver(names@, j),
{
    let mut found: Option<usize> = None;
    let mut i: usize = 0;
    while i < names.len()
        invariant
            i <= names.len(),
            match found {
                None => forall|j: int| 0 <= j < i ==> !names_driver(names@, j),
                Some(f) => f < i && names_driver(names@, f as int) && forall|j: int|
                    0 <= j < i && j != f ==> !names_driver(names@, j),
            },
        decreases names.len() - i,
    {
        let matched = match &names[i] {
            Some(n) => same_text(n.as_str(), "thinkpad") || same_text(n.as_str(), "thinkpad\n"),
            None => false,
        };
        if matched {
            if let Some(f) = found {
                assert(names_driver(names@, f as int) && names_driver(names@, i as int));
                return Err(LocateError::Ambiguous);
            }
            found = Some(i);
        }
        i = i + 1;
    }
    match found {
        Some(f) => Ok(f),
        None => Err(LocateError::NotFound),
    }
}

/// The value that `node` reported, as `read_line` decodes it.
pub open spec fn line_value(node: Node, read: LineRead) -> Result<u32, Error> {
    match read {
        LineRead::Line(line) => match decimal_u32(line@) {
            Some(v) => Ok(v),
            None => Err(Error::Device(node, Fault::NotANumber(line))),
        },
        LineRead::Empty => Err(Error::Device(node, Fault::EmptyFile)),
        LineRead::NoDevice => Err(Error::ChannelAbsent),
        LineRead::Failed(message) => Err(Error::Device(node, Fault::Io(message))),
    }
}

/// Decodes what reading `node` gave: its first line as an unsigned integer.
/// An absent channel is told apart from every other failure, which names the node.
pub fn read_line(node: Node, read: &LineRead) -> (r: Result<u32, Error>)
    ensures
        r == line_value(node, *read),
{
    match read {
        LineRead::Line(line) => match parse_u32(line.as_str()) {
            Some(v) => Ok(v),
            None => Err(Error::Device(node, Fault::NotANumber(line.clone()))),
        },
        LineRead::Empty => Err(Error::Device(node, Fault::EmptyFile)),
        LineRead::NoDevice => Err(Error::ChannelAbsent),
        LineRead::Failed(message) => Err(Error::Device(node, Fault::Io(message.clone()))),
    }
}

} // verus!
