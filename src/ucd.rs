//! Code points as text, Unicode planes, and the block a character lies in.
use crate::text::{chars_of, push_char};
use vstd::prelude::*;
use vstd::string::StringExecFns;

verus! {

pub const PLANE_COUNT: u32 = 17;

pub const PLANE_SIZE: u32 = 0x1_0000;

/// An inclusive range of code points.
#[derive(Default, Debug, Copy, Clone, PartialEq, Eq)]
pub struct Range {
    pub start: u32,
    pub end: u32,
}

/// The name of plane `index`.
pub open spec fn plane_name_view(index: int) -> Seq<char> {
    if index == 0 {
        "Basic Multilingual Plane"@
    } else if index == 1 {
        "Supplementary Multilingual Plane"@
    } else if index == 2 {
        "Supplementary Ideographic Plane"@
    } else if index == 3 {
        "Tertiary Ideographic Plane"@
    } else if index == 4 {
        "Unassigned (Plane 4)"@
    } else if index == 5 {
        "Unassigned (Plane 5)"@
    } else if index == 6 {
        "Unassigned (Plane 6)"@
    } else if index == 7 {
        "Unassigned (Plane 7)"@
    } else if index == 8 {
        "Unassigned (Plane 8)"@
    } else if index == 9 {
        "Unassigned (Plane 9)"@
    } else if index == 10 {
        "Unassigned (Plane 10)"@
    } else if index == 11 {
        "Unassigned (Plane 11)"@
    } else if index == 12 {
        "Unassigned (Plane 12)"@
    } else if index == 13 {
        "Unassigned (Plane 13)"@
    } else if index == 14 {
        "Supplementary Special-purpose Plane"@
    } else if index == 15 {
        "Supplementary Private Use Area (Plane 15)"@
    } else {
        "Supplementary Private Use Area (Plane 16)"@
    }
}

/// The name of plane `index`, for `index` below the plane count.
pub fn plane_name(index: u32) -> (r: &'static str)
    requires
        index < PLANE_COUNT,
    ensures
        r@ == plane_name_view(index as int),
{
    if index == 0 {
        "Basic Multilingual Plane"
    } else if index == 1 {
        "Supplementary Multilingual Plane"
    } else if index == 2 {
        "Supplementary Ideographic Plane"
    } else if index == 3 {
        "Tertiary Ideographic Plane"
    } else if index == 4 {
        "Unassigned (Plane 4)"
    } else if index == 5 {
        "Unassigned (Plane 5)"
    } else if index == 6 {
        "Unassigned (Plane 6)"
    } else if index == 7 {
        "Unassigned (Plane 7)"
    } else if index == 8 {
        "Unassigned (Plane 8)"
    } else if index == 9 {
        "Unassigned (Plane 9)"
    } else if index == 10 {
        "Unassigned (Plane 10)"
    } else if index == 11 {
        "Unassigned (Plane 11)"
    } else if index == 12 {
        "Unassigned (Plane 12)"
    } else if index == 13 {
        "Unassigned (Plane 13)"
    } else if index == 14 {
        "Supplementary Special-purpose Plane"
    } else if index == 15 {
        "Supplementary Private Use Area (Plane 15)"
    } else {
        "Supplementary Private Use Area (Plane 16)"
    }
}

/// The plane that holds code point `c`.
pub open spec fn plane_index(c: char) -> int {
    (c as u32) as int / PLANE_SIZE as int
}

#[derive(Debug, PartialEq, Eq)]
pub struct Plane {
    pub name: &'static str,
    pub range: Range,
}

impl Plane {
    /// The plane that holds `chr`, with its name and its range of code points.
    pub fn of(chr: char) -> (r: Plane)
        ensures
            r.name@ == plane_name_view(plane_index(chr)),
            r.range.start == plane_index(chr) * PLANE_SIZE,
            r.range.end == (plane_index(chr) + 1) * PLANE_SIZE - 1,
            r.range.start <= chr as u32 <= r.range.end,
    {
        let plane_index = chr as u32 / PLANE_SIZE;
        Plane {
            name: plane_name(plane_index),
            range: Range {
                start: plane_index * PLANE_SIZE,
                end: (plane_index + 1) * PLANE_SIZE - 1,
            },
        }
    }

    /// The names of all planes, in order.
    pub fn all_plane_names() -> (r: Vec<&'static str>)
        ensures
            r@.len() == PLANE_COUNT,
            forall|i: int| 0 <= i < PLANE_COUNT ==> (#[trigger] r@[i])@ == plane_name_view(i),
    {
        let mut r: Vec<&'static str> = Vec::new();
        let mut i: u32 = 0;
        while i < PLANE_COUNT
            invariant
                0 <= i <= PLANE_COUNT,
                r@.len() == i,
                forall|j: int| 0 <= j < i ==> (#[trigger] r@[j])@ == plane_name_view(j),
            decreases PLANE_COUNT - i,
        {
            r.push(plane_name(i));
            i = i + 1;
        }
        r
    }
}

/// The name of the block that holds a character, if it lies in one.
pub uninterp spec fn block_name_of(c: char) -> Option<Seq<char>>;

pub open spec fn opt_str_view(o: Option<&str>) -> Option<Seq<char>> {
    match o {
        Some(s) => Some(s@),
        None => None,
    }
}

/// Relies on `unic::ucd::Block::of`: the block that holds `c`, if any, by its name.
#[verifier::external_body]
pub(crate) fn block_name(c: char) -> (r: Option<&'static str>)
    ensures
        opt_str_view(r) == block_name_of(c),
{
    unic::ucd::Block::of(c).map(|block| block.name)
}

/// The upper-case hexadecimal digit for `d`.
pub open spec fn hex_digit(d: nat) -> char {
    if d < 10 {
        ((d + 48) as u8) as char
    } else {
        ((d - 10 + 65) as u8) as char
    }
}

/// The upper-case hexadecimal digits of `n`, padded with zeros to at least
/// `width` digits.
pub open spec fn hex_text(n: nat, width: nat) -> Seq<char>
    decreases n + width,
{
    if n == 0 && width == 0 {
        Seq::empty()
    } else {
        hex_text(n / 16, if width > 0 { (width - 1) as nat } else { 0 }).push(hex_digit(n % 16))
    }
}

/// `U+` and at least four upper-case hexadecimal digits of `c`.
pub open spec fn code_point_text(c: char) -> Seq<char> {
    seq!['U', '+'] + hex_text(c as u32 as nat, 4)
}

fn hex_digit_char(d: u32) -> (r: char)
    requires
        d < 16,
    ensures
        r == hex_digit(d as nat),
{
    if d < 10 {
        ((d + 48) as u8) as char
    } else {
        ((d - 10 + 65) as u8) as char
    }
}

/// Writes `chr` as `U+` followed by at least four upper-case hexadecimal digits.
pub fn code_point_to_string(chr: char) -> (r: String)
    ensures
        r@ == code_point_text(chr),
{
    let mut n: u32 = chr as u32;
    let mut width: u32 = 4;
    let mut digits: Vec<char> = Vec::new();
    while n > 0 || width > 0
        invariant
            hex_text(chr as u32 as nat, 4) == hex_text(n as nat, width as nat) + digits@,
        decreases n + width,
    {
        let d = hex_digit_char(n % 16);
        digits.insert(0, d);
        proof {
            let w2: nat = if width > 0 { (width - 1) as nat } else { 0 };
            assert(hex_text(n as nat, width as nat) == hex_text((n / 16) as nat, w2).push(d));
            assert(hex_text((n / 16) as nat, w2).push(d) + digits@.drop_first() =~= hex_text(
                (n / 16) as nat,
                w2,
            ) + digits@);
        }
        n = n / 16;
        if width > 0 {
            width = width - 1;
        }
    }
    proof {
        reveal_strlit("U+");
        assert(hex_text(0, 0) =~= Seq::<char>::empty());
        assert(hex_text(chr as u32 as nat, 4) =~= digits@);
    }
    let mut r = String::from_str("U+");
    let mut i: usize = 0;
    while i < digits.len()
        invariant
            0 <= i <= digits@.len(),
            r@ == seq!['U', '+'] + digits@.take(i as int),
        decreases digits@.len() - i,
    {
        push_char(&mut r, digits[i]);
        proof {
            assert(digits@.take(i + 1) =~= digits@.take(i as int).push(digits@[i as int]));
        }
        i = i + 1;
    }
    proof {
        assert(digits@.take(digits@.len() as int) =~= digits@);
    }
    r
}

/// The same as `code_point_to_string`; the form in which rows show a code point.
pub fn code_point_description(chr: char) -> (r: String)
    ensures
        r@ == code_point_text(chr),
{
    code_point_to_string(chr)
}

/// The value of a hexadecimal digit, either case.
pub open spec fn hex_value(c: char) -> Option<nat> {
    if '0' <= c && c <= '9' {
        Some((c as u32 - '0' as u32) as nat)
    } else if 'a' <= c && c <= 'f' {
        Some((c as u32 - 'a' as u32 + 10) as nat)
    } else if 'A' <= c && c <= 'F' {
        Some((c as u32 - 'A' as u32 + 10) as nat)
    } else {
        None
    }
}

/// The number that the hexadecimal digits `s` stand for, if each is one.
pub open spec fn hex_number(s: Seq<char>) -> Option<nat>
    decreases s.len(),
{
    if s.len() == 0 {
        Some(0)
    } else {
        match (hex_number(s.drop_last()), hex_value(s.last())) {
            (Some(high), Some(low)) => Some(high * 16 + low),
            _ => None,
        }
    }
}

/// What `u32::from_str_radix(t, 16)` accepts: an optional `+`, then at least
/// one hexadecimal digit, for a value that fits in 32 bits.
pub open spec fn hex_u32(t: Seq<char>) -> Option<nat> {
    let digits = if t.len() > 0 && t[0] == '+' { t.drop_first() } else { t };
    if digits.len() == 0 {
        None
    } else {
        match hex_number(digits) {
            Some(v) => if v <= u32::MAX { Some(v) } else { None },
            None => None,
        }
    }
}

/// Whether `v` is a Unicode scalar value.
pub open spec fn is_scalar(v: nat) -> bool {
    v <= 0x10FFFF && !(0xD800 <= v && v <= 0xDFFF)
}

/// The code point that text of the form `U+hhhh` (either case) names, when
/// it is a Unicode scalar value.
pub open spec fn parse_code_point(s: Seq<char>) -> Option<nat> {
    if s.len() >= 3 && (s[0] == 'u' || s[0] == 'U') && s[1] == '+' {
        match hex_u32(s.drop_first().drop_first()) {
            Some(v) => if is_scalar(v) { Some(v) } else { None },
            None => None,
        }
    } else {
        None
    }
}

/// Relies on `char::from_u32`: the character whose code point is `v`, when
/// `v` is a Unicode scalar value.
#[verifier::external_body]
fn char_from_u32(v: u32) -> (r: Option<char>)
    ensures
        r.is_some() == is_scalar(v as nat),
        r matches Some(c) ==> c as u32 == v,
{
    char::from_u32(v)
}

/// Parses text of the form `U+hhhh` (either case) into the code point it names.
pub fn string_to_code_point(input: &str) -> (r: Option<char>)
    ensures
        r.is_some() == parse_code_point(input@).is_some(),
        r matches Some(c) ==> parse_code_point(input@) == Some(c as u32 as nat),
{
    code_point_from_chars(&chars_of(input))
}

/// Parses the characters `U+hhhh` (either case) into the code point they name.
pub fn code_point_from_chars(s: &Vec<char>) -> (r: Option<char>)
    ensures
        r.is_some() == parse_code_point(s@).is_some(),
        r matches Some(c) ==> parse_code_point(s@) == Some(c as u32 as nat),
{
    if s.len() < 3 || !(s[0] == 'u' || s[0] == 'U') || s[1] != '+' {
        return None;
    }
    let ghost t = s@.drop_first().drop_first();
    let mut start: usize = 2;
    if s[2] == '+' {
        start = 3;
    }
    if start >= s.len() {
        return None;
    }
    let ghost digits = s@.subrange(start as int, s@.len() as int);
    proof {
        assert(digits =~= (if t.len() > 0 && t[0] == '+' { t.drop_first() } else { t }));
    }
    let mut value: u64 = 0;
    let mut i: usize = start;
    while i < s.len()
        invariant
            start <= i <= s@.len(),
            digits == s@.subrange(start as int, s@.len() as int),
            digits == (if t.len() > 0 && t[0] == '+' { t.drop_first() } else { t }),
            t == s@.drop_first().drop_first(),
            hex_number(s@.subrange(start as int, i as int)) == Some(value as nat),
            value <= u32::MAX,
        decreases s@.len() - i,
    {
        let c = s[i];
        let d: u64 = if '0' <= c && c <= '9' {
            (c as u32 - '0' as u32) as u64
        } else if 'a' <= c && c <= 'f' {
            (c as u32 - 'a' as u32 + 10) as u64
        } else if 'A' <= c && c <= 'F' {
            (c as u32 - 'A' as u32 + 10) as u64
        } else {
            proof {
                assert(digits.take(i - start + 1) =~= s@.subrange(start as int, i + 1));
                assert(s@.subrange(start as int, i + 1).drop_last() =~= s@.subrange(
                    start as int,
                    i as int,
                ));
                assert(s@.subrange(start as int, i + 1).last() == c);
                assert(hex_value(c).is_none());
                assert(hex_number(digits.take(i - start + 1)).is_none());
                lemma_hex_number_prefix(digits, i - start + 1);
                assert(digits.len() > 0);
                assert(hex_u32(t).is_none());
            }
            return None;
        };
        proof {
            assert(s@.subrange(start as int, i + 1).drop_last() =~= s@.subrange(
                start as int,
                i as int,
            ));
            assert(s@.subrange(start as int, i + 1).last() == c);
            assert(hex_value(c) == Some(d as nat));
            assert(hex_number(s@.subrange(start as int, i + 1)) == Some((value * 16 + d) as nat));
            assert(digits.take(i - start + 1) =~= s@.subrange(start as int, i + 1));
        }
        let next = value * 16 + d;
        if next > u32::MAX as u64 {
            proof {
                lemma_hex_number_grows(digits, i - start + 1);
                assert(digits.take(digits.len() as int) =~= digits);
                assert(hex_u32(t).is_none());
            }
            return None;
        }
        value = next;
        i = i + 1;
    }
    proof {
        assert(s@.subrange(start as int, s@.len() as int) =~= digits);
    }
    char_from_u32(value as u32)
}

proof fn lemma_hex_number_prefix(s: Seq<char>, k: int)
    requires
        0 <= k <= s.len(),
        hex_number(s.take(k)).is_none(),
    ensures
        hex_number(s).is_none(),
    decreases s.len() - k,
{
    if k < s.len() {
        assert(s.take(k + 1).drop_last() =~= s.take(k));
        lemma_hex_number_prefix(s, k + 1);
    } else {
        assert(s.take(k) =~= s);
    }
}

proof fn lemma_hex_number_grows(s: Seq<char>, k: int)
    requires
        0 <= k <= s.len(),
        hex_number(s.take(k)) matches Some(v) && v > u32::MAX,
    ensures
        hex_number(s) matches Some(v) ==> v > u32::MAX,
    decreases s.len() - k,
{
    if k < s.len() {
        assert(s.take(k + 1).drop_last() =~= s.take(k));
        if hex_number(s.take(k + 1)).is_none() {
            lemma_hex_number_prefix(s, k + 1);
        } else {
            lemma_hex_number_grows(s, k + 1);
        }
    } else {
        assert(s.take(k) =~= s);
    }
}

} // verus!
