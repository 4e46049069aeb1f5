//! Text primitives the protocol code relies on: UTF-8 decoding, string
//! building, Unicode whitespace trimming, decimal and hexadecimal digits.
use vstd::prelude::*;
use vstd::utf8::{decode_utf8, valid_utf8};

verus! {

/// Unicode `White_Space` characters, the set that `str::trim` removes.
pub open spec fn is_white_space(c: char) -> bool {
    let u = c as u32;
    (0x09 <= u && u <= 0x0D) || u == 0x20 || u == 0x85 || u == 0xA0 || u == 0x1680 || (0x2000
        <= u && u <= 0x200A) || u == 0x2028 || u == 0x2029 || u == 0x202F || u == 0x205F || u
        == 0x3000
}

/// `s` without its leading white space.
pub open spec fn trim_start_ws(s: Seq<char>) -> Seq<char>
    decreases s.len(),
{
    if s.len() > 0 && is_white_space(s[0]) {
        trim_start_ws(s.drop_first())
    } else {
        s
    }
}

/// `s` without its trailing white space.
pub open spec fn trim_end_ws(s: Seq<char>) -> Seq<char>
    decreases s.len(),
{
    if s.len() > 0 && is_white_space(s.last()) {
        trim_end_ws(s.drop_last())
    } else {
        s
    }
}

/// `s` without leading and trailing white space.
pub open spec fn trim_ws(s: Seq<char>) -> Seq<char> {
    trim_end_ws(trim_start_ws(s))
}

/// `core::str::from_utf8`. Its documentation states that it fails exactly
/// when the bytes are not valid UTF-8 and otherwise borrows them as the
/// string they encode; the contract says so over vstd's UTF-8 definitions.
#[verifier::external_body]
pub(crate) fn str_from_utf8<'a>(bytes: &'a [u8]) -> (r: Option<&'a str>)
    ensures
        r is Some <==> valid_utf8(bytes@),
        r matches Some(s) ==> s@ == decode_utf8(bytes@),
{
    core::str::from_utf8(bytes).ok()
}

/// `String::push`: appends one character to the end of the string.
#[verifier::external_body]
pub(crate) fn push_char(s: &mut String, c: char)
    ensures
        final(s)@ == old(s)@.push(c),
{
    s.push(c)
}

/// `str::trim`: the documentation states that it removes leading and
/// trailing characters with the Unicode `White_Space` property.
#[verifier::external_body]
pub(crate) fn trim_whitespace<'a>(s: &'a str) -> (r: &'a str)
    ensures
        r@ == trim_ws(s@),
{
    s.trim()
}


/// The ASCII digit for `d` (0-9).
pub open spec fn decimal_digit(d: int) -> char {
    (('0' as int) + d) as char
}

/// The decimal representation of `n`, without leading zeros.
pub open spec fn decimal_text(n: nat) -> Seq<char>
    decreases n,
{
    if n < 10 {
        seq![decimal_digit(n as int)]
    } else {
        decimal_text(n / 10).push(decimal_digit((n % 10) as int))
    }
}

/// Appends the decimal representation of `n`.
pub fn push_decimal(s: &mut String, n: u32)
    ensures
        final(s)@ == old(s)@ + decimal_text(n as nat),
    decreases n,
{
    if n >= 10 {
        push_decimal(s, n / 10);
    }
    let d = (n % 10) as u8;
    push_char(s, (48u8 + d) as char);
    assert(decimal_digit((n % 10) as int) == ((48u8 + d) as char));
}

/// The lowercase hexadecimal digit for `d` (0-15).
pub open spec fn hex_digit(d: int) -> char {
    if d < 10 {
        (('0' as int) + d) as char
    } else {
        (('a' as int) + d - 10) as char
    }
}

/// The lowercase hexadecimal digit for `d` (0-15).
pub fn hex_digit_char(d: u8) -> (c: char)
    requires
        d < 16,
    ensures
        c == hex_digit(d as int),
{
    if d < 10 {
        (48u8 + d) as char
    } else {
        (97u8 + d - 10) as char
    }
}

/// The lowercase hexadecimal text of `bytes`, two digits per byte, high
/// nibble first.
pub open spec fn hex_text(bytes: Seq<u8>) -> Seq<char>
    decreases bytes.len(),
{
    if bytes.len() == 0 {
        seq![]
    } else {
        hex_text(bytes.drop_last()).push(hex_digit((bytes.last() / 16) as int)).push(
            hex_digit((bytes.last() % 16) as int),
        )
    }
}

/// Appends the lowercase hexadecimal text of `bytes`.
pub fn push_hex(s: &mut String, bytes: &[u8])
    ensures
        final(s)@ == old(s)@ + hex_text(bytes@),
{
    let ghost start = s@;
    let mut i: usize = 0;
    while i < bytes.len()
        invariant
            i <= bytes@.len(),
            s@ == start + hex_text(bytes@.subrange(0, i as int)),
        decreases bytes@.len() - i,
    {
        let b = bytes[i];
        push_char(s, hex_digit_char(b / 16));
        push_char(s, hex_digit_char(b % 16));
        assert(bytes@.subrange(0, i + 1).drop_last() == bytes@.subrange(0, i as int));
        i += 1;
    }
    assert(bytes@.subrange(0, bytes@.len() as int) == bytes@);
}


/// The XML text for one character: the five predefined entities for
/// `&`, `<`, `>`, `"` and `'`, the character itself otherwise.
pub open spec fn xml_char(c: char) -> Seq<char> {
    if c == '&' {
        seq!['&', 'a', 'm', 'p', ';']
    } else if c == '<' {
        seq!['&', 'l', 't', ';']
    } else if c == '>' {
        seq!['&', 'g', 't', ';']
    } else if c == '"' {
        seq!['&', 'q', 'u', 'o', 't', ';']
    } else if c == '\'' {
        seq!['&', 'a', 'p', 'o', 's', ';']
    } else {
        seq![c]
    }
}

/// `s` with every character replaced by its XML text.
pub open spec fn xml_escaped(s: Seq<char>) -> Seq<char>
    decreases s.len(),
{
    if s.len() == 0 {
        seq![]
    } else {
        xml_escaped(s.drop_last()) + xml_char(s.last())
    }
}

fn push_xml_char(out: &mut String, c: char)
    ensures
        final(out)@ == old(out)@ + xml_char(c),
{
    let ghost start = out@;
    if c == '&' {
        push_char(out, '&');
        push_char(out, 'a');
        push_char(out, 'm');
        push_char(out, 'p');
        push_char(out, ';');
    } else if c == '<' {
        push_char(out, '&');
        push_char(out, 'l');
        push_char(out, 't');
        push_char(out, ';');
    } else if c == '>' {
        push_char(out, '&');
        push_char(out, 'g');
        push_char(out, 't');
        push_char(out, ';');
    } else if c == '"' {
        push_char(out, '&');
        push_char(out, 'q');
        push_char(out, 'u');
        push_char(out, 'o');
        push_char(out, 't');
        push_char(out, ';');
    } else if c == '\'' {
        push_char(out, '&');
        push_char(out, 'a');
        push_char(out, 'p');
        push_char(out, 'o');
        push_char(out, 's');
        push_char(out, ';');
    } else {
        push_char(out, c);
    }
    assert(out@ =~= start + xml_char(c));
}

/// Escapes text for an XML property list: `&`, `<`, `>`, `"` and `'`
/// become their predefined entities.
pub fn xml_escape(value: &str) -> (escaped: String)
    ensures
        escaped@ == xml_escaped(value@),
{
    let mut out = String::new();
    for c in it: value.chars()
        invariant
            it.seq() == value@,
            out@ == xml_escaped(value@.subrange(0, it.index() as int)),
    {
        let ghost before = value@.subrange(0, it.index() as int);
        push_xml_char(&mut out, c);
        assert(value@.subrange(0, it.index() + 1).drop_last() == before);
    }
    assert(value@.subrange(0, value@.len() as int) == value@);
    out
}

/// The UTF-16 code units of one character.
pub open spec fn utf16_units(c: char) -> Seq<u16> {
    let u = c as u32;
    if u < 0x10000 {
        seq![u as u16]
    } else {
        seq![(0xD800 + (u - 0x10000) / 0x400) as u16, (0xDC00 + (u - 0x10000) % 0x400) as u16]
    }
}

/// The UTF-16 encoding of `s`.
pub open spec fn utf16_text(s: Seq<char>) -> Seq<u16>
    decreases s.len(),
{
    if s.len() == 0 {
        seq![]
    } else {
        utf16_text(s.drop_last()) + utf16_units(s.last())
    }
}

/// The NUL-terminated UTF-16 text that Windows APIs take.
pub fn wide(value: &str) -> (units: Vec<u16>)
    ensures
        units@ == utf16_text(value@).push(0u16),
{
    let mut units: Vec<u16> = Vec::new();
    for c in it: value.chars()
        invariant
            it.seq() == value@,
            units@ == utf16_text(value@.subrange(0, it.index() as int)),
    {
        let ghost before = value@.subrange(0, it.index() as int);
        let ghost start = units@;
        let u = c as u32;
        proof {
            vstd::utf8::char_is_scalar(c);
        }
        if u < 0x10000 {
            units.push(u as u16);
        } else {
            let v = u - 0x10000;
            units.push((0xD800 + v / 0x400) as u16);
            units.push((0xDC00 + v % 0x400) as u16);
        }
        assert(units@ =~= start + utf16_units(c));
        assert(value@.subrange(0, it.index() + 1).drop_last() == before);
    }
    assert(value@.subrange(0, value@.len() as int) == value@);
    units.push(0);
    units
}

} // verus!
