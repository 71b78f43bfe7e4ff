//! The code-unit encoding: text as UTF-16 code units closed by one zero unit,
//! and the inverse transcoding.

use vstd::prelude::*;

verus! {

/// `char::from_u32` of the standard library: the character with the given
/// code, if the code is a Unicode scalar value, and nothing otherwise.
pub assume_specification[ char::from_u32 ](i: u32) -> (r: Option<char>)
    ensures
        r == (if i < 0xD800 || (0xE000 <= i && i <= 0x10FFFF) {
            Some(i as char)
        } else {
            None::<char>
        }),
;

/// The code of a character is a Unicode scalar value: at most 0x10FFFF and
/// no surrogate.
pub proof fn lemma_char_range(c: char)
    ensures
        0 <= c as int <= 0x10FFFF,
        !(0xD800 <= c as int <= 0xDFFF),
{
}

/// The code of a character.
fn char_code(c: char) -> (code: u32)
    ensures
        code as int == c as int,
        code < 0xD800 || (0xE000 <= code && code <= 0x10FFFF),
{
    c as u32
}

/// Whether a unit is the first of a surrogate pair.
pub open spec fn is_high_surrogate(unit: u16) -> bool {
    0xD800 <= unit <= 0xDBFF
}

/// Whether a unit is the second of a surrogate pair.
pub open spec fn is_low_surrogate(unit: u16) -> bool {
    0xDC00 <= unit <= 0xDFFF
}

/// Whether a unit is a surrogate: no character has it as its code.
pub open spec fn is_surrogate(unit: u16) -> bool {
    0xD800 <= unit <= 0xDFFF
}

/// The code units of one character: the code itself inside the Basic
/// Multilingual Plane, a surrogate pair above it.
pub open spec fn char_units(c: char) -> Seq<u16> {
    let code = c as int;
    if code < 0x10000 {
        seq![code as u16]
    } else {
        seq![
            (0xD800 + (code - 0x10000) / 0x400) as u16,
            (0xDC00 + (code - 0x10000) % 0x400) as u16,
        ]
    }
}

/// The UTF-16 code units of a text, without terminator.
pub open spec fn utf16_units(text: Seq<char>) -> Seq<u16>
    decreases text.len(),
{
    if text.len() == 0 {
        Seq::empty()
    } else {
        utf16_units(text.drop_last()) + char_units(text.last())
    }
}

/// The code-unit encoding of a text: its UTF-16 code units and one zero unit.
pub open spec fn terminated_units(text: Seq<char>) -> Seq<u16> {
    utf16_units(text).push(0u16)
}

/// The character that a surrogate pair stands for.
pub open spec fn pair_char(high: u16, low: u16) -> char {
    (0x10000 + (high - 0xD800) * 0x400 + (low - 0xDC00)) as char
}

/// The text that a sequence of code units stands for, if the sequence is
/// well-formed UTF-16: no surrogate stands alone or out of order.
pub open spec fn decode_units(units: Seq<u16>) -> Option<Seq<char>>
    decreases units.len(),
{
    if units.len() == 0 {
        Some(Seq::empty())
    } else if !is_surrogate(units[0]) {
        match decode_units(units.skip(1)) {
            Some(rest) => Some(seq![units[0] as char] + rest),
            None => None,
        }
    } else if is_high_surrogate(units[0]) && units.len() >= 2 && is_low_surrogate(units[1]) {
        match decode_units(units.skip(2)) {
            Some(rest) => Some(seq![pair_char(units[0], units[1])] + rest),
            None => None,
        }
    } else {
        None
    }
}

/// The text of a terminated buffer: the buffer must end in a zero unit, and
/// what stands before it must be well-formed.
pub open spec fn decode_terminated(units: Seq<u16>) -> Option<Seq<char>> {
    if units.len() > 0 && units.last() == 0 {
        decode_units(units.drop_last())
    } else {
        None
    }
}

/// The units of a text followed by another are the units of the first
/// followed by those of the second.
pub proof fn lemma_units_concat(a: Seq<char>, b: Seq<char>)
    ensures
        utf16_units(a + b) == utf16_units(a) + utf16_units(b),
    decreases b.len(),
{
    if b.len() == 0 {
        assert(a + b =~= a);
        assert(utf16_units(a) + utf16_units(b) =~= utf16_units(a));
    } else {
        lemma_units_concat(a, b.drop_last());
        assert((a + b).drop_last() =~= a + b.drop_last());
        assert((a + b).last() == b.last());
        assert(utf16_units(a + b) =~= utf16_units(a) + utf16_units(b));
    }
}

/// The units of a text of one character are the units of that character.
pub proof fn lemma_units_single(c: char)
    ensures
        utf16_units(seq![c]) == char_units(c),
{
    let one = seq![c];
    assert(one.drop_last() =~= Seq::<char>::empty());
    assert(utf16_units(one.drop_last()) =~= Seq::<u16>::empty());
    assert(one.last() == c);
    assert(utf16_units(one) =~= char_units(c));
}

/// Decoding the units of one character, followed by anything, gives that
/// character followed by what the rest decodes to.
pub proof fn lemma_decode_first(c: char, rest: Seq<u16>)
    ensures
        decode_units(char_units(c) + rest) == match decode_units(rest) {
            Some(tail) => Some(seq![c] + tail),
            None => None,
        },
{
    let units = char_units(c) + rest;
    let code = c as int;
    if code < 0x10000 {
        assert(units[0] == code as u16);
        assert(!is_surrogate(units[0]));
        assert(units[0] as char == c);
        assert(units.skip(1) =~= rest);
    } else {
        let high = units[0];
        let low = units[1];
        assert(high == (0xD800 + (code - 0x10000) / 0x400) as u16);
        assert(low == (0xDC00 + (code - 0x10000) % 0x400) as u16);
        assert(is_high_surrogate(high));
        assert(is_low_surrogate(low));
        assert(pair_char(high, low) == c);
        assert(units.skip(2) =~= rest);
    }
}

/// Encoding a text and decoding the units gives the text back.
pub proof fn lemma_units_round_trip(text: Seq<char>)
    ensures
        decode_units(utf16_units(text)) == Some(text),
    decreases text.len(),
{
    if text.len() == 0 {
        assert(decode_units(utf16_units(text)) == Some(Seq::<char>::empty()));
        assert(text =~= Seq::<char>::empty());
    } else {
        let first = text[0];
        let tail = text.drop_first();
        assert(text =~= seq![first] + tail);
        lemma_units_concat(seq![first], tail);
        lemma_units_single(first);
        lemma_units_round_trip(tail);
        lemma_decode_first(first, utf16_units(tail));
    }
}

/// Decoding accepts nothing but encodings: units that decode to a text are
/// the units of that text.
pub proof fn lemma_decoded_units(units: Seq<u16>)
    requires
        decode_units(units) is Some,
    ensures
        utf16_units(decode_units(units)->0) == units,
    decreases units.len(),
{
    if units.len() == 0 {
        assert(utf16_units(Seq::<char>::empty()) =~= Seq::<u16>::empty());
        assert(units =~= Seq::<u16>::empty());
    } else if !is_surrogate(units[0]) {
        let c = units[0] as char;
        let rest = units.skip(1);
        lemma_decoded_units(rest);
        let tail = decode_units(rest)->0;
        lemma_units_concat(seq![c], tail);
        lemma_units_single(c);
        assert(c as int == units[0] as int);
        assert(char_units(c) =~= seq![units[0]]);
        assert(units =~= seq![units[0]] + rest);
    } else {
        let high = units[0];
        let low = units[1];
        let c = pair_char(high, low);
        let rest = units.skip(2);
        lemma_decoded_units(rest);
        let tail = decode_units(rest)->0;
        lemma_units_concat(seq![c], tail);
        lemma_units_single(c);
        let code = 0x10000 + (high - 0xD800) * 0x400 + (low - 0xDC00);
        assert(c as int == code);
        assert((code - 0x10000) / 0x400 == high - 0xD800);
        assert((code - 0x10000) % 0x400 == low - 0xDC00);
        assert(char_units(c) =~= seq![high, low]);
        assert(units =~= seq![high, low] + rest);
    }
}

/// The code-unit encoding loses nothing: the terminated buffer of a text
/// decodes to that text, whatever the text holds.
pub proof fn lemma_code_units_round_trip(text: Seq<char>)
    ensures
        decode_terminated(terminated_units(text)) == Some(text),
{
    lemma_units_round_trip(text);
    assert(terminated_units(text).drop_last() =~= utf16_units(text));
}

/// A zero unit stands in the units of a text exactly where the text holds a
/// NUL character: a text without NUL has no zero unit.
pub proof fn lemma_zero_unit_is_nul(text: Seq<char>)
    ensures
        utf16_units(text).contains(0u16) <==> text.contains('\0'),
    decreases text.len(),
{
    if text.len() == 0 {
    } else {
        let front = text.drop_last();
        let last = text.last();
        lemma_zero_unit_is_nul(front);
        let units = utf16_units(text);
        let front_units = utf16_units(front);
        let last_units = char_units(last);
        assert(units == front_units + last_units);
        if text.contains('\0') {
            let j = choose|j: int| 0 <= j < text.len() && text[j] == '\0';
            if j < text.len() - 1 {
                assert(front[j] == '\0');
                assert(front.contains('\0'));
                let k = choose|k: int| 0 <= k < front_units.len() && front_units[k] == 0u16;
                assert(units[k] == 0u16);
            } else {
                assert(last == '\0');
                assert(last_units[0] == 0u16);
                assert(units[front_units.len() as int] == 0u16);
            }
            assert(units.contains(0u16));
        }
        if units.contains(0u16) {
            let k = choose|k: int| 0 <= k < units.len() && units[k] == 0u16;
            if k < front_units.len() {
                assert(front_units[k] == 0u16);
                assert(front_units.contains(0u16));
                let j = choose|j: int| 0 <= j < front.len() && front[j] == '\0';
                assert(text[j] == '\0');
            } else {
                assert(last_units[k - front_units.len()] == 0u16);
                lemma_char_range(last);
                assert(last as int == 0);
                assert('\0' as int == 0);
                assert(last == '\0');
                assert(text[text.len() - 1] == '\0');
            }
            assert(text.contains('\0'));
        }
    }
}

/// The terminated buffer ends in a zero unit, and in a text without NUL that
/// unit is the only one.
pub proof fn lemma_single_terminator(text: Seq<char>)
    ensures
        terminated_units(text).len() == utf16_units(text).len() + 1,
        terminated_units(text).last() == 0,
        !text.contains('\0') ==> forall|i: int|
            0 <= i < terminated_units(text).len() - 1 ==> terminated_units(text)[i] != 0,
{
    lemma_zero_unit_is_nul(text);
    if !text.contains('\0') {
        assert forall|i: int| 0 <= i < terminated_units(text).len() - 1 implies terminated_units(
            text,
        )[i] != 0 by {
            if terminated_units(text)[i] == 0 {
                assert(utf16_units(text)[i] == 0u16);
                assert(utf16_units(text).contains(0u16));
            }
        }
    }
}

/// Encodes a text as UTF-16 code units and closes the buffer with one zero
/// unit. The empty text gives the lone zero unit.
pub fn generate_utf16_data(s: &str) -> (data: Vec<u16>)
    ensures
        data@ == terminated_units(s@),
        data@.len() >= 1,
        data@.last() == 0,
        !s@.contains('\0') ==> forall|i: int| 0 <= i < data@.len() - 1 ==> data@[i] != 0,
{
    let mut data: Vec<u16> = Vec::new();
    for c in it: s.chars()
        invariant
            it.seq() == s@,
            data@ == utf16_units(it.seq().take(it.index() as int)),
    {
        let ghost before = it.seq().take(it.index() as int);
        let ghost after = it.seq().take(it.index() + 1);
        proof {
            assert(after.drop_last() =~= before);
            assert(after.last() == c);
        }
        let code: u32 = char_code(c);
        if code < 0x10000 {
            data.push(code as u16);
            assert(char_units(c) =~= seq![code as u16]);
            assert(data@ =~= utf16_units(before) + char_units(c));
        } else {
            let offset: u32 = code - 0x10000;
            data.push((0xD800 + offset / 0x400) as u16);
            data.push((0xDC00 + offset % 0x400) as u16);
            assert(data@ =~= utf16_units(before) + char_units(c));
        }
    }
    proof {
        assert(s@.take(s@.len() as int) =~= s@);
        lemma_single_terminator(s@);
    }
    data.push(0);
    data
}

/// Decodes the leading `len` units of `units` as UTF-16.
fn decode_prefix(units: &[u16], len: usize) -> (text: Option<String>)
    requires
        len <= units@.len(),
    ensures
        match decode_units(units@.take(len as int)) {
            Some(t) => text matches Some(s) && s@ == t,
            None => text is None,
        },
{
    let ghost all = units@.take(len as int);
    let mut out = String::new();
    let mut i: usize = 0;
    proof {
        assert(all.skip(0) =~= all);
        match decode_units(all) {
            Some(rest) => {
                assert(out@ + rest =~= rest);
            },
            None => {},
        }
    }
    while i < len
        invariant
            len <= units@.len(),
            all == units@.take(len as int),
            i <= len,
            decode_units(all) == match decode_units(all.skip(i as int)) {
                Some(rest) => Some(out@ + rest),
                None => None,
            },
        decreases len - i,
    {
        let ghost rest = all.skip(i as int);
        let unit: u16 = units[i];
        assert(rest[0] == unit);
        if unit < 0xD800 || unit > 0xDFFF {
            let c = match char::from_u32(unit as u32) {
                Some(c) => c,
                None => { return None; },
            };
            proof {
                assert(rest.skip(1) =~= all.skip(i as int + 1));
                match decode_units(rest.skip(1)) {
                    Some(tail) => {
                        assert(out@.push(c) + tail =~= out@ + (seq![c] + tail));
                    },
                    None => {},
                }
            }
            out.push(c);
            i += 1;
        } else if unit <= 0xDBFF && i + 1 < len {
            let low: u16 = units[i + 1];
            assert(rest[1] == low);
            if low < 0xDC00 || low > 0xDFFF {
                return None;
            }
            let code: u32 = 0x10000 + (unit as u32 - 0xD800) * 0x400 + (low as u32 - 0xDC00);
            let c = match char::from_u32(code) {
                Some(c) => c,
                None => { return None; },
            };
            proof {
                assert(c == pair_char(unit, low));
                assert(rest.skip(2) =~= all.skip(i as int + 2));
                match decode_units(rest.skip(2)) {
                    Some(tail) => {
                        assert(out@.push(c) + tail =~= out@ + (seq![c] + tail));
                    },
                    None => {},
                }
            }
            out.push(c);
            i += 2;
        } else {
            return None;
        }
    }
    proof {
        assert(all.skip(len as int) =~= Seq::<u16>::empty());
        assert(out@ + Seq::<char>::empty() =~= out@);
    }
    Some(out)
}

/// The inverse transcoding: the text of a buffer that ends in a zero unit.
/// Nothing is returned for a buffer without that terminator, or one that
/// holds a surrogate alone or out of order.
pub fn decode_utf16(units: &[u16]) -> (text: Option<String>)
    ensures
        match decode_terminated(units@) {
            Some(t) => text matches Some(s) && s@ == t,
            None => text is None,
        },
{
    let n: usize = units.len();
    if n == 0 || units[n - 1] != 0 {
        return None;
    }
    assert(units@.take(n as int - 1) =~= units@.drop_last());
    decode_prefix(units, n - 1)
}

} // verus!
