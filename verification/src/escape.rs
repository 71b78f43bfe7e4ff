//! The literal-string encoding: text as the content of a string literal, with
//! the characters escaped that would otherwise end or break the literal.

use vstd::prelude::*;
use crate::text::to_chars;

verus! {

/// What stands in a literal for one character: a backslash and a letter for
/// the backslash, the double quote, the newline, the carriage return, the tab
/// and NUL; the character itself otherwise.
pub open spec fn escape_char(c: char) -> Seq<char> {
    if c == '\\' {
        seq!['\\', '\\']
    } else if c == '"' {
        seq!['\\', '"']
    } else if c == '\n' {
        seq!['\\', 'n']
    } else if c == '\r' {
        seq!['\\', 'r']
    } else if c == '\t' {
        seq!['\\', 't']
    } else if c == '\0' {
        seq!['\\', '0']
    } else {
        seq![c]
    }
}

/// The escaped form of a text.
pub open spec fn escaped(text: Seq<char>) -> Seq<char>
    decreases text.len(),
{
    if text.len() == 0 {
        Seq::empty()
    } else {
        escaped(text.drop_last()) + escape_char(text.last())
    }
}

/// The string literal of a text: its escaped form between double quotes.
pub open spec fn string_literal(text: Seq<char>) -> Seq<char> {
    seq!['"'] + escaped(text) + seq!['"']
}

/// The character that an escape stands for, given the letter that follows the
/// backslash.
pub open spec fn escape_meaning(letter: char) -> Option<char> {
    if letter == '\\' {
        Some('\\')
    } else if letter == '"' {
        Some('"')
    } else if letter == 'n' {
        Some('\n')
    } else if letter == 'r' {
        Some('\r')
    } else if letter == 't' {
        Some('\t')
    } else if letter == '0' {
        Some('\0')
    } else {
        None
    }
}

/// The text that an escaped form stands for. There is none where a backslash
/// is followed by nothing or by an unknown letter, or where a double quote
/// stands without a backslash.
pub open spec fn unescaped(literal: Seq<char>) -> Option<Seq<char>>
    decreases literal.len(),
{
    if literal.len() == 0 {
        Some(Seq::empty())
    } else if literal[0] == '\\' {
        if literal.len() >= 2 && escape_meaning(literal[1]) is Some {
            match unescaped(literal.skip(2)) {
                Some(rest) => Some(seq![escape_meaning(literal[1])->0] + rest),
                None => None,
            }
        } else {
            None
        }
    } else if literal[0] == '"' {
        None
    } else {
        match unescaped(literal.skip(1)) {
            Some(rest) => Some(seq![literal[0]] + rest),
            None => None,
        }
    }
}

/// The escaped form of a text followed by another is the escaped form of the
/// first followed by that of the second.
pub proof fn lemma_escaped_concat(a: Seq<char>, b: Seq<char>)
    ensures
        escaped(a + b) == escaped(a) + escaped(b),
    decreases b.len(),
{
    if b.len() == 0 {
        assert(a + b =~= a);
        assert(escaped(a) + escaped(b) =~= escaped(a));
    } else {
        lemma_escaped_concat(a, b.drop_last());
        assert((a + b).drop_last() =~= a + b.drop_last());
        assert((a + b).last() == b.last());
        assert(escaped(a + b) =~= escaped(a) + escaped(b));
    }
}

/// The escaped form of a text of one character.
pub proof fn lemma_escaped_single(c: char)
    ensures
        escaped(seq![c]) == escape_char(c),
{
    let one = seq![c];
    assert(one.drop_last() =~= Seq::<char>::empty());
    assert(escaped(one.drop_last()) =~= Seq::<char>::empty());
    assert(one.last() == c);
    assert(escaped(one) =~= escape_char(c));
}

/// Reading back the escaped form of one character, followed by anything,
/// gives that character followed by what the rest stands for.
pub proof fn lemma_unescape_first(c: char, rest: Seq<char>)
    ensures
        unescaped(escape_char(c) + rest) == match unescaped(rest) {
            Some(tail) => Some(seq![c] + tail),
            None => None,
        },
{
    let literal = escape_char(c) + rest;
    if escape_char(c).len() == 2 {
        assert(literal[0] == '\\');
        assert(escape_meaning(literal[1]) == Some(c));
        assert(literal.skip(2) =~= rest);
    } else {
        assert(literal[0] == c);
        assert(literal.skip(1) =~= rest);
    }
}

/// The literal-string encoding loses nothing: the escaped form of a text
/// reads back as that text, whatever backslashes, quotes and newlines it
/// holds.
pub proof fn lemma_escape_round_trip(text: Seq<char>)
    ensures
        unescaped(escaped(text)) == Some(text),
    decreases text.len(),
{
    if text.len() == 0 {
        assert(text =~= Seq::<char>::empty());
        assert(escaped(text) =~= Seq::<char>::empty());
    } else {
        let first = text[0];
        let tail = text.drop_first();
        assert(text =~= seq![first] + tail);
        lemma_escaped_concat(seq![first], tail);
        lemma_escaped_single(first);
        lemma_escape_round_trip(tail);
        lemma_unescape_first(first, escaped(tail));
    }
}

/// The escaped form holds neither a newline nor a carriage return: the
/// literal stays on one line.
pub proof fn lemma_escaped_has_no_newline(text: Seq<char>)
    ensures
        !escaped(text).contains('\n'),
        !escaped(text).contains('\r'),
    decreases text.len(),
{
    if text.len() > 0 {
        lemma_escaped_has_no_newline(text.drop_last());
        let front = escaped(text.drop_last());
        let last = escape_char(text.last());
        assert forall|i: int| 0 <= i < escaped(text).len() implies escaped(text)[i] != '\n'
            && escaped(text)[i] != '\r' by {
            if i < front.len() {
                assert(front[i] == escaped(text)[i]);
                if front[i] == '\n' {
                    assert(front.contains('\n'));
                }
                if front[i] == '\r' {
                    assert(front.contains('\r'));
                }
            } else {
                assert(escaped(text)[i] == last[i - front.len()]);
            }
        }
    }
}

/// Appends the escaped form of a text to `out`.
pub fn push_escaped(out: &mut String, text: &str)
    ensures
        final(out)@ == old(out)@ + escaped(text@),
{
    assert(out@ + escaped(Seq::<char>::empty()) =~= out@);
    for c in it: text.chars()
        invariant
            it.seq() == text@,
            out@ == old(out)@ + escaped(it.seq().take(it.index() as int)),
    {
        let ghost before = it.seq().take(it.index() as int);
        let ghost after = it.seq().take(it.index() + 1);
        let ghost start = out@;
        proof {
            assert(after.drop_last() =~= before);
            assert(after.last() == c);
        }
        if c == '\\' {
            out.push('\\');
            out.push('\\');
        } else if c == '"' {
            out.push('\\');
            out.push('"');
        } else if c == '\n' {
            out.push('\\');
            out.push('n');
        } else if c == '\r' {
            out.push('\\');
            out.push('r');
        } else if c == '\t' {
            out.push('\\');
            out.push('t');
        } else if c == '\0' {
            out.push('\\');
            out.push('0');
        } else {
            out.push(c);
        }
        assert(out@ =~= start + escape_char(c));
        assert(out@ =~= old(out)@ + escaped(after));
    }
    assert(text@.take(text@.len() as int) =~= text@);
}

/// The escaped form of a text: backslash, double quote, newline, carriage
/// return, tab and NUL are written as a backslash and a letter, everything
/// else as it stands.
pub fn escape(text: &str) -> (literal: String)
    ensures
        literal@ == escaped(text@),
{
    let mut out = String::new();
    push_escaped(&mut out, text);
    assert(Seq::<char>::empty() + escaped(text@) =~= escaped(text@));
    out
}

/// Reads an escaped form back: the text it stands for, or nothing where it is
/// not the escaped form of any text.
pub fn unescape(literal: &str) -> (text: Option<String>)
    ensures
        match unescaped(literal@) {
            Some(t) => text matches Some(s) && s@ == t,
            None => text is None,
        },
{
    let chars = to_chars(literal);
    let n: usize = chars.len();
    let mut out = String::new();
    let mut i: usize = 0;
    proof {
        assert(chars@.skip(0) =~= chars@);
        match unescaped(chars@) {
            Some(rest) => {
                assert(out@ + rest =~= rest);
            },
            None => {},
        }
    }
    while i < n
        invariant
            n == chars@.len(),
            chars@ == literal@,
            i <= n,
            unescaped(chars@) == match unescaped(chars@.skip(i as int)) {
                Some(rest) => Some(out@ + rest),
                None => None,
            },
        decreases n - i,
    {
        let ghost rest = chars@.skip(i as int);
        let c = chars[i];
        assert(rest[0] == c);
        if c == '\\' {
            if i + 1 >= n {
                return None;
            }
            let letter = chars[i + 1];
            assert(rest[1] == letter);
            let meaning = if letter == '\\' {
                '\\'
            } else if letter == '"' {
                '"'
            } else if letter == 'n' {
                '\n'
            } else if letter == 'r' {
                '\r'
            } else if letter == 't' {
                '\t'
            } else if letter == '0' {
                '\0'
            } else {
                return None;
            };
            proof {
                assert(escape_meaning(letter) == Some(meaning));
                assert(rest.skip(2) =~= chars@.skip(i as int + 2));
                match unescaped(rest.skip(2)) {
                    Some(tail) => {
                        assert(out@.push(meaning) + tail =~= out@ + (seq![meaning] + tail));
                    },
                    None => {},
                }
            }
            out.push(meaning);
            i += 2;
        } else if c == '"' {
            return None;
        } else {
            proof {
                assert(rest.skip(1) =~= chars@.skip(i as int + 1));
                match unescaped(rest.skip(1)) {
                    Some(tail) => {
                        assert(out@.push(c) + tail =~= out@ + (seq![c] + tail));
                    },
                    None => {},
                }
            }
            out.push(c);
            i += 1;
        }
    }
    proof {
        assert(chars@.skip(n as int) =~= Seq::<char>::empty());
        assert(out@ + Seq::<char>::empty() =~= out@);
    }
    Some(out)
}

} // verus!
