//! Bracketed character classes of ANTLR4 lexer rules, such as `[a-z\n]`.
use vstd::prelude::*;
use vstd::utf8::is_scalar;

use crate::ast::Operation;
use crate::unicode::{char_from_u32, chars_of};

verus! {

/// Why a character class could not be read.
#[derive(Debug, Clone, Copy, PartialEq, Eq, Structural)]
pub enum CharsetError {
    /// The input ended inside the class or inside an escape sequence.
    UnexpectedEnd,
    /// The class did not start with `[`; holds what it started with.
    ExpectedOpenBracket(char),
    /// A backslash followed by a letter that names no escape.
    InvalidEscape(char),
    /// `\u` not followed by four hexadecimal digits.
    InvalidUnicodeEscape,
    /// `\u` followed by a surrogate, which is no character.
    InvalidCodePoint(u32),
}

pub open spec fn is_hex_digit(c: char) -> bool {
    ||| ('0' <= c && c <= '9')
    ||| ('a' <= c && c <= 'f')
    ||| ('A' <= c && c <= 'F')
}

pub open spec fn hex_value(c: char) -> int {
    if '0' <= c && c <= '9' {
        c as int - '0' as int
    } else if 'a' <= c && c <= 'f' {
        c as int - 'a' as int + 10
    } else {
        c as int - 'A' as int + 10
    }
}

/// The number written by four hexadecimal digits.
pub open spec fn hex4(d: Seq<char>) -> u32 {
    (hex_value(d[0]) * 4096 + hex_value(d[1]) * 256 + hex_value(d[2]) * 16 + hex_value(d[3])) as u32
}

/// The character that a one-letter escape `\c` stands for.
pub open spec fn escaped(c: char) -> Option<char> {
    if c == 'n' {
        Some('\n')
    } else if c == 'r' {
        Some('\r')
    } else if c == 't' {
        Some('\t')
    } else if c == 'b' {
        Some('\x08')
    } else if c == 'f' {
        Some('\x0C')
    } else if c == ']' || c == '\\' || c == '-' {
        Some(c)
    } else {
        None
    }
}

/// The character written by the escape sequence whose backslash comes just
/// before `s`, and how many characters of `s` it takes.
pub open spec fn unescaped(s: Seq<char>) -> Result<(char, nat), CharsetError> {
    if s.len() == 0 {
        Err(CharsetError::UnexpectedEnd)
    } else if s[0] == 'u' {
        if s.len() < 5 {
            Err(CharsetError::UnexpectedEnd)
        } else if !(forall|i: int| 1 <= i < 5 ==> is_hex_digit(#[trigger] s[i])) {
            Err(CharsetError::InvalidUnicodeEscape)
        } else if is_scalar(hex4(s.subrange(1, 5))) {
            Ok((hex4(s.subrange(1, 5)) as char, 5))
        } else {
            Err(CharsetError::InvalidCodePoint(hex4(s.subrange(1, 5))))
        }
    } else {
        match escaped(s[0]) {
            Some(c) => Ok((c, 1)),
            None => Err(CharsetError::InvalidEscape(s[0])),
        }
    }
}

/// The character written at the start of `s` inside a class, plain or
/// escaped, and how many characters of `s` it takes.
pub open spec fn class_char(s: Seq<char>) -> Result<(char, nat), CharsetError> {
    if s.len() == 0 {
        Err(CharsetError::UnexpectedEnd)
    } else if s[0] == '\\' {
        match unescaped(s.drop_first()) {
            Ok((c, n)) => Ok((c, n + 1)),
            Err(e) => Err(e),
        }
    } else {
        Ok((s[0], 1))
    }
}

/// `items` put in front of a successful result.
pub open spec fn after(
    items: Seq<Operation>,
    r: Result<Seq<Operation>, CharsetError>,
) -> Result<Seq<Operation>, CharsetError> {
    match r {
        Ok(rest) => Ok(items + rest),
        Err(e) => Err(e),
    }
}

/// A character of a class takes at least one input character, and no more than there are.
pub proof fn lemma_class_char_takes(s: Seq<char>)
    ensures
        class_char(s) matches Ok((c, n)) ==> 1 <= n <= s.len(),
{
}

/// The items of a class whose opening bracket comes just before `s`: each
/// character is one `Char` item, unless a `-` and a second character follow
/// it, which makes the two one `CharRange` item. The class ends at the first
/// `]` that is not escaped.
pub open spec fn class_items(s: Seq<char>) -> Result<Seq<Operation>, CharsetError>
    decreases s.len(),
{
    if s.len() == 0 {
        Err(CharsetError::UnexpectedEnd)
    } else if s[0] == ']' {
        Ok(Seq::empty())
    } else {
        proof {
            lemma_class_char_takes(s);
        }
        match class_char(s) {
            Err(e) => Err(e),
            Ok((first, n)) => {
                let rest = s.skip(n as int);
                if rest.len() > 0 && rest[0] == '-' {
                    proof {
                        lemma_class_char_takes(rest.skip(1));
                    }
                    match class_char(rest.skip(1)) {
                        Err(e) => Err(e),
                        Ok((second, m)) => after(
                            seq![Operation::CharRange((first, second))],
                            class_items(rest.skip(1 + m as int)),
                        ),
                    }
                } else {
                    after(seq![Operation::Char(first)], class_items(rest))
                }
            },
        }
    }
}

/// The items of the character class written as `s`.
pub open spec fn charset_items(s: Seq<char>) -> Result<Seq<Operation>, CharsetError> {
    if s.len() == 0 {
        Err(CharsetError::UnexpectedEnd)
    } else if s[0] != '[' {
        Err(CharsetError::ExpectedOpenBracket(s[0]))
    } else {
        class_items(s.drop_first())
    }
}

/// The result of reading a character at `pos` of `cs`, in executable form.
pub open spec fn read_at(
    r: Result<(char, usize), CharsetError>,
    s: Result<(char, nat), CharsetError>,
) -> bool {
    match s {
        Ok((c, n)) => r == Ok::<(char, usize), CharsetError>((c, n as usize)),
        Err(e) => r == Err::<(char, usize), CharsetError>(e),
    }
}

fn hex_digit(c: char) -> (r: Option<u32>)
    ensures
        r is Some <==> is_hex_digit(c),
        r matches Some(v) ==> v == hex_value(c) && v < 16,
{
    if '0' <= c && c <= '9' {
        Some(c as u32 - '0' as u32)
    } else if 'a' <= c && c <= 'f' {
        Some(c as u32 - 'a' as u32 + 10)
    } else if 'A' <= c && c <= 'F' {
        Some(c as u32 - 'A' as u32 + 10)
    } else {
        None
    }
}

/// Reads the escape sequence whose backslash stands just before `pos`.
fn escape(cs: &Vec<char>, pos: usize) -> (r: Result<(char, usize), CharsetError>)
    requires
        pos <= cs.len(),
    ensures
        read_at(r, unescaped(cs@.skip(pos as int))),
{
    let ghost s = cs@.skip(pos as int);
    if pos == cs.len() {
        return Err(CharsetError::UnexpectedEnd);
    }
    let c = cs[pos];
    assert(s[0] == c);
    if c == 'u' {
        if cs.len() - pos < 5 {
            return Err(CharsetError::UnexpectedEnd);
        }
        proof {
            assert(s[1] == cs@[pos + 1]);
            assert(s[2] == cs@[pos + 2]);
            assert(s[3] == cs@[pos + 3]);
            assert(s[4] == cs@[pos + 4]);
        }
        let digits = (
            hex_digit(cs[pos + 1]),
            hex_digit(cs[pos + 2]),
            hex_digit(cs[pos + 3]),
            hex_digit(cs[pos + 4]),
        );
        let v = match digits {
            (Some(a), Some(b), Some(c), Some(d)) => a * 4096 + b * 256 + c * 16 + d,
            _ => {
                return Err(CharsetError::InvalidUnicodeEscape);
            },
        };
        proof {
            let d = s.subrange(1, 5);
            assert(d[0] == s[1] && d[1] == s[2] && d[2] == s[3] && d[3] == s[4]);
            assert forall|j: int| 1 <= j < 5 implies is_hex_digit(#[trigger] s[j]) by {
                if j == 1 {
                } else if j == 2 {
                } else if j == 3 {
                } else {
                }
            }
            assert(v == hex4(d));
        }
        match char_from_u32(v) {
            Some(ch) => {
                proof {
                    vstd::utf8::char_u32_cast(ch, v);
                }
                Ok((ch, 5))
            },
            None => Err(CharsetError::InvalidCodePoint(v)),
        }
    } else if c == 'n' {
        Ok(('\n', 1))
    } else if c == 'r' {
        Ok(('\r', 1))
    } else if c == 't' {
        Ok(('\t', 1))
    } else if c == 'b' {
        Ok(('\x08', 1))
    } else if c == 'f' {
        Ok(('\x0C', 1))
    } else if c == ']' || c == '\\' || c == '-' {
        Ok((c, 1))
    } else {
        Err(CharsetError::InvalidEscape(c))
    }
}

/// Reads one character of a class at `pos`, plain or escaped.
fn read_class_char(cs: &Vec<char>, pos: usize) -> (r: Result<(char, usize), CharsetError>)
    requires
        pos <= cs.len(),
    ensures
        read_at(r, class_char(cs@.skip(pos as int))),
        r matches Ok((c, n)) ==> 1 <= n <= cs.len() - pos,
{
    let ghost s = cs@.skip(pos as int);
    if pos == cs.len() {
        return Err(CharsetError::UnexpectedEnd);
    }
    let c = cs[pos];
    assert(s[0] == c);
    if c == '\\' {
        assert(s.drop_first() =~= cs@.skip(pos as int + 1));
        match escape(cs, pos + 1) {
            Ok((e, n)) => Ok((e, n + 1)),
            Err(err) => Err(err),
        }
    } else {
        Ok((c, 1))
    }
}

/// Parses a bracketed character class into a `CharacterClass` of `Char` and
/// `CharRange` items, in the order written. Escapes: `\n`, `\r`, `\t`,
/// `\b`, `\f`, `\]`, `\\`, `\-` and `\uXXXX`. What follows the closing
/// bracket is not read.
pub fn parse_charset(charset: &str) -> (r: Result<Operation, CharsetError>)
    ensures
        match charset_items(charset@) {
            Ok(items) => r matches Ok(Operation::CharacterClass(v)) && v@ == items,
            Err(e) => r matches Err(re) && re == e,
        },
{
    let cs = chars_of(charset);
    if cs.len() == 0 {
        return Err(CharsetError::UnexpectedEnd);
    }
    if cs[0] != '[' {
        return Err(CharsetError::ExpectedOpenBracket(cs[0]));
    }
    assert(cs@.drop_first() =~= cs@.skip(1));
    let mut choices: Vec<Operation> = Vec::new();
    let mut pos: usize = 1;
    assert(choices@ + Seq::<Operation>::empty() =~= Seq::<Operation>::empty());
    loop
        invariant
            1 <= pos <= cs.len(),
            cs@ == charset@,
            cs@.len() > 0 && cs@[0] == '[',
            charset_items(charset@) == after(choices@, class_items(cs@.skip(pos as int))),
        decreases cs.len() - pos,
    {
        let ghost s = cs@.skip(pos as int);
        if pos == cs.len() {
            return Err(CharsetError::UnexpectedEnd);
        }
        assert(s[0] == cs@[pos as int]);
        if cs[pos] == ']' {
            assert(choices@ + Seq::<Operation>::empty() =~= choices@);
            return Ok(Operation::CharacterClass(choices));
        }
        let (first, n) = match read_class_char(&cs, pos) {
            Ok(x) => x,
            Err(e) => {
                return Err(e);
            },
        };
        let next = pos + n;
        assert(s.skip(n as int) =~= cs@.skip(next as int));
        if next < cs.len() && cs[next] == '-' {
            let ghost rest = cs@.skip(next as int);
            assert(rest[0] == cs@[next as int]);
            assert(rest.skip(1) =~= cs@.skip(next as int + 1));
            let (second, m) = match read_class_char(&cs, next + 1) {
                Ok(x) => x,
                Err(e) => {
                    return Err(e);
                },
            };
            assert(rest.skip(1 + m) =~= cs@.skip(next + 1 + m));
            let ghost item = Operation::CharRange((first, second));
            proof {
                lemma_after_assoc(choices@, item, class_items(cs@.skip(next + 1 + m)));
            }
            choices.push(Operation::CharRange((first, second)));
            pos = next + 1 + m;
        } else {
            let ghost item = Operation::Char(first);
            proof {
                lemma_after_assoc(choices@, item, class_items(cs@.skip(next as int)));
            }
            choices.push(Operation::Char(first));
            pos = next;
        }
    }
}

proof fn lemma_after_assoc(
    items: Seq<Operation>,
    item: Operation,
    r: Result<Seq<Operation>, CharsetError>,
)
    ensures
        after(items, after(seq![item], r)) == after(items.push(item), r),
{
    if let Ok(rest) = r {
        assert(items + (seq![item] + rest) =~= items.push(item) + rest);
    }
}

} // verus!
