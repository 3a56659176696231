//! The text form of string values and of flat objects of strings: how a
//! string is written between quotes, and how such text is read back.

use vstd::prelude::*;

verus! {

/// The lower-case hexadecimal digit for a value below sixteen.
pub open spec fn hex_digit(n: int) -> char {
    if n == 0 {
        '0'
    } else if n == 1 {
        '1'
    } else if n == 2 {
        '2'
    } else if n == 3 {
        '3'
    } else if n == 4 {
        '4'
    } else if n == 5 {
        '5'
    } else if n == 6 {
        '6'
    } else if n == 7 {
        '7'
    } else if n == 8 {
        '8'
    } else if n == 9 {
        '9'
    } else if n == 10 {
        'a'
    } else if n == 11 {
        'b'
    } else if n == 12 {
        'c'
    } else if n == 13 {
        'd'
    } else if n == 14 {
        'e'
    } else {
        'f'
    }
}

/// The value of a hexadecimal digit of either case.
pub open spec fn hex_value(c: char) -> Option<int> {
    let u = c as u32;
    if 0x30 <= u <= 0x39 {
        Some(u as int - 0x30)
    } else if 0x61 <= u <= 0x66 {
        Some(u as int - 0x61 + 10)
    } else if 0x41 <= u <= 0x46 {
        Some(u as int - 0x41 + 10)
    } else {
        None
    }
}

/// A character below the space, which may not stand in a string unescaped.
pub open spec fn is_control(c: char) -> bool {
    (c as u32) < 0x20
}

/// How one character is written inside a quoted string: the quote, the
/// backslash and the control characters are escaped, every other character
/// stands for itself.
pub open spec fn escape_char(c: char) -> Seq<char> {
    if c == '"' {
        seq!['\\', '"']
    } else if c == '\\' {
        seq!['\\', '\\']
    } else if c == '\u{8}' {
        seq!['\\', 'b']
    } else if c == '\u{c}' {
        seq!['\\', 'f']
    } else if c == '\n' {
        seq!['\\', 'n']
    } else if c == '\r' {
        seq!['\\', 'r']
    } else if c == '\t' {
        seq!['\\', 't']
    } else if is_control(c) {
        seq!['\\', 'u', '0', '0', hex_digit((c as u32) as int / 16), hex_digit((c as u32) as int % 16)]
    } else {
        seq![c]
    }
}

/// The characters of `s`, each written as `escape_char` says.
pub open spec fn escape(s: Seq<char>) -> Seq<char>
    decreases s.len(),
{
    if s.len() == 0 {
        Seq::empty()
    } else {
        escape_char(s[0]) + escape(s.skip(1))
    }
}

/// `s` as a quoted string.
pub open spec fn quote(s: Seq<char>) -> Seq<char> {
    seq!['"'] + escape(s) + seq!['"']
}

/// Escaping goes character by character, so it distributes over appending
/// one more character.
proof fn lemma_escape_push(s: Seq<char>, c: char)
    ensures
        escape(s.push(c)) == escape(s) + escape_char(c),
    decreases s.len(),
{
    if s.len() == 0 {
        assert(s.push(c).skip(1) == Seq::<char>::empty());
        assert(escape(s.push(c).skip(1)) == Seq::<char>::empty());
        assert(escape(s.push(c)) == escape_char(c) + Seq::<char>::empty());
    } else {
        assert(s.push(c).skip(1) == s.skip(1).push(c));
        lemma_escape_push(s.skip(1), c);
        assert(escape(s.push(c)) == escape_char(s[0]) + (escape(s.skip(1)) + escape_char(c)));
    }
}

fn hex_digit_of(n: u32) -> (c: char)
    requires
        n < 16,
    ensures
        c == hex_digit(n as int),
{
    if n == 0 {
        '0'
    } else if n == 1 {
        '1'
    } else if n == 2 {
        '2'
    } else if n == 3 {
        '3'
    } else if n == 4 {
        '4'
    } else if n == 5 {
        '5'
    } else if n == 6 {
        '6'
    } else if n == 7 {
        '7'
    } else if n == 8 {
        '8'
    } else if n == 9 {
        '9'
    } else if n == 10 {
        'a'
    } else if n == 11 {
        'b'
    } else if n == 12 {
        'c'
    } else if n == 13 {
        'd'
    } else if n == 14 {
        'e'
    } else {
        'f'
    }
}

/// Appends `c` to `out` as it is written inside a quoted string.
fn write_escaped_char(out: &mut Vec<char>, c: char)
    ensures
        final(out)@ == old(out)@ + escape_char(c),
{
    let ghost before = out@;
    if c == '"' {
        out.push('\\');
        out.push('"');
    } else if c == '\\' {
        out.push('\\');
        out.push('\\');
    } else if c == '\u{8}' {
        out.push('\\');
        out.push('b');
    } else if c == '\u{c}' {
        out.push('\\');
        out.push('f');
    } else if c == '\n' {
        out.push('\\');
        out.push('n');
    } else if c == '\r' {
        out.push('\\');
        out.push('r');
    } else if c == '\t' {
        out.push('\\');
        out.push('t');
    } else if (c as u32) < 0x20 {
        let u: u32 = c as u32;
        out.push('\\');
        out.push('u');
        out.push('0');
        out.push('0');
        out.push(hex_digit_of(u / 16));
        out.push(hex_digit_of(u % 16));
    } else {
        out.push(c);
    }
    assert(out@ == before + escape_char(c));
}

/// Appends `s` to `out` as a quoted string.
pub fn write_quoted(out: &mut Vec<char>, s: &Vec<char>)
    ensures
        final(out)@ == old(out)@ + quote(s@),
{
    let ghost before = out@;
    out.push('"');
    let mut i: usize = 0;
    while i < s.len()
        invariant
            i <= s.len(),
            out@ == before + seq!['"'] + escape(s@.take(i as int)),
        decreases s.len() - i,
    {
        write_escaped_char(out, s[i]);
        proof {
            lemma_escape_push(s@.take(i as int), s@[i as int]);
            assert(s@.take(i as int + 1) == s@.take(i as int).push(s@[i as int]));
        }
        i += 1;
    }
    out.push('"');
    assert(s@.take(s.len() as int) == s@);
    assert(out@ == before + quote(s@));
}

/// The number that the first four characters of `s` write in hexadecimal.
pub open spec fn hex4(s: Seq<char>) -> Option<int> {
    if s.len() < 4 {
        None
    } else {
        match (hex_value(s[0]), hex_value(s[1]), hex_value(s[2]), hex_value(s[3])) {
            (Some(a), Some(b), Some(c), Some(d)) => Some(((a * 16 + b) * 16 + c) * 16 + d),
            _ => None,
        }
    }
}

/// The first half of a pair of escapes that together write one character
/// above U+FFFF.
pub open spec fn is_leading_half(n: int) -> bool {
    0xD800 <= n <= 0xDBFF
}

/// The second half of such a pair.
pub open spec fn is_trailing_half(n: int) -> bool {
    0xDC00 <= n <= 0xDFFF
}

/// The scalar value that a pair of halves writes.
pub open spec fn paired_scalar(leading: int, trailing: int) -> int {
    0x10000 + (leading - 0xD800) * 0x400 + (trailing - 0xDC00)
}

/// The character with the scalar value `n`.
pub open spec fn char_of(n: int) -> char {
    (n as u32) as char
}

/// Reads one escape; `s` begins right behind the backslash. The result is
/// the character that the escape stands for and the number of characters of
/// `s` that write it. A half of a pair that stands alone is refused.
pub open spec fn unescape_head(s: Seq<char>) -> Option<(char, int)> {
    if s.len() == 0 {
        None
    } else if s[0] == '"' {
        Some(('"', 1))
    } else if s[0] == '\\' {
        Some(('\\', 1))
    } else if s[0] == '/' {
        Some(('/', 1))
    } else if s[0] == 'b' {
        Some(('\u{8}', 1))
    } else if s[0] == 'f' {
        Some(('\u{c}', 1))
    } else if s[0] == 'n' {
        Some(('\n', 1))
    } else if s[0] == 'r' {
        Some(('\r', 1))
    } else if s[0] == 't' {
        Some(('\t', 1))
    } else if s[0] == 'u' {
        match hex4(s.skip(1)) {
            None => None,
            Some(first) => {
                if is_trailing_half(first) {
                    None
                } else if is_leading_half(first) {
                    if s.len() >= 7 && s[5] == '\\' && s[6] == 'u' {
                        match hex4(s.skip(7)) {
                            None => None,
                            Some(second) => {
                                if is_trailing_half(second) {
                                    Some((char_of(paired_scalar(first, second)), 11))
                                } else {
                                    None
                                }
                            },
                        }
                    } else {
                        None
                    }
                } else {
                    Some((char_of(first), 5))
                }
            },
        }
    } else {
        None
    }
}

/// Reads the inside of a quoted string; `s` begins right behind the opening
/// quote. The result is the string that was written and what follows the
/// closing quote. A control character that stands unescaped, an escape that
/// `unescape_head` refuses and a missing closing quote make it fail.
pub open spec fn unquote_body(s: Seq<char>) -> Option<(Seq<char>, Seq<char>)>
    decreases s.len(),
{
    if s.len() == 0 {
        None
    } else if s[0] == '"' {
        Some((Seq::empty(), s.skip(1)))
    } else if s[0] == '\\' {
        match unescape_head(s.skip(1)) {
            None => None,
            Some((c, n)) => {
                if 1 <= n && 1 + n <= s.len() {
                    match unquote_body(s.skip(1 + n)) {
                        None => None,
                        Some((v, rest)) => Some((seq![c] + v, rest)),
                    }
                } else {
                    None
                }
            },
        }
    } else if is_control(s[0]) {
        None
    } else {
        match unquote_body(s.skip(1)) {
            None => None,
            Some((v, rest)) => Some((seq![s[0]] + v, rest)),
        }
    }
}

/// Reads a quoted string at the head of `s`: the string that was written and
/// what follows the closing quote.
pub open spec fn parse_string(s: Seq<char>) -> Option<(Seq<char>, Seq<char>)> {
    if s.len() > 0 && s[0] == '"' {
        unquote_body(s.skip(1))
    } else {
        None
    }
}

/// A number that is the scalar value of a character: at most U+10FFFF and
/// not a half of a pair.
pub open spec fn is_scalar_value(n: int) -> bool {
    0 <= n <= 0x10FFFF && !(0xD800 <= n <= 0xDFFF)
}

/// `char::from_u32` of std: the character whose scalar value is `n`, and
/// nothing where `n` is not the scalar value of any character.
#[verifier::external_body]
fn char_from_scalar(n: u32) -> (c: Option<char>)
    ensures
        c is Some <==> is_scalar_value(n as int),
        c matches Some(ch) ==> ch as u32 == n,
{
    char::from_u32(n)
}

fn hex_value_of(c: char) -> (v: Option<u32>)
    ensures
        match hex_value(c) {
            None => v is None,
            Some(n) => v == Some(n as u32) && 0 <= n < 16,
        },
{
    let u: u32 = c as u32;
    if 0x30 <= u && u <= 0x39 {
        Some(u - 0x30)
    } else if 0x61 <= u && u <= 0x66 {
        Some(u - 0x61 + 10)
    } else if 0x41 <= u && u <= 0x46 {
        Some(u - 0x41 + 10)
    } else {
        None
    }
}

fn read_hex4(t: &Vec<char>, at: usize) -> (v: Option<u32>)
    requires
        at <= t.len(),
    ensures
        match hex4(t@.skip(at as int)) {
            None => v is None,
            Some(n) => v == Some(n as u32) && 0 <= n < 0x10000 && at + 4 <= t.len(),
        },
{
    if t.len() - at < 4 {
        return None;
    }
    let ghost s = t@.skip(at as int);
    assert(s[0] == t@[at as int] && s[1] == t@[at + 1] && s[2] == t@[at + 2] && s[3] == t@[at + 3]);
    let a = hex_value_of(t[at]);
    let b = hex_value_of(t[at + 1]);
    let c = hex_value_of(t[at + 2]);
    let d = hex_value_of(t[at + 3]);
    match (a, b, c, d) {
        (Some(a), Some(b), Some(c), Some(d)) => Some(((a * 16 + b) * 16 + c) * 16 + d),
        _ => None,
    }
}

fn read_escape(t: &Vec<char>, at: usize) -> (r: Option<(char, usize)>)
    requires
        at <= t.len(),
    ensures
        match unescape_head(t@.skip(at as int)) {
            None => r is None,
            Some((c, n)) => r == Some((c, n as usize)) && 1 <= n && at + n <= t.len(),
        },
{
    let ghost s = t@.skip(at as int);
    if at == t.len() {
        return None;
    }
    assert(s[0] == t@[at as int]);
    let c = t[at];
    if c == '"' {
        Some(('"', 1))
    } else if c == '\\' {
        Some(('\\', 1))
    } else if c == '/' {
        Some(('/', 1))
    } else if c == 'b' {
        Some(('\u{8}', 1))
    } else if c == 'f' {
        Some(('\u{c}', 1))
    } else if c == 'n' {
        Some(('\n', 1))
    } else if c == 'r' {
        Some(('\r', 1))
    } else if c == 't' {
        Some(('\t', 1))
    } else if c == 'u' {
        assert(s.skip(1) == t@.skip(at + 1));
        let first: u32 = match read_hex4(t, at + 1) {
            None => {
                return None;
            },
            Some(first) => first,
        };
        if 0xDC00 <= first && first <= 0xDFFF {
            None
        } else if 0xD800 <= first && first <= 0xDBFF {
            if t.len() - at >= 7 && t[at + 5] == '\\' && t[at + 6] == 'u' {
                assert(s[5] == t@[at + 5] && s[6] == t@[at + 6]);
                assert(s.skip(7) == t@.skip(at + 7));
                let second: u32 = match read_hex4(t, at + 7) {
                    None => {
                        return None;
                    },
                    Some(second) => second,
                };
                if 0xDC00 <= second && second <= 0xDFFF {
                    let n: u32 = 0x10000 + (first - 0xD800) * 0x400 + (second - 0xDC00);
                    match char_from_scalar(n) {
                        Some(ch) => {
                            proof {
                                vstd::utf8::char_u32_cast(ch, n);
                            }
                            Some((ch, 11))
                        },
                        None => None,
                    }
                } else {
                    None
                }
            } else {
                proof {
                    if s.len() >= 7 {
                        assert(s[5] == t@[at + 5] && s[6] == t@[at + 6]);
                    }
                }
                None
            }
        } else {
            match char_from_scalar(first) {
                Some(ch) => {
                    proof {
                        vstd::utf8::char_u32_cast(ch, first);
                    }
                    Some((ch, 5))
                },
                None => None,
            }
        }
    } else {
        None
    }
}

/// `r` with `a` put before the string that was read.
pub open spec fn with_prefix(a: Seq<char>, r: Option<(Seq<char>, Seq<char>)>) -> Option<
    (Seq<char>, Seq<char>),
> {
    match r {
        None => None,
        Some((v, rest)) => Some((a + v, rest)),
    }
}

/// Reads the inside of a quoted string that begins at `start`, right behind
/// the opening quote: the string and the place behind the closing quote.
fn read_string_body(t: &Vec<char>, start: usize) -> (r: Option<(Vec<char>, usize)>)
    requires
        start <= t.len(),
    ensures
        match unquote_body(t@.skip(start as int)) {
            None => r is None,
            Some((v, rest)) => r matches Some((w, end)) && w@ == v && start < end <= t.len()
                && rest == t@.skip(end as int),
        },
{
    let mut acc: Vec<char> = Vec::new();
    let mut i: usize = start;
    let ghost whole = unquote_body(t@.skip(start as int));
    assert(with_prefix(acc@, whole) == whole) by {
        match whole {
            None => {},
            Some((v, rest)) => {
                assert(acc@ + v == v);
            },
        }
    }
    loop
        invariant
            start <= i <= t.len(),
            whole == unquote_body(t@.skip(start as int)),
            whole == with_prefix(acc@, unquote_body(t@.skip(i as int))),
        decreases t.len() - i,
    {
        let ghost s = t@.skip(i as int);
        if i == t.len() {
            return None;
        }
        assert(s[0] == t@[i as int]);
        let c = t[i];
        if c == '"' {
            assert(s.skip(1) == t@.skip(i + 1));
            assert(acc@ + Seq::<char>::empty() == acc@);
            return Some((acc, i + 1));
        } else if c == '\\' {
            assert(s.skip(1) == t@.skip(i + 1));
            match read_escape(t, i + 1) {
                None => {
                    return None;
                },
                Some((ch, n)) => {
                    assert(s.skip(1 + n) == t@.skip(i + 1 + n));
                    proof {
                        match unquote_body(t@.skip(i + 1 + n)) {
                            None => {},
                            Some((v, rest)) => {
                                assert(acc@ + (seq![ch] + v) == acc@.push(ch) + v);
                            },
                        }
                    }
                    acc.push(ch);
                    i = i + 1 + n;
                },
            }
        } else if (c as u32) < 0x20 {
            return None;
        } else {
            assert(s.skip(1) == t@.skip(i + 1));
            proof {
                match unquote_body(t@.skip(i + 1)) {
                    None => {},
                    Some((v, rest)) => {
                        assert(acc@ + (seq![c] + v) == acc@.push(c) + v);
                    },
                }
            }
            acc.push(c);
            i = i + 1;
        }
    }
}

/// The characters that may stand between the tokens of an object.
pub open spec fn is_space(c: char) -> bool {
    c == ' ' || c == '\t' || c == '\n' || c == '\r'
}

/// `s` without the spaces at its head.
pub open spec fn skip_spaces(s: Seq<char>) -> Seq<char>
    decreases s.len(),
{
    if s.len() > 0 && is_space(s[0]) {
        skip_spaces(s.skip(1))
    } else {
        s
    }
}

/// Reads one member at the head of `s`, a quoted key, a colon and a quoted
/// value: the pair of key and value, and what follows the value.
pub open spec fn parse_member(s: Seq<char>) -> Option<((Seq<char>, Seq<char>), Seq<char>)> {
    match parse_string(s) {
        None => None,
        Some((key, after_key)) => {
            let at_colon = skip_spaces(after_key);
            if at_colon.len() > 0 && at_colon[0] == ':' {
                match parse_string(skip_spaces(at_colon.skip(1))) {
                    None => None,
                    Some((value, after_value)) => Some(((key, value), after_value)),
                }
            } else {
                None
            }
        },
    }
}

/// Nothing but spaces is left.
pub open spec fn is_blank(s: Seq<char>) -> bool {
    skip_spaces(s).len() == 0
}

/// Reads what follows a member up to the end of the text: either the
/// closing brace, or a comma and one more member and so on. Behind the
/// closing brace only spaces may follow.
pub open spec fn parse_more_members(s: Seq<char>) -> Option<Seq<(Seq<char>, Seq<char>)>>
    decreases s.len(),
{
    let r = skip_spaces(s);
    if r.len() == 0 {
        None
    } else if r[0] == '}' {
        if is_blank(r.skip(1)) {
            Some(Seq::empty())
        } else {
            None
        }
    } else if r[0] == ',' {
        match parse_member(skip_spaces(r.skip(1))) {
            None => None,
            Some((member, after)) => {
                if after.len() < s.len() {
                    match parse_more_members(after) {
                        None => None,
                        Some(more) => Some(seq![member] + more),
                    }
                } else {
                    None
                }
            },
        }
    } else {
        None
    }
}

/// Reads a whole text as one flat object of strings: an opening brace,
/// members divided by commas, a closing brace, with spaces wherever they may
/// stand between tokens. The result is the members in the order in which
/// they are written. A value that is not a quoted string, a comma with no
/// member behind it and anything but spaces around the object make it fail.
pub open spec fn parse_object(s: Seq<char>) -> Option<Seq<(Seq<char>, Seq<char>)>> {
    let r = skip_spaces(s);
    if r.len() > 0 && r[0] == '{' {
        let inside = skip_spaces(r.skip(1));
        if inside.len() > 0 && inside[0] == '}' {
            if is_blank(inside.skip(1)) {
                Some(Seq::empty())
            } else {
                None
            }
        } else {
            match parse_member(inside) {
                None => None,
                Some((member, after)) => match parse_more_members(after) {
                    None => None,
                    Some(more) => Some(seq![member] + more),
                },
            }
        }
    } else {
        None
    }
}

/// The members that a vector of pairs of character vectors holds.
pub open spec fn members_of(v: Seq<(Vec<char>, Vec<char>)>) -> Seq<(Seq<char>, Seq<char>)> {
    Seq::new(v.len(), |i: int| (v[i].0@, v[i].1@))
}

/// `r` with the members `a` put before those that were read.
pub open spec fn with_members(
    a: Seq<(Seq<char>, Seq<char>)>,
    r: Option<Seq<(Seq<char>, Seq<char>)>>,
) -> Option<Seq<(Seq<char>, Seq<char>)>> {
    match r {
        None => None,
        Some(more) => Some(a + more),
    }
}

fn skip_blank(t: &Vec<char>, at: usize) -> (end: usize)
    requires
        at <= t.len(),
    ensures
        at <= end <= t.len(),
        t@.skip(end as int) == skip_spaces(t@.skip(at as int)),
{
    let mut i: usize = at;
    while i < t.len() && (t[i] == ' ' || t[i] == '\t' || t[i] == '\n' || t[i] == '\r')
        invariant
            at <= i <= t.len(),
            skip_spaces(t@.skip(i as int)) == skip_spaces(t@.skip(at as int)),
        decreases t.len() - i,
    {
        assert(t@.skip(i as int)[0] == t@[i as int]);
        assert(t@.skip(i as int).skip(1) == t@.skip(i + 1));
        i += 1;
    }
    proof {
        if i < t.len() {
            assert(t@.skip(i as int)[0] == t@[i as int]);
        }
    }
    i
}

fn read_string(t: &Vec<char>, at: usize) -> (r: Option<(Vec<char>, usize)>)
    requires
        at <= t.len(),
    ensures
        match parse_string(t@.skip(at as int)) {
            None => r is None,
            Some((v, rest)) => r matches Some((w, end)) && w@ == v && at < end <= t.len() && rest
                == t@.skip(end as int),
        },
{
    if at == t.len() {
        return None;
    }
    assert(t@.skip(at as int)[0] == t@[at as int]);
    if t[at] != '"' {
        return None;
    }
    assert(t@.skip(at as int).skip(1) == t@.skip(at + 1));
    read_string_body(t, at + 1)
}

fn read_member(t: &Vec<char>, at: usize) -> (r: Option<((Vec<char>, Vec<char>), usize)>)
    requires
        at <= t.len(),
    ensures
        match parse_member(t@.skip(at as int)) {
            None => r is None,
            Some((m, rest)) => r matches Some((w, end)) && w.0@ == m.0 && w.1@ == m.1 && at < end
                <= t.len() && rest == t@.skip(end as int),
        },
{
    let (key, after_key) = match read_string(t, at) {
        None => {
            return None;
        },
        Some(found) => found,
    };
    let at_colon = skip_blank(t, after_key);
    if at_colon == t.len() {
        return None;
    }
    assert(t@.skip(at_colon as int)[0] == t@[at_colon as int]);
    if t[at_colon] != ':' {
        return None;
    }
    assert(t@.skip(at_colon as int).skip(1) == t@.skip(at_colon + 1));
    let at_value = skip_blank(t, at_colon + 1);
    match read_string(t, at_value) {
        None => None,
        Some((value, end)) => Some(((key, value), end)),
    }
}

/// Reads `t` as one flat object of strings and gives its members in the
/// order in which they are written.
pub fn read_object(t: &Vec<char>) -> (r: Option<Vec<(Vec<char>, Vec<char>)>>)
    ensures
        match parse_object(t@) {
            None => r is None,
            Some(ms) => r matches Some(w) && members_of(w@) == ms,
        },
{
    assert(t@.skip(0) == t@);
    let open = skip_blank(t, 0);
    if open == t.len() {
        return None;
    }
    assert(t@.skip(open as int)[0] == t@[open as int]);
    if t[open] != '{' {
        return None;
    }
    assert(t@.skip(open as int).skip(1) == t@.skip(open + 1));
    let inside = skip_blank(t, open + 1);
    let mut found: Vec<(Vec<char>, Vec<char>)> = Vec::new();
    if inside < t.len() && t[inside] == '}' {
        assert(t@.skip(inside as int)[0] == t@[inside as int]);
        assert(t@.skip(inside as int).skip(1) == t@.skip(inside + 1));
        let end = skip_blank(t, inside + 1);
        if end == t.len() {
            assert(members_of(found@) == Seq::<(Seq<char>, Seq<char>)>::empty());
            return Some(found);
        } else {
            return None;
        }
    }
    proof {
        if inside < t.len() {
            assert(t@.skip(inside as int)[0] == t@[inside as int]);
        }
    }
    let (first, after_first) = match read_member(t, inside) {
        None => {
            return None;
        },
        Some(read) => read,
    };
    let ghost whole = parse_object(t@);
    let ghost first_view = (first.0@, first.1@);
    found.push(first);
    assert(members_of(found@) == seq![first_view]);
    let mut i: usize = after_first;
    loop
        invariant
            i <= t.len(),
            whole == parse_object(t@),
            whole == with_members(members_of(found@), parse_more_members(t@.skip(i as int))),
        decreases t.len() - i,
    {
        let ghost s = t@.skip(i as int);
        let at = skip_blank(t, i);
        if at == t.len() {
            return None;
        }
        assert(t@.skip(at as int)[0] == t@[at as int]);
        assert(t@.skip(at as int).skip(1) == t@.skip(at + 1));
        if t[at] == '}' {
            let end = skip_blank(t, at + 1);
            if end == t.len() {
                assert(members_of(found@) + Seq::<(Seq<char>, Seq<char>)>::empty() == members_of(
                    found@,
                ));
                return Some(found);
            } else {
                return None;
            }
        } else if t[at] == ',' {
            let at_member = skip_blank(t, at + 1);
            match read_member(t, at_member) {
                None => {
                    return None;
                },
                Some((member, end)) => {
                    let ghost member_view = (member.0@, member.1@);
                    let ghost before = members_of(found@);
                    found.push(member);
                    assert(members_of(found@) == before.push(member_view));
                    proof {
                        match parse_more_members(t@.skip(end as int)) {
                            None => {},
                            Some(more) => {
                                assert(before + (seq![member_view] + more) == before.push(
                                    member_view,
                                ) + more);
                            },
                        }
                    }
                    i = end;
                },
            }
        } else {
            return None;
        }
    }
}

/// A hexadecimal digit, read back, gives the value it was written for.
proof fn lemma_hex_digit_value(n: int)
    requires
        0 <= n < 16,
    ensures
        hex_value(hex_digit(n)) == Some(n),
{
}

/// An escape that `escape_char` writes is read back as the character it was
/// written for, whatever follows it.
proof fn lemma_unescape_escaped(c: char, rest: Seq<char>)
    requires
        escape_char(c).len() >= 2,
    ensures
        unescape_head(escape_char(c).skip(1) + rest) == Some((c, escape_char(c).len() - 1)),
{
    let s = escape_char(c).skip(1) + rest;
    if c == '"' || c == '\\' || c == '\u{8}' || c == '\u{c}' || c == '\n' || c == '\r' || c
        == '\t' {
        assert(s[0] == escape_char(c)[1]);
    } else {
        let u = (c as u32) as int;
        assert(is_control(c));
        assert(s[0] == 'u');
        let digits = s.skip(1);
        assert(digits[0] == '0' && digits[1] == '0' && digits[2] == hex_digit(u / 16) && digits[3]
            == hex_digit(u % 16));
        lemma_hex_digit_value(u / 16);
        lemma_hex_digit_value(u % 16);
        assert(hex_value('0') == Some(0int));
        assert(hex4(digits) == Some(u));
        vstd::utf8::char_u32_cast(c, c as u32);
        assert(char_of(u) == c);
    }
}

/// One character, written as `escape_char` says, is read back as that
/// character before whatever the rest is read as.
proof fn lemma_unquote_written_char(c: char, tail: Seq<char>)
    ensures
        unquote_body(escape_char(c) + tail) == with_prefix(seq![c], unquote_body(tail)),
{
    let s = escape_char(c) + tail;
    if escape_char(c).len() >= 2 {
        let n = escape_char(c).len() - 1;
        lemma_unescape_escaped(c, tail);
        assert(s[0] == escape_char(c)[0]);
        assert(s[0] == '\\');
        assert(s.skip(1) == escape_char(c).skip(1) + tail);
        assert(s.skip(1 + n) == tail);
    } else {
        assert(escape_char(c) == seq![c]);
        assert(s[0] == c);
        assert(c != '"' && c != '\\' && !is_control(c));
        assert(s.skip(1) == tail);
    }
}

/// The inside of a quoted string, as `escape` writes it, is read back as
/// the string it was written for, and what follows the closing quote is
/// left as it is.
pub proof fn lemma_unquote_escaped(v: Seq<char>, rest: Seq<char>)
    ensures
        unquote_body(escape(v) + seq!['"'] + rest) == Some((v, rest)),
    decreases v.len(),
{
    let s = escape(v) + seq!['"'] + rest;
    if v.len() == 0 {
        assert(s[0] == '"');
        assert(s.skip(1) == rest);
    } else {
        let c = v[0];
        let tail = escape(v.skip(1)) + seq!['"'] + rest;
        lemma_unquote_escaped(v.skip(1), rest);
        lemma_unquote_written_char(c, tail);
        assert(escape(v) == escape_char(c) + escape(v.skip(1)));
        assert(s == escape_char(c) + tail) by {
            let a = escape_char(c);
            let b = escape(v.skip(1));
            let q = seq!['"'];
            assert((a + b) + q + rest == a + (b + q + rest));
        }
        assert(seq![c] + v.skip(1) == v);
    }
}

/// A quoted string is read back as the string it was written for, and what
/// follows it is left as it is.
pub proof fn lemma_parse_quoted(v: Seq<char>, rest: Seq<char>)
    ensures
        parse_string(quote(v) + rest) == Some((v, rest)),
{
    let s = quote(v) + rest;
    assert(s[0] == '"');
    assert(s.skip(1) == escape(v) + seq!['"'] + rest);
    lemma_unquote_escaped(v, rest);
}

/// A member written as a quoted key, a colon and a quoted value is read
/// back as that key and that value, and what follows it is left as it is.
pub proof fn lemma_parse_written_member(key: Seq<char>, value: Seq<char>, rest: Seq<char>)
    ensures
        parse_member(quote(key) + seq![':'] + quote(value) + rest) == Some(((key, value), rest)),
{
    let s = quote(key) + seq![':'] + quote(value) + rest;
    let after_key = seq![':'] + quote(value) + rest;
    assert(s == quote(key) + after_key);
    lemma_parse_quoted(key, after_key);
    assert(after_key[0] == ':');
    assert(skip_spaces(after_key) == after_key);
    let at_value = quote(value) + rest;
    assert(after_key.skip(1) == at_value);
    assert(at_value[0] == '"');
    assert(skip_spaces(at_value) == at_value);
    lemma_parse_quoted(value, rest);
}

} // verus!
