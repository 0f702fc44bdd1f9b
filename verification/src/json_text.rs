//! JSON string literals: how a text is quoted and escaped as a JSON string,
//! how a JSON string literal is read back, and that reading back a quoted
//! text gives the text.

use vstd::prelude::*;

verus! {

/// The lower-case hexadecimal digit for `d < 16`.
pub open spec fn hex_digit_char(d: nat) -> char {
    if d < 10 {
        ((d + 48) as u32) as char
    } else {
        ((d + 87) as u32) as char
    }
}

/// How one character is written inside a JSON string: `"` and `\` get a
/// backslash, the control characters backspace, tab, line feed, form feed
/// and carriage return get their short escapes, other control characters
/// below U+0020 are written `\u00XX`, and every other character stands as
/// itself.
pub open spec fn json_escape_char(c: char) -> Seq<char> {
    if c == '"' {
        seq!['\\', '"']
    } else if c == '\\' {
        seq!['\\', '\\']
    } else if c == '\u{8}' {
        seq!['\\', 'b']
    } else if c == '\t' {
        seq!['\\', 't']
    } else if c == '\n' {
        seq!['\\', 'n']
    } else if c == '\u{c}' {
        seq!['\\', 'f']
    } else if c == '\r' {
        seq!['\\', 'r']
    } else if (c as u32) < 0x20 {
        seq![
            '\\',
            'u',
            '0',
            '0',
            hex_digit_char(((c as u32) / 16) as nat),
            hex_digit_char(((c as u32) % 16) as nat),
        ]
    } else {
        seq![c]
    }
}

/// The characters of `s`, each written as inside a JSON string.
pub open spec fn json_escape(s: Seq<char>) -> Seq<char>
    decreases s.len(),
{
    if s.len() == 0 {
        seq![]
    } else {
        json_escape_char(s[0]) + json_escape(s.subrange(1, s.len() as int))
    }
}

/// `s` as a JSON string literal: escaped and between double quotes.
pub open spec fn json_string_text(s: Seq<char>) -> Seq<char> {
    seq!['"'] + json_escape(s) + seq!['"']
}

/// The value of a hexadecimal digit character, or -1.
pub open spec fn hex_value(c: char) -> int {
    if '0' <= c && c <= '9' {
        c as int - 48
    } else if 'a' <= c && c <= 'f' {
        c as int - 87
    } else if 'A' <= c && c <= 'F' {
        c as int - 55
    } else {
        -1
    }
}

/// The character a one-letter escape stands for.
pub open spec fn short_escape(e: char) -> Option<char> {
    if e == '"' {
        Some('"')
    } else if e == '\\' {
        Some('\\')
    } else if e == '/' {
        Some('/')
    } else if e == 'b' {
        Some('\u{8}')
    } else if e == 't' {
        Some('\t')
    } else if e == 'n' {
        Some('\n')
    } else if e == 'f' {
        Some('\u{c}')
    } else if e == 'r' {
        Some('\r')
    } else {
        None
    }
}

/// The value of four hexadecimal digits `t[i..i+4]`, or -1.
pub open spec fn hex4_value(t: Seq<char>, i: int) -> int {
    if hex_value(t[i]) >= 0 && hex_value(t[i + 1]) >= 0 && hex_value(t[i + 2]) >= 0 && hex_value(
        t[i + 3],
    ) >= 0 {
        4096 * hex_value(t[i]) + 256 * hex_value(t[i + 1]) + 16 * hex_value(t[i + 2]) + hex_value(
            t[i + 3],
        )
    } else {
        -1
    }
}

/// The text the body of a JSON string literal stands for; `None` when the
/// body holds an unescaped `"`, a raw control character or a malformed
/// escape. (A `\u` escape is read here only below the surrogate range.)
pub open spec fn json_unescape(t: Seq<char>) -> Option<Seq<char>>
    decreases t.len(),
{
    if t.len() == 0 {
        Some(seq![])
    } else if t[0] == '"' || ((t[0] as u32) < 0x20) {
        None
    } else if t[0] == '\\' {
        if t.len() < 2 {
            None
        } else if short_escape(t[1]) is Some {
            match json_unescape(t.subrange(2, t.len() as int)) {
                Some(r) => Some(seq![short_escape(t[1])->0] + r),
                None => None,
            }
        } else if t[1] == 'u' && t.len() >= 6 && 0 <= hex4_value(t, 2) < 0xd800 {
            match json_unescape(t.subrange(6, t.len() as int)) {
                Some(r) => Some(seq![(hex4_value(t, 2) as u32) as char] + r),
                None => None,
            }
        } else {
            None
        }
    } else {
        match json_unescape(t.subrange(1, t.len() as int)) {
            Some(r) => Some(seq![t[0]] + r),
            None => None,
        }
    }
}

/// The text a JSON string literal stands for, or `None` when `t` is not one.
pub open spec fn json_string_value(t: Seq<char>) -> Option<Seq<char>> {
    if t.len() >= 2 && t[0] == '"' && t[t.len() - 1] == '"' {
        json_unescape(t.subrange(1, t.len() - 1))
    } else {
        None
    }
}

proof fn lemma_hex_digit_round_trip(d: nat)
    requires
        d < 16,
    ensures
        hex_value(hex_digit_char(d)) == d,
{
}

proof fn lemma_unescape_one(c: char, rest: Seq<char>)
    ensures
        json_unescape(json_escape_char(c) + rest) == match json_unescape(rest) {
            Some(r) => Some(seq![c] + r),
            None => None,
        },
{
    let e = json_escape_char(c);
    let t = e + rest;
    assert(t.subrange(e.len() as int, t.len() as int) =~= rest);
    if (c as u32) < 0x20 && c != '\u{8}' && c != '\t' && c != '\n' && c != '\u{c}' && c != '\r' {
        let hi = ((c as u32) / 16) as nat;
        let lo = ((c as u32) % 16) as nat;
        lemma_hex_digit_round_trip(hi);
        lemma_hex_digit_round_trip(lo);
        assert(t[2] == '0' && t[3] == '0' && t[4] == hex_digit_char(hi) && t[5] == hex_digit_char(lo));
        assert(hex4_value(t, 2) == 16 * hi + lo);
        assert(16 * hi + lo == c as u32);
        assert(((hex4_value(t, 2) as u32) as char) == c);
    }
}

proof fn lemma_unescape_escape(s: Seq<char>)
    ensures
        json_unescape(json_escape(s)) == Some(s),
    decreases s.len(),
{
    if s.len() > 0 {
        let rest = s.subrange(1, s.len() as int);
        lemma_unescape_escape(rest);
        lemma_unescape_one(s[0], json_escape(rest));
        assert(seq![s[0]] + rest =~= s);
    }
}

/// A JSON string literal made from a text reads back as that text: the text
/// is carried whole and no character of it ends the literal or escapes from it.
pub proof fn lemma_json_string_round_trip(s: Seq<char>)
    ensures
        json_string_value(json_string_text(s)) == Some(s),
{
    let t = json_string_text(s);
    lemma_unescape_escape(s);
    assert(t.subrange(1, t.len() - 1) =~= json_escape(s));
}

} // verus!
