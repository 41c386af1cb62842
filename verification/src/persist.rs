use vstd::prelude::*;

use crate::config::{push_char, Config, ConfigModel};

verus! {

// The persisted artifact is a three-line TOML document,
//
//     lang = "..."
//     discord_token = "..."
//     telegram_token = "..."
//
// with each value written as a TOML basic string. The functions here
// say exactly which characters are written, and the parsing functions
// give the document's meaning, so that reading the document back is
// proved to yield the configuration it was written from.

/// Characters that may not stand unescaped in a TOML basic string.
pub open spec fn must_escape(c: char) -> bool {
    (c as u32) < 0x20 || (c as u32) == 0x7f
}

/// The lower-case hexadecimal digit for `d < 16`.
pub open spec fn hex_digit(d: nat) -> char {
    if d == 0 { '0' }
    else if d == 1 { '1' }
    else if d == 2 { '2' }
    else if d == 3 { '3' }
    else if d == 4 { '4' }
    else if d == 5 { '5' }
    else if d == 6 { '6' }
    else if d == 7 { '7' }
    else if d == 8 { '8' }
    else if d == 9 { '9' }
    else if d == 10 { 'a' }
    else if d == 11 { 'b' }
    else if d == 12 { 'c' }
    else if d == 13 { 'd' }
    else if d == 14 { 'e' }
    else { 'f' }
}

/// The value of a hexadecimal digit character, upper or lower case.
pub open spec fn hex_val(c: char) -> Option<nat> {
    if c == '0' { Some(0nat) }
    else if c == '1' { Some(1nat) }
    else if c == '2' { Some(2nat) }
    else if c == '3' { Some(3nat) }
    else if c == '4' { Some(4nat) }
    else if c == '5' { Some(5nat) }
    else if c == '6' { Some(6nat) }
    else if c == '7' { Some(7nat) }
    else if c == '8' { Some(8nat) }
    else if c == '9' { Some(9nat) }
    else if c == 'a' || c == 'A' { Some(10nat) }
    else if c == 'b' || c == 'B' { Some(11nat) }
    else if c == 'c' || c == 'C' { Some(12nat) }
    else if c == 'd' || c == 'D' { Some(13nat) }
    else if c == 'e' || c == 'E' { Some(14nat) }
    else if c == 'f' || c == 'F' { Some(15nat) }
    else { None }
}

/// TOML basic-string escaping of one character: quote and backslash
/// get a backslash, the named control escapes are used where TOML has
/// them, the remaining control characters are written `\u00XY`, and
/// every other character stands for itself.
pub open spec fn escape_char(c: char) -> Seq<char> {
    if c == '"' { seq!['\\', '"'] }
    else if c == '\\' { seq!['\\', '\\'] }
    else if c == '\u{8}' { seq!['\\', 'b'] }
    else if c == '\t' { seq!['\\', 't'] }
    else if c == '\n' { seq!['\\', 'n'] }
    else if c == '\u{c}' { seq!['\\', 'f'] }
    else if c == '\r' { seq!['\\', 'r'] }
    else if must_escape(c) {
        seq!['\\', 'u', '0', '0', hex_digit((c as u32 / 16) as nat), hex_digit((c as u32 % 16) as nat)]
    } else {
        seq![c]
    }
}

/// TOML basic-string escaping of a whole value.
pub open spec fn escape_seq(s: Seq<char>) -> Seq<char>
    decreases s.len(),
{
    if s.len() == 0 {
        Seq::empty()
    } else {
        escape_char(s[0]) + escape_seq(s.skip(1))
    }
}

/// `lang = "`, the opening of the document's first line.
pub open spec fn lang_open() -> Seq<char> {
    seq!['l', 'a', 'n', 'g', ' ', '=', ' ', '"']
}

/// `discord_token = "`, the opening of the second line.
pub open spec fn discord_open() -> Seq<char> {
    seq!['d', 'i', 's', 'c', 'o', 'r', 'd', '_', 't', 'o', 'k', 'e', 'n', ' ', '=', ' ', '"']
}

/// `telegram_token = "`, the opening of the third line.
pub open spec fn telegram_open() -> Seq<char> {
    seq!['t', 'e', 'l', 'e', 'g', 'r', 'a', 'm', '_', 't', 'o', 'k', 'e', 'n', ' ', '=', ' ', '"']
}

/// The closing quote and line break that end each line.
pub open spec fn line_close() -> Seq<char> {
    seq!['"', '\n']
}

/// The whole persisted document for a configuration.
pub open spec fn config_doc(c: ConfigModel) -> Seq<char> {
    lang_open() + escape_seq(c.lang) + line_close() + discord_open() + escape_seq(c.discord_token)
        + line_close() + telegram_open() + escape_seq(c.telegram_token) + line_close()
}

impl Config {
    /// Serializes the configuration to the TOML document that is
    /// persisted: exactly the characters [`config_doc`] describes.
    pub fn to_toml_string(&self) -> (r: String)
        ensures
            r@ == config_doc(self@),
    {
        let mut out = String::new();
        out.append("lang = \"");
        push_escaped_str(&mut out, self.lang.as_str());
        out.append("\"\n");
        out.append("discord_token = \"");
        push_escaped_str(&mut out, self.discord_token.as_str());
        out.append("\"\n");
        out.append("telegram_token = \"");
        push_escaped_str(&mut out, self.telegram_token.as_str());
        out.append("\"\n");
        proof {
            reveal_strlit("lang = \"");
            reveal_strlit("discord_token = \"");
            reveal_strlit("telegram_token = \"");
            reveal_strlit("\"\n");
            assert(("lang = \"")@ =~= lang_open());
            assert(("discord_token = \"")@ =~= discord_open());
            assert(("telegram_token = \"")@ =~= telegram_open());
            assert(("\"\n")@ =~= line_close());
            assert(out@ =~= config_doc(self@));
        }
        out
    }
}

/// Appends the escape of every character of `s` to `out`.
fn push_escaped_str(out: &mut String, s: &str)
    ensures
        final(out)@ == old(out)@ + escape_seq(s@),
{
    let len = s.unicode_len();
    let mut i: usize = 0;
    while i < len
        invariant
            i <= len,
            len == s@.len(),
            out@ == old(out)@ + escape_seq(s@.take(i as int)),
        decreases len - i,
    {
        let c = s.get_char(i);
        push_escaped(out, c);
        proof {
            lemma_escape_seq_snoc(s@.take(i as int), c);
            assert(s@.take(i + 1) =~= s@.take(i as int).push(s@[i as int]));
        }
        i = i + 1;
    }
    proof {
        assert(s@.take(len as int) =~= s@);
    }
}

/// Appends the TOML basic-string escape of one character to `out`.
fn push_escaped(out: &mut String, c: char)
    ensures
        final(out)@ == old(out)@ + escape_char(c),
{
    if c == '"' {
        push_char(out, '\\');
        push_char(out, '"');
    } else if c == '\\' {
        push_char(out, '\\');
        push_char(out, '\\');
    } else if c == '\u{8}' {
        push_char(out, '\\');
        push_char(out, 'b');
    } else if c == '\t' {
        push_char(out, '\\');
        push_char(out, 't');
    } else if c == '\n' {
        push_char(out, '\\');
        push_char(out, 'n');
    } else if c == '\u{c}' {
        push_char(out, '\\');
        push_char(out, 'f');
    } else if c == '\r' {
        push_char(out, '\\');
        push_char(out, 'r');
    } else if (c as u32) < 0x20 || (c as u32) == 0x7f {
        let n: u32 = c as u32;
        push_char(out, '\\');
        push_char(out, 'u');
        push_char(out, '0');
        push_char(out, '0');
        push_char(out, hex_digit_exec(n / 16));
        push_char(out, hex_digit_exec(n % 16));
    } else {
        push_char(out, c);
    }
    proof {
        assert(final(out)@ =~= old(out)@ + escape_char(c));
    }
}

/// The lower-case hexadecimal digit for `d < 16`, as executable code.
fn hex_digit_exec(d: u32) -> (r: char)
    requires
        d < 16,
    ensures
        r == hex_digit(d as nat),
{
    if d == 0 { '0' }
    else if d == 1 { '1' }
    else if d == 2 { '2' }
    else if d == 3 { '3' }
    else if d == 4 { '4' }
    else if d == 5 { '5' }
    else if d == 6 { '6' }
    else if d == 7 { '7' }
    else if d == 8 { '8' }
    else if d == 9 { '9' }
    else if d == 10 { 'a' }
    else if d == 11 { 'b' }
    else if d == 12 { 'c' }
    else if d == 13 { 'd' }
    else if d == 14 { 'e' }
    else { 'f' }
}

/// The character a named escape stands for.
pub open spec fn unescape_named(e: char) -> Option<char> {
    if e == '"' { Some('"') }
    else if e == '\\' { Some('\\') }
    else if e == 'b' { Some('\u{8}') }
    else if e == 't' { Some('\t') }
    else if e == 'n' { Some('\n') }
    else if e == 'f' { Some('\u{c}') }
    else if e == 'r' { Some('\r') }
    else { None }
}

/// Puts one decoded character in front of a partial parse.
pub open spec fn cons_parsed(c: char, r: Option<(Seq<char>, Seq<char>)>) -> Option<(Seq<char>, Seq<char>)> {
    match r {
        Some(p) => Some((seq![c] + p.0, p.1)),
        None => None,
    }
}

/// Reads a TOML basic string's body up to and including its closing
/// quote; yields the decoded contents and the input that follows the
/// quote. Rejects what TOML rejects: an unterminated string, a raw
/// control character, an unknown or malformed escape, and a `\u`
/// escape that does not name a unicode scalar value.
pub open spec fn parse_string_body(s: Seq<char>) -> Option<(Seq<char>, Seq<char>)>
    decreases s.len(),
{
    if s.len() == 0 {
        None
    } else if s[0] == '"' {
        Some((Seq::empty(), s.skip(1)))
    } else if s[0] == '\\' {
        if s.len() < 2 {
            None
        } else if s[1] == 'u' {
            if s.len() < 6 {
                None
            } else {
                match (hex_val(s[2]), hex_val(s[3]), hex_val(s[4]), hex_val(s[5])) {
                    (Some(d0), Some(d1), Some(d2), Some(d3)) => {
                        let n = d0 * 4096 + d1 * 256 + d2 * 16 + d3;
                        if n < 0xD800 {
                            cons_parsed((n as u32) as char, parse_string_body(s.skip(6)))
                        } else {
                            None
                        }
                    },
                    _ => None,
                }
            }
        } else {
            match unescape_named(s[1]) {
                Some(c) => cons_parsed(c, parse_string_body(s.skip(2))),
                None => None,
            }
        }
    } else if must_escape(s[0]) {
        None
    } else {
        cons_parsed(s[0], parse_string_body(s.skip(1)))
    }
}

/// Strips an exact expected prefix, or rejects the input.
pub open spec fn strip_prefix(p: Seq<char>, s: Seq<char>) -> Option<Seq<char>> {
    if p.is_prefix_of(s) {
        Some(s.skip(p.len() as int))
    } else {
        None
    }
}

/// Reads one `key = "value"` line, line break included; yields the
/// decoded value and the input that follows the line.
pub open spec fn parse_line(open: Seq<char>, s: Seq<char>) -> Option<(Seq<char>, Seq<char>)> {
    match strip_prefix(open, s) {
        Some(r) => match parse_string_body(r) {
            Some(p) => match strip_prefix(seq!['\n'], p.1) {
                Some(rest) => Some((p.0, rest)),
                None => None,
            },
            None => None,
        },
        None => None,
    }
}

/// Reads a whole persisted document back into a configuration model:
/// the three lines in their fixed order, with nothing after them.
pub open spec fn parse_config_doc(s: Seq<char>) -> Option<ConfigModel> {
    match parse_line(lang_open(), s) {
        Some(l) => match parse_line(discord_open(), l.1) {
            Some(d) => match parse_line(telegram_open(), d.1) {
                Some(t) => if t.1.len() == 0 {
                    Some(ConfigModel { lang: l.0, discord_token: d.0, telegram_token: t.0 })
                } else {
                    None
                },
                None => None,
            },
            None => None,
        },
        None => None,
    }
}

/// Escaping a value one character longer appends that character's
/// escape.
proof fn lemma_escape_seq_snoc(s: Seq<char>, c: char)
    ensures
        escape_seq(s.push(c)) == escape_seq(s) + escape_char(c),
    decreases s.len(),
{
    let t = s.push(c);
    assert(t[s.len() as int] == c);
    if s.len() == 0 {
        assert(t[0] == c);
        assert(t.skip(1) =~= Seq::<char>::empty());
        assert(escape_seq(t) == escape_char(c) + escape_seq(Seq::<char>::empty()));
        assert(escape_char(c) + Seq::<char>::empty() =~= Seq::<char>::empty() + escape_char(c));
        assert(escape_seq(s.push(c)) == escape_seq(s) + escape_char(c));
    } else {
        assert(t[0] == s[0]);
        assert(t.skip(1) =~= s.skip(1).push(c));
        lemma_escape_seq_snoc(s.skip(1), c);
        assert(escape_seq(t) == escape_char(s[0]) + (escape_seq(s.skip(1)) + escape_char(c)));
        assert(escape_char(s[0]) + (escape_seq(s.skip(1)) + escape_char(c)) =~= (escape_char(s[0])
            + escape_seq(s.skip(1))) + escape_char(c));
        assert(escape_seq(s.push(c)) == escape_seq(s) + escape_char(c));
    }
}

/// A digit written and read back keeps its value.
proof fn lemma_hex_round_trip(d: nat)
    requires
        d < 16,
    ensures
        hex_val(hex_digit(d)) == Some(d),
{
}

/// Law, one string: the escaped value followed by its closing quote
/// reads back as exactly that value, whatever follows the quote.
pub proof fn lemma_parse_escaped(s: Seq<char>, rest: Seq<char>)
    ensures
        parse_string_body(escape_seq(s) + seq!['"'] + rest) == Some((s, rest)),
    decreases s.len(),
{
    let input = escape_seq(s) + seq!['"'] + rest;
    if s.len() == 0 {
        assert(input =~= seq!['"'] + rest);
        assert(input[0] == '"');
        assert(input.skip(1) =~= rest);
        assert(s =~= Seq::<char>::empty());
    } else {
        let c = s[0];
        let e = escape_char(c);
        let tail = escape_seq(s.skip(1)) + seq!['"'] + rest;
        assert(escape_seq(s) == e + escape_seq(s.skip(1)));
        assert(input =~= e + tail);
        lemma_parse_escaped(s.skip(1), rest);
        assert(seq![c] + s.skip(1) =~= s);
        assert(tail.len() >= 1);
        if c == '"' || c == '\\' || c == '\u{8}' || c == '\t' || c == '\n' || c == '\u{c}' || c
            == '\r' {
            // a two-character named escape
            assert(e.len() == 2);
            assert(input[0] == '\\');
            assert(input[1] == e[1]);
            assert(e[1] != 'u');
            assert(unescape_named(e[1]) == Some(c));
            assert(input.skip(2) =~= tail);
            assert(parse_string_body(input) == cons_parsed(c, parse_string_body(tail)));
        } else if must_escape(c) {
            // a six-character \u00XY escape
            let n: u32 = c as u32;
            assert(n <= 0x7f);
            let hi = (n / 16) as nat;
            let lo = (n % 16) as nat;
            assert(hi < 16 && lo < 16);
            lemma_hex_round_trip(hi);
            lemma_hex_round_trip(lo);
            assert(e.len() == 6);
            assert(input[0] == '\\');
            assert(input[1] == 'u');
            assert(input[2] == '0');
            assert(input[3] == '0');
            assert(input[4] == hex_digit(hi));
            assert(input[5] == hex_digit(lo));
            let v = 0nat * 4096 + 0nat * 256 + hi * 16 + lo;
            assert(v == n) by {
                assert(16 * (n / 16) + n % 16 == n);
            }
            assert(v < 0xD800);
            assert(v as u32 == n);
            vstd::utf8::char_u32_cast(c, n);
            assert((v as u32) as char == c);
            assert(input.skip(6) =~= tail);
            assert(parse_string_body(input) == cons_parsed(c, parse_string_body(tail)));
        } else {
            // the character stands for itself
            assert(e.len() == 1);
            assert(input[0] == c);
            assert(c != '"' && c != '\\' && !must_escape(c));
            assert(input.skip(1) =~= tail);
            assert(parse_string_body(input) == cons_parsed(c, parse_string_body(tail)));
        }
        assert(parse_string_body(input) == Some((s, rest)));
    }
}

/// Stripping a prefix undoes putting it in front.
proof fn lemma_strip_prefix(p: Seq<char>, x: Seq<char>)
    ensures
        strip_prefix(p, p + x) == Some(x),
{
    assert(p =~= (p + x).subrange(0, p.len() as int));
    assert((p + x).skip(p.len() as int) =~= x);
}

/// Law, one line: a written `key = "value"` line reads back as the
/// value it was written from, whatever follows the line.
pub proof fn lemma_parse_line_round_trip(open: Seq<char>, v: Seq<char>, rest: Seq<char>)
    ensures
        parse_line(open, open + escape_seq(v) + line_close() + rest) == Some((v, rest)),
{
    let after = escape_seq(v) + line_close() + rest;
    assert(open + escape_seq(v) + line_close() + rest =~= open + after);
    lemma_strip_prefix(open, after);
    assert(after =~= escape_seq(v) + seq!['"'] + (seq!['\n'] + rest));
    lemma_parse_escaped(v, seq!['\n'] + rest);
    lemma_strip_prefix(seq!['\n'], rest);
}

/// Law: reading a freshly written document yields exactly the
/// configuration it was written from — the persisted keys equal the
/// in-memory fields.
pub proof fn lemma_config_doc_round_trip(c: ConfigModel)
    ensures
        parse_config_doc(config_doc(c)) == Some(c),
{
    let doc = config_doc(c);
    let line3 = telegram_open() + escape_seq(c.telegram_token) + line_close();
    let line2 = discord_open() + escape_seq(c.discord_token) + line_close();
    assert(doc =~= lang_open() + escape_seq(c.lang) + line_close() + (line2 + line3));
    lemma_parse_line_round_trip(lang_open(), c.lang, line2 + line3);
    assert(line2 + line3 =~= discord_open() + escape_seq(c.discord_token) + line_close() + line3);
    lemma_parse_line_round_trip(discord_open(), c.discord_token, line3);
    assert(line3 =~= telegram_open() + escape_seq(c.telegram_token) + line_close()
        + Seq::<char>::empty());
    lemma_parse_line_round_trip(telegram_open(), c.telegram_token, Seq::<char>::empty());
    assert((ConfigModel {
        lang: c.lang,
        discord_token: c.discord_token,
        telegram_token: c.telegram_token,
    }) =~= c);
}

} // verus!
