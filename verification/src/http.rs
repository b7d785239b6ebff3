//! The wire format of the creation exchange.
//!
//! The request body is a small JSON object, `{"name":null}` or
//! `{"name":"..."}` with the name escaped; the response body on success
//! is `{"name":"...","url":"...","git_repo":"..."}`. The functions here
//! encode the request, parse the response, and interpret the status
//! code; the transport itself stays outside the library.

use vstd::prelude::*;
use crate::CliError;
use crate::api::ApplicationCreateResponse;

verus! {

/// The decimal digit character for `d` (meaningful for `d < 10`).
pub open spec fn dec_digit(d: nat) -> char {
    ((48 + d) as u8) as char
}

/// The decimal numeral of `n`, most significant digit first.
pub open spec fn dec_seq(n: nat) -> Seq<char>
    decreases n,
{
    if n < 10 {
        seq![dec_digit(n)]
    } else {
        dec_seq(n / 10).push(dec_digit(n % 10))
    }
}

/// Relies on String::push: appends the given character at the end.
#[verifier::external_body]
fn push_char(out: &mut String, c: char)
    ensures
        final(out)@ == old(out)@ + seq![c],
{
    out.push(c);
}

/// Appends the decimal numeral of `n` to `out`.
fn push_decimal(out: &mut String, n: u16)
    ensures
        final(out)@ == old(out)@ + dec_seq(n as nat),
    decreases n,
{
    if n < 10 {
        push_char(out, (48 + (n as u8)) as char);
        assert(final(out)@ =~= old(out)@ + dec_seq(n as nat));
    } else {
        push_decimal(out, n / 10);
        push_char(out, (48 + ((n % 10) as u8)) as char);
        assert(final(out)@ =~= old(out)@ + dec_seq(n as nat));
    }
}

/// The message reported when the server answers with a status other
/// than 201, carrying the numeric code.
pub open spec fn spec_status_message(code: u16) -> Seq<char> {
    "The server response status "@ + dec_seq(code as nat) + "."@
}

/// Renders the non-created status message for the given code.
pub fn status_message(code: u16) -> (r: String)
    ensures
        r@ == spec_status_message(code),
{
    let mut out = String::from_str("The server response status ");
    push_decimal(&mut out, code);
    out.append(".");
    proof {
        assert(out@ =~= spec_status_message(code));
    }
    out
}

/// The lowercase hexadecimal digit character for `d` (meaningful for
/// `d < 16`).
pub open spec fn hex_digit(d: nat) -> char {
    if d < 10 {
        ((48 + d) as u8) as char
    } else {
        ((87 + d) as u8) as char
    }
}

/// The JSON escape of one character inside a string value: quote,
/// backslash and the named control characters take a two-character
/// escape, any other control character a `\u00..` escape, and every
/// other character stands for itself.
pub open spec fn esc_char(c: char) -> Seq<char> {
    if c == '"' {
        seq!['\\', '"']
    } else if c == '\\' {
        seq!['\\', '\\']
    } else if c == '\u{8}' {
        seq!['\\', 'b']
    } else if c == '\u{c}' {
        seq!['\\', 'f']
    } else if c == '\n' {
        seq!['\\', 'n']
    } else if c == '\r' {
        seq!['\\', 'r']
    } else if c == '\t' {
        seq!['\\', 't']
    } else if (c as u32) < 32 {
        seq!['\\', 'u', '0', '0', hex_digit(((c as u32) / 16) as nat), hex_digit(
            ((c as u32) % 16) as nat,
        )]
    } else {
        seq![c]
    }
}

/// The JSON escape of a whole string value.
pub open spec fn esc_seq(s: Seq<char>) -> Seq<char>
    decreases s.len(),
{
    if s.len() == 0 {
        Seq::empty()
    } else {
        esc_char(s[0]) + esc_seq(s.drop_first())
    }
}

/// Escaping distributes over concatenation.
proof fn lemma_esc_seq_concat(a: Seq<char>, b: Seq<char>)
    ensures
        esc_seq(a + b) == esc_seq(a) + esc_seq(b),
    decreases a.len(),
{
    if a.len() == 0 {
        assert(a + b =~= b);
        assert(esc_seq(a) + esc_seq(b) =~= esc_seq(b));
    } else {
        assert((a + b).drop_first() =~= a.drop_first() + b);
        lemma_esc_seq_concat(a.drop_first(), b);
        assert((a + b)[0] == a[0]);
        assert(esc_seq(a + b) =~= esc_seq(a) + esc_seq(b));
    }
}

/// The escape of a one-character string is the character's escape.
proof fn lemma_esc_seq_singleton(c: char)
    ensures
        esc_seq(seq![c]) == esc_char(c),
{
    assert(seq![c].drop_first() =~= Seq::<char>::empty());
    assert(esc_seq(Seq::<char>::empty()) =~= Seq::<char>::empty());
    assert(esc_seq(seq![c]) =~= esc_char(c) + esc_seq(seq![c].drop_first()));
    assert(esc_char(c) + Seq::<char>::empty() =~= esc_char(c));
}

/// The lowercase hexadecimal digit character for `d`.
fn hex_digit_char(d: u8) -> (c: char)
    requires
        d < 16,
    ensures
        c == hex_digit(d as nat),
{
    if d < 10 {
        (48 + d) as char
    } else {
        (87 + d) as char
    }
}

/// Appends the JSON escape of `s` to `out`.
fn push_escaped(out: &mut String, s: &str)
    ensures
        final(out)@ == old(out)@ + esc_seq(s@),
{
    let len = s.unicode_len();
    let mut i: usize = 0;
    proof {
        assert(s@.subrange(0, 0) =~= Seq::<char>::empty());
        assert(out@ =~= out@ + esc_seq(s@.subrange(0, 0)));
    }
    while i < len
        invariant
            i <= len,
            len == s@.len(),
            out@ == old(out)@ + esc_seq(s@.subrange(0, i as int)),
        decreases len - i,
    {
        let c = s.get_char(i);
        let code = c as u32;
        if c == '"' {
            push_char(out, '\\');
            push_char(out, '"');
        } else if c == '\\' {
            push_char(out, '\\');
            push_char(out, '\\');
        } else if c == '\u{8}' {
            push_char(out, '\\');
            push_char(out, 'b');
        } else if c == '\u{c}' {
            push_char(out, '\\');
            push_char(out, 'f');
        } else if c == '\n' {
            push_char(out, '\\');
            push_char(out, 'n');
        } else if c == '\r' {
            push_char(out, '\\');
            push_char(out, 'r');
        } else if c == '\t' {
            push_char(out, '\\');
            push_char(out, 't');
        } else if code < 32 {
            push_char(out, '\\');
            push_char(out, 'u');
            push_char(out, '0');
            push_char(out, '0');
            push_char(out, hex_digit_char((code / 16) as u8));
            push_char(out, hex_digit_char((code % 16) as u8));
        } else {
            push_char(out, c);
        }
        proof {
            lemma_esc_seq_concat(s@.subrange(0, i as int), seq![s@[i as int]]);
            lemma_esc_seq_singleton(s@[i as int]);
            assert(s@.subrange(0, i + 1) =~= s@.subrange(0, i as int) + seq![s@[i as int]]);
            assert(out@ =~= old(out)@ + esc_seq(s@.subrange(0, i + 1)));
        }
        i = i + 1;
    }
    proof {
        assert(s@.subrange(0, len as int) =~= s@);
    }
}

/// The JSON body of a creation request: the name, or null when absent.
pub open spec fn spec_request_body(name: Option<Seq<char>>) -> Seq<char> {
    match name {
        None => "{\"name\":null}"@,
        Some(n) => "{\"name\":\""@ + esc_seq(n) + "\"}"@,
    }
}

/// Encodes the creation request body for the given optional name.
pub fn request_body(name: &Option<String>) -> (r: String)
    ensures
        r@ == match name {
            Some(n) => spec_request_body(Some(n@)),
            None => spec_request_body(None),
        },
{
    match name {
        None => String::from_str("{\"name\":null}"),
        Some(n) => {
            let mut out = String::from_str("{\"name\":\"");
            push_escaped(&mut out, n.as_str());
            out.append("\"}");
            proof {
                assert(out@ =~= spec_request_body(Some(n@)));
            }
            out
        },
    }
}
/// The character a two-character escape stands for, where the escape
/// is a known one.
pub open spec fn unescape_of(e: char) -> Option<char> {
    if e == '"' {
        Some('"')
    } else if e == '\\' {
        Some('\\')
    } else if e == '/' {
        Some('/')
    } else if e == 'b' {
        Some('\u{8}')
    } else if e == 'f' {
        Some('\u{c}')
    } else if e == 'n' {
        Some('\n')
    } else if e == 'r' {
        Some('\r')
    } else if e == 't' {
        Some('\t')
    } else {
        None
    }
}

/// The value of one hexadecimal digit character, either case.
pub open spec fn hex_val(c: char) -> Option<u32> {
    let v = c as u32;
    if 48 <= v && v <= 57 {
        Some((v - 48) as u32)
    } else if 97 <= v && v <= 102 {
        Some((v - 87) as u32)
    } else if 65 <= v && v <= 70 {
        Some((v - 55) as u32)
    } else {
        None
    }
}

/// The value of four hexadecimal digit characters, most significant
/// first (meaningful for a sequence of length 4).
pub open spec fn hex4_val(s: Seq<char>) -> Option<u32> {
    match (hex_val(s[0]), hex_val(s[1]), hex_val(s[2]), hex_val(s[3])) {
        (Some(a), Some(b), Some(c), Some(d)) => Some((a * 4096 + b * 256 + c * 16 + d) as u32),
        _ => None,
    }
}

/// The scalar value a surrogate pair stands for.
pub open spec fn surrogate_pair_code(hi: u32, lo: u32) -> u32 {
    (0x10000 + (hi - 0xD800) * 0x400 + (lo - 0xDC00)) as u32
}

/// Reads a JSON string value from the front of `s`, the opening quote
/// already consumed: the unescaped content, and what follows the
/// closing quote. `None` where the text is not a valid string body:
/// no closing quote, an unknown escape, a bad or unpaired `\u`
/// escape, or a raw control character.
pub open spec fn parse_jstr(s: Seq<char>) -> Option<(Seq<char>, Seq<char>)>
    decreases s.len(),
{
    if s.len() == 0 {
        None
    } else if s[0] == '"' {
        Some((Seq::empty(), s.drop_first()))
    } else if s[0] == '\\' {
        if s.len() < 2 {
            None
        } else if s[1] == 'u' {
            if s.len() < 6 {
                None
            } else {
                match hex4_val(s.subrange(2, 6)) {
                    Some(code) => if code < 0xD800 || code >= 0xE000 {
                        match parse_jstr(s.skip(6)) {
                            Some(p) => Some((seq![code as char] + p.0, p.1)),
                            None => None,
                        }
                    } else if code < 0xDC00 {
                        if s.len() >= 12 && s[6] == '\\' && s[7] == 'u' {
                            match hex4_val(s.subrange(8, 12)) {
                                Some(lo) => if 0xDC00 <= lo && lo < 0xE000 {
                                    match parse_jstr(s.skip(12)) {
                                        Some(p) => Some(
                                            (
                                                seq![surrogate_pair_code(code, lo) as char] + p.0,
                                                p.1,
                                            ),
                                        ),
                                        None => None,
                                    }
                                } else {
                                    None
                                },
                                None => None,
                            }
                        } else {
                            None
                        }
                    } else {
                        None
                    },
                    None => None,
                }
            }
        } else {
            match unescape_of(s[1]) {
                Some(u) => match parse_jstr(s.skip(2)) {
                    Some(p) => Some((seq![u] + p.0, p.1)),
                    None => None,
                },
                None => None,
            }
        }
    } else if (s[0] as u32) < 32 {
        None
    } else {
        match parse_jstr(s.drop_first()) {
            Some(p) => Some((seq![s[0]] + p.0, p.1)),
            None => None,
        }
    }
}

/// Whether a character counts as JSON whitespace between tokens.
pub open spec fn is_ws(c: char) -> bool {
    c == ' ' || c == '\t' || c == '\n' || c == '\r'
}

/// `s` with its leading whitespace dropped.
pub open spec fn skip_ws(s: Seq<char>) -> Seq<char>
    decreases s.len(),
{
    if s.len() > 0 && is_ws(s[0]) {
        skip_ws(s.drop_first())
    } else {
        s
    }
}

/// Reads one `"key":"value"` member from the front of `s`, whitespace
/// before the key and around the separator allowed: the key, the
/// value, and what follows the value's closing quote.
pub open spec fn parse_member(s: Seq<char>) -> Option<((Seq<char>, Seq<char>), Seq<char>)> {
    let s0 = skip_ws(s);
    if s0.len() > 0 && s0[0] == '"' {
        match parse_jstr(s0.drop_first()) {
            Some(k) => {
                let s1 = skip_ws(k.1);
                if s1.len() > 0 && s1[0] == ':' {
                    let s2 = skip_ws(s1.drop_first());
                    if s2.len() > 0 && s2[0] == '"' {
                        match parse_jstr(s2.drop_first()) {
                            Some(v) => Some(((k.0, v.0), v.1)),
                            None => None,
                        }
                    } else {
                        None
                    }
                } else {
                    None
                }
            },
            None => None,
        }
    } else {
        None
    }
}

/// Files one parsed member under the field its key names: each of the
/// three fields may be given once; a second occurrence, or a key that
/// names no field, refuses the member.
pub open spec fn member_slots(
    slots: Option<(Option<Seq<char>>, Option<Seq<char>>, Option<Seq<char>>)>,
    m: (Seq<char>, Seq<char>),
) -> Option<(Option<Seq<char>>, Option<Seq<char>>, Option<Seq<char>>)> {
    match slots {
        None => None,
        Some(t) => if m.0 == "name"@ {
            if t.0 is None {
                Some((Some(m.1), t.1, t.2))
            } else {
                None
            }
        } else if m.0 == "url"@ {
            if t.1 is None {
                Some((t.0, Some(m.1), t.2))
            } else {
                None
            }
        } else if m.0 == "git_repo"@ {
            if t.2 is None {
                Some((t.0, t.1, Some(m.1)))
            } else {
                None
            }
        } else {
            None
        },
    }
}

/// Reads a creation response body: a JSON object holding exactly the
/// members `name`, `url` and `git_repo`, each once, in any order,
/// each value a JSON string, whitespace allowed between tokens.
pub open spec fn spec_parse_response(s: Seq<char>) -> Option<(Seq<char>, Seq<char>, Seq<char>)> {
    let s0 = skip_ws(s);
    if s0.len() > 0 && s0[0] == '{' {
        match parse_member(s0.drop_first()) {
            Some(m1) => {
                let r1 = skip_ws(m1.1);
                if r1.len() > 0 && r1[0] == ',' {
                    match parse_member(r1.drop_first()) {
                        Some(m2) => {
                            let r2 = skip_ws(m2.1);
                            if r2.len() > 0 && r2[0] == ',' {
                                match parse_member(r2.drop_first()) {
                                    Some(m3) => {
                                        let r3 = skip_ws(m3.1);
                                        if r3.len() > 0 && r3[0] == '}' && skip_ws(
                                            r3.drop_first(),
                                        ).len() == 0 {
                                            match member_slots(
                                                member_slots(
                                                    member_slots(
                                                        Some(
                                                            (
                                                                None::<Seq<char>>,
                                                                None::<Seq<char>>,
                                                                None::<Seq<char>>,
                                                            ),
                                                        ),
                                                        m1.0,
                                                    ),
                                                    m2.0,
                                                ),
                                                m3.0,
                                            ) {
                                                Some(t) => if t.0 is Some && t.1 is Some && t.2
                                                    is Some {
                                                    Some(
                                                        (t.0.unwrap(), t.1.unwrap(), t.2.unwrap()),
                                                    )
                                                } else {
                                                    None
                                                },
                                                None => None,
                                            }
                                        } else {
                                            None
                                        }
                                    },
                                    None => None,
                                }
                            } else {
                                None
                            }
                        },
                        None => None,
                    }
                } else {
                    None
                }
            },
            None => None,
        }
    } else {
        None
    }
}

/// The canonical encoding of one string member.
pub open spec fn member_enc(key: Seq<char>, value: Seq<char>) -> Seq<char> {
    seq!['"'] + esc_seq(key) + seq!['"', ':', '"'] + esc_seq(value) + seq!['"']
}

/// The canonical encoding of a creation response body, the compact
/// form a JSON emitter writes: the three members in declaration
/// order, no whitespace.
pub open spec fn spec_response_body(name: Seq<char>, url: Seq<char>, git_repo: Seq<char>) -> Seq<
    char,
> {
    seq!['{'] + member_enc("name"@, name) + seq![','] + member_enc("url"@, url) + seq![',']
        + member_enc("git_repo"@, git_repo) + seq!['}']
}

/// A string value's escape followed by its closing quote parses back
/// to the value, leaving the tail: escaping loses nothing.
#[verifier::rlimit(50)]
proof fn lemma_parse_escaped(content: Seq<char>, tail: Seq<char>)
    ensures
        parse_jstr(esc_seq(content) + seq!['"'] + tail) == Some((content, tail)),
    decreases content.len(),
{
    let s = esc_seq(content) + seq!['"'] + tail;
    if content.len() == 0 {
        assert(esc_seq(content) =~= Seq::<char>::empty());
        assert(s =~= seq!['"'] + tail);
        assert(s[0] == '"');
        assert(s.drop_first() =~= tail);
        assert(Seq::<char>::empty() =~= content);
    } else {
        let c = content[0];
        let rest = content.drop_first();
        lemma_parse_escaped(rest, tail);
        let s2 = esc_seq(rest) + seq!['"'] + tail;
        assert(esc_seq(content) == esc_char(c) + esc_seq(rest));
        assert(s =~= esc_char(c) + s2);
        assert(seq![c] + rest =~= content);
        if c == '"' || c == '\\' || c == '\u{8}' || c == '\u{c}' || c == '\n' || c == '\r' || c
            == '\t' {
            let e = esc_char(c)[1];
            assert(esc_char(c) =~= seq!['\\', e]);
            assert(unescape_of(e) == Some(c));
            assert(e != 'u');
            assert(s[0] == '\\');
            assert(s[1] == e);
            assert(s.len() >= 3);
            assert(s.skip(2) =~= s2);
        } else if (c as u32) < 32 {
            let code = c as u32;
            assert(esc_char(c) =~= seq!['\\', 'u', '0', '0', hex_digit((code / 16) as nat), hex_digit(
                (code % 16) as nat,
            )]);
            assert(s[0] == '\\');
            assert(s[1] == 'u');
            assert(s.len() >= 7);
            assert(s.subrange(2, 6) =~= seq!['0', '0', hex_digit((code / 16) as nat), hex_digit(
                (code % 16) as nat,
            )]);
            assert(hex_val('0') == Some(0u32));
            assert(hex_val(hex_digit((code / 16) as nat)) == Some((code / 16) as u32));
            assert(hex_val(hex_digit((code % 16) as nat)) == Some((code % 16) as u32));
            assert(hex4_val(s.subrange(2, 6)) == Some(code));
            vstd::utf8::char_u32_cast(c, code);
            assert(code as char == c);
            assert(s.skip(6) =~= s2);
        } else {
            assert(esc_char(c) =~= seq![c]);
            assert(s[0] == c);
            assert(s.drop_first() =~= s2);
        }
    }
}

/// A member's canonical encoding parses back to its key and value,
/// leaving the tail.
proof fn lemma_parse_member_enc(key: Seq<char>, value: Seq<char>, tail: Seq<char>)
    ensures
        parse_member(member_enc(key, value) + tail) == Some(((key, value), tail)),
{
    let s = member_enc(key, value) + tail;
    let t_key = seq![':', '"'] + esc_seq(value) + seq!['"'] + tail;
    assert(s[0] == '"');
    assert(skip_ws(s) == s);
    assert(s.drop_first() =~= esc_seq(key) + seq!['"'] + t_key);
    lemma_parse_escaped(key, t_key);
    assert(t_key[0] == ':');
    assert(skip_ws(t_key) == t_key);
    let s2 = t_key.drop_first();
    assert(s2 =~= seq!['"'] + (esc_seq(value) + seq!['"'] + tail));
    assert(s2[0] == '"');
    assert(skip_ws(s2) == s2);
    assert(s2.drop_first() =~= esc_seq(value) + seq!['"'] + tail);
    lemma_parse_escaped(value, tail);
}

/// For every response, the canonical body parses back to exactly its
/// fields: what a well-formed creation response carries comes through
/// unchanged.
pub proof fn lemma_response_round_trip(name: Seq<char>, url: Seq<char>, git_repo: Seq<char>)
    ensures
        spec_parse_response(spec_response_body(name, url, git_repo)) == Some(
            (name, url, git_repo),
        ),
{
    let body = spec_response_body(name, url, git_repo);
    let t3 = seq!['}'];
    let t2 = seq![','] + member_enc("git_repo"@, git_repo) + t3;
    let t1 = seq![','] + member_enc("url"@, url) + t2;
    assert(body[0] == '{');
    assert(skip_ws(body) == body);
    assert(body.drop_first() =~= member_enc("name"@, name) + t1);
    lemma_parse_member_enc("name"@, name, t1);
    assert(t1[0] == ',');
    assert(skip_ws(t1) == t1);
    assert(t1.drop_first() =~= member_enc("url"@, url) + t2);
    lemma_parse_member_enc("url"@, url, t2);
    assert(t2[0] == ',');
    assert(skip_ws(t2) == t2);
    assert(t2.drop_first() =~= member_enc("git_repo"@, git_repo) + t3);
    lemma_parse_member_enc("git_repo"@, git_repo, t3);
    assert(t3[0] == '}');
    assert(skip_ws(t3) == t3);
    assert(t3.drop_first() =~= Seq::<char>::empty());
    assert(skip_ws(Seq::<char>::empty()).len() == 0);
    reveal_strlit("name");
    reveal_strlit("url");
    reveal_strlit("git_repo");
    assert("name"@ != "url"@);
    assert("name"@ != "git_repo"@);
    assert("url"@ != "name"@);
    assert("url"@ != "git_repo"@);
    assert("git_repo"@ != "name"@);
    assert("git_repo"@ != "url"@);
}

/// The character a two-character escape stands for.
fn unescape_char(e: char) -> (r: Option<char>)
    ensures
        r == unescape_of(e),
{
    if e == '"' {
        Some('"')
    } else if e == '\\' {
        Some('\\')
    } else if e == '/' {
        Some('/')
    } else if e == 'b' {
        Some('\u{8}')
    } else if e == 'f' {
        Some('\u{c}')
    } else if e == 'n' {
        Some('\n')
    } else if e == 'r' {
        Some('\r')
    } else if e == 't' {
        Some('\t')
    } else {
        None
    }
}

/// Relies on char::from_u32: the character with the given scalar
/// value, defined for every code outside the surrogate range.
#[verifier::external_body]
fn char_from_code(code: u32) -> (c: char)
    requires
        code < 0xD800 || (0xE000 <= code && code < 0x110000),
    ensures
        c == code as char,
{
    char::from_u32(code).unwrap_or('\u{FFFD}')
}

/// The value of one hexadecimal digit character.
fn hex_digit_val(c: char) -> (r: Option<u32>)
    ensures
        r == hex_val(c),
{
    let v = c as u32;
    if 48 <= v && v <= 57 {
        Some(v - 48)
    } else if 97 <= v && v <= 102 {
        Some(v - 87)
    } else if 65 <= v && v <= 70 {
        Some(v - 55)
    } else {
        None
    }
}

/// The value of the four hexadecimal digits of `s` starting at `i`.
fn hex4_at(s: &str, i: usize) -> (r: Option<u32>)
    requires
        i + 4 <= s@.len(),
        s@.len() <= usize::MAX,
    ensures
        r == hex4_val(s@.subrange(i as int, i as int + 4)),
{
    proof {
        let sub = s@.subrange(i as int, i as int + 4);
        assert(sub[0] == s@[i as int]);
        assert(sub[1] == s@[i as int + 1]);
        assert(sub[2] == s@[i as int + 2]);
        assert(sub[3] == s@[i as int + 3]);
    }
    let a = match hex_digit_val(s.get_char(i)) {
        Some(v) => v,
        None => {
            return None;
        },
    };
    let b = match hex_digit_val(s.get_char(i + 1)) {
        Some(v) => v,
        None => {
            return None;
        },
    };
    let c = match hex_digit_val(s.get_char(i + 2)) {
        Some(v) => v,
        None => {
            return None;
        },
    };
    let d = match hex_digit_val(s.get_char(i + 3)) {
        Some(v) => v,
        None => {
            return None;
        },
    };
    Some(a * 4096 + b * 256 + c * 16 + d)
}

/// Reads a JSON string value from the front of `s`, as `parse_jstr`
/// says.
fn take_jstr<'a>(s: &'a str) -> (r: Option<(String, &'a str)>)
    ensures
        match r {
            Some(p) => parse_jstr(s@) == Some((p.0@, p.1@)),
            None => parse_jstr(s@) is None,
        },
    decreases s@.len(),
{
    let len = s.unicode_len();
    if len == 0 {
        return None;
    }
    let c0 = s.get_char(0);
    if c0 == '"' {
        let rest = s.substring_char(1, len);
        proof {
            assert(rest@ =~= s@.drop_first());
        }
        Some((String::new(), rest))
    } else if c0 == '\\' {
        if len < 2 {
            return None;
        }
        let c1 = s.get_char(1);
        if c1 == 'u' {
            if len < 6 {
                return None;
            }
            let code = match hex4_at(s, 2) {
                Some(v) => v,
                None => {
                    return None;
                },
            };
            if code < 0xD800 || code >= 0xE000 {
                let tail = s.substring_char(6, len);
                proof {
                    assert(tail@ =~= s@.skip(6));
                }
                match take_jstr(tail) {
                    Some(p) => {
                        let mut out = String::new();
                        push_char(&mut out, char_from_code(code));
                        out.append(p.0.as_str());
                        proof {
                            assert(out@ =~= seq![code as char] + p.0@);
                        }
                        Some((out, p.1))
                    },
                    None => None,
                }
            } else if code < 0xDC00 {
                if len < 12 {
                    return None;
                }
                if s.get_char(6) == '\\' && s.get_char(7) == 'u' {
                    let lo = match hex4_at(s, 8) {
                        Some(v) => v,
                        None => {
                            return None;
                        },
                    };
                    if 0xDC00 <= lo && lo < 0xE000 {
                        let combined = 0x10000 + (code - 0xD800) * 0x400 + (lo - 0xDC00);
                        let tail = s.substring_char(12, len);
                        proof {
                            assert(tail@ =~= s@.skip(12));
                            assert(combined == surrogate_pair_code(code, lo));
                        }
                        match take_jstr(tail) {
                            Some(p) => {
                                let mut out = String::new();
                                push_char(&mut out, char_from_code(combined));
                                out.append(p.0.as_str());
                                proof {
                                    assert(out@ =~= seq![surrogate_pair_code(code, lo) as char]
                                        + p.0@);
                                }
                                Some((out, p.1))
                            },
                            None => None,
                        }
                    } else {
                        None
                    }
                } else {
                    None
                }
            } else {
                None
            }
        } else {
            match unescape_char(c1) {
                Some(u) => {
                    let tail = s.substring_char(2, len);
                    proof {
                        assert(tail@ =~= s@.skip(2));
                    }
                    match take_jstr(tail) {
                        Some(p) => {
                            let mut out = String::new();
                            push_char(&mut out, u);
                            out.append(p.0.as_str());
                            proof {
                                assert(out@ =~= seq![u] + p.0@);
                            }
                            Some((out, p.1))
                        },
                        None => None,
                    }
                },
                None => None,
            }
        }
    } else if (c0 as u32) < 32 {
        None
    } else {
        let tail = s.substring_char(1, len);
        proof {
            assert(tail@ =~= s@.drop_first());
        }
        match take_jstr(tail) {
            Some(p) => {
                let mut out = String::new();
                push_char(&mut out, c0);
                out.append(p.0.as_str());
                proof {
                    assert(out@ =~= seq![c0] + p.0@);
                }
                Some((out, p.1))
            },
            None => None,
        }
    }
}

/// `s` with its leading whitespace dropped, as `skip_ws` says.
fn skip_ws_str<'a>(s: &'a str) -> (r: &'a str)
    ensures
        r@ == skip_ws(s@),
    decreases s@.len(),
{
    let len = s.unicode_len();
    if len > 0 {
        let c = s.get_char(0);
        if c == ' ' || c == '\t' || c == '\n' || c == '\r' {
            let rest = s.substring_char(1, len);
            proof {
                assert(rest@ =~= s@.drop_first());
            }
            return skip_ws_str(rest);
        }
    }
    s
}

/// Strips `c` from the front of `s`, where it stands there.
fn expect_char<'a>(s: &'a str, c: char) -> (r: Option<&'a str>)
    ensures
        match r {
            Some(rest) => s@.len() > 0 && s@[0] == c && rest@ == s@.drop_first(),
            None => !(s@.len() > 0 && s@[0] == c),
        },
{
    let len = s.unicode_len();
    if len > 0 {
        if s.get_char(0) == c {
            let rest = s.substring_char(1, len);
            proof {
                assert(rest@ =~= s@.drop_first());
            }
            return Some(rest);
        }
    }
    None
}

/// Reads one `"key":"value"` member from the front of `s`, as
/// `parse_member` says.
fn take_member<'a>(s: &'a str) -> (r: Option<((String, String), &'a str)>)
    ensures
        match r {
            Some(p) => parse_member(s@) == Some((((p.0).0@, (p.0).1@), p.1@)),
            None => parse_member(s@) is None,
        },
{
    let s0 = skip_ws_str(s);
    let s0b = match expect_char(s0, '"') {
        Some(rest) => rest,
        None => {
            return None;
        },
    };
    let (key, k_rest) = match take_jstr(s0b) {
        Some(p) => p,
        None => {
            return None;
        },
    };
    let s1 = skip_ws_str(k_rest);
    let s1b = match expect_char(s1, ':') {
        Some(rest) => rest,
        None => {
            return None;
        },
    };
    let s2 = skip_ws_str(s1b);
    let s2b = match expect_char(s2, '"') {
        Some(rest) => rest,
        None => {
            return None;
        },
    };
    let (value, v_rest) = match take_jstr(s2b) {
        Some(p) => p,
        None => {
            return None;
        },
    };
    Some(((key, value), v_rest))
}

/// The view of an optional owned string.
pub open spec fn view_opt(o: Option<String>) -> Option<Seq<char>> {
    match o {
        Some(s) => Some(s@),
        None => None,
    }
}

/// Files one member under the field its key names, as `member_slots`
/// says.
fn member_into_slots(
    slots: (Option<String>, Option<String>, Option<String>),
    m: (String, String),
) -> (r: Option<(Option<String>, Option<String>, Option<String>)>)
    ensures
        ({
            let sr = member_slots(
                Some((view_opt(slots.0), view_opt(slots.1), view_opt(slots.2))),
                (m.0@, m.1@),
            );
            match r {
                Some(t) => sr == Some((view_opt(t.0), view_opt(t.1), view_opt(t.2))),
                None => sr is None,
            }
        }),
{
    let (key, value) = m;
    let (s_name, s_url, s_git) = slots;
    let k_name = String::from_str("name");
    let k_url = String::from_str("url");
    let k_git = String::from_str("git_repo");
    if key.eq(&k_name) {
        if s_name.is_none() {
            Some((Some(value), s_url, s_git))
        } else {
            None
        }
    } else if key.eq(&k_url) {
        if s_url.is_none() {
            Some((s_name, Some(value), s_git))
        } else {
            None
        }
    } else if key.eq(&k_git) {
        if s_git.is_none() {
            Some((s_name, s_url, Some(value)))
        } else {
            None
        }
    } else {
        None
    }
}

/// The message reported when a 201 response carries a body the parser
/// does not read.
pub open spec fn spec_invalid_body_message() -> Seq<char> {
    "The server response body is invalid."@
}

/// Parses a creation response body, as `spec_parse_response` says,
/// handing the three fields through unchanged.
pub fn parse_response(body: &str) -> (r: Option<ApplicationCreateResponse>)
    ensures
        match r {
            Some(resp) => spec_parse_response(body@) == Some(
                (resp.name@, resp.url@, resp.git_repo@),
            ),
            None => spec_parse_response(body@) is None,
        },
{
    let s0 = skip_ws_str(body);
    let s0b = match expect_char(s0, '{') {
        Some(rest) => rest,
        None => {
            return None;
        },
    };
    let m1 = match take_member(s0b) {
        Some(p) => p,
        None => {
            return None;
        },
    };
    let r1 = skip_ws_str(m1.1);
    let r1b = match expect_char(r1, ',') {
        Some(rest) => rest,
        None => {
            return None;
        },
    };
    let m2 = match take_member(r1b) {
        Some(p) => p,
        None => {
            return None;
        },
    };
    let r2 = skip_ws_str(m2.1);
    let r2b = match expect_char(r2, ',') {
        Some(rest) => rest,
        None => {
            return None;
        },
    };
    let m3 = match take_member(r2b) {
        Some(p) => p,
        None => {
            return None;
        },
    };
    let r3 = skip_ws_str(m3.1);
    let r3b = match expect_char(r3, '}') {
        Some(rest) => rest,
        None => {
            return None;
        },
    };
    let tail = skip_ws_str(r3b);
    if tail.unicode_len() != 0 {
        return None;
    }
    let slots1 = match member_into_slots((None, None, None), m1.0) {
        Some(t) => t,
        None => {
            return None;
        },
    };
    let slots2 = match member_into_slots(slots1, m2.0) {
        Some(t) => t,
        None => {
            return None;
        },
    };
    let slots3 = match member_into_slots(slots2, m3.0) {
        Some(t) => t,
        None => {
            return None;
        },
    };
    match slots3 {
        (Some(name), Some(url), Some(git_repo)) => Some(
            ApplicationCreateResponse { name, url, git_repo },
        ),
        _ => None,
    }
}

/// The message reported when the request itself exceeded its
/// configured time limit.
pub open spec fn spec_timeout_message() -> Seq<char> {
    "request or operation took longer than the configured timeout time"@
}

/// Chooses the message a failed request carries: the stable timeout
/// text where the transport timed out, else the transport's own
/// words, unchanged.
pub fn transport_error_message(timed_out: bool, transport_text: String) -> (r: String)
    ensures
        timed_out ==> r@ == spec_timeout_message(),
        !timed_out ==> r@ == transport_text@,
{
    if timed_out {
        String::from_str("request or operation took longer than the configured timeout time")
    } else {
        transport_text
    }
}

/// Interprets one exchange: success is exactly status 201 with a
/// well-formed body, whose fields come through unchanged; any other
/// status is the status-code error; a 201 with a body the parser does
/// not read is the invalid-body error.
pub fn interpret_response(status: u16, body: &str) -> (r: Result<
    ApplicationCreateResponse,
    CliError,
>)
    ensures
        status != 201 ==> (r matches Err(e) && e.message@ == spec_status_message(status)),
        status == 201 ==> match spec_parse_response(body@) {
            Some(fields) => r matches Ok(resp) && resp.name@ == fields.0 && resp.url@ == fields.1
                && resp.git_repo@ == fields.2,
            None => r matches Err(e) && e.message@ == spec_invalid_body_message(),
        },
{
    if status != 201 {
        return Err(CliError { message: status_message(status) });
    }
    match parse_response(body) {
        Some(resp) => Ok(resp),
        None => Err(CliError { message: String::from_str("The server response body is invalid.") }),
    }
}

} // verus!
