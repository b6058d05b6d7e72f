//! Decoding the Alerta response body.
//!
//! The response is a JSON object `{"alerts": [ {...}, ... ]}`; each entry
//! of the array holds the string fields `severity`, `event` and `resource`.
//! Unknown fields, at the top level and inside each entry, are ignored. A
//! body that is not of this shape — malformed JSON, a missing required
//! field, a value of the wrong type — is rejected with a [`DecodeError`].
//!
//! The grammar is stated as a family of specification-level parsers over
//! the character sequence; [`decode_alerts`] is the executable decoder,
//! proved to return exactly what the specification parse yields. Severity
//! strings are decoded leniently: `"page"` and `"warn"` name the two urgent
//! levels, and any other string is taken as `Other`.
use vstd::prelude::*;
use vstd::string::StringExecFns;

use crate::alerts::{alert_views, Alert, AlertView, Severity};

verus! {

/// The response body was not of the expected JSON shape.
#[derive(Clone, Copy, Debug, PartialEq, Eq, Structural)]
pub struct DecodeError;

/// JSON insignificant whitespace.
pub open spec fn is_ws(c: char) -> bool {
    c == ' ' || c == '\t' || c == '\n' || c == '\r'
}

/// The first index at or after `i` that does not hold whitespace.
pub open spec fn skip_ws(s: Seq<char>, i: int) -> int
    decreases s.len() - i,
{
    if 0 <= i < s.len() && is_ws(s[i]) {
        skip_ws(s, i + 1)
    } else {
        i
    }
}

/// The value of a hexadecimal digit, or `None`.
pub open spec fn hex_val(c: char) -> Option<int> {
    let u = c as u32;
    if 48 <= u <= 57 {
        Some(u - 48)
    } else if 97 <= u <= 102 {
        Some(u - 97 + 10)
    } else if 65 <= u <= 70 {
        Some(u - 65 + 10)
    } else {
        None
    }
}

/// Whether four hexadecimal digits stand at `i`.
pub open spec fn hex4_at(s: Seq<char>, i: int) -> bool {
    &&& i + 4 <= s.len()
    &&& hex_val(s[i]) is Some
    &&& hex_val(s[i + 1]) is Some
    &&& hex_val(s[i + 2]) is Some
    &&& hex_val(s[i + 3]) is Some
}

/// The value of the four hexadecimal digits at `i`.
pub open spec fn hex4_val(s: Seq<char>, i: int) -> int {
    hex_val(s[i]).unwrap() * 0x1000 + hex_val(s[i + 1]).unwrap() * 0x100 + hex_val(
        s[i + 2],
    ).unwrap() * 0x10 + hex_val(s[i + 3]).unwrap()
}

/// Parse one escape sequence; `i` points just after the backslash. Yields
/// the denoted character and the index after the escape. A `\u` escape in
/// the high-surrogate range must be followed by one in the low-surrogate
/// range, and the pair denotes one supplementary-plane character; a lone
/// surrogate is rejected.
pub open spec fn parse_escape(s: Seq<char>, i: int) -> Option<(char, int)> {
    if i >= s.len() {
        None
    } else if s[i] == '"' {
        Some(('"', i + 1))
    } else if s[i] == '\\' {
        Some(('\\', i + 1))
    } else if s[i] == '/' {
        Some(('/', i + 1))
    } else if s[i] == 'b' {
        Some(('\u{8}', i + 1))
    } else if s[i] == 'f' {
        Some(('\u{c}', i + 1))
    } else if s[i] == 'n' {
        Some(('\n', i + 1))
    } else if s[i] == 'r' {
        Some(('\r', i + 1))
    } else if s[i] == 't' {
        Some(('\t', i + 1))
    } else if s[i] == 'u' {
        if hex4_at(s, i + 1) {
            let h: int = hex4_val(s, i + 1);
            if 0xD800 <= h < 0xDC00 {
                if i + 11 <= s.len() && s[i + 5] == '\\' && s[i + 6] == 'u' && hex4_at(s, i + 7) {
                    let l: int = hex4_val(s, i + 7);
                    if 0xDC00 <= l < 0xE000 {
                        let v: int = 0x10000 + (h - 0xD800) * 0x400 + (l - 0xDC00);
                        Some(((v as u32) as char, i + 11))
                    } else {
                        None
                    }
                } else {
                    None
                }
            } else if 0xDC00 <= h < 0xE000 {
                None
            } else {
                Some(((h as u32) as char, i + 5))
            }
        } else {
            None
        }
    } else {
        None
    }
}

/// Parse the body of a JSON string; `i` points just after the opening
/// quote. Yields the decoded contents and the index after the closing
/// quote. Raw control characters are rejected.
pub open spec fn parse_string_body(s: Seq<char>, i: int) -> Option<(Seq<char>, int)>
    decreases s.len() - i,
{
    if i < 0 || i >= s.len() {
        None
    } else if s[i] == '"' {
        Some((Seq::empty(), i + 1))
    } else if s[i] == '\\' {
        match parse_escape(s, i + 1) {
            Some((c, j)) => if j > i {
                match parse_string_body(s, j) {
                    Some((t, k)) => Some((seq![c] + t, k)),
                    None => None,
                }
            } else {
                None
            },
            None => None,
        }
    } else if (s[i] as u32) < 0x20 {
        None
    } else {
        match parse_string_body(s, i + 1) {
            Some((t, k)) => Some((seq![s[i]] + t, k)),
            None => None,
        }
    }
}

/// Whether `c` is a decimal digit.
pub open spec fn is_digit(c: char) -> bool {
    48 <= c as u32 <= 57
}

/// The first index at or after `i` that does not hold a decimal digit.
pub open spec fn skip_digits(s: Seq<char>, i: int) -> int
    decreases s.len() - i,
{
    if 0 <= i < s.len() && is_digit(s[i]) {
        skip_digits(s, i + 1)
    } else {
        i
    }
}

/// Recognise a JSON number at `i`; yields the index after it.
pub open spec fn skip_number(s: Seq<char>, i: int) -> Option<int> {
    let j: int = if i < s.len() && s[i] == '-' {
        i + 1
    } else {
        i
    };
    if j < s.len() && is_digit(s[j]) {
        let k: int = if s[j] == '0' {
            j + 1
        } else {
            skip_digits(s, j)
        };
        let f: int = if k < s.len() && s[k] == '.' {
            if k + 1 < s.len() && is_digit(s[k + 1]) {
                skip_digits(s, k + 1)
            } else {
                -1
            }
        } else {
            k
        };
        if f < 0 {
            None
        } else {
            let e: int = if f < s.len() && (s[f] == 'e' || s[f] == 'E') {
                let g: int = if f + 1 < s.len() && (s[f + 1] == '+' || s[f + 1] == '-') {
                    f + 2
                } else {
                    f + 1
                };
                if g < s.len() && is_digit(s[g]) {
                    skip_digits(s, g)
                } else {
                    -1
                }
            } else {
                f
            };
            if e < 0 {
                None
            } else {
                Some(e)
            }
        }
    } else {
        None
    }
}

/// Whether the literal word stands at `i`.
pub open spec fn word_at(s: Seq<char>, i: int, w: Seq<char>) -> bool {
    i + w.len() <= s.len() && s.subrange(i, i + w.len() as int) == w
}

/// Recognise any JSON value at `i`, without interpreting it; yields the
/// index after it. Used to step over fields the decoder does not read.
pub open spec fn skip_value(s: Seq<char>, i: int) -> Option<int>
    decreases s.len() - i, 0int,
{
    if i < 0 || i >= s.len() {
        None
    } else if s[i] == '"' {
        match parse_string_body(s, i + 1) {
            Some((t, j)) => Some(j),
            None => None,
        }
    } else if s[i] == '{' {
        let j: int = skip_ws(s, i + 1);
        if j > i && j < s.len() {
            if s[j] == '}' {
                Some(j + 1)
            } else {
                skip_object_members(s, j)
            }
        } else {
            None
        }
    } else if s[i] == '[' {
        let j: int = skip_ws(s, i + 1);
        if j > i && j < s.len() {
            if s[j] == ']' {
                Some(j + 1)
            } else {
                skip_array_items(s, j)
            }
        } else {
            None
        }
    } else if s[i] == 't' {
        if word_at(s, i, "true"@) {
            Some(i + 4)
        } else {
            None
        }
    } else if s[i] == 'f' {
        if word_at(s, i, "false"@) {
            Some(i + 5)
        } else {
            None
        }
    } else if s[i] == 'n' {
        if word_at(s, i, "null"@) {
            Some(i + 4)
        } else {
            None
        }
    } else {
        skip_number(s, i)
    }
}

/// Step over the members of an object, starting at a key; yields the index
/// after the closing brace.
pub open spec fn skip_object_members(s: Seq<char>, i: int) -> Option<int>
    decreases s.len() - i, 1int,
{
    if i < 0 || i >= s.len() || s[i] != '"' {
        None
    } else {
        match parse_string_body(s, i + 1) {
            None => None,
            Some((k, j)) => {
                let c: int = skip_ws(s, j);
                if c < s.len() && s[c] == ':' {
                    let v: int = skip_ws(s, c + 1);
                    if v > i && v <= s.len() {
                        match skip_value(s, v) {
                            None => None,
                            Some(w) => {
                                let d: int = skip_ws(s, w);
                                if d < s.len() && s[d] == ',' {
                                    let n: int = skip_ws(s, d + 1);
                                    if n > i && n <= s.len() {
                                        skip_object_members(s, n)
                                    } else {
                                        None
                                    }
                                } else if d < s.len() && s[d] == '}' {
                                    Some(d + 1)
                                } else {
                                    None
                                }
                            },
                        }
                    } else {
                        None
                    }
                } else {
                    None
                }
            },
        }
    }
}

/// Step over the items of an array, starting at a value; yields the index
/// after the closing bracket.
pub open spec fn skip_array_items(s: Seq<char>, i: int) -> Option<int>
    decreases s.len() - i, 1int,
{
    if i < 0 || i >= s.len() {
        None
    } else {
        match skip_value(s, i) {
            None => None,
            Some(w) => {
                let d: int = skip_ws(s, w);
                if d < s.len() && s[d] == ',' {
                    let n: int = skip_ws(s, d + 1);
                    if n > i && n <= s.len() {
                        skip_array_items(s, n)
                    } else {
                        None
                    }
                } else if d < s.len() && s[d] == ']' {
                    Some(d + 1)
                } else {
                    None
                }
            },
        }
    }
}

/// The severity named by a decoded string: `"page"` and `"warn"` name the
/// urgent levels; any other string is taken as `Other`.
pub open spec fn severity_of(s: Seq<char>) -> Severity {
    if s == "page"@ {
        Severity::Page
    } else if s == "warn"@ {
        Severity::Warn
    } else {
        Severity::Other
    }
}

/// Finish one alert entry: all three required fields must have been seen.
pub open spec fn finish_alert(
    sev: Option<Seq<char>>,
    ev: Option<Seq<char>>,
    res: Option<Seq<char>>,
    end: int,
) -> Option<(AlertView, int)> {
    match (sev, ev, res) {
        (Some(sv), Some(e), Some(r)) => Some(
            (AlertView { severity: severity_of(sv), event: e, resource: r }, end),
        ),
        _ => None,
    }
}

/// Parse the members of one alert entry, starting at a key. The fields
/// `severity`, `event` and `resource` must each appear exactly once, as
/// strings; other fields are stepped over. Yields the alert and the index
/// after the closing brace.
pub open spec fn parse_alert_members(
    s: Seq<char>,
    i: int,
    sev: Option<Seq<char>>,
    ev: Option<Seq<char>>,
    res: Option<Seq<char>>,
) -> Option<(AlertView, int)>
    decreases s.len() - i,
{
    if i < 0 || i >= s.len() || s[i] != '"' {
        None
    } else {
        match parse_string_body(s, i + 1) {
            None => None,
            Some((key, j)) => {
                let c: int = skip_ws(s, j);
                if c < s.len() && s[c] == ':' {
                    let v: int = skip_ws(s, c + 1);
                    if v > i {
                        let known: bool = key == "severity"@ || key == "event"@ || key
                            == "resource"@;
                        let parsed: Option<(Option<Seq<char>>, int)> = if known {
                            if v < s.len() && s[v] == '"' {
                                match parse_string_body(s, v + 1) {
                                    Some((t, w)) => Some((Some(t), w)),
                                    None => None,
                                }
                            } else {
                                None
                            }
                        } else {
                            match skip_value(s, v) {
                                Some(w) => Some((None, w)),
                                None => None,
                            }
                        };
                        match parsed {
                            None => None,
                            Some((t, w)) => {
                                let dup: bool = (key == "severity"@ && sev is Some) || (key
                                    == "event"@ && ev is Some) || (key == "resource"@
                                    && res is Some);
                                if dup {
                                    None
                                } else {
                                    let sev2: Option<Seq<char>> = if key == "severity"@ {
                                        t
                                    } else {
                                        sev
                                    };
                                    let ev2: Option<Seq<char>> = if key == "event"@ {
                                        t
                                    } else {
                                        ev
                                    };
                                    let res2: Option<Seq<char>> = if key == "resource"@ {
                                        t
                                    } else {
                                        res
                                    };
                                    let d: int = skip_ws(s, w);
                                    if d < s.len() && s[d] == ',' {
                                        let n: int = skip_ws(s, d + 1);
                                        if n > i && n <= s.len() {
                                            parse_alert_members(s, n, sev2, ev2, res2)
                                        } else {
                                            None
                                        }
                                    } else if d < s.len() && s[d] == '}' {
                                        finish_alert(sev2, ev2, res2, d + 1)
                                    } else {
                                        None
                                    }
                                }
                            },
                        }
                    } else {
                        None
                    }
                } else {
                    None
                }
            },
        }
    }
}

/// Parse one alert entry at `i`, which must hold an object.
pub open spec fn parse_alert(s: Seq<char>, i: int) -> Option<(AlertView, int)> {
    if 0 <= i < s.len() && s[i] == '{' {
        let j: int = skip_ws(s, i + 1);
        parse_alert_members(s, j, None, None, None)
    } else {
        None
    }
}

/// Parse the items of the alerts array, starting at a value; `acc` holds
/// the alerts already parsed. Yields all alerts in order and the index
/// after the closing bracket.
pub open spec fn parse_alerts_items(s: Seq<char>, i: int, acc: Seq<AlertView>) -> Option<
    (Seq<AlertView>, int),
>
    decreases s.len() - i,
{
    match parse_alert(s, i) {
        None => None,
        Some((a, j)) => {
            let d: int = skip_ws(s, j);
            if d < s.len() && s[d] == ',' {
                let n: int = skip_ws(s, d + 1);
                if n > i && n <= s.len() {
                    parse_alerts_items(s, n, acc.push(a))
                } else {
                    None
                }
            } else if d < s.len() && s[d] == ']' {
                Some((acc.push(a), d + 1))
            } else {
                None
            }
        },
    }
}

/// Parse the alerts array at `i`, which must hold an array of alert
/// entries.
pub open spec fn parse_alerts_array(s: Seq<char>, i: int) -> Option<(Seq<AlertView>, int)> {
    if 0 <= i < s.len() && s[i] == '[' {
        let j: int = skip_ws(s, i + 1);
        if j < s.len() && s[j] == ']' {
            Some((Seq::empty(), j + 1))
        } else {
            parse_alerts_items(s, j, Seq::empty())
        }
    } else {
        None
    }
}

/// Parse the members of the top-level object, starting at a key. The
/// `alerts` key must appear exactly once and hold the alerts array; other
/// members are stepped over. Yields the alerts and the index after the
/// closing brace.
pub open spec fn parse_top_members(s: Seq<char>, i: int, alerts: Option<Seq<AlertView>>) -> Option<
    (Seq<AlertView>, int),
>
    decreases s.len() - i,
{
    if i < 0 || i >= s.len() || s[i] != '"' {
        None
    } else {
        match parse_string_body(s, i + 1) {
            None => None,
            Some((key, j)) => {
                let c: int = skip_ws(s, j);
                if c < s.len() && s[c] == ':' {
                    let v: int = skip_ws(s, c + 1);
                    if v > i {
                        let parsed: Option<(Option<Seq<AlertView>>, int)> = if key == "alerts"@ {
                            match parse_alerts_array(s, v) {
                                Some((items, w)) => Some((Some(items), w)),
                                None => None,
                            }
                        } else {
                            match skip_value(s, v) {
                                Some(w) => Some((None, w)),
                                None => None,
                            }
                        };
                        match parsed {
                            None => None,
                            Some((got, w)) => {
                                if key == "alerts"@ && alerts is Some {
                                    None
                                } else {
                                    let alerts2: Option<Seq<AlertView>> = if key == "alerts"@ {
                                        got
                                    } else {
                                        alerts
                                    };
                                    let d: int = skip_ws(s, w);
                                    if d < s.len() && s[d] == ',' {
                                        let n: int = skip_ws(s, d + 1);
                                        if n > i && n <= s.len() {
                                            parse_top_members(s, n, alerts2)
                                        } else {
                                            None
                                        }
                                    } else if d < s.len() && s[d] == '}' {
                                        match alerts2 {
                                            Some(items) => Some((items, d + 1)),
                                            None => None,
                                        }
                                    } else {
                                        None
                                    }
                                }
                            },
                        }
                    } else {
                        None
                    }
                } else {
                    None
                }
            },
        }
    }
}

/// The decoded alert collection of a response body, or `None` where the
/// body is not of the expected shape. The body must hold one top-level
/// object with an `alerts` member, and nothing but whitespace around it.
pub open spec fn spec_decode(s: Seq<char>) -> Option<Seq<AlertView>> {
    let i: int = skip_ws(s, 0);
    if i < s.len() && s[i] == '{' {
        let j: int = skip_ws(s, i + 1);
        match parse_top_members(s, j, None) {
            None => None,
            Some((items, w)) => {
                if skip_ws(s, w) == s.len() {
                    Some(items)
                } else {
                    None
                }
            },
        }
    } else {
        None
    }
}

/// Prefix a decoded string fragment onto the result of a string parse.
pub open spec fn scont(pre: Seq<char>, r: Option<(Seq<char>, int)>) -> Option<(Seq<char>, int)> {
    match r {
        None => None,
        Some((t, j)) => Some((pre + t, j)),
    }
}

/// Relies on char::from_u32, which yields the character with scalar value
/// `u` exactly when `u` is a Unicode scalar value: not in the surrogate
/// range and at most 0x10FFFF.
#[verifier::external_body]
fn char_from_scalar(u: u32) -> (r: Option<char>)
    ensures
        r is Some <==> (u < 0xD800 || (0xE000 <= u && u <= 0x10FFFF)),
        r matches Some(c) ==> c as u32 == u,
{
    char::from_u32(u)
}

/// Relies on String::push, which appends exactly the one character.
#[verifier::external_body]
fn push_char(s: &mut String, c: char)
    ensures
        final(s)@ == old(s)@.push(c),
{
    s.push(c);
}

/// The first position at or after `i` that does not hold whitespace.
fn ws_end(s: &Vec<char>, i: usize) -> (r: usize)
    requires
        i <= s@.len(),
    ensures
        r as int == skip_ws(s@, i as int),
        i <= r <= s@.len(),
    decreases s@.len() - i,
{
    if i < s.len() {
        let c = s[i];
        if c == ' ' || c == '\t' || c == '\n' || c == '\r' {
            return ws_end(s, i + 1);
        }
    }
    i
}

/// The value of a hexadecimal digit.
fn hex_digit(c: char) -> (r: Option<u32>)
    ensures
        r is Some <==> hex_val(c) is Some,
        r matches Some(v) ==> hex_val(c) == Some(v as int) && v < 16,
{
    let u = c as u32;
    if 48 <= u && u <= 57 {
        Some(u - 48)
    } else if 97 <= u && u <= 102 {
        Some(u - 97 + 10)
    } else if 65 <= u && u <= 70 {
        Some(u - 65 + 10)
    } else {
        None
    }
}

/// The value of the four hexadecimal digits at `i`, where they stand.
fn hex4(s: &Vec<char>, i: usize) -> (r: Option<u32>)
    requires
        i <= s@.len(),
    ensures
        r is Some <==> hex4_at(s@, i as int),
        r matches Some(v) ==> hex4_val(s@, i as int) == v as int && v <= 0xFFFF,
{
    if s.len() - i >= 4 {
        match (hex_digit(s[i]), hex_digit(s[i + 1]), hex_digit(s[i + 2]), hex_digit(s[i + 3])) {
            (Some(a), Some(b), Some(c), Some(d)) => Some(
                a * 0x1000 + b * 0x100 + c * 0x10 + d,
            ),
            _ => None,
        }
    } else {
        None
    }
}

/// Parse one escape sequence; `i` points just after the backslash.
fn escape_end(s: &Vec<char>, i: usize) -> (r: Option<(char, usize)>)
    requires
        i <= s@.len(),
    ensures
        r is Some <==> parse_escape(s@, i as int) is Some,
        r matches Some((c, j)) ==> parse_escape(s@, i as int) == Some((c, j as int)) && i < j
            <= s@.len(),
{
    if i >= s.len() {
        return None;
    }
    let c = s[i];
    if c == '"' {
        Some(('"', i + 1))
    } else if c == '\\' {
        Some(('\\', i + 1))
    } else if c == '/' {
        Some(('/', i + 1))
    } else if c == 'b' {
        Some(('\u{8}', i + 1))
    } else if c == 'f' {
        Some(('\u{c}', i + 1))
    } else if c == 'n' {
        Some(('\n', i + 1))
    } else if c == 'r' {
        Some(('\r', i + 1))
    } else if c == 't' {
        Some(('\t', i + 1))
    } else if c == 'u' {
        match hex4(s, i + 1) {
            None => None,
            Some(h) => {
                if 0xD800 <= h && h < 0xDC00 {
                    if s.len() - i >= 11 && s[i + 5] == '\\' && s[i + 6] == 'u' {
                        match hex4(s, i + 7) {
                            None => None,
                            Some(l) => {
                                if 0xDC00 <= l && l < 0xE000 {
                                    let v: u32 = 0x10000 + (h - 0xD800) * 0x400 + (l - 0xDC00);
                                    match char_from_scalar(v) {
                                        Some(ch) => {
                                            proof {
                                                vstd::utf8::char_u32_cast(ch, v);
                                            }
                                            Some((ch, i + 11))
                                        },
                                        None => None,
                                    }
                                } else {
                                    None
                                }
                            },
                        }
                    } else {
                        None
                    }
                } else if 0xDC00 <= h && h < 0xE000 {
                    None
                } else {
                    match char_from_scalar(h) {
                        Some(ch) => {
                            proof {
                                vstd::utf8::char_u32_cast(ch, h);
                            }
                            Some((ch, i + 5))
                        },
                        None => None,
                    }
                }
            },
        }
    } else {
        None
    }
}

/// Parse the body of a JSON string; `start` points just after the opening
/// quote. Yields the decoded contents and the position after the closing
/// quote.
fn scan_string(s: &Vec<char>, start: usize) -> (r: Option<(String, usize)>)
    requires
        start <= s@.len(),
    ensures
        r is None ==> parse_string_body(s@, start as int) is None,
        r matches Some((t, j)) ==> parse_string_body(s@, start as int) == Some((t@, j as int))
            && start < j <= s@.len(),
{
    let mut acc = String::new();
    let mut i: usize = start;
    loop
        invariant
            start <= i <= s@.len(),
            parse_string_body(s@, start as int) == scont(
                acc@,
                parse_string_body(s@, i as int),
            ),
        decreases s@.len() - i,
    {
        if i == s.len() {
            return None;
        }
        let c = s[i];
        if c == '"' {
            proof {
                assert(acc@ + Seq::<char>::empty() =~= acc@);
            }
            return Some((acc, i + 1));
        } else if c == '\\' {
            match escape_end(s, i + 1) {
                None => {
                    return None;
                },
                Some((ec, j)) => {
                    proof {
                        let rest = parse_string_body(s@, j as int);
                        match rest {
                            Some((t, k)) => {
                                assert(acc@ + (seq![ec] + t) =~= acc@.push(ec) + t);
                            },
                            None => {},
                        }
                    }
                    push_char(&mut acc, ec);
                    i = j;
                },
            }
        } else if (c as u32) < 0x20 {
            return None;
        } else {
            proof {
                let rest = parse_string_body(s@, i + 1 as int);
                match rest {
                    Some((t, k)) => {
                        assert(acc@ + (seq![c] + t) =~= acc@.push(c) + t);
                    },
                    None => {},
                }
            }
            push_char(&mut acc, c);
            i = i + 1;
        }
    }
}

/// The first position at or after `i` that does not hold a decimal digit.
fn digits_end(s: &Vec<char>, i: usize) -> (r: usize)
    requires
        i <= s@.len(),
    ensures
        r as int == skip_digits(s@, i as int),
        i <= r <= s@.len(),
    decreases s@.len() - i,
{
    if i < s.len() {
        let u = s[i] as u32;
        if 48 <= u && u <= 57 {
            return digits_end(s, i + 1);
        }
    }
    i
}

/// Recognise a JSON number at `i`; yields the position after it.
fn number_end(s: &Vec<char>, i: usize) -> (r: Option<usize>)
    requires
        i <= s@.len(),
    ensures
        r is Some <==> skip_number(s@, i as int) is Some,
        r matches Some(j) ==> skip_number(s@, i as int) == Some(j as int) && i < j <= s@.len(),
{
    let j: usize = if i < s.len() && s[i] == '-' {
        i + 1
    } else {
        i
    };
    if j < s.len() {
        let u = s[j] as u32;
        if 48 <= u && u <= 57 {
            let k: usize = if s[j] == '0' {
                j + 1
            } else {
                proof {
                    assert(skip_digits(s@, j as int) == skip_digits(s@, j + 1 as int));
                }
                digits_end(s, j + 1)
            };
            let f: usize = if k < s.len() && s[k] == '.' {
                if k + 1 < s.len() {
                    let u2 = s[k + 1] as u32;
                    if 48 <= u2 && u2 <= 57 {
                        digits_end(s, k + 1)
                    } else {
                        return None;
                    }
                } else {
                    return None;
                }
            } else {
                k
            };
            let e: usize = if f < s.len() && (s[f] == 'e' || s[f] == 'E') {
                let g: usize = if f + 1 < s.len() && (s[f + 1] == '+' || s[f + 1] == '-') {
                    f + 2
                } else {
                    f + 1
                };
                if g < s.len() {
                    let u3 = s[g] as u32;
                    if 48 <= u3 && u3 <= 57 {
                        proof {
                            assert(skip_digits(s@, g as int) == skip_digits(s@, g + 1 as int));
                        }
                        digits_end(s, g + 1)
                    } else {
                        return None;
                    }
                } else {
                    return None;
                }
            } else {
                f
            };
            return Some(e);
        }
    }
    None
}

/// Whether the given word stands at `i`.
fn word_match(s: &Vec<char>, i: usize, w: &str) -> (r: bool)
    requires
        i <= s@.len(),
    ensures
        r == word_at(s@, i as int, w@),
{
    let n = w.unicode_len();
    let len = s.len();
    if len - i < n {
        return false;
    }
    let mut k: usize = 0;
    while k < n
        invariant
            k <= n,
            i + n <= len,
            len == s@.len(),
            n == w@.len(),
            forall|m: int| 0 <= m < k ==> s@[i + m] == w@[m],
        decreases n - k,
    {
        if s[i + k] != w.get_char(k) {
            proof {
                assert(s@.subrange(i as int, i + n as int)[k as int] != w@[k as int]);
            }
            return false;
        }
        k += 1;
    }
    proof {
        assert(s@.subrange(i as int, i + n as int) =~= w@);
    }
    true
}

/// Recognise any JSON value at `i`; yields the position after it.
fn value_end(s: &Vec<char>, i: usize) -> (r: Option<usize>)
    requires
        i <= s@.len(),
    ensures
        r is Some <==> skip_value(s@, i as int) is Some,
        r matches Some(j) ==> skip_value(s@, i as int) == Some(j as int) && i < j <= s@.len(),
    decreases s@.len() - i, 0int,
{
    if i >= s.len() {
        return None;
    }
    let c = s[i];
    if c == '"' {
        match scan_string(s, i + 1) {
            Some((_t, j)) => Some(j),
            None => None,
        }
    } else if c == '{' {
        let j = ws_end(s, i + 1);
        if j < s.len() {
            if s[j] == '}' {
                Some(j + 1)
            } else {
                object_members_end(s, j)
            }
        } else {
            None
        }
    } else if c == '[' {
        let j = ws_end(s, i + 1);
        if j < s.len() {
            if s[j] == ']' {
                Some(j + 1)
            } else {
                array_items_end(s, j)
            }
        } else {
            None
        }
    } else if c == 't' {
        if word_match(s, i, "true") {
            proof {
                reveal_strlit("true");
            }
            Some(i + 4)
        } else {
            None
        }
    } else if c == 'f' {
        if word_match(s, i, "false") {
            proof {
                reveal_strlit("false");
            }
            Some(i + 5)
        } else {
            None
        }
    } else if c == 'n' {
        if word_match(s, i, "null") {
            proof {
                reveal_strlit("null");
            }
            Some(i + 4)
        } else {
            None
        }
    } else {
        number_end(s, i)
    }
}

/// Step over the members of an object, starting at a key; yields the
/// position after the closing brace.
fn object_members_end(s: &Vec<char>, i: usize) -> (r: Option<usize>)
    requires
        i <= s@.len(),
    ensures
        r is Some <==> skip_object_members(s@, i as int) is Some,
        r matches Some(j) ==> skip_object_members(s@, i as int) == Some(j as int) && i < j
            <= s@.len(),
    decreases s@.len() - i, 1int,
{
    if i >= s.len() || s[i] != '"' {
        return None;
    }
    match scan_string(s, i + 1) {
        None => None,
        Some((_k, j)) => {
            let c = ws_end(s, j);
            if c < s.len() && s[c] == ':' {
                let v = ws_end(s, c + 1);
                match value_end(s, v) {
                    None => None,
                    Some(w) => {
                        let d = ws_end(s, w);
                        if d < s.len() && s[d] == ',' {
                            let n = ws_end(s, d + 1);
                            object_members_end(s, n)
                        } else if d < s.len() && s[d] == '}' {
                            Some(d + 1)
                        } else {
                            None
                        }
                    },
                }
            } else {
                None
            }
        },
    }
}

/// Step over the items of an array, starting at a value; yields the
/// position after the closing bracket.
fn array_items_end(s: &Vec<char>, i: usize) -> (r: Option<usize>)
    requires
        i <= s@.len(),
    ensures
        r is Some <==> skip_array_items(s@, i as int) is Some,
        r matches Some(j) ==> skip_array_items(s@, i as int) == Some(j as int) && i < j
            <= s@.len(),
    decreases s@.len() - i, 1int,
{
    if i >= s.len() {
        return None;
    }
    match value_end(s, i) {
        None => None,
        Some(w) => {
            let d = ws_end(s, w);
            if d < s.len() && s[d] == ',' {
                let n = ws_end(s, d + 1);
                array_items_end(s, n)
            } else if d < s.len() && s[d] == ']' {
                Some(d + 1)
            } else {
                None
            }
        },
    }
}

/// The model of an optional decoded string.
pub open spec fn opt_str_view(o: Option<String>) -> Option<Seq<char>> {
    match o {
        None => None,
        Some(s) => Some(s@),
    }
}

/// The model of an optional decoded alert collection.
pub open spec fn opt_alerts_view(o: Option<Vec<Alert>>) -> Option<Seq<AlertView>> {
    match o {
        None => None,
        Some(v) => Some(alert_views(v@)),
    }
}

/// Decode a severity name.
fn severity_from(s: &String) -> (r: Severity)
    ensures
        r == severity_of(s@),
{
    let page = String::from_str("page");
    if *s == page {
        return Severity::Page;
    }
    let warn = String::from_str("warn");
    if *s == warn {
        return Severity::Warn;
    }
    Severity::Other
}

/// Parse the members of one alert entry, starting at a key.
fn alert_members(
    s: &Vec<char>,
    i: usize,
    sev: Option<String>,
    ev: Option<String>,
    res: Option<String>,
) -> (r: Option<(Alert, usize)>)
    requires
        i <= s@.len(),
    ensures
        r is Some <==> parse_alert_members(
            s@,
            i as int,
            opt_str_view(sev),
            opt_str_view(ev),
            opt_str_view(res),
        ) is Some,
        r matches Some((a, j)) ==> parse_alert_members(
            s@,
            i as int,
            opt_str_view(sev),
            opt_str_view(ev),
            opt_str_view(res),
        ) == Some((a@, j as int)) && i < j <= s@.len(),
    decreases s@.len() - i,
{
    proof {
        reveal_strlit("severity");
        reveal_strlit("event");
        reveal_strlit("resource");
        assert("severity"@.len() == 8);
        assert("event"@.len() == 5);
        assert("severity"@[0] == 's');
        assert("resource"@[0] == 'r');
        assert("severity"@ != "event"@);
        assert("severity"@ != "resource"@);
        assert("event"@ != "resource"@);
    }
    if i >= s.len() || s[i] != '"' {
        return None;
    }
    match scan_string(s, i + 1) {
        None => None,
        Some((key, j)) => {
            let c = ws_end(s, j);
            if c < s.len() && s[c] == ':' {
                let v = ws_end(s, c + 1);
                let skey = String::from_str("severity");
                let ekey = String::from_str("event");
                let rkey = String::from_str("resource");
                let is_sev = key == skey;
                let is_ev = key == ekey;
                let is_res = key == rkey;
                let known = is_sev || is_ev || is_res;
                let parsed: Option<(Option<String>, usize)> = if known {
                    if v < s.len() && s[v] == '"' {
                        match scan_string(s, v + 1) {
                            None => None,
                            Some((t, w)) => Some((Some(t), w)),
                        }
                    } else {
                        None
                    }
                } else {
                    match value_end(s, v) {
                        None => None,
                        Some(w) => Some((None, w)),
                    }
                };
                match parsed {
                    None => None,
                    Some((t, w)) => {
                        let dup = (is_sev && sev.is_some()) || (is_ev && ev.is_some()) || (is_res
                            && res.is_some());
                        if dup {
                            None
                        } else {
                            let (sev2, ev2, res2) = if is_sev {
                                (t, ev, res)
                            } else if is_ev {
                                (sev, t, res)
                            } else if is_res {
                                (sev, ev, t)
                            } else {
                                (sev, ev, res)
                            };
                            let d = ws_end(s, w);
                            if d < s.len() && s[d] == ',' {
                                let n = ws_end(s, d + 1);
                                alert_members(s, n, sev2, ev2, res2)
                            } else if d < s.len() && s[d] == '}' {
                                match (sev2, ev2, res2) {
                                    (Some(sv), Some(e), Some(rr)) => {
                                        let severity = severity_from(&sv);
                                        Some((Alert { severity, event: e, resource: rr }, d + 1))
                                    },
                                    _ => None,
                                }
                            } else {
                                None
                            }
                        }
                    },
                }
            } else {
                None
            }
        },
    }
}

/// Parse one alert entry at `i`.
fn alert_end(s: &Vec<char>, i: usize) -> (r: Option<(Alert, usize)>)
    requires
        i <= s@.len(),
    ensures
        r is Some <==> parse_alert(s@, i as int) is Some,
        r matches Some((a, j)) ==> parse_alert(s@, i as int) == Some((a@, j as int)) && i < j
            <= s@.len(),
{
    if i < s.len() && s[i] == '{' {
        let j = ws_end(s, i + 1);
        alert_members(s, j, None, None, None)
    } else {
        None
    }
}

/// Parse the items of the alerts array, starting at a value.
fn alerts_items(s: &Vec<char>, i: usize, acc: Vec<Alert>) -> (r: Option<(Vec<Alert>, usize)>)
    requires
        i <= s@.len(),
    ensures
        r is Some <==> parse_alerts_items(s@, i as int, alert_views(acc@)) is Some,
        r matches Some((v, j)) ==> parse_alerts_items(s@, i as int, alert_views(acc@)) == Some(
            (alert_views(v@), j as int),
        ) && i < j <= s@.len(),
    decreases s@.len() - i,
{
    let ghost accv = alert_views(acc@);
    match alert_end(s, i) {
        None => None,
        Some((a, j)) => {
            let ghost av = a@;
            let d = ws_end(s, j);
            if d < s.len() && s[d] == ',' {
                let n = ws_end(s, d + 1);
                let mut acc2 = acc;
                acc2.push(a);
                proof {
                    assert(alert_views(acc2@) =~= accv.push(av));
                }
                alerts_items(s, n, acc2)
            } else if d < s.len() && s[d] == ']' {
                let mut acc2 = acc;
                acc2.push(a);
                proof {
                    assert(alert_views(acc2@) =~= accv.push(av));
                }
                Some((acc2, d + 1))
            } else {
                None
            }
        },
    }
}

/// Parse the alerts array at `i`.
fn alerts_array_end(s: &Vec<char>, i: usize) -> (r: Option<(Vec<Alert>, usize)>)
    requires
        i <= s@.len(),
    ensures
        r is Some <==> parse_alerts_array(s@, i as int) is Some,
        r matches Some((v, j)) ==> parse_alerts_array(s@, i as int) == Some(
            (alert_views(v@), j as int),
        ) && i < j <= s@.len(),
{
    if i < s.len() && s[i] == '[' {
        let j = ws_end(s, i + 1);
        let acc: Vec<Alert> = Vec::new();
        proof {
            assert(alert_views(acc@) =~= Seq::<AlertView>::empty());
        }
        if j < s.len() && s[j] == ']' {
            Some((acc, j + 1))
        } else {
            alerts_items(s, j, acc)
        }
    } else {
        None
    }
}

/// Parse the members of the top-level object, starting at a key.
fn top_members(s: &Vec<char>, i: usize, alerts: Option<Vec<Alert>>) -> (r: Option<
    (Vec<Alert>, usize),
>)
    requires
        i <= s@.len(),
    ensures
        r is Some <==> parse_top_members(s@, i as int, opt_alerts_view(alerts)) is Some,
        r matches Some((v, j)) ==> parse_top_members(s@, i as int, opt_alerts_view(alerts))
            == Some((alert_views(v@), j as int)) && i < j <= s@.len(),
    decreases s@.len() - i,
{
    if i >= s.len() || s[i] != '"' {
        return None;
    }
    match scan_string(s, i + 1) {
        None => None,
        Some((key, j)) => {
            let c = ws_end(s, j);
            if c < s.len() && s[c] == ':' {
                let v = ws_end(s, c + 1);
                let akey = String::from_str("alerts");
                let is_alerts = key == akey;
                let parsed: Option<(Option<Vec<Alert>>, usize)> = if is_alerts {
                    match alerts_array_end(s, v) {
                        None => None,
                        Some((items, w)) => Some((Some(items), w)),
                    }
                } else {
                    match value_end(s, v) {
                        None => None,
                        Some(w) => Some((None, w)),
                    }
                };
                match parsed {
                    None => None,
                    Some((got, w)) => {
                        if is_alerts && alerts.is_some() {
                            None
                        } else {
                            let alerts2 = if is_alerts {
                                got
                            } else {
                                alerts
                            };
                            let d = ws_end(s, w);
                            if d < s.len() && s[d] == ',' {
                                let n = ws_end(s, d + 1);
                                top_members(s, n, alerts2)
                            } else if d < s.len() && s[d] == '}' {
                                match alerts2 {
                                    Some(items) => Some((items, d + 1)),
                                    None => None,
                                }
                            } else {
                                None
                            }
                        }
                    },
                }
            } else {
                None
            }
        },
    }
}

/// The characters of a string, in order.
fn str_chars(s: &str) -> (r: Vec<char>)
    ensures
        r@ == s@,
{
    let n = s.unicode_len();
    let mut v: Vec<char> = Vec::new();
    let mut i: usize = 0;
    while i < n
        invariant
            i <= n,
            n == s@.len(),
            v@ == s@.take(i as int),
        decreases n - i,
    {
        let c = s.get_char(i);
        v.push(c);
        proof {
            assert(v@ =~= s@.take(i + 1 as int));
        }
        i += 1;
    }
    proof {
        assert(s@.take(n as int) =~= s@);
    }
    v
}

/// Decode one response body into its alert collection, exactly where the
/// body is of the expected shape, and fail with a [`DecodeError`] on any
/// other body.
pub fn decode_alerts(body: &str) -> (r: Result<Vec<Alert>, DecodeError>)
    ensures
        r matches Ok(v) ==> spec_decode(body@) == Some(alert_views(v@)),
        r is Err ==> spec_decode(body@) is None,
{
    let chars = str_chars(body);
    let i = ws_end(&chars, 0);
    if i < chars.len() && chars[i] == '{' {
        let j = ws_end(&chars, i + 1);
        match top_members(&chars, j, None) {
            None => Err(DecodeError),
            Some((v, w)) => {
                let t = ws_end(&chars, w);
                if t == chars.len() {
                    Ok(v)
                } else {
                    Err(DecodeError)
                }
            },
        }
    } else {
        Err(DecodeError)
    }
}

} // verus!
