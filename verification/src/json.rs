//! A small, strict JSON reader, sufficient for the add-on manifest: it can
//! skip whitespace, parse strings (with the standard escapes, including
//! `\uXXXX` and surrogate pairs), and skip over any complete JSON value.
//!
//! Every executable function mirrors a specification function over the
//! character sequence exactly, so callers reason about the text itself.
//! Number tokens are scanned loosely (any run of number characters) and are
//! never converted; the manifest carries no numeric data.
//!
//! The specification functions bound every position a nested parse returns
//! (`if j <= i || j > s.len() { None }`) before continuing.  Positions never
//! actually fall outside those bounds, so the guards reject nothing; they
//! make each recursion manifestly well-founded.

use vstd::prelude::*;

use crate::strutil::is_ws_char;

verus! {

/// End of the whitespace run that starts at `i`.
pub open spec fn ws_end(s: Seq<char>, i: int) -> int
    decreases s.len() - i,
{
    if 0 <= i && i < s.len() && is_ws_char(s[i]) {
        let k = ws_end(s, i + 1);
        if k < i + 1 {
            i + 1
        } else if k > s.len() {
            s.len() as int
        } else {
            k
        }
    } else {
        i
    }
}

pub proof fn lemma_ws_end_bounds(s: Seq<char>, i: int)
    requires
        0 <= i <= s.len(),
    ensures
        i <= ws_end(s, i) <= s.len(),
    decreases s.len() - i,
{
    if i < s.len() && is_ws_char(s[i]) {
        lemma_ws_end_bounds(s, i + 1);
    }
}

/// Skips whitespace starting at `i`.
pub fn skip_ws(s: &str, n: usize, i: usize) -> (j: usize)
    requires
        n == s@.len(),
        i <= n,
    ensures
        j as int == ws_end(s@, i as int),
        i <= j <= n,
{
    let mut j: usize = i;
    while j < n && ws_at(s, n, j)
        invariant
            n == s@.len(),
            i <= j <= n,
            ws_end(s@, i as int) == ws_end(s@, j as int),
        decreases n - j,
    {
        proof {
            lemma_ws_end_bounds(s@, j + 1);
        }
        j = j + 1;
    }
    j
}

fn ws_at(s: &str, n: usize, i: usize) -> (r: bool)
    requires
        n == s@.len(),
        i < n,
    ensures
        r == is_ws_char(s@[i as int]),
{
    let c = s.get_char(i);
    c == ' ' || c == '\t' || c == '\n' || c == '\r'
}

/// Characters a number token may contain; numbers are scanned loosely and
/// never converted.
pub open spec fn num_char(c: char) -> bool {
    let u = c as u32;
    (48 <= u && u <= 57) || c == '-' || c == '+' || c == '.' || c == 'e' || c == 'E'
}

/// A character that may start a number token.
pub open spec fn num_start_char(c: char) -> bool {
    let u = c as u32;
    (48 <= u && u <= 57) || c == '-'
}

/// End of the number-character run that starts at `i`.
pub open spec fn num_end(s: Seq<char>, i: int) -> int
    decreases s.len() - i,
{
    if 0 <= i && i < s.len() && num_char(s[i]) {
        let k = num_end(s, i + 1);
        if k < i + 1 {
            i + 1
        } else if k > s.len() {
            s.len() as int
        } else {
            k
        }
    } else {
        i
    }
}

proof fn lemma_num_end_bounds(s: Seq<char>, i: int)
    requires
        0 <= i <= s.len(),
    ensures
        i <= num_end(s, i) <= s.len(),
    decreases s.len() - i,
{
    if i < s.len() && num_char(s[i]) {
        lemma_num_end_bounds(s, i + 1);
    }
}

fn num_at(s: &str, n: usize, i: usize) -> (r: bool)
    requires
        n == s@.len(),
        i < n,
    ensures
        r == num_char(s@[i as int]),
{
    let c = s.get_char(i);
    let u: u32 = c as u32;
    (48 <= u && u <= 57) || c == '-' || c == '+' || c == '.' || c == 'e' || c == 'E'
}

fn scan_number(s: &str, n: usize, i: usize) -> (j: usize)
    requires
        n == s@.len(),
        i <= n,
    ensures
        j as int == num_end(s@, i as int),
        i <= j <= n,
{
    let mut j: usize = i;
    while j < n && num_at(s, n, j)
        invariant
            n == s@.len(),
            i <= j <= n,
            num_end(s@, i as int) == num_end(s@, j as int),
        decreases n - j,
    {
        proof {
            lemma_num_end_bounds(s@, j + 1);
        }
        j = j + 1;
    }
    j
}

/// Value of a hexadecimal digit.
pub open spec fn hexval(c: char) -> Option<u32> {
    let u = c as u32;
    if 48 <= u && u <= 57 {
        Some((u - 48) as u32)
    } else if 97 <= u && u <= 102 {
        Some((u - 87) as u32)
    } else if 65 <= u && u <= 70 {
        Some((u - 55) as u32)
    } else {
        None
    }
}

fn hexval_exec(c: char) -> (r: Option<u32>)
    ensures
        r == hexval(c),
        r matches Some(v) ==> v < 16,
{
    let u: u32 = c as u32;
    if 48 <= u && u <= 57 {
        Some(u - 48)
    } else if 97 <= u && u <= 102 {
        Some(u - 87)
    } else if 65 <= u && u <= 70 {
        Some(u - 55)
    } else {
        None
    }
}

/// The four hex digits starting at `i`, as one value.
pub open spec fn hex4(s: Seq<char>, i: int) -> Option<u32> {
    if i < 0 || i + 4 > s.len() {
        None
    } else {
        match (hexval(s[i]), hexval(s[i + 1]), hexval(s[i + 2]), hexval(s[i + 3])) {
            (Some(a), Some(b), Some(c), Some(d)) => Some(
                (a * 4096 + b * 256 + c * 16 + d) as u32,
            ),
            _ => None,
        }
    }
}

fn hex4_at(s: &str, n: usize, i: usize) -> (r: Option<u32>)
    requires
        n == s@.len(),
        i <= n,
    ensures
        r == hex4(s@, i as int),
        r matches Some(v) ==> v < 0x10000 && i + 4 <= n,
{
    if n - i < 4 {
        return None;
    }
    let a = hexval_exec(s.get_char(i));
    let b = hexval_exec(s.get_char(i + 1));
    let c = hexval_exec(s.get_char(i + 2));
    let d = hexval_exec(s.get_char(i + 3));
    match (a, b, c, d) {
        (Some(a), Some(b), Some(c), Some(d)) => Some(a * 4096 + b * 256 + c * 16 + d),
        _ => None,
    }
}

/// The character a single-letter escape denotes.
pub open spec fn esc_char(c: char) -> Option<char> {
    if c == '"' {
        Some('"')
    } else if c == '\\' {
        Some('\\')
    } else if c == '/' {
        Some('/')
    } else if c == 'b' {
        Some('\u{8}')
    } else if c == 'f' {
        Some('\u{c}')
    } else if c == 'n' {
        Some('\n')
    } else if c == 'r' {
        Some('\r')
    } else if c == 't' {
        Some('\t')
    } else {
        None
    }
}

fn esc_char_exec(c: char) -> (r: Option<char>)
    ensures
        r == esc_char(c),
{
    if c == '"' {
        Some('"')
    } else if c == '\\' {
        Some('\\')
    } else if c == '/' {
        Some('/')
    } else if c == 'b' {
        Some('\u{8}')
    } else if c == 'f' {
        Some('\u{c}')
    } else if c == 'n' {
        Some('\n')
    } else if c == 'r' {
        Some('\r')
    } else if c == 't' {
        Some('\t')
    } else {
        None
    }
}

/// A Unicode scalar value: what a `char` may hold.
pub open spec fn is_uni_scalar(v: u32) -> bool {
    v < 0xD800 || (0xE000 <= v && v <= 0x10FFFF)
}

/// Relies on `char::from_u32`: returns `Some` exactly for Unicode scalar
/// values, and the returned character has exactly that code point.
#[verifier::external_body]
fn char_from_u32(v: u32) -> (r: Option<char>)
    ensures
        r is Some <==> is_uni_scalar(v),
        r matches Some(c) ==> c as u32 == v,
{
    char::from_u32(v)
}

/// The body of a string literal from position `i` (just inside the opening
/// quote), with `acc` the characters already decoded: the decoded value and
/// the position after the closing quote.
pub open spec fn sp_string_rest(s: Seq<char>, i: int, acc: Seq<char>) -> Option<(Seq<char>, int)>
    decreases s.len() - i,
{
    if i < 0 || i >= s.len() {
        None
    } else {
        let c = s[i];
        if c == '"' {
            Some((acc, i + 1))
        } else if c == '\\' {
            if i + 2 > s.len() {
                None
            } else {
                let e = s[i + 1];
                if e == 'u' {
                    match hex4(s, i + 2) {
                        None => None,
                        Some(v) => if 0xD800 <= v && v < 0xDC00 {
                            if i + 12 > s.len() || s[i + 6] != '\\' || s[i + 7] != 'u' {
                                None
                            } else {
                                match hex4(s, i + 8) {
                                    None => None,
                                    Some(w) => if 0xDC00 <= w && w < 0xE000 {
                                        sp_string_rest(
                                            s,
                                            i + 12,
                                            acc.push(
                                                (0x10000 + (v - 0xD800) * 0x400 + (w
                                                    - 0xDC00)) as char,
                                            ),
                                        )
                                    } else {
                                        None
                                    },
                                }
                            }
                        } else if 0xDC00 <= v && v < 0xE000 {
                            None
                        } else {
                            sp_string_rest(s, i + 6, acc.push(v as char))
                        },
                    }
                } else {
                    match esc_char(e) {
                        Some(d) => sp_string_rest(s, i + 2, acc.push(d)),
                        None => None,
                    }
                }
            }
        } else if (c as u32) < 0x20 {
            None
        } else {
            sp_string_rest(s, i + 1, acc.push(c))
        }
    }
}

/// A string literal starting at `i` (at the opening quote): its decoded
/// value and the position after the closing quote.
pub open spec fn sp_string(s: Seq<char>, i: int) -> Option<(Seq<char>, int)> {
    if 0 <= i && i < s.len() && s[i] == '"' {
        sp_string_rest(s, i + 1, Seq::empty())
    } else {
        None
    }
}

/// Position just past the complete JSON value that starts at `i`, or `None`
/// when no value starts there.
pub open spec fn sp_skip_value(s: Seq<char>, i: int) -> Option<int>
    decreases s.len() - i, 0int,
{
    if i < 0 || i >= s.len() {
        None
    } else {
        let c = s[i];
        if c == '"' {
            match sp_string(s, i) {
                Some(p) => Some(p.1),
                None => None,
            }
        } else if c == '{' {
            sp_object_rest(s, i + 1)
        } else if c == '[' {
            sp_array_rest(s, i + 1)
        } else if c == 't' {
            if i + 4 <= s.len() && s[i + 1] == 'r' && s[i + 2] == 'u' && s[i + 3] == 'e' {
                Some(i + 4)
            } else {
                None
            }
        } else if c == 'f' {
            if i + 5 <= s.len() && s[i + 1] == 'a' && s[i + 2] == 'l' && s[i + 3] == 's' && s[i + 4]
                == 'e' {
                Some(i + 5)
            } else {
                None
            }
        } else if c == 'n' {
            if i + 4 <= s.len() && s[i + 1] == 'u' && s[i + 2] == 'l' && s[i + 3] == 'l' {
                Some(i + 4)
            } else {
                None
            }
        } else if num_start_char(c) {
            Some(num_end(s, i))
        } else {
            None
        }
    }
}

/// Rest of an object from just after its `{`.
pub open spec fn sp_object_rest(s: Seq<char>, i: int) -> Option<int>
    decreases s.len() - i, 2int,
{
    if i < 0 || i > s.len() {
        None
    } else {
        let j = ws_end(s, i);
        if j >= s.len() {
            None
        } else if s[j] == '}' {
            Some(j + 1)
        } else {
            sp_members(s, j)
        }
    }
}

/// One or more `"key": value` members starting at a key, up to and past the
/// closing `}`.
pub open spec fn sp_members(s: Seq<char>, i: int) -> Option<int>
    decreases s.len() - i, 1int,
{
    match sp_string(s, i) {
        None => None,
        Some(kv) => {
            let j = kv.1;
            if j <= i || j > s.len() {
                None
            } else {
                let k = ws_end(s, j);
                if k >= s.len() || s[k] != ':' {
                    None
                } else {
                    let m = ws_end(s, k + 1);
                    match sp_skip_value(s, m) {
                        None => None,
                        Some(p) => {
                            if p <= m || p > s.len() {
                                None
                            } else {
                                let q = ws_end(s, p);
                                if q >= s.len() {
                                    None
                                } else if s[q] == ',' {
                                    sp_members(s, ws_end(s, q + 1))
                                } else if s[q] == '}' {
                                    Some(q + 1)
                                } else {
                                    None
                                }
                            }
                        },
                    }
                }
            }
        },
    }
}

/// Rest of an array from just after its `[`.
pub open spec fn sp_array_rest(s: Seq<char>, i: int) -> Option<int>
    decreases s.len() - i, 2int,
{
    if i < 0 || i > s.len() {
        None
    } else {
        let j = ws_end(s, i);
        if j >= s.len() {
            None
        } else if s[j] == ']' {
            Some(j + 1)
        } else {
            sp_elems(s, j)
        }
    }
}

/// One or more array elements starting at a value, up to and past the
/// closing `]`.
pub open spec fn sp_elems(s: Seq<char>, i: int) -> Option<int>
    decreases s.len() - i, 1int,
{
    match sp_skip_value(s, i) {
        None => None,
        Some(p) => {
            if p <= i || p > s.len() {
                None
            } else {
                let q = ws_end(s, p);
                if q >= s.len() {
                    None
                } else if s[q] == ',' {
                    sp_elems(s, ws_end(s, q + 1))
                } else if s[q] == ']' {
                    Some(q + 1)
                } else {
                    None
                }
            }
        },
    }
}

/// Skips the complete JSON value that starts at `i`.
pub fn skip_value(s: &str, n: usize, i: usize) -> (r: Option<usize>)
    requires
        n == s@.len(),
        i <= n,
    ensures
        r is Some <==> sp_skip_value(s@, i as int) is Some,
        r matches Some(j) ==> sp_skip_value(s@, i as int) == Some(j as int) && i < j <= n,
    decreases n - i, 0int,
{
    if i >= n {
        return None;
    }
    let c = s.get_char(i);
    if c == '"' {
        match parse_string(s, n, i) {
            Some(p) => Some(p.1),
            None => None,
        }
    } else if c == '{' {
        skip_object_rest(s, n, i + 1)
    } else if c == '[' {
        skip_array_rest(s, n, i + 1)
    } else if c == 't' {
        if n - i >= 4 && s.get_char(i + 1) == 'r' && s.get_char(i + 2) == 'u' && s.get_char(i + 3)
            == 'e' {
            Some(i + 4)
        } else {
            None
        }
    } else if c == 'f' {
        if n - i >= 5 && s.get_char(i + 1) == 'a' && s.get_char(i + 2) == 'l' && s.get_char(i + 3)
            == 's' && s.get_char(i + 4) == 'e' {
            Some(i + 5)
        } else {
            None
        }
    } else if c == 'n' {
        if n - i >= 4 && s.get_char(i + 1) == 'u' && s.get_char(i + 2) == 'l' && s.get_char(i + 3)
            == 'l' {
            Some(i + 4)
        } else {
            None
        }
    } else {
        let u: u32 = c as u32;
        if (48 <= u && u <= 57) || c == '-' {
            let j = scan_number(s, n, i);
            proof {
                lemma_num_end_bounds(s@, i + 1);
            }
            Some(j)
        } else {
            None
        }
    }
}

fn skip_object_rest(s: &str, n: usize, i: usize) -> (r: Option<usize>)
    requires
        n == s@.len(),
        i <= n,
    ensures
        r is Some <==> sp_object_rest(s@, i as int) is Some,
        r matches Some(j) ==> sp_object_rest(s@, i as int) == Some(j as int) && i <= j <= n,
    decreases n - i, 2int,
{
    let j = skip_ws(s, n, i);
    if j >= n {
        None
    } else if s.get_char(j) == '}' {
        Some(j + 1)
    } else {
        skip_members(s, n, j)
    }
}

fn skip_members(s: &str, n: usize, i: usize) -> (r: Option<usize>)
    requires
        n == s@.len(),
        i <= n,
    ensures
        r is Some <==> sp_members(s@, i as int) is Some,
        r matches Some(j) ==> sp_members(s@, i as int) == Some(j as int) && i < j <= n,
    decreases n - i, 1int,
{
    match parse_string(s, n, i) {
        None => None,
        Some(kv) => {
            let k = skip_ws(s, n, kv.1);
            if k >= n || s.get_char(k) != ':' {
                return None;
            }
            let m = skip_ws(s, n, k + 1);
            match skip_value(s, n, m) {
                None => None,
                Some(p) => {
                    let q = skip_ws(s, n, p);
                    if q >= n {
                        None
                    } else if s.get_char(q) == ',' {
                        let next = skip_ws(s, n, q + 1);
                        skip_members(s, n, next)
                    } else if s.get_char(q) == '}' {
                        Some(q + 1)
                    } else {
                        None
                    }
                },
            }
        },
    }
}

fn skip_array_rest(s: &str, n: usize, i: usize) -> (r: Option<usize>)
    requires
        n == s@.len(),
        i <= n,
    ensures
        r is Some <==> sp_array_rest(s@, i as int) is Some,
        r matches Some(j) ==> sp_array_rest(s@, i as int) == Some(j as int) && i <= j <= n,
    decreases n - i, 2int,
{
    let j = skip_ws(s, n, i);
    if j >= n {
        None
    } else if s.get_char(j) == ']' {
        Some(j + 1)
    } else {
        skip_elems(s, n, j)
    }
}

fn skip_elems(s: &str, n: usize, i: usize) -> (r: Option<usize>)
    requires
        n == s@.len(),
        i <= n,
    ensures
        r is Some <==> sp_elems(s@, i as int) is Some,
        r matches Some(j) ==> sp_elems(s@, i as int) == Some(j as int) && i < j <= n,
    decreases n - i, 1int,
{
    match skip_value(s, n, i) {
        None => None,
        Some(p) => {
            let q = skip_ws(s, n, p);
            if q >= n {
                None
            } else if s.get_char(q) == ',' {
                let next = skip_ws(s, n, q + 1);
                skip_elems(s, n, next)
            } else if s.get_char(q) == ']' {
                Some(q + 1)
            } else {
                None
            }
        },
    }
}

/// Parses the string literal starting at `i`.
pub fn parse_string(s: &str, n: usize, i: usize) -> (r: Option<(String, usize)>)
    requires
        n == s@.len(),
        i <= n,
    ensures
        r is Some <==> sp_string(s@, i as int) is Some,
        r matches Some(p) ==> sp_string(s@, i as int) == Some((p.0@, p.1 as int)) && i < p.1 <= n,
{
    if i >= n || s.get_char(i) != '"' {
        return None;
    }
    let mut out = String::new();
    let mut j: usize = i + 1;
    proof {
        assert(out@ =~= Seq::<char>::empty());
    }
    while j < n
        invariant
            n == s@.len(),
            i < j <= n,
            sp_string(s@, i as int) == sp_string_rest(s@, j as int, out@),
        decreases n - j,
    {
        let c = s.get_char(j);
        if c == '"' {
            return Some((out, j + 1));
        } else if c == '\\' {
            if n - j < 2 {
                return None;
            }
            let e = s.get_char(j + 1);
            if e == 'u' {
                match hex4_at(s, n, j + 2) {
                    None => {
                        return None;
                    },
                    Some(v) => {
                        if 0xD800 <= v && v < 0xDC00 {
                            if n - j < 12 {
                                return None;
                            }
                            if s.get_char(j + 6) != '\\' || s.get_char(j + 7) != 'u' {
                                return None;
                            }
                            match hex4_at(s, n, j + 8) {
                                None => {
                                    return None;
                                },
                                Some(w) => {
                                    if 0xDC00 <= w && w < 0xE000 {
                                        let scalar: u32 = 0x10000 + (v - 0xD800) * 0x400 + (w
                                            - 0xDC00);
                                        match char_from_u32(scalar) {
                                            Some(d) => {
                                                proof {
                                                    vstd::utf8::char_u32_cast(d, scalar);
                                                }
                                                crate::strutil::push_char(&mut out, d);
                                                j = j + 12;
                                            },
                                            None => {
                                                proof {
                                                    assert(is_uni_scalar(scalar));
                                                }
                                                assert(false);
                                                return None;
                                            },
                                        }
                                    } else {
                                        return None;
                                    }
                                },
                            }
                        } else if 0xDC00 <= v && v < 0xE000 {
                            return None;
                        } else {
                            match char_from_u32(v) {
                                Some(d) => {
                                    proof {
                                        vstd::utf8::char_u32_cast(d, v);
                                    }
                                    crate::strutil::push_char(&mut out, d);
                                    j = j + 6;
                                },
                                None => {
                                    proof {
                                        assert(is_uni_scalar(v));
                                    }
                                    assert(false);
                                    return None;
                                },
                            }
                        }
                    },
                }
            } else {
                match esc_char_exec(e) {
                    Some(d) => {
                        crate::strutil::push_char(&mut out, d);
                        j = j + 2;
                    },
                    None => {
                        return None;
                    },
                }
            }
        } else if (c as u32) < 0x20 {
            return None;
        } else {
            crate::strutil::push_char(&mut out, c);
            j = j + 1;
        }
    }
    None
}

} // verus!
