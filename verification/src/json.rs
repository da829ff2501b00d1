//! A small JSON scanner over byte sequences.
//!
//! The registry's response bodies are JSON documents of four fixed shapes.
//! Rather than build a full document tree, this module scans a body in
//! place: strings and unsigned integers are extracted where a shape needs
//! them, and every other value is stepped over.  Each executable function
//! returns exactly what its specification twin computes on the view of the
//! input, so the decoding of every body is pinned down byte for byte.
//!
//! One deliberate restriction: numbers other than plain unsigned integers
//! can only be stepped over, never extracted.  String escapes are decoded
//! in full, surrogate pairs included; an unpaired surrogate escape is
//! malformed.

use vstd::prelude::*;

verus! {

pub const QUOTE: u8 = 34;
pub const BACKSLASH: u8 = 92;
pub const LBRACE: u8 = 123;
pub const RBRACE: u8 = 125;
pub const LBRACKET: u8 = 91;
pub const RBRACKET: u8 = 93;
pub const COMMA: u8 = 44;
pub const COLON: u8 = 58;

/// JSON insignificant whitespace: space, tab, line feed, carriage return.
pub open spec fn is_ws(c: u8) -> bool {
    c == 32 || c == 9 || c == 10 || c == 13
}

pub open spec fn is_digit(c: u8) -> bool {
    48 <= c <= 57
}

/// Index of the first non-whitespace byte at or after `i`.
pub open spec fn skip_ws(s: Seq<u8>, i: int) -> int
    decreases s.len() - i,
{
    if 0 <= i < s.len() && is_ws(s[i]) {
        skip_ws(s, i + 1)
    } else {
        i
    }
}

pub fn skip_ws_x(s: &Vec<u8>, i: usize) -> (r: usize)
    requires
        i <= s.len(),
    ensures
        r == skip_ws(s@, i as int),
        i <= r <= s.len(),
    decreases s.len() - i,
{
    if i < s.len() && (s[i] == 32 || s[i] == 9 || s[i] == 10 || s[i] == 13) {
        skip_ws_x(s, i + 1)
    } else {
        i
    }
}

/// Value of one hexadecimal digit, or 16 for a byte that is none.
pub open spec fn hex_val(c: u8) -> int {
    if 48 <= c <= 57 {
        c - 48
    } else if 97 <= c <= 102 {
        c - 87
    } else if 65 <= c <= 70 {
        c - 55
    } else {
        16
    }
}

pub fn hex_val_x(c: u8) -> (r: u8)
    ensures
        r == hex_val(c),
{
    if 48 <= c && c <= 57 {
        c - 48
    } else if 97 <= c && c <= 102 {
        c - 87
    } else if 65 <= c && c <= 70 {
        c - 55
    } else {
        16
    }
}

/// The byte that a simple escape `\x` stands for, or 0 for an unknown one.
pub open spec fn simple_escape(e: u8) -> u8 {
    if e == QUOTE || e == BACKSLASH || e == 47 {
        e
    } else if e == 98 {
        8
    } else if e == 102 {
        12
    } else if e == 110 {
        10
    } else if e == 114 {
        13
    } else if e == 116 {
        9
    } else {
        0
    }
}

pub open spec fn is_simple_escape(e: u8) -> bool {
    e == QUOTE || e == BACKSLASH || e == 47 || e == 98 || e == 102 || e == 110 || e == 114
        || e == 116
}

/// UTF-8 encoding of a code point up to 0x10FFFF (unpaired surrogates are
/// rejected before this function is applied).
pub open spec fn utf8_of(c: int) -> Seq<u8> {
    if c < 0x80 {
        seq![c as u8]
    } else if c < 0x800 {
        seq![(0xC0 + c / 0x40) as u8, (0x80 + c % 0x40) as u8]
    } else if c < 0x10000 {
        seq![(0xE0 + c / 0x1000) as u8, (0x80 + (c / 0x40) % 0x40) as u8, (0x80 + c % 0x40) as u8]
    } else {
        seq![
            (0xF0 + c / 0x40000) as u8,
            (0x80 + (c / 0x1000) % 0x40) as u8,
            (0x80 + (c / 0x40) % 0x40) as u8,
            (0x80 + c % 0x40) as u8,
        ]
    }
}

/// The four hex digits at `i`, as a code point, or `None` if any byte is
/// not a hex digit or the input ends first.
pub open spec fn hex4(s: Seq<u8>, i: int) -> Option<int> {
    if i + 4 <= s.len() && hex_val(s[i]) < 16 && hex_val(s[i + 1]) < 16 && hex_val(s[i + 2]) < 16
        && hex_val(s[i + 3]) < 16 {
        Some(hex_val(s[i]) * 0x1000 + hex_val(s[i + 1]) * 0x100 + hex_val(s[i + 2]) * 0x10
            + hex_val(s[i + 3]))
    } else {
        None
    }
}

/// Content of a string literal whose opening quote stands just before `i`,
/// together with the index just past the closing quote.
pub open spec fn str_body(s: Seq<u8>, i: int) -> Option<(Seq<u8>, int)>
    decreases s.len() - i,
{
    if i < 0 || i >= s.len() {
        None
    } else if s[i] == QUOTE {
        Some((Seq::empty(), i + 1))
    } else if s[i] == BACKSLASH {
        if i + 1 >= s.len() {
            None
        } else if is_simple_escape(s[i + 1]) {
            match str_body(s, i + 2) {
                None => None,
                Some((t, j)) => Some((seq![simple_escape(s[i + 1])] + t, j)),
            }
        } else if s[i + 1] == 117 {
            match hex4(s, i + 2) {
                None => None,
                Some(c) => if 0xDC00 <= c < 0xE000 {
                    // A low surrogate may only follow a high one.
                    None
                } else if 0xD800 <= c < 0xDC00 {
                    // A high surrogate must pair with a following low one.
                    if i + 8 <= s.len() && s[i + 6] == BACKSLASH && s[i + 7] == 117 {
                        match hex4(s, i + 8) {
                            None => None,
                            Some(lo) => if 0xDC00 <= lo < 0xE000 {
                                match str_body(s, i + 12) {
                                    None => None,
                                    Some((t, j)) => Some(
                                        (
                                            utf8_of(
                                                0x10000 + (c - 0xD800) * 0x400 + (lo - 0xDC00),
                                            ) + t,
                                            j,
                                        ),
                                    ),
                                }
                            } else {
                                None
                            },
                        }
                    } else {
                        None
                    }
                } else {
                    match str_body(s, i + 6) {
                        None => None,
                        Some((t, j)) => Some((utf8_of(c) + t, j)),
                    }
                },
            }
        } else {
            None
        }
    } else if s[i] < 32 {
        None
    } else {
        match str_body(s, i + 1) {
            None => None,
            Some((t, j)) => Some((seq![s[i]] + t, j)),
        }
    }
}

fn push_utf8(out: &mut Vec<u8>, c: u32)
    requires
        c < 0x110000,
    ensures
        final(out)@ == old(out)@ + utf8_of(c as int),
{
    let ghost pre = out@;
    if c < 0x80 {
        out.push(c as u8);
        assert(out@ =~= pre + utf8_of(c as int));
    } else if c < 0x800 {
        out.push((0xC0 + c / 0x40) as u8);
        out.push((0x80 + c % 0x40) as u8);
        assert(out@ =~= pre + utf8_of(c as int));
    } else if c < 0x10000 {
        out.push((0xE0 + c / 0x1000) as u8);
        out.push((0x80 + (c / 0x40) % 0x40) as u8);
        out.push((0x80 + c % 0x40) as u8);
        assert(out@ =~= pre + utf8_of(c as int));
    } else {
        out.push((0xF0 + c / 0x40000) as u8);
        out.push((0x80 + (c / 0x1000) % 0x40) as u8);
        out.push((0x80 + (c / 0x40) % 0x40) as u8);
        out.push((0x80 + c % 0x40) as u8);
        assert(out@ =~= pre + utf8_of(c as int));
    }
}

/// Reads the four hex digits at `i`; mirrors `hex4`.
fn hex4_x(s: &Vec<u8>, i: usize) -> (r: Option<u32>)
    requires
        i <= s.len(),
    ensures
        match r {
            Some(c) => hex4(s@, i as int) == Some(c as int) && c < 0x10000,
            None => hex4(s@, i as int) is None,
        },
{
    if s.len() >= 4 && i <= s.len() - 4 {
        let a = hex_val_x(s[i]);
        let b = hex_val_x(s[i + 1]);
        let c = hex_val_x(s[i + 2]);
        let d = hex_val_x(s[i + 3]);
        if a < 16 && b < 16 && c < 16 && d < 16 {
            Some((a as u32) * 0x1000 + (b as u32) * 0x100 + (c as u32) * 0x10 + (d as u32))
        } else {
            None
        }
    } else {
        None
    }
}

/// Reads a string body starting at `i` (just after the opening quote);
/// mirrors `str_body`.
pub fn str_body_x(s: &Vec<u8>, i: usize) -> (r: Option<(Vec<u8>, usize)>)
    requires
        i <= s.len(),
    ensures
        match r {
            Some((t, j)) => str_body(s@, i as int) == Some((t@, j as int)) && i <= j <= s.len(),
            None => str_body(s@, i as int) is None,
        },
    decreases s.len() - i,
{
    if i >= s.len() {
        None
    } else if s[i] == QUOTE {
        Some((Vec::new(), i + 1))
    } else if s[i] == BACKSLASH {
        if i + 1 >= s.len() {
            None
        } else if s[i + 1] == QUOTE || s[i + 1] == BACKSLASH || s[i + 1] == 47 || s[i + 1] == 98
            || s[i + 1] == 102 || s[i + 1] == 110 || s[i + 1] == 114 || s[i + 1] == 116 {
            match str_body_x(s, i + 2) {
                None => None,
                Some((t, j)) => {
                    let ghost tv = t@;
                    let mut t = t;
                    let e = s[i + 1];
                    let u = if e == QUOTE || e == BACKSLASH || e == 47 {
                        e
                    } else if e == 98 {
                        8
                    } else if e == 102 {
                        12
                    } else if e == 110 {
                        10
                    } else if e == 114 {
                        13
                    } else {
                        9
                    };
                    t.insert(0, u);
                    assert(t@ =~= seq![simple_escape(s@[i as int + 1])] + tv);
                    Some((t, j))
                },
            }
        } else if s[i + 1] == 117 {
            match hex4_x(s, i + 2) {
                None => None,
                Some(c) => if 0xDC00 <= c && c < 0xE000 {
                    None
                } else if 0xD800 <= c && c < 0xDC00 {
                    if s.len() >= 8 && i <= s.len() - 8 && s[i + 6] == BACKSLASH && s[i + 7] == 117 {
                        match hex4_x(s, i + 8) {
                            None => None,
                            Some(lo) => if 0xDC00 <= lo && lo < 0xE000 {
                                match str_body_x(s, i + 12) {
                                    None => None,
                                    Some((t, j)) => {
                                        let ghost tv = t@;
                                        let code: u32 = 0x10000 + (c - 0xD800) * 0x400 + (lo
                                            - 0xDC00);
                                        let mut enc: Vec<u8> = Vec::new();
                                        push_utf8(&mut enc, code);
                                        let mut enc = enc;
                                        let mut t = t;
                                        enc.append(&mut t);
                                        assert(enc@ =~= utf8_of(code as int) + tv);
                                        Some((enc, j))
                                    },
                                }
                            } else {
                                None
                            },
                        }
                    } else {
                        None
                    }
                } else {
                    match str_body_x(s, i + 6) {
                        None => None,
                        Some((t, j)) => {
                            let ghost tv = t@;
                            let mut enc: Vec<u8> = Vec::new();
                            push_utf8(&mut enc, c);
                            let mut enc = enc;
                            let mut t = t;
                            enc.append(&mut t);
                            assert(enc@ =~= utf8_of(c as int) + tv);
                            Some((enc, j))
                        },
                    }
                },
            }
        } else {
            None
        }
    } else if s[i] < 32 {
        None
    } else {
        match str_body_x(s, i + 1) {
            None => None,
            Some((t, j)) => {
                let ghost tv = t@;
                let mut t = t;
                t.insert(0, s[i]);
                assert(t@ =~= seq![s@[i as int]] + tv);
                Some((t, j))
            },
        }
    }
}

/// Digits read into an accumulator; `None` when the value would not fit in
/// a `u64`.  Stops at the first non-digit byte.
pub open spec fn int_body(s: Seq<u8>, i: int, acc: u64) -> Option<(u64, int)>
    decreases s.len() - i,
{
    if 0 <= i < s.len() && is_digit(s[i]) {
        let d = (s[i] - 48) as u64;
        if acc <= (u64::MAX - d) / 10 {
            int_body(s, i + 1, (acc * 10 + d) as u64)
        } else {
            None
        }
    } else {
        Some((acc, i))
    }
}

pub fn int_body_x(s: &Vec<u8>, i: usize, acc: u64) -> (r: Option<(u64, usize)>)
    requires
        i <= s.len(),
    ensures
        match r {
            Some((n, j)) => int_body(s@, i as int, acc) == Some((n, j as int)) && i <= j <= s.len(),
            None => int_body(s@, i as int, acc) is None,
        },
    decreases s.len() - i,
{
    if i < s.len() && 48 <= s[i] && s[i] <= 57 {
        let d = (s[i] - 48) as u64;
        if acc <= (u64::MAX - d) / 10 {
            assert(acc * 10 + d <= u64::MAX) by (nonlinear_arith)
                requires
                    acc <= (u64::MAX - d) / 10,
                    d <= 9,
            ;
            int_body_x(s, i + 1, acc * 10 + d)
        } else {
            None
        }
    } else {
        Some((acc, i))
    }
}

/// An unsigned integer at `i`: at least one digit, no redundant leading
/// zero, value within `u64`.
pub open spec fn int_at(s: Seq<u8>, i: int) -> Option<(u64, int)> {
    if 0 <= i < s.len() && is_digit(s[i]) {
        if s[i] == 48 && i + 1 < s.len() && is_digit(s[i + 1]) {
            None
        } else {
            int_body(s, i, 0)
        }
    } else {
        None
    }
}

pub fn int_at_x(s: &Vec<u8>, i: usize) -> (r: Option<(u64, usize)>)
    requires
        i <= s.len(),
    ensures
        match r {
            Some((n, j)) => int_at(s@, i as int) == Some((n, j as int)) && i <= j <= s.len(),
            None => int_at(s@, i as int) is None,
        },
{
    if i < s.len() && 48 <= s[i] && s[i] <= 57 {
        if s[i] == 48 && i + 1 < s.len() && 48 <= s[i + 1] && s[i + 1] <= 57 {
            None
        } else {
            int_body_x(s, i, 0)
        }
    } else {
        None
    }
}

/// A byte that may occur in a JSON number; used only to step over numeric
/// values that no shape extracts.
pub open spec fn is_num_byte(c: u8) -> bool {
    is_digit(c) || c == 45 || c == 43 || c == 46 || c == 101 || c == 69
}

/// Index just past a maximal run of number bytes at `i`.
pub open spec fn num_end(s: Seq<u8>, i: int) -> int
    decreases s.len() - i,
{
    if 0 <= i < s.len() && is_num_byte(s[i]) {
        num_end(s, i + 1)
    } else {
        i
    }
}

pub fn num_end_x(s: &Vec<u8>, i: usize) -> (r: usize)
    requires
        i <= s.len(),
    ensures
        r == num_end(s@, i as int),
        i <= r <= s.len(),
    decreases s.len() - i,
{
    if i < s.len() && (48 <= s[i] && s[i] <= 57 || s[i] == 45 || s[i] == 43 || s[i] == 46 || s[i]
        == 101 || s[i] == 69) {
        num_end_x(s, i + 1)
    } else {
        i
    }
}

/// True when the bytes of `word` stand at `i`.
pub open spec fn lit_at(s: Seq<u8>, i: int, word: Seq<u8>) -> bool {
    i >= 0 && i + word.len() <= s.len() && s.subrange(i, i + word.len()) == word
}

pub open spec fn lit_null() -> Seq<u8> {
    seq![110u8, 117u8, 108u8, 108u8]
}

pub open spec fn lit_true() -> Seq<u8> {
    seq![116u8, 114u8, 117u8, 101u8]
}

pub open spec fn lit_false() -> Seq<u8> {
    seq![102u8, 97u8, 108u8, 115u8, 101u8]
}

/// Index just past the JSON value that starts at `i`, or `None` when no
/// value starts there.  Mutually recursive with the array and object
/// walkers, which expect the index just past the opening bracket or brace.
pub open spec fn skip_value(s: Seq<u8>, i: int) -> Option<int>
    decreases s.len() - i, 0int,
{
    if i < 0 || i >= s.len() {
        None
    } else if s[i] == QUOTE {
        match str_body(s, i + 1) {
            None => None,
            Some((_, j)) => Some(j),
        }
    } else if is_num_byte(s[i]) {
        Some(num_end(s, i))
    } else if lit_at(s, i, lit_null()) {
        Some(i + 4)
    } else if lit_at(s, i, lit_true()) {
        Some(i + 4)
    } else if lit_at(s, i, lit_false()) {
        Some(i + 5)
    } else if s[i] == LBRACKET {
        skip_arr(s, i + 1)
    } else if s[i] == LBRACE {
        skip_obj(s, i + 1)
    } else {
        None
    }
}

/// Steps over the rest of an array, starting just past `[` or a `,`.
///
/// Here and in the other walkers, index comparisons such as `j < i` or
/// `m >= i` keep the recursion measure decreasing; a scan never moves
/// backwards, so the branches they cut off accept nothing a forward scan
/// would.
pub open spec fn skip_arr(s: Seq<u8>, i: int) -> Option<int>
    decreases s.len() - i, 1int,
{
    if i < 0 {
        None
    } else {
        let j = skip_ws(s, i);
        if j >= s.len() || j < i {
            None
        } else if s[j] == RBRACKET {
            Some(j + 1)
        } else {
            match skip_value(s, j) {
                None => None,
                Some(e) => {
                    let m = skip_ws(s, e);
                    if m >= s.len() {
                        None
                    } else if s[m] == COMMA {
                        if m >= i && m < s.len() {
                            skip_arr(s, m + 1)
                        } else {
                            None
                        }
                    } else if s[m] == RBRACKET {
                        Some(m + 1)
                    } else {
                        None
                    }
                },
            }
        }
    }
}

/// Steps over the rest of an object, starting just past `{` or a `,`.
pub open spec fn skip_obj(s: Seq<u8>, i: int) -> Option<int>
    decreases s.len() - i, 1int,
{
    if i < 0 {
        None
    } else {
        let j = skip_ws(s, i);
        if j >= s.len() || j < i {
            None
        } else if s[j] == RBRACE {
            Some(j + 1)
        } else if s[j] != QUOTE {
            None
        } else {
            match str_body(s, j + 1) {
                None => None,
                Some((_, e)) => {
                    let m = skip_ws(s, e);
                    if m >= s.len() || s[m] != COLON {
                        None
                    } else {
                        let v = skip_ws(s, m + 1);
                        if !(i < v <= s.len()) {
                            None
                        } else {
                            match skip_value(s, v) {
                                None => None,
                                Some(e2) => {
                                    let m2 = skip_ws(s, e2);
                                    if m2 >= s.len() {
                                        None
                                    } else if s[m2] == COMMA {
                                        if m2 >= i {
                                            skip_obj(s, m2 + 1)
                                        } else {
                                            None
                                        }
                                    } else if s[m2] == RBRACE {
                                        Some(m2 + 1)
                                    } else {
                                        None
                                    }
                                },
                            }
                        }
                    }
                },
            }
        }
    }
}

/// Tests for the literal `null` at `i`; mirrors `lit_at(_, _, lit_null())`.
pub fn null_at_x(s: &Vec<u8>, i: usize) -> (r: bool)
    requires
        i <= s.len(),
    ensures
        r == lit_at(s@, i as int, lit_null()),
{
    if s.len() >= 4 && i <= s.len() - 4 && s[i] == 110 && s[i + 1] == 117 && s[i + 2] == 108 && s[i
        + 3] == 108 {
        assert(s@.subrange(i as int, i as int + 4) =~= lit_null());
        true
    } else {
        assert(i + 4 <= s.len() ==> s@.subrange(i as int, i as int + 4) != lit_null()) by {
            if i + 4 <= s.len() && s@.subrange(i as int, i as int + 4) == lit_null() {
                assert(s@[i as int] == 110 && s@[i as int + 1] == 117 && s@[i as int + 2] == 108
                    && s@[i as int + 3] == 108) by {
                    assert(s@.subrange(i as int, i as int + 4)[0] == 110);
                    assert(s@.subrange(i as int, i as int + 4)[1] == 117);
                    assert(s@.subrange(i as int, i as int + 4)[2] == 108);
                    assert(s@.subrange(i as int, i as int + 4)[3] == 108);
                }
            }
        }
        false
    }
}

fn true_at_x(s: &Vec<u8>, i: usize) -> (r: bool)
    requires
        i <= s.len(),
    ensures
        r == lit_at(s@, i as int, lit_true()),
{
    if s.len() >= 4 && i <= s.len() - 4 && s[i] == 116 && s[i + 1] == 114 && s[i + 2] == 117 && s[i
        + 3] == 101 {
        assert(s@.subrange(i as int, i as int + 4) =~= lit_true());
        true
    } else {
        assert(i + 4 <= s.len() ==> s@.subrange(i as int, i as int + 4) != lit_true()) by {
            if i + 4 <= s.len() && s@.subrange(i as int, i as int + 4) == lit_true() {
                assert(s@.subrange(i as int, i as int + 4)[0] == 116);
                assert(s@.subrange(i as int, i as int + 4)[1] == 114);
                assert(s@.subrange(i as int, i as int + 4)[2] == 117);
                assert(s@.subrange(i as int, i as int + 4)[3] == 101);
            }
        }
        false
    }
}

fn false_at_x(s: &Vec<u8>, i: usize) -> (r: bool)
    requires
        i <= s.len(),
    ensures
        r == lit_at(s@, i as int, lit_false()),
{
    if s.len() >= 5 && i <= s.len() - 5 && s[i] == 102 && s[i + 1] == 97 && s[i + 2] == 108 && s[i
        + 3] == 115 && s[i + 4] == 101 {
        assert(s@.subrange(i as int, i as int + 5) =~= lit_false());
        true
    } else {
        assert(i + 5 <= s.len() ==> s@.subrange(i as int, i as int + 5) != lit_false()) by {
            if i + 5 <= s.len() && s@.subrange(i as int, i as int + 5) == lit_false() {
                assert(s@.subrange(i as int, i as int + 5)[0] == 102);
                assert(s@.subrange(i as int, i as int + 5)[1] == 97);
                assert(s@.subrange(i as int, i as int + 5)[2] == 108);
                assert(s@.subrange(i as int, i as int + 5)[3] == 115);
                assert(s@.subrange(i as int, i as int + 5)[4] == 101);
            }
        }
        false
    }
}

/// Steps over one JSON value; mirrors `skip_value`.
pub fn skip_value_x(s: &Vec<u8>, i: usize) -> (r: Option<usize>)
    requires
        i <= s.len(),
    ensures
        match r {
            Some(j) => skip_value(s@, i as int) == Some(j as int) && j <= s.len(),
            None => skip_value(s@, i as int) is None,
        },
    decreases s.len() - i, 0int,
{
    if i >= s.len() {
        None
    } else if s[i] == QUOTE {
        match str_body_x(s, i + 1) {
            None => None,
            Some((_, j)) => Some(j),
        }
    } else if 48 <= s[i] && s[i] <= 57 || s[i] == 45 || s[i] == 43 || s[i] == 46 || s[i] == 101
        || s[i] == 69 {
        Some(num_end_x(s, i))
    } else if null_at_x(s, i) {
        Some(i + 4)
    } else if true_at_x(s, i) {
        Some(i + 4)
    } else if false_at_x(s, i) {
        Some(i + 5)
    } else if s[i] == LBRACKET {
        skip_arr_x(s, i + 1)
    } else if s[i] == LBRACE {
        skip_obj_x(s, i + 1)
    } else {
        None
    }
}

/// Steps over the rest of an array; mirrors `skip_arr`.
pub fn skip_arr_x(s: &Vec<u8>, i: usize) -> (r: Option<usize>)
    requires
        i <= s.len(),
    ensures
        match r {
            Some(j) => skip_arr(s@, i as int) == Some(j as int) && j <= s.len(),
            None => skip_arr(s@, i as int) is None,
        },
    decreases s.len() - i, 1int,
{
    let j = skip_ws_x(s, i);
    if j >= s.len() {
        None
    } else if s[j] == RBRACKET {
        Some(j + 1)
    } else {
        match skip_value_x(s, j) {
            None => None,
            Some(e) => {
                let m = skip_ws_x(s, e);
                if m >= s.len() {
                    None
                } else if s[m] == COMMA {
                    if m >= i {
                        skip_arr_x(s, m + 1)
                    } else {
                        None
                    }
                } else if s[m] == RBRACKET {
                    Some(m + 1)
                } else {
                    None
                }
            },
        }
    }
}

/// Steps over the rest of an object; mirrors `skip_obj`.
pub fn skip_obj_x(s: &Vec<u8>, i: usize) -> (r: Option<usize>)
    requires
        i <= s.len(),
    ensures
        match r {
            Some(j) => skip_obj(s@, i as int) == Some(j as int) && j <= s.len(),
            None => skip_obj(s@, i as int) is None,
        },
    decreases s.len() - i, 1int,
{
    let j = skip_ws_x(s, i);
    if j >= s.len() {
        None
    } else if s[j] == RBRACE {
        Some(j + 1)
    } else if s[j] != QUOTE {
        None
    } else {
        match str_body_x(s, j + 1) {
            None => None,
            Some((_, e)) => {
                let m = skip_ws_x(s, e);
                if m >= s.len() || s[m] != COLON {
                    None
                } else {
                    let v = skip_ws_x(s, m + 1);
                    if !(i < v && v <= s.len()) {
                        None
                    } else {
                        match skip_value_x(s, v) {
                            None => None,
                            Some(e2) => {
                                let m2 = skip_ws_x(s, e2);
                                if m2 >= s.len() {
                                    None
                                } else if s[m2] == COMMA {
                                    if m2 >= i {
                                        skip_obj_x(s, m2 + 1)
                                    } else {
                                        None
                                    }
                                } else if s[m2] == RBRACE {
                                    Some(m2 + 1)
                                } else {
                                    None
                                }
                            },
                        }
                    }
                }
            },
        }
    }
}

/// Scans the members of an object, starting just past `{` or a `,`, for
/// the first member named `key`.  `None` means the members are malformed
/// up to that point; `Some(None)` means the key is absent; `Some(Some(v))`
/// gives the index where the key's value starts.
pub open spec fn obj_find(s: Seq<u8>, i: int, key: Seq<u8>) -> Option<Option<int>>
    decreases s.len() - i,
{
    if i < 0 {
        None
    } else {
        let j = skip_ws(s, i);
        if j >= s.len() || j < i {
            None
        } else if s[j] == RBRACE {
            Some(None)
        } else if s[j] != QUOTE {
            None
        } else {
            match str_body(s, j + 1) {
                None => None,
                Some((k, e)) => {
                    let m = skip_ws(s, e);
                    if m >= s.len() || s[m] != COLON {
                        None
                    } else {
                        let v = skip_ws(s, m + 1);
                        if !(i < v <= s.len()) {
                            None
                        } else if k == key {
                            Some(Some(v))
                        } else {
                            match skip_value(s, v) {
                                None => None,
                                Some(e2) => {
                                    let m2 = skip_ws(s, e2);
                                    if m2 >= s.len() {
                                        None
                                    } else if s[m2] == COMMA {
                                        if m2 >= i {
                                            obj_find(s, m2 + 1, key)
                                        } else {
                                            None
                                        }
                                    } else if s[m2] == RBRACE {
                                        Some(None)
                                    } else {
                                        None
                                    }
                                },
                            }
                        }
                    }
                },
            }
        }
    }
}

/// Mirrors `obj_find`.
pub fn obj_find_x(s: &Vec<u8>, i: usize, key: &Vec<u8>) -> (r: Option<Option<usize>>)
    requires
        i <= s.len(),
    ensures
        match r {
            Some(Some(v)) => obj_find(s@, i as int, key@) == Some(Some(v as int)) && v <= s.len(),
            Some(None) => obj_find(s@, i as int, key@) == Some(None::<int>),
            None => obj_find(s@, i as int, key@) is None,
        },
    decreases s.len() - i,
{
    let j = skip_ws_x(s, i);
    if j >= s.len() {
        None
    } else if s[j] == RBRACE {
        Some(None)
    } else if s[j] != QUOTE {
        None
    } else {
        match str_body_x(s, j + 1) {
            None => None,
            Some((k, e)) => {
                let m = skip_ws_x(s, e);
                if m >= s.len() || s[m] != COLON {
                    None
                } else {
                    let v = skip_ws_x(s, m + 1);
                    if !(i < v) {
                        None
                    } else if bytes_eq(&k, key) {
                        Some(Some(v))
                    } else {
                        match skip_value_x(s, v) {
                            None => None,
                            Some(e2) => {
                                let m2 = skip_ws_x(s, e2);
                                if m2 >= s.len() {
                                    None
                                } else if s[m2] == COMMA {
                                    if m2 >= i {
                                        obj_find_x(s, m2 + 1, key)
                                    } else {
                                        None
                                    }
                                } else if s[m2] == RBRACE {
                                    Some(None)
                                } else {
                                    None
                                }
                            },
                        }
                    }
                }
            },
        }
    }
}

/// Byte-wise equality of two vectors.
pub fn bytes_eq(a: &Vec<u8>, b: &Vec<u8>) -> (r: bool)
    ensures
        r == (a@ == b@),
{
    if a.len() != b.len() {
        assert(a@ != b@);
        return false;
    }
    let mut k: usize = 0;
    while k < a.len()
        invariant
            k <= a.len(),
            a.len() == b.len(),
            forall|m: int| 0 <= m < k ==> a@[m] == b@[m],
        decreases a.len() - k,
    {
        if a[k] != b[k] {
            return false;
        }
        k = k + 1;
    }
    assert(a@ =~= b@);
    true
}

} // verus!
