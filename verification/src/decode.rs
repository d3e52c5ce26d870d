//! Verified decoder for the wire protocol.
//!
//! One logical command travels as one line of UTF-8 text holding a tagged
//! structure, `{"Shutter":[<index>,"Open"]}` or `{"Shutter":[<index>,"Close"]}`,
//! with the usual insignificant whitespace allowed between tokens. Anything
//! else is rejected wholesale: there is no partial or lenient parse.

use vstd::prelude::*;
use crate::command::Command;
use crate::command::OpenClose;

verus! {

/// Decoding failure: the line is not a well-formed command encoding.
#[derive(Clone, Copy, PartialEq, Eq, Structural, Debug)]
pub struct DecodeError;

/// Insignificant whitespace: space, tab, line feed, carriage return.
pub open spec fn is_ws(b: u8) -> bool {
    b == 0x20 || b == 0x09 || b == 0x0a || b == 0x0d
}

/// ASCII decimal digit.
pub open spec fn is_digit(b: u8) -> bool {
    0x30 <= b && b <= 0x39
}

/// Index of the first byte at or after `i` that is not whitespace.
pub open spec fn spec_skip_ws(s: Seq<u8>, i: int) -> int
    decreases s.len() - i when 0 <= i <= s.len()
{
    if i >= s.len() {
        i
    } else if is_ws(s[i]) {
        spec_skip_ws(s, i + 1)
    } else {
        i
    }
}

/// The byte `b` stands at index `i`.
pub open spec fn byte_at(s: Seq<u8>, i: int, b: u8) -> bool {
    0 <= i < s.len() && s[i] == b
}

/// The literal `lit` stands at index `i`.
pub open spec fn lit_at(s: Seq<u8>, i: int, lit: Seq<u8>) -> bool {
    0 <= i && i + lit.len() <= s.len() && s.subrange(i, i + lit.len()) == lit
}

/// Index of the first byte at or after `i` that is not a decimal digit.
pub open spec fn digits_end(s: Seq<u8>, i: int) -> int
    decreases s.len() - i when 0 <= i <= s.len()
{
    if i >= s.len() {
        i
    } else if is_digit(s[i]) {
        digits_end(s, i + 1)
    } else {
        i
    }
}

/// Value of the digit run `s[i..j]` read as a decimal number.
pub open spec fn digits_val(s: Seq<u8>, i: int, j: int) -> int
    decreases j - i
{
    if j <= i {
        0
    } else {
        digits_val(s, i, j - 1) * 10 + s[j - 1] - 0x30
    }
}

/// The shutter index at `i`: a run of digits without a redundant leading
/// zero, together with the index just past it.
pub open spec fn spec_parse_num(s: Seq<u8>, i: int) -> Option<(int, int)> {
    let j = digits_end(s, i);
    if j == i {
        None
    } else if s[i] == 0x30 && j > i + 1 {
        None
    } else {
        Some((digits_val(s, i, j), j))
    }
}

/// The token `"Shutter"`, quotes included.
pub open spec fn shutter_key() -> Seq<u8> {
    seq![0x22u8, 0x53, 0x68, 0x75, 0x74, 0x74, 0x65, 0x72, 0x22]
}

/// The token `"Open"`, quotes included.
pub open spec fn open_tok() -> Seq<u8> {
    seq![0x22u8, 0x4f, 0x70, 0x65, 0x6e, 0x22]
}

/// The token `"Close"`, quotes included.
pub open spec fn close_tok() -> Seq<u8> {
    seq![0x22u8, 0x43, 0x6c, 0x6f, 0x73, 0x65, 0x22]
}

/// The direction token at `i`, together with the index just past it.
pub open spec fn spec_parse_dir(s: Seq<u8>, i: int) -> Option<(OpenClose, int)> {
    if lit_at(s, i, open_tok()) {
        Some((OpenClose::Open, i + open_tok().len()))
    } else if lit_at(s, i, close_tok()) {
        Some((OpenClose::Close, i + close_tok().len()))
    } else {
        None
    }
}

/// What a line of input means: `Some(command)` exactly when the whole line is
/// one well-formed command encoding, `None` otherwise. This is the grammar the
/// executable decoder is proved against.
pub open spec fn spec_decode(s: Seq<u8>) -> Option<Command> {
    let i0 = spec_skip_ws(s, 0);
    if !byte_at(s, i0, 0x7b) {  // {
        None
    } else {
        let i1 = spec_skip_ws(s, i0 + 1);
        if !lit_at(s, i1, shutter_key()) {
            None
        } else {
            let i2 = spec_skip_ws(s, i1 + shutter_key().len());
            if !byte_at(s, i2, 0x3a) {  // :
                None
            } else {
                let i3 = spec_skip_ws(s, i2 + 1);
                if !byte_at(s, i3, 0x5b) {  // [
                    None
                } else {
                    let i4 = spec_skip_ws(s, i3 + 1);
                    match spec_parse_num(s, i4) {
                        None => None,
                        Some((v, jn)) => {
                            let i5 = spec_skip_ws(s, jn);
                            if !byte_at(s, i5, 0x2c) {  // ,
                                None
                            } else {
                                let i6 = spec_skip_ws(s, i5 + 1);
                                match spec_parse_dir(s, i6) {
                                    None => None,
                                    Some((dir, jd)) => {
                                        let i7 = spec_skip_ws(s, jd);
                                        if !byte_at(s, i7, 0x5d) {  // ]
                                            None
                                        } else {
                                            let i8 = spec_skip_ws(s, i7 + 1);
                                            if !byte_at(s, i8, 0x7d) {  // }
                                                None
                                            } else if spec_skip_ws(s, i8 + 1) != s.len() {
                                                None
                                            } else if v > usize::MAX {
                                                None
                                            } else {
                                                Some(Command::Shutter(v as usize, dir))
                                            }
                                        }
                                    },
                                }
                            }
                        },
                    }
                }
            }
        }
    }
}

/// First index at or after `i` holding no whitespace.
fn skip_ws(s: &[u8], i: usize) -> (r: usize)
    requires
        i <= s@.len(),
    ensures
        i <= r <= s@.len(),
        r as int == spec_skip_ws(s@, i as int),
{
    let n = s.len();
    let mut j = i;
    while j < n && (s[j] == 0x20 || s[j] == 0x09 || s[j] == 0x0a || s[j] == 0x0d)
        invariant
            i <= j <= n,
            n == s@.len(),
            spec_skip_ws(s@, i as int) == spec_skip_ws(s@, j as int),
        decreases n - j,
    {
        proof {
            assert(spec_skip_ws(s@, j as int) == spec_skip_ws(s@, j + 1));
        }
        j = j + 1;
    }
    j
}

/// Whether the literal `lit` stands at index `i` of `s`.
fn match_lit(s: &[u8], i: usize, lit: &[u8]) -> (r: bool)
    requires
        i <= s@.len(),
    ensures
        r == lit_at(s@, i as int, lit@),
{
    let ll = lit.len();
    let n = s.len();
    if n - i < ll {
        return false;
    }
    let mut k: usize = 0;
    while k < ll
        invariant
            0 <= k <= ll,
            ll == lit@.len(),
            n == s@.len(),
            i + ll <= n,
            forall|m: int| 0 <= m < k ==> s@[i + m] == lit@[m],
        decreases ll - k,
    {
        if s[i + k] != lit[k] {
            proof {
                assert(s@.subrange(i as int, i + ll as int)[k as int] != lit@[k as int]);
            }
            return false;
        }
        k = k + 1;
    }
    proof {
        assert(s@.subrange(i as int, i + ll as int) =~= lit@);
    }
    true
}

/// The shutter index beginning at `i`, if the grammar admits one that fits
/// the machine's word; `None` for no digits, a redundant leading zero, or a
/// value past `usize::MAX`.
fn parse_index(s: &[u8], i: usize) -> (r: Option<(usize, usize)>)
    requires
        i <= s@.len(),
    ensures
        match spec_parse_num(s@, i as int) {
            Some((v, j)) => {
                if v <= usize::MAX as int {
                    r == Some((v as usize, j as usize)) && i < j <= s@.len()
                } else {
                    r is None
                }
            },
            None => r is None,
        },
{
    let n = s.len();
    if i == n || s[i] < 0x30 || s[i] > 0x39 {
        return None;
    }
    let mut j = i;
    let mut val: usize = 0;
    let mut overflow = false;
    while j < n && 0x30 <= s[j] && s[j] <= 0x39
        invariant
            i <= j <= n,
            n == s@.len(),
            digits_end(s@, i as int) == digits_end(s@, j as int),
            forall|m: int| i <= m < j ==> is_digit(s@[m]),
            !overflow ==> val as int == digits_val(s@, i as int, j as int),
            overflow ==> digits_val(s@, i as int, j as int) > usize::MAX as int,
        decreases n - j,
    {
        let d = s[j] - 0x30;
        proof {
            assert(digits_val(s@, i as int, j + 1) == digits_val(s@, i as int, j as int) * 10
                + s@[j as int] - 0x30);
        }
        if !overflow {
            if val <= (usize::MAX - d as usize) / 10 {
                proof {
                    let q = (usize::MAX - d) as int / 10;
                    assert(q * 10 <= usize::MAX - d) by (nonlinear_arith)
                        requires q == (usize::MAX - d) as int / 10, 0 <= d < 10;
                    assert(val as int * 10 <= q * 10) by (nonlinear_arith)
                        requires val as int <= q, 0 <= val;
                }
                val = val * 10 + d as usize;
            } else {
                proof {
                    let q = (usize::MAX - d) as int / 10;
                    assert(q * 10 + 9 >= usize::MAX - d) by (nonlinear_arith)
                        requires q == (usize::MAX - d) as int / 10, 0 <= d < 10;
                    assert(val as int * 10 >= (q + 1) * 10) by (nonlinear_arith)
                        requires val as int >= q + 1;
                }
                overflow = true;
            }
        } else {
            proof {
                let prev = digits_val(s@, i as int, j as int);
                assert(prev * 10 >= prev) by (nonlinear_arith)
                    requires prev > 0;
            }
        }
        j = j + 1;
    }
    if s[i] == 0x30 && j > i + 1 {
        return None;
    }
    if overflow {
        return None;
    }
    proof {
        lemma_digits_val_bounds(s@, i as int, j as int);
    }
    Some((val, j))
}

/// A digit run has a value no smaller than zero.
proof fn lemma_digits_val_bounds(s: Seq<u8>, i: int, j: int)
    requires
        0 <= i <= j <= s.len(),
        forall|m: int| i <= m < j ==> is_digit(s[m]),
    ensures
        digits_val(s, i, j) >= 0,
    decreases j - i,
{
    if j > i {
        lemma_digits_val_bounds(s, i, j - 1);
        assert(digits_val(s, i, j) == digits_val(s, i, j - 1) * 10 + s[j - 1] - 0x30);
        assert(digits_val(s, i, j - 1) * 10 >= 0) by (nonlinear_arith)
            requires digits_val(s, i, j - 1) >= 0;
    }
}

/// The direction token beginning at `i`, if one stands there.
fn parse_dir(s: &[u8], i: usize) -> (r: Option<(OpenClose, usize)>)
    requires
        i <= s@.len(),
    ensures
        match spec_parse_dir(s@, i as int) {
            Some((d, j)) => r == Some((d, j as usize)) && i < j <= s@.len(),
            None => r is None,
        },
{
    let n = s.len();
    let open_t: [u8; 6] = [0x22, 0x4f, 0x70, 0x65, 0x6e, 0x22];
    let close_t: [u8; 7] = [0x22, 0x43, 0x6c, 0x6f, 0x73, 0x65, 0x22];
    proof {
        assert(open_t@ =~= open_tok());
        assert(close_t@ =~= close_tok());
    }
    if match_lit(s, i, open_t.as_slice()) {
        proof {
            assert(i + 6 <= n);
        }
        return Some((OpenClose::Open, i + 6));
    }
    if match_lit(s, i, close_t.as_slice()) {
        proof {
            assert(i + 7 <= n);
        }
        return Some((OpenClose::Close, i + 7));
    }
    None
}

/// Decode one line into a command; any malformed line is rejected wholesale.
pub fn decode(s: &[u8]) -> (r: Result<Command, DecodeError>)
    ensures
        match spec_decode(s@) {
            Some(c) => r == Ok::<Command, DecodeError>(c),
            None => r == Err::<Command, DecodeError>(DecodeError),
        },
{
    let key: [u8; 9] = [0x22, 0x53, 0x68, 0x75, 0x74, 0x74, 0x65, 0x72, 0x22];
    proof {
        assert(key@ =~= shutter_key());
    }
    let i0 = skip_ws(s, 0);
    if i0 == s.len() || s[i0] != 0x7b {
        return Err(DecodeError);
    }
    let i1 = skip_ws(s, i0 + 1);
    if !match_lit(s, i1, key.as_slice()) {
        return Err(DecodeError);
    }
    let i2 = skip_ws(s, i1 + 9);
    if i2 == s.len() || s[i2] != 0x3a {
        return Err(DecodeError);
    }
    let i3 = skip_ws(s, i2 + 1);
    if i3 == s.len() || s[i3] != 0x5b {
        return Err(DecodeError);
    }
    let i4 = skip_ws(s, i3 + 1);
    let (v, jn) = match parse_index(s, i4) {
        Some(p) => p,
        None => {
            return Err(DecodeError);
        },
    };
    let i5 = skip_ws(s, jn);
    if i5 == s.len() || s[i5] != 0x2c {
        return Err(DecodeError);
    }
    let i6 = skip_ws(s, i5 + 1);
    let (dir, jd) = match parse_dir(s, i6) {
        Some(p) => p,
        None => {
            return Err(DecodeError);
        },
    };
    let i7 = skip_ws(s, jd);
    if i7 == s.len() || s[i7] != 0x5d {
        return Err(DecodeError);
    }
    let i8 = skip_ws(s, i7 + 1);
    if i8 == s.len() || s[i8] != 0x7d {
        return Err(DecodeError);
    }
    let i9 = skip_ws(s, i8 + 1);
    if i9 != s.len() {
        return Err(DecodeError);
    }
    Ok(Command::Shutter(v, dir))
}

} // verus!
