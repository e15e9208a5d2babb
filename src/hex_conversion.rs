//! Conversion between raw bytes and their text form: each byte as two
//! lower-case hex digits followed by a space. Reading accepts any ASCII
//! whitespace between the bytes and hex digits of either case, optionally
//! after a `+`.

use vstd::prelude::*;
use vstd::string::StringSliceAdditionalSpecFns;

verus! {

#[derive(Debug, Clone, Copy, PartialEq, Eq)]
pub enum HexToBytesConversionError {
    InvalidHexCode,
}

/// The hex digits, in order of their value.
pub open spec fn hex_digits() -> Seq<char> {
    seq!['0', '1', '2', '3', '4', '5', '6', '7', '8', '9', 'a', 'b', 'c', 'd', 'e', 'f']
}

/// The text of one byte: its two hex digits and a space.
pub open spec fn byte_text(b: u8) -> Seq<char> {
    seq![hex_digits()[(b / 16) as int], hex_digits()[(b % 16) as int], ' ']
}

/// The text of a sequence of bytes.
pub open spec fn hex_text(bytes: Seq<u8>) -> Seq<char>
    decreases bytes.len(),
{
    if bytes.len() == 0 {
        Seq::empty()
    } else {
        hex_text(bytes.drop_last()) + byte_text(bytes.last())
    }
}

/// Writes each byte as two lower-case hex digits followed by a space.
pub fn bytes_to_hex_string(raw_data: &[u8]) -> (r: String)
    ensures
        r@ == hex_text(raw_data@),
{
    let digits = "0123456789abcdef";
    let space = " ";
    proof {
        reveal_strlit("0123456789abcdef");
        reveal_strlit(" ");
        assert(digits@ =~= hex_digits());
    }
    let mut ret_val = String::new();
    let mut i: usize = 0;
    while i < raw_data.len()
        invariant
            i <= raw_data@.len(),
            digits@ == hex_digits(),
            space@ == seq![' '],
            ret_val@ == hex_text(raw_data@.subrange(0, i as int)),
        decreases raw_data@.len() - i,
    {
        let byte = raw_data[i];
        let high = (byte / 16) as usize;
        let low = (byte % 16) as usize;
        ret_val.append(digits.substring_char(high, high + 1));
        ret_val.append(digits.substring_char(low, low + 1));
        ret_val.append(space);
        proof {
            let prefix = raw_data@.subrange(0, i as int + 1);
            assert(prefix.drop_last() =~= raw_data@.subrange(0, i as int));
            assert(ret_val@ =~= hex_text(prefix));
        }
        i = i + 1;
    }
    assert(raw_data@.subrange(0, i as int) =~= raw_data@);
    ret_val
}

/// The bytes that count as ASCII whitespace: space, tab, line feed, form feed
/// and carriage return.
pub open spec fn is_ascii_whitespace(c: u8) -> bool {
    c == 32 || c == 9 || c == 10 || c == 12 || c == 13
}

/// The value of a hex digit of either case.
pub open spec fn hex_value(c: u8) -> Option<int> {
    if 48 <= c <= 57 {
        Some(c - 48)
    } else if 97 <= c <= 102 {
        Some(c - 87)
    } else if 65 <= c <= 70 {
        Some(c - 55)
    } else {
        None
    }
}

/// The tokens completed within the first `n` bytes, and the token still open there.
pub open spec fn split_from(b: Seq<u8>, n: int) -> (Seq<Seq<u8>>, Seq<u8>)
    decreases n,
{
    if n <= 0 {
        (Seq::empty(), Seq::empty())
    } else {
        let (done, open) = split_from(b, n - 1);
        if is_ascii_whitespace(b[n - 1]) {
            if open.len() > 0 {
                (done.push(open), Seq::empty())
            } else {
                (done, Seq::empty())
            }
        } else {
            (done, open.push(b[n - 1]))
        }
    }
}

/// The maximal runs of bytes that are not ASCII whitespace, in order.
pub open spec fn tokens(b: Seq<u8>) -> Seq<Seq<u8>> {
    let (done, open) = split_from(b, b.len() as int);
    if open.len() > 0 {
        done.push(open)
    } else {
        done
    }
}

pub open spec fn is_hex_digits(d: Seq<u8>) -> bool {
    forall|i: int| 0 <= i < d.len() ==> hex_value(#[trigger] d[i]) is Some
}

/// The value of a string of hex digits, most significant first.
pub open spec fn digits_value(d: Seq<u8>) -> int
    decreases d.len(),
{
    if d.len() == 0 {
        0
    } else {
        digits_value(d.drop_last()) * 16 + hex_value(d.last())->Some_0
    }
}

/// A token without its optional leading `+`.
pub open spec fn token_digits(t: Seq<u8>) -> Seq<u8> {
    if t.len() > 0 && t[0] == 43 {
        t.drop_first()
    } else {
        t
    }
}

/// The byte that a token stands for, if it is one.
pub open spec fn token_byte(t: Seq<u8>) -> Option<u8> {
    let d = token_digits(t);
    if d.len() > 0 && is_hex_digits(d) && digits_value(d) <= 255 {
        Some(digits_value(d) as u8)
    } else {
        None
    }
}

pub open spec fn all_tokens_are_bytes(ts: Seq<Seq<u8>>) -> bool {
    forall|k: int| 0 <= k < ts.len() ==> (#[trigger] token_byte(ts[k])) is Some
}

pub open spec fn token_bytes(ts: Seq<Seq<u8>>) -> Seq<u8> {
    ts.map_values(|t: Seq<u8>| token_byte(t)->Some_0)
}

proof fn lemma_digits_value_nonneg(d: Seq<u8>)
    requires
        is_hex_digits(d),
    ensures
        0 <= digits_value(d),
    decreases d.len(),
{
    if d.len() > 0 {
        let p = d.drop_last();
        assert(is_hex_digits(p)) by {
            assert forall|i: int| 0 <= i < p.len() implies hex_value(#[trigger] p[i]) is Some by {
                assert(p[i] == d[i]);
            }
        }
        lemma_digits_value_nonneg(p);
        assert(hex_value(d[d.len() - 1]) is Some);
    }
}

proof fn lemma_digits_value_grows(d: Seq<u8>, k: int)
    requires
        is_hex_digits(d),
        0 <= k <= d.len(),
    ensures
        digits_value(d.subrange(0, k)) <= digits_value(d),
    decreases d.len(),
{
    if k < d.len() {
        let p = d.drop_last();
        assert(p.subrange(0, k) =~= d.subrange(0, k));
        assert(is_hex_digits(p)) by {
            assert forall|i: int| 0 <= i < p.len() implies hex_value(#[trigger] p[i]) is Some by {
                assert(p[i] == d[i]);
            }
        }
        lemma_digits_value_grows(p, k);
        lemma_digits_value_nonneg(p);
        assert(hex_value(d[d.len() - 1]) is Some);
    } else {
        assert(d.subrange(0, k) =~= d);
    }
}

proof fn lemma_split_prefix(b: Seq<u8>, n: int, m: int)
    requires
        0 <= n <= m,
    ensures
        split_from(b, n).0.len() <= split_from(b, m).0.len(),
        forall|k: int|
            0 <= k < split_from(b, n).0.len() ==> #[trigger] split_from(b, m).0[k] == split_from(
                b,
                n,
            ).0[k],
    decreases m,
{
    if n < m {
        lemma_split_prefix(b, n, m - 1);
    }
}

fn hex_digit_value(c: u8) -> (r: Option<u8>)
    ensures
        r is Some <==> hex_value(c) is Some,
        r is Some ==> r->Some_0 as int == hex_value(c)->Some_0,
{
    if 48 <= c && c <= 57 {
        Some(c - 48)
    } else if 97 <= c && c <= 102 {
        Some(c - 87)
    } else if 65 <= c && c <= 70 {
        Some(c - 55)
    } else {
        None
    }
}

fn token_byte_of(b: &[u8], from: usize, to: usize) -> (r: Option<u8>)
    requires
        from < to <= b@.len(),
    ensures
        r == token_byte(b@.subrange(from as int, to as int)),
{
    let ghost t = b@.subrange(from as int, to as int);
    let mut i: usize = from;
    if b[i] == 43 {
        i = i + 1;
    }
    let start = i;
    proof {
        assert(token_digits(t) =~= b@.subrange(start as int, to as int));
    }
    if i == to {
        return None;
    }
    let mut acc: u32 = 0;
    while i < to
        invariant
            from <= start <= i <= to <= b@.len(),
            start < to,
            t == b@.subrange(from as int, to as int),
            token_digits(t) == b@.subrange(start as int, to as int),
            is_hex_digits(b@.subrange(start as int, i as int)),
            acc as int == digits_value(b@.subrange(start as int, i as int)),
            acc <= 255,
        decreases to - i,
    {
        let ghost d = b@.subrange(start as int, i as int + 1);
        assert(d.drop_last() =~= b@.subrange(start as int, i as int));
        assert(d.last() == b@[i as int]);
        match hex_digit_value(b[i]) {
            None => {
                assert(!is_hex_digits(token_digits(t))) by {
                    assert(token_digits(t)[i - start] == b@[i as int]);
                    assert(hex_value(token_digits(t)[i - start]) is None);
                }
                assert(token_byte(t) is None);
                return None;
            },
            Some(h) => {
                acc = acc * 16 + h as u32;
                assert(acc as int == digits_value(d));
                assert(is_hex_digits(d)) by {
                    assert forall|j: int| 0 <= j < d.len() implies hex_value(#[trigger] d[j]) is Some by {
                        if j < d.len() - 1 {
                            assert(d[j] == b@.subrange(start as int, i as int)[j]);
                        }
                    }
                }
                if acc > 255 {
                    proof {
                        let whole = token_digits(t);
                        if is_hex_digits(whole) {
                            assert(whole.subrange(0, i + 1 - start) =~= d);
                            lemma_digits_value_grows(whole, i + 1 - start);
                        }
                        assert(token_byte(t) is None);
                    }
                    return None;
                }
            },
        }
        i = i + 1;
    }
    Some(acc as u8)
}

/// Reads bytes written as hex numbers separated by ASCII whitespace. Each
/// token is an optional `+` and one or more hex digits of a value below 256.
/// Any other token makes the whole text invalid.
pub fn hex_string_to_bytes(hex_string: &str) -> (r: Result<Vec<u8>, HexToBytesConversionError>)
    ensures
        r is Ok <==> all_tokens_are_bytes(tokens(hex_string.spec_bytes())),
        r is Ok ==> r->Ok_0@ == token_bytes(tokens(hex_string.spec_bytes())),
        r is Err ==> r->Err_0 == HexToBytesConversionError::InvalidHexCode,
{
    let b = hex_string.as_bytes();
    let ghost bs = b@;
    let mut out: Vec<u8> = Vec::new();
    let mut i: usize = 0;
    let mut tok_start: usize = 0;
    let mut in_token = false;
    while i < b.len()
        invariant
            bs == b@,
            bs == hex_string.spec_bytes(),
            i <= b@.len(),
            tok_start <= i,
            in_token ==> tok_start < i,
            split_from(bs, i as int).1 == (if in_token {
                bs.subrange(tok_start as int, i as int)
            } else {
                Seq::empty()
            }),
            all_tokens_are_bytes(split_from(bs, i as int).0),
            out@ == token_bytes(split_from(bs, i as int).0),
        decreases b@.len() - i,
    {
        let ghost next = split_from(bs, i + 1);
        if is_ascii_whitespace_byte(b[i]) {
            if in_token {
                match token_byte_of(b, tok_start, i) {
                    None => {
                        proof {
                            let k = split_from(bs, i as int).0.len() as int;
                            lemma_split_prefix(bs, i + 1, bs.len() as int);
                            assert(next.0[k] == bs.subrange(tok_start as int, i as int));
                            assert(tokens(bs)[k] == next.0[k]);
                        }
                        return Err(HexToBytesConversionError::InvalidHexCode);
                    },
                    Some(v) => {
                        out.push(v);
                    },
                }
                in_token = false;
            }
        } else {
            if !in_token {
                in_token = true;
                tok_start = i;
            }
            assert(bs.subrange(tok_start as int, i + 1) =~= split_from(bs, i as int).1.push(bs[i as int]));
        }
        i = i + 1;
        assert(out@ =~= token_bytes(split_from(bs, i as int).0));
    }
    if in_token {
        match token_byte_of(b, tok_start, i) {
            None => {
                assert(tokens(bs)[split_from(bs, i as int).0.len() as int] == bs.subrange(tok_start as int, i as int));
                return Err(HexToBytesConversionError::InvalidHexCode);
            },
            Some(v) => {
                out.push(v);
            },
        }
    }
    assert(out@ =~= token_bytes(tokens(bs)));
    Ok(out)
}

fn is_ascii_whitespace_byte(c: u8) -> (r: bool)
    ensures
        r == is_ascii_whitespace(c),
{
    c == 32 || c == 9 || c == 10 || c == 12 || c == 13
}

} // verus!
