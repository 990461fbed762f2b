//! Lowercase hexadecimal armor for byte strings, with a proved
//! encode/decode round trip.
//!
//! Claim sets travel inside a signed token as the hex rendering of their
//! byte encoding.  Hex text consists of characters that no serializer in
//! the chain rewrites or escapes, so what the issuer renders is exactly
//! what the validator reads back.

use crate::strutil::push_char;
use vstd::prelude::*;

verus! {

/// The lowercase hex digit for a value below 16.
pub open spec fn hex_digit_char(n: int) -> char {
    if n == 0 {
        '0'
    } else if n == 1 {
        '1'
    } else if n == 2 {
        '2'
    } else if n == 3 {
        '3'
    } else if n == 4 {
        '4'
    } else if n == 5 {
        '5'
    } else if n == 6 {
        '6'
    } else if n == 7 {
        '7'
    } else if n == 8 {
        '8'
    } else if n == 9 {
        '9'
    } else if n == 10 {
        'a'
    } else if n == 11 {
        'b'
    } else if n == 12 {
        'c'
    } else if n == 13 {
        'd'
    } else if n == 14 {
        'e'
    } else {
        'f'
    }
}

/// True for the sixteen lowercase hex digits.
pub open spec fn is_hex_char(c: char) -> bool {
    ('0' <= c && c <= '9') || ('a' <= c && c <= 'f')
}

/// The value of a lowercase hex digit.
pub open spec fn hex_char_val(c: char) -> int {
    if '0' <= c && c <= '9' {
        c as int - '0' as int
    } else {
        c as int - 'a' as int + 10
    }
}

/// The two hex digits of one byte, high nibble first.
pub open spec fn hex_of_byte(b: u8) -> Seq<char> {
    seq![hex_digit_char(b as int / 16), hex_digit_char(b as int % 16)]
}

/// The hex rendering of a byte string: two digits per byte, in order.
pub open spec fn hex_of(bs: Seq<u8>) -> Seq<char>
    decreases bs.len(),
{
    if bs.len() == 0 {
        Seq::empty()
    } else {
        hex_of(bs.drop_last()) + hex_of_byte(bs.last())
    }
}

/// The shape of well-formed hex text: even length, hex digits only.
pub open spec fn is_hex_text(s: Seq<char>) -> bool {
    s.len() % 2 == 0 && forall|i: int| 0 <= i < s.len() ==> is_hex_char(#[trigger] s[i])
}

/// The bytes behind well-formed hex text; meaningful only when
/// `is_hex_text` holds of the input.
pub open spec fn hex_parse(s: Seq<char>) -> Seq<u8> {
    Seq::new(
        s.len() / 2,
        |i: int| (hex_char_val(s[2 * i]) * 16 + hex_char_val(s[2 * i + 1])) as u8,
    )
}

/// The digits of byte `i` stand at positions `2i` and `2i + 1` of the
/// rendering.
pub proof fn lemma_hex_of_index(bs: Seq<u8>, i: int)
    requires
        0 <= i < bs.len(),
    ensures
        hex_of(bs)[2 * i] == hex_digit_char(bs[i] as int / 16),
        hex_of(bs)[2 * i + 1] == hex_digit_char(bs[i] as int % 16),
    decreases bs.len(),
{
    lemma_hex_of_shape(bs);
    lemma_hex_of_shape(bs.drop_last());
    if i == bs.len() - 1 {
    } else {
        lemma_hex_of_index(bs.drop_last(), i);
    }
}

/// Reading back the hex rendering of a byte string gives the bytes.
pub proof fn lemma_hex_parse_of(bs: Seq<u8>)
    ensures
        hex_parse(hex_of(bs)) == bs,
{
    lemma_hex_of_shape(bs);
    assert forall|i: int| 0 <= i < bs.len() implies hex_parse(hex_of(bs))[i] == bs[i] by {
        lemma_hex_of_index(bs, i);
        assert(hex_char_val(hex_digit_char(bs[i] as int / 16)) == bs[i] as int / 16);
        assert(hex_char_val(hex_digit_char(bs[i] as int % 16)) == bs[i] as int % 16);
    }
    assert(hex_parse(hex_of(bs)) =~= bs);
}

/// Rendering the bytes behind well-formed hex text gives the text back:
/// hex text is a canonical spelling, with no second way to write the
/// same bytes.
pub proof fn lemma_hex_of_parse(s: Seq<char>)
    requires
        is_hex_text(s),
    ensures
        hex_of(hex_parse(s)) == s,
{
    let bs = hex_parse(s);
    lemma_hex_of_shape(bs);
    assert forall|i: int| 0 <= i < s.len() implies hex_of(bs)[i] == s[i] by {
        let j = i / 2;
        lemma_hex_of_index(bs, j);
        assert(is_hex_char(s[2 * j]) && is_hex_char(s[2 * j + 1]));
        assert(0 <= hex_char_val(s[2 * j]) < 16 && 0 <= hex_char_val(s[2 * j + 1]) < 16);
        assert(bs[j] as int == hex_char_val(s[2 * j]) * 16 + hex_char_val(s[2 * j + 1]));
        assert(bs[j] as int / 16 == hex_char_val(s[2 * j]) && bs[j] as int % 16 == hex_char_val(
            s[2 * j + 1],
        )) by (nonlinear_arith)
            requires
                0 <= hex_char_val(s[2 * j]) < 16,
                0 <= hex_char_val(s[2 * j + 1]) < 16,
                bs[j] as int == hex_char_val(s[2 * j]) * 16 + hex_char_val(s[2 * j + 1]),
        ;
        assert(hex_digit_char(hex_char_val(s[2 * j])) == s[2 * j]);
        assert(hex_digit_char(hex_char_val(s[2 * j + 1])) == s[2 * j + 1]);
        assert(i == 2 * j || i == 2 * j + 1);
    }
    assert(hex_of(bs) =~= s);
}

/// A hex rendering has twice as many characters as the input has bytes,
/// and is well-formed hex text.
pub proof fn lemma_hex_of_shape(bs: Seq<u8>)
    ensures
        hex_of(bs).len() == 2 * bs.len(),
        is_hex_text(hex_of(bs)),
    decreases bs.len(),
{
    if bs.len() == 0 {
    } else {
        lemma_hex_of_shape(bs.drop_last());
    }
}

/// The hex rendering of a byte string, as text.
pub fn hex_encode(bs: &Vec<u8>) -> (r: String)
    ensures
        r@ == hex_of(bs@),
{
    let mut out = String::new();
    let n = bs.len();
    let mut i: usize = 0;
    while i < n
        invariant
            n == bs@.len(),
            0 <= i <= n,
            out@ == hex_of(bs@.take(i as int)),
        decreases n - i,
    {
        let b = bs[i];
        push_char(&mut out, hex_digit_exec(b / 16));
        push_char(&mut out, hex_digit_exec(b % 16));
        proof {
            assert(bs@.take(i as int + 1).drop_last() =~= bs@.take(i as int));
            assert(bs@.take(i as int + 1).last() == bs@[i as int]);
            assert(out@ =~= hex_of(bs@.take(i as int + 1)));
        }
        i = i + 1;
    }
    proof {
        assert(bs@.take(n as int) =~= bs@);
    }
    out
}

/// The lowercase hex digit for a value below 16.
fn hex_digit_exec(n: u8) -> (c: char)
    requires
        n < 16,
    ensures
        c == hex_digit_char(n as int),
{
    if n == 0 {
        '0'
    } else if n == 1 {
        '1'
    } else if n == 2 {
        '2'
    } else if n == 3 {
        '3'
    } else if n == 4 {
        '4'
    } else if n == 5 {
        '5'
    } else if n == 6 {
        '6'
    } else if n == 7 {
        '7'
    } else if n == 8 {
        '8'
    } else if n == 9 {
        '9'
    } else if n == 10 {
        'a'
    } else if n == 11 {
        'b'
    } else if n == 12 {
        'c'
    } else if n == 13 {
        'd'
    } else if n == 14 {
        'e'
    } else {
        'f'
    }
}

/// The value of one hex character, or `None` for any other character.
fn hex_val_exec(c: char) -> (r: Option<u8>)
    ensures
        r is Some <==> is_hex_char(c),
        r is Some ==> r.unwrap() < 16 && r.unwrap() as int == hex_char_val(c),
{
    if '0' <= c && c <= '9' {
        Some((c as u8) - ('0' as u8))
    } else if 'a' <= c && c <= 'f' {
        Some((c as u8) - ('a' as u8) + 10)
    } else {
        None
    }
}

/// Decodes hex text back to bytes.  Succeeds exactly on well-formed hex
/// text, and then returns the unique byte string that renders to it.
pub fn hex_decode(s: &Vec<char>) -> (r: Option<Vec<u8>>)
    ensures
        r is Some <==> is_hex_text(s@),
        r is Some ==> hex_of(r.unwrap()@) == s@ && r.unwrap()@ == hex_parse(s@),
{
    let n = s.len();
    if n % 2 != 0 {
        return None;
    }
    let mut out: Vec<u8> = Vec::new();
    let mut i: usize = 0;
    while i < n
        invariant
            n == s@.len(),
            n % 2 == 0,
            i % 2 == 0,
            0 <= i <= n,
            out@.len() == i / 2,
            hex_of(out@) == s@.take(i as int),
            forall|j: int| 0 <= j < i ==> is_hex_char(#[trigger] s@[j]),
        decreases n - i,
    {
        let hi = match hex_val_exec(s[i]) {
            Some(v) => v,
            None => {
                return None;
            },
        };
        let lo = match hex_val_exec(s[i + 1]) {
            Some(v) => v,
            None => {
                return None;
            },
        };
        let b: u8 = hi * 16 + lo;
        proof {
            assert(b as int / 16 == hi as int && b as int % 16 == lo as int) by (nonlinear_arith)
                requires
                    hi < 16,
                    lo < 16,
                    b == hi * 16 + lo,
            ;
            assert(hex_digit_char(hex_char_val(s@[i as int])) == s@[i as int]);
            assert(hex_digit_char(hex_char_val(s@[i as int + 1])) == s@[i as int + 1]);
        }
        let ghost prev = out@;
        out.push(b);
        proof {
            assert(out@.drop_last() =~= prev);
            assert(out@.last() == b);
            assert(hex_of(out@) =~= s@.take(i as int + 2));
        }
        i = i + 2;
    }
    proof {
        assert(s@.take(n as int) =~= s@);
        lemma_hex_parse_of(out@);
    }
    Some(out)
}

} // verus!
