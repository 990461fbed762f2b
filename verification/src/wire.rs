//! The byte-level wire format for claim sets.
//!
//! A claim set is serialized as a count followed by the claims in
//! insertion order; every integer is eight bytes little-endian, every
//! string is length-prefixed UTF-8, and a claim ends with one byte that
//! carries its privacy flag.  The format is canonical: a byte string
//! parses exactly when it is the encoding of some claim set, and then of
//! exactly one.

use crate::claims::{Claim, ClaimModel, CustomClaims};
use crate::strutil::bytes_to_string;
use vstd::bytes::{
    lemma_auto_spec_u64_to_from_le_bytes, spec_u64_from_le_bytes, spec_u64_to_le_bytes,
    u64_from_le_bytes, u64_to_le_bytes,
};
use vstd::prelude::*;
use vstd::slice::slice_subrange;
use vstd::string::StrSliceExecFns;
use vstd::utf8::{decode_utf8, encode_utf8, valid_utf8};

verus! {

/// The eight-byte little-endian encoding of an integer.
pub open spec fn enc_u64(x: u64) -> Seq<u8> {
    spec_u64_to_le_bytes(x)
}

/// The encoding of a string: byte length, then the UTF-8 bytes.
pub open spec fn enc_str(s: Seq<char>) -> Seq<u8> {
    enc_u64(encode_utf8(s).len() as u64) + encode_utf8(s)
}

/// The encoding of one claim: key, value, and one flag byte.
pub open spec fn enc_claim(c: ClaimModel) -> Seq<u8> {
    enc_str(c.key) + enc_str(c.value) + seq![if c.private { 1u8 } else { 0u8 }]
}

/// The concatenated encodings of a sequence of claims, in order.
pub open spec fn enc_claim_items(cs: Seq<ClaimModel>) -> Seq<u8>
    decreases cs.len(),
{
    if cs.len() == 0 {
        Seq::empty()
    } else {
        enc_claim(cs.first()) + enc_claim_items(cs.drop_first())
    }
}

/// The encoding of a whole claim set: claim count, then the claims.
pub open spec fn enc_claims(cs: Seq<ClaimModel>) -> Seq<u8> {
    enc_u64(cs.len() as u64) + enc_claim_items(cs)
}

/// A string fits the wire format when its UTF-8 length fits the length
/// prefix.
pub open spec fn str_wf(s: Seq<char>) -> bool {
    encode_utf8(s).len() <= u64::MAX
}

/// A claim fits the wire format when both its strings do.
pub open spec fn claim_wf(c: ClaimModel) -> bool {
    str_wf(c.key) && str_wf(c.value)
}

/// A claim set fits the wire format when each claim does and the count
/// fits the count prefix.
pub open spec fn claims_wf(cs: Seq<ClaimModel>) -> bool {
    cs.len() <= u64::MAX && forall|i: int| 0 <= i < cs.len() ==> claim_wf(#[trigger] cs[i])
}

/// Reads an integer at `pos`: defined exactly when eight bytes remain.
pub open spec fn parse_u64(b: Seq<u8>, pos: int) -> Option<(u64, int)> {
    if 0 <= pos && pos + 8 <= b.len() {
        Some((spec_u64_from_le_bytes(b.subrange(pos, pos + 8)), pos + 8))
    } else {
        None
    }
}

/// Reads a string at `pos`: a length, then that many bytes of valid
/// UTF-8.
pub open spec fn parse_str(b: Seq<u8>, pos: int) -> Option<(Seq<char>, int)> {
    match parse_u64(b, pos) {
        None => None,
        Some((len, p)) => {
            let end = p + len as int;
            if end <= b.len() && valid_utf8(b.subrange(p, end)) {
                Some((decode_utf8(b.subrange(p, end)), end))
            } else {
                None
            }
        },
    }
}

/// Reads one claim at `pos`: key, value, then a flag byte that must be 0
/// or 1.
pub open spec fn parse_claim(b: Seq<u8>, pos: int) -> Option<(ClaimModel, int)> {
    match parse_str(b, pos) {
        None => None,
        Some((key, p1)) => match parse_str(b, p1) {
            None => None,
            Some((value, p2)) => {
                if p2 < b.len() && (b[p2] == 0u8 || b[p2] == 1u8) {
                    Some((ClaimModel { key, value, private: b[p2] == 1u8 }, p2 + 1))
                } else {
                    None
                }
            },
        },
    }
}

/// Reads `count` claims in sequence starting at `pos`.
pub open spec fn parse_claim_items(b: Seq<u8>, pos: int, count: nat) -> Option<
    (Seq<ClaimModel>, int),
>
    decreases count,
{
    if count == 0 {
        Some((Seq::empty(), pos))
    } else {
        match parse_claim(b, pos) {
            None => None,
            Some((c, p)) => match parse_claim_items(b, p, (count - 1) as nat) {
                None => None,
                Some((rest, end)) => Some((seq![c] + rest, end)),
            },
        }
    }
}

/// Reads a whole claim set at `pos`: a count, then that many claims.
pub open spec fn parse_claims(b: Seq<u8>, pos: int) -> Option<(Seq<ClaimModel>, int)> {
    match parse_u64(b, pos) {
        None => None,
        Some((count, p)) => parse_claim_items(b, p, count as nat),
    }
}

/// A byte string, taken whole, as a claim set: it must parse and leave
/// nothing over.
pub open spec fn parse_claims_blob(b: Seq<u8>) -> Option<Seq<ClaimModel>> {
    match parse_claims(b, 0) {
        None => None,
        Some((cs, end)) => {
            if end == b.len() {
                Some(cs)
            } else {
                None
            }
        },
    }
}

/// Reading an integer from its own encoding gives the integer back.
pub proof fn lemma_parse_u64_prefix(b: Seq<u8>, pos: int, x: u64)
    requires
        0 <= pos,
        pos + 8 <= b.len(),
        b.subrange(pos, pos + 8) == enc_u64(x),
    ensures
        parse_u64(b, pos) == Some((x, pos + 8)),
{
    lemma_auto_spec_u64_to_from_le_bytes();
}

/// Reading a string from its own encoding gives the string back.
pub proof fn lemma_parse_str_prefix(b: Seq<u8>, pos: int, s: Seq<char>)
    requires
        str_wf(s),
        0 <= pos,
        pos + enc_str(s).len() <= b.len(),
        b.subrange(pos, pos + enc_str(s).len()) == enc_str(s),
    ensures
        parse_str(b, pos) == Some((s, pos + enc_str(s).len())),
{
    broadcast use vstd::utf8::encode_utf8_valid_utf8, vstd::utf8::encode_utf8_decode_utf8;

    lemma_auto_spec_u64_to_from_le_bytes();
    let u = encode_utf8(s);
    let whole = b.subrange(pos, pos + enc_str(s).len());
    assert(b.subrange(pos, pos + 8) =~= enc_u64(u.len() as u64)) by {
        assert forall|i: int| 0 <= i < 8 implies (#[trigger] b.subrange(pos, pos + 8)[i]) == enc_u64(
            u.len() as u64,
        )[i] by {
            assert(whole[i] == b[pos + i]);
        }
    }
    lemma_parse_u64_prefix(b, pos, u.len() as u64);
    assert(b.subrange(pos + 8, pos + 8 + u.len()) =~= u) by {
        assert forall|i: int| 0 <= i < u.len() implies (#[trigger] b.subrange(
            pos + 8,
            pos + 8 + u.len(),
        )[i]) == u[i] by {
            assert(whole[8 + i as int] == b[pos + 8 + i]);
        }
    }
}

/// Reading a claim from its own encoding gives the claim back.
pub proof fn lemma_parse_claim_prefix(b: Seq<u8>, pos: int, c: ClaimModel)
    requires
        claim_wf(c),
        0 <= pos,
        pos + enc_claim(c).len() <= b.len(),
        b.subrange(pos, pos + enc_claim(c).len()) == enc_claim(c),
    ensures
        parse_claim(b, pos) == Some((c, pos + enc_claim(c).len())),
{
    lemma_auto_spec_u64_to_from_le_bytes();
    let ek = enc_str(c.key);
    let ev = enc_str(c.value);
    let whole = b.subrange(pos, pos + enc_claim(c).len());
    assert(b.subrange(pos, pos + ek.len()) =~= ek) by {
        assert forall|i: int| 0 <= i < ek.len() implies (#[trigger] b.subrange(pos, pos + ek.len())[i])
            == ek[i] by {
            assert(whole[i] == b[pos + i]);
        }
    }
    lemma_parse_str_prefix(b, pos, c.key);
    let p1 = pos + ek.len();
    assert(b.subrange(p1, p1 + ev.len()) =~= ev) by {
        assert forall|i: int| 0 <= i < ev.len() implies (#[trigger] b.subrange(p1, p1 + ev.len())[i])
            == ev[i] by {
            assert(whole[ek.len() + i as int] == b[p1 + i]);
        }
    }
    lemma_parse_str_prefix(b, p1, c.value);
    let p2 = p1 + ev.len();
    assert(b[p2] == whole[ek.len() + ev.len() as int]);
    assert(b[p2] == (if c.private { 1u8 } else { 0u8 }));
}

/// Reading a run of claims from its own encoding gives the claims back.
pub proof fn lemma_parse_claim_items_prefix(b: Seq<u8>, pos: int, cs: Seq<ClaimModel>)
    requires
        forall|i: int| 0 <= i < cs.len() ==> claim_wf(#[trigger] cs[i]),
        0 <= pos,
        pos + enc_claim_items(cs).len() <= b.len(),
        b.subrange(pos, pos + enc_claim_items(cs).len()) == enc_claim_items(cs),
    ensures
        parse_claim_items(b, pos, cs.len()) == Some((cs, pos + enc_claim_items(cs).len())),
    decreases cs.len(),
{
    if cs.len() == 0 {
        assert(cs =~= Seq::<ClaimModel>::empty());
    } else {
        let e0 = enc_claim(cs.first());
        let rest = enc_claim_items(cs.drop_first());
        let whole = b.subrange(pos, pos + enc_claim_items(cs).len());
        assert(b.subrange(pos, pos + e0.len()) =~= e0) by {
            assert forall|i: int| 0 <= i < e0.len() implies (#[trigger] b.subrange(pos, pos + e0.len())[i])
                == e0[i] by {
                assert(whole[i] == b[pos + i]);
            }
        }
        assert(claim_wf(cs[0]));
        lemma_parse_claim_prefix(b, pos, cs.first());
        let p1 = pos + e0.len();
        assert(b.subrange(p1, p1 + rest.len()) =~= rest) by {
            assert forall|i: int| 0 <= i < rest.len() implies (#[trigger] b.subrange(p1, p1 + rest.len())[i])
                == rest[i] by {
                assert(whole[e0.len() + i as int] == b[p1 + i]);
            }
        }
        assert forall|i: int| 0 <= i < cs.drop_first().len() implies claim_wf(
            #[trigger] cs.drop_first()[i],
        ) by {
            assert(cs.drop_first()[i] == cs[i + 1]);
        }
        lemma_parse_claim_items_prefix(b, p1, cs.drop_first());
        assert(seq![cs.first()] + cs.drop_first() =~= cs);
    }
}

/// Round trip: a claim set read back from its own whole-blob encoding is
/// the claim set itself.
pub proof fn lemma_claims_blob_round_trip(cs: Seq<ClaimModel>)
    requires
        claims_wf(cs),
    ensures
        parse_claims_blob(enc_claims(cs)) == Some(cs),
{
    let b = enc_claims(cs);
    lemma_auto_spec_u64_to_from_le_bytes();
    assert(b.subrange(0, 8) =~= enc_u64(cs.len() as u64));
    lemma_parse_u64_prefix(b, 0, cs.len() as u64);
    assert(b.subrange(8, 8 + enc_claim_items(cs).len() as int) =~= enc_claim_items(cs));
    lemma_parse_claim_items_prefix(b, 8, cs);
}

/// What an integer parse consumes is exactly the integer's encoding.
pub proof fn lemma_parse_u64_sound(b: Seq<u8>, pos: int)
    requires
        parse_u64(b, pos) is Some,
    ensures
        ({
            let (x, p) = parse_u64(b, pos).unwrap();
            p == pos + 8 && b.subrange(pos, p) == enc_u64(x)
        }),
{
    lemma_auto_spec_u64_to_from_le_bytes();
}

/// What a string parse consumes is exactly the string's encoding, and
/// the string fits the wire format.
pub proof fn lemma_parse_str_sound(b: Seq<u8>, pos: int)
    requires
        parse_str(b, pos) is Some,
    ensures
        ({
            let (s, end) = parse_str(b, pos).unwrap();
            &&& str_wf(s)
            &&& pos + 8 <= end <= b.len()
            &&& end == pos + enc_str(s).len()
            &&& b.subrange(pos, end) == enc_str(s)
        }),
{
    lemma_auto_spec_u64_to_from_le_bytes();
    let (x, p) = parse_u64(b, pos).unwrap();
    lemma_parse_u64_sound(b, pos);
    let (s, end) = parse_str(b, pos).unwrap();
    let chunk = b.subrange(p, end);
    vstd::utf8::decode_utf8_encode_utf8(chunk);
    assert(encode_utf8(s) == chunk);
    assert(chunk.len() == x as int);
    assert(encode_utf8(s).len() as u64 == x);
    assert(b.subrange(pos, end) =~= b.subrange(pos, p) + chunk);
}

/// What a claim parse consumes is exactly the claim's encoding, and the
/// claim fits the wire format.
pub proof fn lemma_parse_claim_sound(b: Seq<u8>, pos: int)
    requires
        parse_claim(b, pos) is Some,
    ensures
        ({
            let (c, end) = parse_claim(b, pos).unwrap();
            &&& claim_wf(c)
            &&& pos < end <= b.len()
            &&& end == pos + enc_claim(c).len()
            &&& b.subrange(pos, end) == enc_claim(c)
        }),
{
    let (key, p1) = parse_str(b, pos).unwrap();
    lemma_parse_str_sound(b, pos);
    let (value, p2) = parse_str(b, p1).unwrap();
    lemma_parse_str_sound(b, p1);
    let (c, end) = parse_claim(b, pos).unwrap();
    assert(b.subrange(p2, end) =~= seq![if c.private { 1u8 } else { 0u8 }]);
    assert(b.subrange(pos, end) =~= b.subrange(pos, p1) + b.subrange(p1, p2) + b.subrange(
        p2,
        end,
    ));
}

/// What a run of claim parses consumes is exactly the run's encoding.
pub proof fn lemma_parse_claim_items_sound(b: Seq<u8>, pos: int, count: nat)
    requires
        0 <= pos <= b.len(),
        parse_claim_items(b, pos, count) is Some,
    ensures
        ({
            let (cs, end) = parse_claim_items(b, pos, count).unwrap();
            &&& cs.len() == count
            &&& (forall|i: int| 0 <= i < cs.len() ==> claim_wf(#[trigger] cs[i]))
            &&& pos <= end <= b.len()
            &&& end == pos + enc_claim_items(cs).len()
            &&& b.subrange(pos, end) == enc_claim_items(cs)
        }),
    decreases count,
{
    if count == 0 {
        let (cs, end) = parse_claim_items(b, pos, count).unwrap();
        assert(b.subrange(pos, end) =~= enc_claim_items(cs));
    } else {
        let (c, p) = parse_claim(b, pos).unwrap();
        lemma_parse_claim_sound(b, pos);
        lemma_parse_claim_items_sound(b, p, (count - 1) as nat);
        let (rest, end) = parse_claim_items(b, p, (count - 1) as nat).unwrap();
        let (cs, _end2) = parse_claim_items(b, pos, count).unwrap();
        assert(cs == seq![c] + rest);
        assert(cs.first() == c);
        assert(cs.drop_first() =~= rest);
        assert forall|i: int| 0 <= i < cs.len() implies claim_wf(#[trigger] cs[i]) by {
            if i > 0 {
                assert(cs[i] == rest[i - 1]);
            }
        }
        assert(b.subrange(pos, end) =~= b.subrange(pos, p) + b.subrange(p, end));
    }
}

/// What a claim-set parse consumes is exactly the claim set's encoding.
pub proof fn lemma_parse_claims_sound(b: Seq<u8>, pos: int)
    requires
        0 <= pos <= b.len(),
        parse_claims(b, pos) is Some,
    ensures
        ({
            let (cs, end) = parse_claims(b, pos).unwrap();
            &&& claims_wf(cs)
            &&& pos <= end <= b.len()
            &&& end == pos + enc_claims(cs).len()
            &&& b.subrange(pos, end) == enc_claims(cs)
        }),
{
    lemma_auto_spec_u64_to_from_le_bytes();
    let (count, p0) = parse_u64(b, pos).unwrap();
    lemma_parse_u64_sound(b, pos);
    lemma_parse_claim_items_sound(b, p0, count as nat);
    let (cs, end) = parse_claims(b, pos).unwrap();
    assert(b.subrange(pos, end) =~= b.subrange(pos, p0) + b.subrange(p0, end));
}

/// The whole-blob format is canonical: a byte string that parses as a
/// claim set is exactly that claim set's encoding.  With the round trip
/// this makes encodings and well-formed claim sets correspond one to
/// one.
pub proof fn lemma_claims_blob_canonical(b: Seq<u8>)
    requires
        parse_claims_blob(b) is Some,
    ensures
        claims_wf(parse_claims_blob(b).unwrap()),
        b == enc_claims(parse_claims_blob(b).unwrap()),
{
    lemma_auto_spec_u64_to_from_le_bytes();
    let (count, p0) = parse_u64(b, 0).unwrap();
    lemma_parse_u64_sound(b, 0);
    lemma_parse_claim_items_sound(b, p0, count as nat);
    let cs = parse_claims_blob(b).unwrap();
    assert(b =~= b.subrange(0, 8) + b.subrange(8, b.len() as int));
}

/// Reads an integer; `None` exactly when fewer than eight bytes remain.
pub fn read_u64(b: &Vec<u8>, pos: usize) -> (r: Option<(u64, usize)>)
    ensures
        (match r {
            Some(t) => parse_u64(b@, pos as int) == Some((t.0, t.1 as int)) && pos < t.1
                <= b@.len(),
            None => parse_u64(b@, pos as int) is None,
        }),
{
    if pos <= b.len() && b.len() - pos >= 8 {
        let x = u64_from_le_bytes(slice_subrange(b.as_slice(), pos, pos + 8));
        Some((x, pos + 8))
    } else {
        None
    }
}

/// Reads a length-prefixed UTF-8 string.
pub fn read_str(b: &Vec<u8>, pos: usize) -> (r: Option<(String, usize)>)
    ensures
        (match r {
            Some(t) => {
                &&& parse_str(b@, pos as int) matches Some(u)
                &&& u.0 == t.0@
                &&& u.1 == t.1 as int
                &&& pos < t.1 <= b@.len()
            },
            None => parse_str(b@, pos as int) is None,
        }),
{
    let (len, p) = match read_u64(b, pos) {
        Some(t) => t,
        None => {
            return None;
        },
    };
    if len > (b.len() - p) as u64 {
        return None;
    }
    let end = p + (len as usize);
    let chunk = slice_subrange(b.as_slice(), p, end);
    match bytes_to_string(chunk) {
        Some(s) => Some((s, end)),
        None => None,
    }
}

/// Reads one claim.
pub fn read_claim(b: &Vec<u8>, pos: usize) -> (r: Option<(Claim, usize)>)
    ensures
        (match r {
            Some(t) => {
                &&& parse_claim(b@, pos as int) matches Some(u)
                &&& u.0 == t.0@
                &&& u.1 == t.1 as int
                &&& pos < t.1 <= b@.len()
            },
            None => parse_claim(b@, pos as int) is None,
        }),
{
    let (key, p1) = match read_str(b, pos) {
        Some(t) => t,
        None => {
            return None;
        },
    };
    let (value, p2) = match read_str(b, p1) {
        Some(t) => t,
        None => {
            return None;
        },
    };
    if p2 >= b.len() {
        return None;
    }
    let flag = b[p2];
    if flag == 0 || flag == 1 {
        Some((Claim { key, value, private: flag == 1 }, p2 + 1))
    } else {
        None
    }
}

/// Reads a whole claim set: a count, then that many claims.
pub fn read_claims(b: &Vec<u8>, pos: usize) -> (r: Option<(CustomClaims, usize)>)
    ensures
        (match r {
            Some(t) => {
                &&& parse_claims(b@, pos as int) matches Some(u)
                &&& u.0 == t.0@
                &&& u.1 == t.1 as int
                &&& pos <= t.1 <= b@.len()
            },
            None => parse_claims(b@, pos as int) is None,
        }),
{
    let (count, p0) = match read_u64(b, pos) {
        Some(t) => t,
        None => {
            return None;
        },
    };
    let mut acc: Vec<Claim> = Vec::new();
    let mut p: usize = p0;
    let mut j: u64 = 0;
    while j < count
        invariant
            0 <= j <= count,
            p0 <= p <= b@.len(),
            parse_u64(b@, pos as int) == Some((count, p0 as int)),
            acc.deep_view().len() == j,
            (match parse_claim_items(b@, p as int, (count - j) as nat) {
                Some(u) => parse_claim_items(b@, p0 as int, count as nat) == Some(
                    (acc.deep_view() + u.0, u.1),
                ),
                None => parse_claim_items(b@, p0 as int, count as nat) is None,
            }),
        decreases count - j,
    {
        let ghost before = acc.deep_view();
        let (c, p2) = match read_claim(b, p) {
            Some(t) => t,
            None => {
                proof {
                    assert(parse_claim(b@, p as int) is None);
                    assert((count - j) as nat != 0);
                    assert(parse_claim_items(b@, p as int, (count - j) as nat) is None);
                }
                return None;
            },
        };
        acc.push(c);
        proof {
            assert(acc.deep_view() =~= before.push(c@));
            let rem = (count - j) as nat;
            assert(parse_claim_items(b@, p as int, rem) matches Some(u) ==> (before + u.0 =~= (
            before.push(c@) + parse_claim_items(b@, p2 as int, (rem - 1) as nat).unwrap().0)));
        }
        p = p2;
        j = j + 1;
    }
    proof {
        assert(parse_claim_items(b@, p as int, 0) == Some((Seq::<ClaimModel>::empty(), p as int)));
        assert(acc.deep_view() + Seq::<ClaimModel>::empty() =~= acc.deep_view());
    }
    Some((CustomClaims { claims: acc }, p))
}

/// Parses a whole byte string as a claim set, rejecting trailing bytes.
pub fn claims_from_bytes(b: &Vec<u8>) -> (r: Option<CustomClaims>)
    ensures
        (match r {
            Some(cs) => parse_claims_blob(b@) == Some(cs@),
            None => parse_claims_blob(b@) is None,
        }),
{
    match read_claims(b, 0) {
        Some((cs, end)) => {
            if end == b.len() {
                Some(cs)
            } else {
                None
            }
        },
        None => None,
    }
}

/// Appends the encoding of a string to a byte buffer.
pub fn write_str(out: &mut Vec<u8>, s: &str)
    ensures
        final(out)@ == old(out)@ + enc_str(s@),
        str_wf(s@),
{
    let mut bytes = s.as_bytes_vec();
    let n: u64 = bytes.len() as u64;
    let mut pre = u64_to_le_bytes(n);
    out.append(&mut pre);
    out.append(&mut bytes);
    proof {
        assert(final(out)@ =~= old(out)@ + enc_str(s@));
    }
}

/// Serializes a claim set to its wire encoding.
pub fn claims_to_bytes(cs: &CustomClaims) -> (r: Vec<u8>)
    ensures
        r@ == enc_claims(cs@),
        claims_wf(cs@),
{
    let n = cs.claims.len();
    let mut out = u64_to_le_bytes(n as u64);
    let mut i: usize = 0;
    while i < n
        invariant
            n == cs.claims.len(),
            n == cs@.len(),
            0 <= i <= n,
            out@ == enc_u64(n as u64) + enc_claim_items(cs@.take(i as int)),
            forall|k: int| 0 <= k < i ==> claim_wf(#[trigger] cs@[k]),
        decreases n - i,
    {
        let c = &cs.claims[i];
        let ghost before = out@;
        write_str(&mut out, c.key.as_str());
        write_str(&mut out, c.value.as_str());
        out.push(if c.private {
            1
        } else {
            0
        });
        proof {
            assert(out@ =~= before + enc_claim(cs@[i as int]));
            lemma_enc_claim_items_snoc(cs@.take(i as int + 1));
            assert(cs@.take(i as int + 1).drop_last() =~= cs@.take(i as int));
            assert(out@ =~= enc_u64(n as u64) + enc_claim_items(cs@.take(i as int + 1)));
        }
        i = i + 1;
    }
    proof {
        assert(cs@.take(n as int) =~= cs@);
    }
    out
}

/// Splitting the last claim off a non-empty run of encodings.
proof fn lemma_enc_claim_items_snoc(cs: Seq<ClaimModel>)
    requires
        cs.len() > 0,
    ensures
        enc_claim_items(cs) == enc_claim_items(cs.drop_last()) + enc_claim(cs.last()),
    decreases cs.len(),
{
    if cs.len() == 1 {
        assert(cs.drop_last() =~= Seq::<ClaimModel>::empty());
        assert(enc_claim_items(cs.drop_last()) =~= Seq::<u8>::empty());
        assert(cs.first() == cs.last());
        assert(cs.drop_first() =~= Seq::<ClaimModel>::empty());
        assert(enc_claim_items(cs) =~= enc_claim(cs.last()));
        assert(enc_claim_items(cs.drop_last()) + enc_claim(cs.last()) =~= enc_claim(cs.last()));
    } else {
        let t = cs.drop_first();
        lemma_enc_claim_items_snoc(t);
        assert(cs.drop_last().first() == cs.first());
        assert(cs.drop_last().drop_first() =~= t.drop_last());
        assert(t.last() == cs.last());
        assert(enc_claim_items(cs) =~= enc_claim(cs.first()) + enc_claim_items(t));
        assert(enc_claim_items(cs.drop_last()) =~= enc_claim(cs.first()) + enc_claim_items(
            t.drop_last(),
        ));
        assert(enc_claim_items(cs) =~= enc_claim_items(cs.drop_last()) + enc_claim(cs.last()));
    }
}

} // verus!
