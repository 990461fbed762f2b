//! The committed output of a proving run, and its journal encoding.
//!
//! The provable result of the protocol is the full candidate key list —
//! never the index of the key that matched — together with the public
//! subset of the validated token's claims.  This record is committed to
//! the sandbox journal in a canonical byte format with a proved
//! encode/decode round trip.

use crate::claims::{ClaimModel, CustomClaims};
use crate::wire::{
    claims_to_bytes, claims_wf, enc_claims, enc_str, enc_u64, lemma_parse_str_prefix,
    lemma_parse_u64_prefix, parse_claims, parse_str, parse_u64, read_claims, read_str, str_wf,
    write_str,
};
use vstd::bytes::{lemma_auto_spec_u64_to_from_le_bytes, u64_to_le_bytes};
use vstd::prelude::*;
use vstd::string::StrSliceExecFns;

verus! {

/// The mathematical model of a committed output: the candidate keys as
/// supplied, and the disclosed claims.
pub ghost struct OutputModel {
    pub pks: Seq<Seq<char>>,
    pub claims: Seq<ClaimModel>,
}

/// The committed, publicly visible result of one proving run: every
/// candidate public key exactly as supplied to the guest, plus the
/// claims the token discloses.  Which candidate actually validated the
/// token is not recorded anywhere in this structure.
#[derive(Debug)]
pub struct PublicOutput {
    pub pks: Vec<String>,
    pub claims: CustomClaims,
}

impl View for PublicOutput {
    type V = OutputModel;

    open spec fn view(&self) -> OutputModel {
        OutputModel { pks: self.pks.deep_view(), claims: self.claims@ }
    }
}

/// The concatenated encodings of a list of strings, in order.
pub open spec fn enc_str_items(ss: Seq<Seq<char>>) -> Seq<u8>
    decreases ss.len(),
{
    if ss.len() == 0 {
        Seq::empty()
    } else {
        enc_str(ss.first()) + enc_str_items(ss.drop_first())
    }
}

/// The journal encoding of a committed output: key count, the keys in
/// order, then the disclosed claim set.
pub open spec fn enc_output(m: OutputModel) -> Seq<u8> {
    enc_u64(m.pks.len() as u64) + enc_str_items(m.pks) + enc_claims(m.claims)
}

/// An output fits the wire format when its counts and string lengths fit
/// their prefixes.
pub open spec fn output_wf(m: OutputModel) -> bool {
    m.pks.len() <= u64::MAX && (forall|i: int| 0 <= i < m.pks.len() ==> str_wf(#[trigger] m.pks[i]))
        && claims_wf(m.claims)
}

/// Reads `count` strings in sequence starting at `pos`.
pub open spec fn parse_str_items(b: Seq<u8>, pos: int, count: nat) -> Option<(Seq<Seq<char>>, int)>
    decreases count,
{
    if count == 0 {
        Some((Seq::empty(), pos))
    } else {
        match parse_str(b, pos) {
            None => None,
            Some((s, p)) => match parse_str_items(b, p, (count - 1) as nat) {
                None => None,
                Some((rest, end)) => Some((seq![s] + rest, end)),
            },
        }
    }
}

/// A byte string, taken whole, as a committed output: it must parse and
/// leave nothing over.
pub open spec fn parse_output(b: Seq<u8>) -> Option<OutputModel> {
    match parse_u64(b, 0) {
        None => None,
        Some((count, p0)) => match parse_str_items(b, p0, count as nat) {
            None => None,
            Some((pks, p1)) => match parse_claims(b, p1) {
                None => None,
                Some((cs, end)) => {
                    if end == b.len() {
                        Some(OutputModel { pks, claims: cs })
                    } else {
                        None
                    }
                },
            },
        },
    }
}

/// Reading a run of strings from its own encoding gives the strings
/// back.
proof fn lemma_parse_str_items_prefix(b: Seq<u8>, pos: int, ss: Seq<Seq<char>>)
    requires
        forall|i: int| 0 <= i < ss.len() ==> str_wf(#[trigger] ss[i]),
        0 <= pos,
        pos + enc_str_items(ss).len() <= b.len(),
        b.subrange(pos, pos + enc_str_items(ss).len()) == enc_str_items(ss),
    ensures
        parse_str_items(b, pos, ss.len()) == Some((ss, pos + enc_str_items(ss).len())),
    decreases ss.len(),
{
    if ss.len() == 0 {
        assert(ss =~= Seq::<Seq<char>>::empty());
    } else {
        let e0 = enc_str(ss.first());
        let rest = enc_str_items(ss.drop_first());
        let whole = b.subrange(pos, pos + enc_str_items(ss).len());
        assert(b.subrange(pos, pos + e0.len()) =~= e0) by {
            assert forall|i: int|
                0 <= i < e0.len() implies (#[trigger] b.subrange(pos, pos + e0.len())[i])
                == e0[i] by {
                assert(whole[i] == b[pos + i]);
            }
        }
        assert(str_wf(ss[0]));
        lemma_parse_str_prefix(b, pos, ss.first());
        let p1 = pos + e0.len();
        assert(b.subrange(p1, p1 + rest.len()) =~= rest) by {
            assert forall|i: int|
                0 <= i < rest.len() implies (#[trigger] b.subrange(p1, p1 + rest.len())[i])
                == rest[i] by {
                assert(whole[e0.len() + i as int] == b[p1 + i]);
            }
        }
        assert forall|i: int| 0 <= i < ss.drop_first().len() implies str_wf(
            #[trigger] ss.drop_first()[i],
        ) by {
            assert(ss.drop_first()[i] == ss[i + 1]);
        }
        lemma_parse_str_items_prefix(b, p1, ss.drop_first());
        assert(seq![ss.first()] + ss.drop_first() =~= ss);
    }
}

/// Round trip: a committed output read back from its own encoding is the
/// output itself.  This is what makes the journal format lossless: the
/// verifier reconstructs exactly the record the guest committed.
pub proof fn lemma_output_round_trip(m: OutputModel)
    requires
        output_wf(m),
    ensures
        parse_output(enc_output(m)) == Some(m),
{
    let b = enc_output(m);
    lemma_auto_spec_u64_to_from_le_bytes();
    let items = enc_str_items(m.pks);
    let cb = enc_claims(m.claims);
    assert(b.subrange(0, 8) =~= enc_u64(m.pks.len() as u64));
    lemma_parse_u64_prefix(b, 0, m.pks.len() as u64);
    assert(b.subrange(8, 8 + items.len() as int) =~= items);
    lemma_parse_str_items_prefix(b, 8, m.pks);
    let p1 = 8 + items.len() as int;
    assert(b.subrange(p1, p1 + 8) =~= enc_u64(m.claims.len() as u64)) by {
        assert forall|i: int| 0 <= i < 8 implies (#[trigger] b.subrange(p1, p1 + 8)[i]) == enc_u64(
            m.claims.len() as u64,
        )[i] by {
            assert(b.subrange(p1, p1 + 8)[i] == b[p1 + i]);
            assert(cb[i] == enc_u64(m.claims.len() as u64)[i]);
        }
    }
    lemma_parse_u64_prefix(b, p1, m.claims.len() as u64);
    let p2 = p1 + 8;
    let ci = crate::wire::enc_claim_items(m.claims);
    assert(b.subrange(p2, p2 + ci.len() as int) =~= ci) by {
        assert forall|i: int|
            0 <= i < ci.len() implies (#[trigger] b.subrange(p2, p2 + ci.len() as int)[i])
            == ci[i] by {
            assert(b.subrange(p2, p2 + ci.len() as int)[i] == b[p2 + i]);
            assert(cb[8 + i as int] == ci[i]);
        }
    }
    crate::wire::lemma_parse_claim_items_prefix(b, p2, m.claims);
}

/// What a run of string parses consumes is exactly the run's encoding.
proof fn lemma_parse_str_items_sound(b: Seq<u8>, pos: int, count: nat)
    requires
        0 <= pos <= b.len(),
        parse_str_items(b, pos, count) is Some,
    ensures
        ({
            let (ss, end) = parse_str_items(b, pos, count).unwrap();
            &&& ss.len() == count
            &&& (forall|i: int| 0 <= i < ss.len() ==> str_wf(#[trigger] ss[i]))
            &&& pos <= end <= b.len()
            &&& end == pos + enc_str_items(ss).len()
            &&& b.subrange(pos, end) == enc_str_items(ss)
        }),
    decreases count,
{
    if count == 0 {
        let (ss, end) = parse_str_items(b, pos, count).unwrap();
        assert(b.subrange(pos, end) =~= enc_str_items(ss));
    } else {
        let (s, p) = parse_str(b, pos).unwrap();
        crate::wire::lemma_parse_str_sound(b, pos);
        lemma_parse_str_items_sound(b, p, (count - 1) as nat);
        let (rest, end) = parse_str_items(b, p, (count - 1) as nat).unwrap();
        let (ss, _end2) = parse_str_items(b, pos, count).unwrap();
        assert(ss == seq![s] + rest);
        assert(ss.first() == s);
        assert(ss.drop_first() =~= rest);
        assert forall|i: int| 0 <= i < ss.len() implies str_wf(#[trigger] ss[i]) by {
            if i > 0 {
                assert(ss[i] == rest[i - 1]);
            }
        }
        assert(b.subrange(pos, end) =~= b.subrange(pos, p) + b.subrange(p, end));
    }
}

/// The journal format is canonical: a byte string that parses as a
/// committed output is exactly that output's encoding.  With the round
/// trip this makes journals and well-formed outputs correspond one to
/// one: a tampered journal can never decode to the committed record
/// under a different byte string.
pub proof fn lemma_output_canonical(b: Seq<u8>)
    requires
        parse_output(b) is Some,
    ensures
        output_wf(parse_output(b).unwrap()),
        b == enc_output(parse_output(b).unwrap()),
{
    lemma_auto_spec_u64_to_from_le_bytes();
    let (count, p0) = parse_u64(b, 0).unwrap();
    crate::wire::lemma_parse_u64_sound(b, 0);
    lemma_parse_str_items_sound(b, p0, count as nat);
    let (pks, p1) = parse_str_items(b, p0, count as nat).unwrap();
    crate::wire::lemma_parse_claims_sound(b, p1);
    let m = parse_output(b).unwrap();
    assert(b =~= b.subrange(0, 8) + b.subrange(8, p1) + b.subrange(p1, b.len() as int));
}

/// Splitting the last string off a non-empty run of encodings.
proof fn lemma_enc_str_items_snoc(ss: Seq<Seq<char>>)
    requires
        ss.len() > 0,
    ensures
        enc_str_items(ss) == enc_str_items(ss.drop_last()) + enc_str(ss.last()),
    decreases ss.len(),
{
    if ss.len() == 1 {
        assert(ss.drop_last() =~= Seq::<Seq<char>>::empty());
        assert(enc_str_items(ss.drop_last()) =~= Seq::<u8>::empty());
        assert(ss.drop_first() =~= Seq::<Seq<char>>::empty());
        assert(enc_str_items(ss.drop_first()) =~= Seq::<u8>::empty());
        assert(ss.first() == ss.last());
        assert(enc_str_items(ss) =~= enc_str(ss.last()));
        assert(enc_str_items(ss.drop_last()) + enc_str(ss.last()) =~= enc_str(ss.last()));
    } else {
        let t = ss.drop_first();
        lemma_enc_str_items_snoc(t);
        assert(ss.drop_last().first() == ss.first());
        assert(ss.drop_last().drop_first() =~= t.drop_last());
        assert(t.last() == ss.last());
        assert(enc_str_items(ss) =~= enc_str(ss.first()) + enc_str_items(t));
        assert(enc_str_items(ss.drop_last()) =~= enc_str(ss.first()) + enc_str_items(
            t.drop_last(),
        ));
        assert(enc_str_items(ss) =~= enc_str_items(ss.drop_last()) + enc_str(ss.last()));
    }
}

/// Serializes a committed output to its journal encoding.
pub fn encode_output(o: &PublicOutput) -> (r: Vec<u8>)
    ensures
        r@ == enc_output(o@),
        output_wf(o@),
{
    let n = o.pks.len();
    let mut out = u64_to_le_bytes(n as u64);
    let mut i: usize = 0;
    while i < n
        invariant
            n == o.pks.len(),
            n == o@.pks.len(),
            0 <= i <= n,
            out@ == enc_u64(n as u64) + enc_str_items(o@.pks.take(i as int)),
            forall|k: int| 0 <= k < i ==> str_wf(#[trigger] o@.pks[k]),
        decreases n - i,
    {
        let ghost before = out@;
        write_str(&mut out, o.pks[i].as_str());
        proof {
            assert(o@.pks[i as int] == o.pks[i as int]@);
            lemma_enc_str_items_snoc(o@.pks.take(i as int + 1));
            assert(o@.pks.take(i as int + 1).drop_last() =~= o@.pks.take(i as int));
            assert(out@ =~= enc_u64(n as u64) + enc_str_items(o@.pks.take(i as int + 1)));
        }
        i = i + 1;
    }
    proof {
        assert(o@.pks.take(n as int) =~= o@.pks);
    }
    let mut cb = claims_to_bytes(&o.claims);
    out.append(&mut cb);
    proof {
        assert(out@ =~= enc_output(o@));
    }
    out
}

/// A fatal orchestration fault: the journal the sandbox returned does
/// not decode as a committed output, so prover and verifier disagree on
/// the commitment format — an integrity bug, not a user error.
#[derive(Clone, Copy, Debug, PartialEq, Eq, Structural)]
pub enum HostError {
    OutputDecodeFailure,
}

/// Interprets the journal a proving run returned: the committed output,
/// or the fatal decode fault.
pub fn interpret_journal(b: &Vec<u8>) -> (r: Result<PublicOutput, HostError>)
    ensures
        (match r {
            Ok(o) => parse_output(b@) == Some(o@),
            Err(_) => parse_output(b@) is None,
        }),
{
    match decode_output(b) {
        Some(o) => Ok(o),
        None => Err(HostError::OutputDecodeFailure),
    }
}

/// Decodes a journal back to a committed output; succeeds exactly on a
/// whole, well-formed encoding.
pub fn decode_output(b: &Vec<u8>) -> (r: Option<PublicOutput>)
    ensures
        (match r {
            Some(o) => parse_output(b@) == Some(o@),
            None => parse_output(b@) is None,
        }),
{
    let (count, p0) = match crate::wire::read_u64(b, 0) {
        Some(t) => t,
        None => {
            return None;
        },
    };
    let mut pks: Vec<String> = Vec::new();
    let mut p: usize = p0;
    let mut j: u64 = 0;
    while j < count
        invariant
            0 <= j <= count,
            p0 <= p <= b@.len(),
            parse_u64(b@, 0) == Some((count, p0 as int)),
            pks.deep_view().len() == j,
            (match parse_str_items(b@, p as int, (count - j) as nat) {
                Some(u) => parse_str_items(b@, p0 as int, count as nat) == Some(
                    (pks.deep_view() + u.0, u.1),
                ),
                None => parse_str_items(b@, p0 as int, count as nat) is None,
            }),
        decreases count - j,
    {
        let ghost before = pks.deep_view();
        let (s, p2) = match read_str(b, p) {
            Some(t) => t,
            None => {
                proof {
                    assert(parse_str(b@, p as int) is None);
                    assert((count - j) as nat != 0);
                    assert(parse_str_items(b@, p as int, (count - j) as nat) is None);
                }
                return None;
            },
        };
        pks.push(s);
        proof {
            assert(pks.deep_view() =~= before.push(pks.deep_view().last()));
            let rem = (count - j) as nat;
            assert(parse_str_items(b@, p as int, rem) matches Some(u) ==> (before + u.0 =~= (
            pks.deep_view() + parse_str_items(b@, p2 as int, (rem - 1) as nat).unwrap().0)));
        }
        p = p2;
        j = j + 1;
    }
    proof {
        assert(parse_str_items(b@, p as int, 0) == Some((Seq::<Seq<char>>::empty(), p as int)));
        assert(pks.deep_view() + Seq::<Seq<char>>::empty() =~= pks.deep_view());
    }
    let (claims, end) = match read_claims(b, p) {
        Some(t) => t,
        None => {
            return None;
        },
    };
    if end != b.len() {
        return None;
    }
    Some(PublicOutput { pks, claims })
}

} // verus!
