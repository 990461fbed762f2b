//! The claims model: ordered claim sets with a public/private marking.
//!
//! A delivery document is an ordered sequence of claims.  Each claim is a
//! key/value pair together with a privacy flag; the flag is fixed when the
//! claim is added.  Keys need not be unique, and insertion order is
//! preserved everywhere, including through serialization.

use crate::strutil::push_char;
use vstd::prelude::*;
use vstd::string::StringExecFns;

verus! {

/// The mathematical model of a single claim.
pub ghost struct ClaimModel {
    pub key: Seq<char>,
    pub value: Seq<char>,
    pub private: bool,
}

/// A single claim: a key, a value, and a flag that marks the claim as
/// private (withheld from disclosure) or public (disclosed).
#[derive(Debug)]
pub struct Claim {
    pub key: String,
    pub value: String,
    pub private: bool,
}

impl View for Claim {
    type V = ClaimModel;

    open spec fn view(&self) -> ClaimModel {
        ClaimModel { key: self.key@, value: self.value@, private: self.private }
    }
}

impl DeepView for Claim {
    type V = ClaimModel;

    open spec fn deep_view(&self) -> ClaimModel {
        self@
    }
}

/// True when the sequence holds at least one public claim.
pub open spec fn has_public(cs: Seq<ClaimModel>) -> bool {
    exists|i: int| 0 <= i < cs.len() && !cs[i].private
}

/// The canonical rendering of one claim inside the disclosure string.
pub open spec fn entry_text(c: ClaimModel) -> Seq<char> {
    c.key + seq!['='] + c.value
}

/// The canonical disclosure string: every public claim, in insertion
/// order, rendered `key=value` and joined with commas.  Private claims
/// leave no trace in the result.
pub open spec fn public_claims_text(cs: Seq<ClaimModel>) -> Seq<char>
    decreases cs.len(),
{
    if cs.len() == 0 {
        Seq::empty()
    } else if cs.last().private {
        public_claims_text(cs.drop_last())
    } else if has_public(cs.drop_last()) {
        public_claims_text(cs.drop_last()) + seq![','] + entry_text(cs.last())
    } else {
        entry_text(cs.last())
    }
}

/// The claims that a claim set discloses: exactly those not marked private,
/// in insertion order.
pub open spec fn public_part(cs: Seq<ClaimModel>) -> Seq<ClaimModel> {
    cs.filter(|c: ClaimModel| !c.private)
}

/// The human-readable rendering: one `key = value` line per claim.
pub open spec fn pretty_text(cs: Seq<ClaimModel>) -> Seq<char>
    decreases cs.len(),
{
    if cs.len() == 0 {
        Seq::empty()
    } else {
        pretty_text(cs.drop_last()) + cs.last().key + seq![' ', '=', ' '] + cs.last().value
            + seq!['\n']
    }
}

/// An ordered claim set.  Claim keys need not be unique; insertion order is
/// preserved; a claim's privacy flag is immutable once the claim is added.
#[derive(Debug)]
pub struct CustomClaims {
    pub claims: Vec<Claim>,
}

impl View for CustomClaims {
    type V = Seq<ClaimModel>;

    open spec fn view(&self) -> Seq<ClaimModel> {
        self.claims.deep_view()
    }
}

impl CustomClaims {
    /// An empty claim set.
    pub fn new() -> (r: CustomClaims)
        ensures
            r@ =~= Seq::<ClaimModel>::empty(),
    {
        CustomClaims { claims: Vec::new() }
    }

    /// Appends a claim.  There is no uniqueness check and no error
    /// condition; the new claim goes to the end of the sequence.
    pub fn add(&mut self, key: String, value: String, private: bool)
        ensures
            final(self)@ =~= old(self)@.push(
                ClaimModel { key: key@, value: value@, private: private },
            ),
    {
        self.claims.push(Claim { key, value, private });
    }

    /// How many claims the set holds.
    pub fn len(&self) -> (n: usize)
        ensures
            n == self@.len(),
    {
        self.claims.len()
    }

    /// The canonical disclosure string: exactly the claims added with
    /// `private == false`, in insertion order, rendered `key=value` and
    /// joined with commas.  Private claims leave no trace.
    pub fn public_claims(&self) -> (r: String)
        ensures
            r@ == public_claims_text(self@),
    {
        let mut out = String::new();
        let mut first: bool = true;
        let n = self.claims.len();
        let mut i: usize = 0;
        while i < n
            invariant
                n == self.claims.len(),
                n == self@.len(),
                0 <= i <= n,
                out@ == public_claims_text(self@.take(i as int)),
                first == !has_public(self@.take(i as int)),
            decreases n - i,
        {
            let ghost t0 = self@.take(i as int);
            let ghost t1 = self@.take(i as int + 1);
            proof {
                assert(t1.drop_last() =~= t0);
                assert(t1.last() == self@[i as int]);
                lemma_has_public_extend(self@, i as int);
            }
            let c = &self.claims[i];
            if !c.private {
                if !first {
                    push_char(&mut out, ',');
                }
                out.append(c.key.as_str());
                push_char(&mut out, '=');
                out.append(c.value.as_str());
                first = false;
                proof {
                    if !has_public(t0) {
                        lemma_no_public_text_empty(t0);
                    }
                    assert(out@ =~= public_claims_text(t1));
                }
            }
            i = i + 1;
        }
        proof {
            assert(self@.take(n as int) =~= self@);
        }
        out
    }

    /// The disclosed subset as a structured claim set: exactly the claims
    /// not marked private, in insertion order.
    pub fn get_public_claims(&self) -> (r: CustomClaims)
        ensures
            r@ == public_part(self@),
    {
        let mut out: Vec<Claim> = Vec::new();
        let n = self.claims.len();
        let mut i: usize = 0;
        proof {
            reveal(Seq::filter);
        }
        while i < n
            invariant
                n == self.claims.len(),
                n == self@.len(),
                0 <= i <= n,
                out.deep_view() == public_part(self@.take(i as int)),
            decreases n - i,
        {
            let ghost t0 = self@.take(i as int);
            let ghost t1 = self@.take(i as int + 1);
            proof {
                reveal(Seq::filter);
                assert(t1.drop_last() =~= t0);
                assert(t1.last() == self@[i as int]);
            }
            let c = &self.claims[i];
            if !c.private {
                out.push(
                    Claim { key: c.key.clone(), value: c.value.clone(), private: c.private },
                );
            }
            proof {
                assert(out.deep_view() =~= public_part(t1));
            }
            i = i + 1;
        }
        proof {
            assert(self@.take(n as int) =~= self@);
        }
        CustomClaims { claims: out }
    }

    /// A human-readable rendering: one `key = value` line per claim, in
    /// insertion order, private claims included.
    pub fn pretty_print(&self) -> (r: String)
        ensures
            r@ == pretty_text(self@),
    {
        let mut out = String::new();
        let n = self.claims.len();
        let mut i: usize = 0;
        while i < n
            invariant
                n == self.claims.len(),
                n == self@.len(),
                0 <= i <= n,
                out@ == pretty_text(self@.take(i as int)),
            decreases n - i,
        {
            let ghost t0 = self@.take(i as int);
            let ghost t1 = self@.take(i as int + 1);
            proof {
                assert(t1.drop_last() =~= t0);
                assert(t1.last() == self@[i as int]);
            }
            let c = &self.claims[i];
            out.append(c.key.as_str());
            push_char(&mut out, ' ');
            push_char(&mut out, '=');
            push_char(&mut out, ' ');
            out.append(c.value.as_str());
            push_char(&mut out, '\n');
            proof {
                assert(out@ =~= pretty_text(t1));
            }
            i = i + 1;
        }
        proof {
            assert(self@.take(n as int) =~= self@);
        }
        out
    }
}

/// The claim set of one delivery document: the reference, subject,
/// product and quantity are public; the issuer's identity and the cost
/// are private.
pub fn delivery_claims(
    reference: String,
    issuer_id: String,
    subject_id: String,
    product: String,
    quantity: String,
    cost: String,
) -> (r: CustomClaims)
    ensures
        r@ =~= seq![
            ClaimModel { key: "reference"@, value: reference@, private: false },
            ClaimModel { key: "issuer_id"@, value: issuer_id@, private: true },
            ClaimModel { key: "subject_id"@, value: subject_id@, private: false },
            ClaimModel { key: "product"@, value: product@, private: false },
            ClaimModel { key: "quantity"@, value: quantity@, private: false },
            ClaimModel { key: "cost"@, value: cost@, private: true },
        ],
{
    let mut c = CustomClaims::new();
    c.add(String::from_str("reference"), reference, false);
    c.add(String::from_str("issuer_id"), issuer_id, true);
    c.add(String::from_str("subject_id"), subject_id, false);
    c.add(String::from_str("product"), product, false);
    c.add(String::from_str("quantity"), quantity, false);
    c.add(String::from_str("cost"), cost, true);
    c
}

/// A claim set without a public claim discloses the empty string.
proof fn lemma_no_public_text_empty(cs: Seq<ClaimModel>)
    requires
        !has_public(cs),
    ensures
        public_claims_text(cs) == Seq::<char>::empty(),
    decreases cs.len(),
{
    if cs.len() == 0 {
    } else {
        assert(cs.last().private);
        assert forall|j: int| 0 <= j < cs.drop_last().len() implies cs.drop_last()[j].private by {
            assert(cs[j].private);
        }
        lemma_no_public_text_empty(cs.drop_last());
    }
}

/// Extending a prefix by one claim changes `has_public` in the evident
/// way: the extended prefix has a public claim exactly when the original
/// had one or the new claim is public.
proof fn lemma_has_public_extend(cs: Seq<ClaimModel>, i: int)
    requires
        0 <= i < cs.len(),
    ensures
        has_public(cs.take(i + 1)) == (has_public(cs.take(i)) || !cs[i].private),
{
    let t0 = cs.take(i);
    let t1 = cs.take(i + 1);
    if has_public(t0) {
        let j = choose|j: int| 0 <= j < t0.len() && !t0[j].private;
        assert(!t1[j].private);
    }
    if !cs[i].private {
        assert(!t1[i].private);
    }
    if has_public(t1) {
        let j = choose|j: int| 0 <= j < t1.len() && !t1[j].private;
        if j < i {
            assert(!t0[j].private);
        }
    }
}

/// The disclosure string is blind to private claims: it is the same
/// whether built from the full claim set or from its public subset alone.
pub proof fn lemma_public_claims_text_of_public_part(cs: Seq<ClaimModel>)
    ensures
        public_claims_text(cs) == public_claims_text(public_part(cs)),
    decreases cs.len(),
{
    reveal(Seq::filter);
    if cs.len() == 0 {
        assert(public_part(cs) =~= cs);
    } else {
        let prefix = cs.drop_last();
        lemma_public_claims_text_of_public_part(prefix);
        lemma_has_public_filter(prefix);
        if cs.last().private {
            assert(public_part(cs) =~= public_part(prefix));
        } else {
            assert(public_part(cs) =~= public_part(prefix).push(cs.last()));
            assert(public_part(cs).drop_last() =~= public_part(prefix));
        }
    }
}

/// A claim sequence has a public claim exactly when its public subset is
/// non-empty, and the public subset holds public claims only.
proof fn lemma_has_public_filter(cs: Seq<ClaimModel>)
    ensures
        has_public(cs) == (public_part(cs).len() != 0),
        has_public(public_part(cs)) == has_public(cs),
    decreases cs.len(),
{
    reveal(Seq::filter);
    if cs.len() == 0 {
    } else {
        let prefix = cs.drop_last();
        lemma_has_public_filter(prefix);
        if has_public(prefix) {
            let j = choose|j: int| 0 <= j < prefix.len() && !prefix[j].private;
            assert(!cs[j].private);
        }
        if has_public(cs) && cs.last().private {
            let j = choose|j: int| 0 <= j < cs.len() && !cs[j].private;
            assert(!prefix[j].private);
        }
        if !cs.last().private {
            assert(!public_part(cs).last().private);
            assert(has_public(public_part(cs)));
        }
    }
}

} // verus!
