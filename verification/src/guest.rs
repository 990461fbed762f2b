//! The guest logic of the verifiable sandbox, and its input channel.
//!
//! The sandbox feeds the guest an ordered, typed input channel: first the
//! token, then the candidate-key count, then the candidate keys in the
//! order the caller supplied them.  The guest tries the candidates in
//! that order, stops at the first key that validates the token, and
//! commits a single record: the full candidate list — never the winning
//! index — plus the public subset of the validated token's claims.

use crate::claims::public_part;
use crate::strutil::clone_string;
use crate::output::{
    encode_output, lemma_output_round_trip, parse_output, OutputModel, PublicOutput,
};
use crate::token::{candidate_accepts, payload_claims, payload_of, validate_token_integrity};
use vstd::prelude::*;

verus! {

/// One message on the host-to-guest input channel.
pub enum Frame {
    /// A text message: the token, or one candidate key document.
    Text(String),
    /// A count message: how many candidate keys follow.
    Count(usize),
}

/// The mathematical model of a channel message.
pub ghost enum FrameModel {
    Text(Seq<char>),
    Count(int),
}

impl View for Frame {
    type V = FrameModel;

    open spec fn view(&self) -> FrameModel {
        match self {
            Frame::Text(s) => FrameModel::Text(s@),
            Frame::Count(n) => FrameModel::Count(*n as int),
        }
    }
}

impl DeepView for Frame {
    type V = FrameModel;

    open spec fn deep_view(&self) -> FrameModel {
        self@
    }
}

/// The guest's input: the token to validate and the candidate public
/// keys, in the order the caller supplied them.
pub struct GuestInput {
    pub token: String,
    pub pks: Vec<String>,
}

/// The mathematical model of a guest input.
pub ghost struct InputModel {
    pub token: Seq<char>,
    pub pks: Seq<Seq<char>>,
}

impl View for GuestInput {
    type V = InputModel;

    open spec fn view(&self) -> InputModel {
        InputModel { token: self.token@, pks: self.pks.deep_view() }
    }
}

/// The exact message order the guest consumes: token, count, then each
/// key.  This order is the wire contract between host and guest.
pub open spec fn frames_of(m: InputModel) -> Seq<FrameModel> {
    seq![FrameModel::Text(m.token), FrameModel::Count(m.pks.len() as int)] + Seq::new(
        m.pks.len(),
        |i: int| FrameModel::Text(m.pks[i]),
    )
}

/// Serializes a guest input into the channel message order.
pub fn to_frames(input: &GuestInput) -> (r: Vec<Frame>)
    ensures
        r.deep_view() == frames_of(input@),
{
    let mut out: Vec<Frame> = Vec::new();
    out.push(Frame::Text(clone_string(&input.token)));
    out.push(Frame::Count(input.pks.len()));
    let n = input.pks.len();
    let mut i: usize = 0;
    while i < n
        invariant
            n == input.pks.len(),
            n == input@.pks.len(),
            0 <= i <= n,
            out.deep_view().len() == 2 + i,
            out.deep_view()[0] == FrameModel::Text(input@.token),
            out.deep_view()[1] == FrameModel::Count(n as int),
            forall|j: int|
                0 <= j < i ==> out.deep_view()[2 + j] == FrameModel::Text(
                    #[trigger] input@.pks[j],
                ),
        decreases n - i,
    {
        out.push(Frame::Text(clone_string(&input.pks[i])));
        i = i + 1;
    }
    proof {
        assert(out.deep_view() =~= frames_of(input@));
    }
    out
}

/// What an ordered message sequence means as a guest input: a text, a
/// count, then exactly that many texts.  Anything else is malformed.
pub open spec fn parse_frames(fs: Seq<FrameModel>) -> Option<InputModel> {
    if fs.len() >= 2 && fs[0] is Text && fs[1] is Count {
        let c = fs[1]->Count_0;
        if fs.len() == 2 + c && (forall|j: int| 0 <= j < c ==> #[trigger] fs[2 + j] is Text) {
            Some(
                InputModel {
                    token: fs[0]->Text_0,
                    pks: Seq::new(c as nat, |j: int| fs[2 + j]->Text_0),
                },
            )
        } else {
            None
        }
    } else {
        None
    }
}

/// The channel ordering contract holds: reading back the messages
/// written for an input yields that input.
pub proof fn lemma_frames_round_trip(m: InputModel)
    ensures
        parse_frames(frames_of(m)) == Some(m),
{
    let fs = frames_of(m);
    assert(fs[1]->Count_0 == m.pks.len() as int);
    assert forall|j: int| 0 <= j < m.pks.len() implies #[trigger] fs[2 + j] is Text by {
        assert(fs[2 + j] == FrameModel::Text(m.pks[j]));
    }
    let parsed = parse_frames(fs).unwrap();
    assert(parsed.pks =~= m.pks) by {
        assert forall|j: int| 0 <= j < m.pks.len() implies parsed.pks[j] == m.pks[j] by {
            assert(fs[2 + j] == FrameModel::Text(m.pks[j]));
        }
    }
}

/// Reads a guest input back off the channel; succeeds exactly when the
/// messages have the contracted order and count.
pub fn from_frames(frames: &Vec<Frame>) -> (r: Option<GuestInput>)
    ensures
        (match r {
            Some(g) => parse_frames(frames.deep_view()) == Some(g@),
            None => parse_frames(frames.deep_view()) is None,
        }),
{
    let ghost fs = frames.deep_view();
    proof {
        assert(fs.len() == frames@.len());
    }
    if frames.len() < 2 {
        return None;
    }
    let token = match &frames[0] {
        Frame::Text(s) => clone_string(s),
        Frame::Count(_) => {
            proof {
                assert(fs[0] == frames@[0]@);
            }
            return None;
        },
    };
    let count = match &frames[1] {
        Frame::Count(n) => *n,
        Frame::Text(_) => {
            proof {
                assert(fs[1] == frames@[1]@);
            }
            return None;
        },
    };
    proof {
        assert(fs[0] == frames@[0]@);
        assert(fs[1] == frames@[1]@);
    }
    if frames.len() - 2 != count {
        return None;
    }
    let mut pks: Vec<String> = Vec::new();
    let mut i: usize = 0;
    while i < count
        invariant
            fs == frames.deep_view(),
            fs.len() == frames@.len(),
            frames@.len() == 2 + count,
            count <= usize::MAX - 2,
            0 <= i <= count,
            pks.deep_view().len() == i,
            forall|j: int|
                0 <= j < i ==> fs[2 + j] == FrameModel::Text(#[trigger] pks.deep_view()[j]),
        decreases count - i,
    {
        let ghost before = pks.deep_view();
        let pk = match &frames[2 + i] {
            Frame::Text(s) => clone_string(s),
            Frame::Count(_) => {
                proof {
                    assert(fs[2 + i as int] == frames@[2 + i as int]@);
                    assert(!(fs[2 + i as int] is Text));
                }
                return None;
            },
        };
        proof {
            assert(fs[2 + i as int] == frames@[2 + i as int]@);
        }
        pks.push(pk);
        proof {
            assert(pks.deep_view() =~= before.push(pk@));
        }
        i = i + 1;
    }
    let g = GuestInput { token, pks };
    proof {
        assert forall|j: int| 0 <= j < count implies #[trigger] fs[2 + j] is Text by {
            assert(fs[2 + j] == FrameModel::Text(pks.deep_view()[j]));
        }
        let parsed = parse_frames(fs).unwrap();
        assert(parsed.pks =~= g@.pks) by {
            assert forall|j: int| 0 <= j < count implies parsed.pks[j] == g@.pks[j] by {
                assert(fs[2 + j] == FrameModel::Text(pks.deep_view()[j]));
            }
        }
    }
    Some(g)
}

/// The guest execution fails fatally when no candidate validates: by
/// design, no partial proof exists.
#[derive(Clone, Copy, Debug, PartialEq, Eq, Structural)]
pub enum GuestError {
    NoValidKey,
}

/// Whether some candidate in the list validates the token.
pub open spec fn guest_accepts(token: Seq<char>, pks: Seq<Seq<char>>) -> bool {
    exists|i: int| 0 <= i < pks.len() && candidate_accepts(token, #[trigger] pks[i])
}

/// The record a successful guest run commits.  It is built from the
/// candidate list and the token's payload alone: no trace of which
/// candidate validated appears in it.
pub open spec fn guest_output(token: Seq<char>, pks: Seq<Seq<char>>) -> OutputModel {
    OutputModel { pks, claims: public_part(payload_claims(payload_of(token)).unwrap()) }
}

/// The guest's core scan: try the candidate keys in input order, stop at
/// the first that validates, and build the committed record.  Succeeds
/// exactly when some candidate validates the token; which one never
/// shows in the result.
pub fn run_guest(input: GuestInput) -> (r: Result<PublicOutput, GuestError>)
    ensures
        r is Ok <==> guest_accepts(input@.token, input@.pks),
        r is Ok ==> r.unwrap()@ == guest_output(input@.token, input@.pks),
{
    let n = input.pks.len();
    let mut i: usize = 0;
    while i < n
        invariant
            n == input.pks.len(),
            n == input@.pks.len(),
            0 <= i <= n,
            forall|j: int| 0 <= j < i ==> !candidate_accepts(input@.token, #[trigger] input@.pks[j]),
        decreases n - i,
    {
        match validate_token_integrity(input.token.as_str(), input.pks[i].as_str()) {
            Ok(winning) => {
                let claims = winning.get_public_claims();
                let out = PublicOutput { pks: input.pks, claims };
                proof {
                    assert(candidate_accepts(input@.token, input@.pks[i as int]));
                }
                return Ok(out);
            },
            Err(_) => {},
        }
        i = i + 1;
    }
    Err(GuestError::NoValidKey)
}

/// Runs the guest and commits the result in its journal encoding.  The
/// committed bytes decode to exactly the output record.
pub fn guest_journal(input: GuestInput) -> (r: Result<Vec<u8>, GuestError>)
    ensures
        r is Ok <==> guest_accepts(input@.token, input@.pks),
        r is Ok ==> parse_output(r.unwrap()@) == Some(guest_output(input@.token, input@.pks)),
{
    let out = match run_guest(input) {
        Ok(o) => o,
        Err(e) => {
            return Err(e);
        },
    };
    let bytes = encode_output(&out);
    proof {
        lemma_output_round_trip(out@);
    }
    Ok(bytes)
}

/// Anonymity hiding: the committed record is a function of the candidate
/// list and the token's payload alone.  Two tokens with the same payload
/// — whichever candidates in the list validate each — commit
/// indistinguishable records.
pub proof fn lemma_output_hides_winner(t1: Seq<char>, t2: Seq<char>, pks: Seq<Seq<char>>)
    requires
        payload_of(t1) == payload_of(t2),
    ensures
        guest_output(t1, pks) == guest_output(t2, pks),
{
}

} // verus!
