//! Chain calls that the bridge issues on behalf of mesh tones.

use crate::abi::zero_bytes32;
use crate::json::{get_member, read_text};
use crate::text::same;
use serde_json::Value;
#[allow(unused_imports)]
use crate::{abi, json};
#[allow(unused_imports)]
use crate::json::JsonTree;
use vstd::prelude::*;

verus! {

/// An outbound chain call.
#[derive(Debug, Clone)]
pub enum DispatchIntent {
    /// Attest that a leader's trading has degraded.
    AttestDegradation {
        /// Address of the leader.
        leader: String,
        /// Hash of the evidence.
        evidence_hash: String,
        /// Builder tag.
        builder: String,
    },
    /// Rule on a claim.
    ArbiterRule {
        /// The claim.
        claim_id: String,
        /// What to slash off the bond.
        slash_amount: String,
        /// Whether the claim is upheld.
        upheld: bool,
        /// Builder tag.
        builder: String,
    },
}

/// The texts that a chain call carries.
pub enum IntentView {
    /// See [`DispatchIntent::AttestDegradation`].
    AttestDegradation { leader: Seq<char>, evidence_hash: Seq<char>, builder: Seq<char> },
    /// See [`DispatchIntent::ArbiterRule`].
    ArbiterRule {
        claim_id: Seq<char>,
        slash_amount: Seq<char>,
        upheld: bool,
        builder: Seq<char>,
    },
}

impl View for DispatchIntent {
    type V = IntentView;

    open spec fn view(&self) -> IntentView {
        match *self {
            DispatchIntent::AttestDegradation { leader, evidence_hash, builder } => {
                IntentView::AttestDegradation {
                    leader: leader@,
                    evidence_hash: evidence_hash@,
                    builder: builder@,
                }
            },
            DispatchIntent::ArbiterRule { claim_id, slash_amount, upheld, builder } => {
                IntentView::ArbiterRule {
                    claim_id: claim_id@,
                    slash_amount: slash_amount@,
                    upheld,
                    builder: builder@,
                }
            },
        }
    }
}

/// The builder tag among the arguments of a tone: all zeros where there is no
/// string of that name.
pub open spec fn builder_of(args: JsonTree) -> Seq<char> {
    match args.text_member("builder"@) {
        Some(tag) => tag,
        None => abi::zero_bytes32_text(),
    }
}

/// The attestation that the arguments of a `slash-claim` tone ask for.
pub open spec fn attestation_of(args: JsonTree) -> Option<IntentView> {
    match (args.text_member("leader"@), args.text_member("evidenceHash"@)) {
        (Some(leader), Some(evidence_hash)) => Some(
            IntentView::AttestDegradation { leader, evidence_hash, builder: builder_of(args) },
        ),
        _ => None,
    }
}

/// The ruling that the arguments of a `ruling` tone ask for.
pub open spec fn ruling_of(args: JsonTree) -> Option<IntentView> {
    let upheld = match args.member("upheld"@) {
        Some(v) => v.truth(),
        None => None,
    };
    match (args.text_member("claimId"@), args.text_member("slashAmount"@), upheld) {
        (Some(claim_id), Some(slash_amount), Some(upheld)) => Some(
            IntentView::ArbiterRule { claim_id, slash_amount, upheld, builder: builder_of(args) },
        ),
        _ => None,
    }
}

/// The chain call that a mesh tone asks for, if it asks for one.
pub open spec fn dispatch_of(tone: JsonTree) -> Option<IntentView> {
    match (tone.text_member("chi"@), tone.member("args"@)) {
        (Some(chi), Some(args)) => if chi == "slash-claim"@ {
            attestation_of(args)
        } else if chi == "ruling"@ {
            ruling_of(args)
        } else {
            None
        },
        _ => None,
    }
}

/// The chain call that a line from the mesh asks for, if it is a JSON document
/// that asks for one.
pub open spec fn dispatch_of_line(line: Seq<char>) -> Option<IntentView> {
    match json::document(line) {
        Some(tone) => dispatch_of(tone),
        None => None,
    }
}

/// The views of an optional chain call.
pub open spec fn intent_view(r: Option<DispatchIntent>) -> Option<IntentView> {
    match r {
        Some(intent) => Some(intent@),
        None => None,
    }
}

/// The string member with this name.
fn text_member(v: &Value, name: &str) -> (r: Option<String>)
    ensures
        match r {
            Some(s) => json::content(*v).text_member(name@) == Some(s@),
            None => json::content(*v).text_member(name@) is None,
        },
{
    match get_member(v, name) {
        Some(m) => match m.as_str() {
            Some(s) => Some(String::from_str(s)),
            None => None,
        },
        None => None,
    }
}

/// The builder tag, or all zeros.
fn builder_tag(args: &Value) -> (r: String)
    ensures
        r@ == builder_of(json::content(*args)),
{
    match text_member(args, "builder") {
        Some(tag) => tag,
        None => zero_bytes32(),
    }
}

/// The chain call that a tone asks for.
pub fn dispatch_from_tone(tone: &Value) -> (r: Option<DispatchIntent>)
    ensures
        intent_view(r) == dispatch_of(json::content(*tone)),
        r is Some <==> dispatch_of(json::content(*tone)) is Some,
        r matches Some(intent) ==> dispatch_of(json::content(*tone)) == Some(intent@),
{
    let chi = match text_member(tone, "chi") {
        Some(chi) => chi,
        None => {
            return None;
        },
    };
    let args = match get_member(tone, "args") {
        Some(args) => args,
        None => {
            return None;
        },
    };
    proof {
        reveal_strlit("slash-claim");
        reveal_strlit("ruling");
    }
    if same(chi.as_str(), "slash-claim") {
        match (text_member(args, "leader"), text_member(args, "evidenceHash")) {
            (Some(leader), Some(evidence_hash)) => {
                let builder = builder_tag(args);
                Some(DispatchIntent::AttestDegradation { leader, evidence_hash, builder })
            },
            _ => None,
        }
    } else if same(chi.as_str(), "ruling") {
        let upheld = match get_member(args, "upheld") {
            Some(v) => v.as_bool(),
            None => None,
        };
        match (text_member(args, "claimId"), text_member(args, "slashAmount"), upheld) {
            (Some(claim_id), Some(slash_amount), Some(upheld)) => {
                let builder = builder_tag(args);
                Some(DispatchIntent::ArbiterRule { claim_id, slash_amount, upheld, builder })
            },
            _ => None,
        }
    } else {
        None
    }
}

/// The chain call that a line from the mesh asks for.
pub fn parse_inbound_dispatch(line: &str) -> (r: Option<DispatchIntent>)
    ensures
        intent_view(r) == dispatch_of_line(line@),
        r is Some <==> dispatch_of_line(line@) is Some,
        r matches Some(intent) ==> dispatch_of_line(line@) == Some(intent@),
        json::document(line@) is None ==> r is None,
        json::document(line@) matches Some(tone) ==> (r is Some <==> dispatch_of(tone) is Some) && (
        r matches Some(intent) ==> dispatch_of(tone) == Some(intent@)),
{
    match read_text(line) {
        Some(tone) => dispatch_from_tone(&tone),
        None => None,
    }
}

/// A `slash-claim` tone with a leader and an evidence hash asks for an
/// attestation with exactly these, and with the tone's builder tag or zeros.
pub proof fn law_slash_claim_asks_for_attestation(
    tone: JsonTree,
    args: JsonTree,
    leader: Seq<char>,
    evidence_hash: Seq<char>,
)
    requires
        tone.text_member("chi"@) == Some("slash-claim"@),
        tone.member("args"@) == Some(args),
        args.text_member("leader"@) == Some(leader),
        args.text_member("evidenceHash"@) == Some(evidence_hash),
    ensures
        dispatch_of(tone) == Some(
            IntentView::AttestDegradation { leader, evidence_hash, builder: builder_of(args) },
        ),
{
}

/// A `ruling` tone with a claim, an amount and a verdict asks for a ruling with
/// exactly these, and with the tone's builder tag or zeros.
pub proof fn law_ruling_asks_for_ruling(
    tone: JsonTree,
    args: JsonTree,
    claim_id: Seq<char>,
    slash_amount: Seq<char>,
    upheld: bool,
)
    requires
        tone.text_member("chi"@) == Some("ruling"@),
        tone.member("args"@) == Some(args),
        args.text_member("claimId"@) == Some(claim_id),
        args.text_member("slashAmount"@) == Some(slash_amount),
        args.member("upheld"@) == Some(JsonTree::Bool(upheld)),
    ensures
        dispatch_of(tone) == Some(
            IntentView::ArbiterRule { claim_id, slash_amount, upheld, builder: builder_of(args) },
        ),
{
    reveal_strlit("slash-claim");
    reveal_strlit("ruling");
    assert("slash-claim"@.len() != "ruling"@.len());
}

/// A tone with any other chi asks for nothing.
pub proof fn law_other_chis_ask_for_nothing(tone: JsonTree)
    requires
        tone.text_member("chi"@) != Some("slash-claim"@),
        tone.text_member("chi"@) != Some("ruling"@),
    ensures
        dispatch_of(tone) is None,
{
}

/// The chi decides which call a tone asks for, if it asks for one.
pub proof fn law_chi_decides_call(tone: JsonTree)
    ensures
        dispatch_of(tone) matches Some(intent) ==> {
            &&& (intent is AttestDegradation <==> tone.text_member("chi"@) == Some(
                "slash-claim"@,
            ))
            &&& (intent is ArbiterRule <==> tone.text_member("chi"@) == Some("ruling"@))
        },
{
    reveal_strlit("slash-claim");
    reveal_strlit("ruling");
    assert("slash-claim"@.len() != "ruling"@.len());
}

/// What a chain call carries is told field by field.
pub proof fn law_call_keeps_its_fields(intent: DispatchIntent)
    ensures
        match (intent, intent@) {
            (
                DispatchIntent::AttestDegradation { leader, evidence_hash, builder },
                IntentView::AttestDegradation { leader: l, evidence_hash: e, builder: b },
            ) => leader@ == l && evidence_hash@ == e && builder@ == b,
            (
                DispatchIntent::ArbiterRule { claim_id, slash_amount, upheld, builder },
                IntentView::ArbiterRule { claim_id: c, slash_amount: s, upheld: u, builder: b },
            ) => claim_id@ == c && slash_amount@ == s && upheld == u && builder@ == b,
            _ => false,
        },
{
}

/// A `slash-claim` asks for a call exactly where its arguments hold a leader
/// and an evidence hash as strings. The call is an attestation with those two
/// texts, and with the builder tag where that is a string, or else `0x` and 64
/// zeros.
pub proof fn law_slash_claim_by_members(
    members: Map<Seq<char>, JsonTree>,
    args: Map<Seq<char>, JsonTree>,
)
    requires
        members.contains_key("chi"@),
        members["chi"@] == JsonTree::Text("slash-claim"@),
        members.contains_key("args"@),
        members["args"@] == JsonTree::Object(args),
    ensures
        match dispatch_of(JsonTree::Object(members)) {
            Some(IntentView::AttestDegradation { leader, evidence_hash, builder }) => {
                &&& args.contains_key("leader"@) && args["leader"@] == JsonTree::Text(leader)
                &&& args.contains_key("evidenceHash"@) && args["evidenceHash"@] == JsonTree::Text(
                    evidence_hash,
                )
                &&& args.contains_key("builder"@) && args["builder"@] is Text
                    ==> args["builder"@] == JsonTree::Text(builder)
                &&& !(args.contains_key("builder"@) && args["builder"@] is Text) ==> builder == seq![
                    '0',
                    'x',
                ] + Seq::new(64, |i: int| '0')
            },
            Some(IntentView::ArbiterRule { .. }) => false,
            None => !(args.contains_key("leader"@) && args["leader"@] is Text
                && args.contains_key("evidenceHash"@) && args["evidenceHash"@] is Text),
        },
{
    assert(abi::zero_bytes32_text() =~= seq!['0', 'x'] + Seq::new(64, |i: int| '0'));
}

/// A `ruling` asks for a call exactly where its arguments hold a claim and an
/// amount as strings and a verdict as a truth value. The call is a ruling with
/// those three, and with the builder tag where that is a string, or else `0x`
/// and 64 zeros.
pub proof fn law_ruling_by_members(
    members: Map<Seq<char>, JsonTree>,
    args: Map<Seq<char>, JsonTree>,
)
    requires
        members.contains_key("chi"@),
        members["chi"@] == JsonTree::Text("ruling"@),
        members.contains_key("args"@),
        members["args"@] == JsonTree::Object(args),
    ensures
        match dispatch_of(JsonTree::Object(members)) {
            Some(IntentView::ArbiterRule { claim_id, slash_amount, upheld, builder }) => {
                &&& args.contains_key("claimId"@) && args["claimId"@] == JsonTree::Text(claim_id)
                &&& args.contains_key("slashAmount"@) && args["slashAmount"@] == JsonTree::Text(
                    slash_amount,
                )
                &&& args.contains_key("upheld"@) && args["upheld"@] == JsonTree::Bool(upheld)
                &&& args.contains_key("builder"@) && args["builder"@] is Text
                    ==> args["builder"@] == JsonTree::Text(builder)
                &&& !(args.contains_key("builder"@) && args["builder"@] is Text) ==> builder == seq![
                    '0',
                    'x',
                ] + Seq::new(64, |i: int| '0')
            },
            Some(IntentView::AttestDegradation { .. }) => false,
            None => !(args.contains_key("claimId"@) && args["claimId"@] is Text
                && args.contains_key("slashAmount"@) && args["slashAmount"@] is Text
                && args.contains_key("upheld"@) && args["upheld"@] is Bool),
        },
{
    reveal_strlit("slash-claim");
    reveal_strlit("ruling");
    assert("slash-claim"@.len() != "ruling"@.len());
    assert(abi::zero_bytes32_text() =~= seq!['0', 'x'] + Seq::new(64, |i: int| '0'));
}

/// What is no object, has no chi that is a string, has another chi than these
/// two, or has no object of arguments, asks for nothing.
pub proof fn law_anything_else_asks_for_nothing(tone: JsonTree)
    requires
        !(tone matches JsonTree::Object(members) && members.contains_key("chi"@) && (
        members["chi"@] == JsonTree::Text("slash-claim"@) || members["chi"@] == JsonTree::Text(
            "ruling"@,
        )) && members.contains_key("args"@) && members["args"@] is Object),
    ensures
        dispatch_of(tone) is None,
{
}

/// A line asks for what its document asks for; a line that is no JSON document
/// asks for nothing.
pub proof fn law_line_asks_for_what_its_document_asks(line: Seq<char>)
    ensures
        match json::document(line) {
            Some(tone) => dispatch_of_line(line) == dispatch_of(tone),
            None => dispatch_of_line(line) is None,
        },
{
}

} // verus!
