//! The deliberation objects that consensus is computed from, read from
//! their documents: deliberations with their initial participants,
//! participant changes, decisions and settlements.

use vstd::prelude::*;
use crate::effective::SettledOutcome;
use crate::error::Error;
use crate::json::{JsonValue, field, id_value, is_object, parse_object_id_text, text_value, u64_value};
use crate::text::same_text;

verus! {

/// Whether a participant change adds or removes a participant.
#[derive(Clone, Copy, Debug, PartialEq, Eq, Structural)]
pub enum ParticipantOperation {
    Join,
    Leave,
}

/// The value a participant decided.
#[derive(Clone, Copy, Debug, PartialEq, Eq, Structural)]
pub enum DecisionValue {
    Accepted,
    Rejected,
}

/// A change to a deliberation's participants.
#[derive(Clone, Debug, PartialEq, Eq)]
pub struct ParticipantChange {
    pub id: u128,
    pub actor: u128,
    pub operation: ParticipantOperation,
    /// The change it follows, when it names one.
    pub predecessors: Vec<u128>,
}

/// A participant's decision on a deliberation.
#[derive(Clone, Debug, PartialEq, Eq)]
pub struct DecisionInput {
    pub id: u128,
    pub participant: u128,
    pub value: DecisionValue,
    pub supersedes: Vec<u128>,
}

/// A decision a settlement counts, with the content hash it was read at
/// (as written; the hash type parses it).
#[derive(Clone, Debug, PartialEq, Eq)]
pub struct SettlementDecisionRef {
    pub decision_id: u128,
    pub participant: u128,
    pub content_hash: String,
}

/// The identifier each item names: the item itself when `key` is `None`,
/// else its member `key`.
pub open spec fn item_id(item: JsonValue, key: Option<Seq<char>>) -> Option<u128> {
    match key {
        Some(k) => id_value(field(item, k)),
        None => id_value(Some(item)),
    }
}

/// Every item names an identifier.
pub open spec fn all_items_named(items: Seq<JsonValue>, key: Option<Seq<char>>) -> bool {
    forall|i: int| 0 <= i < items.len() ==> (#[trigger] item_id(items[i], key)) is Some
}

/// The identifiers the items name, in order.
pub open spec fn item_ids(items: Seq<JsonValue>, key: Option<Seq<char>>) -> Seq<u128> {
    Seq::new(items.len(), |i: int| item_id(items[i], key)->0)
}

/// The identifiers an array member lists, `None` unless `v.member` is an
/// array whose every item names one.
pub open spec fn id_list_of(v: JsonValue, member: Seq<char>, key: Option<Seq<char>>) -> Option<
    Seq<u128>,
> {
    match field(v, member) {
        Some(JsonValue::Array(items)) => if all_items_named(items@, key) {
            Some(item_ids(items@, key))
        } else {
            None
        },
        _ => None,
    }
}

/// The identifiers the items of an array name.
fn id_list(items: &Vec<JsonValue>, key: Option<&str>) -> (r: Option<Vec<u128>>)
    ensures
        match r {
            Some(ids) => all_items_named(items@, opt_key(key)) && ids@ == item_ids(
                items@,
                opt_key(key),
            ),
            None => !all_items_named(items@, opt_key(key)),
        },
{
    let mut ids: Vec<u128> = Vec::new();
    let mut i: usize = 0;
    while i < items.len()
        invariant
            i <= items@.len(),
            ids@.len() == i,
            forall|j: int| 0 <= j < i ==> (#[trigger] item_id(items@[j], opt_key(key))) is Some,
            forall|j: int| 0 <= j < i ==> ids@[j] == item_id(items@[j], opt_key(key))->0,
        decreases items@.len() - i,
    {
        let item = &items[i];
        let named = match key {
            Some(k) => {
                let member = item.get(k);
                assert(field(*item, k@) == match member {
                    Some(m) => Some(*m),
                    None => None::<JsonValue>,
                });
                parse_object_id_text(member)
            },
            None => parse_object_id_text(Some(item)),
        };
        assert(named == item_id(items@[i as int], opt_key(key)));
        match named {
            Some(id) => ids.push(id),
            None => {
                assert(!all_items_named(items@, opt_key(key)));
                return None;
            },
        }
        i = i + 1;
    }
    assert(ids@ =~= item_ids(items@, opt_key(key)));
    Some(ids)
}

/// The view of an optional key.
pub open spec fn opt_key(key: Option<&str>) -> Option<Seq<char>> {
    match key {
        Some(k) => Some(k@),
        None => None,
    }
}

/// The identifiers an array member of `v` lists.
pub(crate) fn member_ids(v: &JsonValue, member: &str, key: Option<&str>) -> (r: Option<Vec<u128>>)
    ensures
        match r {
            Some(ids) => id_list_of(*v, member@, opt_key(key)) == Some(ids@),
            None => id_list_of(*v, member@, opt_key(key)) is None,
        },
{
    match v.get(member) {
        Some(JsonValue::Array(items)) => id_list(items, key),
        _ => None,
    }
}

/// The identifier member `key` of `v`, or the error given.
fn id_or(v: &JsonValue, key: &str, error: Error) -> (r: Result<u128, Error>)
    ensures
        r == match id_value(field(*v, key@)) {
            Some(id) => Ok::<u128, Error>(id),
            None => Err(error),
        },
{
    match parse_object_id_text(v.get(key)) {
        Some(id) => Ok(id),
        None => Err(error),
    }
}

/// Reads the initial participants a deliberation body lists. Every refusal
/// is `error`.
pub fn initial_participants_of(body: &JsonValue, error: Error) -> (r: Result<Vec<u128>, Error>)
    ensures
        match r {
            Ok(ids) => id_list_of(*body, "initial_participants"@, Some("actor_id"@)) == Some(ids@),
            Err(e) => e == error && id_list_of(*body, "initial_participants"@, Some("actor_id"@))
                is None,
        },
{
    match member_ids(body, "initial_participants", Some("actor_id")) {
        Some(ids) => Ok(ids),
        None => Err(error),
    }
}

/// The operation a change body names.
pub open spec fn operation_of(body: JsonValue) -> Option<ParticipantOperation> {
    let t = text_value(field(body, "operation"@));
    if t == Some("join"@) {
        Some(ParticipantOperation::Join)
    } else if t == Some("leave"@) {
        Some(ParticipantOperation::Leave)
    } else {
        None
    }
}

/// The change a participant change body names as its predecessor: `Some`
/// of nothing when absent or `null`, `None` when it names no identifier.
pub open spec fn predecessors_of(body: JsonValue) -> Option<Seq<u128>> {
    match field(body, "predecessor_change_id"@) {
        None => Some(Seq::empty()),
        Some(JsonValue::Null) => Some(Seq::empty()),
        Some(p) => match id_value(Some(p)) {
            Some(id) => Some(seq![id]),
            None => None,
        },
    }
}

/// A participant change read from its body: its deliberation and the
/// change, `None` when the body does not describe one.
pub open spec fn change_spec(id: u128, body: JsonValue) -> Option<(u128, u128, ParticipantOperation, Seq<u128>)> {
    let deliberation = id_value(field(body, "deliberation_id"@));
    let actor = id_value(field(body, "participant_actor_id"@));
    if deliberation is Some && actor is Some && operation_of(body) is Some && predecessors_of(body) is Some {
        Some((deliberation->0, actor->0, operation_of(body)->0, predecessors_of(body)->0))
    } else {
        None
    }
}

/// Reads a participant change `id` from its body: the deliberation it
/// belongs to and the change. Every refusal is `error`.
pub fn participant_change_of(id: u128, body: &JsonValue, error: Error) -> (r: Result<
    (u128, ParticipantChange),
    Error,
>)
    ensures
        match r {
            Ok((deliberation, change)) => change.id == id && change_spec(id, *body) == Some(
                (deliberation, change.actor, change.operation, change.predecessors@),
            ),
            Err(e) => e == error && change_spec(id, *body) is None,
        },
{
    let deliberation = id_or(body, "deliberation_id", error)?;
    let actor = id_or(body, "participant_actor_id", error)?;
    let operation = match body.get("operation") {
        Some(JsonValue::Text(t)) => if same_text(t.as_str(), "join") {
            ParticipantOperation::Join
        } else if same_text(t.as_str(), "leave") {
            ParticipantOperation::Leave
        } else {
            return Err(error);
        },
        _ => return Err(error),
    };
    let mut predecessors: Vec<u128> = Vec::new();
    match body.get("predecessor_change_id") {
        None => {},
        Some(JsonValue::Null) => {},
        Some(p) => match parse_object_id_text(Some(p)) {
            Some(pid) => predecessors.push(pid),
            None => return Err(error),
        },
    }
    assert(predecessors_of(*body) == Some(predecessors@));
    Ok((deliberation, ParticipantChange { id, actor, operation, predecessors }))
}

/// The value a decision body names.
pub open spec fn decision_value_of(body: JsonValue) -> Option<DecisionValue> {
    let t = text_value(field(body, "value"@));
    if t == Some("accepted"@) {
        Some(DecisionValue::Accepted)
    } else if t == Some("rejected"@) {
        Some(DecisionValue::Rejected)
    } else {
        None
    }
}

/// A decision read from its body: its deliberation, participant, value
/// and the decisions it supersedes.
pub open spec fn decision_spec(body: JsonValue) -> Option<(u128, u128, DecisionValue, Seq<u128>)> {
    let deliberation = id_value(field(body, "deliberation_id"@));
    let participant = id_value(field(body, "participant_actor_id"@));
    let supersedes = id_list_of(body, "supersedes_decision_ids"@, None);
    if deliberation is Some && participant is Some && decision_value_of(body) is Some
        && supersedes is Some {
        Some((deliberation->0, participant->0, decision_value_of(body)->0, supersedes->0))
    } else {
        None
    }
}

/// Reads a decision `id` from its body: the deliberation it belongs to
/// and the decision. Every refusal is `error`.
pub fn decision_of(id: u128, body: &JsonValue, error: Error) -> (r: Result<
    (u128, DecisionInput),
    Error,
>)
    ensures
        match r {
            Ok((deliberation, d)) => d.id == id && decision_spec(*body) == Some(
                (deliberation, d.participant, d.value, d.supersedes@),
            ),
            Err(e) => e == error && decision_spec(*body) is None,
        },
{
    let deliberation = id_or(body, "deliberation_id", error)?;
    let participant = id_or(body, "participant_actor_id", error)?;
    let value = match body.get("value") {
        Some(JsonValue::Text(t)) => if same_text(t.as_str(), "accepted") {
            DecisionValue::Accepted
        } else if same_text(t.as_str(), "rejected") {
            DecisionValue::Rejected
        } else {
            return Err(error);
        },
        _ => return Err(error),
    };
    let supersedes = match member_ids(body, "supersedes_decision_ids", None) {
        Some(ids) => ids,
        None => return Err(error),
    };
    Ok((deliberation, DecisionInput { id, participant, value, supersedes }))
}

/// The outcome a settlement body names.
pub open spec fn outcome_of(body: JsonValue) -> Option<SettledOutcome> {
    let t = text_value(field(body, "outcome"@));
    if t == Some("accepted"@) {
        Some(SettledOutcome::Accepted)
    } else if t == Some("rejected"@) {
        Some(SettledOutcome::Rejected)
    } else {
        None
    }
}

/// Reads the outcome a settlement body names. Every refusal is `error`.
pub fn settlement_outcome_of(body: &JsonValue, error: Error) -> (r: Result<SettledOutcome, Error>)
    ensures
        r == match outcome_of(*body) {
            Some(o) => Ok::<SettledOutcome, Error>(o),
            None => Err(error),
        },
{
    match body.get("outcome") {
        Some(JsonValue::Text(t)) => if same_text(t.as_str(), "accepted") {
            Ok(SettledOutcome::Accepted)
        } else if same_text(t.as_str(), "rejected") {
            Ok(SettledOutcome::Rejected)
        } else {
            Err(error)
        },
        _ => Err(error),
    }
}

/// A decision reference read from a settlement: the decision, its
/// participant and the hash text.
pub open spec fn ref_spec(item: JsonValue) -> Option<(u128, u128, Seq<char>)> {
    let decision = id_value(field(item, "decision_id"@));
    let participant = id_value(field(item, "participant_actor_id"@));
    let hash = text_value(field(item, "content_hash"@));
    if decision is Some && participant is Some && hash is Some {
        Some((decision->0, participant->0, hash->0))
    } else {
        None
    }
}

/// The model of a decision reference.
pub open spec fn ref_model(r: SettlementDecisionRef) -> (u128, u128, Seq<char>) {
    (r.decision_id, r.participant, r.content_hash@)
}

/// The decision references a settlement body lists, `None` unless
/// `decision_refs` is an array of readable references.
pub open spec fn refs_spec(body: JsonValue) -> Option<Seq<(u128, u128, Seq<char>)>> {
    match field(body, "decision_refs"@) {
        Some(JsonValue::Array(items)) => if forall|i: int|
            0 <= i < items@.len() ==> (#[trigger] ref_spec(items@[i])) is Some {
            Some(Seq::new(items@.len(), |i: int| ref_spec(items@[i])->0))
        } else {
            None
        },
        _ => None,
    }
}

/// Reads the decision references of a settlement body. Every refusal is
/// `error`.
pub fn settlement_refs_of(body: &JsonValue, error: Error) -> (r: Result<
    Vec<SettlementDecisionRef>,
    Error,
>)
    ensures
        match r {
            Ok(refs) => refs_spec(*body) == Some(refs@.map_values(|x: SettlementDecisionRef| ref_model(x))),
            Err(e) => e == error && refs_spec(*body) is None,
        },
{
    let items = match body.get("decision_refs") {
        Some(JsonValue::Array(items)) => items,
        _ => return Err(error),
    };
    let mut refs: Vec<SettlementDecisionRef> = Vec::new();
    let mut i: usize = 0;
    while i < items.len()
        invariant
            i <= items@.len(),
            refs@.len() == i,
            field(*body, "decision_refs"@) == Some(JsonValue::Array(*items)),
            forall|j: int| 0 <= j < i ==> (#[trigger] ref_spec(items@[j])) is Some,
            forall|j: int| 0 <= j < i ==> ref_model(#[trigger] refs@[j]) == ref_spec(items@[j])->0,
        decreases items@.len() - i,
    {
        let item = &items[i];
        let decision_id = parse_object_id_text(item.get("decision_id"));
        let participant = parse_object_id_text(item.get("participant_actor_id"));
        let hash = match item.get("content_hash") {
            Some(JsonValue::Text(t)) => Some(t.as_str()),
            _ => None,
        };
        assert(hash matches Some(h) ==> text_value(field(*item, "content_hash"@)) == Some(h@));
        match (decision_id, participant, hash) {
            (Some(decision_id), Some(participant), Some(h)) => {
                refs.push(SettlementDecisionRef { decision_id, participant, content_hash: h.to_owned() });
            },
            _ => {
                assert(ref_spec(items@[i as int]) is None);
                return Err(error);
            },
        }
        i = i + 1;
    }
    assert(refs@.map_values(|x: SettlementDecisionRef| ref_model(x)) =~= Seq::new(
        items@.len(),
        |i: int| ref_spec(items@[i])->0,
    ));
    Ok(refs)
}

/// A deliberation-family object, read from its document for the consensus
/// projection.
#[derive(Clone, Debug, PartialEq, Eq)]
pub enum ConsensusObject {
    Deliberation { deliberation: u128, proposition: u128, revision: u128, participants: Vec<u128> },
    Decision { deliberation: u128, decision: DecisionInput },
    ParticipantChange { deliberation: u128, change: ParticipantChange },
    Settlement {
        id: u128,
        deliberation: u128,
        revision: u128,
        outcome: SettledOutcome,
        refs: Vec<SettlementDecisionRef>,
    },
}

/// Mathematical form of [`ConsensusObject`].
pub enum ConsensusModel {
    Deliberation { deliberation: u128, proposition: u128, revision: u128, participants: Seq<u128> },
    Decision {
        deliberation: u128,
        id: u128,
        participant: u128,
        value: DecisionValue,
        supersedes: Seq<u128>,
    },
    ParticipantChange {
        deliberation: u128,
        id: u128,
        actor: u128,
        operation: ParticipantOperation,
        predecessors: Seq<u128>,
    },
    Settlement {
        id: u128,
        deliberation: u128,
        revision: u128,
        outcome: SettledOutcome,
        refs: Seq<(u128, u128, Seq<char>)>,
    },
}

impl ConsensusObject {
    pub open spec fn model(&self) -> ConsensusModel {
        match self {
            ConsensusObject::Deliberation { deliberation, proposition, revision, participants } =>
                ConsensusModel::Deliberation {
                deliberation: *deliberation,
                proposition: *proposition,
                revision: *revision,
                participants: participants@,
            },
            ConsensusObject::Decision { deliberation, decision } => ConsensusModel::Decision {
                deliberation: *deliberation,
                id: decision.id,
                participant: decision.participant,
                value: decision.value,
                supersedes: decision.supersedes@,
            },
            ConsensusObject::ParticipantChange { deliberation, change } =>
                ConsensusModel::ParticipantChange {
                deliberation: *deliberation,
                id: change.id,
                actor: change.actor,
                operation: change.operation,
                predecessors: change.predecessors@,
            },
            ConsensusObject::Settlement { id, deliberation, revision, outcome, refs } =>
                ConsensusModel::Settlement {
                id: *id,
                deliberation: *deliberation,
                revision: *revision,
                outcome: *outcome,
                refs: refs@.map_values(|x: SettlementDecisionRef| ref_model(x)),
            },
        }
    }
}

/// What the consensus projection reads from the document of object `id`
/// of type `object_type`; `None` when it is no readable deliberation-family
/// object.
pub open spec fn consensus_spec(id: u128, object_type: Seq<char>, document: JsonValue) -> Option<
    ConsensusModel,
> {
    let b = field(document, "body"@);
    if !is_object(b) {
        None
    } else {
        let body = b->0;
        if object_type == "deliberation"@ {
            let d = id_value(field(body, "deliberation_id"@));
            let p = id_value(field(body, "proposition_id"@));
            let r = id_value(field(body, "revision_id"@));
            let ps = id_list_of(body, "initial_participants"@, Some("actor_id"@));
            if d is Some && p is Some && r is Some && ps is Some {
                Some(
                    ConsensusModel::Deliberation {
                        deliberation: d->0,
                        proposition: p->0,
                        revision: r->0,
                        participants: ps->0,
                    },
                )
            } else {
                None
            }
        } else if object_type == "decision"@ {
            match decision_spec(body) {
                Some((d, participant, value, supersedes)) => Some(
                    ConsensusModel::Decision { deliberation: d, id, participant, value, supersedes },
                ),
                None => None,
            }
        } else if object_type == "deliberation_participant_change"@ {
            match change_spec(id, body) {
                Some((d, actor, operation, predecessors)) => Some(
                    ConsensusModel::ParticipantChange {
                        deliberation: d,
                        id,
                        actor,
                        operation,
                        predecessors,
                    },
                ),
                None => None,
            }
        } else if object_type == "settlement"@ {
            let d = id_value(field(body, "deliberation_id"@));
            let r = id_value(field(body, "revision_id"@));
            if d is Some && r is Some && outcome_of(body) is Some && refs_spec(body) is Some {
                Some(
                    ConsensusModel::Settlement {
                        id,
                        deliberation: d->0,
                        revision: r->0,
                        outcome: outcome_of(body)->0,
                        refs: refs_spec(body)->0,
                    },
                )
            } else {
                None
            }
        } else {
            None
        }
    }
}

/// Reads the deliberation-family object `id` of type `object_type` for the
/// consensus projection; any other object, or a document it cannot read,
/// is a broken projection.
pub fn consensus_object(id: u128, object_type: &str, document: &JsonValue) -> (r: Result<
    ConsensusObject,
    Error,
>)
    ensures
        match r {
            Ok(o) => consensus_spec(id, object_type@, *document) == Some(o.model()),
            Err(e) => e == Error::StateProjected && consensus_spec(id, object_type@, *document)
                is None,
        },
{
    let error = Error::StateProjected;
    let body = match document.get("body") {
        Some(b) => b,
        None => return Err(error),
    };
    if !body.is_object() {
        return Err(error);
    }
    if same_text(object_type, "deliberation") {
        let deliberation = id_or(body, "deliberation_id", error)?;
        let proposition = id_or(body, "proposition_id", error)?;
        let revision = id_or(body, "revision_id", error)?;
        let participants = initial_participants_of(body, error)?;
        Ok(ConsensusObject::Deliberation { deliberation, proposition, revision, participants })
    } else if same_text(object_type, "decision") {
        let (deliberation, decision) = decision_of(id, body, error)?;
        Ok(ConsensusObject::Decision { deliberation, decision })
    } else if same_text(object_type, "deliberation_participant_change") {
        let (deliberation, change) = participant_change_of(id, body, error)?;
        Ok(ConsensusObject::ParticipantChange { deliberation, change })
    } else if same_text(object_type, "settlement") {
        let deliberation = id_or(body, "deliberation_id", error)?;
        let revision = id_or(body, "revision_id", error)?;
        let outcome = settlement_outcome_of(body, error)?;
        let refs = settlement_refs_of(body, error)?;
        Ok(ConsensusObject::Settlement { id, deliberation, revision, outcome, refs })
    } else {
        Err(error)
    }
}

/// The member `key` of a settlement body states the count `n`.
pub open spec fn states_count(body: JsonValue, key: Seq<char>, n: nat) -> bool {
    u64_value(field(body, key)) == Some(n as u64) && n <= u64::MAX
}

/// Whether the member `key` of `body` states the count `n`.
fn count_stated(body: &JsonValue, key: &str, n: usize) -> (r: bool)
    ensures
        r == states_count(*body, key@, n as nat),
{
    match body.get(key) {
        Some(v) => match v.as_u64() {
            Some(m) => m == n as u64,
            None => false,
        },
        None => false,
    }
}

/// A settlement states the counts its witness evaluates to: the active
/// participants, the applicable decisions, and the participants whose
/// result is acceptance and rejection.
pub fn settlement_counts_match(
    body: &JsonValue,
    participants: usize,
    decided: usize,
    accepted: usize,
    rejected: usize,
) -> (r: bool)
    ensures
        r == (states_count(*body, "participant_count"@, participants as nat) && states_count(
            *body,
            "decided_count"@,
            decided as nat,
        ) && states_count(*body, "accepted_count"@, accepted as nat) && states_count(
            *body,
            "rejected_count"@,
            rejected as nat,
        )),
{
    count_stated(body, "participant_count", participants) && count_stated(body, "decided_count", decided)
        && count_stated(body, "accepted_count", accepted) && count_stated(body, "rejected_count", rejected)
}

/// A copy of a list of identifiers.
fn copy_ids(ids: &Vec<u128>) -> (r: Vec<u128>)
    ensures
        r@ == ids@,
{
    let mut r: Vec<u128> = Vec::new();
    let mut i: usize = 0;
    while i < ids.len()
        invariant
            i <= ids@.len(),
            r@ == ids@.take(i as int),
        decreases ids@.len() - i,
    {
        r.push(ids[i]);
        proof {
            assert(ids@.take(i + 1) =~= ids@.take(i as int).push(ids@[i as int]));
        }
        i = i + 1;
    }
    assert(ids@.take(ids@.len() as int) =~= ids@);
    r
}

/// A copy of a list of decision references.
fn copy_refs(refs: &Vec<SettlementDecisionRef>) -> (r: Vec<SettlementDecisionRef>)
    ensures
        r@.map_values(|x: SettlementDecisionRef| ref_model(x)) == refs@.map_values(
            |x: SettlementDecisionRef| ref_model(x),
        ),
{
    let mut r: Vec<SettlementDecisionRef> = Vec::new();
    let mut i: usize = 0;
    while i < refs.len()
        invariant
            i <= refs@.len(),
            r@.len() == i,
            forall|k: int| 0 <= k < i ==> ref_model(#[trigger] r@[k]) == ref_model(refs@[k]),
        decreases refs@.len() - i,
    {
        let x = &refs[i];
        r.push(
            SettlementDecisionRef {
                decision_id: x.decision_id,
                participant: x.participant,
                content_hash: x.content_hash.as_str().to_owned(),
            },
        );
        i = i + 1;
    }
    assert(r@.map_values(|x: SettlementDecisionRef| ref_model(x)) =~= refs@.map_values(
        |x: SettlementDecisionRef| ref_model(x),
    ));
    r
}

/// The model of a participant change.
pub open spec fn change_model(c: ParticipantChange) -> (u128, u128, ParticipantOperation, Seq<u128>) {
    (c.id, c.actor, c.operation, c.predecessors@)
}

/// The model of a decision.
pub open spec fn decision_model(d: DecisionInput) -> (u128, u128, DecisionValue, Seq<u128>) {
    (d.id, d.participant, d.value, d.supersedes@)
}

/// The participant changes of deliberation `d`, in the order given.
pub open spec fn changes_of(objects: Seq<ConsensusObject>, d: u128) -> Seq<(u128, u128, ParticipantOperation, Seq<u128>)>
    decreases objects.len(),
{
    if objects.len() == 0 {
        Seq::empty()
    } else {
        let rest = changes_of(objects.drop_last(), d);
        match objects.last() {
            ConsensusObject::ParticipantChange { deliberation, change } => if deliberation == d {
                rest.push(change_model(change))
            } else {
                rest
            },
            _ => rest,
        }
    }
}

/// The decisions on deliberation `d`, in the order given.
pub open spec fn decisions_of(objects: Seq<ConsensusObject>, d: u128) -> Seq<(u128, u128, DecisionValue, Seq<u128>)>
    decreases objects.len(),
{
    if objects.len() == 0 {
        Seq::empty()
    } else {
        let rest = decisions_of(objects.drop_last(), d);
        match objects.last() {
            ConsensusObject::Decision { deliberation, decision } => if deliberation == d {
                rest.push(decision_model(decision))
            } else {
                rest
            },
            _ => rest,
        }
    }
}

/// The settlements of deliberation `d` on revision `r`, in the order
/// given: each settlement's id, outcome and decision references.
pub open spec fn settlements_of(objects: Seq<ConsensusObject>, d: u128, r: u128) -> Seq<
    (u128, SettledOutcome, Seq<(u128, u128, Seq<char>)>),
>
    decreases objects.len(),
{
    if objects.len() == 0 {
        Seq::empty()
    } else {
        let rest = settlements_of(objects.drop_last(), d, r);
        match objects.last() {
            ConsensusObject::Settlement { id, deliberation, revision, outcome, refs } => if deliberation
                == d && revision == r {
                rest.push((id, outcome, refs@.map_values(|x: SettlementDecisionRef| ref_model(x))))
            } else {
                rest
            },
            _ => rest,
        }
    }
}

/// The participant changes of deliberation `d`.
pub fn deliberation_changes(objects: &[ConsensusObject], d: u128) -> (r: Vec<ParticipantChange>)
    ensures
        r@.map_values(|c: ParticipantChange| change_model(c)) == changes_of(objects@, d),
{
    let mut out: Vec<ParticipantChange> = Vec::new();
    let mut i: usize = 0;
    while i < objects.len()
        invariant
            i <= objects@.len(),
            out@.map_values(|c: ParticipantChange| change_model(c)) == changes_of(objects@.take(i as int), d),
        decreases objects@.len() - i,
    {
        proof {
            assert(objects@.take(i + 1).drop_last() =~= objects@.take(i as int));
        }
        match &objects[i] {
            ConsensusObject::ParticipantChange { deliberation, change } => {
                if *deliberation == d {
                    let ghost before = out@;
                    out.push(
                        ParticipantChange {
                            id: change.id,
                            actor: change.actor,
                            operation: change.operation,
                            predecessors: copy_ids(&change.predecessors),
                        },
                    );
                    assert(out@.map_values(|c: ParticipantChange| change_model(c)) =~= before.map_values(
                        |c: ParticipantChange| change_model(c),
                    ).push(change_model(*change)));
                }
            },
            _ => {},
        }
        i = i + 1;
    }
    assert(objects@.take(objects@.len() as int) =~= objects@);
    out
}

/// The decisions on deliberation `d`.
pub fn deliberation_decisions(objects: &[ConsensusObject], d: u128) -> (r: Vec<DecisionInput>)
    ensures
        r@.map_values(|x: DecisionInput| decision_model(x)) == decisions_of(objects@, d),
{
    let mut out: Vec<DecisionInput> = Vec::new();
    let mut i: usize = 0;
    while i < objects.len()
        invariant
            i <= objects@.len(),
            out@.map_values(|x: DecisionInput| decision_model(x)) == decisions_of(objects@.take(i as int), d),
        decreases objects@.len() - i,
    {
        proof {
            assert(objects@.take(i + 1).drop_last() =~= objects@.take(i as int));
        }
        match &objects[i] {
            ConsensusObject::Decision { deliberation, decision } => {
                if *deliberation == d {
                    let ghost before = out@;
                    out.push(
                        DecisionInput {
                            id: decision.id,
                            participant: decision.participant,
                            value: decision.value,
                            supersedes: copy_ids(&decision.supersedes),
                        },
                    );
                    assert(out@.map_values(|x: DecisionInput| decision_model(x)) =~= before.map_values(
                        |x: DecisionInput| decision_model(x),
                    ).push(decision_model(*decision)));
                }
            },
            _ => {},
        }
        i = i + 1;
    }
    assert(objects@.take(objects@.len() as int) =~= objects@);
    out
}

/// The model of a settlement entry.
pub open spec fn settlement_entry_model(e: (u128, SettledOutcome, Vec<SettlementDecisionRef>)) -> (
    u128,
    SettledOutcome,
    Seq<(u128, u128, Seq<char>)>,
) {
    (e.0, e.1, e.2@.map_values(|x: SettlementDecisionRef| ref_model(x)))
}

/// The settlements of deliberation `d` on revision `r`.
pub fn deliberation_settlements(objects: &[ConsensusObject], d: u128, r: u128) -> (out: Vec<
    (u128, SettledOutcome, Vec<SettlementDecisionRef>),
>)
    ensures
        out@.map_values(|e: (u128, SettledOutcome, Vec<SettlementDecisionRef>)| settlement_entry_model(e))
            == settlements_of(objects@, d, r),
{
    let mut out: Vec<(u128, SettledOutcome, Vec<SettlementDecisionRef>)> = Vec::new();
    let mut i: usize = 0;
    while i < objects.len()
        invariant
            i <= objects@.len(),
            out@.map_values(|e: (u128, SettledOutcome, Vec<SettlementDecisionRef>)| settlement_entry_model(e))
                == settlements_of(objects@.take(i as int), d, r),
        decreases objects@.len() - i,
    {
        proof {
            assert(objects@.take(i + 1).drop_last() =~= objects@.take(i as int));
        }
        match &objects[i] {
            ConsensusObject::Settlement { id, deliberation, revision, outcome, refs } => {
                if *deliberation == d && *revision == r {
                    let ghost before = out@;
                    out.push((*id, *outcome, copy_refs(refs)));
                    assert(out@.map_values(
                        |e: (u128, SettledOutcome, Vec<SettlementDecisionRef>)| settlement_entry_model(e),
                    ) =~= before.map_values(
                        |e: (u128, SettledOutcome, Vec<SettlementDecisionRef>)| settlement_entry_model(e),
                    ).push((*id, *outcome, refs@.map_values(|x: SettlementDecisionRef| ref_model(x)))));
                }
            },
            _ => {},
        }
        i = i + 1;
    }
    assert(objects@.take(objects@.len() as int) =~= objects@);
    out
}

/// Law: the deliberation vocabulary, for every body: a change's operation
/// `join` or `leave`; a decision's value `accepted` or `rejected`; a
/// settlement's outcome `accepted` or `rejected`; any other text, or none,
/// reads as nothing.
pub proof fn law_deliberation_vocabulary(body: JsonValue)
    ensures
        text_value(field(body, "operation"@)) == Some("join"@) ==> operation_of(body) == Some(ParticipantOperation::Join),
        text_value(field(body, "operation"@)) == Some("leave"@) ==> operation_of(body) == Some(ParticipantOperation::Leave),
        text_value(field(body, "operation"@)) != Some("join"@) && text_value(field(body, "operation"@))
            != Some("leave"@) ==> operation_of(body) is None,
        text_value(field(body, "value"@)) == Some("accepted"@) ==> decision_value_of(body) == Some(DecisionValue::Accepted),
        text_value(field(body, "value"@)) == Some("rejected"@) ==> decision_value_of(body) == Some(DecisionValue::Rejected),
        text_value(field(body, "value"@)) != Some("accepted"@) && text_value(field(body, "value"@))
            != Some("rejected"@) ==> decision_value_of(body) is None,
        text_value(field(body, "outcome"@)) == Some("accepted"@) ==> outcome_of(body) == Some(SettledOutcome::Accepted),
        text_value(field(body, "outcome"@)) == Some("rejected"@) ==> outcome_of(body) == Some(SettledOutcome::Rejected),
        text_value(field(body, "outcome"@)) != Some("accepted"@) && text_value(field(body, "outcome"@))
            != Some("rejected"@) ==> outcome_of(body) is None,
{
    reveal_strlit("join");
    reveal_strlit("leave");
    reveal_strlit("accepted");
    reveal_strlit("rejected");
    assert("join"@.len() == 4 && "join"@[0] == 'j' && "join"@[1] == 'o');
    assert("leave"@.len() == 5 && "leave"@[0] == 'l' && "leave"@[1] == 'e');
    assert("accepted"@.len() == 8 && "accepted"@[0] == 'a' && "accepted"@[1] == 'c');
    assert("rejected"@.len() == 8 && "rejected"@[0] == 'r' && "rejected"@[1] == 'e');
}

} // verus!
