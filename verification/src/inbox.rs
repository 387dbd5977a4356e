//! Decisions about an inbox: what a read of its bytes means, appending, and
//! how one pass routes each envelope (deliver it, answer a shutdown request,
//! or keep it).

use vstd::prelude::*;
use crate::clock::{is_clock_timestamp, timestamp_now};
use crate::protocol::{
    is_plain, is_shutdown, shutdown_approved_json, teammate_message_text, ClaudeTeamControlMessage,
    ClaudeTeamEnvelope, ContentItem, ProtocolError, ResponseInputItem, MESSAGE_TYPE,
};

verus! {

/// An ASCII whitespace byte (`u8::is_ascii_whitespace`): space, tab, line
/// feed, form feed or carriage return.
pub open spec fn is_ascii_white_byte(b: u8) -> bool {
    b == 0x20u8 || b == 0x09u8 || b == 0x0Au8 || b == 0x0Cu8 || b == 0x0Du8
}

/// Whether the bytes of an inbox file hold nothing but ASCII whitespace, in
/// which case the inbox is empty.
pub fn inbox_is_blank(bytes: &[u8]) -> (r: bool)
    ensures
        r == (forall|i: int| 0 <= i < bytes@.len() ==> is_ascii_white_byte(#[trigger] bytes@[i])),
{
    let mut i: usize = 0;
    while i < bytes.len()
        invariant
            i <= bytes@.len(),
            forall|j: int| 0 <= j < i ==> is_ascii_white_byte(#[trigger] bytes@[j]),
        decreases bytes@.len() - i,
    {
        let b = bytes[i];
        if !(b == 0x20u8 || b == 0x09u8 || b == 0x0Au8 || b == 0x0Cu8 || b == 0x0Du8) {
            return false;
        }
        i = i + 1;
    }
    true
}

/// The envelopes of an inbox after `envelope` is appended to it.
pub fn append_inbox(envelopes: Vec<ClaudeTeamEnvelope>, envelope: ClaudeTeamEnvelope) -> (r: Vec<
    ClaudeTeamEnvelope,
>)
    ensures
        r@ == envelopes@.push(envelope),
{
    let mut envelopes = envelopes;
    envelopes.push(envelope);
    envelopes
}

/// An approval to append to the inbox of the teammate that asked to shut down.
#[derive(Debug, PartialEq, Eq)]
pub struct ShutdownReply {
    /// The agent whose inbox receives the approval.
    pub recipient: String,
    pub approval: ClaudeTeamEnvelope,
}

/// `e` approves shutdown request `request_id` on behalf of `agent_id` in pane `pane_id`.
pub open spec fn is_approval(
    e: ClaudeTeamEnvelope,
    request_id: Seq<char>,
    agent_id: Seq<char>,
    pane_id: Seq<char>,
) -> bool {
    &&& e.from@ == agent_id
    &&& e.text@ == shutdown_approved_json(request_id, agent_id, e.timestamp@, pane_id, "tmux"@)
    &&& e.summary is None
    &&& e.message_type@ == MESSAGE_TYPE@
    &&& !e.read
}

/// `reply` answers the shutdown request `control` for `agent_id` in `pane_id`.
pub open spec fn is_reply_to(
    reply: ShutdownReply,
    control: Option<ClaudeTeamControlMessage>,
    agent_id: Seq<char>,
    pane_id: Seq<char>,
) -> bool {
    match control {
        Some(ClaudeTeamControlMessage::ShutdownRequest { request_id, from, .. }) => {
            &&& reply.recipient@ == from@
            &&& is_approval(reply.approval, request_id@, agent_id, pane_id)
        },
        _ => false,
    }
}

/// Answers a shutdown request with an approval stamped `timestamp`: given
/// `control`, the control message an envelope's text parses to, returns
/// `None` when it is not a shutdown request, and otherwise the approval from
/// `agent_id` in pane `pane_id` addressed to the requester.
pub fn handle_shutdown_request_at(
    control: &Option<ClaudeTeamControlMessage>,
    agent_id: &str,
    pane_id: &str,
    timestamp: String,
) -> (r: Option<ShutdownReply>)
    ensures
        !is_shutdown(*control) ==> r is None,
        is_shutdown(*control) ==> (r matches Some(reply) && is_reply_to(
            reply,
            *control,
            agent_id@,
            pane_id@,
        ) && reply.approval.timestamp == timestamp),
{
    match control {
        Some(ClaudeTeamControlMessage::ShutdownRequest { request_id, from, .. }) => {
            match ClaudeTeamEnvelope::shutdown_approved_at(
                agent_id,
                request_id.as_str(),
                pane_id,
                timestamp,
            ) {
                Ok(approval) => Some(ShutdownReply { recipient: from.clone(), approval }),
                Err(_) => {
                    // `shutdown_approved_at` always succeeds.
                    proof {
                        assert(false);
                    }
                    None
                },
            }
        },
        _ => None,
    }
}

/// Answers a shutdown request with an approval stamped with the current
/// time: `Ok(None)` when `control` is not a shutdown request (the clock is
/// not read then); otherwise the approval addressed to the requester, or
/// `ClockUnavailable` when the clock gives no timestamp.
pub fn handle_shutdown_request(
    control: &Option<ClaudeTeamControlMessage>,
    agent_id: &str,
    pane_id: &str,
) -> (r: Result<Option<ShutdownReply>, ProtocolError>)
    ensures
        !is_shutdown(*control) ==> r == Ok::<Option<ShutdownReply>, ProtocolError>(None),
        is_shutdown(*control) ==> (r matches Ok(Some(reply)) && is_reply_to(
            reply,
            *control,
            agent_id@,
            pane_id@,
        ) && is_clock_timestamp(reply.approval.timestamp@)) || r == Err::<
            Option<ShutdownReply>,
            ProtocolError,
        >(ProtocolError::ClockUnavailable),
{
    match control {
        Some(ClaudeTeamControlMessage::ShutdownRequest { .. }) => match timestamp_now() {
            Some(timestamp) => Ok(handle_shutdown_request_at(control, agent_id, pane_id, timestamp)),
            None => Err(ProtocolError::ClockUnavailable),
        },
        _ => Ok(None),
    }
}

/// What one pass over an inbox does with an envelope.
#[derive(Debug, PartialEq, Eq)]
pub enum InboxRoute {
    /// Hand this input to the model.
    Deliver(ResponseInputItem),
    /// Append this approval to the requester's inbox.
    Reply(ShutdownReply),
    /// Leave the envelope in the inbox.
    Keep,
}

/// The outcome of one pass over an inbox.
#[derive(Debug, PartialEq, Eq)]
pub struct InboxPlan {
    /// One route per envelope, in inbox order.
    pub routes: Vec<InboxRoute>,
    /// The envelopes that stay in the inbox, in inbox order.
    pub remaining: Vec<ClaudeTeamEnvelope>,
    /// Whether the inbox file is rewritten with `remaining`.
    pub rewrite: bool,
}

/// `item` is the input handed to the model for envelope `e`.
pub open spec fn is_delivery_of(item: ResponseInputItem, e: ClaudeTeamEnvelope) -> bool {
    let ResponseInputItem::Message { role, content } = item;
    &&& role@ == "user"@
    &&& content@.len() == 1
    &&& content@[0] matches ContentItem::InputText { text }
    &&& text@ == teammate_message_text(e)
}

/// Whether an envelope stays in the inbox after a pass.
pub open spec fn is_kept(e: ClaudeTeamEnvelope, control: Option<ClaudeTeamControlMessage>) -> bool {
    !is_plain(e, control) && !is_shutdown(control)
}

/// `route` is what a pass does with envelope `e` whose text parses to `control`:
/// a plain message is delivered, a shutdown request is answered, anything
/// else is kept.
pub open spec fn routes_as(
    route: InboxRoute,
    e: ClaudeTeamEnvelope,
    control: Option<ClaudeTeamControlMessage>,
    agent_id: Seq<char>,
    pane_id: Seq<char>,
) -> bool {
    if is_plain(e, control) {
        route matches InboxRoute::Deliver(item) && is_delivery_of(item, e)
    } else if is_shutdown(control) {
        route matches InboxRoute::Reply(reply) && is_reply_to(reply, control, agent_id, pane_id)
    } else {
        route is Keep
    }
}

/// The envelopes of `envelopes` that a pass keeps, in order.
pub open spec fn kept_envelopes(
    envelopes: Seq<ClaudeTeamEnvelope>,
    controls: Seq<Option<ClaudeTeamControlMessage>>,
) -> Seq<ClaudeTeamEnvelope>
    decreases envelopes.len(),
{
    if envelopes.len() == 0 || controls.len() == 0 {
        seq![]
    } else {
        let rest = kept_envelopes(envelopes.drop_last(), controls.drop_last());
        if is_kept(envelopes.last(), controls.last()) {
            rest.push(envelopes.last())
        } else {
            rest
        }
    }
}

/// The control messages of the envelopes that a pass keeps, in order.
pub open spec fn kept_controls(
    envelopes: Seq<ClaudeTeamEnvelope>,
    controls: Seq<Option<ClaudeTeamControlMessage>>,
) -> Seq<Option<ClaudeTeamControlMessage>>
    decreases envelopes.len(),
{
    if envelopes.len() == 0 || controls.len() == 0 {
        seq![]
    } else {
        let rest = kept_controls(envelopes.drop_last(), controls.drop_last());
        if is_kept(envelopes.last(), controls.last()) {
            rest.push(controls.last())
        } else {
            rest
        }
    }
}

/// A reply route carries an approval stamped `timestamp`.
pub open spec fn stamped_with(route: InboxRoute, timestamp: Seq<char>) -> bool {
    route matches InboxRoute::Reply(reply) ==> reply.approval.timestamp@ == timestamp
}

/// Plans one pass over an inbox whose envelopes are `envelopes` and whose
/// texts parse to `controls`: plain messages are delivered, shutdown
/// requests are answered by `agent_id` in pane `pane_id` with approvals
/// stamped `timestamp`, and every other envelope stays. An empty inbox is not
/// rewritten.
pub fn plan_inbox_pass_at(
    envelopes: &Vec<ClaudeTeamEnvelope>,
    controls: &Vec<Option<ClaudeTeamControlMessage>>,
    agent_id: &str,
    pane_id: &str,
    timestamp: &str,
) -> (plan: InboxPlan)
    requires
        envelopes@.len() == controls@.len(),
    ensures
        plan.rewrite == (envelopes@.len() > 0),
        plan.routes@.len() == envelopes@.len(),
        forall|i: int|
            0 <= i < envelopes@.len() ==> routes_as(
                #[trigger] plan.routes@[i],
                envelopes@[i],
                controls@[i],
                agent_id@,
                pane_id@,
            ) && stamped_with(plan.routes@[i], timestamp@),
        plan.remaining@ == kept_envelopes(envelopes@, controls@),
{
    let n = envelopes.len();
    let mut routes: Vec<InboxRoute> = Vec::new();
    let mut remaining: Vec<ClaudeTeamEnvelope> = Vec::new();
    let mut i: usize = 0;
    while i < n
        invariant
            n == envelopes@.len() == controls@.len(),
            i <= n,
            routes@.len() == i,
            forall|j: int|
                0 <= j < i ==> routes_as(
                    #[trigger] routes@[j],
                    envelopes@[j],
                    controls@[j],
                    agent_id@,
                    pane_id@,
                ) && stamped_with(routes@[j], timestamp@),
            remaining@ == kept_envelopes(envelopes@.take(i as int), controls@.take(i as int)),
        decreases n - i,
    {
        let envelope = &envelopes[i];
        let control = &controls[i];
        proof {
            assert(envelopes@.take(i + 1).drop_last() =~= envelopes@.take(i as int));
            assert(controls@.take(i + 1).drop_last() =~= controls@.take(i as int));
            assert(envelopes@.take(i + 1).last() == envelopes@[i as int]);
            assert(controls@.take(i + 1).last() == controls@[i as int]);
        }
        if envelope.is_plain_message(control) {
            routes.push(InboxRoute::Deliver(envelope.to_teammate_response_item()));
        } else {
            match handle_shutdown_request_at(control, agent_id, pane_id, timestamp.to_owned()) {
                Some(reply) => {
                    routes.push(InboxRoute::Reply(reply));
                },
                None => {
                    routes.push(InboxRoute::Keep);
                    remaining.push(envelope.copy());
                },
            }
        }
        i = i + 1;
    }
    proof {
        assert(envelopes@.take(n as int) =~= envelopes@);
        assert(controls@.take(n as int) =~= controls@);
    }
    InboxPlan { routes, remaining, rewrite: n > 0 }
}

/// Whether some control message is a shutdown request.
pub fn has_shutdown_request(controls: &Vec<Option<ClaudeTeamControlMessage>>) -> (r: bool)
    ensures
        r == exists|i: int| 0 <= i < controls@.len() && is_shutdown(#[trigger] controls@[i]),
{
    let mut i: usize = 0;
    while i < controls.len()
        invariant
            i <= controls@.len(),
            forall|j: int| 0 <= j < i ==> !is_shutdown(#[trigger] controls@[j]),
        decreases controls@.len() - i,
    {
        match &controls[i] {
            Some(ClaudeTeamControlMessage::ShutdownRequest { .. }) => {
                return true;
            },
            _ => {},
        }
        i = i + 1;
    }
    false
}

/// Plans one pass over an inbox as `plan_inbox_pass_at` does, with approvals
/// stamped with the current time. The clock is read only when some envelope
/// is a shutdown request; the pass fails, with `ClockUnavailable`, only when
/// that read gives no timestamp.
pub fn plan_inbox_pass(
    envelopes: &Vec<ClaudeTeamEnvelope>,
    controls: &Vec<Option<ClaudeTeamControlMessage>>,
    agent_id: &str,
    pane_id: &str,
) -> (r: Result<InboxPlan, ProtocolError>)
    requires
        envelopes@.len() == controls@.len(),
    ensures
        r matches Ok(plan) ==> {
            &&& plan.rewrite == (envelopes@.len() > 0)
            &&& plan.routes@.len() == envelopes@.len()
            &&& forall|i: int|
                0 <= i < envelopes@.len() ==> routes_as(
                    #[trigger] plan.routes@[i],
                    envelopes@[i],
                    controls@[i],
                    agent_id@,
                    pane_id@,
                )
            &&& forall|i: int|
                0 <= i < envelopes@.len() ==> (#[trigger] plan.routes@[i] matches InboxRoute::Reply(
                    reply,
                ) ==> is_clock_timestamp(reply.approval.timestamp@))
            &&& plan.remaining@ == kept_envelopes(envelopes@, controls@)
        },
        (forall|i: int| 0 <= i < controls@.len() ==> !is_shutdown(#[trigger] controls@[i])) ==> r is Ok,
        r matches Err(x) ==> x == ProtocolError::ClockUnavailable && exists|i: int|
            0 <= i < controls@.len() && is_shutdown(#[trigger] controls@[i]),
{
    if has_shutdown_request(controls) {
        match timestamp_now() {
            Some(timestamp) => {
                let plan = plan_inbox_pass_at(envelopes, controls, agent_id, pane_id, timestamp.as_str());
                assert forall|i: int| 0 <= i < envelopes@.len() implies (#[trigger] plan.routes@[i] matches InboxRoute::Reply(
                    reply,
                ) ==> is_clock_timestamp(reply.approval.timestamp@)) by {
                    assert(stamped_with(plan.routes@[i], timestamp@));
                }
                Ok(plan)
            },
            None => Err(ProtocolError::ClockUnavailable),
        }
    } else {
        let plan = plan_inbox_pass_at(envelopes, controls, agent_id, pane_id, "");
        assert forall|i: int| 0 <= i < envelopes@.len() implies (#[trigger] plan.routes@[i] matches InboxRoute::Reply(
            reply,
        ) ==> is_clock_timestamp(reply.approval.timestamp@)) by {
            assert(routes_as(plan.routes@[i], envelopes@[i], controls@[i], agent_id@, pane_id@));
            assert(!is_shutdown(controls@[i]));
        }
        Ok(plan)
    }
}

proof fn lemma_kept_shape(
    envelopes: Seq<ClaudeTeamEnvelope>,
    controls: Seq<Option<ClaudeTeamControlMessage>>,
)
    requires
        envelopes.len() == controls.len(),
    ensures
        kept_envelopes(envelopes, controls).len() == kept_controls(envelopes, controls).len(),
        forall|j: int|
            0 <= j < kept_envelopes(envelopes, controls).len() ==> is_kept(
                #[trigger] kept_envelopes(envelopes, controls)[j],
                kept_controls(envelopes, controls)[j],
            ),
    decreases envelopes.len(),
{
    if envelopes.len() > 0 {
        lemma_kept_shape(envelopes.drop_last(), controls.drop_last());
    }
}

proof fn lemma_kept_of_all_kept(
    envelopes: Seq<ClaudeTeamEnvelope>,
    controls: Seq<Option<ClaudeTeamControlMessage>>,
)
    requires
        envelopes.len() == controls.len(),
        forall|j: int| 0 <= j < envelopes.len() ==> is_kept(#[trigger] envelopes[j], controls[j]),
    ensures
        kept_envelopes(envelopes, controls) == envelopes,
        kept_controls(envelopes, controls) == controls,
    decreases envelopes.len(),
{
    if envelopes.len() > 0 {
        let e = envelopes.drop_last();
        let c = controls.drop_last();
        assert forall|j: int| 0 <= j < e.len() implies is_kept(#[trigger] e[j], c[j]) by {
            assert(e[j] == envelopes[j] && c[j] == controls[j]);
        }
        lemma_kept_of_all_kept(e, c);
        assert(is_kept(envelopes[envelopes.len() - 1], controls[controls.len() - 1]));
        assert(e.push(envelopes.last()) =~= envelopes);
        assert(c.push(controls.last()) =~= controls);
    }
}

/// After a pass the inbox holds no plain message and no shutdown request, so
/// a second pass over what remains delivers nothing, answers nothing and
/// keeps everything.
pub proof fn law_second_pass_keeps_everything(
    envelopes: Seq<ClaudeTeamEnvelope>,
    controls: Seq<Option<ClaudeTeamControlMessage>>,
)
    requires
        envelopes.len() == controls.len(),
    ensures
        ({
            let kept = kept_envelopes(envelopes, controls);
            let kept_c = kept_controls(envelopes, controls);
            &&& forall|j: int|
                0 <= j < kept.len() ==> !is_plain(#[trigger] kept[j], kept_c[j]) && !is_shutdown(
                    kept_c[j],
                )
            &&& kept_envelopes(kept, kept_c) == kept
        }),
{
    lemma_kept_shape(envelopes, controls);
    lemma_kept_of_all_kept(kept_envelopes(envelopes, controls), kept_controls(envelopes, controls));
}

/// A message of type `message` whose text is not a control message is
/// delivered by a pass, read or not, and never stays in the inbox.
pub proof fn law_plain_message_is_delivered(
    route: InboxRoute,
    e: ClaudeTeamEnvelope,
    control: Option<ClaudeTeamControlMessage>,
    agent_id: Seq<char>,
    pane_id: Seq<char>,
)
    requires
        e.message_type@ == seq!['m', 'e', 's', 's', 'a', 'g', 'e'],
        control is None,
        routes_as(route, e, control, agent_id, pane_id),
    ensures
        route matches InboxRoute::Deliver(item) && is_delivery_of(item, e),
        !is_kept(e, control),
{
    crate::protocol::law_plain_is_message_type_without_control(e, control);
}

} // verus!
