//! The sender workflow's decisions: validating the recipient identifier
//! once at workflow start, and deciding, per input event, whether to send,
//! skip, or finish. The surrounding loop performs the reads and the network
//! sends and feeds every event back in the order it happened, awaiting each
//! send before handing over the next event.

use vstd::prelude::*;
use crate::numeral::{parse_i64, spec_parse_i64};

verus! {

/// How the sender workflow starts: disabled when the configured recipient
/// identifier is not a signed 64-bit decimal numeral (a diagnostic, then
/// success with nothing sent), active with the parsed identifier otherwise.
#[derive(Clone, Copy, Debug, PartialEq, Eq, Structural)]
pub enum SenderInit {
    Disabled,
    Active { recipient: i64 },
}

/// One outgoing message: a line of local input bound for the recipient.
#[derive(Clone, Debug)]
pub struct OutgoingMessage {
    pub recipient: i64,
    pub text: String,
}

/// One thing the surrounding loop observed: a line read from local input, a
/// failed line read, the end of local input, or a failed send.
#[derive(Clone, Debug)]
pub enum SenderEvent {
    LineRead(String),
    LineUnreadable,
    InputClosed,
    SendFailed(String),
}

/// What the workflow does next: send one message and await its completion,
/// await the next event with nothing sent, or finish with the given result.
#[derive(Clone, Debug)]
pub enum SenderAction {
    Send(OutgoingMessage),
    AwaitNext,
    FinishSuccess,
    FinishFailure(String),
}

/// Starts the sender workflow: active exactly when the identifier parses as
/// a signed 64-bit decimal integer, and then with that integer; disabled,
/// so that no send ever occurs, on every other identifier.
pub fn sender_init(id: &str) -> (r: SenderInit)
    ensures
        match spec_parse_i64(id@) {
            Some(v) => r == (SenderInit::Active { recipient: v as i64 }),
            None => r == SenderInit::Disabled,
        },
{
    match parse_i64(id) {
        Some(v) => SenderInit::Active { recipient: v },
        None => SenderInit::Disabled,
    }
}

/// The action an active sender takes on one event: a readable line becomes
/// exactly one message to the recipient, carrying the line unchanged; an
/// unreadable line is skipped; end of input finishes with success; a failed
/// send finishes by propagating that failure unchanged.
pub open spec fn spec_sender_action(recipient: i64, event: SenderEvent) -> SenderAction {
    match event {
        SenderEvent::LineRead(text) => SenderAction::Send(OutgoingMessage { recipient, text }),
        SenderEvent::LineUnreadable => SenderAction::AwaitNext,
        SenderEvent::InputClosed => SenderAction::FinishSuccess,
        SenderEvent::SendFailed(e) => SenderAction::FinishFailure(e),
    }
}

/// Decides the active sender's next action for one event.
pub fn sender_step(recipient: i64, event: SenderEvent) -> (a: SenderAction)
    ensures
        a == spec_sender_action(recipient, event),
{
    match event {
        SenderEvent::LineRead(text) => SenderAction::Send(OutgoingMessage { recipient, text }),
        SenderEvent::LineUnreadable => SenderAction::AwaitNext,
        SenderEvent::InputClosed => SenderAction::FinishSuccess,
        SenderEvent::SendFailed(e) => SenderAction::FinishFailure(e),
    }
}

/// The messages an active sender sends over a whole run, in order, when the
/// loop feeds it `events`: every readable line up to the first terminal
/// event (end of input or a failed send) yields one message; nothing
/// follows a terminal event.
pub open spec fn spec_sent_messages(recipient: i64, events: Seq<SenderEvent>) -> Seq<
    OutgoingMessage,
>
    decreases events.len(),
{
    if events.len() == 0 {
        Seq::empty()
    } else {
        match events.first() {
            SenderEvent::LineRead(text) => seq![OutgoingMessage { recipient, text }]
                + spec_sent_messages(recipient, events.drop_first()),
            SenderEvent::LineUnreadable => spec_sent_messages(recipient, events.drop_first()),
            SenderEvent::InputClosed => Seq::empty(),
            SenderEvent::SendFailed(_) => Seq::empty(),
        }
    }
}

/// For any run whose input is a sequence of readable lines followed by end
/// of input, with every send succeeding, exactly one message per line is
/// sent, in input order, each carrying its line unchanged to the recipient.
pub proof fn lemma_sends_in_input_order(recipient: i64, lines: Seq<String>)
    ensures
        ({
            let events = lines.map_values(|t: String| SenderEvent::LineRead(t)).push(
                SenderEvent::InputClosed,
            );
            let sent = spec_sent_messages(recipient, events);
            &&& sent.len() == lines.len()
            &&& forall|i: int|
                0 <= i < lines.len() ==> sent[i] == (OutgoingMessage {
                    recipient,
                    text: lines[i],
                })
        }),
    decreases lines.len(),
{
    let events = lines.map_values(|t: String| SenderEvent::LineRead(t)).push(
        SenderEvent::InputClosed,
    );
    let sent = spec_sent_messages(recipient, events);
    if lines.len() == 0 {
        assert(events.first() == SenderEvent::InputClosed);
    } else {
        let rest = lines.drop_first();
        lemma_sends_in_input_order(recipient, rest);
        let rest_events = rest.map_values(|t: String| SenderEvent::LineRead(t)).push(
            SenderEvent::InputClosed,
        );
        assert(events.drop_first() =~= rest_events);
        assert(events.first() == SenderEvent::LineRead(lines[0]));
        let rest_sent = spec_sent_messages(recipient, rest_events);
        assert(sent =~= seq![OutgoingMessage { recipient, text: lines[0] }] + rest_sent);
        assert forall|i: int| 0 <= i < lines.len() implies sent[i] == (OutgoingMessage {
            recipient,
            text: lines[i],
        }) by {
            if i > 0 {
                assert(sent[i] == rest_sent[i - 1]);
                assert(rest[i - 1] == lines[i]);
            }
        }
    }
}

} // verus!
