//! The receiver workflow's decision: which updates produce output, and the
//! exact line each one produces.

use vstd::prelude::*;
use vstd::string::*;
use crate::numeral::{i64_to_string, spec_i64_digits};

verus! {

/// The fields this bridge extracts from one incoming text message.
#[derive(Clone, Debug)]
pub struct TextMessage {
    /// Sender's username, absent for accounts without one.
    pub username: Option<String>,
    /// Sender's first name.
    pub first_name: String,
    /// Sender's last name, absent for accounts without one.
    pub last_name: Option<String>,
    /// Sender's numeric identifier.
    pub sender_id: i64,
    /// Numeric identifier of the chat the message arrived in.
    pub chat_id: i64,
    /// Message timestamp.
    pub date: i64,
    /// The message text.
    pub text: String,
}

/// One element of the update stream, as far as this bridge reads it: a text
/// message with its extracted fields, or an update of any other kind.
#[derive(Clone, Debug)]
pub enum Update {
    Text(TextMessage),
    Other,
}

/// The text an optional field renders as: the value when present, the empty
/// string when absent.
pub open spec fn spec_opt_text(o: Option<String>) -> Seq<char> {
    match o {
        Some(s) => s@,
        None => Seq::empty(),
    }
}

/// The one output line for a text message: the seven extracted fields in
/// their fixed order, comma-separated, ending in a newline.
pub open spec fn spec_render_line(m: TextMessage) -> Seq<char> {
    spec_opt_text(m.username) + ","@ + m.first_name@ + ","@ + spec_opt_text(m.last_name) + ","@
        + spec_i64_digits(m.sender_id as int) + ","@ + spec_i64_digits(m.chat_id as int) + ","@
        + spec_i64_digits(m.date as int) + ","@ + m.text@ + "\n"@
}

/// Renders one text message as its output line, `spec_render_line` exactly:
/// username, first name, last name, sender id, chat id, timestamp, text,
/// with absent optional fields rendered as the empty string.
pub fn render_text_message(m: &TextMessage) -> (line: String)
    ensures
        line@ == spec_render_line(*m),
{
    let mut line = String::new();
    match &m.username {
        Some(u) => line.append(u.as_str()),
        None => {},
    }
    line.append(",");
    line.append(m.first_name.as_str());
    line.append(",");
    match &m.last_name {
        Some(u) => line.append(u.as_str()),
        None => {},
    }
    line.append(",");
    let sender_id = i64_to_string(m.sender_id);
    line.append(sender_id.as_str());
    line.append(",");
    let chat_id = i64_to_string(m.chat_id);
    line.append(chat_id.as_str());
    line.append(",");
    let date = i64_to_string(m.date);
    line.append(date.as_str());
    line.append(",");
    line.append(m.text.as_str());
    line.append("\n");
    proof {
        assert(line@ =~= spec_render_line(*m));
    }
    line
}

/// Decides the receiver's output for one update: a text message produces
/// exactly one line, rendered by `spec_render_line`; an update of any other
/// kind produces nothing.
pub fn render_update(u: &Update) -> (r: Option<String>)
    ensures
        (*u) is Other ==> r is None,
        (*u) matches Update::Text(m) ==> r matches Some(line) && line@ == spec_render_line(m),
{
    match u {
        Update::Text(m) => Some(render_text_message(m)),
        Update::Other => None,
    }
}

} // verus!
