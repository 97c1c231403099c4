//! Decisions of the relay loop: where a message's text comes from, what is done
//! for a message once its text is known, and how the update cursor moves.

use vstd::prelude::*;

use crate::identity::{identity_of, ObjectId};
use crate::user::User;

verus! {

/// A document attached to a message.
#[derive(Debug)]
pub struct Document {
    pub file_id: String,
    pub file_name: Option<String>,
}

/// What the relay reads of an inbound message.
#[derive(Debug)]
pub struct InboundMessage {
    pub message_id: i32,
    pub chat_id: i64,
    pub text: Option<String>,
    pub document: Option<Document>,
}

/// An inbound update: its sequence number and the message it carries, if any.
#[derive(Debug)]
pub struct Update {
    pub update_id: u32,
    pub message: Option<InboundMessage>,
}

/// Where the text of a message is to be taken from.
#[derive(Debug)]
pub enum TextSource {
    /// The message's own text.
    Inline(String),
    /// The attached plaintext document with this file identifier.
    Document(String),
    /// Nowhere: the message is skipped.
    Nothing,
}

/// One step of relaying a message whose text is known, in the order to perform.
#[derive(Debug)]
pub enum RelayAction {
    /// Parse `text` and make it the queue of the user under `user_id`.
    QueueCommands { user_id: ObjectId, text: String },
    /// Forward the message from the sender's chat to the chat of a cantor.
    Forward { message_id: i32, from_chat_id: i64, to_chat_id: i64 },
    /// Set the acknowledgment reaction on the sender's message.
    React { chat_id: i64, message_id: i32 },
}

/// A file name that ends in the plaintext extension `.txt`.
pub open spec fn is_plaintext_name(name: Seq<char>) -> bool {
    name.len() >= 4 && name.subrange(name.len() - 4, name.len() as int) == seq!['.', 't', 'x', 't']
}

/// The file identifier of the plaintext document attached to `m`, if any.
pub open spec fn plaintext_file_id(m: InboundMessage) -> Option<String> {
    match m.document {
        Some(d) => match d.file_name {
            Some(n) => if is_plaintext_name(n@) {
                Some(d.file_id)
            } else {
                None
            },
            None => None,
        },
        None => None,
    }
}

/// Relies on `str::ends_with`: whether `s` ends with `suffix`.
#[verifier::external_body]
fn ends_with(s: &str, suffix: &str) -> (r: bool)
    ensures
        r == (suffix@.len() <= s@.len() && s@.subrange(s@.len() - suffix@.len(), s@.len() as int) == suffix@),
{
    s.ends_with(suffix)
}

/// The file identifier of the attached document, if it has a file name that
/// ends in `.txt`.
pub fn get_file_id(message: &InboundMessage) -> (r: Option<String>)
    ensures
        r == plaintext_file_id(*message),
{
    match &message.document {
        Some(document) => match &document.file_name {
            Some(file_name) => {
                proof {
                    reveal_strlit(".txt");
                }
                assert(".txt"@ =~= seq!['.', 't', 'x', 't']);
                if ends_with(file_name.as_str(), ".txt") {
                    Some(document.file_id.clone())
                } else {
                    None
                }
            },
            None => None,
        },
        None => None,
    }
}

/// Where to take the text of `message` from: its own text if it has one, else
/// its attached plaintext document, else nowhere.
pub fn text_source(message: &InboundMessage) -> (r: TextSource)
    ensures
        match message.text {
            Some(t) => r == TextSource::Inline(t),
            None => match plaintext_file_id(*message) {
                Some(f) => r == TextSource::Document(f),
                None => r == TextSource::Nothing,
            },
        },
{
    match &message.text {
        Some(t) => TextSource::Inline(t.clone()),
        None => match get_file_id(message) {
            Some(f) => TextSource::Document(f),
            None => TextSource::Nothing,
        },
    }
}

/// The steps for `message` once its text is resolved (`None`: no text could
/// be had). With text: queue it for the sender, forward the message to each
/// cantor in `cantors`, then acknowledge it. Without: nothing.
pub fn message_actions(message: &InboundMessage, text: &Option<String>, cantors: &Vec<i64>) -> (r: Vec<RelayAction>)
    requires
        cantors@.len() + 2 <= usize::MAX,
    ensures
        text is None ==> r@.len() == 0,
        text is Some ==> {
            &&& r@.len() == cantors@.len() + 2
            &&& match r@[0] {
                RelayAction::QueueCommands { user_id, text: t } => user_id@ == identity_of(message.chat_id)
                    && t == text->0,
                _ => false,
            }
            &&& forall|k: int| 1 <= k <= cantors@.len() ==> (#[trigger] r@[k]) == (RelayAction::Forward {
                message_id: message.message_id,
                from_chat_id: message.chat_id,
                to_chat_id: cantors@[k - 1],
            })
            &&& r@[r@.len() - 1] == (RelayAction::React { chat_id: message.chat_id, message_id: message.message_id })
        },
{
    let mut r: Vec<RelayAction> = Vec::new();
    match text {
        None => r,
        Some(t) => {
            r.push(RelayAction::QueueCommands { user_id: User::id_from_telegram_id(message.chat_id), text: t.clone() });
            let mut i: usize = 0;
            while i < cantors.len()
                invariant
                    i <= cantors@.len(),
                    cantors@.len() + 2 <= usize::MAX,
                    r@.len() == i + 1,
                    match r@[0] {
                        RelayAction::QueueCommands { user_id, text: q } => user_id@ == identity_of(message.chat_id)
                            && q == *t,
                        _ => false,
                    },
                    forall|k: int| 1 <= k <= i ==> (#[trigger] r@[k]) == (RelayAction::Forward {
                        message_id: message.message_id,
                        from_chat_id: message.chat_id,
                        to_chat_id: cantors@[k - 1],
                    }),
                decreases cantors@.len() - i,
            {
                r.push(RelayAction::Forward {
                    message_id: message.message_id,
                    from_chat_id: message.chat_id,
                    to_chat_id: cantors[i],
                });
                i = i + 1;
            }
            r.push(RelayAction::React { chat_id: message.chat_id, message_id: message.message_id });
            r
        },
    }
}

/// The cursor over inbound updates: the sequence number of the next one wanted.
pub struct RelayCursor {
    pub offset: i64,
}

impl RelayCursor {
    /// A cursor at the start.
    pub fn new() -> (r: RelayCursor)
        ensures
            r.offset == 0,
    {
        RelayCursor { offset: 0 }
    }

    /// Moves past the update with sequence number `update_id`, whatever came of
    /// handling it.
    pub fn advance(&mut self, update_id: u32)
        ensures
            final(self).offset == update_id as int + 1,
    {
        self.offset = update_id as i64 + 1;
    }
}

} // verus!
