//! What the engine says to the language model and what it makes of the
//! answer. The call itself is made by the caller.

use vstd::prelude::*;
use crate::text::lowercase_of;
use crate::text::same_text;
use crate::text::to_lowercase;
use crate::text::trim;
use crate::text::trimmed;

verus! {

/// The instructions of the intent classifier.
pub const CLASSIFIER_PROMPT: &'static str =
    "You are a message classifier. Determine if the user wants to:\n- \"system\": Run a system command, check processes, disk space, etc.\n- \"normal\": Regular conversation\n\nRespond with ONLY one word: \"system\" or \"normal\"";

/// The greatest number of tokens asked of the classifier.
pub const CLASSIFIER_MAX_TOKENS: u32 = 10;

/// The greatest number of tokens asked for a reply.
pub const REPLY_MAX_TOKENS: u32 = 1000;

/// One role-tagged block of the model's context.
#[derive(Debug)]
pub struct Message {
    pub role: String,
    pub content: String,
}

/// What a contract sees of a `Message`.
pub struct MessageView {
    pub role: Seq<char>,
    pub content: Seq<char>,
}

impl View for Message {
    type V = MessageView;

    open spec fn view(&self) -> MessageView {
        MessageView { role: self.role@, content: self.content@ }
    }
}

/// The blocks that a list of messages stands for.
pub open spec fn blocks_of(messages: Seq<Message>) -> Seq<MessageView> {
    messages.map_values(|m: Message| m@)
}

/// A block of the system role.
pub open spec fn system_block(content: Seq<char>) -> MessageView {
    MessageView { role: "system"@, content }
}

/// A block of the user role.
pub open spec fn user_block(content: Seq<char>) -> MessageView {
    MessageView { role: "user"@, content }
}

/// A block of the assistant role.
pub open spec fn assistant_block(content: Seq<char>) -> MessageView {
    MessageView { role: "assistant"@, content }
}

/// The intent that a classifier's answer stands for: the answer without
/// surrounding white space, in lower case.
pub open spec fn intent_of(answer: Seq<char>) -> Seq<char> {
    lowercase_of(trimmed(answer))
}

impl Message {
    /// A message of the system role.
    pub fn system(content: String) -> (m: Message)
        ensures
            m@ == system_block(content@),
    {
        Message { role: String::from_str("system"), content }
    }

    /// A message of the user role.
    pub fn user(content: String) -> (m: Message)
        ensures
            m@ == user_block(content@),
    {
        Message { role: String::from_str("user"), content }
    }

    /// A message of the assistant role.
    pub fn assistant(content: String) -> (m: Message)
        ensures
            m@ == assistant_block(content@),
    {
        Message { role: String::from_str("assistant"), content }
    }
}

/// The context handed to the classifier for one message: its instructions,
/// then the message.
pub fn classifier_messages(user_message: &str) -> (r: Vec<Message>)
    ensures
        blocks_of(r@) == seq![system_block(CLASSIFIER_PROMPT@), user_block(user_message@)],
{
    let mut r: Vec<Message> = Vec::new();
    r.push(Message::system(String::from_str(CLASSIFIER_PROMPT)));
    r.push(Message::user(String::from_str(user_message)));
    assert(blocks_of(r@) =~= seq![system_block(CLASSIFIER_PROMPT@), user_block(user_message@)]);
    r
}

/// The intent that a classifier's answer stands for.
pub fn normalize_intent(answer: &str) -> (r: String)
    ensures
        r@ == intent_of(answer@),
{
    to_lowercase(trim(answer))
}

/// The intent of a message. A sender other than the approved one always
/// gets `normal`, whatever the classifier said; for the approved sender it
/// is the classifier's normalized answer, and `None` if the classifier
/// failed (`answer` is `None`).
pub fn classify_intent(answer: Option<&str>, user_id: &str, approved_user_id: &str) -> (r: Option<
    String,
>)
    ensures
        user_id@ != approved_user_id@ ==> r.is_some() && r.unwrap()@ == "normal"@,
        user_id@ == approved_user_id@ ==> match answer {
            Some(a) => r.is_some() && r.unwrap()@ == intent_of(a@),
            None => r.is_none(),
        },
{
    if !same_text(user_id, approved_user_id) {
        return Some(String::from_str("normal"));
    }
    match answer {
        Some(a) => Some(normalize_intent(a)),
        None => None,
    }
}

} // verus!
