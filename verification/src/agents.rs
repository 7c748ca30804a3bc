//! Decides whether a message is meant for a tool, and which one.
//!
//! A message can name a tool outright (`agent:<name> <argument>`), use one
//! of two shortcuts for the system tool, or, for the approved sender only,
//! be handed to a classifier. Running the tool is left to the caller.

use vstd::prelude::*;
use crate::config::Config;
use crate::text::find_char;
use crate::text::lemma_position;
use crate::text::position;
use crate::text::push_chars;
use crate::text::same_text;
use crate::text::starts_with;
use crate::text::to_chars;
use crate::text::trim;
use crate::text::trimmed;

verus! {

/// The marker that starts an explicit invocation.
pub const AGENT_PREFIX: &'static str = "agent:";

/// The first shortcut for the system tool.
pub const BASH_PREFIX: &'static str = "bash ";

/// The second shortcut for the system tool.
pub const RUN_COMMAND_PREFIX: &'static str = "run command ";

/// The name of the system tool.
pub const SYSTEM_AGENT: &'static str = "system_agent";

/// The intent that routes a message to the system tool.
pub const SYSTEM_INTENT: &'static str = "system";

/// The marker that starts a tool result which carries an image.
pub const IMAGE_MARKER: &'static str = "IMAGE:";

/// What precedes the error in the reply to a failed tool run.
pub const FAILURE_PREFIX: &'static str = "\u{274c} Agent failed: ";

/// The tool and argument that the text of a message names by itself, if
/// any. The explicit form is tried first: the name runs from the marker to
/// the first space, the argument is what follows that space. Then the two
/// shortcuts, in order: the argument is the text after the prefix.
pub open spec fn detected(msg: Seq<char>) -> Option<(Seq<char>, Seq<char>)> {
    if AGENT_PREFIX@.is_prefix_of(msg) {
        let space = position(msg, ' ');
        let name = msg.subrange(AGENT_PREFIX@.len() as int, space);
        if space < msg.len() {
            Some((name, msg.subrange(space + 1, msg.len() as int)))
        } else {
            Some((name, Seq::<char>::empty()))
        }
    } else if BASH_PREFIX@.is_prefix_of(msg) {
        Some((SYSTEM_AGENT@, msg.subrange(BASH_PREFIX@.len() as int, msg.len() as int)))
    } else if RUN_COMMAND_PREFIX@.is_prefix_of(msg) {
        Some((SYSTEM_AGENT@, msg.subrange(RUN_COMMAND_PREFIX@.len() as int, msg.len() as int)))
    } else {
        None
    }
}

/// Whether the text begins with the explicit marker or one of the shortcuts.
pub open spec fn names_tool(msg: Seq<char>) -> bool {
    AGENT_PREFIX@.is_prefix_of(msg) || BASH_PREFIX@.is_prefix_of(msg)
        || RUN_COMMAND_PREFIX@.is_prefix_of(msg)
}

/// The tool and argument that the classifier's verdict gives: the system
/// tool with the whole message, if the sender is the approved one and the
/// intent is `system`; else none.
pub open spec fn classified(
    msg: Seq<char>,
    user_id: Seq<char>,
    approved: Seq<char>,
    intent: Option<Seq<char>>,
) -> Option<(Seq<char>, Seq<char>)> {
    if user_id == approved && intent == Some(SYSTEM_INTENT@) {
        Some((SYSTEM_AGENT@, msg))
    } else {
        None
    }
}

/// The reply that a tool's result gives. A result that starts with the
/// image marker and has a second line loses its first line; any other
/// result is the reply as it stands. An error is reported in a fixed form.
pub open spec fn agent_reply(result: Result<Seq<char>, Seq<char>>) -> Seq<char> {
    match result {
        Ok(text) => {
            let end = position(text, '\n');
            if IMAGE_MARKER@.is_prefix_of(text) && end < text.len() {
                text.subrange(end + 1, text.len() as int)
            } else {
                text
            }
        },
        Err(error) => FAILURE_PREFIX@ + error,
    }
}

/// Why a tool gave no result.
#[derive(Debug)]
pub enum AgentError {
    /// No tool of that name is installed; `location` is where it was
    /// looked for.
    NotFound { agent_name: String, location: String },
    /// The tool could not be started.
    NotStarted,
    /// The tool ran and failed; `diagnostics` is what it wrote about it.
    Failed { diagnostics: String },
}

/// A text with a backslash put before each single quote.
pub open spec fn quote_escaped(text: Seq<char>) -> Seq<char>
    decreases text.len(),
{
    if text.len() == 0 {
        Seq::<char>::empty()
    } else if text.last() == '\'' {
        quote_escaped(text.drop_last()) + seq!['\\', '\'']
    } else {
        quote_escaped(text.drop_last()).push(text.last())
    }
}

/// The file that holds a tool.
pub open spec fn agent_file(agent_name: Seq<char>) -> Seq<char> {
    agent_name + ".py"@
}

/// The script that runs a tool on a query and prints what it returns.
pub open spec fn agent_script_text(agent_name: Seq<char>, query: Seq<char>) -> Seq<char> {
    "\nimport sys\nsys.path.insert(0, '.')\nfrom agents import "@ + agent_name
        + " as agent\nresult = agent.run('"@ + quote_escaped(query) + "')\nprint(result)\n"@
}

/// The description of an error, as it enters a reply.
pub open spec fn error_text(error: AgentError) -> Seq<char> {
    match error {
        AgentError::NotFound { agent_name, location } => "Agent '"@ + agent_name@
            + "' not found at "@ + location@,
        AgentError::NotStarted => "Failed to execute agent"@,
        AgentError::Failed { diagnostics } => "Agent execution failed: "@ + diagnostics@,
    }
}

/// What an explicit invocation names can be put together again: the
/// marker, the name, and, if the text has a space, that space and the
/// argument make up the text. The name holds no space.
pub proof fn lemma_explicit_invocation_parts(msg: Seq<char>)
    requires
        AGENT_PREFIX@.is_prefix_of(msg),
    ensures
        detected(msg).is_some(),
        !detected(msg).unwrap().0.contains(' '),
        msg.contains(' ') ==> msg == AGENT_PREFIX@ + detected(msg).unwrap().0 + seq![' ']
            + detected(msg).unwrap().1,
        !msg.contains(' ') ==> msg == AGENT_PREFIX@ + detected(msg).unwrap().0 && detected(
            msg,
        ).unwrap().1.len() == 0,
{
    reveal_strlit("agent:");
    lemma_position(msg, ' ');
    let space = position(msg, ' ');
    let marker = AGENT_PREFIX@;
    if space < marker.len() {
        assert(msg.subrange(0, marker.len() as int)[space] == marker[space]);
    }
    let name = msg.subrange(marker.len() as int, space);
    assert(msg.subrange(0, marker.len() as int) == marker);
    if name.contains(' ') {
        let k = choose|k: int| 0 <= k < name.len() && name[k] == ' ';
        assert(msg[marker.len() + k] == ' ');
    }
    if space < msg.len() {
        assert(msg.contains(' '));
        assert(msg =~= marker + name + seq![' '] + msg.subrange(space + 1, msg.len() as int));
    } else {
        assert(msg =~= marker + name);
    }
}

/// What a contract sees of an optional pair of texts.
pub open spec fn pair_view(r: Option<(String, String)>) -> Option<(Seq<char>, Seq<char>)> {
    match r {
        Some(pair) => Some((pair.0@, pair.1@)),
        None => None,
    }
}

/// What a contract sees of an optional text.
pub open spec fn text_view(r: Option<&str>) -> Option<Seq<char>> {
    match r {
        Some(t) => Some(t@),
        None => None,
    }
}

/// Routes messages to tools.
pub struct AgentManager {
    approval_user_id: String,
}

impl AgentManager {
    /// The sender whose messages may go to the classifier.
    pub closed spec fn approved(&self) -> Seq<char> {
        self.approval_user_id@
    }

    /// A manager for the given configuration.
    pub fn new(config: &Config) -> (m: AgentManager)
        ensures
            m.approved() == config.approval_user_id@,
    {
        AgentManager { approval_user_id: config.approval_user_id.clone() }
    }

    /// The tool and argument that the text names by itself, if any.
    pub fn detect_agent_invocation(&self, message: &str) -> (r: Option<(String, String)>)
        ensures
            pair_view(r) == detected(message@),
    {
        let msg = to_chars(message);
        let marker = to_chars(AGENT_PREFIX);
        if starts_with(&msg, &marker) {
            let space = find_char(&msg, ' ');
            proof {
                reveal_strlit("agent:");
                lemma_position(msg@, ' ');
                if space < marker.len() {
                    assert(msg@.subrange(0, marker@.len() as int)[space as int] == marker@[space as int]);
                }
            }
            let mut name = String::new();
            push_chars(&mut name, &msg, marker.len(), space);
            let mut query = String::new();
            if space < msg.len() {
                push_chars(&mut query, &msg, space + 1, msg.len());
            }
            return Some((name, query));
        }
        let bash = to_chars(BASH_PREFIX);
        if starts_with(&msg, &bash) {
            let mut query = String::new();
            push_chars(&mut query, &msg, bash.len(), msg.len());
            return Some((String::from_str(SYSTEM_AGENT), query));
        }
        let run = to_chars(RUN_COMMAND_PREFIX);
        if starts_with(&msg, &run) {
            let mut query = String::new();
            push_chars(&mut query, &msg, run.len(), msg.len());
            return Some((String::from_str(SYSTEM_AGENT), query));
        }
        None
    }

    /// Whether a message of this sender is handed to the classifier when
    /// its text names no tool: only the approved sender's is.
    pub fn may_classify(&self, user_id: &str) -> (b: bool)
        ensures
            b == (user_id@ == self.approved()),
    {
        same_text(user_id, self.approval_user_id.as_str())
    }

    /// The tool and argument that the classifier's verdict gives. `intent`
    /// is the normalized answer of the classifier, `None` if it failed.
    pub fn classify_and_maybe_invoke(&self, message: &str, user_id: &str, intent: Option<&str>) -> (r:
        Option<(String, String)>)
        ensures
            pair_view(r) == classified(message@, user_id@, self.approved(), text_view(intent)),
    {
        if !self.may_classify(user_id) {
            return None;
        }
        match intent {
            Some(i) => {
                if same_text(i, SYSTEM_INTENT) {
                    Some((String::from_str(SYSTEM_AGENT), String::from_str(message)))
                } else {
                    None
                }
            },
            None => None,
        }
    }
}

impl AgentError {
    /// The description of the error, as it enters a reply.
    pub fn message(&self) -> (r: String)
        ensures
            r@ == error_text(*self),
    {
        match self {
            AgentError::NotFound { agent_name, location } => {
                let mut r = String::from_str("Agent '");
                r.append(agent_name.as_str());
                r.append("' not found at ");
                r.append(location.as_str());
                r
            },
            AgentError::NotStarted => String::from_str("Failed to execute agent"),
            AgentError::Failed { diagnostics } => {
                let mut r = String::from_str("Agent execution failed: ");
                r.append(diagnostics.as_str());
                r
            },
        }
    }
}

/// The name of the file that holds a tool.
pub fn agent_file_name(agent_name: &str) -> (r: String)
    ensures
        r@ == agent_file(agent_name@),
{
    let mut r = String::from_str(agent_name);
    r.append(".py");
    r
}

/// The script that runs a tool on a query and prints what it returns. The
/// query stands between single quotes, each of its own single quotes after
/// a backslash.
pub fn agent_script(agent_name: &str, query: &str) -> (r: String)
    ensures
        r@ == agent_script_text(agent_name@, query@),
{
    let mut r = String::from_str("\nimport sys\nsys.path.insert(0, '.')\nfrom agents import ");
    r.append(agent_name);
    r.append(" as agent\nresult = agent.run('");
    let ghost head = r@;
    let chars = to_chars(query);
    let mut i: usize = 0;
    assert(chars@.take(0) =~= Seq::<char>::empty());
    while i < chars.len()
        invariant
            i <= chars.len(),
            r@ == head + quote_escaped(chars@.take(i as int)),
        decreases chars.len() - i,
    {
        proof {
            let next = chars@.take(i + 1);
            assert(next.drop_last() =~= chars@.take(i as int));
            assert(next.last() == chars@[i as int]);
        }
        let ghost before = r@;
        if chars[i] == '\'' {
            r.push('\\');
        }
        r.push(chars[i]);
        proof {
            let done = quote_escaped(chars@.take(i as int));
            if chars@[i as int] == '\'' {
                assert(r@ == head + (done + seq!['\\', '\'']));
            } else {
                assert(r@ == head + done.push(chars@[i as int]));
            }
        }
        i += 1;
    }
    assert(chars@.take(chars@.len() as int) =~= chars@);
    r.append("')\nprint(result)\n");
    r
}

/// What a finished tool run gives: what the tool printed, without the
/// white space around it, or the failure with what the tool wrote about it.
pub fn agent_outcome(success: bool, output: &str, diagnostics: &str) -> (r: Result<
    String,
    AgentError,
>)
    ensures
        success ==> r.is_ok() && r.unwrap()@ == trimmed(output@),
        !success ==> (r matches Err(AgentError::Failed { diagnostics: d }) && d@
            == diagnostics@),
{
    if success {
        Ok(String::from_str(trim(output)))
    } else {
        Err(AgentError::Failed { diagnostics: String::from_str(diagnostics) })
    }
}

/// Whether the text begins with the explicit marker or one of the shortcuts.
pub fn has_tool_prefix(message: &str) -> (b: bool)
    ensures
        b == names_tool(message@),
        b == detected(message@).is_some(),
{
    let msg = to_chars(message);
    let marker = to_chars(AGENT_PREFIX);
    let bash = to_chars(BASH_PREFIX);
    let run = to_chars(RUN_COMMAND_PREFIX);
    starts_with(&msg, &marker) || starts_with(&msg, &bash) || starts_with(&msg, &run)
}

/// The reply that a tool's result gives.
pub fn render_agent_result(result: Result<&str, &str>) -> (r: String)
    ensures
        r@ == agent_reply(
            match result {
                Ok(t) => Ok(t@),
                Err(e) => Err(e@),
            },
        ),
{
    match result {
        Ok(text) => {
            let chars = to_chars(text);
            let marker = to_chars(IMAGE_MARKER);
            let end = find_char(&chars, '\n');
            proof {
                lemma_position(chars@, '\n');
            }
            if starts_with(&chars, &marker) && end < chars.len() {
                let mut reply = String::new();
                push_chars(&mut reply, &chars, end + 1, chars.len());
                reply
            } else {
                String::from_str(text)
            }
        },
        Err(error) => {
            let mut reply = String::from_str(FAILURE_PREFIX);
            reply.append(error);
            reply
        },
    }
}

} // verus!
