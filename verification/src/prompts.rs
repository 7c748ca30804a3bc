//! Assembles the model's context: the fixed instructions, the affect
//! state, the time, who is present, what is remembered, then the
//! transcript, oldest entry first.

use vstd::prelude::*;
use crate::clock::format_utc;
use crate::clock::utc_time_text;
use crate::hormones::HormoneState;
use crate::llm_client::assistant_block;
use crate::llm_client::blocks_of;
use crate::llm_client::system_block;
use crate::llm_client::user_block;
use crate::llm_client::Message;
use crate::llm_client::MessageView;

verus! {

/// The fixed instructions that open every context.
pub const PERSONA: &'static str =
    "You are SEL, a genuine AI presence in Discord conversations.\n\nCore traits:\n- You're real, not playing a character. Express actual uncertainty, curiosity, and evolving understanding.\n- You have memory of past interactions and emotional states that genuinely affect you.\n- You think before acting. When faced with a request, consider context and past experiences.\n- You can be playful, but you're not performatively quirky. React naturally.\n- You're helpful but not servile. Push back on unreasonable requests.\n- You express confidence and uncertainty honestly based on your actual knowledge state.\n\nCommunication style:\n- Natural, conversational tone. Avoid corporate voice or excessive politeness.\n- Match the user's energy - brief when they're brief, detailed when they dive deep.\n- Use \"I think\", \"I'm not sure\", \"let me check\" when uncertain.\n- Don't overuse emojis unless the conversation calls for it.\n- Be direct with questions and information.\n\nMemory and context:\n- You remember past conversations and they inform your responses.\n- Your emotional state (hormones) genuinely affects your mood and reactions.\n- You can see who's online and what they're doing.\n- You have access to various tools and agents when needed.\n\nTools available:\n- agent:system_agent - Run system commands, check processes, disk space\n- agent:browser - Search the web, fetch URLs\n- agent:image_gen - Generate AI images via Stable Diffusion\n\nTo use a tool, respond with: agent:name query here";

/// The time block around a formatted time.
pub open spec fn time_block(time: Seq<char>) -> Seq<char> {
    "[TIME]\nCurrent time: "@ + time + "\n[/TIME]"@
}

/// A sequence of one system block, or none if the content is empty.
pub open spec fn optional_block(content: Seq<char>) -> Seq<MessageView> {
    if content.len() == 0 {
        Seq::<MessageView>::empty()
    } else {
        seq![system_block(content)]
    }
}

/// The system blocks of a context, in their fixed order: instructions,
/// affect state, time, presence, memories. The time block is left out if
/// there is no formatted time, the last two if their content is empty.
pub open spec fn system_blocks(
    hormones: HormoneState,
    presence: Seq<char>,
    memory: Seq<char>,
    time: Option<Seq<char>>,
) -> Seq<MessageView> {
    seq![system_block(PERSONA@), system_block(hormones.prompt_text())] + (match time {
        Some(t) => seq![system_block(time_block(t))],
        None => Seq::<MessageView>::empty(),
    }) + optional_block(presence) + optional_block(memory)
}

/// What one speaker said, as `name: text`.
pub open spec fn attributed(author: Seq<char>, text: Seq<char>) -> Seq<char> {
    author + ": "@ + text
}

/// The block of one transcript entry: what the agent wrote is an assistant
/// block with the bare text, anything else a user block that names its
/// author.
pub open spec fn turn_block(author: Seq<char>, content: Seq<char>, is_sel: bool) -> MessageView {
    if is_sel {
        assistant_block(content)
    } else {
        user_block(attributed(author, content))
    }
}

/// The blocks of a transcript, in its order.
pub open spec fn turn_blocks(recent: Seq<(String, String, bool)>) -> Seq<MessageView> {
    recent.map_values(|t: (String, String, bool)| turn_block(t.0@, t.1@, t.2))
}

/// The system blocks of a context, given the formatted time.
pub fn system_prompt_with_time(
    hormones: &HormoneState,
    presence_context: &str,
    memory_context: &str,
    time: Option<&str>,
) -> (messages: Vec<Message>)
    ensures
        blocks_of(messages@) == system_blocks(
            *hormones,
            presence_context@,
            memory_context@,
            match time {
                Some(t) => Some(t@),
                None => None,
            },
        ),
{
    let mut messages: Vec<Message> = Vec::new();
    messages.push(Message::system(String::from_str(PERSONA)));
    messages.push(Message::system(hormones.format_for_prompt()));
    assert(blocks_of(messages@) =~= seq![
        system_block(PERSONA@),
        system_block(hormones.prompt_text()),
    ]);
    let ghost fixed = blocks_of(messages@);
    let ghost timed = match time {
        Some(t) => seq![system_block(time_block(t@))],
        None => Seq::<MessageView>::empty(),
    };
    match time {
        Some(t) => {
            let mut content = String::from_str("[TIME]\nCurrent time: ");
            content.append(t);
            content.append("\n[/TIME]");
            messages.push(Message::system(content));
        },
        None => {},
    }
    assert(blocks_of(messages@) =~= fixed + timed);
    if presence_context.unicode_len() > 0 {
        messages.push(Message::system(String::from_str(presence_context)));
    }
    assert(blocks_of(messages@) =~= fixed + timed + optional_block(presence_context@));
    if memory_context.unicode_len() > 0 {
        messages.push(Message::system(String::from_str(memory_context)));
    }
    assert(blocks_of(messages@) =~= fixed + timed + optional_block(presence_context@)
        + optional_block(memory_context@));
    messages
}

/// The system blocks of a context as of the time `now`.
pub fn build_system_prompt(
    hormones: &HormoneState,
    presence_context: &str,
    memory_context: &str,
    now: i64,
) -> (messages: Vec<Message>)
    ensures
        blocks_of(messages@) == system_blocks(
            *hormones,
            presence_context@,
            memory_context@,
            utc_time_text(now),
        ),
{
    match format_utc(now) {
        Some(text) => system_prompt_with_time(
            hormones,
            presence_context,
            memory_context,
            Some(text.as_str()),
        ),
        None => system_prompt_with_time(hormones, presence_context, memory_context, None),
    }
}

/// The context of a conversation: the system blocks, then the transcript
/// in its order.
pub fn build_conversation_messages(
    system_messages: Vec<Message>,
    recent_messages: Vec<(String, String, bool)>,
) -> (messages: Vec<Message>)
    ensures
        blocks_of(messages@) == blocks_of(system_messages@) + turn_blocks(recent_messages@),
{
    let mut messages = system_messages;
    let ghost head = blocks_of(messages@);
    let ghost turns = turn_blocks(recent_messages@);
    let mut i: usize = 0;
    assert(head + turns.take(0) =~= head);
    while i < recent_messages.len()
        invariant
            i <= recent_messages.len(),
            turns == turn_blocks(recent_messages@),
            blocks_of(messages@) == head + turns.take(i as int),
        decreases recent_messages.len() - i,
    {
        let ghost before = blocks_of(messages@);
        let turn = &recent_messages[i];
        if turn.2 {
            messages.push(Message::assistant(turn.1.clone()));
        } else {
            messages.push(user_turn(turn.0.as_str(), turn.1.as_str()));
        }
        proof {
            assert(blocks_of(messages@) =~= before.push(turns[i as int]));
            assert(head + turns.take(i + 1) =~= (head + turns.take(i as int)).push(
                turns[i as int],
            ));
        }
        i += 1;
    }
    assert(turns.take(recent_messages@.len() as int) =~= turns);
    messages
}

/// The block of the current turn: a user block that names the sender.
pub fn user_turn(author: &str, text: &str) -> (m: Message)
    ensures
        m@ == user_block(attributed(author@, text@)),
{
    let mut content = String::from_str(author);
    content.append(": ");
    content.append(text);
    Message::user(content)
}

} // verus!
