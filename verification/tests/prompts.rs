use sel_core::hormones::HormoneState;
use sel_core::llm_client::Message;
use sel_core::prompts::build_conversation_messages;
use sel_core::prompts::build_system_prompt;
use sel_core::prompts::system_prompt_with_time;
use sel_core::prompts::user_turn;
use sel_core::prompts::PERSONA;

fn pairs(messages: &[Message]) -> Vec<(String, String)> {
    messages.iter().map(|m| (m.role.clone(), m.content.clone())).collect()
}

#[test]
fn persona_opens_and_closes_as_expected() {
    assert!(PERSONA.starts_with("You are SEL, a genuine AI presence in Discord conversations.\n\nCore traits:\n"));
    assert!(PERSONA.ends_with("\n\nTo use a tool, respond with: agent:name query here"));
    assert_eq!(PERSONA.chars().count(), 1471);
}

#[test]
fn system_prompt_has_persona_state_and_time() {
    let h = HormoneState::new(0);
    let messages = build_system_prompt(&h, "", "", 0);
    assert_eq!(messages.len(), 3);
    for m in &messages {
        assert_eq!(m.role, "system");
    }
    assert_eq!(messages[0].content, PERSONA);
    assert_eq!(messages[1].content, h.format_for_prompt());
    assert_eq!(
        messages[2].content,
        "[TIME]\nCurrent time: Thursday, January 01, 1970 at 12:00 AM UTC\n[/TIME]"
    );
}

#[test]
fn time_is_formatted_on_a_twelve_hour_clock() {
    let h = HormoneState::new(0);
    let messages = build_system_prompt(&h, "", "", 1_700_000_000);
    assert_eq!(
        messages[2].content,
        "[TIME]\nCurrent time: Tuesday, November 14, 2023 at 10:13 PM UTC\n[/TIME]"
    );
    let messages = build_system_prompt(&h, "", "", 951_825_600);
    assert_eq!(
        messages[2].content,
        "[TIME]\nCurrent time: Tuesday, February 29, 2000 at 12:00 PM UTC\n[/TIME]"
    );
}

#[test]
fn time_block_is_left_out_when_the_time_has_no_text() {
    let h = HormoneState::new(0);
    let messages = build_system_prompt(&h, "p", "m", i64::MAX);
    assert_eq!(messages.len(), 4);
    assert_eq!(messages[2].content, "p");
    assert_eq!(messages[3].content, "m");
}

#[test]
fn presence_and_memory_blocks_follow_in_that_order() {
    let h = HormoneState::new(0);
    let messages = build_system_prompt(&h, "[PRESENCE]", "[MEMORIES]", 0);
    assert_eq!(messages.len(), 5);
    assert_eq!(messages[3].content, "[PRESENCE]");
    assert_eq!(messages[4].content, "[MEMORIES]");
    let messages = build_system_prompt(&h, "", "[MEMORIES]", 0);
    assert_eq!(messages.len(), 4);
    assert_eq!(messages[3].content, "[MEMORIES]");
    let messages = build_system_prompt(&h, "[PRESENCE]", "", 0);
    assert_eq!(messages.len(), 4);
    assert_eq!(messages[3].content, "[PRESENCE]");
}

#[test]
fn system_prompt_with_a_given_time_text() {
    let h = HormoneState::new(0);
    let messages = system_prompt_with_time(&h, "", "", Some("noon"));
    assert_eq!(messages.len(), 3);
    assert_eq!(messages[2].content, "[TIME]\nCurrent time: noon\n[/TIME]");
    let messages = system_prompt_with_time(&h, "", "", None);
    assert_eq!(messages.len(), 2);
    let messages = system_prompt_with_time(&h, "", "", Some(""));
    assert_eq!(messages[2].content, "[TIME]\nCurrent time: \n[/TIME]");
}

#[test]
fn conversation_follows_the_system_blocks_in_order() {
    let system = vec![Message::system(String::from("one")), Message::system(String::from("two"))];
    let recent = vec![
        (String::from("alice"), String::from("hello"), false),
        (String::from("SEL"), String::from("hi alice"), true),
        (String::from("bob"), String::from("and me?"), false),
    ];
    let messages = build_conversation_messages(system, recent);
    assert_eq!(
        pairs(&messages),
        vec![
            (String::from("system"), String::from("one")),
            (String::from("system"), String::from("two")),
            (String::from("user"), String::from("alice: hello")),
            (String::from("assistant"), String::from("hi alice")),
            (String::from("user"), String::from("bob: and me?")),
        ]
    );
}

#[test]
fn conversation_without_history_is_the_system_blocks() {
    let system = vec![Message::system(String::from("one"))];
    let messages = build_conversation_messages(system, Vec::new());
    assert_eq!(pairs(&messages), vec![(String::from("system"), String::from("one"))]);
    assert!(build_conversation_messages(Vec::new(), Vec::new()).is_empty());
}

#[test]
fn current_turn_names_its_author() {
    let m = user_turn("alice", "what's up?");
    assert_eq!(m.role, "user");
    assert_eq!(m.content, "alice: what's up?");
}
