use sel_core::config::Config;
use sel_core::hormones::HormoneState;
use sel_core::hormones::Sentiment;
use sel_core::memory::Memory;
use sel_core::orchestrator::derive_sentiment;
use sel_core::orchestrator::on_agent_result;
use sel_core::orchestrator::on_generated;
use sel_core::orchestrator::reply_or_fallback;
use sel_core::orchestrator::Action;
use sel_core::orchestrator::ChannelState;
use sel_core::orchestrator::InboundMessage;
use sel_core::orchestrator::Orchestrator;
use sel_core::orchestrator::TurnReply;
use sel_core::prompts::PERSONA;

fn config(whitelist: &[&str]) -> Config {
    Config {
        approval_user_id: String::from("42"),
        whitelist_channel_ids: whitelist.iter().map(|s| String::from(*s)).collect(),
        memory_recall_limit: 2,
        recent_context_limit: 4,
        decay_rate_per_hour: 50_000,
    }
}

fn inbound(channel: &str, user: &str, name: &str, text: &str) -> InboundMessage {
    InboundMessage {
        channel_id: String::from(channel),
        user_id: String::from(user),
        user_name: String::from(name),
        content: String::from(text),
        is_from_self: false,
    }
}

fn said(text: &str, is_novel: bool) -> TurnReply {
    TurnReply { text: String::from(text), is_novel }
}

fn turn(author: &str, text: &str, is_sel: bool) -> (String, String, bool) {
    (String::from(author), String::from(text), is_sel)
}

fn memory(summary: &str, timestamp: i64) -> Memory {
    Memory {
        summary: String::from(summary),
        content: String::from("c"),
        timestamp,
        salience: 30,
        stream_id: String::from("7"),
    }
}

fn run_agent_parts(action: Action) -> (String, String) {
    match action {
        Action::RunAgent { agent_name, query } => (agent_name, query),
        other => panic!("expected a tool run, got {:?}", other),
    }
}

fn retrieve_parts(action: Action) -> (String, String, usize) {
    match action {
        Action::Retrieve { stream_id, query, limit } => (stream_id, query, limit),
        other => panic!("expected a retrieval, got {:?}", other),
    }
}

#[test]
fn sentiment_checks_the_question_mark_first() {
    assert_eq!(derive_sentiment("really?!"), Sentiment::Question);
    assert_eq!(derive_sentiment("!?"), Sentiment::Question);
    assert_eq!(derive_sentiment("great!"), Sentiment::Positive);
    assert_eq!(derive_sentiment("fine."), Sentiment::Neutral);
    assert_eq!(derive_sentiment(""), Sentiment::Neutral);
}

#[test]
fn reply_is_the_models_answer_or_the_fallback() {
    assert_eq!(reply_or_fallback(Some(String::from("hello"))), "hello");
    assert_eq!(reply_or_fallback(Some(String::new())), "");
    assert_eq!(reply_or_fallback(None), "I'm having trouble thinking right now...");
}

#[test]
fn own_message_is_ignored_and_changes_nothing() {
    let mut o = Orchestrator::new(config(&[]));
    let mut msg = inbound("c1", "42", "sel", "agent:ping");
    msg.is_from_self = true;
    assert!(o.rejects(&msg));
    assert!(matches!(o.begin_turn(&msg, 100), Action::Ignore));
    assert!(o.get_recent_messages("c1").is_empty());
    assert!(o.finish_turn(&msg, &said("pong", true), 100).is_none());
    assert!(o.get_recent_messages("c1").is_empty());
    assert_eq!(o.get_or_create_channel_state("c1", 5).hormones, HormoneState::new(5));
}

#[test]
fn message_outside_the_whitelist_is_ignored() {
    let mut o = Orchestrator::new(config(&["c1", "c2"]));
    let msg = inbound("c3", "7", "eve", "hello");
    assert!(matches!(o.begin_turn(&msg, 100), Action::Ignore));
    assert!(o.finish_turn(&msg, &said("x", true), 100).is_none());
    assert!(o.get_recent_messages("c3").is_empty());
    let msg = inbound("c2", "7", "eve", "hello");
    assert!(!o.rejects(&msg));
    retrieve_parts(o.begin_turn(&msg, 100));
    assert_eq!(o.get_recent_messages("c2"), vec![turn("eve", "hello", false)]);
}

#[test]
fn plain_text_of_an_unapproved_sender_goes_to_the_memory_store() {
    let mut o = Orchestrator::new(config(&[]));
    let msg = inbound("c1", "7", "eve", "please check the disk");
    assert_eq!(
        retrieve_parts(o.begin_turn(&msg, 100)),
        (String::from("7"), String::from("please check the disk"), 2)
    );
    assert_eq!(
        retrieve_parts(o.on_classified(&msg, Some("system"))),
        (String::from("7"), String::from("please check the disk"), 2)
    );
}

#[test]
fn plain_text_of_the_approved_sender_goes_to_the_classifier() {
    let mut o = Orchestrator::new(config(&[]));
    let msg = inbound("c1", "42", "boss", "please check the disk");
    match o.begin_turn(&msg, 100) {
        Action::Classify { messages, max_tokens } => {
            assert_eq!(max_tokens, 10);
            assert_eq!(messages.len(), 2);
            assert_eq!(messages[0].role, "system");
            assert!(messages[0].content.starts_with("You are a message classifier."));
            assert_eq!(messages[1].role, "user");
            assert_eq!(messages[1].content, "please check the disk");
        }
        other => panic!("expected the classifier, got {:?}", other),
    }
}

#[test]
fn classifier_verdict_system_runs_the_system_tool_with_the_whole_message() {
    let o = Orchestrator::new(config(&[]));
    let msg = inbound("c1", "42", "boss", "please check the disk");
    assert_eq!(
        run_agent_parts(o.on_classified(&msg, Some("  System \n"))),
        (String::from("system_agent"), String::from("please check the disk"))
    );
    assert_eq!(
        run_agent_parts(o.route_classified(&msg, Some("system"))),
        (String::from("system_agent"), String::from("please check the disk"))
    );
}

#[test]
fn other_classifier_outcomes_go_to_the_memory_store() {
    let o = Orchestrator::new(config(&[]));
    let msg = inbound("c1", "42", "boss", "how are you");
    let want = (String::from("42"), String::from("how are you"), 2);
    assert_eq!(retrieve_parts(o.on_classified(&msg, Some("normal"))), want);
    assert_eq!(retrieve_parts(o.on_classified(&msg, Some("system please"))), want);
    assert_eq!(retrieve_parts(o.on_classified(&msg, None)), want);
    assert_eq!(retrieve_parts(o.route_classified(&msg, Some(" system"))), want);
}

#[test]
fn named_tool_runs_without_the_classifier_for_every_sender() {
    let mut o = Orchestrator::new(config(&[]));
    for user in ["42", "7"] {
        let msg = inbound("c1", user, "x", "agent:browser search cats");
        assert_eq!(
            run_agent_parts(o.begin_turn(&msg, 100)),
            (String::from("browser"), String::from("search cats"))
        );
        let msg = inbound("c1", user, "x", "run command df -h");
        assert_eq!(
            run_agent_parts(o.begin_turn(&msg, 100)),
            (String::from("system_agent"), String::from("df -h"))
        );
    }
}

#[test]
fn turn_of_an_explicit_tool_request_end_to_end() {
    let mut o = Orchestrator::new(config(&[]));
    let msg = inbound("c1", "42", "boss", "agent:system_agent check disk space");
    let (agent, query) = run_agent_parts(o.begin_turn(&msg, 1_000));
    assert_eq!(agent, "system_agent");
    assert_eq!(query, "check disk space");
    let reply = on_agent_result(Ok("Disk usage: 40%"));
    assert_eq!(reply.text, "Disk usage: 40%");
    assert!(reply.is_novel);
    let store = o.finish_turn(&msg, &reply, 1_000).unwrap();
    assert_eq!(
        o.get_recent_messages("c1"),
        vec![
            turn("boss", "agent:system_agent check disk space", false),
            turn("SEL", "Disk usage: 40%", true),
        ]
    );
    let state = o.get_or_create_channel_state("c1", 9_999).hormones;
    let mut want = HormoneState::new(1_000);
    want.novelty = 700_000;
    want.dopamine = 600_000;
    want.curiosity = 750_000;
    assert_eq!(state, want);
    assert_eq!(store.stream_id, "42");
    assert_eq!(
        store.content,
        "boss: agent:system_agent check disk space\nSEL: Disk usage: 40%"
    );
    assert_eq!(store.summary, "boss: agent:system_agent check disk space");
    assert_eq!(store.salience, 50);
}

#[test]
fn failed_tool_still_completes_the_turn() {
    let mut o = Orchestrator::new(config(&[]));
    let msg = inbound("c1", "7", "eve", "agent:nope");
    run_agent_parts(o.begin_turn(&msg, 10));
    let reply = on_agent_result(Err("Agent 'nope' not found"));
    assert!(reply.is_novel);
    assert!(o.finish_turn(&msg, &reply, 10).is_some());
    assert_eq!(
        o.get_recent_messages("c1"),
        vec![
            turn("eve", "agent:nope", false),
            turn("SEL", "\u{274c} Agent failed: Agent 'nope' not found", true),
        ]
    );
}

#[test]
fn context_has_system_blocks_then_history_then_the_current_turn() {
    let mut o = Orchestrator::new(config(&[]));
    let first = inbound("c1", "7", "eve", "hello!");
    retrieve_parts(o.begin_turn(&first, 0));
    o.finish_turn(&first, &said("hi eve", true), 0).unwrap();
    let second = inbound("c1", "8", "dan", "what did I miss?");
    retrieve_parts(o.begin_turn(&second, 0));
    let retrieved = Some(vec![memory("eve: likes tea", -7_200)]);
    let g = o.on_memories(&second, &retrieved, "[PRESENCE]", 0);
    assert_eq!(g.max_tokens, 1000);
    assert!(!g.is_novel);
    let got: Vec<(&str, &str)> =
        g.messages.iter().map(|m| (m.role.as_str(), m.content.as_str())).collect();
    let state = o.get_or_create_channel_state("c1", 0).hormones.format_for_prompt();
    assert_eq!(
        got,
        vec![
            ("system", PERSONA),
            ("system", state.as_str()),
            ("system", "[TIME]\nCurrent time: Thursday, January 01, 1970 at 12:00 AM UTC\n[/TIME]"),
            ("system", "[PRESENCE]"),
            ("system", "[RELEVANT MEMORIES]\n1. [2h ago] eve: likes tea\n[/RELEVANT MEMORIES]\n"),
            ("user", "eve: hello!"),
            ("assistant", "hi eve"),
            ("user", "dan: what did I miss?"),
            ("user", "dan: what did I miss?"),
        ]
    );
}

#[test]
fn failed_retrieval_gives_the_context_of_no_memory() {
    let mut o = Orchestrator::new(config(&[]));
    let msg = inbound("c1", "7", "eve", "hello");
    retrieve_parts(o.begin_turn(&msg, 50));
    let failed = o.on_memories(&msg, &None, "", 50);
    let empty = o.on_memories(&msg, &Some(Vec::new()), "", 50);
    assert!(failed.is_novel);
    assert!(empty.is_novel);
    assert_eq!(failed.max_tokens, empty.max_tokens);
    let a: Vec<(&str, &str)> =
        failed.messages.iter().map(|m| (m.role.as_str(), m.content.as_str())).collect();
    let b: Vec<(&str, &str)> =
        empty.messages.iter().map(|m| (m.role.as_str(), m.content.as_str())).collect();
    assert_eq!(a, b);
    assert_eq!(a.len(), 5);
    assert_eq!(a[3], ("user", "eve: hello"));
    assert_eq!(a[4], ("user", "eve: hello"));
    let reply = on_generated(failed.is_novel, Some(String::from("hello eve")));
    assert!(reply.is_novel);
    assert!(o.finish_turn(&msg, &reply, 50).is_some());
    assert_eq!(
        o.get_recent_messages("c1"),
        vec![turn("eve", "hello", false), turn("SEL", "hello eve", true)]
    );
}

#[test]
fn failed_model_gives_the_fallback_and_completes_the_turn() {
    let mut o = Orchestrator::new(config(&[]));
    let msg = inbound("c1", "7", "eve", "hello?");
    retrieve_parts(o.begin_turn(&msg, 50));
    let g = o.on_memories(&msg, &Some(vec![memory("m", 0)]), "", 50);
    let reply = on_generated(g.is_novel, None);
    assert!(!reply.is_novel);
    let store = o.finish_turn(&msg, &reply, 50).unwrap();
    assert_eq!(store.content, "eve: hello?\nSEL: I'm having trouble thinking right now...");
    assert_eq!(store.salience, 40);
    let state = o.get_or_create_channel_state("c1", 50).hormones;
    let mut want = HormoneState::new(50);
    want.curiosity = 700_000;
    want.dopamine = 550_000;
    assert_eq!(state, want);
}

#[test]
fn memories_beyond_the_recall_limit_stay_out_of_the_context() {
    let mut o = Orchestrator::new(config(&[]));
    let msg = inbound("c1", "7", "eve", "hello");
    retrieve_parts(o.begin_turn(&msg, 0));
    let retrieved = Some(vec![memory("a", 0), memory("b", 0), memory("c", 0)]);
    let g = o.on_memories(&msg, &retrieved, "", 0);
    assert_eq!(
        g.messages[3].content,
        "[RELEVANT MEMORIES]\n1. [0m ago] a\n2. [0m ago] b\n[/RELEVANT MEMORIES]\n"
    );
}

#[test]
fn conversations_are_kept_apart() {
    let mut o = Orchestrator::new(config(&[]));
    let a = inbound("c1", "7", "eve", "in one");
    let b = inbound("c2", "7", "eve", "in two!");
    retrieve_parts(o.begin_turn(&a, 10));
    retrieve_parts(o.begin_turn(&b, 20));
    o.finish_turn(&b, &said("reply two", false), 20).unwrap();
    assert_eq!(o.get_recent_messages("c1"), vec![turn("eve", "in one", false)]);
    assert_eq!(
        o.get_recent_messages("c2"),
        vec![turn("eve", "in two!", false), turn("SEL", "reply two", true)]
    );
    assert_eq!(o.get_or_create_channel_state("c1", 0).hormones, HormoneState::new(10));
    let mut want = HormoneState::new(20);
    want.dopamine = 600_000;
    want.serotonin = 650_000;
    want.oxytocin = 600_000;
    want.cortisol = 200_000;
    assert_eq!(o.get_or_create_channel_state("c2", 0).hormones, want);
    assert!(o.get_recent_messages("c3").is_empty());
}

#[test]
fn transcript_of_a_conversation_is_cut_to_the_limit() {
    let mut o = Orchestrator::new(config(&[]));
    for n in 0..5 {
        let msg = inbound("c1", "7", "eve", &format!("m{}", n));
        retrieve_parts(o.begin_turn(&msg, n));
        o.finish_turn(&msg, &said(&format!("r{}", n), true), n).unwrap();
    }
    assert_eq!(
        o.get_recent_messages("c1"),
        vec![
            turn("eve", "m3", false),
            turn("SEL", "r3", true),
            turn("eve", "m4", false),
            turn("SEL", "r4", true),
        ]
    );
}

#[test]
fn begin_turn_decays_the_state_to_now() {
    let mut o = Orchestrator::new(config(&[]));
    let mut state = HormoneState::new(1_000);
    state.dopamine = 900_000;
    state.cortisol = 0;
    o.update_channel_state("c1", ChannelState { hormones: state });
    let msg = inbound("c1", "7", "eve", "hello");
    retrieve_parts(o.begin_turn(&msg, 4_600));
    let got = o.get_or_create_channel_state("c1", 0).hormones;
    assert_eq!(got.dopamine, 880_492);
    assert_eq!(got.cortisol, 14_631);
    assert_eq!(got.last_updated, 4_600);
}

#[test]
fn channel_state_is_created_once_and_can_be_replaced() {
    let mut o = Orchestrator::new(config(&[]));
    assert_eq!(o.get_or_create_channel_state("c1", 5).hormones, HormoneState::new(5));
    assert_eq!(o.get_or_create_channel_state("c1", 9).hormones, HormoneState::new(5));
    o.update_channel_state("c1", ChannelState { hormones: HormoneState::new(77) });
    assert_eq!(o.get_or_create_channel_state("c1", 9).hormones, HormoneState::new(77));
    o.update_channel_state("c2", ChannelState { hormones: HormoneState::new(1) });
    assert_eq!(o.get_or_create_channel_state("c2", 9).hormones, HormoneState::new(1));
    assert_eq!(o.get_or_create_channel_state("c1", 9).hormones, HormoneState::new(77));
}

#[test]
fn add_to_history_appends_and_cuts() {
    let mut o = Orchestrator::new(config(&[]));
    for n in 0..6 {
        o.add_to_history("c1", format!("a{}", n), format!("t{}", n), n % 2 == 0);
    }
    assert_eq!(
        o.get_recent_messages("c1"),
        vec![turn("a2", "t2", true), turn("a3", "t3", false), turn("a4", "t4", true), turn("a5", "t5", false)]
    );
}
