//! The engine of a conversation: what is done with one inbound message.
//!
//! A turn is a short exchange between the engine and its caller. The
//! engine decides, the caller performs what was decided (it asks the
//! classifier, runs a tool, queries the memory store, asks the language
//! model) and hands the outcome back:
//!
//! 1. `begin_turn` rejects the message or records it, and says what to do.
//! 2. `on_classified` turns the classifier's answer into the next action.
//! 3. `on_agent_result` makes the reply of a tool's result; or
//!    `on_memories` assembles the model's context, and `on_generated`
//!    makes the reply of the model's answer.
//! 4. `finish_turn` records the reply, updates the affect state and
//!    returns what is to be stored of the exchange.
//!
//! The state of a conversation is its affect state and its transcript; the
//! engine keeps both by conversation id.

use vstd::prelude::*;
use crate::agents::classified;
use crate::agents::detected;
use crate::agents::agent_reply;
use crate::agents::render_agent_result;
use crate::agents::text_view;
use crate::agents::AgentManager;
use crate::clock::utc_time_text;
use crate::config::Config;
use crate::history::lemma_suffix_push;
use crate::history::suffix;
use crate::history::HistoryBuffer;
use crate::history::HistoryEntry;
use crate::hormones::HormoneState;
use crate::hormones::Sentiment;
use crate::llm_client::blocks_of;
use crate::llm_client::classifier_messages;
use crate::llm_client::intent_of;
use crate::llm_client::normalize_intent;
use crate::llm_client::system_block;
use crate::llm_client::user_block;
use crate::llm_client::Message;
use crate::llm_client::MessageView;
use crate::llm_client::CLASSIFIER_MAX_TOKENS;
use crate::llm_client::CLASSIFIER_PROMPT;
use crate::llm_client::REPLY_MAX_TOKENS;
use crate::memory::content_text;
use crate::memory::memories_text;
use crate::memory::salience_score;
use crate::memory::summary_text;
use crate::memory::Memory;
use crate::memory::MemoryManager;
use crate::memory::StoreRequest;
use crate::prompts::attributed;
use crate::prompts::build_conversation_messages;
use crate::prompts::build_system_prompt;
use crate::prompts::system_blocks;
use crate::prompts::turn_block;
use crate::prompts::turn_blocks;
use crate::prompts::user_turn;
use crate::text::contains_char;
use crate::text::lemma_position;
use crate::text::lemma_position_is;
use crate::text::lowercase_of;
use crate::text::position;
use crate::text::same_text;

verus! {

/// The name under which the agent's replies enter a transcript.
pub const AGENT_NAME: &'static str = "SEL";

/// The reply when the language model gave none.
pub const FALLBACK_REPLY: &'static str = "I'm having trouble thinking right now...";

/// The affect state kept for one conversation.
#[derive(Clone, Copy, Debug)]
pub struct ChannelState {
    pub hormones: HormoneState,
}

/// One message as the transport delivers it.
#[derive(Debug)]
pub struct InboundMessage {
    /// The conversation that the message belongs to.
    pub channel_id: String,
    pub user_id: String,
    pub user_name: String,
    pub content: String,
    /// Whether the agent itself sent the message.
    pub is_from_self: bool,
}

/// What a contract sees of an `InboundMessage`.
pub struct InboundView {
    pub channel_id: Seq<char>,
    pub user_id: Seq<char>,
    pub user_name: Seq<char>,
    pub content: Seq<char>,
    pub is_from_self: bool,
}

impl View for InboundMessage {
    type V = InboundView;

    open spec fn view(&self) -> InboundView {
        InboundView {
            channel_id: self.channel_id@,
            user_id: self.user_id@,
            user_name: self.user_name@,
            content: self.content@,
            is_from_self: self.is_from_self,
        }
    }
}

/// What the caller is to do next.
#[derive(Debug)]
pub enum Action {
    /// Nothing: the message is not served, and nothing was changed.
    Ignore,
    /// Ask the classifier, then call `on_classified`.
    Classify { messages: Vec<Message>, max_tokens: u32 },
    /// Run the tool, then call `on_agent_result` and `finish_turn`.
    RunAgent { agent_name: String, query: String },
    /// Query the memory store, then call `on_memories`.
    Retrieve { stream_id: String, query: String, limit: usize },
}

/// What a contract sees of an `Action`.
pub enum ActionView {
    Ignore,
    Classify { messages: Seq<MessageView>, max_tokens: u32 },
    RunAgent { agent_name: Seq<char>, query: Seq<char> },
    Retrieve { stream_id: Seq<char>, query: Seq<char>, limit: usize },
}

impl View for Action {
    type V = ActionView;

    open spec fn view(&self) -> ActionView {
        match self {
            Action::Ignore => ActionView::Ignore,
            Action::Classify { messages, max_tokens } => ActionView::Classify {
                messages: blocks_of(messages@),
                max_tokens: *max_tokens,
            },
            Action::RunAgent { agent_name, query } => ActionView::RunAgent {
                agent_name: agent_name@,
                query: query@,
            },
            Action::Retrieve { stream_id, query, limit } => ActionView::Retrieve {
                stream_id: stream_id@,
                query: query@,
                limit: *limit,
            },
        }
    }
}

/// What is asked of the language model, and whether the exchange counts as
/// novel: it does if no memory was found.
#[derive(Debug)]
pub struct Generation {
    pub messages: Vec<Message>,
    pub max_tokens: u32,
    pub is_novel: bool,
}

/// The reply of a turn, and whether the exchange counts as novel.
#[derive(Debug)]
pub struct TurnReply {
    pub text: String,
    pub is_novel: bool,
}

/// Whether a message is not served: the agent's own, or one of a
/// conversation that the whitelist does not admit.
pub open spec fn rejected(config: Config, msg: InboundView) -> bool {
    msg.is_from_self || !config.admits(msg.channel_id)
}

/// The action that a tool request gives, or the query of the memory store
/// if there is none.
pub open spec fn tool_or_retrieve(
    config: Config,
    msg: InboundView,
    tool: Option<(Seq<char>, Seq<char>)>,
) -> ActionView {
    match tool {
        Some(pair) => ActionView::RunAgent { agent_name: pair.0, query: pair.1 },
        None => ActionView::Retrieve {
            stream_id: msg.user_id,
            query: msg.content,
            limit: config.memory_recall_limit,
        },
    }
}

/// The first action of a turn. A message that is not served is ignored. A
/// text that names a tool runs it. Any other text goes to the classifier
/// if the approved sender wrote it, and to the memory store if not.
pub open spec fn first_action(config: Config, msg: InboundView) -> ActionView {
    if rejected(config, msg) {
        ActionView::Ignore
    } else if detected(msg.content).is_some() {
        tool_or_retrieve(config, msg, detected(msg.content))
    } else if msg.user_id == config.approval_user_id@ {
        ActionView::Classify {
            messages: seq![system_block(CLASSIFIER_PROMPT@), user_block(msg.content)],
            max_tokens: CLASSIFIER_MAX_TOKENS,
        }
    } else {
        tool_or_retrieve(config, msg, None)
    }
}

/// The action after the classifier: the system tool with the whole
/// message if the normalized intent is `system` and the approved sender
/// wrote the message; the memory store in every other case, a failed
/// classifier (`intent` is `None`) among them.
pub open spec fn action_after_classifier(
    config: Config,
    msg: InboundView,
    intent: Option<Seq<char>>,
) -> ActionView {
    tool_or_retrieve(
        config,
        msg,
        classified(msg.content, msg.user_id, config.approval_user_id@, intent),
    )
}

/// The sentiment of a text: a question if it holds a question mark, else
/// positive if it holds an exclamation mark, else neutral.
pub open spec fn sentiment_of(text: Seq<char>) -> Sentiment {
    if text.contains('?') {
        Sentiment::Question
    } else if text.contains('!') {
        Sentiment::Positive
    } else {
        Sentiment::Neutral
    }
}

/// The affect state of a conversation, or that of a new one.
pub open spec fn state_or_fresh(states: Map<Seq<char>, HormoneState>, id: Seq<char>, now: i64)
    -> HormoneState {
    if states.contains_key(id) {
        states[id]
    } else {
        HormoneState::initial(now)
    }
}

/// The transcript of a conversation, or an empty one.
pub open spec fn history_or_empty(histories: Map<Seq<char>, Seq<HistoryEntry>>, id: Seq<char>)
    -> Seq<HistoryEntry> {
    if histories.contains_key(id) {
        histories[id]
    } else {
        Seq::<HistoryEntry>::empty()
    }
}

/// The memories of a retrieval; a failed retrieval has none.
pub open spec fn found(retrieved: Option<Vec<Memory>>) -> Seq<Memory> {
    match retrieved {
        Some(memories) => memories@,
        None => Seq::<Memory>::empty(),
    }
}

/// The blocks of a transcript, in its order.
pub open spec fn history_blocks(history: Seq<HistoryEntry>) -> Seq<MessageView> {
    history.map_values(|e: HistoryEntry| turn_block(e.author, e.content, e.is_sel))
}

/// The context of a turn: the system blocks, the transcript, then the
/// current message.
pub open spec fn context_blocks(
    hormones: HormoneState,
    history: Seq<HistoryEntry>,
    msg: InboundView,
    presence: Seq<char>,
    memories: Seq<Memory>,
    limit: nat,
    now: i64,
) -> Seq<MessageView> {
    system_blocks(
        hormones,
        presence,
        memories_text(memories, now as int, limit),
        utc_time_text(now),
    ) + history_blocks(history) + seq![user_block(attributed(msg.user_name, msg.content))]
}

/// The keys of a table, in its order.
spec fn keys_of<V>(entries: Seq<(String, V)>) -> Seq<Seq<char>> {
    entries.map_values(|e: (String, V)| e.0@)
}

/// The index of the entry that a key stands for: the first with that key,
/// or the length if there is none.
spec fn slot_of<V>(entries: Seq<(String, V)>, key: Seq<char>) -> int {
    position(keys_of(entries), key)
}

/// What a table holds, by key: for each key the value of its entry, as
/// `f` shows it.
spec fn table_view<V, W>(entries: Seq<(String, V)>, f: spec_fn(V) -> W) -> Map<
    Seq<char>,
    W,
> {
    Map::new(
        |k: Seq<char>| slot_of(entries, k) < entries.len(),
        |k: Seq<char>| f(entries[slot_of(entries, k)].1),
    )
}

/// The affect states of a table, by conversation id.
spec fn states_of(entries: Seq<(String, ChannelState)>) -> Map<Seq<char>, HormoneState> {
    table_view(entries, |s: ChannelState| s.hormones)
}

/// The transcripts of a table, by conversation id.
spec fn histories_of(entries: Seq<(String, HistoryBuffer)>) -> Map<
    Seq<char>,
    Seq<HistoryEntry>,
> {
    table_view(entries, |h: HistoryBuffer| h@)
}

/// The index of the entry that a key stands for.
fn find_slot<V>(entries: &Vec<(String, V)>, key: &str) -> (i: usize)
    ensures
        i as int == slot_of(entries@, key@),
        i <= entries@.len(),
        i < entries@.len() ==> entries@[i as int].0@ == key@,
{
    let ghost keys = keys_of(entries@);
    let mut i: usize = 0;
    while i < entries.len() && !same_text(entries[i].0.as_str(), key)
        invariant
            i <= entries.len(),
            keys == keys_of(entries@),
            forall|j: int| 0 <= j < i ==> keys[j] != key@,
        decreases entries.len() - i,
    {
        i += 1;
    }
    proof {
        lemma_position_is(keys, key@, i as int);
    }
    i
}

/// Where a key is found after an entry was added at the end.
proof fn lemma_slot_after_push<V>(entries: Seq<(String, V)>, added: (String, V), key: Seq<char>)
    ensures
        0 <= slot_of(entries, key) <= entries.len(),
        slot_of(entries.push(added), key) == (if slot_of(entries, key) < entries.len() {
            slot_of(entries, key)
        } else if added.0@ == key {
            entries.len() as int
        } else {
            entries.len() as int + 1
        }),
{
    let keys = keys_of(entries);
    let more = keys_of(entries.push(added));
    assert(more =~= keys.push(added.0@));
    lemma_position(keys, key);
    let p = position(keys, key);
    if p < keys.len() {
        lemma_position_is(more, key, p);
    } else if added.0@ == key {
        lemma_position_is(more, key, keys.len() as int);
    } else {
        lemma_position_is(more, key, keys.len() as int + 1);
    }
}

/// A table whose keys are unchanged finds every key where it found it.
proof fn lemma_slot_same_keys<V>(before: Seq<(String, V)>, after: Seq<(String, V)>, key: Seq<char>)
    requires
        before.len() == after.len(),
        forall|j: int| 0 <= j < before.len() ==> (#[trigger] before[j]).0@ == after[j].0@,
    ensures
        slot_of(after, key) == slot_of(before, key),
        0 <= slot_of(before, key) <= before.len(),
        slot_of(before, key) < before.len() ==> before[slot_of(before, key)].0@ == key,
{
    assert forall|j: int| 0 <= j < before.len() implies keys_of(before)[j] == keys_of(after)[j] by {
        assert(before[j].0@ == after[j].0@);
    }
    assert(keys_of(before) =~= keys_of(after));
    lemma_position(keys_of(before), key);
}

/// A table with no entry holds nothing.
proof fn lemma_table_empty<V, W>(entries: Seq<(String, V)>, f: spec_fn(V) -> W)
    requires
        entries.len() == 0,
    ensures
        table_view(entries, f) == Map::<Seq<char>, W>::empty(),
{
    let m = table_view(entries, f);
    assert forall|k: Seq<char>| !m.dom().contains(k) by {
        lemma_position(keys_of(entries), k);
    }
    assert(m =~= Map::<Seq<char>, W>::empty());
}

/// Adding an entry at the end under a key that the table lacks inserts it.
proof fn lemma_table_push<V, W>(entries: Seq<(String, V)>, added: (String, V), f: spec_fn(V) -> W)
    requires
        slot_of(entries, added.0@) == entries.len(),
    ensures
        table_view(entries.push(added), f) == table_view(entries, f).insert(added.0@, f(added.1)),
{
    let m = table_view(entries.push(added), f);
    let n = table_view(entries, f).insert(added.0@, f(added.1));
    assert forall|k: Seq<char>| m.dom().contains(k) == n.dom().contains(k) by {
        lemma_slot_after_push(entries, added, k);
    }
    assert forall|k: Seq<char>| m.dom().contains(k) implies m[k] == n[k] by {
        lemma_slot_after_push(entries, added, k);
    }
    assert(m =~= n);
}

/// Changing the value of the entry that a key stands for inserts the new
/// value under that key.
proof fn lemma_table_set<V, W>(
    before: Seq<(String, V)>,
    after: Seq<(String, V)>,
    i: int,
    f: spec_fn(V) -> W,
)
    requires
        before.len() == after.len(),
        0 <= i < before.len(),
        i == slot_of(before, before[i].0@),
        after[i].0@ == before[i].0@,
        forall|j: int| 0 <= j < before.len() && j != i ==> #[trigger] after[j] == before[j],
    ensures
        table_view(after, f) == table_view(before, f).insert(before[i].0@, f(after[i].1)),
{
    let key = before[i].0@;
    let m = table_view(after, f);
    let n = table_view(before, f).insert(key, f(after[i].1));
    assert forall|j: int| 0 <= j < before.len() implies (#[trigger] before[j]).0@ == after[j].0@ by {
        if j != i {
            assert(after[j] == before[j]);
        }
    }
    assert forall|k: Seq<char>| m.dom().contains(k) == n.dom().contains(k) by {
        lemma_slot_same_keys(before, after, k);
    }
    assert forall|k: Seq<char>| m.dom().contains(k) implies m[k] == n[k] by {
        lemma_slot_same_keys(before, after, k);
        let p = slot_of(before, k);
        if k != key {
            assert(after[p] == before[p]);
        }
    }
    assert(m =~= n);
}

/// A table holds, under the key of an entry that the key stands for, the
/// value of that entry.
proof fn lemma_table_get<V, W>(entries: Seq<(String, V)>, key: Seq<char>, f: spec_fn(V) -> W)
    ensures
        0 <= slot_of(entries, key) <= entries.len(),
        table_view(entries, f).contains_key(key) == (slot_of(entries, key) < entries.len()),
        slot_of(entries, key) < entries.len() ==> table_view(entries, f)[key] == f(
            entries[slot_of(entries, key)].1,
        ) && table_view(entries, f).insert(key, f(entries[slot_of(entries, key)].1))
            == table_view(entries, f),
{
    lemma_position(keys_of(entries), key);
    if slot_of(entries, key) < entries.len() {
        let m = table_view(entries, f);
        assert(m.insert(key, f(entries[slot_of(entries, key)].1)) =~= m);
    }
}

/// The engine: the configuration and the state of every conversation.
pub struct Orchestrator {
    config: Config,
    agent_manager: AgentManager,
    memory_manager: MemoryManager,
    channel_states: Vec<(String, ChannelState)>,
    message_history: Vec<(String, HistoryBuffer)>,
}

impl Orchestrator {
    /// The configuration that the engine was made with.
    pub closed spec fn config(&self) -> Config {
        self.config
    }

    /// The affect state of every conversation that has one.
    pub closed spec fn states(&self) -> Map<Seq<char>, HormoneState> {
        states_of(self.channel_states@)
    }

    /// The transcript of every conversation that has one.
    pub closed spec fn histories(&self) -> Map<Seq<char>, Seq<HistoryEntry>> {
        histories_of(self.message_history@)
    }

    /// The parts of the engine agree with its configuration.
    #[verifier::type_invariant]
    spec fn consistent(self) -> bool {
        &&& self.agent_manager.approved() == self.config.approval_user_id@
        &&& self.memory_manager.recall_limit() == self.config.memory_recall_limit
        &&& forall|i: int|
            0 <= i < self.message_history@.len() ==> (#[trigger] self.message_history@[i]).1.spec_limit()
                == self.config.recent_context_limit
    }

    /// An engine that knows of no conversation.
    pub fn new(config: Config) -> (o: Orchestrator)
        ensures
            o.config() == config,
            o.states() == Map::<Seq<char>, HormoneState>::empty(),
            o.histories() == Map::<Seq<char>, Seq<HistoryEntry>>::empty(),
    {
        let agent_manager = AgentManager::new(&config);
        let memory_manager = MemoryManager::new(&config);
        let o = Orchestrator {
            config,
            agent_manager,
            memory_manager,
            channel_states: Vec::new(),
            message_history: Vec::new(),
        };
        proof {
            lemma_table_empty(o.channel_states@, |s: ChannelState| s.hormones);
            lemma_table_empty(o.message_history@, |h: HistoryBuffer| h@);
        }
        o
    }

    /// The affect state of a conversation; a conversation that has none
    /// gets that of a new one, first seen at `now`.
    pub fn get_or_create_channel_state(&mut self, channel_id: &str, now: i64) -> (state:
        ChannelState)
        ensures
            final(self).config() == old(self).config(),
            final(self).histories() == old(self).histories(),
            state.hormones == state_or_fresh(old(self).states(), channel_id@, now),
            final(self).states() == old(self).states().insert(channel_id@, state.hormones),
    {
        proof {
            use_type_invariant(&*self);
        }
        let i = find_slot(&self.channel_states, channel_id);
        proof {
            lemma_table_get(self.channel_states@, channel_id@, |s: ChannelState| s.hormones);
        }
        if i < self.channel_states.len() {
            self.channel_states[i].1
        } else {
            let state = ChannelState { hormones: HormoneState::new(now) };
            let pair = (String::from_str(channel_id), state);
            proof {
                lemma_table_push(self.channel_states@, pair, |s: ChannelState| s.hormones);
            }
            let mut table: Vec<(String, ChannelState)> = Vec::new();
            core::mem::swap(&mut self.channel_states, &mut table);
            table.push(pair);
            self.channel_states = table;
            state
        }
    }

    /// Sets the affect state of a conversation.
    pub fn update_channel_state(&mut self, channel_id: &str, state: ChannelState)
        ensures
            final(self).config() == old(self).config(),
            final(self).histories() == old(self).histories(),
            final(self).states() == old(self).states().insert(channel_id@, state.hormones),
    {
        proof {
            use_type_invariant(&*self);
        }
        let i = find_slot(&self.channel_states, channel_id);
        let ghost before = self.channel_states@;
        let mut table: Vec<(String, ChannelState)> = Vec::new();
        core::mem::swap(&mut self.channel_states, &mut table);
        if i < table.len() {
            table[i].1 = state;
            proof {
                lemma_table_set(before, table@, i as int, |s: ChannelState| s.hormones);
            }
        } else {
            let pair = (String::from_str(channel_id), state);
            proof {
                lemma_table_push(before, pair, |s: ChannelState| s.hormones);
            }
            table.push(pair);
        }
        self.channel_states = table;
    }

    /// Appends one entry to the transcript of a conversation, which is cut
    /// to the configured number of entries.
    pub fn add_to_history(&mut self, channel_id: &str, author: String, content: String, is_sel: bool)
        ensures
            final(self).config() == old(self).config(),
            final(self).states() == old(self).states(),
            final(self).histories() == old(self).histories().insert(
                channel_id@,
                suffix(
                    history_or_empty(old(self).histories(), channel_id@).push(
                        HistoryEntry { author: author@, content: content@, is_sel },
                    ),
                    old(self).config().recent_context_limit as nat,
                ),
            ),
    {
        proof {
            use_type_invariant(&*self);
        }
        let ghost start = self.message_history@;
        let ghost view_of = |h: HistoryBuffer| h@;
        let i = find_slot(&self.message_history, channel_id);
        proof {
            lemma_table_get(start, channel_id@, view_of);
        }
        let mut table: Vec<(String, HistoryBuffer)> = Vec::new();
        core::mem::swap(&mut self.message_history, &mut table);
        if i == table.len() {
            let pair = (
                String::from_str(channel_id),
                HistoryBuffer::new(self.config.recent_context_limit),
            );
            proof {
                lemma_table_push(start, pair, view_of);
                lemma_slot_after_push(start, pair, channel_id@);
            }
            table.push(pair);
        }
        let ghost before = table@;
        table[i].1.append(author, content, is_sel);
        proof {
            let after = table@;
            lemma_table_set(before, after, i as int, view_of);
            if start.len() < before.len() {
                assert(table_view(before, view_of).insert(channel_id@, after[i as int].1@)
                    =~= table_view(start, view_of).insert(channel_id@, after[i as int].1@));
            }
        }
        self.message_history = table;
    }

    /// The transcript of a conversation, oldest entry first; empty if the
    /// conversation has none.
    pub fn get_recent_messages(&self, channel_id: &str) -> (r: Vec<(String, String, bool)>)
        ensures
            turn_blocks(r@) == history_blocks(history_or_empty(self.histories(), channel_id@)),
            r@.len() == history_or_empty(self.histories(), channel_id@).len(),
            forall|i: int|
                0 <= i < r@.len() ==> (#[trigger] r@[i]).0@ == history_or_empty(
                    self.histories(),
                    channel_id@,
                )[i].author && r@[i].1@ == history_or_empty(self.histories(), channel_id@)[i].content
                    && r@[i].2 == history_or_empty(self.histories(), channel_id@)[i].is_sel,
    {
        let i = find_slot(&self.message_history, channel_id);
        proof {
            lemma_table_get(self.message_history@, channel_id@, |h: HistoryBuffer| h@);
        }
        let r = if i < self.message_history.len() {
            self.message_history[i].1.recent()
        } else {
            Vec::new()
        };
        proof {
            let held = history_or_empty(self.histories(), channel_id@);
            assert(turn_blocks(r@) =~= history_blocks(held));
        }
        r
    }

    /// The affect state of a conversation, or that of a new one.
    fn peek_channel_state(&self, channel_id: &str, now: i64) -> (state: ChannelState)
        ensures
            state.hormones == state_or_fresh(self.states(), channel_id@, now),
    {
        let i = find_slot(&self.channel_states, channel_id);
        proof {
            lemma_table_get(self.channel_states@, channel_id@, |s: ChannelState| s.hormones);
        }
        if i < self.channel_states.len() {
            self.channel_states[i].1
        } else {
            ChannelState { hormones: HormoneState::new(now) }
        }
    }

    /// Whether a message is not served.
    pub fn rejects(&self, msg: &InboundMessage) -> (b: bool)
        ensures
            b == rejected(self.config(), msg@),
    {
        msg.is_from_self || !self.config.allows_channel(msg.channel_id.as_str())
    }

    /// The query of the memory store for a message.
    fn retrieve_action(&self, msg: &InboundMessage) -> (action: Action)
        ensures
            action@ == tool_or_retrieve(self.config(), msg@, None),
    {
        Action::Retrieve {
            stream_id: msg.user_id.clone(),
            query: msg.content.clone(),
            limit: self.config.memory_recall_limit,
        }
    }

    /// Starts a turn. A message that is not served changes nothing and is
    /// ignored. Any other message is added to its conversation's
    /// transcript, the conversation's affect state is decayed to `now`
    /// (a conversation that is new gets its state and transcript here), and
    /// the first action is chosen from the text and the sender.
    pub fn begin_turn(&mut self, msg: &InboundMessage, now: i64) -> (action: Action)
        ensures
            final(self).config() == old(self).config(),
            action@ == first_action(old(self).config(), msg@),
            rejected(old(self).config(), msg@) ==> final(self).states() == old(self).states()
                && final(self).histories() == old(self).histories(),
            !rejected(old(self).config(), msg@) ==> final(self).histories() == old(
                self,
            ).histories().insert(
                msg.channel_id@,
                suffix(
                    history_or_empty(old(self).histories(), msg.channel_id@).push(
                        HistoryEntry {
                            author: msg.user_name@,
                            content: msg.content@,
                            is_sel: false,
                        },
                    ),
                    old(self).config().recent_context_limit as nat,
                ),
            ) && final(self).states() == old(self).states().insert(
                msg.channel_id@,
                state_or_fresh(old(self).states(), msg.channel_id@, now).decayed(
                    now as int,
                    old(self).config().decay_rate_per_hour as nat,
                ),
            ),
    {
        proof {
            use_type_invariant(&*self);
        }
        if self.rejects(msg) {
            return Action::Ignore;
        }
        let channel_id = msg.channel_id.as_str();
        self.add_to_history(channel_id, msg.user_name.clone(), msg.content.clone(), false);
        let mut state = self.get_or_create_channel_state(channel_id, now);
        state.hormones.decay(now, self.config.decay_rate_per_hour);
        self.update_channel_state(channel_id, state);
        assert(self.states() =~= old(self).states().insert(msg.channel_id@, state.hormones));
        proof {
            use_type_invariant(&*self);
        }
        match self.agent_manager.detect_agent_invocation(msg.content.as_str()) {
            Some(pair) => Action::RunAgent { agent_name: pair.0, query: pair.1 },
            None => {
                if self.agent_manager.may_classify(msg.user_id.as_str()) {
                    Action::Classify {
                        messages: classifier_messages(msg.content.as_str()),
                        max_tokens: CLASSIFIER_MAX_TOKENS,
                    }
                } else {
                    self.retrieve_action(msg)
                }
            },
        }
    }

    /// The action after the classifier, given its normalized intent
    /// (`None` if the classifier failed).
    pub fn route_classified(&self, msg: &InboundMessage, intent: Option<&str>) -> (action: Action)
        ensures
            action@ == action_after_classifier(self.config(), msg@, text_view(intent)),
    {
        proof {
            use_type_invariant(self);
        }
        match self.agent_manager.classify_and_maybe_invoke(
            msg.content.as_str(),
            msg.user_id.as_str(),
            intent,
        ) {
            Some(pair) => Action::RunAgent { agent_name: pair.0, query: pair.1 },
            None => self.retrieve_action(msg),
        }
    }

    /// The action after the classifier, given its answer as it came
    /// (`None` if the classifier failed).
    pub fn on_classified(&self, msg: &InboundMessage, answer: Option<&str>) -> (action: Action)
        ensures
            action@ == action_after_classifier(
                self.config(),
                msg@,
                match answer {
                    Some(a) => Some(intent_of(a@)),
                    None => None,
                },
            ),
    {
        match answer {
            Some(a) => {
                let intent = normalize_intent(a);
                self.route_classified(msg, Some(intent.as_str()))
            },
            None => self.route_classified(msg, None),
        }
    }

    /// What is asked of the language model once the memory store has
    /// answered (`None` if it failed, which counts as no memory): the
    /// context of the turn, made of the conversation's affect state and
    /// transcript, the presence context, the memories and the message.
    pub fn on_memories(
        &self,
        msg: &InboundMessage,
        retrieved: &Option<Vec<Memory>>,
        presence_context: &str,
        now: i64,
    ) -> (generation: Generation)
        ensures
            blocks_of(generation.messages@) == context_blocks(
                state_or_fresh(self.states(), msg.channel_id@, now),
                history_or_empty(self.histories(), msg.channel_id@),
                msg@,
                presence_context@,
                found(*retrieved),
                self.config().memory_recall_limit as nat,
                now,
            ),
            generation.max_tokens == REPLY_MAX_TOKENS,
            generation.is_novel == (found(*retrieved).len() == 0),
    {
        proof {
            use_type_invariant(self);
        }
        let none: Vec<Memory> = Vec::new();
        let memories: &Vec<Memory> = match retrieved {
            Some(list) => list,
            None => &none,
        };
        assert(memories@ =~= found(*retrieved));
        let channel_id = msg.channel_id.as_str();
        let state = self.peek_channel_state(channel_id, now);
        let memory_context = self.memory_manager.format_memories_for_prompt(
            memories.as_slice(),
            now,
        );
        let system_messages = build_system_prompt(
            &state.hormones,
            presence_context,
            memory_context.as_str(),
            now,
        );
        let recent = self.get_recent_messages(channel_id);
        let mut messages = build_conversation_messages(system_messages, recent);
        let ghost before = blocks_of(messages@);
        messages.push(user_turn(msg.user_name.as_str(), msg.content.as_str()));
        assert(blocks_of(messages@) =~= before + seq![
            user_block(attributed(msg.user_name@, msg.content@)),
        ]);
        Generation { messages, max_tokens: REPLY_MAX_TOKENS, is_novel: memories.len() == 0 }
    }

    /// Ends a turn. For a message that is not served nothing changes and
    /// nothing is stored. For any other message the reply is added to the
    /// conversation's transcript under the agent's name, the affect state
    /// is updated by the sentiment of the inbound text, and what is to be
    /// stored of the exchange is returned.
    pub fn finish_turn(&mut self, msg: &InboundMessage, reply: &TurnReply, now: i64) -> (r: Option<
        StoreRequest,
    >)
        ensures
            final(self).config() == old(self).config(),
            rejected(old(self).config(), msg@) ==> r.is_none() && final(self).states() == old(
                self,
            ).states() && final(self).histories() == old(self).histories(),
            !rejected(old(self).config(), msg@) ==> r.is_some() && final(self).histories() == old(
                self,
            ).histories().insert(
                msg.channel_id@,
                suffix(
                    history_or_empty(old(self).histories(), msg.channel_id@).push(
                        HistoryEntry { author: AGENT_NAME@, content: reply.text@, is_sel: true },
                    ),
                    old(self).config().recent_context_limit as nat,
                ),
            ) && final(self).states() == old(self).states().insert(
                msg.channel_id@,
                state_or_fresh(old(self).states(), msg.channel_id@, now).after_interaction(
                    sentiment_of(msg.content@),
                    reply.is_novel,
                    now as int,
                    old(self).config().decay_rate_per_hour as nat,
                ),
            ),
            r.is_some() ==> {
                let request = r.unwrap();
                &&& request.stream_id@ == msg.user_id@
                &&& request.content@ == content_text(msg.user_name@, msg.content@, reply.text@)
                &&& request.summary@ == summary_text(msg.user_name@, msg.content@)
                &&& request.salience == salience_score(
                    msg.content@,
                    lowercase_of(msg.content@),
                    reply.text@,
                )
            },
    {
        proof {
            use_type_invariant(&*self);
        }
        if self.rejects(msg) {
            return None;
        }
        let channel_id = msg.channel_id.as_str();
        self.add_to_history(channel_id, String::from_str(AGENT_NAME), reply.text.clone(), true);
        let mut state = self.get_or_create_channel_state(channel_id, now);
        state.hormones.update_from_interaction(
            derive_sentiment(msg.content.as_str()),
            reply.is_novel,
            now,
            self.config.decay_rate_per_hour,
        );
        self.update_channel_state(channel_id, state);
        assert(self.states() =~= old(self).states().insert(msg.channel_id@, state.hormones));
        Some(
            self.memory_manager.create_memory_from_interaction(
                msg.user_id.as_str(),
                msg.content.as_str(),
                reply.text.as_str(),
                msg.user_name.as_str(),
            ),
        )
    }
}

/// The sentiment of a text.
pub fn derive_sentiment(text: &str) -> (s: Sentiment)
    ensures
        s == sentiment_of(text@),
{
    if contains_char(text, '?') {
        Sentiment::Question
    } else if contains_char(text, '!') {
        Sentiment::Positive
    } else {
        Sentiment::Neutral
    }
}

/// The reply of a turn that ran a tool: what the tool's result gives. No
/// memory was looked up, so the exchange counts as novel.
pub fn on_agent_result(result: Result<&str, &str>) -> (reply: TurnReply)
    ensures
        reply.text@ == agent_reply(
            match result {
                Ok(t) => Ok(t@),
                Err(e) => Err(e@),
            },
        ),
        reply.is_novel,
{
    TurnReply { text: render_agent_result(result), is_novel: true }
}

/// The reply of a turn that asked the language model: the model's answer,
/// or a fixed reply if the model failed (`None`). The exchange counts as
/// novel if the context held no memory.
pub fn on_generated(is_novel: bool, generated: Option<String>) -> (reply: TurnReply)
    ensures
        reply.text@ == (match generated {
            Some(text) => text@,
            None => FALLBACK_REPLY@,
        }),
        reply.is_novel == is_novel,
{
    TurnReply { text: reply_or_fallback(generated), is_novel }
}

/// The reply that the language model's answer gives: the answer, or a
/// fixed reply if the model failed (`None`).
pub fn reply_or_fallback(generated: Option<String>) -> (r: String)
    ensures
        r@ == (match generated {
            Some(text) => text@,
            None => FALLBACK_REPLY@,
        }),
{
    match generated {
        Some(text) => text,
        None => String::from_str(FALLBACK_REPLY),
    }
}

/// What a whole turn does to the transcript of its conversation, put
/// together from the start and the end of the turn: the transcript gains
/// the message and then the reply, and is cut to the limit once. The affect
/// state that the end of the turn updates is the one that its start left.
pub proof fn lemma_turn_effect(
    config: Config,
    histories: Map<Seq<char>, Seq<HistoryEntry>>,
    states: Map<Seq<char>, HormoneState>,
    msg: InboundView,
    reply: Seq<char>,
    started: i64,
    ended: i64,
)
    ensures
        ({
            let id = msg.channel_id;
            let limit = config.recent_context_limit as nat;
            let rate = config.decay_rate_per_hour as nat;
            let inbound = HistoryEntry {
                author: msg.user_name,
                content: msg.content,
                is_sel: false,
            };
            let outbound = HistoryEntry { author: AGENT_NAME@, content: reply, is_sel: true };
            let held = history_or_empty(histories, id);
            let begun = histories.insert(id, suffix(held.push(inbound), limit));
            let ended_with = begun.insert(
                id,
                suffix(history_or_empty(begun, id).push(outbound), limit),
            );
            let decayed = state_or_fresh(states, id, started).decayed(started as int, rate);
            &&& ended_with == histories.insert(
                id,
                suffix(held.push(inbound).push(outbound), limit),
            )
            &&& ended_with[id].len() <= limit
            &&& state_or_fresh(states.insert(id, decayed), id, ended) == decayed
        }),
{
    let id = msg.channel_id;
    let limit = config.recent_context_limit as nat;
    let inbound = HistoryEntry { author: msg.user_name, content: msg.content, is_sel: false };
    let outbound = HistoryEntry { author: AGENT_NAME@, content: reply, is_sel: true };
    let held = history_or_empty(histories, id);
    lemma_suffix_push(held.push(inbound), outbound, limit);
    let begun = histories.insert(id, suffix(held.push(inbound), limit));
    let ended_with = begun.insert(id, suffix(history_or_empty(begun, id).push(outbound), limit));
    assert(ended_with =~= histories.insert(id, suffix(held.push(inbound).push(outbound), limit)));
    lemma_suffix_push(held.push(inbound).push(outbound), outbound, limit);
}

/// A failed retrieval and a retrieval that found nothing give the same
/// context, and both count as novel.
pub proof fn lemma_failed_retrieval_is_no_memory(
    nothing: Vec<Memory>,
    hormones: HormoneState,
    history: Seq<HistoryEntry>,
    msg: InboundView,
    presence: Seq<char>,
    limit: nat,
    now: i64,
)
    requires
        nothing@.len() == 0,
    ensures
        found(None) == found(Some(nothing)),
        found(None).len() == 0,
        context_blocks(hormones, history, msg, presence, found(None), limit, now)
            == context_blocks(hormones, history, msg, presence, found(Some(nothing)), limit, now),
{
    assert(found(None) =~= found(Some(nothing)));
}

/// A text that names no tool, from a sender other than the approved one,
/// goes to the memory store: no tool is run, the classifier is not asked,
/// and whatever a classifier might say would change nothing.
pub proof fn lemma_unapproved_text_runs_no_tool(
    config: Config,
    msg: InboundView,
    intent: Option<Seq<char>>,
)
    requires
        !rejected(config, msg),
        detected(msg.content).is_none(),
        msg.user_id != config.approval_user_id@,
    ensures
        first_action(config, msg) == tool_or_retrieve(config, msg, None),
        first_action(config, msg) is Retrieve,
        action_after_classifier(config, msg, intent) is Retrieve,
{
}

/// A text that names a tool runs it at once, whoever sent it: the
/// classifier is not asked.
pub proof fn lemma_named_tool_runs_first(config: Config, msg: InboundView)
    requires
        !rejected(config, msg),
        detected(msg.content).is_some(),
    ensures
        first_action(config, msg) == (ActionView::RunAgent {
            agent_name: detected(msg.content).unwrap().0,
            query: detected(msg.content).unwrap().1,
        }),
{
}

} // verus!
