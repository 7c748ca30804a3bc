//! Memories as the engine reads and writes them: how retrieved memories
//! enter the model's context, and what is stored of an exchange.
//!
//! A salience is a whole number of hundredths, so 65 stands for 0.65.
//! Times are whole seconds since the Unix epoch.

use vstd::prelude::*;
use crate::agents::has_tool_prefix;
use crate::agents::names_tool;
use crate::config::Config;
use crate::text::contains_char;
use crate::text::contains_text;
use crate::text::decimal;
use crate::text::lowercase_of;
use crate::text::occurs_in;
use crate::text::push_decimal;
use crate::text::to_chars;
use crate::text::to_lowercase;

verus! {

/// The salience of an exchange that has nothing notable about it.
pub const BASE_SALIENCE: u32 = 30;

/// The greatest salience.
pub const MAX_SALIENCE: u32 = 100;

/// A message longer than this many characters is cut in the summary.
pub const SUMMARY_LIMIT: usize = 100;

/// The number of characters that a cut message keeps.
pub const SUMMARY_KEPT: usize = 97;

/// A reply longer than this many characters counts as long.
pub const LONG_REPLY: usize = 500;

/// Seconds per day.
pub const DAY: i128 = 86_400;

/// Seconds per hour.
pub const HOUR: i128 = 3_600;

/// Seconds per minute.
pub const MINUTE: i128 = 60;

/// One retrieved memory.
#[derive(Debug)]
pub struct Memory {
    pub summary: String,
    pub content: String,
    /// When the memory was made, in seconds since the Unix epoch.
    pub timestamp: i64,
    /// In hundredths.
    pub salience: u32,
    pub stream_id: String,
}

/// What is handed to the memory store for one exchange.
#[derive(Debug)]
pub struct StoreRequest {
    pub stream_id: String,
    pub content: String,
    pub summary: String,
    /// In hundredths.
    pub salience: u32,
}

/// `a / d`, rounded towards zero.
pub open spec fn toward_zero(a: int, d: int) -> int {
    if a >= 0 {
        a / d
    } else {
        -((-a) / d)
    }
}

/// A whole number in decimal, with a minus sign if it is negative.
pub open spec fn signed_decimal(n: int) -> Seq<char> {
    if n < 0 {
        seq!['-'] + decimal((-n) as nat)
    } else {
        decimal(n as nat)
    }
}

/// An age in words: in whole days if it is a day or more, else in whole
/// hours if it is an hour or more, else in whole minutes.
pub open spec fn age_text(age: int) -> Seq<char> {
    if toward_zero(age, DAY as int) > 0 {
        decimal((age / (DAY as int)) as nat) + "d ago"@
    } else if toward_zero(age, HOUR as int) > 0 {
        decimal((age / (HOUR as int)) as nat) + "h ago"@
    } else {
        signed_decimal(toward_zero(age, MINUTE as int)) + "m ago"@
    }
}

/// The line of the memory with the given number.
pub open spec fn memory_line(number: nat, summary: Seq<char>, age: int) -> Seq<char> {
    decimal(number) + ". ["@ + age_text(age) + "] "@ + summary + "\n"@
}

/// The lines of the given memories, numbered from one.
pub open spec fn memory_lines(memories: Seq<Memory>, now: int) -> Seq<char>
    decreases memories.len(),
{
    if memories.len() == 0 {
        Seq::<char>::empty()
    } else {
        memory_lines(memories.drop_last(), now) + memory_line(
            memories.len(),
            memories.last().summary@,
            now - memories.last().timestamp,
        )
    }
}

/// The memory block of the context: empty if no memory is shown, else a
/// header, one line for each of the first `limit` memories, and a footer.
pub open spec fn memories_text(memories: Seq<Memory>, now: int, limit: nat) -> Seq<char> {
    let shown = if memories.len() <= limit {
        memories
    } else {
        memories.take(limit as int)
    };
    if shown.len() == 0 {
        Seq::<char>::empty()
    } else {
        "[RELEVANT MEMORIES]\n"@ + memory_lines(shown, now) + "[/RELEVANT MEMORIES]\n"@
    }
}

/// Whether a text in lower case holds one of the words that mark an
/// exchange as important.
pub open spec fn has_keyword(lowered: Seq<char>) -> bool {
    occurs_in("remember"@, lowered) || occurs_in("important"@, lowered) || occurs_in(
        "don't forget"@,
        lowered,
    ) || occurs_in("always"@, lowered) || occurs_in("never"@, lowered)
}

/// The salience of an exchange, in hundredths: 30, plus 10 for a question
/// mark in the message, 20 for a message that names a tool by its text, 10
/// for a long reply and 15 for a keyword in the message's lower-case form;
/// never more than 100.
pub open spec fn salience_score(msg: Seq<char>, lowered: Seq<char>, reply: Seq<char>) -> nat {
    let total = 30 + (if msg.contains('?') {
        10nat
    } else {
        0
    }) + (if names_tool(msg) {
        20nat
    } else {
        0
    }) + (if reply.len() > LONG_REPLY {
        10nat
    } else {
        0
    }) + (if has_keyword(lowered) {
        15nat
    } else {
        0
    });
    if total > MAX_SALIENCE {
        MAX_SALIENCE as nat
    } else {
        total
    }
}

/// The summary of an exchange: the sender's name, then the message, cut to
/// 97 characters and an ellipsis if it has more than 100.
pub open spec fn summary_text(user_name: Seq<char>, msg: Seq<char>) -> Seq<char> {
    if msg.len() > SUMMARY_LIMIT {
        user_name + ": "@ + msg.subrange(0, SUMMARY_KEPT as int) + "..."@
    } else {
        user_name + ": "@ + msg
    }
}

/// The stored content of an exchange.
pub open spec fn content_text(user_name: Seq<char>, msg: Seq<char>, reply: Seq<char>) -> Seq<
    char,
> {
    user_name + ": "@ + msg + "\nSEL: "@ + reply
}

/// Builds what enters the context from memories and what goes to the store.
pub struct MemoryManager {
    memory_recall_limit: usize,
}

/// Appends an age in words.
fn push_age(out: &mut String, age: i128)
    requires
        -0x1_0000_0000_0000_0000 < age < 0x1_0000_0000_0000_0000,
    ensures
        final(out)@ == old(out)@ + age_text(age as int),
{
    if age >= DAY {
        push_decimal(out, (age / DAY) as u64);
        out.append("d ago");
        assert(out@ == old(out)@ + (decimal((age / DAY) as nat) + "d ago"@));
    } else if age >= HOUR {
        push_decimal(out, (age / HOUR) as u64);
        out.append("h ago");
        assert(out@ == old(out)@ + (decimal((age / HOUR) as nat) + "h ago"@));
    } else if age > -MINUTE {
        let minutes: u64 = if age >= 0 {
            (age / MINUTE) as u64
        } else {
            0
        };
        push_decimal(out, minutes);
        out.append("m ago");
        assert(out@ == old(out)@ + (decimal(minutes as nat) + "m ago"@));
    } else {
        let minutes: u64 = ((-age) / MINUTE) as u64;
        out.push('-');
        push_decimal(out, minutes);
        out.append("m ago");
        assert(out@ == old(out)@ + ((seq!['-'] + decimal(minutes as nat)) + "m ago"@));
    }
}

/// The salience of an exchange, in hundredths. `lowered` is the message in
/// lower case.
pub fn salience_of(user_message: &str, lowered: &str, sel_response: &str) -> (r: u32)
    ensures
        r == salience_score(user_message@, lowered@, sel_response@),
        BASE_SALIENCE <= r <= MAX_SALIENCE,
{
    let mut salience: u32 = BASE_SALIENCE;
    if contains_char(user_message, '?') {
        salience += 10;
    }
    if has_tool_prefix(user_message) {
        salience += 20;
    }
    if sel_response.unicode_len() > LONG_REPLY {
        salience += 10;
    }
    let hay = to_chars(lowered);
    let found = contains_text(&hay, &to_chars("remember")) || contains_text(
        &hay,
        &to_chars("important"),
    ) || contains_text(&hay, &to_chars("don't forget")) || contains_text(&hay, &to_chars("always"))
        || contains_text(&hay, &to_chars("never"));
    if found {
        salience += 15;
    }
    if salience > MAX_SALIENCE {
        MAX_SALIENCE
    } else {
        salience
    }
}

impl MemoryManager {
    /// The greatest number of memories that enter the context.
    pub closed spec fn recall_limit(&self) -> nat {
        self.memory_recall_limit as nat
    }

    /// A manager for the given configuration.
    pub fn new(config: &Config) -> (m: MemoryManager)
        ensures
            m.recall_limit() == config.memory_recall_limit,
    {
        MemoryManager { memory_recall_limit: config.memory_recall_limit }
    }

    /// The memory block of the context, as of the time `now`.
    pub fn format_memories_for_prompt(&self, memories: &[Memory], now: i64) -> (r: String)
        ensures
            r@ == memories_text(memories@, now as int, self.recall_limit()),
    {
        let shown: usize = if memories.len() <= self.memory_recall_limit {
            memories.len()
        } else {
            self.memory_recall_limit
        };
        if shown == 0 {
            return String::new();
        }
        let ghost listed = if memories@.len() <= self.memory_recall_limit {
            memories@
        } else {
            memories@.take(self.memory_recall_limit as int)
        };
        assert(listed =~= memories@.take(shown as int));
        let mut out = String::from_str("[RELEVANT MEMORIES]\n");
        let mut i: usize = 0;
        while i < shown
            invariant
                i <= shown <= memories.len(),
                out@ == "[RELEVANT MEMORIES]\n"@ + memory_lines(
                    memories@.take(i as int),
                    now as int,
                ),
            decreases shown - i,
        {
            let ghost before = out@;
            let ghost done = memories@.take(i as int);
            let ghost next = memories@.take(i + 1);
            let memory = &memories[i];
            push_decimal(&mut out, (i + 1) as u64);
            out.append(". [");
            push_age(&mut out, now as i128 - memory.timestamp as i128);
            out.append("] ");
            out.append(memory.summary.as_str());
            out.append("\n");
            proof {
                assert(next.drop_last() =~= done);
                assert(next.last() == memories@[i as int]);
                assert(out@ == before + memory_line(
                    (i + 1) as nat,
                    memory.summary@,
                    now - memory.timestamp,
                ));
                assert(out@ == "[RELEVANT MEMORIES]\n"@ + memory_lines(next, now as int));
            }
            i += 1;
        }
        out.append("[/RELEVANT MEMORIES]\n");
        out
    }

    /// The salience of an exchange, in hundredths.
    pub fn calculate_salience(&self, user_message: &str, sel_response: &str) -> (r: u32)
        ensures
            r == salience_score(user_message@, lowercase_of(user_message@), sel_response@),
            BASE_SALIENCE <= r <= MAX_SALIENCE,
    {
        let lowered = to_lowercase(user_message);
        salience_of(user_message, lowered.as_str(), sel_response)
    }

    /// What is stored of an exchange: its content, a summary and a
    /// salience, under the given stream.
    pub fn create_memory_from_interaction(
        &self,
        stream_id: &str,
        user_message: &str,
        sel_response: &str,
        user_name: &str,
    ) -> (r: StoreRequest)
        ensures
            r.stream_id@ == stream_id@,
            r.content@ == content_text(user_name@, user_message@, sel_response@),
            r.summary@ == summary_text(user_name@, user_message@),
            r.salience == salience_score(
                user_message@,
                lowercase_of(user_message@),
                sel_response@,
            ),
    {
        let mut content = String::from_str(user_name);
        content.append(": ");
        content.append(user_message);
        content.append("\nSEL: ");
        content.append(sel_response);
        let mut summary = String::from_str(user_name);
        summary.append(": ");
        if user_message.unicode_len() > SUMMARY_LIMIT {
            summary.append(user_message.substring_char(0, SUMMARY_KEPT));
            summary.append("...");
        } else {
            summary.append(user_message);
        }
        let salience = self.calculate_salience(user_message, sel_response);
        StoreRequest { stream_id: String::from_str(stream_id), content, summary, salience }
    }
}

} // verus!
