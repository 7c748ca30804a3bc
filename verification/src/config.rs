//! The options that the engine reads.

use vstd::prelude::*;
use crate::text::same_text;

verus! {

/// The static configuration of the engine.
pub struct Config {
    /// The one sender whose plain messages may be routed to a tool by the
    /// classifier.
    pub approval_user_id: String,
    /// The conversations that are served; empty means all of them.
    pub whitelist_channel_ids: Vec<String>,
    /// The greatest number of retrieved memories that enter the context.
    pub memory_recall_limit: usize,
    /// The greatest number of entries that a transcript keeps.
    pub recent_context_limit: usize,
    /// The decay rate of the affect model per hour, in millionths.
    pub decay_rate_per_hour: u32,
}

/// Whether one of the texts in `list` equals `item`.
pub open spec fn lists(list: Seq<String>, item: Seq<char>) -> bool {
    exists|i: int| 0 <= i < list.len() && (#[trigger] list[i])@ == item
}

impl Config {
    /// Whether the whitelist admits the conversation: it is empty or it
    /// holds the conversation's id.
    pub open spec fn admits(&self, channel_id: Seq<char>) -> bool {
        self.whitelist_channel_ids@.len() == 0 || lists(self.whitelist_channel_ids@, channel_id)
    }

    /// Whether messages of the conversation are served.
    pub fn allows_channel(&self, channel_id: &str) -> (b: bool)
        ensures
            b == self.admits(channel_id@),
    {
        if self.whitelist_channel_ids.len() == 0 {
            return true;
        }
        let mut i: usize = 0;
        while i < self.whitelist_channel_ids.len()
            invariant
                i <= self.whitelist_channel_ids.len(),
                forall|k: int| 0 <= k < i ==> (#[trigger] self.whitelist_channel_ids@[k])@ != channel_id@,
            decreases self.whitelist_channel_ids.len() - i,
        {
            if same_text(self.whitelist_channel_ids[i].as_str(), channel_id) {
                return true;
            }
            i += 1;
        }
        false
    }
}

} // verus!
