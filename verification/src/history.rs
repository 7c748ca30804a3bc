//! The bounded transcript of one conversation.

use vstd::prelude::*;

verus! {

/// One entry of a transcript.
#[derive(Debug)]
pub struct HistoryMessage {
    pub author: String,
    pub content: String,
    /// Whether the agent itself wrote the entry.
    pub is_sel: bool,
}

/// What a contract sees of a `HistoryMessage`.
pub struct HistoryEntry {
    pub author: Seq<char>,
    pub content: Seq<char>,
    pub is_sel: bool,
}

impl View for HistoryMessage {
    type V = HistoryEntry;

    open spec fn view(&self) -> HistoryEntry {
        HistoryEntry { author: self.author@, content: self.content@, is_sel: self.is_sel }
    }
}

/// The last `limit` elements of `s`, or all of `s` if it has fewer.
pub open spec fn suffix<T>(s: Seq<T>, limit: nat) -> Seq<T> {
    if s.len() <= limit {
        s
    } else {
        s.subrange(s.len() - limit, s.len() as int)
    }
}

/// The transcript after entries were appended one by one, each append
/// followed by the cut to the last `limit` entries.
pub open spec fn appended_all(s: Seq<HistoryEntry>, added: Seq<HistoryEntry>, limit: nat) -> Seq<
    HistoryEntry,
>
    decreases added.len(),
{
    if added.len() == 0 {
        s
    } else {
        suffix(appended_all(s, added.drop_last(), limit).push(added.last()), limit)
    }
}

/// The entries that a list of messages stands for.
pub open spec fn entries_of(messages: Seq<HistoryMessage>) -> Seq<HistoryEntry> {
    messages.map_values(|m: HistoryMessage| m@)
}

/// A transcript that keeps the most recent entries, oldest first, and never
/// more than its limit.
pub struct HistoryBuffer {
    entries: Vec<HistoryMessage>,
    limit: usize,
}

impl View for HistoryBuffer {
    type V = Seq<HistoryEntry>;

    closed spec fn view(&self) -> Seq<HistoryEntry> {
        entries_of(self.entries@)
    }
}

impl HistoryBuffer {
    #[verifier::type_invariant]
    spec fn within_limit(self) -> bool {
        self.entries@.len() <= self.limit
    }

    /// The greatest number of entries that the buffer keeps.
    pub closed spec fn spec_limit(&self) -> nat {
        self.limit as nat
    }

    /// An empty transcript with the given limit.
    pub fn new(limit: usize) -> (b: HistoryBuffer)
        ensures
            b@ == Seq::<HistoryEntry>::empty(),
            b.spec_limit() == limit,
    {
        let b = HistoryBuffer { entries: Vec::new(), limit };
        assert(b@ =~= Seq::<HistoryEntry>::empty());
        b
    }

    /// The greatest number of entries that the buffer keeps.
    pub fn limit(&self) -> (n: usize)
        ensures
            n == self.spec_limit(),
    {
        self.limit
    }

    /// The number of entries held, which is never more than the limit.
    pub fn len(&self) -> (n: usize)
        ensures
            n == self@.len(),
            n <= self.spec_limit(),
    {
        proof {
            use_type_invariant(self);
        }
        self.entries.len()
    }

    /// Adds one entry at the end; if the transcript is then longer than its
    /// limit, the oldest entries are dropped until it is not.
    pub fn append(&mut self, speaker: String, text: String, is_agent: bool)
        ensures
            final(self)@ == suffix(
                old(self)@.push(
                    HistoryEntry { author: speaker@, content: text@, is_sel: is_agent },
                ),
                old(self).spec_limit(),
            ),
            final(self).spec_limit() == old(self).spec_limit(),
            final(self)@.len() <= final(self).spec_limit(),
    {
        let message = HistoryMessage { author: speaker, content: text, is_sel: is_agent };
        let ghost pushed = self.entries@.push(message);
        assert(entries_of(pushed) =~= entries_of(self.entries@).push(message@));
        let mut entries: Vec<HistoryMessage> = Vec::new();
        core::mem::swap(&mut self.entries, &mut entries);
        entries.push(message);
        let n = entries.len();
        if n > self.limit {
            let kept = entries.split_off(n - self.limit);
            assert(entries_of(kept@) =~= entries_of(pushed).subrange(n - self.limit, n as int));
            self.entries = kept;
        } else {
            self.entries = entries;
        }
    }

    /// The entries held, oldest first, as (author, content, written by the
    /// agent). There are never more of them than the limit.
    pub fn recent(&self) -> (r: Vec<(String, String, bool)>)
        ensures
            r@.len() == self@.len(),
            r@.len() <= self.spec_limit(),
            forall|i: int|
                0 <= i < r@.len() ==> (#[trigger] r@[i]).0@ == self@[i].author && r@[i].1@
                    == self@[i].content && r@[i].2 == self@[i].is_sel,
    {
        proof {
            use_type_invariant(self);
        }
        let mut out: Vec<(String, String, bool)> = Vec::new();
        let mut i: usize = 0;
        while i < self.entries.len()
            invariant
                i <= self.entries.len(),
                out@.len() == i,
                forall|k: int|
                    0 <= k < i ==> (#[trigger] out@[k]).0@ == self.entries@[k].author@ && out@[k].1@
                        == self.entries@[k].content@ && out@[k].2 == self.entries@[k].is_sel,
            decreases self.entries.len() - i,
        {
            let m = &self.entries[i];
            out.push((m.author.clone(), m.content.clone(), m.is_sel));
            i += 1;
        }
        out
    }
}

/// The cut to the last `limit` elements can be taken at every append or
/// once at the end: the result is the same.
pub proof fn lemma_suffix_push<T>(s: Seq<T>, e: T, limit: nat)
    ensures
        suffix(suffix(s, limit).push(e), limit) == suffix(s.push(e), limit),
        suffix(s, limit).len() <= limit,
        s.len() <= limit ==> suffix(s, limit) == s,
{
    assert(suffix(suffix(s, limit).push(e), limit) =~= suffix(s.push(e), limit));
}

/// After any sequence of appends the transcript holds at most `limit`
/// entries, and they are exactly the most recent `limit` of all that were
/// ever held, in the order in which they came.
pub proof fn lemma_history_bound(
    initial: Seq<HistoryEntry>,
    added: Seq<HistoryEntry>,
    limit: nat,
)
    requires
        initial.len() <= limit,
    ensures
        appended_all(initial, added, limit) == suffix(initial + added, limit),
        appended_all(initial, added, limit).len() <= limit,
    decreases added.len(),
{
    if added.len() == 0 {
        assert(initial + added =~= initial);
    } else {
        let front = added.drop_last();
        lemma_history_bound(initial, front, limit);
        lemma_suffix_push(initial + front, added.last(), limit);
        assert((initial + front).push(added.last()) =~= initial + added);
    }
}

} // verus!
