//! Who is present, and how that enters the model's context.

use vstd::prelude::*;
use crate::text::decimal;
use crate::text::push_decimal;
use crate::text::same_text;

verus! {

/// What is known of one user.
#[derive(Debug)]
pub struct UserPresence {
    pub status: String,
    pub activities: Vec<String>,
}

/// What a contract sees of one tracked user.
pub struct PresenceEntry {
    pub user_id: Seq<char>,
    pub status: Seq<char>,
    pub activities: Seq<Seq<char>>,
}

/// The users that are tracked, each once, in the order in which they were
/// first seen.
pub struct PresenceTracker {
    presences: Vec<(String, UserPresence)>,
}

/// The texts that a list of strings holds.
pub open spec fn texts_of(items: Seq<String>) -> Seq<Seq<char>> {
    items.map_values(|s: String| s@)
}

/// What a contract sees of one stored pair.
pub open spec fn entry_of(pair: (String, UserPresence)) -> PresenceEntry {
    PresenceEntry {
        user_id: pair.0@,
        status: pair.1.status@,
        activities: texts_of(pair.1.activities@),
    }
}

/// What a contract sees of a list of stored pairs.
pub open spec fn entries_of(list: Seq<(String, UserPresence)>) -> Seq<PresenceEntry> {
    list.map_values(|pair: (String, UserPresence)| entry_of(pair))
}

/// Index of the first entry of the user, or the length if there is none.
pub open spec fn index_of_user(entries: Seq<PresenceEntry>, user_id: Seq<char>) -> int
    decreases entries.len(),
{
    if entries.len() == 0 {
        0
    } else if entries[0].user_id == user_id {
        0
    } else {
        1 + index_of_user(entries.drop_first(), user_id)
    }
}

/// No user is listed twice.
pub open spec fn distinct_users(entries: Seq<PresenceEntry>) -> bool {
    forall|i: int, j: int|
        0 <= i < j < entries.len() ==> (#[trigger] entries[i]).user_id != (
        #[trigger] entries[j]).user_id
}

/// Whether a status counts as online.
pub open spec fn is_online(status: Seq<char>) -> bool {
    status == "online"@ || status == "idle"@ || status == "dnd"@
}

/// The number of entries whose status counts as online.
pub open spec fn online_count(entries: Seq<PresenceEntry>) -> nat
    decreases entries.len(),
{
    if entries.len() == 0 {
        0
    } else {
        online_count(entries.drop_last()) + if is_online(entries.last().status) {
            1nat
        } else {
            0nat
        }
    }
}

/// The items with `", "` between them.
pub open spec fn joined(items: Seq<Seq<char>>) -> Seq<char>
    decreases items.len(),
{
    if items.len() == 0 {
        Seq::<char>::empty()
    } else if items.len() == 1 {
        items[0]
    } else {
        joined(items.drop_last()) + ", "@ + items.last()
    }
}

/// The line of one user.
pub open spec fn presence_line(entry: PresenceEntry) -> Seq<char> {
    let head = "  \u{2022} User "@ + entry.user_id + " ("@ + entry.status + ")"@;
    if entry.activities.len() == 0 {
        head + "\n"@
    } else {
        head + " - "@ + joined(entry.activities) + "\n"@
    }
}

/// The lines of the given users, in order.
pub open spec fn presence_lines(entries: Seq<PresenceEntry>) -> Seq<char>
    decreases entries.len(),
{
    if entries.len() == 0 {
        Seq::<char>::empty()
    } else {
        presence_lines(entries.drop_last()) + presence_line(entries.last())
    }
}

/// The presence block of the context: empty if nobody is tracked, else a
/// header with the number of users online, one line for each of the first
/// `limit` users, and a footer.
pub open spec fn presence_text(entries: Seq<PresenceEntry>, limit: nat) -> Seq<char> {
    if entries.len() == 0 {
        Seq::<char>::empty()
    } else {
        let shown = if entries.len() <= limit {
            entries
        } else {
            entries.take(limit as int)
        };
        "[DISCORD PRESENCE ("@ + decimal(online_count(entries)) + " online)]\n"@ + presence_lines(
            shown,
        ) + "[/DISCORD PRESENCE]\n"@
    }
}

/// The entries after the presence of a user was set: the user's entry is
/// replaced where it stands, or added at the end if there was none.
pub open spec fn with_presence(entries: Seq<PresenceEntry>, entry: PresenceEntry) -> Seq<
    PresenceEntry,
> {
    let i = index_of_user(entries, entry.user_id);
    if i < entries.len() {
        entries.update(i, entry)
    } else {
        entries.push(entry)
    }
}

/// `index_of_user` is the least index that holds the user, and the length
/// if none does.
pub proof fn lemma_index_of_user(entries: Seq<PresenceEntry>, user_id: Seq<char>)
    ensures
        0 <= index_of_user(entries, user_id) <= entries.len(),
        forall|j: int|
            0 <= j < index_of_user(entries, user_id) ==> (#[trigger] entries[j]).user_id != user_id,
        index_of_user(entries, user_id) < entries.len() ==> entries[index_of_user(
            entries,
            user_id,
        )].user_id == user_id,
    decreases entries.len(),
{
    if entries.len() > 0 && entries[0].user_id != user_id {
        let rest = entries.drop_first();
        lemma_index_of_user(rest, user_id);
        assert forall|j: int| 0 <= j < index_of_user(entries, user_id) implies (
        #[trigger] entries[j]).user_id != user_id by {
            if j > 0 {
                assert(entries[j] == rest[j - 1]);
            }
        }
        if index_of_user(rest, user_id) < rest.len() {
            assert(entries[index_of_user(entries, user_id)] == rest[index_of_user(rest, user_id)]);
        }
    }
}

/// Setting a presence keeps every user listed once.
pub proof fn lemma_with_presence_distinct(entries: Seq<PresenceEntry>, entry: PresenceEntry)
    requires
        distinct_users(entries),
    ensures
        distinct_users(with_presence(entries, entry)),
{
    lemma_index_of_user(entries, entry.user_id);
    let i = index_of_user(entries, entry.user_id);
    let after = with_presence(entries, entry);
    assert forall|a: int, b: int| 0 <= a < b < after.len() implies (#[trigger] after[a]).user_id
        != (#[trigger] after[b]).user_id by {
        if i < entries.len() {
            assert(entries[a].user_id != entries[b].user_id);
            assert(entries[i].user_id == entry.user_id);
        } else {
            if b < entries.len() {
                assert(entries[a].user_id != entries[b].user_id);
            } else {
                assert(entries[a].user_id != entry.user_id);
            }
        }
    }
}

impl View for PresenceTracker {
    type V = Seq<PresenceEntry>;

    closed spec fn view(&self) -> Seq<PresenceEntry> {
        entries_of(self.presences@)
    }
}

/// Whether a status counts as online.
fn status_is_online(status: &str) -> (b: bool)
    ensures
        b == is_online(status@),
{
    same_text(status, "online") || same_text(status, "idle") || same_text(status, "dnd")
}

/// Appends the items with `", "` between them.
fn push_joined(out: &mut String, items: &Vec<String>)
    ensures
        final(out)@ == old(out)@ + joined(texts_of(items@)),
{
    let ghost texts = texts_of(items@);
    let mut i: usize = 0;
    assert(texts.take(0) =~= Seq::<Seq<char>>::empty());
    while i < items.len()
        invariant
            i <= items.len(),
            texts == texts_of(items@),
            out@ == old(out)@ + joined(texts.take(i as int)),
        decreases items.len() - i,
    {
        let ghost done = texts.take(i as int);
        let ghost next = texts.take(i + 1);
        if i > 0 {
            out.append(", ");
        }
        out.append(items[i].as_str());
        proof {
            assert(next.drop_last() =~= done);
            assert(next.last() == items@[i as int]@);
            if i > 0 {
                assert(out@ == old(out)@ + (joined(done) + ", "@ + next.last()));
            } else {
                assert(joined(done) =~= Seq::<char>::empty());
                assert(out@ == old(out)@ + next[0]);
            }
        }
        i += 1;
    }
    assert(texts.take(items@.len() as int) =~= texts);
}

impl PresenceTracker {
    /// No user is listed twice.
    #[verifier::type_invariant]
    spec fn listed_once(self) -> bool {
        distinct_users(self@)
    }

    /// A tracker that knows of nobody.
    pub fn new() -> (t: PresenceTracker)
        ensures
            t@ == Seq::<PresenceEntry>::empty(),
    {
        let presences: Vec<(String, UserPresence)> = Vec::new();
        assert(entries_of(presences@) =~= Seq::<PresenceEntry>::empty());
        PresenceTracker { presences }
    }

    /// Sets what is known of a user: the user's entry is replaced where it
    /// stands, or added at the end if there was none. No user is ever
    /// listed twice.
    pub fn update_presence(&mut self, user_id: String, status: String, activities: Vec<String>)
        ensures
            final(self)@ == with_presence(
                old(self)@,
                PresenceEntry {
                    user_id: user_id@,
                    status: status@,
                    activities: texts_of(activities@),
                },
            ),
            distinct_users(final(self)@),
    {
        let ghost entry = PresenceEntry {
            user_id: user_id@,
            status: status@,
            activities: texts_of(activities@),
        };
        let ghost before = self@;
        proof {
            use_type_invariant(&*self);
            lemma_index_of_user(before, user_id@);
            lemma_with_presence_distinct(before, entry);
        }
        let mut list: Vec<(String, UserPresence)> = Vec::new();
        core::mem::swap(&mut self.presences, &mut list);
        assert(entries_of(list@) == before);
        let mut i: usize = 0;
        assert(before.skip(0) =~= before);
        while i < list.len() && !same_text(list[i].0.as_str(), user_id.as_str())
            invariant
                i <= list.len(),
                entries_of(list@) == before,
                index_of_user(before, user_id@) == i + index_of_user(
                    before.skip(i as int),
                    user_id@,
                ),
            decreases list.len() - i,
        {
            proof {
                let rest = before.skip(i as int);
                assert(before[i as int] == entry_of(list@[i as int]));
                assert(rest[0] == before[i as int]);
                assert(rest.drop_first() =~= before.skip(i + 1));
            }
            i += 1;
        }
        proof {
            let rest = before.skip(i as int);
            if i < list.len() {
                assert(before[i as int] == entry_of(list@[i as int]));
                assert(rest[0] == before[i as int]);
            }
        }
        let pair = (user_id, UserPresence { status, activities });
        if i < list.len() {
            list.set(i, pair);
            assert(entries_of(list@) =~= before.update(i as int, entry));
        } else {
            list.push(pair);
            assert(entries_of(list@) =~= before.push(entry));
        }
        self.presences = list;
    }

    /// The presence block of the context, with the lines of at most
    /// `limit` users.
    pub fn get_context_for_prompt(&self, limit: usize) -> (r: String)
        ensures
            r@ == presence_text(self@, limit as nat),
            distinct_users(self@),
    {
        proof {
            use_type_invariant(self);
        }
        let n = self.presences.len();
        if n == 0 {
            return String::new();
        }
        let ghost entries = self@;
        let mut online: usize = 0;
        let mut k: usize = 0;
        assert(entries.take(0) =~= Seq::<PresenceEntry>::empty());
        while k < n
            invariant
                k <= n,
                n == self.presences.len(),
                entries == self@,
                online <= k,
                online == online_count(entries.take(k as int)),
            decreases n - k,
        {
            proof {
                let next = entries.take(k + 1);
                assert(next.drop_last() =~= entries.take(k as int));
                assert(next.last() == entries[k as int]);
            }
            if status_is_online(self.presences[k].1.status.as_str()) {
                online += 1;
            }
            k += 1;
        }
        assert(entries.take(n as int) =~= entries);
        let mut out = String::from_str("[DISCORD PRESENCE (");
        push_decimal(&mut out, online as u64);
        out.append(" online)]\n");
        let ghost head = out@;
        let shown: usize = if n <= limit {
            n
        } else {
            limit
        };
        let mut i: usize = 0;
        while i < shown
            invariant
                i <= shown <= n,
                n == self.presences.len(),
                entries == self@,
                out@ == head + presence_lines(entries.take(i as int)),
            decreases shown - i,
        {
            let ghost before = out@;
            let ghost next = entries.take(i + 1);
            let pair = &self.presences[i];
            out.append("  \u{2022} User ");
            out.append(pair.0.as_str());
            out.append(" (");
            out.append(pair.1.status.as_str());
            out.append(")");
            if pair.1.activities.len() > 0 {
                out.append(" - ");
                push_joined(&mut out, &pair.1.activities);
            }
            out.append("\n");
            proof {
                assert(next.drop_last() =~= entries.take(i as int));
                assert(next.last() == entries[i as int]);
                assert(entries[i as int] == entry_of(self.presences@[i as int]));
                assert(out@ == before + presence_line(entries[i as int]));
            }
            i += 1;
        }
        out.append("[/DISCORD PRESENCE]\n");
        proof {
            let listed = if entries.len() <= limit {
                entries
            } else {
                entries.take(limit as int)
            };
            assert(listed =~= entries.take(shown as int));
        }
        out
    }

    /// Forgets everybody.
    pub fn clear(&mut self)
        ensures
            final(self)@ == Seq::<PresenceEntry>::empty(),
    {
        let presences: Vec<(String, UserPresence)> = Vec::new();
        assert(entries_of(presences@) =~= Seq::<PresenceEntry>::empty());
        self.presences = presences;
    }
}

} // verus!
