//! Confirmations that wait for an operator, by the id of the incident they belong to.

use crate::text::same_text;
use crate::time::{Instant, Timestamp};
use vstd::prelude::*;

verus! {

broadcast use vstd::seq_lib::group_seq_properties;

/// A guarded action that waits for an operator to approve or deny it.
#[derive(Debug)]
pub struct PendingConfirmation {
    pub incident_id: String,
    /// The message that asks for the confirmation in Telegram; zero where none was sent.
    pub telegram_message_id: i64,
    pub action_description: String,
    pub created_at: Timestamp,
    pub expires_at: Timestamp,
    pub detector: String,
    pub action_name: String,
}

/// What a [`PendingConfirmation`] holds.
#[verifier::ext_equal]
pub struct PendingView {
    pub incident_id: Seq<char>,
    pub telegram_message_id: i64,
    pub action_description: Seq<char>,
    pub created_at: Instant,
    pub expires_at: Instant,
    pub detector: Seq<char>,
    pub action_name: Seq<char>,
}

impl View for PendingConfirmation {
    type V = PendingView;

    open spec fn view(&self) -> PendingView {
        PendingView {
            incident_id: self.incident_id@,
            telegram_message_id: self.telegram_message_id,
            action_description: self.action_description@,
            created_at: self.created_at@,
            expires_at: self.expires_at@,
            detector: self.detector@,
            action_name: self.action_name@,
        }
    }
}

impl Clone for PendingConfirmation {
    fn clone(&self) -> (copy: PendingConfirmation)
        ensures
            copy@ == self@,
    {
        PendingConfirmation {
            incident_id: self.incident_id.clone(),
            telegram_message_id: self.telegram_message_id,
            action_description: self.action_description.clone(),
            created_at: self.created_at,
            expires_at: self.expires_at,
            detector: self.detector.clone(),
            action_name: self.action_name.clone(),
        }
    }
}

/// A pending confirmation under its approval id.
#[derive(Debug)]
pub struct PendingEntry {
    pub approval_id: String,
    pub pending: PendingConfirmation,
}

/// The pending confirmations by their approval id.
pub type PendingMap = Map<Seq<char>, PendingView>;

/// The entry `i` stands under `id`.
pub open spec fn under(entries: Seq<PendingEntry>, id: Seq<char>, i: int) -> bool {
    0 <= i < entries.len() && entries[i].approval_id@ == id
}

/// No two entries stand under one id.
pub open spec fn ids_differ(entries: Seq<PendingEntry>) -> bool {
    forall|i: int, j: int|
        0 <= i < entries.len() && 0 <= j < entries.len() && i != j ==> (
        #[trigger] entries[i]).approval_id@ != (#[trigger] entries[j]).approval_id@
}

/// The entries as a map.
pub open spec fn entry_map(entries: Seq<PendingEntry>) -> PendingMap {
    Map::new(
        |id: Seq<char>| exists|i: int| under(entries, id, i),
        |id: Seq<char>| entries[choose|i: int| under(entries, id, i)].pending@,
    )
}

/// The confirmations that the dashboard shows and resolves.
#[derive(Debug)]
pub struct PendingApprovals {
    entries: Vec<PendingEntry>,
}

impl View for PendingApprovals {
    type V = PendingMap;

    closed spec fn view(&self) -> PendingMap {
        entry_map(self.entries@)
    }
}

impl PendingApprovals {
    #[verifier::type_invariant]
    spec fn one_entry_per_id(self) -> bool {
        ids_differ(self.entries@)
    }

    /// No confirmation is pending.
    pub fn new() -> (map: PendingApprovals)
        ensures
            map@ == Map::<Seq<char>, PendingView>::empty(),
    {
        let map = PendingApprovals { entries: Vec::new() };
        assert(map@ =~= Map::<Seq<char>, PendingView>::empty());
        map
    }

    /// The entries, each id once, in no particular order.
    pub fn entries(&self) -> (entries: &Vec<PendingEntry>)
        ensures
            ids_differ(entries@),
            entry_map(entries@) == self@,
    {
        proof {
            use_type_invariant(self);
        }
        &self.entries
    }

    /// Whether no confirmation is pending.
    pub fn is_empty(&self) -> (empty: bool)
        ensures
            empty == (self@ == Map::<Seq<char>, PendingView>::empty()),
    {
        if self.entries.len() == 0 {
            assert(self@ =~= Map::<Seq<char>, PendingView>::empty());
            true
        } else {
            assert(under(self.entries@, self.entries@[0].approval_id@, 0));
            assert(self@.contains_key(self.entries@[0].approval_id@));
            false
        }
    }

    /// Where `id` stands among the entries.
    fn position(&self, id: &str) -> (at: Option<usize>)
        ensures
            match at {
                Some(i) => {
                    &&& under(self.entries@, id@, i as int)
                    &&& self@.contains_key(id@)
                    &&& self@[id@] == self.entries@[i as int].pending@
                },
                None => {
                    &&& forall|i: int| !under(self.entries@, id@, i)
                    &&& !self@.contains_key(id@)
                },
            },
    {
        proof {
            use_type_invariant(self);
        }
        for i in 0..self.entries.len()
            invariant
                ids_differ(self.entries@),
                forall|j: int| 0 <= j < i ==> !under(self.entries@, id@, j),
        {
            if same_text(&self.entries[i].approval_id, id) {
                proof {
                    entry_is_mapped(self.entries@, i as int);
                }
                return Some(i);
            }
        }
        None
    }

    /// The confirmation under `id`.
    pub fn get(&self, id: &str) -> (found: Option<&PendingConfirmation>)
        ensures
            match found {
                Some(p) => self@.contains_key(id@) && p@ == self@[id@],
                None => !self@.contains_key(id@),
            },
    {
        match self.position(id) {
            Some(i) => Some(&self.entries[i].pending),
            None => None,
        }
    }

    /// Removes the confirmation under `id`.
    pub fn remove(&mut self, id: &str) -> (removed: Option<PendingConfirmation>)
        ensures
            final(self)@ == old(self)@.remove(id@),
            match removed {
                Some(p) => old(self)@.contains_key(id@) && p@ == old(self)@[id@],
                None => !old(self)@.contains_key(id@),
            },
    {
        match self.position(id) {
            Some(i) => {
                proof {
                    use_type_invariant(&*self);
                }
                let mut entries: Vec<PendingEntry> = Vec::new();
                std::mem::swap(&mut entries, &mut self.entries);
                let ghost before = entries@;
                let entry = entries.remove(i);
                proof {
                    removal_is_mapped(before, i as int);
                }
                self.entries = entries;
                Some(entry.pending)
            },
            None => {
                assert(self@ =~= self@.remove(id@));
                None
            },
        }
    }

    /// Puts a confirmation under `id`, in place of the one that may stand there.
    pub fn insert(&mut self, id: &str, pending: PendingConfirmation)
        ensures
            final(self)@ == old(self)@.insert(id@, pending@),
    {
        let _ = self.remove(id);
        proof {
            use_type_invariant(&*self);
        }
        let mut entries: Vec<PendingEntry> = Vec::new();
        std::mem::swap(&mut entries, &mut self.entries);
        let ghost before = entries@;
        entries.push(PendingEntry { approval_id: id.to_owned(), pending });
        proof {
            addition_is_mapped(before, entries@[before.len() as int]);
        }
        self.entries = entries;
        assert(self@ =~= old(self)@.insert(id@, pending@));
    }
}

/// Every entry is what the map holds under its id.
pub proof fn entry_is_mapped(entries: Seq<PendingEntry>, i: int)
    requires
        ids_differ(entries),
        0 <= i < entries.len(),
    ensures
        entry_map(entries).contains_key(entries[i].approval_id@),
        entry_map(entries)[entries[i].approval_id@] == entries[i].pending@,
{
    let id = entries[i].approval_id@;
    assert(under(entries, id, i));
    let j = choose|j: int| under(entries, id, j);
    assert(under(entries, id, j));
    if i != j {
        assert(entries[i].approval_id@ != entries[j].approval_id@);
    }
}

/// Without one entry the map lacks its id, and is the same otherwise.
proof fn removal_is_mapped(entries: Seq<PendingEntry>, at: int)
    requires
        ids_differ(entries),
        0 <= at < entries.len(),
    ensures
        ids_differ(entries.remove(at)),
        entry_map(entries.remove(at)) == entry_map(entries).remove(entries[at].approval_id@),
{
    let left = entries.remove(at);
    let gone = entries[at].approval_id@;
    assert forall|i: int| 0 <= i < left.len() implies #[trigger] left[i] == entries[if i < at {
        i
    } else {
        i + 1
    }] by {}
    assert(ids_differ(left));
    assert forall|id: Seq<char>| entry_map(left).contains_key(id) <==> entry_map(entries).remove(
        gone,
    ).contains_key(id) by {
        if entry_map(left).contains_key(id) {
            let i = choose|i: int| under(left, id, i);
            let j = if i < at {
                i
            } else {
                i + 1
            };
            assert(left[i] == entries[j]);
            assert(under(entries, id, j));
            assert(entries[j].approval_id@ != entries[at].approval_id@);
        }
        if entry_map(entries).contains_key(id) && id != gone {
            let j = choose|j: int| under(entries, id, j);
            let i = if j < at {
                j
            } else {
                j - 1
            };
            assert(left[i] == entries[j]);
            assert(under(left, id, i));
        }
    }
    assert forall|id: Seq<char>| #[trigger] entry_map(left).contains_key(id) implies entry_map(
        left,
    )[id] == entry_map(entries)[id] by {
        let i = choose|i: int| under(left, id, i);
        let j = if i < at {
            i
        } else {
            i + 1
        };
        assert(left[i] == entries[j]);
        entry_is_mapped(left, i);
        entry_is_mapped(entries, j);
    }
    assert(entry_map(left) =~= entry_map(entries).remove(gone));
}

/// With one more entry under a new id the map has it, and is the same otherwise.
proof fn addition_is_mapped(entries: Seq<PendingEntry>, entry: PendingEntry)
    requires
        ids_differ(entries),
        !entry_map(entries).contains_key(entry.approval_id@),
    ensures
        ids_differ(entries.push(entry)),
        entry_map(entries.push(entry)) == entry_map(entries).insert(
            entry.approval_id@,
            entry.pending@,
        ),
{
    let more = entries.push(entry);
    let new = entry.approval_id@;
    assert forall|i: int| 0 <= i < entries.len() implies (#[trigger] entries[i]).approval_id@
        != new by {
        if entries[i].approval_id@ == new {
            assert(under(entries, new, i));
        }
    }
    assert forall|i: int, j: int|
        0 <= i < more.len() && 0 <= j < more.len() && i != j implies (
    #[trigger] more[i]).approval_id@ != (#[trigger] more[j]).approval_id@ by {
        if i < entries.len() && j < entries.len() {
            assert(entries[i].approval_id@ != entries[j].approval_id@);
        } else if i < entries.len() {
            assert(entries[i].approval_id@ != new);
        } else {
            assert(entries[j].approval_id@ != new);
        }
    }
    assert forall|id: Seq<char>| entry_map(more).contains_key(id) <==> entry_map(entries).insert(
        new,
        entry.pending@,
    ).contains_key(id) by {
        if entry_map(more).contains_key(id) && id != new {
            let i = choose|i: int| under(more, id, i);
            assert(under(entries, id, i));
        }
        if entry_map(entries).contains_key(id) {
            let i = choose|i: int| under(entries, id, i);
            assert(under(more, id, i));
        }
        assert(under(more, new, entries.len() as int));
    }
    assert forall|id: Seq<char>| #[trigger] entry_map(more).contains_key(id) implies entry_map(
        more,
    )[id] == entry_map(entries).insert(new, entry.pending@)[id] by {
        let i = choose|i: int| under(more, id, i);
        entry_is_mapped(more, i);
        if id != new {
            assert(entries[i] == more[i]);
            entry_is_mapped(entries, i);
        }
    }
    assert(entry_map(more) =~= entry_map(entries).insert(new, entry.pending@));
}

} // verus!
