//! The calls of one line, keyed by the identifier that the trunk knows them by.

use vstd::prelude::*;

use crate::calls::{CallView, LiveVoiceCall, MAX_CONCURRENT_CALLS};
use crate::text;

verus! {

/// The calls by their identifiers.
pub type CallMap = Map<Seq<char>, CallView>;

/// Taking a call out and putting one back under its identifier replaces it.
pub proof fn lemma_put_back(calls: CallMap, id: Seq<char>, call: CallView)
    ensures
        calls.remove(id).insert(id, call) == calls.insert(id, call),
{
    assert(calls.remove(id).insert(id, call) =~= calls.insert(id, call));
}

#[derive(Debug, PartialEq, Eq)]
struct CallEntry {
    id: String,
    call: LiveVoiceCall,
}

spec fn ids(entries: Seq<CallEntry>) -> Seq<Seq<char>> {
    Seq::new(entries.len(), |i: int| entries[i].id@)
}

spec fn call_map(entries: Seq<CallEntry>) -> CallMap {
    Map::new(
        |k: Seq<char>| ids(entries).contains(k),
        |k: Seq<char>| entries[ids(entries).index_of(k)].call@,
    )
}

/// At most `MAX_CONCURRENT_CALLS` calls, no two under one identifier.
#[derive(Debug, PartialEq, Eq)]
pub struct VoiceCalls {
    entries: Vec<CallEntry>,
}

impl View for VoiceCalls {
    type V = CallMap;

    closed spec fn view(&self) -> CallMap {
        call_map(self.entries@)
    }
}

proof fn lemma_entry(entries: Seq<CallEntry>, i: int)
    requires
        ids(entries).no_duplicates(),
        0 <= i < entries.len(),
    ensures
        call_map(entries).contains_key(entries[i].id@),
        call_map(entries)[entries[i].id@] == entries[i].call@,
{
    let k = entries[i].id@;
    assert(ids(entries)[i] == k);
    assert(ids(entries).contains(k));
    let j = ids(entries).index_of(k);
    assert(ids(entries)[j] == k);
}

proof fn lemma_push(entries: Seq<CallEntry>, entry: CallEntry)
    requires
        ids(entries).no_duplicates(),
        !ids(entries).contains(entry.id@),
    ensures
        ids(entries.push(entry)).no_duplicates(),
        call_map(entries.push(entry)) == call_map(entries).insert(entry.id@, entry.call@),
{
    let more = entries.push(entry);
    assert(ids(more) =~= ids(entries).push(entry.id@));
    assert(ids(more).no_duplicates());
    assert forall|k: Seq<char>| call_map(more).contains_key(k) <==> #[trigger] call_map(
        entries,
    ).insert(entry.id@, entry.call@).contains_key(k) by {
        if ids(entries).contains(k) {
            let i = ids(entries).index_of(k);
            assert(ids(more)[i] == k);
        }
        if k == entry.id@ {
            assert(ids(more)[entries.len() as int] == k);
        }
        if ids(more).contains(k) && k != entry.id@ {
            let i = ids(more).index_of(k);
            assert(ids(entries)[i] == k);
        }
    }
    assert forall|k: Seq<char>| call_map(more).contains_key(k) implies #[trigger] call_map(more)[k]
        == call_map(entries).insert(entry.id@, entry.call@)[k] by {
        let i = ids(more).index_of(k);
        lemma_entry(more, i);
        if i < entries.len() {
            lemma_entry(entries, i);
            assert(more[i] == entries[i]);
        }
    }
    assert(call_map(more) =~= call_map(entries).insert(entry.id@, entry.call@));
}

/// Without the entry at `i`, in any order of the others.
proof fn lemma_swap_remove(entries: Seq<CallEntry>, i: int)
    requires
        ids(entries).no_duplicates(),
        0 <= i < entries.len(),
    ensures
        ids(entries.update(i, entries.last()).drop_last()).no_duplicates(),
        call_map(entries.update(i, entries.last()).drop_last()) == call_map(entries).remove(
            entries[i].id@,
        ),
{
    let fewer = entries.update(i, entries.last()).drop_last();
    let n = entries.len() - 1;
    let gone = entries[i].id@;
    assert forall|a: int, b: int|
        0 <= a < fewer.len() && 0 <= b < fewer.len() && a != b implies ids(fewer)[a] != ids(
        fewer,
    )[b] by {
        let x = if a == i {
            n
        } else {
            a
        };
        let y = if b == i {
            n
        } else {
            b
        };
        assert(ids(entries)[x] != ids(entries)[y]);
    }
    assert(!ids(fewer).contains(gone)) by {
        if ids(fewer).contains(gone) {
            let a = ids(fewer).index_of(gone);
            let x = if a == i {
                n
            } else {
                a
            };
            assert(ids(entries)[x] == ids(entries)[i]);
        }
    }
    assert forall|k: Seq<char>| call_map(fewer).contains_key(k) <==> #[trigger] call_map(
        entries,
    ).remove(gone).contains_key(k) by {
        if ids(fewer).contains(k) {
            let a = ids(fewer).index_of(k);
            let x = if a == i {
                n
            } else {
                a
            };
            assert(ids(entries)[x] == k);
        }
        if ids(entries).contains(k) && k != gone {
            let x = ids(entries).index_of(k);
            let a = if x == n {
                i
            } else {
                x
            };
            assert(ids(fewer)[a] == k);
        }
    }
    assert forall|k: Seq<char>| call_map(fewer).contains_key(k) implies #[trigger] call_map(
        fewer,
    )[k] == call_map(entries).remove(gone)[k] by {
        let a = ids(fewer).index_of(k);
        let x = if a == i {
            n
        } else {
            a
        };
        lemma_entry(fewer, a);
        lemma_entry(entries, x);
    }
    assert(call_map(fewer) =~= call_map(entries).remove(gone));
}

proof fn lemma_count(entries: Seq<CallEntry>)
    requires
        ids(entries).no_duplicates(),
    ensures
        call_map(entries).dom().finite(),
        call_map(entries).dom().len() == entries.len(),
{
    assert(call_map(entries).dom() =~= ids(entries).to_set());
    ids(entries).unique_seq_to_set();
}

impl VoiceCalls {
    #[verifier::type_invariant]
    closed spec fn wf(&self) -> bool {
        ids(self.entries@).no_duplicates() && self.entries@.len() <= MAX_CONCURRENT_CALLS
    }

    /// No calls.
    pub fn new() -> (r: Self)
        ensures
            r@ == Map::<Seq<char>, CallView>::empty(),
    {
        let entries: Vec<CallEntry> = Vec::new();
        let r = VoiceCalls { entries };
        proof {
            assert(r@ =~= Map::<Seq<char>, CallView>::empty());
        }
        r
    }

    /// How many calls there are; never more than `MAX_CONCURRENT_CALLS`.
    pub fn len(&self) -> (r: usize)
        ensures
            self@.dom().finite(),
            r == self@.dom().len(),
            r <= MAX_CONCURRENT_CALLS,
    {
        proof {
            use_type_invariant(self);
            lemma_count(self.entries@);
        }
        self.entries.len()
    }

    fn position(&self, id: &str) -> (r: Option<usize>)
        ensures
            match r {
                Some(i) => i < self.entries@.len() && self.entries@[i as int].id@ == id@
                    && self@.contains_key(id@) && self@[id@] == self.entries@[i as int].call@,
                None => !self@.contains_key(id@),
            },
    {
        proof {
            use_type_invariant(self);
        }
        let mut i: usize = 0;
        while i < self.entries.len()
            invariant
                i <= self.entries@.len(),
                ids(self.entries@).no_duplicates(),
                forall|j: int| 0 <= j < i ==> ids(self.entries@)[j] != id@,
            decreases self.entries@.len() - i,
        {
            if text::same(self.entries[i].id.as_str(), id) {
                proof {
                    lemma_entry(self.entries@, i as int);
                }
                return Some(i);
            }
            i += 1;
        }
        None
    }

    /// There is a call under `id`.
    pub fn contains(&self, id: &str) -> (r: bool)
        ensures
            r == self@.contains_key(id@),
    {
        self.position(id).is_some()
    }

    /// The call under `id`.
    pub fn get(&self, id: &str) -> (r: Option<&LiveVoiceCall>)
        ensures
            match r {
                Some(call) => self@.contains_key(id@) && call@ == self@[id@],
                None => !self@.contains_key(id@),
            },
    {
        match self.position(id) {
            Some(i) => Some(&self.entries[i].call),
            None => None,
        }
    }

    /// Takes the call under `id` out.
    pub fn remove(&mut self, id: &str) -> (r: Option<LiveVoiceCall>)
        ensures
            match r {
                Some(call) => old(self)@.contains_key(id@) && call@ == old(self)@[id@]
                    && final(self)@ == old(self)@.remove(id@) && final(self)@.dom().len()
                    < MAX_CONCURRENT_CALLS,
                None => !old(self)@.contains_key(id@) && final(self)@ == old(self)@,
            },
    {
        match self.position(id) {
            Some(i) => {
                proof {
                    use_type_invariant(&*self);
                    lemma_swap_remove(self.entries@, i as int);
                    lemma_count(
                        self.entries@.update(i as int, self.entries@.last()).drop_last(),
                    );
                }
                let mut entries: Vec<CallEntry> = Vec::new();
                core::mem::swap(&mut self.entries, &mut entries);
                let entry = entries.swap_remove(i);
                self.entries = entries;
                Some(entry.call)
            },
            None => None,
        }
    }

    /// Puts `call` under `id`, in place of a call that is there already.
    pub fn insert(&mut self, id: String, call: LiveVoiceCall)
        requires
            old(self)@.contains_key(id@) || old(self)@.dom().len() < MAX_CONCURRENT_CALLS,
        ensures
            final(self)@ == old(self)@.insert(id@, call@),
    {
        let ghost before = self@;
        proof {
            use_type_invariant(&*self);
            lemma_count(self.entries@);
        }
        let previous = self.remove(id.as_str());
        proof {
            use_type_invariant(&*self);
            lemma_count(self.entries@);
            assert(!self@.contains_key(id@));
            lemma_push(self.entries@, CallEntry { id, call });
            assert(before.remove(id@).insert(id@, call@) =~= before.insert(id@, call@));
        }
        let mut entries: Vec<CallEntry> = Vec::new();
        core::mem::swap(&mut self.entries, &mut entries);
        entries.push(CallEntry { id, call });
        self.entries = entries;
    }

    /// The identifier of a call whose dialog has this Call-ID.
    pub fn find_dialog(&self, call_id: &str) -> (r: Option<String>)
        ensures
            match r {
                Some(id) => self@.contains_key(id@) && self@[id@].dialog.call_id == call_id@,
                None => forall|k: Seq<char>| #[trigger]
                    self@.contains_key(k) ==> self@[k].dialog.call_id != call_id@,
            },
    {
        proof {
            use_type_invariant(self);
        }
        let mut i: usize = 0;
        while i < self.entries.len()
            invariant
                i <= self.entries@.len(),
                ids(self.entries@).no_duplicates(),
                forall|j: int|
                    0 <= j < i ==> (#[trigger] self.entries@[j]).call.dialog.call_id@ != call_id@,
            decreases self.entries@.len() - i,
        {
            if text::same(self.entries[i].call.dialog.call_id.as_str(), call_id) {
                proof {
                    lemma_entry(self.entries@, i as int);
                }
                return Some(self.entries[i].id.clone());
            }
            i += 1;
        }
        proof {
            assert forall|k: Seq<char>| #[trigger] self@.contains_key(k) implies self@[k].dialog.call_id
                != call_id@ by {
                let j = ids(self.entries@).index_of(k);
                assert(self.entries@[j].call@ == self@[k]);
            }
        }
        None
    }

    /// The identifiers of all calls.
    pub fn keys(&self) -> (r: Vec<String>)
        ensures
            text::texts(r@).to_set() == self@.dom(),
            text::texts(r@).no_duplicates(),
    {
        proof {
            use_type_invariant(self);
        }
        let mut out: Vec<String> = Vec::new();
        let mut i: usize = 0;
        while i < self.entries.len()
            invariant
                i <= self.entries@.len(),
                out@.len() == i,
                forall|j: int| 0 <= j < i ==> out@[j]@ == ids(self.entries@)[j],
            decreases self.entries@.len() - i,
        {
            out.push(self.entries[i].id.clone());
            i += 1;
        }
        proof {
            assert(text::texts(out@) =~= ids(self.entries@));
            assert(self@.dom() =~= ids(self.entries@).to_set());
        }
        out
    }
}

} // verus!
