//! Requests that wait for a response, by identifier.
use vstd::prelude::*;

verus! {

/// The identifier of a JSON-RPC request: a number or a text.
#[derive(Debug)]
pub enum RequestId {
    Number(i64),
    Text(String),
}

/// What a request identifier stands for.
pub enum RequestIdView {
    Number(int),
    Text(Seq<char>),
}

impl View for RequestId {
    type V = RequestIdView;

    open spec fn view(&self) -> RequestIdView {
        match self {
            RequestId::Number(number) => RequestIdView::Number(*number as int),
            RequestId::Text(text) => RequestIdView::Text(text@),
        }
    }
}

impl RequestId {
    /// Whether two identifiers are the same. A number is never the same as a
    /// text, also where the text spells the number.
    pub fn same(&self, other: &RequestId) -> (result: bool)
        ensures
            result == (self@ == other@),
    {
        match (self, other) {
            (RequestId::Number(left), RequestId::Number(right)) => *left == *right,
            (RequestId::Text(left), RequestId::Text(right)) => *left == *right,
            _ => false,
        }
    }

    /// Another identifier that is the same.
    pub fn duplicate(&self) -> (result: RequestId)
        ensures
            result@ == self@,
    {
        match self {
            RequestId::Number(number) => RequestId::Number(*number),
            RequestId::Text(text) => RequestId::Text(text.clone()),
        }
    }
}

/// `id` is the identifier of the entry at `index`.
spec fn is_at<W>(entries: Seq<(RequestId, W)>, id: RequestIdView, index: int) -> bool {
    0 <= index < entries.len() && entries[index].0@ == id
}

/// The entries as a map from identifier to waiter.
spec fn as_map<W>(entries: Seq<(RequestId, W)>) -> Map<RequestIdView, W> {
    Map::new(
        |id: RequestIdView| exists|index: int| is_at(entries, id, index),
        |id: RequestIdView| entries[choose|index: int| is_at(entries, id, index)].1,
    )
}

/// No identifier has two entries.
spec fn distinct<W>(entries: Seq<(RequestId, W)>) -> bool {
    forall|i: int, j: int|
        0 <= i < entries.len() && 0 <= j < entries.len() && (#[trigger] entries[i]).0@ == (
        #[trigger] entries[j]).0@ ==> i == j
}

/// Where identifiers are distinct, the map gives each entry's own waiter.
proof fn lemma_as_map_entry<W>(entries: Seq<(RequestId, W)>, index: int)
    requires
        distinct(entries),
        0 <= index < entries.len(),
    ensures
        as_map(entries).contains_key(entries[index].0@),
        as_map(entries)[entries[index].0@] == entries[index].1,
{
    let id = entries[index].0@;
    assert(is_at(entries, id, index));
    let chosen = choose|i: int| is_at(entries, id, i);
    assert(is_at(entries, id, chosen));
    assert(chosen == index);
}

/// An identifier without an entry is not in the map.
proof fn lemma_as_map_absent<W>(entries: Seq<(RequestId, W)>, id: RequestIdView)
    requires
        forall|i: int| 0 <= i < entries.len() ==> (#[trigger] entries[i]).0@ != id,
    ensures
        !as_map(entries).contains_key(id),
{
}

/// Moving the last entry into the place of the one at `gone` takes exactly that
/// one out of the map.
proof fn lemma_as_map_remove<W>(
    before: Seq<(RequestId, W)>,
    after: Seq<(RequestId, W)>,
    gone: int,
)
    requires
        distinct(before),
        0 <= gone < before.len(),
        after == before.update(gone, before.last()).drop_last(),
    ensures
        distinct(after),
        as_map(after) == as_map(before).remove(before[gone].0@),
{
    let id = before[gone].0@;
    // Where each entry of `after` stands in `before`.
    let from = |i: int| if i == gone { before.len() - 1 } else { i };
    assert forall|i: int| 0 <= i < after.len() implies #[trigger] after[i] == before[from(i)] by {}
    assert(distinct(after)) by {
        assert forall|i: int, j: int|
            0 <= i < after.len() && 0 <= j < after.len() && (#[trigger] after[i]).0@ == (
            #[trigger] after[j]).0@ implies i == j by {
            assert(after[i] == before[from(i)]);
            assert(after[j] == before[from(j)]);
            assert(from(i) == from(j));
        }
    }
    assert forall|key: RequestIdView| as_map(after).contains_key(key) == as_map(before).remove(
        id,
    ).contains_key(key) by {
        if as_map(after).contains_key(key) {
            let i = choose|i: int| is_at(after, key, i);
            assert(is_at(after, key, i));
            assert(after[i] == before[from(i)]);
            lemma_as_map_entry(before, from(i));
            assert(from(i) != gone);
            if key == id {
                assert(before[from(i)].0@ == before[gone].0@);
            }
        }
        if as_map(before).contains_key(key) && key != id {
            let j = choose|j: int| is_at(before, key, j);
            assert(is_at(before, key, j));
            assert(j != gone);
            let i = if j == before.len() - 1 {
                gone
            } else {
                j
            };
            assert(0 <= i < after.len());
            assert(after[i] == before[from(i)]);
            assert(is_at(after, key, i));
        }
    }
    assert forall|key: RequestIdView| as_map(after).contains_key(key) implies as_map(after)[key]
        == as_map(before)[key] by {
        let i = choose|i: int| is_at(after, key, i);
        assert(is_at(after, key, i));
        assert(after[i] == before[from(i)]);
        lemma_as_map_entry(after, i);
        lemma_as_map_entry(before, from(i));
    }
    assert(as_map(after) =~= as_map(before).remove(id));
}

/// Adding an entry under a new identifier adds it to the map.
proof fn lemma_as_map_push<W>(before: Seq<(RequestId, W)>, entry: (RequestId, W))
    requires
        distinct(before),
        !as_map(before).contains_key(entry.0@),
    ensures
        distinct(before.push(entry)),
        as_map(before.push(entry)) == as_map(before).insert(entry.0@, entry.1),
{
    let after = before.push(entry);
    assert forall|i: int| 0 <= i < before.len() implies (#[trigger] before[i]).0@ != entry.0@ by {
        assert(is_at(before, before[i].0@, i));
    }
    assert(distinct(after)) by {
        assert forall|i: int, j: int|
            0 <= i < after.len() && 0 <= j < after.len() && (#[trigger] after[i]).0@ == (
            #[trigger] after[j]).0@ implies i == j by {
            if i < before.len() {
                assert(after[i] == before[i]);
            }
            if j < before.len() {
                assert(after[j] == before[j]);
            }
        }
    }
    assert forall|key: RequestIdView| as_map(after).contains_key(key) == as_map(before).insert(
        entry.0@,
        entry.1,
    ).contains_key(key) by {
        if as_map(after).contains_key(key) {
            let i = choose|i: int| is_at(after, key, i);
            assert(is_at(after, key, i));
            if i < before.len() {
                assert(is_at(before, key, i));
            }
        }
        if as_map(before).contains_key(key) {
            let i = choose|i: int| is_at(before, key, i);
            assert(is_at(before, key, i));
            assert(is_at(after, key, i));
        }
        if key == entry.0@ {
            assert(is_at(after, key, before.len() as int));
        }
    }
    assert forall|key: RequestIdView| as_map(after).contains_key(key) implies as_map(after)[key]
        == as_map(before).insert(entry.0@, entry.1)[key] by {
        let i = choose|i: int| is_at(after, key, i);
        assert(is_at(after, key, i));
        lemma_as_map_entry(after, i);
        if i < before.len() {
            assert(after[i] == before[i]);
            lemma_as_map_entry(before, i);
        }
    }
    assert(as_map(after) =~= as_map(before).insert(entry.0@, entry.1));
}

/// The waiters of the requests that have no response yet, one for each
/// identifier. Dropping a waiter tells whoever waits that no response will come.
pub struct PendingRequests<W> {
    entries: Vec<(RequestId, W)>,
}

impl<W> View for PendingRequests<W> {
    type V = Map<RequestIdView, W>;

    closed spec fn view(&self) -> Map<RequestIdView, W> {
        as_map(self.entries@)
    }
}

impl<W> PendingRequests<W> {
    #[verifier::type_invariant]
    spec fn ids_are_distinct(self) -> bool {
        distinct(self.entries@)
    }

    /// A table without requests.
    pub fn new() -> (result: Self)
        ensures
            result@ == Map::<RequestIdView, W>::empty(),
    {
        let result = Self { entries: Vec::new() };
        assert(result@ =~= Map::<RequestIdView, W>::empty());
        result
    }

    /// The place of the entry for `id`.
    fn position(entries: &Vec<(RequestId, W)>, id: &RequestId) -> (result: Option<usize>)
        ensures
            match result {
                Some(index) => index < entries@.len() && entries@[index as int].0@ == id@,
                None => forall|i: int|
                    0 <= i < entries@.len() ==> (#[trigger] entries@[i]).0@ != id@,
            },
    {
        let mut index: usize = 0;
        while index < entries.len()
            invariant
                index <= entries@.len(),
                forall|i: int| 0 <= i < index ==> (#[trigger] entries@[i]).0@ != id@,
            decreases entries@.len() - index,
        {
            if entries[index].0.same(id) {
                return Some(index);
            }
            index = index + 1;
        }
        None
    }

    /// Takes the waiter for `id` out of the table.
    pub fn remove(&mut self, id: &RequestId) -> (result: Option<W>)
        ensures
            final(self)@ == old(self)@.remove(id@),
            result == if old(self)@.contains_key(id@) {
                Some(old(self)@[id@])
            } else {
                None
            },
    {
        proof {
            use_type_invariant(&*self);
        }
        let mut entries: Vec<(RequestId, W)> = Vec::new();
        std::mem::swap(&mut entries, &mut self.entries);
        let ghost before = entries@;
        let result = match Self::position(&entries, id) {
            Some(index) => {
                let entry = entries.swap_remove(index);
                proof {
                    lemma_as_map_entry(before, index as int);
                    lemma_as_map_remove(before, entries@, index as int);
                }
                Some(entry.1)
            },
            None => {
                proof {
                    lemma_as_map_absent(before, id@);
                    assert(as_map(before) =~= as_map(before).remove(id@));
                }
                None
            },
        };
        self.entries = entries;
        result
    }

    /// Puts `waiter` into the table under `id` and returns the waiter that stood
    /// there, which no longer waits for anything.
    pub fn insert(&mut self, id: RequestId, waiter: W) -> (result: Option<W>)
        ensures
            final(self)@ == old(self)@.insert(id@, waiter),
            result == if old(self)@.contains_key(id@) {
                Some(old(self)@[id@])
            } else {
                None
            },
    {
        let ghost before = self@;
        let result = self.remove(&id);
        proof {
            use_type_invariant(&*self);
        }
        let mut entries: Vec<(RequestId, W)> = Vec::new();
        std::mem::swap(&mut entries, &mut self.entries);
        proof {
            lemma_as_map_push(entries@, (id, waiter));
            assert(before.remove(id@).insert(id@, waiter) =~= before.insert(id@, waiter));
        }
        entries.push((id, waiter));
        self.entries = entries;
        result
    }

    /// Takes every waiter out of the table.
    pub fn clear(&mut self)
        ensures
            final(self)@ == Map::<RequestIdView, W>::empty(),
    {
        self.entries = Vec::new();
        assert(self@ =~= Map::<RequestIdView, W>::empty());
    }
}

/// Takes every waiter out of the table, so that no request waits any longer.
pub fn clear_pending_requests<W>(pending: &mut PendingRequests<W>)
    ensures
        final(pending)@ == Map::<RequestIdView, W>::empty(),
{
    pending.clear();
}

} // verus!
