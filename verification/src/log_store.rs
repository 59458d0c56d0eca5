//! The bounded, oldest-first store of recorded proxy exchanges.
//!
//! The store keeps at most `capacity` entries. Appending when full evicts
//! exactly the oldest entry, so the store always holds the most recently
//! inserted entries in insertion order.

use vstd::prelude::*;

verus! {

/// One recorded proxy exchange: the request method, its full target URI,
/// two renderings of the arrival instant, and the identifier under which
/// the exchange was persisted.
#[derive(Debug)]
pub struct HttpLog {
    pub method: String,
    pub uri: String,
    /// RFC 3339 rendering of the arrival instant.
    pub timestamp: String,
    /// `HH:MM:SS` rendering of the same instant, shown in the list view.
    pub time_hms: String,
    /// The identifier of the persisted artifact; the target URI as recorded.
    pub path: String,
}

impl Clone for HttpLog {
    fn clone(&self) -> (r: Self)
        ensures
            r == *self,
    {
        HttpLog {
            method: self.method.clone(),
            uri: self.uri.clone(),
            timestamp: self.timestamp.clone(),
            time_hms: self.time_hms.clone(),
            path: self.path.clone(),
        }
    }
}

/// What one append does to the stored sequence `s` under capacity `cap`:
/// the new entry goes to the tail, and the oldest entry leaves if the store
/// is already full.
pub open spec fn store_step(cap: nat, s: Seq<HttpLog>, x: HttpLog) -> Seq<HttpLog> {
    if s.len() < cap {
        s.push(x)
    } else {
        s.drop_first().push(x)
    }
}

/// The stored sequence after appending `items`, in order, to an empty store
/// of capacity `cap`.
pub open spec fn store_replay(cap: nat, items: Seq<HttpLog>) -> Seq<HttpLog>
    decreases items.len(),
{
    if items.len() == 0 {
        Seq::empty()
    } else {
        store_step(cap, store_replay(cap, items.drop_last()), items.last())
    }
}

/// Bounded FIFO store of recent exchanges, oldest first.
pub struct LogStore {
    entries: Vec<HttpLog>,
    capacity: usize,
}

impl View for LogStore {
    type V = Seq<HttpLog>;

    closed spec fn view(&self) -> Seq<HttpLog> {
        self.entries@
    }
}

impl LogStore {
    /// The store never exceeds its capacity, which is positive.
    pub closed spec fn wf(&self) -> bool {
        self.entries@.len() <= self.capacity && self.capacity > 0
    }

    pub closed spec fn spec_capacity(&self) -> nat {
        self.capacity as nat
    }

    /// An empty store with the given capacity.
    pub fn new(capacity: usize) -> (r: Self)
        requires
            capacity > 0,
        ensures
            r.wf(),
            r@ == Seq::<HttpLog>::empty(),
            r.spec_capacity() == capacity,
    {
        LogStore { entries: Vec::new(), capacity }
    }

    /// An empty store with the default capacity of the tool.
    pub fn with_default_capacity() -> (r: Self)
        ensures
            r.wf(),
            r@ == Seq::<HttpLog>::empty(),
            r.spec_capacity() == 100,
    {
        LogStore::new(100)
    }

    pub fn len(&self) -> (r: usize)
        ensures
            r == self@.len(),
    {
        self.entries.len()
    }

    pub fn capacity(&self) -> (r: usize)
        ensures
            r == self.spec_capacity(),
    {
        self.capacity
    }

    /// Append one entry, evicting the oldest if the store is full.
    pub fn append(&mut self, log: HttpLog)
        requires
            old(self).wf(),
        ensures
            final(self).wf(),
            final(self).spec_capacity() == old(self).spec_capacity(),
            final(self)@ == store_step(old(self).spec_capacity(), old(self)@, log),
            final(self)@.len() <= old(self)@.len() + 1,
            final(self)@.last() == log,
    {
        if self.entries.len() >= self.capacity {
            self.entries.remove(0);
        }
        self.entries.push(log);
    }

    /// A copy of the current contents, oldest first. The render path works
    /// on such a snapshot, never on the store itself.
    pub fn snapshot(&self) -> (r: Vec<HttpLog>)
        ensures
            r@ == self@,
    {
        let mut out: Vec<HttpLog> = Vec::new();
        let n = self.entries.len();
        for i in 0..n
            invariant
                n == self.entries@.len(),
                out@ == self.entries@.take(i as int),
        {
            out.push(self.entries[i].clone());
            proof {
                assert(out@ =~= self.entries@.take(i + 1 as int));
            }
        }
        proof {
            assert(self.entries@.take(n as int) =~= self.entries@);
        }
        out
    }
}

/// Appending `N <= capacity` entries to an empty store leaves exactly those
/// `N` entries, oldest to newest in insertion order.
pub proof fn lemma_store_within_capacity(cap: nat, items: Seq<HttpLog>)
    requires
        items.len() <= cap,
    ensures
        store_replay(cap, items) == items,
    decreases items.len(),
{
    if items.len() == 0 {
        assert(store_replay(cap, items) =~= items);
    } else {
        lemma_store_within_capacity(cap, items.drop_last());
        assert(store_replay(cap, items) =~= items.drop_last().push(items.last()));
        assert(items.drop_last().push(items.last()) =~= items);
    }
}

/// Appending more than `capacity` entries leaves exactly `capacity`
/// entries: the most recently inserted ones, in insertion order.
pub proof fn lemma_store_beyond_capacity(cap: nat, items: Seq<HttpLog>)
    requires
        cap > 0,
        items.len() >= cap,
    ensures
        store_replay(cap, items).len() == cap,
        store_replay(cap, items) == items.skip(items.len() - cap),
    decreases items.len(),
{
    if items.len() == cap {
        lemma_store_within_capacity(cap, items);
        assert(items.skip(0) =~= items);
    } else {
        lemma_store_beyond_capacity(cap, items.drop_last());
        let prev = store_replay(cap, items.drop_last());
        assert(prev.len() == cap);
        assert(store_replay(cap, items) == prev.drop_first().push(items.last()));
        assert(store_replay(cap, items) =~= items.skip(items.len() - cap));
    }
}

} // verus!
