//! Cooperative cancellation: a one-way latch consulted at explicit
//! checkpoints, and the registry that maps an in-flight request to its latch.
//!
//! The registry is the single owner of every in-flight request's latch — a
//! synchronized table fronting the map, not shared pointers. Cancelling and
//! checkpointing both go through it, keyed by the request id, so the latch
//! each side sees is provably the same one.

use vstd::prelude::*;

verus! {

/// A one-way boolean latch. Once set by `cancel`, it never returns to
/// `false`. Cancellation is advisory: it is only observed where a caller
/// invokes `is_cancelled` or `check`.
///
/// A token is a plain value, not a shared handle: the one latch that both
/// the orchestrator and the cancel endpoint observe for a request lives in
/// the `RequestManager`, and is reached through the request id.
#[derive(Debug)]
pub struct CancellationToken {
    cancelled: bool,
}

impl CancellationToken {
    /// A fresh token starts out not cancelled.
    pub fn new() -> (t: Self)
        ensures
            !t.is_set(),
    {
        CancellationToken { cancelled: false }
    }

    /// The latch state, for contracts.
    pub closed spec fn is_set(&self) -> bool {
        self.cancelled
    }

    /// Sets the latch. Idempotent; always succeeds; no effect beyond the flag.
    pub fn cancel(&mut self)
        ensures
            final(self).is_set(),
    {
        self.cancelled = true;
    }

    /// Non-blocking read of the latch.
    pub fn is_cancelled(&self) -> (r: bool)
        ensures
            r == self.is_set(),
    {
        self.cancelled
    }

    /// The cooperative checkpoint: fails exactly when the latch is set.
    /// Callers treat the failure as an expected control-flow signal.
    pub fn check(&self) -> (r: Result<(), String>)
        ensures
            r is Err <==> self.is_set(),
            r is Err ==> r->Err_0@ == "Operation cancelled"@,
    {
        if self.cancelled {
            Err(String::from_str("Operation cancelled"))
        } else {
            Ok(())
        }
    }
}

impl Clone for CancellationToken {
    /// A clone is a snapshot of the latch state at this moment — not a
    /// shared handle. Cancelling one copy does not latch another; code that
    /// needs the shared latch of an in-flight request reads it through the
    /// registry by request id.
    fn clone(&self) -> (r: Self)
        ensures
            r == *self,
    {
        CancellationToken { cancelled: self.cancelled }
    }
}

/// The registry of in-flight requests: request id to cancellation latch.
/// Its view is the map from each registered id to its latch state.
pub struct RequestManager {
    active: Vec<(String, CancellationToken)>,
}

impl View for RequestManager {
    type V = Map<Seq<char>, bool>;

    closed spec fn view(&self) -> Map<Seq<char>, bool> {
        entries_map(self.active@)
    }
}

/// The map an association list denotes; later entries win, though the
/// registry keeps its keys unique.
pub closed spec fn entries_map(s: Seq<(String, CancellationToken)>) -> Map<Seq<char>, bool>
    decreases s.len(),
{
    if s.len() == 0 {
        Map::empty()
    } else {
        entries_map(s.drop_last()).insert(s.last().0@, s.last().1.is_set())
    }
}

/// A key is in the denoted map exactly when some entry's key reads as it.
proof fn lemma_entries_map_dom_one(s: Seq<(String, CancellationToken)>, k: Seq<char>)
    ensures
        entries_map(s).contains_key(k) <==> exists|i: int|
            0 <= i < s.len() && #[trigger] s[i].0@ == k,
    decreases s.len(),
{
    if s.len() > 0 {
        lemma_entries_map_dom_one(s.drop_last(), k);
        if s.last().0@ == k {
            assert(s[s.len() - 1].0@ == k);
        } else {
            if entries_map(s).contains_key(k) {
                let i = choose|i: int| 0 <= i < s.len() - 1 && #[trigger] s.drop_last()[i].0@
                    == k;
                assert(s[i].0@ == k);
            }
            if exists|i: int| 0 <= i < s.len() && #[trigger] s[i].0@ == k {
                let i = choose|i: int| 0 <= i < s.len() && #[trigger] s[i].0@ == k;
                assert(i < s.len() - 1);
                assert(s.drop_last()[i].0@ == k);
            }
        }
    }
}

/// The keys of the denoted map are exactly the views of the stored keys.
proof fn lemma_entries_map_dom(s: Seq<(String, CancellationToken)>)
    ensures
        forall|k: Seq<char>|
            #[trigger] entries_map(s).contains_key(k) <==> exists|i: int|
                0 <= i < s.len() && #[trigger] s[i].0@ == k,
{
    assert forall|k: Seq<char>|
        #[trigger] entries_map(s).contains_key(k) <==> exists|i: int|
            0 <= i < s.len() && #[trigger] s[i].0@ == k by {
        lemma_entries_map_dom_one(s, k);
    }
}

/// With unique keys, the denoted map reads each entry's own latch state, and
/// updating or removing one entry updates or removes just its key.
proof fn lemma_entries_map_index(s: Seq<(String, CancellationToken)>, i: int)
    requires
        0 <= i < s.len(),
        forall|a: int, b: int|
            0 <= a < b < s.len() ==> #[trigger] s[a].0@ != #[trigger] s[b].0@,
    ensures
        entries_map(s)[s[i].0@] == s[i].1.is_set(),
        entries_map(s).contains_key(s[i].0@),
        forall|t: CancellationToken|
            entries_map(s.update(i, (s[i].0, t))) =~= entries_map(s).insert(
                s[i].0@,
                t.is_set(),
            ),
        entries_map(s.remove(i)) =~= entries_map(s).remove(s[i].0@),
    decreases s.len(),
{
    lemma_entries_map_dom(s);
    lemma_entries_map_dom(s.remove(i));
    if i == s.len() - 1 {
        assert(s.remove(i) =~= s.drop_last());
        lemma_entries_map_dom(s.drop_last());
        assert(!entries_map(s.drop_last()).contains_key(s[i].0@));
        assert forall|t: CancellationToken|
            entries_map(s.update(i, (s[i].0, t))) =~= entries_map(s).insert(
                s[i].0@,
                t.is_set(),
            ) by {
            assert(s.update(i, (s[i].0, t)).drop_last() =~= s.drop_last());
            assert(s.update(i, (s[i].0, t)).last() == (s[i].0, t));
        }
        assert(entries_map(s.remove(i)) =~= entries_map(s).remove(s[i].0@));
    } else {
        let s2 = s.drop_last();
        lemma_entries_map_index(s2, i);
        assert(s2[i] == s[i]);
        assert forall|t: CancellationToken|
            entries_map(s.update(i, (s[i].0, t))) =~= entries_map(s).insert(
                s[i].0@,
                t.is_set(),
            ) by {
            assert(s.update(i, (s[i].0, t)).drop_last() =~= s2.update(i, (s[i].0, t)));
            assert(s.update(i, (s[i].0, t)).last() == s.last());
            assert(s[i].0@ != s.last().0@);
        }
        assert(s.remove(i).drop_last() =~= s2.remove(i));
        assert(s.remove(i).last() == s.last());
        assert(entries_map(s.remove(i)) =~= entries_map(s).remove(s[i].0@));
    }
}

impl RequestManager {
    /// The stored keys are pairwise distinct.
    #[verifier::type_invariant]
    spec fn keys_unique(self) -> bool {
        forall|a: int, b: int|
            0 <= a < b < self.active@.len() ==> #[trigger] self.active@[a].0@
                != #[trigger] self.active@[b].0@
    }

    /// An empty registry.
    pub fn new() -> (r: Self)
        ensures
            r@ == Map::<Seq<char>, bool>::empty(),
    {
        let r = RequestManager { active: Vec::new() };
        proof {
            assert(r@ =~= Map::<Seq<char>, bool>::empty());
        }
        r
    }

    /// The position of an id in the list, if present.
    fn find(&self, request_id: &str) -> (r: Option<usize>)
        ensures
            match r {
                Some(i) => i < self.active@.len() && self.active@[i as int].0@ == request_id@,
                None => forall|i: int|
                    0 <= i < self.active@.len() ==> #[trigger] self.active@[i].0@ != request_id@,
            },
    {
        let n = self.active.len();
        let mut i: usize = 0;
        while i < n
            invariant
                n == self.active@.len(),
                i <= n,
                forall|k: int| 0 <= k < i ==> #[trigger] self.active@[k].0@ != request_id@,
            decreases n - i,
        {
            if crate::text::str_eq(self.active[i].0.as_str(), request_id) {
                return Some(i);
            }
            i = i + 1;
        }
        None
    }

    /// Whether an id is currently registered.
    pub fn is_registered(&self, request_id: &str) -> (r: bool)
        ensures
            r == self@.contains_key(request_id@),
    {
        proof {
            lemma_entries_map_dom(self.active@);
        }
        self.find(request_id).is_some()
    }

    /// Whether a registered id has been cancelled; false for unknown ids.
    pub fn is_cancelled(&self, request_id: &str) -> (r: bool)
        ensures
            r == (self@.contains_key(request_id@) && self@[request_id@]),
    {
        proof {
            use_type_invariant(&*self);
            lemma_entries_map_dom(self.active@);
        }
        match self.find(request_id) {
            Some(i) => {
                proof {
                    lemma_entries_map_index(self.active@, i as int);
                }
                self.active[i].1.is_cancelled()
            },
            None => false,
        }
    }

    /// Creates a fresh, not-yet-cancelled latch for the id and stores it;
    /// the registry keeps sole ownership, and the id is the handle through
    /// which a later `cancel` and the orchestrator's checkpoints reach the
    /// same latch. An id that is already present keeps a single entry: its
    /// latch is replaced by the fresh one.
    pub fn register(&mut self, request_id: String)
        ensures
            final(self)@ == old(self)@.insert(request_id@, false),
    {
        proof {
            use_type_invariant(&*self);
        }
        let token = CancellationToken::new();
        let found = self.find(request_id.as_str());
        let ghost ridv = request_id@;
        let ghost before = self.active@;
        let mut list: Vec<(String, CancellationToken)> = Vec::new();
        core::mem::swap(&mut list, &mut self.active);
        match found {
            Some(i) => {
                proof {
                    lemma_entries_map_index(before, i as int);
                }
                let _ = list.remove(i);
                list.insert(i, (request_id, token));
                proof {
                    let updated = before.update(i as int, (before[i as int].0, token));
                    assert(list@ =~= before.remove(i as int).insert(i as int, list@[i as int]));
                    assert(list@[i as int].0@ == ridv && list@[i as int].1 == token);
                    assert(list@.len() == updated.len());
                    assert forall|k: int| 0 <= k < list@.len() implies list@[k].0@
                        == #[trigger] updated[k].0@ && list@[k].1.is_set()
                        == updated[k].1.is_set() by {
                        if k != i {
                            assert(list@[k] == before[k]);
                        }
                    }
                    lemma_entries_map_same_keys(updated, list@);
                }
            },
            None => {
                list.push((request_id, token));
                proof {
                    assert(list@.drop_last() =~= before);
                }
            },
        }
        self.active = list;
    }

    /// The cooperative checkpoint against the registry: fails exactly when
    /// the id is registered and its latch is set. Callers treat the failure
    /// as an expected control-flow signal.
    pub fn check(&self, request_id: &str) -> (r: Result<(), String>)
        ensures
            r is Err <==> (self@.contains_key(request_id@) && self@[request_id@]),
            r is Err ==> r->Err_0@ == "Operation cancelled"@,
    {
        if self.is_cancelled(request_id) {
            Err(String::from_str("Operation cancelled"))
        } else {
            Ok(())
        }
    }

    /// Cancels the token registered for the id; reports whether one was
    /// found. An absent id is a race outcome, not an error.
    pub fn cancel(&mut self, request_id: &str) -> (r: bool)
        ensures
            r == old(self)@.contains_key(request_id@),
            r ==> final(self)@ == old(self)@.insert(request_id@, true),
            !r ==> final(self)@ == old(self)@,
    {
        proof {
            use_type_invariant(&*self);
            lemma_entries_map_dom(self.active@);
        }
        let found = self.find(request_id);
        let ghost before = self.active@;
        match found {
            Some(i) => {
                proof {
                    lemma_entries_map_index(before, i as int);
                }
                let mut list: Vec<(String, CancellationToken)> = Vec::new();
                core::mem::swap(&mut list, &mut self.active);
                let (id, mut token) = list.remove(i);
                token.cancel();
                list.insert(i, (id, token));
                proof {
                    let updated = before.update(i as int, (before[i as int].0, token));
                    assert(list@ =~= before.remove(i as int).insert(i as int, list@[i as int]));
                    assert(list@[i as int].0@ == before[i as int].0@ && list@[i as int].1 == token);
                    assert(list@.len() == updated.len());
                    assert forall|k: int| 0 <= k < list@.len() implies list@[k].0@
                        == #[trigger] updated[k].0@ && list@[k].1.is_set()
                        == updated[k].1.is_set() by {
                        if k != i {
                            assert(list@[k] == before[k]);
                        }
                    }
                    lemma_entries_map_same_keys(updated, list@);
                }
                self.active = list;
                true
            },
            None => false,
        }
    }

    /// Removes the id, whether or not it is present.
    pub fn unregister(&mut self, request_id: &str)
        ensures
            final(self)@ == old(self)@.remove(request_id@),
    {
        proof {
            use_type_invariant(&*self);
            lemma_entries_map_dom(self.active@);
        }
        let found = self.find(request_id);
        let ghost before = self.active@;
        match found {
            Some(i) => {
                proof {
                    lemma_entries_map_index(before, i as int);
                }
                let mut list: Vec<(String, CancellationToken)> = Vec::new();
                core::mem::swap(&mut list, &mut self.active);
                let _ = list.remove(i);
                proof {
                    assert(list@ =~= before.remove(i as int));
                }
                self.active = list;
            },
            None => {
                proof {
                    assert(self@ =~= old(self)@.remove(request_id@));
                }
            },
        }
    }
}

/// The registration law: `register` followed immediately by `unregister`
/// for the same id leaves the registry without that id; when the id was new,
/// the registry is exactly what it was. The maps here are what `register`
/// and `unregister` promise in their contracts.
pub proof fn lemma_register_then_unregister(registry: Map<Seq<char>, bool>, id: Seq<char>)
    ensures
        !registry.insert(id, false).remove(id).contains_key(id),
        !registry.contains_key(id) ==> registry.insert(id, false).remove(id) =~= registry,
{
}

/// The shared-latch law: a successful `cancel` sets the very latch the
/// checkpoints read. Afterwards — and until the id is unregistered — every
/// `is_cancelled` and `check` for that id observes the set latch, while
/// every other id's entry is untouched. The maps are what `cancel`,
/// `is_cancelled` and `check` promise in their contracts.
pub proof fn lemma_cancel_latches_checkpoint(registry: Map<Seq<char>, bool>, id: Seq<char>)
    requires
        registry.contains_key(id),
    ensures
        registry.insert(id, true).contains_key(id),
        registry.insert(id, true)[id],
        forall|other: Seq<char>|
            other != id ==> #[trigger] registry.insert(id, true).contains_key(other)
                == registry.contains_key(other),
        forall|other: Seq<char>|
            other != id && registry.contains_key(other) ==> #[trigger] registry.insert(
                id,
                true,
            )[other] == registry[other],
{
}

/// The idempotence law for cancellation: on a registered id, cancelling a
/// second time reports success again and changes nothing — the latch stays
/// set. The maps are what `cancel` promises in its contract.
pub proof fn lemma_cancel_idempotent(registry: Map<Seq<char>, bool>, id: Seq<char>)
    requires
        registry.contains_key(id),
    ensures
        registry.insert(id, true).contains_key(id),
        registry.insert(id, true)[id],
        registry.insert(id, true).insert(id, true) =~= registry.insert(id, true),
{
}

/// Two equal association lists denote equal maps.
proof fn lemma_entries_map_same_keys(
    a: Seq<(String, CancellationToken)>,
    b: Seq<(String, CancellationToken)>,
)
    requires
        a.len() == b.len(),
        forall|i: int| 0 <= i < a.len() ==> #[trigger] a[i].0@ == #[trigger] b[i].0@
            && a[i].1.is_set() == b[i].1.is_set(),
    ensures
        entries_map(a) =~= entries_map(b),
    decreases a.len(),
{
    if a.len() > 0 {
        lemma_entries_map_same_keys(a.drop_last(), b.drop_last());
    }
}

} // verus!
