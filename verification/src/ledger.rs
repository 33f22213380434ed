//! The allocation ledger: an append-only map from pseudo-register id to stack
//! offset, plus a buffered overlay that lets a sub-computation propose new
//! entries without mutating the committed set until they are merged.
use vstd::prelude::*;

verus! {

/// The committed bindings, viewed as a `Map<u64, u64>` from pseudo-register id
/// to stack offset. Entries are kept in insertion order and keys never repeat.
#[derive(Debug)]
pub struct AppendOnlyHashMap {
    entries: Vec<(u64, u64)>,
}

impl Clone for AppendOnlyHashMap {
    fn clone(&self) -> (r: Self)
        ensures
            r.kseq() == self.kseq(),
            r@ == self@,
            r.wf() == self.wf(),
    {
        let n = self.entries.len();
        let mut entries: Vec<(u64, u64)> = Vec::new();
        let mut i: usize = 0;
        while i < n
            invariant
                n == self.entries.len(),
                0 <= i <= n,
                entries@ == self.entries@.take(i as int),
            decreases n - i,
        {
            entries.push(self.entries[i]);
            i = i + 1;
        }
        proof {
            assert(entries@ =~= self.entries@);
        }
        AppendOnlyHashMap { entries }
    }
}

/// The map denoted by a sequence of key/value pairs, later entries winning.
pub open spec fn seq_to_map(s: Seq<(u64, u64)>) -> Map<u64, u64>
    decreases s.len(),
{
    if s.len() == 0 {
        Map::empty()
    } else {
        seq_to_map(s.drop_last()).insert(s.last().0, s.last().1)
    }
}

/// Whether the keys of a sequence of entries are pairwise distinct.
pub open spec fn distinct_keys(s: Seq<(u64, u64)>) -> bool {
    forall|i: int, j: int| 0 <= i < j < s.len() ==> (#[trigger] s[i]).0 != (#[trigger] s[j]).0
}

pub proof fn lemma_seq_to_map_contains(s: Seq<(u64, u64)>, k: u64)
    ensures
        seq_to_map(s).contains_key(k) <==> exists|i: int| 0 <= i < s.len() && (#[trigger] s[i]).0 == k,
    decreases s.len(),
{
    if s.len() > 0 {
        lemma_seq_to_map_contains(s.drop_last(), k);
        if seq_to_map(s).contains_key(k) {
            if s.last().0 != k {
                let i = choose|i: int| 0 <= i < s.drop_last().len() && (#[trigger] s.drop_last()[i]).0 == k;
                assert(s[i].0 == k);
            }
        } else {
            assert(forall|i: int| 0 <= i < s.len() - 1 ==> s.drop_last()[i] == (#[trigger] s[i]));
        }
    }
}

pub proof fn lemma_seq_to_map_last_wins(s: Seq<(u64, u64)>, i: int)
    requires
        distinct_keys(s),
        0 <= i < s.len(),
    ensures
        seq_to_map(s).contains_key(s[i].0),
        seq_to_map(s)[s[i].0] == s[i].1,
    decreases s.len(),
{
    if i == s.len() - 1 {
        lemma_seq_to_map_contains(s, s[i].0);
    } else {
        assert(forall|j: int| 0 <= j < s.len() - 1 ==> s.drop_last()[j] == (#[trigger] s[j]));
        lemma_seq_to_map_last_wins(s.drop_last(), i);
    }
}

impl View for AppendOnlyHashMap {
    type V = Map<u64, u64>;

    closed spec fn view(&self) -> Map<u64, u64> {
        seq_to_map(self.entries@)
    }
}

impl AppendOnlyHashMap {
    /// The entries in insertion order.
    pub closed spec fn kseq(self) -> Seq<(u64, u64)> {
        self.entries@
    }

    /// Well-formedness: no key occurs twice.
    pub closed spec fn wf(self) -> bool {
        distinct_keys(self.entries@)
    }

    pub fn new() -> (r: AppendOnlyHashMap)
        ensures
            r.wf(),
            r@ == Map::<u64, u64>::empty(),
            r.kseq() == Seq::<(u64, u64)>::empty(),
    {
        AppendOnlyHashMap { entries: Vec::new() }
    }

    pub fn contains_key(&self, key: &u64) -> (r: bool)
        requires
            self.wf(),
        ensures
            r == self@.contains_key(*key),
    {
        proof {
            lemma_seq_to_map_contains(self.entries@, *key);
        }
        let n = self.entries.len();
        let mut i: usize = 0;
        while i < n
            invariant
                n == self.entries.len(),
                0 <= i <= n,
                forall|j: int| 0 <= j < i ==> (#[trigger] self.entries@[j]).0 != *key,
            decreases n - i,
        {
            if self.entries[i].0 == *key {
                proof {
                    lemma_seq_to_map_contains(self.entries@, *key);
                    assert((i as int) < self.entries@.len()
                        && (#[trigger] self.entries@[i as int]).0 == *key);
                }
                return true;
            }
            i = i + 1;
        }
        false
    }

    pub fn get(&self, key: &u64) -> (r: Option<&u64>)
        requires
            self.wf(),
        ensures
            match r {
                Some(v) => self@.contains_key(*key) && *v == self@[*key],
                None => !self@.contains_key(*key),
            },
    {
        proof {
            lemma_seq_to_map_contains(self.entries@, *key);
        }
        let n = self.entries.len();
        let mut i: usize = 0;
        while i < n
            invariant
                n == self.entries.len(),
                0 <= i <= n,
                self.wf(),
                forall|j: int| 0 <= j < i ==> (#[trigger] self.entries@[j]).0 != *key,
            decreases n - i,
        {
            if self.entries[i].0 == *key {
                proof {
                    lemma_seq_to_map_last_wins(self.entries@, i as int);
                }
                return Some(&self.entries[i].1);
            }
            i = i + 1;
        }
        None
    }

    /// Adds a binding; refuses a key that is already bound.
    pub fn insert(&mut self, key: u64, value: u64) -> (r: Result<Option<u64>, ()>)
        requires
            old(self).wf(),
        ensures
            final(self).wf(),
            if old(self)@.contains_key(key) {
                r == Result::<Option<u64>, ()>::Err(()) && *final(self) == *old(self)
            } else {
                r == Result::<Option<u64>, ()>::Ok(Option::<u64>::None)
                    && final(self)@ == old(self)@.insert(key, value)
                    && final(self).kseq() == old(self).kseq().push((key, value))
            },
    {
        if self.contains_key(&key) {
            Err(())
        } else {
            proof {
                lemma_seq_to_map_contains(self.entries@, key);
            }
            self.entries.push((key, value));
            assert(self.entries@.drop_last() == old(self).entries@);
            Ok(None)
        }
    }
}

/// Whether two binding sets share no key.
pub open spec fn disjoint_doms(m1: Map<u64, u64>, m2: Map<u64, u64>) -> bool {
    forall|k: u64| #[trigger] m1.contains_key(k) ==> !m2.contains_key(k)
}

impl AppendOnlyHashMap {
    /// Direct access to the committed entries, in insertion order.
    pub fn get_inner_map(&self) -> (r: &Vec<(u64, u64)>)
        ensures
            r@ == self.kseq(),
    {
        &self.entries
    }

    /// Merges every binding of `changes` into this map; refuses the whole batch
    /// and leaves this map unchanged when any key of `changes` is already bound.
    pub fn apply_changes(&mut self, changes: &AppendOnlyHashMap) -> (r: Result<(), ()>)
        requires
            old(self).wf(),
            changes.wf(),
        ensures
            final(self).wf(),
            if disjoint_doms(old(self)@, changes@) {
                r == Result::<(), ()>::Ok(())
                    && final(self)@ == old(self)@.union_prefer_right(changes@)
                    && final(self).kseq() == old(self).kseq() + changes.kseq()
            } else {
                r == Result::<(), ()>::Err(()) && *final(self) == *old(self)
            },
    {
        let n = changes.entries.len();
        let mut i: usize = 0;
        while i < n
            invariant
                n == changes.entries.len(),
                0 <= i <= n,
                self.wf(),
                changes.wf(),
                *self == *old(self),
                forall|j: int| 0 <= j < i ==> !self@.contains_key((#[trigger] changes.entries@[j]).0),
            decreases n - i,
        {
            if self.contains_key(&changes.entries[i].0) {
                proof {
                    lemma_seq_to_map_last_wins(changes.entries@, i as int);
                }
                return Err(());
            }
            i = i + 1;
        }
        proof {
            assert(disjoint_doms(self@, changes@)) by {
                if !disjoint_doms(self@, changes@) {
                    let k = choose|k: u64| #[trigger] self@.contains_key(k) && changes@.contains_key(k);
                    lemma_seq_to_map_contains(changes.entries@, k);
                }
            }
        }
        let mut i: usize = 0;
        while i < n
            invariant
                n == changes.entries.len(),
                0 <= i <= n,
                self.wf(),
                changes.wf(),
                disjoint_doms(old(self)@, changes@),
                self@ == old(self)@.union_prefer_right(seq_to_map(changes.entries@.take(i as int))),
                self.kseq() == old(self).kseq() + changes.entries@.take(i as int),
            decreases n - i,
        {
            let k = changes.entries[i].0;
            let v = changes.entries[i].1;
            proof {
                lemma_seq_to_map_contains(changes.entries@.take(i as int), k);
                assert(forall|j: int|
                    0 <= j < i ==> changes.entries@.take(i as int)[j] == (#[trigger] changes.entries@[j]));
                lemma_seq_to_map_last_wins(changes.entries@, i as int);
                assert(!self@.contains_key(k));
            }
            let ghost prev = *self;
            let res = self.insert(k, v);
            proof {
                assert(res == Result::<Option<u64>, ()>::Ok(Option::<u64>::None));
                assert(changes.entries@.take(i + 1 as int).drop_last() == changes.entries@.take(i as int));
                assert(changes.entries@.take(i + 1 as int).last() == changes.entries@[i as int]);
                assert(seq_to_map(changes.entries@.take(i + 1 as int))
                    == seq_to_map(changes.entries@.take(i as int)).insert(k, v));
                assert(self@ == old(self)@.union_prefer_right(
                    seq_to_map(changes.entries@.take(i + 1 as int)))) by {
                    assert(prev@.insert(k, v) =~= old(self)@.union_prefer_right(
                        seq_to_map(changes.entries@.take(i + 1 as int))));
                }
                assert(self.kseq() =~= old(self).kseq() + changes.entries@.take(i + 1 as int));
            }
            i = i + 1;
        }
        proof {
            assert(changes.entries@.take(n as int) == changes.entries@);
            assert(self.kseq() == old(self).kseq() + changes.kseq());
        }
        Ok(())
    }
}

/// A read-through overlay over an already-committed binding set: lookups see
/// the committed bindings and the proposals, proposals accumulate locally
/// until `build_changes` hands them back for an explicit merge.
#[derive(Clone, Debug)]
pub struct BufferedHashMap {
    read_only: AppendOnlyHashMap,
    buffer: AppendOnlyHashMap,
}

impl View for BufferedHashMap {
    type V = Map<u64, u64>;

    closed spec fn view(&self) -> Map<u64, u64> {
        self.read_only@.union_prefer_right(self.buffer@)
    }
}

impl BufferedHashMap {
    /// The committed bindings this overlay reads through to.
    pub closed spec fn base_view(self) -> Map<u64, u64> {
        self.read_only@
    }

    /// The proposals made through this overlay so far.
    pub closed spec fn buffer_view(self) -> Map<u64, u64> {
        self.buffer@
    }

    pub closed spec fn wf(self) -> bool {
        self.read_only.wf() && self.buffer.wf() && disjoint_doms(self.read_only@, self.buffer@)
    }

    pub open spec fn views_ok(self) -> bool {
        self@ == self.base_view().union_prefer_right(self.buffer_view())
    }

    /// Opens an overlay over an already-materialized committed set.
    pub fn from_base(base: AppendOnlyHashMap) -> (r: BufferedHashMap)
        requires
            base.wf(),
        ensures
            r.wf(),
            r.base_view() == base@,
            r.buffer_view() == Map::<u64, u64>::empty(),
            r@ == base@,
    {
        let r = BufferedHashMap { read_only: base, buffer: AppendOnlyHashMap::new() };
        proof {
            assert(r@ =~= r.base_view());
        }
        r
    }

    pub fn new<M: DiffableHashMap>(base: &M) -> (r: BufferedHashMap)
        requires
            base.inv(),
        ensures
            r.wf(),
            r.base_view() == base.contents(),
            r.buffer_view() == Map::<u64, u64>::empty(),
            r@ == base.contents(),
    {
        BufferedHashMap::from_base(base.to_hash_map())
    }

    /// Materializes committed bindings and proposals into one committed set.
    pub fn snapshot_all(&self) -> (r: AppendOnlyHashMap)
        requires
            self.wf(),
        ensures
            r.wf(),
            r@ == self@,
    {
        let mut r = self.read_only.clone();
        let res = r.apply_changes(&self.buffer);
        proof {
            assert(res == Result::<(), ()>::Ok(()));
            assert(r@ =~= self@);
        }
        r
    }

    /// The committed bindings alone, without the proposals.
    pub fn get_source_ref(&self) -> (r: &AppendOnlyHashMap)
        ensures
            r@ == self.base_view(),
            self.wf() ==> r.wf(),
    {
        &self.read_only
    }

    pub fn get(&self, key: &u64) -> (r: Option<&u64>)
        requires
            self.wf(),
        ensures
            match r {
                Some(v) => self@.contains_key(*key) && *v == self@[*key],
                None => !self@.contains_key(*key),
            },
    {
        let buffered = self.buffer.get(key);
        match buffered {
            Some(v) => Some(v),
            None => self.read_only.get(key),
        }
    }

    /// Proposes a binding; refuses a key already committed or already proposed.
    pub fn insert(&mut self, key: u64, value: u64) -> (r: Result<Option<u64>, ()>)
        requires
            old(self).wf(),
        ensures
            final(self).wf(),
            final(self).base_view() == old(self).base_view(),
            if old(self)@.contains_key(key) {
                r == Result::<Option<u64>, ()>::Err(()) && *final(self) == *old(self)
            } else {
                r == Result::<Option<u64>, ()>::Ok(Option::<u64>::None)
                    && final(self)@ == old(self)@.insert(key, value)
                    && final(self).buffer_view() == old(self).buffer_view().insert(key, value)
            },
    {
        if self.read_only.contains_key(&key) || self.buffer.contains_key(&key) {
            Err(())
        } else {
            let r = self.buffer.insert(key, value);
            proof {
                assert(self@ =~= old(self)@.insert(key, value));
            }
            r
        }
    }

    /// Hands back the proposals accumulated so far.
    pub fn build_changes(&self) -> (r: AppendOnlyHashMap)
        ensures
            r@ == self.buffer_view(),
            self.wf() ==> r.wf(),
    {
        self.buffer.clone()
    }

    /// Merges a batch of proposals; refuses the whole batch when any key is
    /// already visible through this overlay.
    pub fn apply_changes(&mut self, changes: &AppendOnlyHashMap) -> (r: Result<(), ()>)
        requires
            old(self).wf(),
            changes.wf(),
        ensures
            final(self).wf(),
            final(self).base_view() == old(self).base_view(),
            if disjoint_doms(old(self)@, changes@) {
                r == Result::<(), ()>::Ok(())
                    && final(self)@ == old(self)@.union_prefer_right(changes@)
                    && final(self).buffer_view() == old(self).buffer_view().union_prefer_right(changes@)
            } else {
                r == Result::<(), ()>::Err(()) && *final(self) == *old(self)
            },
    {
        let n = changes.entries.len();
        let mut i: usize = 0;
        while i < n
            invariant
                n == changes.entries.len(),
                0 <= i <= n,
                self.wf(),
                changes.wf(),
                *self == *old(self),
                forall|j: int| 0 <= j < i ==> !self@.contains_key((#[trigger] changes.entries@[j]).0),
            decreases n - i,
        {
            let k = changes.entries[i].0;
            if self.read_only.contains_key(&k) || self.buffer.contains_key(&k) {
                proof {
                    lemma_seq_to_map_last_wins(changes.entries@, i as int);
                    assert(self@.contains_key(k));
                    assert(changes@.contains_key(k));
                    assert(!disjoint_doms(self@, changes@));
                }
                return Err(());
            }
            i = i + 1;
        }
        proof {
            assert(disjoint_doms(self@, changes@)) by {
                assert forall|k: u64| #[trigger] self@.contains_key(k) implies !changes@.contains_key(
                    k,
                ) by {
                    lemma_seq_to_map_contains(changes.entries@, k);
                }
            }
            assert(disjoint_doms(self.buffer@, changes@)) by {
                assert forall|k: u64| #[trigger] self.buffer@.contains_key(k) implies !changes@
                    .contains_key(k) by {
                    assert(self@.contains_key(k));
                }
            }
        }
        let res = self.buffer.apply_changes(changes);
        proof {
            assert(res == Result::<(), ()>::Ok(()));
            assert(self@ =~= old(self)@.union_prefer_right(changes@));
            assert(self.buffer@ == old(self).buffer@.union_prefer_right(changes@));
            assert(disjoint_doms(self.read_only@, self.buffer@)) by {
                assert forall|k: u64| #[trigger] self.read_only@.contains_key(k)
                    implies !self.buffer@.contains_key(k) by {
                    assert(old(self)@.contains_key(k));
                    assert(!old(self).buffer@.contains_key(k));
                    assert(!changes@.contains_key(k));
                }
            }
        }
        res
    }
}

/// The shared face of the ledger and its overlay: a diffable binding store.
pub trait DiffableHashMap: Sized {
    /// The bindings visible through this store.
    spec fn contents(&self) -> Map<u64, u64>;

    /// The store's internal well-formedness.
    spec fn inv(&self) -> bool;

    /// The proposals not yet committed beneath this store.
    spec fn changes_view(&self) -> Map<u64, u64>;

    fn get(&self, key: &u64) -> (r: Option<&u64>)
        requires
            self.inv(),
        ensures
            match r {
                Some(v) => self.contents().contains_key(*key) && *v == self.contents()[*key],
                None => !self.contents().contains_key(*key),
            },
    ;

    fn contains_key(&self, key: &u64) -> (r: bool)
        requires
            self.inv(),
        ensures
            r == self.contents().contains_key(*key),
    ;

    fn insert(&mut self, key: u64, value: u64) -> (r: Result<Option<u64>, ()>)
        requires
            old(self).inv(),
        ensures
            final(self).inv(),
            if old(self).contents().contains_key(key) {
                r == Result::<Option<u64>, ()>::Err(()) && final(self).contents() == old(self).contents()
            } else {
                r == Result::<Option<u64>, ()>::Ok(Option::<u64>::None)
                    && final(self).contents() == old(self).contents().insert(key, value)
            },
    ;

    /// Materializes every binding visible here into one committed set.
    fn to_hash_map(&self) -> (r: AppendOnlyHashMap)
        requires
            self.inv(),
        ensures
            r.wf(),
            r@ == self.contents(),
    ;

    fn build_changes(&self) -> (r: AppendOnlyHashMap)
        requires
            self.inv(),
        ensures
            r.wf(),
            r@ == self.changes_view(),
    ;

    fn apply_changes(&mut self, changes: &AppendOnlyHashMap) -> (r: Result<(), ()>)
        requires
            old(self).inv(),
            changes.wf(),
        ensures
            final(self).inv(),
            if disjoint_doms(old(self).contents(), changes@) {
                r == Result::<(), ()>::Ok(())
                    && final(self).contents() == old(self).contents().union_prefer_right(changes@)
            } else {
                r == Result::<(), ()>::Err(()) && final(self).contents() == old(self).contents()
            },
    ;

    /// Opens a fresh overlay that reads through to this store.
    fn to_buffered(&self) -> (r: BufferedHashMap)
        requires
            self.inv(),
        ensures
            r.wf(),
            r.base_view() == self.contents(),
            r.buffer_view() == Map::<u64, u64>::empty(),
            r@ == self.contents(),
    ;
}

impl DiffableHashMap for AppendOnlyHashMap {
    open spec fn contents(&self) -> Map<u64, u64> {
        self@
    }

    open spec fn inv(&self) -> bool {
        self.wf()
    }

    open spec fn changes_view(&self) -> Map<u64, u64> {
        Map::empty()
    }

    fn get(&self, key: &u64) -> (r: Option<&u64>) {
        AppendOnlyHashMap::get(self, key)
    }

    fn contains_key(&self, key: &u64) -> (r: bool) {
        AppendOnlyHashMap::contains_key(self, key)
    }

    fn insert(&mut self, key: u64, value: u64) -> (r: Result<Option<u64>, ()>) {
        AppendOnlyHashMap::insert(self, key, value)
    }

    fn to_hash_map(&self) -> (r: AppendOnlyHashMap) {
        self.clone()
    }

    fn build_changes(&self) -> (r: AppendOnlyHashMap) {
        AppendOnlyHashMap::new()
    }

    fn apply_changes(&mut self, changes: &AppendOnlyHashMap) -> (r: Result<(), ()>) {
        AppendOnlyHashMap::apply_changes(self, changes)
    }

    fn to_buffered(&self) -> (r: BufferedHashMap) {
        BufferedHashMap::from_base(self.clone())
    }
}

impl DiffableHashMap for BufferedHashMap {
    open spec fn contents(&self) -> Map<u64, u64> {
        self@
    }

    open spec fn inv(&self) -> bool {
        self.wf()
    }

    open spec fn changes_view(&self) -> Map<u64, u64> {
        self.buffer_view()
    }

    fn get(&self, key: &u64) -> (r: Option<&u64>) {
        BufferedHashMap::get(self, key)
    }

    fn contains_key(&self, key: &u64) -> (r: bool) {
        let r = BufferedHashMap::get(self, key);
        r.is_some()
    }

    fn insert(&mut self, key: u64, value: u64) -> (r: Result<Option<u64>, ()>) {
        BufferedHashMap::insert(self, key, value)
    }

    fn to_hash_map(&self) -> (r: AppendOnlyHashMap) {
        self.snapshot_all()
    }

    fn build_changes(&self) -> (r: AppendOnlyHashMap) {
        BufferedHashMap::build_changes(self)
    }

    fn apply_changes(&mut self, changes: &AppendOnlyHashMap) -> (r: Result<(), ()>) {
        BufferedHashMap::apply_changes(self, changes)
    }

    fn to_buffered(&self) -> (r: BufferedHashMap) {
        BufferedHashMap::from_base(self.snapshot_all())
    }
}

/// A node the stack allocation pass rewrites: it returns the new node, the
/// next free stack offset, and the bindings it discovered, never mutating the
/// ledger it read from.
pub trait ToStackAllocated: View + Sized {
    /// The rewritten node.
    spec fn alloc_result_view(&self, sv: nat, m: Map<u64, u64>) -> Self::V;

    /// The next free stack offset after the rewrite.
    spec fn alloc_new_sv(&self, sv: nat, m: Map<u64, u64>) -> nat;

    /// The bindings the rewrite discovered.
    spec fn alloc_new_binds(&self, sv: nat, m: Map<u64, u64>) -> Map<u64, u64>;

    fn to_stack_allocated<M: DiffableHashMap>(&self, stack_value: u64, allocations: &M) -> (r: (
        Self,
        StackAllocationResult,
    ))
        requires
            allocations.inv(),
            self.alloc_new_sv(stack_value as nat, allocations.contents()) <= u64::MAX as nat,
        ensures
            r.0@ == self.alloc_result_view(stack_value as nat, allocations.contents()),
            r.1.new_stack_value as nat == self.alloc_new_sv(
                stack_value as nat,
                allocations.contents(),
            ),
            r.1.new_stack_allocations@ == self.alloc_new_binds(
                stack_value as nat,
                allocations.contents(),
            ),
            r.1.new_stack_allocations.wf(),
    ;
}

/// What one step of the stack allocation pass reports back: the next free
/// stack offset after the step, and the bindings the step discovered.
#[derive(Clone, Debug)]
pub struct StackAllocationResult {
    pub new_stack_value: u64,
    pub new_stack_allocations: AppendOnlyHashMap,
}

impl StackAllocationResult {
    pub fn new(new_stack_value: u64) -> (r: StackAllocationResult)
        ensures
            r.new_stack_value == new_stack_value,
            r.new_stack_allocations@ == Map::<u64, u64>::empty(),
            r.new_stack_allocations.wf(),
    {
        StackAllocationResult { new_stack_value, new_stack_allocations: AppendOnlyHashMap::new() }
    }

    pub fn new_with_allocations(new_stack_value: u64, new_var_stack_allocations: AppendOnlyHashMap) -> (r:
        StackAllocationResult)
        ensures
            r.new_stack_value == new_stack_value,
            r.new_stack_allocations == new_var_stack_allocations,
    {
        StackAllocationResult { new_stack_value, new_stack_allocations: new_var_stack_allocations }
    }

    pub fn new_from_buffered(new_stack_value: u64, buffered_allocations: &BufferedHashMap) -> (r:
        StackAllocationResult)
        ensures
            r.new_stack_value == new_stack_value,
            r.new_stack_allocations@ == buffered_allocations.buffer_view(),
            buffered_allocations.wf() ==> r.new_stack_allocations.wf(),
    {
        StackAllocationResult {
            new_stack_value,
            new_stack_allocations: buffered_allocations.build_changes(),
        }
    }
}

} // verus!
