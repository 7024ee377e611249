use vstd::prelude::*;

verus! {

broadcast use vstd::std_specs::vec::axiom_spec_len;

/// Elements per chunk (fixed size).
pub const CHUNK_SIZE: usize = 256;

/// How many chunks a fresh slab preallocates.
pub const CHUNKS_PREALLOCATED: usize = 8;

/// Number of empty slots in a run of slots.
pub open spec fn vacancies<T>(s: Seq<Option<T>>) -> nat
    decreases s.len(),
{
    if s.len() == 0 {
        0
    } else {
        vacancies(s.drop_last()) + if s.last() is None { 1nat } else { 0nat }
    }
}

/// There are no more empty slots than slots.
pub proof fn lemma_vacancies_bound<T>(s: Seq<Option<T>>)
    ensures
        vacancies(s) <= s.len(),
    decreases s.len(),
{
    if s.len() > 0 {
        lemma_vacancies_bound(s.drop_last());
    }
}

/// A run of slots has no empty slot exactly when every slot is occupied.
pub proof fn lemma_vacancies_zero<T>(s: Seq<Option<T>>)
    ensures
        vacancies(s) == 0 <==> forall|i: int| 0 <= i < s.len() ==> s[i] is Some,
    decreases s.len(),
{
    if s.len() > 0 {
        lemma_vacancies_zero(s.drop_last());
        if vacancies(s) == 0 {
            assert forall|i: int| 0 <= i < s.len() implies s[i] is Some by {
                if i < s.len() - 1 {
                    assert(s.drop_last()[i] is Some);
                }
            }
        }
        if forall|i: int| 0 <= i < s.len() ==> s[i] is Some {
            assert forall|i: int| 0 <= i < s.drop_last().len() implies s.drop_last()[i] is Some by {
                assert(s[i] is Some);
            }
        }
    }
}

/// Where every slot is empty, every slot counts.
pub proof fn lemma_vacancies_all_empty<T>(s: Seq<Option<T>>)
    requires
        forall|i: int| 0 <= i < s.len() ==> s[i] is None,
    ensures
        vacancies(s) == s.len(),
    decreases s.len(),
{
    if s.len() > 0 {
        assert forall|i: int| 0 <= i < s.drop_last().len() implies s.drop_last()[i] is None by {
            assert(s[i] is None);
        }
        lemma_vacancies_all_empty(s.drop_last());
    }
}

/// Changing one slot changes the count by what that slot was and is.
pub proof fn lemma_vacancies_update<T>(s: Seq<Option<T>>, i: int, v: Option<T>)
    requires
        0 <= i < s.len(),
    ensures
        vacancies(s.update(i, v)) + (if s[i] is None { 1int } else { 0int }) == vacancies(s) + (if v is None { 1int } else { 0int }),
    decreases s.len(),
{
    let u = s.update(i, v);
    if i == s.len() - 1 {
        assert(u.drop_last() =~= s.drop_last());
    } else {
        assert(u.drop_last() =~= s.drop_last().update(i, v));
        lemma_vacancies_update(s.drop_last(), i, v);
    }
}

/// Slab-like fixed size memory chunk with a count of its empty slots: the
/// piece by which a slab grows.
pub struct Chunk<T> {
    slots: Vec<Option<T>>,
    vacant: usize,
}

impl<T> Chunk<T> {
    pub closed spec fn slots(&self) -> Seq<Option<T>> {
        self.slots@
    }

    pub closed spec fn vacant(&self) -> nat {
        self.vacant as nat
    }

    /// A chunk always has `CHUNK_SIZE` slots and counts its empty ones exactly.
    pub open spec fn wf(&self) -> bool {
        &&& self.slots().len() == CHUNK_SIZE
        &&& self.vacant() == vacancies(self.slots())
    }

    pub fn new() -> (c: Self)
        ensures
            c.wf(),
            c.vacant() == CHUNK_SIZE,
            forall|i: int| 0 <= i < CHUNK_SIZE ==> c.slots()[i] is None,
    {
        let mut slots: Vec<Option<T>> = Vec::with_capacity(CHUNK_SIZE);
        let mut i: usize = 0;
        while i < CHUNK_SIZE
            invariant
                i <= CHUNK_SIZE,
                slots@.len() == i,
                forall|j: int| 0 <= j < i ==> slots@[j] is None,
            decreases CHUNK_SIZE - i,
        {
            slots.push(None);
            i += 1;
        }
        proof {
            lemma_vacancies_all_empty(slots@);
        }
        Chunk { slots, vacant: CHUNK_SIZE }
    }
}

/// The slots of chunk `c` of a slab: slot `i` lies in chunk `i / CHUNK_SIZE`.
pub open spec fn chunk_slots<T>(s: Seq<Option<T>>, c: int) -> Seq<Option<T>> {
    s.subrange(c * CHUNK_SIZE, c * CHUNK_SIZE + CHUNK_SIZE)
}

/// Changing slot `i` of a slab changes the chunk that `i` lies in, at the
/// place of `i` in that chunk, and no other chunk.
pub proof fn lemma_chunk_update<T>(s: Seq<Option<T>>, i: int, v: Option<T>, c: int)
    requires
        0 <= i < s.len(),
        0 <= c,
        c * CHUNK_SIZE + CHUNK_SIZE <= s.len(),
    ensures
        chunk_slots(s.update(i, v), c) == if c == i / CHUNK_SIZE as int {
            chunk_slots(s, c).update(i - c * CHUNK_SIZE, v)
        } else {
            chunk_slots(s, c)
        },
{
    if c == i / CHUNK_SIZE as int {
        assert(chunk_slots(s.update(i, v), c) =~= chunk_slots(s, c).update(i - c * CHUNK_SIZE, v));
    } else {
        assert(chunk_slots(s.update(i, v), c) =~= chunk_slots(s, c));
    }
}

/// `i` is the lowest empty slot of `s`.
pub open spec fn is_first_vacant<T>(s: Seq<Option<T>>, i: int) -> bool {
    &&& 0 <= i < s.len()
    &&& s[i] is None
    &&& forall|j: int| 0 <= j < i ==> s[j] is Some
}

/// `s` has no empty slot.
pub open spec fn is_full<T>(s: Seq<Option<T>>) -> bool {
    forall|j: int| 0 <= j < s.len() ==> s[j] is Some
}

/// One fresh chunk's worth of empty slots.
pub open spec fn empty_chunk<T>() -> Seq<Option<T>> {
    Seq::new(CHUNK_SIZE as nat, |i: int| None::<T>)
}

/// `i` is the slot that the next insertion into `s` fills: the lowest empty
/// one, or the first slot of a fresh chunk when `s` is full.
pub open spec fn is_insert_slot<T>(s: Seq<Option<T>>, i: int) -> bool {
    if is_full(s) {
        i == s.len()
    } else {
        is_first_vacant(s, i)
    }
}

/// The slots after `t` was inserted at its insert slot `i`.
pub open spec fn with_inserted<T>(s: Seq<Option<T>>, i: int, t: T) -> Seq<Option<T>> {
    (if is_full(s) {
        s + empty_chunk::<T>()
    } else {
        s
    }).update(i, Some(t))
}

/// The slots after slot `i` was emptied; no change when there is no such slot.
pub open spec fn with_removed<T>(s: Seq<Option<T>>, i: int) -> Seq<Option<T>> {
    if 0 <= i < s.len() {
        s.update(i, None)
    } else {
        s
    }
}

/// One mutation of the slab that does not remove handle `h`: an insertion, or
/// the removal of another handle.
pub open spec fn step_keeping<T>(a: Seq<Option<T>>, b: Seq<Option<T>>, h: int) -> bool {
    ||| exists|i: int, t: T| is_insert_slot(a, i) && b == #[trigger] with_inserted(a, i, t)
    ||| exists|i: int| i != h && b == #[trigger] with_removed(a, i)
}

/// An insertion never hands out a handle that is live: the slot it fills was
/// empty or did not exist, it then holds the new value, and every live
/// handle still finds its own value.
pub proof fn law_insert_never_aliases<T>(s: Seq<Option<T>>, i: int, t: T)
    requires
        is_insert_slot(s, i),
    ensures
        !(0 <= i < s.len() && s[i] is Some),
        0 <= i < with_inserted(s, i, t).len(),
        with_inserted(s, i, t)[i] == Some(t),
        forall|h: int| 0 <= h < s.len() && s[h] is Some ==> with_inserted(s, i, t)[h] == s[h],
{
}

/// Removing one handle leaves every other live handle with its value.
pub proof fn law_remove_keeps_others<T>(s: Seq<Option<T>>, i: int)
    ensures
        with_removed(s, i).len() == s.len(),
        0 <= i < s.len() ==> with_removed(s, i)[i] is None,
        forall|h: int| 0 <= h < s.len() && h != i ==> with_removed(s, i)[h] == s[h],
{
}

/// Slab stability: through any sequence of insertions and removals, a handle
/// that is live at the start and is not itself removed keeps its value.
pub proof fn law_slab_stability<T>(trace: Seq<Seq<Option<T>>>, h: int)
    requires
        trace.len() > 0,
        0 <= h < trace[0].len(),
        trace[0][h] is Some,
        forall|k: int| 0 <= k < trace.len() - 1 ==> step_keeping(#[trigger] trace[k], trace[k + 1], h),
    ensures
        forall|k: int| 0 <= k < trace.len() ==> h < (#[trigger] trace[k]).len() && trace[k][h] == trace[0][h],
    decreases trace.len(),
{
    if trace.len() > 1 {
        let init = trace.drop_last();
        assert forall|k: int| 0 <= k < init.len() - 1 implies step_keeping(#[trigger] init[k], init[k + 1], h) by {
            assert(step_keeping(trace[k], trace[k + 1], h));
        }
        law_slab_stability(init, h);
        let n = trace.len() - 1;
        let a = trace[n - 1];
        let b = trace[n];
        assert(a == init[n - 1]);
        assert(step_keeping(trace[n - 1], trace[n - 1 + 1], h));
        assert forall|k: int| 0 <= k < trace.len() implies h < (#[trigger] trace[k]).len() && trace[k][h] == trace[0][h] by {
            if k < n {
                assert(trace[k] == init[k]);
            }
        }
    }
}

/// The values that `before` holds and `after` no longer does, in slot order.
pub open spec fn taken<T>(before: Seq<Option<T>>, after: Seq<Option<T>>) -> Seq<T>
    recommends
        before.len() == after.len(),
    decreases before.len(),
{
    if before.len() == 0 || after.len() != before.len() {
        Seq::empty()
    } else {
        let rest = taken(before.drop_last(), after.drop_last());
        if before.last() is Some && after.last() is None {
            rest.push(before.last()->0)
        } else {
            rest
        }
    }
}

/// `after` is `before` after a bulk removal by `f`: an occupied slot is either
/// emptied, and then `f` answered `true` on its value, or untouched, and then
/// `f` answered `false`. Empty slots stay empty.
pub open spec fn removed_by<T, F: Fn(&T) -> bool>(
    before: Seq<Option<T>>,
    after: Seq<Option<T>>,
    f: F,
) -> bool {
    &&& after.len() == before.len()
    &&& forall|i: int|
        0 <= i < before.len() && (#[trigger] before[i]) is None ==> after[i] is None
    &&& forall|i: int|
        0 <= i < before.len() && (#[trigger] before[i]) is Some ==> {
            ||| after[i] is None && call_ensures(f, (&before[i]->0,), true)
            ||| after[i] == before[i] && call_ensures(f, (&before[i]->0,), false)
        }
}

/// The values that `s` holds, in slot order.
pub open spec fn dense<T>(s: Seq<Option<T>>) -> Seq<T>
    decreases s.len(),
{
    if s.len() == 0 {
        Seq::empty()
    } else {
        match s.last() {
            Some(v) => dense(s.drop_last()).push(v),
            None => dense(s.drop_last()),
        }
    }
}

/// The dense list of the first `j + 1` slots is that of the first `j`,
/// with the value of slot `j` behind it if there is one.
pub proof fn lemma_dense_take_step<T>(s: Seq<Option<T>>, j: int)
    requires
        0 <= j < s.len(),
    ensures
        dense(s.take(j + 1)) == match s[j] {
            Some(v) => dense(s.take(j)).push(v),
            None => dense(s.take(j)),
        },
{
    assert(s.take(j + 1).drop_last() =~= s.take(j));
}

/// The dense list of the first `j` slots is the beginning of the dense
/// list of all slots.
pub proof fn lemma_dense_prefix<T>(s: Seq<Option<T>>, j: int)
    requires
        0 <= j <= s.len(),
    ensures
        dense(s.take(j)).len() <= dense(s).len(),
        forall|i: int| 0 <= i < dense(s.take(j)).len() ==> dense(s.take(j))[i] == dense(s)[i],
    decreases s.len() - j,
{
    if j == s.len() {
        assert(s.take(j) =~= s);
    } else {
        lemma_dense_prefix(s, j + 1);
        lemma_dense_take_step(s, j);
    }
}

/// The value of an occupied slot stands in the dense list behind the values
/// of all lower slots.
pub proof fn lemma_dense_index<T>(s: Seq<Option<T>>, h: int)
    requires
        0 <= h < s.len(),
        s[h] is Some,
    ensures
        dense(s.take(h)).len() < dense(s).len(),
        dense(s)[dense(s.take(h)).len() as int] == s[h]->0,
{
    lemma_dense_take_step(s, h);
    lemma_dense_prefix(s, h + 1);
}

/// A dense list does not shrink as slots are added.
pub proof fn lemma_dense_take_grows<T>(s: Seq<Option<T>>, a: int, b: int)
    requires
        0 <= a <= b <= s.len(),
    ensures
        dense(s.take(a)).len() <= dense(s.take(b)).len(),
{
    lemma_dense_prefix(s.take(b), a);
    assert(s.take(b).take(a) =~= s.take(a));
    assert(s.take(b).take(b) =~= s.take(b));
}

/// How many slots a slab has that was filled with `n` values in a row.
pub open spec fn refilled_len(n: nat) -> nat {
    if n <= CHUNKS_PREALLOCATED * CHUNK_SIZE {
        (CHUNKS_PREALLOCATED * CHUNK_SIZE) as nat
    } else {
        ((n + CHUNK_SIZE - 1) / CHUNK_SIZE as int * CHUNK_SIZE) as nat
    }
}

/// The slots of a fresh slab after `values` were inserted in a row: they
/// take the handles from 0 on.
pub open spec fn refilled<T>(values: Seq<T>) -> Seq<Option<T>> {
    Seq::new(
        refilled_len(values.len()),
        |i: int|
            if i < values.len() {
                Some(values[i])
            } else {
                None
            },
    )
}

/// One step of a bulk removal: slot `idx` of `prev` was looked at, and
/// emptied if `f` answered `hit == true` on its value. What held of the
/// slots below `idx` then holds of those up to `idx`, and the values taken
/// grow by that of slot `idx` if it was emptied.
pub proof fn lemma_removal_step<T, F: Fn(&T) -> bool>(
    orig: Seq<Option<T>>,
    prev: Seq<Option<T>>,
    now: Seq<Option<T>>,
    f: F,
    idx: int,
    hit: bool,
)
    requires
        0 <= idx < orig.len(),
        prev.len() == orig.len(),
        prev[idx] == orig[idx],
        removed_by(orig.take(idx), prev.take(idx), f),
        now == if hit {
            prev.update(idx, None)
        } else {
            prev
        },
        match orig[idx] {
            Some(t) => call_ensures(f, (&t,), hit),
            None => !hit,
        },
    ensures
        removed_by(orig.take(idx + 1), now.take(idx + 1), f),
        now.take(idx) == prev.take(idx),
        taken(orig.take(idx + 1), now.take(idx + 1)) == if hit {
            taken(orig.take(idx), prev.take(idx)).push(orig[idx]->0)
        } else {
            taken(orig.take(idx), prev.take(idx))
        },
{
    let o0 = orig.take(idx);
    let o1 = orig.take(idx + 1);
    let n0 = prev.take(idx);
    let n1 = now.take(idx + 1);
    assert(o1.drop_last() =~= o0);
    assert(n1.drop_last() =~= n0);
    assert(now.take(idx) =~= n0);
    assert forall|i: int| 0 <= i < o1.len() && (#[trigger] o1[i]) is Some implies {
        ||| n1[i] is None && call_ensures(f, (&o1[i]->0,), true)
        ||| n1[i] == o1[i] && call_ensures(f, (&o1[i]->0,), false)
    } by {
        if i < idx {
            assert(o0[i] is Some);
        }
    }
    assert forall|i: int| 0 <= i < o1.len() && (#[trigger] o1[i]) is None implies n1[i] is None by {
        if i < idx {
            assert(o0[i] is None);
        }
    }
}

/// What a bulk removal did to a slab it did to the slab without its last
/// slot.
pub proof fn lemma_removed_by_init<T, F: Fn(&T) -> bool>(
    before: Seq<Option<T>>,
    after: Seq<Option<T>>,
    f: F,
)
    requires
        removed_by(before, after, f),
        before.len() > 0,
    ensures
        removed_by(before.drop_last(), after.drop_last(), f),
{
    let b0 = before.drop_last();
    let a0 = after.drop_last();
    assert forall|i: int| 0 <= i < b0.len() && (#[trigger] b0[i]) is Some implies {
        ||| a0[i] is None && call_ensures(f, (&b0[i]->0,), true)
        ||| a0[i] == b0[i] && call_ensures(f, (&b0[i]->0,), false)
    } by {
        assert(before[i] is Some);
    }
    assert forall|i: int| 0 <= i < b0.len() && (#[trigger] b0[i]) is None implies a0[i] is None by {
        assert(before[i] is None);
    }
}

/// A bulk removal that took nothing changed nothing.
pub proof fn lemma_taken_none<T, F: Fn(&T) -> bool>(
    before: Seq<Option<T>>,
    after: Seq<Option<T>>,
    f: F,
)
    requires
        removed_by(before, after, f),
        taken(before, after).len() == 0,
    ensures
        after == before,
    decreases before.len(),
{
    if before.len() > 0 {
        let b0 = before.drop_last();
        let a0 = after.drop_last();
        lemma_removed_by_init(before, after, f);
        lemma_taken_none(b0, a0, f);
        let last = before.len() - 1;
        if before[last] is Some {
            assert(after[last] == before[last]);
        } else {
            assert(after[last] is None);
        }
        assert(after =~= a0.push(after[last]));
        assert(before =~= b0.push(before[last]));
    } else {
        assert(after =~= before);
    }
}

/// Growable container managing allocated chunks. The chunks lie one behind
/// the other in one vector of slots, so that a handle is an index into it
/// and every slot has a handle; beside it stands the count of empty slots
/// of each chunk. Its view is the sequence of all slots, in handle order.
pub struct ChunkList<T> {
    slots: Vec<Option<T>>,
    vacant: Vec<usize>,
}

impl<T> View for ChunkList<T> {
    type V = Seq<Option<T>>;

    closed spec fn view(&self) -> Seq<Option<T>> {
        self.slots@
    }
}

impl<T> ChunkList<T> {
    /// The slots are a whole number of chunks, and the empty slots of each
    /// chunk are counted exactly.
    pub closed spec fn wf(&self) -> bool {
        &&& self.slots@.len() == self.vacant@.len() * CHUNK_SIZE
        &&& forall|c: int|
            0 <= c < self.vacant@.len() ==> #[trigger] self.vacant@[c] == vacancies(
                chunk_slots(self.slots@, c),
            )
    }

    /// Every handle of a slab fits a `usize`.
    pub proof fn lemma_fits(&self)
        ensures
            self@.len() <= usize::MAX,
    {
        assert(self.slots@.len() == self.slots.len());
    }

    /// The slot at `idx` holds a value.
    pub open spec fn occupied(&self, idx: int) -> bool {
        0 <= idx < self@.len() && self@[idx] is Some
    }

    /// The number of slots is a whole number of chunks.
    pub proof fn lemma_len(&self)
        requires
            self.wf(),
        ensures
            self@.len() % CHUNK_SIZE as nat == 0,
    {
        assert((self.vacant@.len() * 256) % 256 == 0) by (nonlinear_arith);
    }

    /// Appends a fresh chunk of empty slots.
    fn grow(&mut self)
        requires
            old(self).wf(),
        ensures
            final(self).wf(),
            final(self)@ == old(self)@ + empty_chunk::<T>(),
    {
        let mut chunk: Chunk<T> = Chunk::new();
        let ghost fresh = chunk.slots@;
        let ghost n = self.vacant@.len() as int;
        self.slots.append(&mut chunk.slots);
        self.vacant.push(chunk.vacant);
        proof {
            assert(fresh =~= empty_chunk::<T>());
            assert((n + 1) * 256 == n * 256 + 256) by (nonlinear_arith);
            assert forall|c: int| 0 <= c < self.vacant@.len() implies #[trigger] self.vacant@[c]
                == vacancies(chunk_slots(self.slots@, c)) by {
                if c < n {
                    assert(c * 256 + 256 <= n * 256) by (nonlinear_arith)
                        requires
                            0 <= c < n,
                    ;
                    assert(chunk_slots(self.slots@, c) =~= chunk_slots(old(self).slots@, c));
                    assert(old(self).vacant@[c] == self.vacant@[c]);
                } else {
                    assert(chunk_slots(self.slots@, c) =~= fresh);
                }
            }
        }
    }

    /// Stores `v` in the existing slot `idx`, keeping the count of empty
    /// slots of its chunk exact, and hands back what the slot held.
    fn put(&mut self, idx: usize, v: Option<T>) -> (prev: Option<T>)
        requires
            old(self).wf(),
            idx < old(self)@.len(),
        ensures
            final(self).wf(),
            final(self)@ == old(self)@.update(idx as int, v),
            prev == old(self)@[idx as int],
    {
        let c = idx / CHUNK_SIZE;
        let ghost before = self.slots@;
        let ghost after = before.update(idx as int, v);
        let ghost n = self.vacant@.len() as int;
        proof {
            assert(c < n && c * 256 + 256 <= n * 256) by (nonlinear_arith)
                requires
                    idx < n * 256,
                    c == idx / 256,
            ;
            assert forall|k: int| 0 <= k < n implies chunk_slots(after, k) == if k == c {
                chunk_slots(before, k).update(idx - c * 256, v)
            } else {
                chunk_slots(before, k)
            } by {
                assert(k * 256 + 256 <= n * 256) by (nonlinear_arith)
                    requires
                        0 <= k < n,
                ;
                lemma_chunk_update(before, idx as int, v, k);
            }
            assert(chunk_slots(before, c as int)[idx - c * 256] == before[idx as int]);
            lemma_vacancies_update(chunk_slots(before, c as int), idx - c * 256, v);
            lemma_vacancies_bound(chunk_slots(after, c as int));
            assert(self.vacant@[c as int] == vacancies(chunk_slots(before, c as int)));
        }
        let was_empty = self.slots[idx].is_none();
        let is_empty = v.is_none();
        let mut v = v;
        std::mem::swap(&mut self.slots[idx], &mut v);
        let count = self.vacant[c];
        if was_empty && !is_empty {
            self.vacant.set(c, count - 1);
        } else if !was_empty && is_empty {
            self.vacant.set(c, count + 1);
        }
        proof {
            assert(self.slots@ =~= after);
            assert forall|k: int| 0 <= k < self.vacant@.len() implies #[trigger] self.vacant@[k]
                == vacancies(chunk_slots(self.slots@, k)) by {
                assert(old(self).vacant@[k] == vacancies(chunk_slots(before, k)));
            }
        }
        v
    }

    pub fn new() -> (list: Self)
        ensures
            list.wf(),
            list@.len() == CHUNKS_PREALLOCATED * CHUNK_SIZE,
            forall|i: int| 0 <= i < list@.len() ==> list@[i] is None,
    {
        let mut list: ChunkList<T> = ChunkList {
            slots: Vec::with_capacity(CHUNKS_PREALLOCATED * CHUNK_SIZE),
            vacant: Vec::with_capacity(CHUNKS_PREALLOCATED),
        };
        let mut n: usize = 0;
        while n < CHUNKS_PREALLOCATED
            invariant
                n <= CHUNKS_PREALLOCATED,
                list.wf(),
                list@.len() == n * CHUNK_SIZE,
                forall|i: int| 0 <= i < list@.len() ==> list@[i] is None,
            decreases CHUNKS_PREALLOCATED - n,
        {
            list.grow();
            n += 1;
        }
        list
    }

    /// Index of the first chunk with an empty slot, or the number of chunks when all are full.
    fn first_open_chunk(&self) -> (c: usize)
        requires
            self.wf(),
        ensures
            c <= self.vacant@.len(),
            forall|k: int| 0 <= k < c ==> self.vacant@[k] == 0,
            c < self.vacant@.len() ==> self.vacant@[c as int] != 0,
    {
        let mut c: usize = 0;
        while c < self.vacant.len() && self.vacant[c] == 0
            invariant
                c <= self.vacant@.len(),
                forall|k: int| 0 <= k < c ==> self.vacant@[k] == 0,
            decreases self.vacant@.len() - c,
        {
            c += 1;
        }
        c
    }

    /// Index of the lowest empty slot from `from` on and before `end`, or
    /// `end` where there is none.
    fn first_empty(&self, from: usize, end: usize) -> (i: usize)
        requires
            from <= end <= self@.len(),
        ensures
            from <= i <= end,
            forall|j: int| from <= j < i ==> self@[j] is Some,
            i < end ==> self@[i as int] is None,
    {
        let mut i: usize = from;
        while i < end && self.slots[i].is_some()
            invariant
                from <= i <= end <= self.slots@.len(),
                forall|j: int| from <= j < i ==> self.slots@[j] is Some,
            decreases end - i,
        {
            i += 1;
        }
        i
    }

    /// Stores `t` in the lowest empty slot, appending a fresh chunk when every
    /// slot is occupied, and returns that slot's index. The index named no
    /// value before and names `t` now, and every other slot is as it was.
    pub fn insert(&mut self, t: T) -> (idx: usize)
        requires
            old(self).wf(),
        ensures
            final(self).wf(),
            is_insert_slot(old(self)@, idx as int),
            final(self)@ == with_inserted(old(self)@, idx as int, t),
            !old(self).occupied(idx as int),
            final(self).occupied(idx as int),
            final(self)@[idx as int] == Some(t),
            forall|h: int|
                0 <= h < old(self)@.len() && h != idx ==> final(self)@[h] == old(self)@[h],
    {
        let c = self.first_open_chunk();
        let ghost n = self.vacant@.len() as int;
        proof {
            assert(c * 256 <= n * 256) by (nonlinear_arith)
                requires
                    0 <= c <= n,
            ;
            assert forall|j: int| 0 <= j < c * CHUNK_SIZE implies (#[trigger] self@[j]) is Some by {
                let k = j / CHUNK_SIZE as int;
                assert(self.vacant@[k] == 0);
                lemma_vacancies_zero(chunk_slots(self@, k));
                assert(chunk_slots(self@, k)[j - k * 256] is Some);
            }
        }
        if c < self.vacant.len() {
            proof {
                self.lemma_fits();
                assert(c * 256 + 256 <= n * 256) by (nonlinear_arith)
                    requires
                        0 <= c < n,
                ;
            }
            let idx = self.first_empty(c * CHUNK_SIZE, c * CHUNK_SIZE + CHUNK_SIZE);
            proof {
                assert(self.vacant@[c as int] != 0);
                lemma_vacancies_zero(chunk_slots(self@, c as int));
                if idx == c * CHUNK_SIZE + CHUNK_SIZE {
                    assert forall|i: int| 0 <= i < chunk_slots(self@, c as int).len() implies chunk_slots(
                        self@,
                        c as int,
                    )[i] is Some by {
                        assert(self@[c * 256 + i] is Some);
                    }
                }
                assert(is_first_vacant(self@, idx as int));
            }
            self.put(idx, Some(t));
            idx
        } else {
            assert(is_full(self@));
            let idx = self.slots.len();
            self.grow();
            self.put(idx, Some(t));
            idx
        }
    }

    /// Empties the slot at `idx` and hands back what it held.
    pub fn take(&mut self, idx: usize) -> (prev: Option<T>)
        requires
            old(self).wf(),
        ensures
            final(self).wf(),
            old(self).occupied(idx as int) ==> prev == old(self)@[idx as int] && final(self)@ == old(
                self,
            )@.update(idx as int, None),
            !old(self).occupied(idx as int) ==> prev is None && final(self)@ == old(self)@,
    {
        if idx < self.slots.len() {
            let prev = self.put(idx, None);
            assert(!old(self).occupied(idx as int) ==> self@ =~= old(self)@);
            prev
        } else {
            None
        }
    }

    /// Empties the slot at `idx`; an empty or missing slot is left as it is.
    pub fn remove(&mut self, idx: usize)
        requires
            old(self).wf(),
        ensures
            final(self).wf(),
            final(self)@ == with_removed(old(self)@, idx as int),
    {
        let _ = self.take(idx);
        assert(!old(self).occupied(idx as int) && idx < old(self)@.len() ==> old(self)@.update(idx as int, None) =~= old(self)@);
    }

    /// Removes every value for which `f` answers `true` and returns how many
    /// were removed.
    pub fn remove_with<F: Fn(&T) -> bool>(&mut self, f: F) -> (count: usize)
        requires
            old(self).wf(),
            forall|i: int| 0 <= i < old(self)@.len() && old(self)@[i] is Some ==> call_requires(f, (&old(self)@[i]->0,)),
        ensures
            final(self).wf(),
            removed_by(old(self)@, final(self)@, f),
            count == taken(old(self)@, final(self)@).len(),
    {
        let total = self.capacity();
        let mut count: usize = 0;
        let mut idx: usize = 0;
        while idx < total
            invariant
                self.wf(),
                idx <= total,
                total == old(self)@.len(),
                self@.len() == total,
                forall|i: int| 0 <= i < old(self)@.len() && old(self)@[i] is Some ==> call_requires(f, (&old(self)@[i]->0,)),
                forall|i: int| idx <= i < total ==> self@[i] == old(self)@[i],
                removed_by(old(self)@.take(idx as int), self@.take(idx as int), f),
                count == taken(old(self)@.take(idx as int), self@.take(idx as int)).len(),
                count <= idx,
            decreases total - idx,
        {
            let ghost before = self@;
            let hit = match self.get(idx) {
                Some(t) => f(t),
                None => false,
            };
            if hit {
                self.remove(idx);
                count += 1;
            }
            proof {
                lemma_removal_step(old(self)@, before, self@, f, idx as int, hit);
            }
            idx += 1;
        }
        proof {
            assert(old(self)@.take(total as int) =~= old(self)@);
            assert(self@.take(total as int) =~= self@);
        }
        count
    }

    /// Removes every value for which `f` answers `true` and returns them, in
    /// slot order.
    pub fn remove_as_vec<F: Fn(&T) -> bool>(&mut self, f: F) -> (output: Vec<T>)
        requires
            old(self).wf(),
            forall|i: int| 0 <= i < old(self)@.len() && old(self)@[i] is Some ==> call_requires(f, (&old(self)@[i]->0,)),
        ensures
            final(self).wf(),
            removed_by(old(self)@, final(self)@, f),
            output@ == taken(old(self)@, final(self)@),
    {
        let total = self.capacity();
        let mut output: Vec<T> = Vec::new();
        let mut idx: usize = 0;
        while idx < total
            invariant
                self.wf(),
                idx <= total,
                total == old(self)@.len(),
                self@.len() == total,
                forall|i: int| 0 <= i < old(self)@.len() && old(self)@[i] is Some ==> call_requires(f, (&old(self)@[i]->0,)),
                forall|i: int| idx <= i < total ==> self@[i] == old(self)@[i],
                removed_by(old(self)@.take(idx as int), self@.take(idx as int), f),
                output@ == taken(old(self)@.take(idx as int), self@.take(idx as int)),
            decreases total - idx,
        {
            let ghost before = self@;
            let hit = match self.get(idx) {
                Some(t) => f(t),
                None => false,
            };
            if hit {
                match self.take(idx) {
                    Some(t) => {
                        output.push(t);
                    },
                    None => {},
                }
            }
            proof {
                lemma_removal_step(old(self)@, before, self@, f, idx as int, hit);
            }
            idx += 1;
        }
        proof {
            assert(old(self)@.take(total as int) =~= old(self)@);
            assert(self@.take(total as int) =~= self@);
        }
        output
    }

    /// Empties every slot; the chunks stay allocated.
    pub fn clear(&mut self)
        requires
            old(self).wf(),
        ensures
            final(self).wf(),
            final(self)@.len() == old(self)@.len(),
            forall|i: int| 0 <= i < final(self)@.len() ==> final(self)@[i] is None,
    {
        let total = self.capacity();
        let mut idx: usize = 0;
        while idx < total
            invariant
                self.wf(),
                idx <= total,
                self@.len() == total,
                forall|i: int| 0 <= i < idx ==> self@[i] is None,
            decreases total - idx,
        {
            self.remove(idx);
            idx += 1;
        }
    }

    /// Stores `t` in the existing slot `idx`, whatever it held, and hands
    /// back what it held.
    pub fn set(&mut self, idx: usize, t: T) -> (prev: Option<T>)
        requires
            old(self).wf(),
            idx < old(self)@.len(),
        ensures
            final(self).wf(),
            final(self)@ == old(self)@.update(idx as int, Some(t)),
            prev == old(self)@[idx as int],
    {
        self.put(idx, Some(t))
    }

    /// The values of the slab as a dense list, in the order of their
    /// handles; each is a clone of the one stored.
    pub fn serialize(&self) -> (values: Vec<T>) where T: Clone
        requires
            self.wf(),
        ensures
            values@.len() == dense(self@).len(),
            forall|i: int| 0 <= i < values@.len() ==> cloned(dense(self@)[i], #[trigger] values@[i]),
    {
        let total = self.capacity();
        let mut values: Vec<T> = Vec::new();
        let mut idx: usize = 0;
        while idx < total
            invariant
                self.wf(),
                idx <= total,
                total == self@.len(),
                values@.len() == dense(self@.take(idx as int)).len(),
                forall|i: int|
                    0 <= i < values@.len() ==> cloned(
                        dense(self@.take(idx as int))[i],
                        #[trigger] values@[i],
                    ),
            decreases total - idx,
        {
            assert(self@.take(idx + 1).drop_last() =~= self@.take(idx as int));
            match self.get(idx) {
                Some(t) => {
                    values.push(t.clone());
                },
                None => {},
            }
            idx += 1;
        }
        assert(self@.take(total as int) =~= self@);
        values
    }

    /// A slab that holds `values` under the handles from 0 on.
    pub fn deserialize(values: Vec<T>) -> (list: Self)
        ensures
            list.wf(),
            list@ == refilled(values@),
    {
        let mut list: ChunkList<T> = ChunkList::new();
        let ghost all = values@;
        assert(all.len() == values.len());
        let mut k: usize = 0;
        for v in it: values
            invariant
                it.seq() == all,
                k == it.index(),
                all.len() <= usize::MAX,
                list.wf(),
                list@ == refilled(all.take(k as int)),
        {
            proof {
                list.lemma_len();
                let s = list@;
                if is_full(s) {
                    if k < s.len() {
                        assert(s[k as int] is Some);
                    }
                } else {
                    assert(is_first_vacant(s, k as int)) by {
                        let j = choose|j: int| 0 <= j < s.len() && !(s[j] is Some);
                        assert(k <= j);
                    }
                }
            }
            let idx = list.insert(v);
            proof {
                assert(idx == k);
                assert(all.take(k + 1) =~= all.take(k as int).push(v));
                assert(list@ =~= refilled(all.take(k + 1)));
            }
            k += 1;
        }
        assert(all.take(all.len() as int) =~= all);
        list
    }

    /// Number of slots, occupied or not.
    pub fn capacity(&self) -> (n: usize)
        requires
            self.wf(),
        ensures
            n == self@.len(),
    {
        self.slots.len()
    }

    /// The value stored under `idx`, if that slot exists and is occupied.
    pub fn get(&self, idx: usize) -> (r: Option<&T>)
        requires
            self.wf(),
        ensures
            match r {
                Some(t) => self.occupied(idx as int) && self@[idx as int] == Some(*t),
                None => !self.occupied(idx as int),
            },
    {
        if idx < self.slots.len() {
            self.slots[idx].as_ref()
        } else {
            None
        }
    }
}

} // verus!
