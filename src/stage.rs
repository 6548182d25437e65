//! The per-item and per-stream logic of the stages of a processing pipeline.
//!
//! A stage pulls items from its upstream queue one at a time, in order, and offers
//! what it computes to its downstream queue before it pulls the next item. The
//! functions here say what a stage computes for one item, and what it emits for a
//! whole finite stream; the threads and queues that run them live outside.
use vstd::prelude::*;

verus! {

/// How a send to the downstream queue ended.
#[derive(Debug, Clone, Copy, PartialEq, Eq)]
pub enum SendOutcome {
    /// The queue took the item.
    Delivered,
    /// Nobody reads the queue any more.
    Disconnected,
}

/// The downstream end of a stage, as far as the stage knows it.
///
/// Once a send finds nobody reading, the stage stops offering results but keeps
/// draining its upstream queue, so that producers upstream never block forever.
pub struct Outlet {
    open: bool,
}

impl Outlet {
    /// Whether results are still offered downstream.
    pub closed spec fn is_open(&self) -> bool {
        self.open
    }

    /// An outlet whose downstream queue is still read.
    pub fn new() -> (r: Outlet)
        ensures
            r.is_open(),
    {
        Outlet { open: true }
    }

    /// Whether the next result should be sent, or dropped unsent.
    pub fn should_send(&self) -> (r: bool)
        ensures
            r == self.is_open(),
    {
        self.open
    }

    /// Records how a send ended. Once disconnected, the outlet stays so.
    pub fn record(&mut self, outcome: SendOutcome)
        ensures
            final(self).is_open() == (old(self).is_open() && outcome == SendOutcome::Delivered),
    {
        if let SendOutcome::Disconnected = outcome {
            self.open = false;
        }
    }
}

/// True when some pair of `done` is the result of worker `i`.
pub open spec fn holds_index<R>(done: Seq<(usize, R)>, i: int) -> bool {
    exists|j: int| 0 <= j < done.len() && (#[trigger] done[j]).0 == i
}

/// True when `done` (worker index, result) pairs, in completion order, hold every
/// index below `count` exactly once.
pub open spec fn is_complete_round<R>(count: nat, done: Seq<(usize, R)>) -> bool {
    &&& done.len() == count
    &&& forall|j: int| 0 <= j < done.len() ==> (#[trigger] done[j]).0 < count
    &&& forall|j: int, k: int|
        0 <= j < done.len() && 0 <= k < done.len() && j != k ==> (#[trigger] done[j]).0
            != (#[trigger] done[k]).0
    &&& forall|i: int| 0 <= i < count ==> #[trigger] holds_index(done, i)
}

/// Puts the results of one fork-join round into worker-index order.
///
/// `done` holds each worker's index and result in the order the workers finished.
/// Returns the results indexed by worker, or `None` when `done` is not exactly one
/// result for each index below `count`.
pub fn assemble_by_index<R>(count: usize, done: Vec<(usize, R)>) -> (r: Option<Vec<R>>)
    ensures
        r is Some <==> is_complete_round(count as nat, done@),
        r is Some ==> r->0.len() == count && forall|j: int|
            0 <= j < done.len() ==> r->0[(#[trigger] done@[j]).0 as int] == done@[j].1,
{
    let ghost orig = done@;
    let mut pending = done;
    if pending.len() != count {
        return None;
    }
    let mut slots: Vec<Option<R>> = Vec::new();
    let mut i: usize = 0;
    while i < count
        invariant
            orig == done@,
            i <= count,
            slots.len() == i,
            forall|s: int| 0 <= s < i ==> slots[s] is None,
        decreases count - i,
    {
        slots.push(None);
        i = i + 1;
    }
    // Move the results into their slots, last finished first.
    while pending.len() > 0
        invariant
            orig == done@,
            orig.len() == count,
            pending.len() <= orig.len(),
            pending@ == orig.subrange(0, pending.len() as int),
            slots.len() == count,
            forall|j: int| pending.len() <= j < orig.len() ==> (#[trigger] orig[j]).0 < count,
            forall|j: int, k: int|
                pending.len() <= j < orig.len() && pending.len() <= k < orig.len() && j != k
                    ==> (#[trigger] orig[j]).0 != (#[trigger] orig[k]).0,
            forall|j: int|
                pending.len() <= j < orig.len() ==> slots[(#[trigger] orig[j]).0 as int] == Some(
                    orig[j].1,
                ),
            forall|s: int|
                0 <= s < count ==> (slots[s] is Some <==> #[trigger] holds_index(
                    orig.subrange(pending.len() as int, orig.len() as int),
                    s,
                )),
        decreases pending.len(),
    {
        let ghost at = pending.len() - 1;
        assert(0 <= at < orig.len());
        let (w, res) = pending.pop().unwrap();
        assert(orig[at] == (w, res));
        if w >= count {
            return None;
        }
        if slots[w].is_some() {
            proof {
                let prev = orig.subrange(at + 1, orig.len() as int);
                assert(holds_index(prev, w as int));
                let k = choose|k: int| 0 <= k < prev.len() && (#[trigger] prev[k]).0 == w;
                assert(prev[k] == orig[k + at + 1]);
                assert(orig[at].0 == orig[k + at + 1].0);
            }
            return None;
        }
        slots.set(w, Some(res));
        proof {
            let tail = orig.subrange(pending.len() as int, orig.len() as int);
            let prev = orig.subrange(at + 1, orig.len() as int);
            assert forall|s: int| 0 <= s < count implies (slots[s] is Some <==> #[trigger] holds_index(tail, s)) by {
                if s == w {
                    assert(tail[0].0 == s);
                } else {
                    if holds_index(tail, s) {
                        let j = choose|j: int| 0 <= j < tail.len() && (#[trigger] tail[j]).0 == s;
                        assert(prev[j - 1].0 == s);
                    }
                    if holds_index(prev, s) {
                        let j = choose|j: int| 0 <= j < prev.len() && (#[trigger] prev[j]).0 == s;
                        assert(tail[j + 1].0 == s);
                    }
                }
            }
        }
    }
    assert(orig.subrange(0, orig.len() as int) =~= orig);
    let mut out: Vec<R> = Vec::new();
    let mut s: usize = 0;
    while s < count
        invariant
            orig == done@,
            orig.len() == count,
            slots.len() == count,
            s <= count,
            out.len() == s,
            forall|j: int, k: int|
                0 <= j < orig.len() && 0 <= k < orig.len() && j != k ==> (#[trigger] orig[j]).0
                    != (#[trigger] orig[k]).0,
            forall|j: int| 0 <= j < orig.len() ==> (#[trigger] orig[j]).0 < count,
            forall|j: int|
                0 <= j < orig.len() && (#[trigger] orig[j]).0 >= s ==> slots[orig[j].0 as int]
                    == Some(orig[j].1),
            forall|j: int|
                0 <= j < orig.len() && (#[trigger] orig[j]).0 < s ==> out[orig[j].0 as int]
                    == orig[j].1,
            forall|t: int| s <= t < count ==> (slots[t] is Some <==> #[trigger] holds_index(orig, t)),
            forall|t: int| 0 <= t < s ==> #[trigger] holds_index(orig, t),
        decreases count - s,
    {
        let slot = slots[s].take();
        match slot {
            Some(v) => {
                out.push(v);
            },
            None => {
                assert(!holds_index(orig, s as int));
                return None;
            },
        }
        s = s + 1;
    }
    Some(out)
}

/// The sequence handed to `join` does not depend on the order in which the
/// workers finished: results that `assemble_by_index` returns for two completion
/// orders of the same round are equal.
pub proof fn lemma_round_order_irrelevant<R>(
    count: nat,
    first: Seq<(usize, R)>,
    second: Seq<(usize, R)>,
    from_first: Seq<R>,
    from_second: Seq<R>,
)
    requires
        is_complete_round(count, first),
        first.to_multiset() == second.to_multiset(),
        from_first.len() == count,
        from_second.len() == count,
        forall|j: int| 0 <= j < first.len() ==> from_first[(#[trigger] first[j]).0 as int] == first[j].1,
        forall|j: int|
            0 <= j < second.len() ==> from_second[(#[trigger] second[j]).0 as int] == second[j].1,
    ensures
        from_first == from_second,
{
    broadcast use vstd::seq_lib::group_to_multiset_ensures;
    assert forall|i: int| 0 <= i < count implies from_first[i] == from_second[i] by {
        assert(holds_index(first, i));
        let j = choose|j: int| 0 <= j < first.len() && (#[trigger] first[j]).0 == i;
        let pair = first[j];
        assert(first.contains(pair));
        assert(first.to_multiset().count(pair) > 0);
        assert(second.contains(pair));
        let k = choose|k: int| 0 <= k < second.len() && second[k] == pair;
        assert(from_second[second[k].0 as int] == second[k].1);
    }
    assert(from_first =~= from_second);
}

/// Runs every worker of one fork-join round in worker-index order.
pub fn fork_all<A, R, F: Fn(&A, usize) -> R>(fork: &F, item: &A, count: usize) -> (rs: Vec<R>)
    requires
        forall|i: usize| i < count ==> fork.requires((item, i)),
    ensures
        rs.len() == count,
        forall|i: int| 0 <= i < count ==> fork.ensures((item, i as usize), #[trigger] rs[i]),
{
    let mut rs: Vec<R> = Vec::new();
    let mut i: usize = 0;
    while i < count
        invariant
            i <= count,
            rs.len() == i,
            forall|k: usize| k < count ==> fork.requires((item, k)),
            forall|k: int| 0 <= k < i ==> fork.ensures((item, k as usize), #[trigger] rs[k]),
        decreases count - i,
    {
        let r = fork(item, i);
        rs.push(r);
        i = i + 1;
    }
    rs
}

/// True when `rs` could be the worker results of one round on `item`: one per
/// worker, ordered by worker index.
pub open spec fn is_round_of<A, R, F: Fn(&A, usize) -> R>(
    fork: F,
    item: &A,
    count: nat,
    rs: Seq<R>,
) -> bool {
    &&& rs.len() == count
    &&& forall|i: int| 0 <= i < count ==> fork.ensures((item, i as usize), #[trigger] rs[i])
}

/// True when `b` could be what a fork-join stage emits for `item`: `join` applied
/// to one round of worker results on it.
pub open spec fn joins_round<A, R, B, F: Fn(&A, usize) -> R, J: Fn(Vec<R>) -> B>(
    fork: F,
    count: nat,
    join: J,
    item: &A,
    b: B,
) -> bool {
    exists|rs: Vec<R>| is_round_of(fork, item, count, rs@) && join.ensures((rs,), b)
}

/// Processes one item in a fork-join stage: runs `count` workers on it and hands
/// their results, ordered by worker index, to `join` once.
pub fn fork_join_item<A, R, B, F: Fn(&A, usize) -> R, J: Fn(Vec<R>) -> B>(
    fork: &F,
    count: usize,
    join: &J,
    item: &A,
) -> (b: B)
    requires
        forall|i: usize| i < count ==> fork.requires((item, i)),
        forall|rs: Vec<R>| rs.len() == count ==> join.requires((rs,)),
    ensures
        joins_round(*fork, count as nat, *join, item, b),
{
    let rs = fork_all(fork, item, count);
    let ghost sent = rs;
    let b = join(rs);
    assert(is_round_of(*fork, item, count as nat, sent@));
    b
}

/// The items of `items` whose mark is set, in their order.
pub open spec fn kept<A>(items: Seq<A>, marks: Seq<bool>) -> Seq<A>
    decreases items.len(),
{
    if items.len() == 0 {
        Seq::empty()
    } else {
        let rest = kept(items.drop_last(), marks.drop_last());
        if marks.last() {
            rest.push(items.last())
        } else {
            rest
        }
    }
}

/// The present values among `results`, in their order.
pub open spec fn present<B>(results: Seq<Option<B>>) -> Seq<B>
    decreases results.len(),
{
    if results.len() == 0 {
        Seq::empty()
    } else {
        let rest = present(results.drop_last());
        match results.last() {
            Some(v) => rest.push(v),
            None => rest,
        }
    }
}

/// Processes one item in a filtering stage: the item when `keep` accepts it.
pub fn filter_item<A, P: Fn(&A) -> bool>(keep: &P, item: A) -> (r: Option<A>)
    requires
        keep.requires((&item,)),
    ensures
        keep.ensures((&item,), r is Some),
        r is Some ==> r->0 == item,
{
    if keep(&item) {
        Some(item)
    } else {
        None
    }
}

/// What a forwarding stage emits for a whole stream: every item, in order.
pub fn run_forward<A>(items: Vec<A>) -> (out: Vec<A>)
    ensures
        out@ == items@,
{
    let mut out: Vec<A> = Vec::new();
    for x in it: items.into_iter()
        invariant
            out@ == it.seq().take(it.index() as int),
    {
        out.push(x);
    }
    out
}

/// What a map stage emits for a whole stream: `f` of each item, in order.
pub fn run_map<A, B, F: Fn(A) -> B>(f: &F, items: Vec<A>) -> (out: Vec<B>)
    requires
        forall|i: int| 0 <= i < items.len() ==> f.requires((#[trigger] items[i],)),
    ensures
        out.len() == items.len(),
        forall|i: int| 0 <= i < items.len() ==> f.ensures((items[i],), #[trigger] out[i]),
{
    let mut out: Vec<B> = Vec::new();
    for x in it: items.into_iter()
        invariant
            it.seq() == items@,
            forall|i: int| 0 <= i < items.len() ==> f.requires((#[trigger] items[i],)),
            out.len() == it.index(),
            forall|i: int| 0 <= i < it.index() ==> f.ensures((items[i],), #[trigger] out[i]),
    {
        out.push(f(x));
    }
    out
}

/// What a filtering stage emits for a whole stream: the items that `keep`
/// accepts, in their order.
pub fn run_filter<A, P: Fn(&A) -> bool>(keep: &P, items: Vec<A>) -> (out: Vec<A>)
    requires
        forall|i: int| 0 <= i < items.len() ==> keep.requires((&#[trigger] items[i],)),
    ensures
        exists|marks: Seq<bool>|
            {
                &&& marks.len() == items.len()
                &&& forall|i: int|
                    0 <= i < items.len() ==> keep.ensures((&items[i],), #[trigger] marks[i])
                &&& out@ == kept(items@, marks)
            },
{
    let mut out: Vec<A> = Vec::new();
    let ghost mut marks: Seq<bool> = Seq::empty();
    for x in it: items.into_iter()
        invariant
            it.seq() == items@,
            forall|i: int| 0 <= i < items.len() ==> keep.requires((&#[trigger] items[i],)),
            marks.len() == it.index(),
            forall|i: int| 0 <= i < it.index() ==> keep.ensures((&items[i],), #[trigger] marks[i]),
            out@ == kept(items@.take(it.index() as int), marks),
    {
        let ghost k = it.index() as int;
        assert(x == items@[k]);
        let r = filter_item(keep, x);
        proof {
            let prev = marks;
            marks = marks.push(r is Some);
            assert(marks.drop_last() =~= prev);
            assert(items@.take(k + 1).drop_last() =~= items@.take(k));
            assert(items@.take(k + 1).last() == items@[k]);
        }
        match r {
            Some(v) => out.push(v),
            None => {},
        }
    }
    proof {
        assert(items@.take(items.len() as int) =~= items@);
    }
    out
}

/// What a filter-map stage emits for a whole stream: the present results of `f`
/// on each item, in order.
pub fn run_filter_map<A, B, F: Fn(A) -> Option<B>>(f: &F, items: Vec<A>) -> (out: Vec<B>)
    requires
        forall|i: int| 0 <= i < items.len() ==> f.requires((#[trigger] items[i],)),
    ensures
        exists|results: Seq<Option<B>>|
            {
                &&& results.len() == items.len()
                &&& forall|i: int|
                    0 <= i < items.len() ==> f.ensures((items[i],), #[trigger] results[i])
                &&& out@ == present(results)
            },
{
    let mut out: Vec<B> = Vec::new();
    let ghost mut results: Seq<Option<B>> = Seq::empty();
    for x in it: items.into_iter()
        invariant
            it.seq() == items@,
            forall|i: int| 0 <= i < items.len() ==> f.requires((#[trigger] items[i],)),
            results.len() == it.index(),
            forall|i: int| 0 <= i < it.index() ==> f.ensures((items[i],), #[trigger] results[i]),
            out@ == present(results),
    {
        let r = f(x);
        proof {
            let prev = results;
            results = results.push(r);
            assert(results.drop_last() =~= prev);
        }
        match r {
            Some(v) => out.push(v),
            None => {},
        }
    }
    out
}

/// What a fork-join stage emits for a whole stream: for each item in order, the
/// result of `join` on that item's worker results in worker-index order.
pub fn run_fork_join<A, R, B, F: Fn(&A, usize) -> R, J: Fn(Vec<R>) -> B>(
    fork: &F,
    count: usize,
    join: &J,
    items: Vec<A>,
) -> (out: Vec<B>)
    requires
        forall|x: &A, i: usize| i < count ==> fork.requires((x, i)),
        forall|rs: Vec<R>| rs.len() == count ==> join.requires((rs,)),
    ensures
        out.len() == items.len(),
        forall|k: int|
            0 <= k < items.len() ==> joins_round(*fork, count as nat, *join, &items[k], #[trigger] out[k]),
{
    let mut out: Vec<B> = Vec::new();
    for x in it: items.into_iter()
        invariant
            it.seq() == items@,
            forall|x: &A, i: usize| i < count ==> fork.requires((x, i)),
            forall|rs: Vec<R>| rs.len() == count ==> join.requires((rs,)),
            out.len() == it.index(),
            forall|k: int|
                0 <= k < it.index() ==> joins_round(*fork, count as nat, *join, &items[k], #[trigger] out[k]),
    {
        assert(x == items@[it.index() as int]);
        let b = fork_join_item(fork, count, join, &x);
        out.push(b);
    }
    out
}

/// A map stage with a pure function emits exactly `[f(x1), f(x2), ...]`, in input
/// order: whatever `run_map` returns on `items` equals `items` mapped by `g`, when
/// `f` always returns `g` of its argument.
pub proof fn lemma_map_stage_in_order<A, B, F: Fn(A) -> B>(
    f: F,
    g: spec_fn(A) -> B,
    items: Seq<A>,
    out: Seq<B>,
)
    requires
        forall|x: A, y: B| f.ensures((x,), y) ==> y == g(x),
        out.len() == items.len(),
        forall|i: int| 0 <= i < items.len() ==> f.ensures((items[i],), #[trigger] out[i]),
    ensures
        out == items.map_values(g),
{
    assert forall|i: int| 0 <= i < items.len() implies out[i] == items.map_values(g)[i] by {
        assert(f.ensures((items[i],), out[i]));
    }
    assert(out =~= items.map_values(g));
}

/// A filtering stage with a pure predicate emits exactly the sub-sequence of its
/// input that satisfies the predicate, in their input order: the marks
/// `keep` gave in `run_filter` select `items.filter(p)`, when `keep` always
/// answers `p` of its argument.
pub proof fn lemma_filter_stage_keeps_matching<A, P: Fn(&A) -> bool>(
    keep: P,
    p: spec_fn(A) -> bool,
    items: Seq<A>,
    marks: Seq<bool>,
)
    requires
        forall|x: &A, b: bool| keep.ensures((x,), b) ==> b == p(*x),
        marks.len() == items.len(),
        forall|i: int| 0 <= i < items.len() ==> keep.ensures((&items[i],), #[trigger] marks[i]),
    ensures
        kept(items, marks) == items.filter(p),
    decreases items.len(),
{
    reveal(Seq::filter);
    if items.len() > 0 {
        let n = items.len() - 1;
        assert(keep.ensures((&items[n],), marks[n]));
        let (xs, ms) = (items.drop_last(), marks.drop_last());
        assert forall|i: int| 0 <= i < xs.len() implies keep.ensures((&xs[i],), #[trigger] ms[i]) by {
            assert(keep.ensures((&items[i],), marks[i]));
        }
        lemma_filter_stage_keeps_matching(keep, p, xs, ms);
        assert(marks.last() == p(items.last()));
    } else {
        assert(items.filter(p) =~= Seq::empty());
    }
}

/// A filter-map stage with a pure function emits exactly the present results of
/// that function on its input, in order: the results `f` gave in `run_filter_map`
/// yield `items.filter_map(g)`, when `f` always returns `g` of its argument.
pub proof fn lemma_filter_map_stage_in_order<A, B, F: Fn(A) -> Option<B>>(
    f: F,
    g: spec_fn(A) -> Option<B>,
    items: Seq<A>,
    results: Seq<Option<B>>,
)
    requires
        forall|x: A, y: Option<B>| f.ensures((x,), y) ==> y == g(x),
        results.len() == items.len(),
        forall|i: int| 0 <= i < items.len() ==> f.ensures((items[i],), #[trigger] results[i]),
    ensures
        present(results) == items.filter_map(g),
    decreases items.len(),
{
    if items.len() > 0 {
        let n = items.len() - 1;
        assert(f.ensures((items[n],), results[n]));
        let (xs, rs) = (items.drop_last(), results.drop_last());
        assert forall|i: int| 0 <= i < xs.len() implies f.ensures((xs[i],), #[trigger] rs[i]) by {
            assert(f.ensures((items[i],), results[i]));
        }
        lemma_filter_map_stage_in_order(f, g, xs, rs);
        match g(items.last()) {
            Some(v) => {
                assert(present(results) =~= xs.filter_map(g) + seq![v]);
            },
            None => {},
        }
    }
}

} // verus!
