//! A binary search tree whose leaves are explicit nodes.
use vstd::prelude::*;
use vstd::laws_cmp::obeys_cmp;
use vstd::multiset::Multiset;
use vstd::std_specs::cmp::{OrdSpec, PartialEqSpec, PartialOrdSpec};
use std::cmp::Ordering;
use vstd::std_specs::iter::IteratorSpec;

verus! {

/// A binary tree; as a search tree, smaller items go left and larger ones right.
#[derive(Debug, PartialEq)]
pub enum BinaryTree<T> {
    Leaf,
    Node { value: T, left: Box<BinaryTree<T>>, right: Box<BinaryTree<T>> },
}

/// Whether every item of `s` orders as `o` against `v`.
pub open spec fn all_cmp<T: Ord>(s: Seq<T>, v: T, o: Ordering) -> bool {
    forall|i: int| 0 <= i < s.len() ==> (#[trigger] s[i]).cmp_spec(&v) == o
}

impl<T> BinaryTree<T> {
    /// The items in order: left subtree, value, right subtree.
    pub open spec fn items(&self) -> Seq<T>
        decreases self,
    {
        match self {
            BinaryTree::Leaf => Seq::empty(),
            BinaryTree::Node { value, left, right } => left.items() + seq![*value] + right.items(),
        }
    }

    /// The number of nodes on the longest path from the root to a leaf.
    pub open spec fn depth(&self) -> nat
        decreases self,
    {
        match self {
            BinaryTree::Leaf => 0,
            BinaryTree::Node { left, right, .. } => {
                let (l, r) = (left.depth(), right.depth());
                1 + if l > r {
                    l
                } else {
                    r
                }
            },
        }
    }

    /// The number of items.
    pub fn size(&self) -> (r: usize)
        requires
            self.items().len() <= usize::MAX,
        ensures
            r == self.items().len(),
        decreases self,
    {
        match self {
            BinaryTree::Leaf => 0,
            BinaryTree::Node { left, right, .. } => 1 + left.size() + right.size(),
        }
    }

    /// The height of the tree; a leaf has height 0.
    pub fn height(&self) -> (r: usize)
        requires
            self.depth() <= usize::MAX,
        ensures
            r == self.depth(),
        decreases self,
    {
        match self {
            BinaryTree::Leaf => 0,
            BinaryTree::Node { left, right, .. } => {
                let l = left.height();
                let r = right.height();
                if l > r {
                    1 + l
                } else {
                    1 + r
                }
            },
        }
    }
}

impl<T> BinaryTree<T> {
    /// Appends references to the items, in order, to `out`.
    fn push_items<'a>(&'a self, out: &mut Vec<&'a T>)
        ensures
            final(out)@.len() == old(out)@.len() + self.items().len(),
            forall|i: int| 0 <= i < old(out)@.len() ==> final(out)@[i] == old(out)@[i],
            forall|i: int|
                0 <= i < self.items().len() ==> *final(out)@[old(out)@.len() + i] == self.items()[i],
        decreases self,
    {
        match self {
            BinaryTree::Leaf => {},
            BinaryTree::Node { value, left, right } => {
                let ghost start = out@.len();
                left.push_items(out);
                out.push(value);
                right.push_items(out);
                proof {
                    let (a, b) = (left.items(), right.items());
                    assert(self.items() == a + seq![*value] + b);
                    assert forall|i: int| 0 <= i < self.items().len() implies *out@[start + i] == self.items()[i] by {
                        if i < a.len() {
                        } else if i == a.len() {
                        } else {
                            assert(*out@[start + a.len() + 1 + (i - a.len() - 1)] == b[i - a.len() - 1]);
                        }
                    }
                }
            },
        }
    }

    /// The items in order, smallest first in a search tree.
    pub fn iter(&self) -> (it: std::vec::IntoIter<&T>)
        ensures
            it.remaining().len() == self.items().len(),
            forall|i: int| 0 <= i < self.items().len() ==> *it.remaining()[i] == self.items()[i],
    {
        let mut out: Vec<&T> = Vec::new();
        self.push_items(&mut out);
        out.into_iter()
    }
}

impl<T: Ord> BinaryTree<T> {
    /// Whether each node's value is greater than everything on its left and
    /// smaller than everything on its right.
    pub open spec fn is_search_tree(&self) -> bool
        decreases self,
    {
        match self {
            BinaryTree::Leaf => true,
            BinaryTree::Node { value, left, right } => {
                &&& left.is_search_tree()
                &&& right.is_search_tree()
                &&& all_cmp(left.items(), *value, Ordering::Less)
                &&& all_cmp(right.items(), *value, Ordering::Greater)
            },
        }
    }

    /// Whether some item of the tree orders equal to `target`.
    pub open spec fn holds(&self, target: T) -> bool {
        exists|i: int| 0 <= i < self.items().len() && (#[trigger] self.items()[i]).cmp_spec(&target) == Ordering::Equal
    }

    /// The tree with `new_value` added at its place, unless an equal item is
    /// already there.
    pub fn insert(self, new_value: T) -> (r: BinaryTree<T>)
        ensures
            obeys_cmp::<T>() && self.is_search_tree() ==> {
                &&& r.is_search_tree()
                &&& self.holds(new_value) ==> r.items() == self.items()
                &&& !self.holds(new_value) ==> r.items().to_multiset() == self.items().to_multiset().insert(
                    new_value,
                )
                &&& forall|y: T| r.items().contains(y) ==> self.items().contains(y) || y == new_value
            },
        decreases self,
    {
        let ghost before = self;
        match self {
            BinaryTree::Leaf => {
                let r = BinaryTree::Node {
                    value: new_value,
                    left: Box::new(BinaryTree::Leaf),
                    right: Box::new(BinaryTree::Leaf),
                };
                proof {
                    lemma_node_items(BinaryTree::<T>::Leaf, new_value, BinaryTree::<T>::Leaf);
                    broadcast use vstd::seq_lib::group_to_multiset_ensures;
                    assert(before.items() =~= Seq::<T>::empty());
                    assert(!before.holds(new_value));
                    assert(before.items().to_multiset() =~= Multiset::empty());
                    assert(Multiset::<T>::empty().insert(new_value).add(Multiset::empty()) =~= Multiset::<T>::empty().insert(new_value));
                }
                r
            },
            BinaryTree::Node { value, left, right } => {
                let o = new_value.cmp(&value);
                let ghost (l0, r0) = (*left, *right);
                proof {
                    if obeys_cmp::<T>() && before.is_search_tree() {
                        lemma_cmp_facts::<T>();
                        lemma_search_step(value, new_value, l0.items(), r0.items(), o);
                        lemma_holds_split(l0, value, r0, new_value);
                        lemma_node_items(l0, value, r0);
                    }
                }
                match o {
                    Ordering::Less => {
                        let l1 = left.insert(new_value);
                        proof {
                            if obeys_cmp::<T>() && before.is_search_tree() {
                                lemma_node_items(l1, value, r0);
                                lemma_all_cmp_grow(l0.items(), l1.items(), new_value, value, Ordering::Less);
                                if !l0.holds(new_value) {
                                    assert(!before.holds(new_value));
                                    assert(l1.items().to_multiset().insert(value).add(r0.items().to_multiset())
                                        =~= l0.items().to_multiset().insert(value).add(r0.items().to_multiset()).insert(new_value));
                                }
                            }
                        }
                        BinaryTree::Node { value, left: Box::new(l1), right }
                    },
                    Ordering::Equal => {
                        let r = BinaryTree::Node { value, left, right };
                        proof {
                            if obeys_cmp::<T>() && before.is_search_tree() {
                                assert(before.holds(new_value));
                            }
                        }
                        r
                    },
                    Ordering::Greater => {
                        let r1 = right.insert(new_value);
                        proof {
                            if obeys_cmp::<T>() && before.is_search_tree() {
                                lemma_node_items(l0, value, r1);
                                lemma_all_cmp_grow(r0.items(), r1.items(), new_value, value, Ordering::Greater);
                                if !r0.holds(new_value) {
                                    assert(!before.holds(new_value));
                                    assert(l0.items().to_multiset().insert(value).add(r1.items().to_multiset())
                                        =~= l0.items().to_multiset().insert(value).add(r0.items().to_multiset()).insert(new_value));
                                }
                            }
                        }
                        BinaryTree::Node { value, left, right: Box::new(r1) }
                    },
                }
            },
        }
    }

    /// Whether the search tree holds an item equal to `target`, found by
    /// descending from the root.
    pub fn contains(&self, target: &T) -> (r: bool)
        ensures
            obeys_cmp::<T>() && self.is_search_tree() ==> (r <==> self.holds(*target)),
        decreases self,
    {
        match self {
            BinaryTree::Leaf => {
                assert(self.items().len() == 0);
                false
            },
            BinaryTree::Node { value, left, right } => {
                let o = target.cmp(value);
                proof {
                    if obeys_cmp::<T>() && self.is_search_tree() {
                        lemma_cmp_facts::<T>();
                        lemma_search_step(*value, *target, left.items(), right.items(), o);
                        lemma_holds_split(**left, *value, **right, *target);
                    }
                }
                match o {
                    Ordering::Less => left.contains(target),
                    Ordering::Equal => true,
                    Ordering::Greater => right.contains(target),
                }
            },
        }
    }
}

/// The items of a node are those of its left side, its value, and those of its
/// right side.
proof fn lemma_node_items<T>(l: BinaryTree<T>, v: T, r: BinaryTree<T>)
    ensures
        ({
            let s = (BinaryTree::Node { value: v, left: Box::new(l), right: Box::new(r) }).items();
            &&& s.to_multiset() == l.items().to_multiset().insert(v).add(r.items().to_multiset())
            &&& forall|x: T| s.contains(x) <==> (l.items().contains(x) || x == v || r.items().contains(x))
        }),
{
    broadcast use vstd::seq_lib::group_to_multiset_ensures;
    let (a, b) = (l.items(), r.items());
    let s = a + seq![v] + b;
    assert((BinaryTree::Node { value: v, left: Box::new(l), right: Box::new(r) }).items() == s);
    vstd::seq_lib::lemma_multiset_commutative(a + seq![v], b);
    vstd::seq_lib::lemma_multiset_commutative(a, seq![v]);
    assert(seq![v].to_multiset() =~= Multiset::empty().insert(v)) by {
        assert(seq![v] =~= Seq::<T>::empty().push(v));
    }
    assert(a.to_multiset().add(Multiset::empty().insert(v)) =~= a.to_multiset().insert(v));
    assert forall|x: T| s.contains(x) <==> (a.contains(x) || x == v || b.contains(x)) by {
        if s.contains(x) {
            let i = choose|i: int| 0 <= i < s.len() && s[i] == x;
            if i < a.len() {
                assert(a[i] == x);
            } else if i > a.len() {
                assert(b[i - a.len() - 1] == x);
            }
        }
        if a.contains(x) {
            let i = choose|i: int| 0 <= i < a.len() && a[i] == x;
            assert(s[i] == x);
        }
        if b.contains(x) {
            let i = choose|i: int| 0 <= i < b.len() && b[i] == x;
            assert(s[a.len() + 1 + i] == x);
        }
        if x == v {
            assert(s[a.len() as int] == x);
        }
    }
}

/// An item equal to `t` is on the left, at the root, or on the right.
proof fn lemma_holds_split<T: Ord>(l: BinaryTree<T>, v: T, r: BinaryTree<T>, t: T)
    ensures
        (BinaryTree::Node { value: v, left: Box::new(l), right: Box::new(r) }).holds(t) <==> (l.holds(t)
            || v.cmp_spec(&t) == Ordering::Equal || r.holds(t)),
{
    let n = BinaryTree::Node { value: v, left: Box::new(l), right: Box::new(r) };
    let s = n.items();
    assert(s == l.items() + seq![v] + r.items());
    let k = l.items().len() as int;
    if n.holds(t) {
        let i = choose|i: int| 0 <= i < s.len() && (#[trigger] s[i]).cmp_spec(&t) == Ordering::Equal;
        if i < k {
            assert(l.items()[i] == s[i]);
        } else if i > k {
            assert(r.items()[i - k - 1] == s[i]);
        }
    }
    if l.holds(t) {
        let i = choose|i: int| 0 <= i < l.items().len() && (#[trigger] l.items()[i]).cmp_spec(&t) == Ordering::Equal;
        assert(s[i] == l.items()[i]);
    }
    if r.holds(t) {
        let i = choose|i: int| 0 <= i < r.items().len() && (#[trigger] r.items()[i]).cmp_spec(&t) == Ordering::Equal;
        assert(s[k + 1 + i] == r.items()[i]);
    }
    if v.cmp_spec(&t) == Ordering::Equal {
        assert(s[k] == v);
    }
}

/// Items that all order as `o` against `v`, plus one more that does, still do.
proof fn lemma_all_cmp_grow<T: Ord>(old_items: Seq<T>, new_items: Seq<T>, x: T, v: T, o: Ordering)
    requires
        all_cmp(old_items, v, o),
        x.cmp_spec(&v) == o,
        forall|y: T| new_items.contains(y) ==> old_items.contains(y) || y == x,
    ensures
        all_cmp(new_items, v, o),
{
    assert forall|i: int| 0 <= i < new_items.len() implies (#[trigger] new_items[i]).cmp_spec(&v) == o by {
        let y = new_items[i];
        assert(new_items.contains(y));
        if old_items.contains(y) {
            let j = choose|j: int| 0 <= j < old_items.len() && old_items[j] == y;
            assert(old_items[j].cmp_spec(&v) == o);
        }
    }
}

/// The facts about a lawful order that the search needs.
proof fn lemma_cmp_facts<T: Ord>()
    requires
        obeys_cmp::<T>(),
    ensures
        T::obeys_cmp_spec(),
        forall|x: T, y: T| #[trigger] x.cmp_spec(&y) == Ordering::Less <==> y.cmp_spec(&x) == Ordering::Greater,
        forall|x: T, y: T| #[trigger] x.cmp_spec(&y) == Ordering::Equal ==> y.cmp_spec(&x) == Ordering::Equal,
        forall|x: T, y: T, z: T|
            #[trigger] x.cmp_spec(&y) == Ordering::Less && #[trigger] y.cmp_spec(&z) == Ordering::Less
                ==> x.cmp_spec(&z) == Ordering::Less,
        forall|x: T, y: T, z: T|
            #[trigger] x.cmp_spec(&y) == Ordering::Equal && #[trigger] y.cmp_spec(&z) == Ordering::Less
                ==> x.cmp_spec(&z) == Ordering::Less,
        forall|x: T, y: T, z: T|
            #[trigger] x.cmp_spec(&y) == Ordering::Equal && #[trigger] y.cmp_spec(&z) == Ordering::Greater
                ==> x.cmp_spec(&z) == Ordering::Greater,
        forall|x: T, y: T, z: T|
            #[trigger] x.cmp_spec(&y) == Ordering::Greater && #[trigger] y.cmp_spec(&z) == Ordering::Greater
                ==> x.cmp_spec(&z) == Ordering::Greater,
{
    reveal(vstd::laws_cmp::obeys_cmp_ord);
    reveal(vstd::laws_cmp::obeys_cmp_partial_ord);
    reveal(vstd::laws_cmp::obeys_partial_cmp_spec_properties);
    reveal(vstd::laws_eq::obeys_eq_spec_properties);
    assert forall|x: T, y: T, z: T|
        #[trigger] x.cmp_spec(&y) == Ordering::Equal && #[trigger] y.cmp_spec(&z) == Ordering::Less
            implies x.cmp_spec(&z) == Ordering::Less by {
        assert(x.partial_cmp_spec(&y) == Some(x.cmp_spec(&y)));
        assert(y.partial_cmp_spec(&z) == Some(y.cmp_spec(&z)));
        assert(x.partial_cmp_spec(&z) == Some(x.cmp_spec(&z)));
        assert(x.eq_spec(&y));
        if x.cmp_spec(&z) == Ordering::Equal {
            assert(x.eq_spec(&z));
            assert(y.eq_spec(&x));
            assert(y.eq_spec(&z));
        } else if x.cmp_spec(&z) == Ordering::Greater {
            assert(z.partial_cmp_spec(&x) == Some(Ordering::Less));
            assert(z.partial_cmp_spec(&y) == Some(Ordering::Greater));
            assert(z.partial_cmp_spec(&y) == Some(z.cmp_spec(&y)));
            assert(z.partial_cmp_spec(&x) == Some(z.cmp_spec(&x)));
            assert(y.partial_cmp_spec(&x) == Some(y.cmp_spec(&x)));
            assert(y.eq_spec(&x));
        }
    }
    assert forall|x: T, y: T, z: T|
        #[trigger] x.cmp_spec(&y) == Ordering::Equal && #[trigger] y.cmp_spec(&z) == Ordering::Greater
            implies x.cmp_spec(&z) == Ordering::Greater by {
        assert(x.partial_cmp_spec(&y) == Some(x.cmp_spec(&y)));
        assert(y.partial_cmp_spec(&z) == Some(y.cmp_spec(&z)));
        assert(x.partial_cmp_spec(&z) == Some(x.cmp_spec(&z)));
        assert(x.eq_spec(&y));
        if x.cmp_spec(&z) == Ordering::Equal {
            assert(x.eq_spec(&z));
            assert(y.eq_spec(&x));
            assert(y.eq_spec(&z));
        } else if x.cmp_spec(&z) == Ordering::Less {
            assert(z.partial_cmp_spec(&x) == Some(Ordering::Greater));
            assert(z.partial_cmp_spec(&y) == Some(Ordering::Less));
            assert(z.partial_cmp_spec(&y) == Some(z.cmp_spec(&y)));
            assert(z.partial_cmp_spec(&x) == Some(z.cmp_spec(&x)));
            assert(y.partial_cmp_spec(&x) == Some(y.cmp_spec(&x)));
            assert(y.eq_spec(&x));
        }
    }
    assert forall|x: T, y: T| #[trigger] x.cmp_spec(&y) == Ordering::Less <==> y.cmp_spec(&x) == Ordering::Greater by {
        assert(x.partial_cmp_spec(&y) == Some(x.cmp_spec(&y)));
        assert(y.partial_cmp_spec(&x) == Some(y.cmp_spec(&x)));
    }
    assert forall|x: T, y: T| #[trigger] x.cmp_spec(&y) == Ordering::Equal implies y.cmp_spec(&x) == Ordering::Equal by {
        assert(x.partial_cmp_spec(&y) == Some(x.cmp_spec(&y)));
        assert(y.partial_cmp_spec(&x) == Some(y.cmp_spec(&x)));
        assert(x.eq_spec(&y));
    }
    assert forall|x: T, y: T, z: T|
        #[trigger] x.cmp_spec(&y) == Ordering::Less && #[trigger] y.cmp_spec(&z) == Ordering::Less
            implies x.cmp_spec(&z) == Ordering::Less by {
        assert(x.partial_cmp_spec(&y) == Some(x.cmp_spec(&y)));
        assert(y.partial_cmp_spec(&z) == Some(y.cmp_spec(&z)));
        assert(x.partial_cmp_spec(&z) == Some(x.cmp_spec(&z)));
    }
    assert forall|x: T, y: T, z: T|
        #[trigger] x.cmp_spec(&y) == Ordering::Greater && #[trigger] y.cmp_spec(&z) == Ordering::Greater
            implies x.cmp_spec(&z) == Ordering::Greater by {
        assert(x.partial_cmp_spec(&y) == Some(x.cmp_spec(&y)));
        assert(y.partial_cmp_spec(&z) == Some(y.cmp_spec(&z)));
        assert(x.partial_cmp_spec(&z) == Some(x.cmp_spec(&z)));
    }
}

/// One step of the search: where an item equal to `t` can be, given how `t`
/// orders against the root `v`.
proof fn lemma_search_step<T: Ord>(v: T, t: T, l: Seq<T>, r: Seq<T>, o: Ordering)
    requires
        obeys_cmp::<T>(),
        o == t.cmp_spec(&v),
        all_cmp(l, v, Ordering::Less),
        all_cmp(r, v, Ordering::Greater),
    ensures
        o == Ordering::Equal ==> v.cmp_spec(&t) == Ordering::Equal,
        o == Ordering::Less ==> forall|i: int| 0 <= i < r.len() ==> (#[trigger] r[i]).cmp_spec(&t) != Ordering::Equal,
        o == Ordering::Greater ==> forall|i: int| 0 <= i < l.len() ==> (#[trigger] l[i]).cmp_spec(&t) != Ordering::Equal,
        o == Ordering::Less ==> v.cmp_spec(&t) != Ordering::Equal,
        o == Ordering::Greater ==> v.cmp_spec(&t) != Ordering::Equal,
{
    lemma_cmp_facts::<T>();
    if o == Ordering::Less {
        assert forall|i: int| 0 <= i < r.len() implies (#[trigger] r[i]).cmp_spec(&t) != Ordering::Equal by {
            assert(r[i].cmp_spec(&v) == Ordering::Greater);
            if r[i].cmp_spec(&t) == Ordering::Equal {
                assert(t.cmp_spec(&r[i]) == Ordering::Equal);
            }
        }
    }
    if o == Ordering::Greater {
        assert forall|i: int| 0 <= i < l.len() implies (#[trigger] l[i]).cmp_spec(&t) != Ordering::Equal by {
            assert(l[i].cmp_spec(&v) == Ordering::Less);
            if l[i].cmp_spec(&t) == Ordering::Equal {
                assert(t.cmp_spec(&l[i]) == Ordering::Equal);
            }
        }
    }
}

} // verus!
