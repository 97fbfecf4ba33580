use vstd::prelude::*;

verus! {

use std::sync::Arc;

/// One link of a shared chain: a value and a reference-counted tail.
struct Node<T> {
    value: T,
    next: Option<Arc<Node<T>>>,
}

impl<T> Node<T> {
    /// A freshly allocated node, handed out in a shared handle.
    fn new(value: T, next: Option<Arc<Node<T>>>) -> (res: Arc<Self>)
        ensures
            res.value == value,
            res.next == next,
    {
        Arc::new(Node { value, next })
    }
}

/// The sequence of values stored in the chain starting at `link`,
/// head (most recently pushed) first.
spec fn chain_view<T>(link: Option<Arc<Node<T>>>) -> Seq<T>
    decreases link,
{
    match link {
        Option::Some(node) => seq![node.value] + chain_view(node.next),
        Option::None => Seq::empty(),
    }
}

/// Relies on std's Arc::try_unwrap: it returns the inner value when this
/// handle holds the only strong reference, and otherwise hands the same
/// handle back in `Err`.
#[verifier::external_body]
fn arc_try_unwrap<T>(v: Arc<T>) -> (result: Result<T, Arc<T>>)
    ensures
        match result {
            Ok(t) => t == v,
            Err(e) => e == v,
        },
{
    Arc::try_unwrap(v)
}

/// A persistent (immutable, structurally shared) stack: every operation
/// returns a new list value and leaves the receiver untouched.
pub struct PersistentList<T> {
    root: Option<Arc<Node<T>>>,
    len: usize,
}

impl<T> View for PersistentList<T> {
    type V = Seq<T>;

    closed spec fn view(&self) -> Seq<T> {
        chain_view(self.root)
    }
}

impl<T> PersistentList<T> {
    #[verifier::type_invariant]
    spec fn wf(self) -> bool {
        self.len == chain_view(self.root).len()
    }

    /// The empty list.
    pub fn new() -> (res: Self)
        ensures
            res@ == Seq::<T>::empty(),
    {
        PersistentList { root: None, len: 0usize }
    }

    /// The number of values in the list, cached and O(1).
    pub fn len(&self) -> (res: usize)
        ensures
            res == self@.len(),
    {
        proof {
            use_type_invariant(self);
        }
        self.len
    }

    /// A new list with `value` on top of the receiver's chain; the
    /// receiver is unchanged and shares its whole chain with the result.
    pub fn push(&self, value: T) -> (res: Self)
        requires
            self@.len() < usize::MAX,
        ensures
            res@ == seq![value] + self@,
    {
        proof {
            use_type_invariant(self);
        }
        let next = match &self.root {
            Some(root) => Some(root.clone()),
            None => None,
        };
        PersistentList { root: Some(Node::new(value, next)), len: self.len + 1 }
    }

    /// A new list whose chain is the receiver's tail, shared, not copied;
    /// popping the empty list yields the empty list again.
    pub fn pop(&self) -> (res: Self)
        ensures
            self@.len() == 0 ==> res@ == Seq::<T>::empty(),
            self@.len() > 0 ==> res@ == self@.drop_first(),
    {
        proof {
            use_type_invariant(self);
        }
        match &self.root {
            Some(root) => {
                let next = match &root.next {
                    Some(next_node) => Some(next_node.clone()),
                    None => None,
                };
                PersistentList { root: next, len: self.len - 1 }
            },
            None => PersistentList { root: None, len: 0usize },
        }
    }

    /// A borrowed reference to the value on top, or nothing when empty.
    pub fn top(&self) -> (res: Option<&T>)
        ensures
            match res {
                Some(v) => self@.len() > 0 && *v == self@[0],
                None => self@.len() == 0,
            },
    {
        match &self.root {
            Some(root) => Some(&root.value),
            None => None,
        }
    }

    /// `pop` and `top` against the same receiver state: the popped list
    /// together with the value that was on top before the pop.
    pub fn pop_and_top(&self) -> (res: (Self, Option<&T>))
        ensures
            match res.1 {
                Some(v) => self@.len() > 0 && *v == self@[0],
                None => self@.len() == 0,
            },
            self@.len() == 0 ==> res.0@ == Seq::<T>::empty(),
            self@.len() > 0 ==> res.0@ == self@.drop_first(),
    {
        proof {
            use_type_invariant(self);
        }
        match &self.root {
            Some(root) => {
                let next = match &root.next {
                    Some(next_node) => Some(next_node.clone()),
                    None => None,
                };
                (PersistentList { root: next, len: self.len - 1 }, Some(&root.value))
            },
            None => (PersistentList { root: None, len: 0usize }, None),
        }
    }

    /// A best-effort move of the top value out of the chain. When the root
    /// node is exclusively owned its value is moved out and the popped list
    /// is returned; when the root is still shared with another live list or
    /// iterator, the receiver comes back unchanged, paired with nothing, and
    /// the caller falls back to a copying accessor such as `top`.
    pub fn pop_unwrap(self) -> (res: (Self, Option<T>))
        ensures
            res.1 matches Some(v) ==> self@.len() > 0 && v == self@[0] && res.0@
                == self@.drop_first(),
            res.1 is None ==> res.0@ == self@,
            self@.len() == 0 ==> res.1 is None,
    {
        proof {
            use_type_invariant(&self);
        }
        match self.root {
            Some(root) => match arc_try_unwrap(root) {
                Ok(node) => (
                    PersistentList { root: node.next, len: self.len - 1 },
                    Some(node.value),
                ),
                Err(root) => (PersistentList { root: Some(root), len: self.len }, None),
            },
            None => (PersistentList { root: None, len: 0usize }, None),
        }
    }

    /// A fresh cursor over the receiver's chain; each call starts again
    /// from the top.
    pub fn iter(&self) -> (res: Iter<'_, T>)
        ensures
            res@ == self@,
    {
        proof {
            use_type_invariant(self);
        }
        Iter { root: &self.root, len: self.len }
    }
}

impl<T> Clone for PersistentList<T> {
    /// An O(1) copy: the root handle is duplicated, no node is copied,
    /// and the clone holds exactly the same sequence of values.
    fn clone(&self) -> (res: Self)
        ensures
            res@ == self@,
    {
        proof {
            use_type_invariant(self);
        }
        let root = match &self.root {
            Some(node) => Some(node.clone()),
            None => None,
        };
        PersistentList { root, len: self.len }
    }
}

/// A forward, read-only cursor over a list's chain, yielding borrowed
/// references head to tail (most recently pushed first). It borrows the
/// chain and must not outlive the list it came from.
pub struct Iter<'a, T> {
    root: &'a Option<Arc<Node<T>>>,
    len: usize,
}

impl<'a, T> Clone for Iter<'a, T> {
    /// An independent cursor at the same position: both continue from
    /// the same remaining values.
    fn clone(&self) -> (res: Self)
        ensures
            res@ == self@,
    {
        proof {
            use_type_invariant(self);
        }
        Iter { root: self.root, len: self.len }
    }
}

impl<'a, T> View for Iter<'a, T> {
    type V = Seq<T>;

    closed spec fn view(&self) -> Seq<T> {
        chain_view(*self.root)
    }
}

impl<'a, T> Iter<'a, T> {
    #[verifier::type_invariant]
    spec fn wf(self) -> bool {
        self.len == chain_view(*self.root).len()
    }

    /// The next value, or nothing once the cursor is exhausted; an
    /// exhausted cursor stays exhausted and keeps yielding nothing.
    pub fn next(&mut self) -> (res: Option<&'a T>)
        ensures
            old(self)@.len() == 0 ==> res is None && final(self)@ == old(self)@,
            old(self)@.len() > 0 ==> final(self)@ == old(self)@.drop_first() && (match res {
                Some(v) => *v == old(self)@[0],
                None => false,
            }),
    {
        proof {
            use_type_invariant(&*self);
        }
        if self.len == 0 {
            None
        } else {
            match self.root {
                Some(root) => {
                    let value = &root.value;
                    *self = Iter { root: &root.next, len: self.len - 1 };
                    Some(value)
                },
                None => None,
            }
        }
    }

    /// The exact number of values the cursor has left to yield, as a
    /// lower and upper bound.
    pub fn size_hint(&self) -> (res: (usize, Option<usize>))
        ensures
            res.0 == self@.len(),
            res.1 == Some(res.0),
    {
        proof {
            use_type_invariant(self);
        }
        (self.len, Some(self.len))
    }
}

/// The view of the list built by `new()` followed by one `push` per value
/// of `vs`, in order, so that `vs.last()` is the value pushed last.
/// Each push prepends at the head, exactly as `push` promises.
pub open spec fn pushed_all<T>(vs: Seq<T>) -> Seq<T>
    decreases vs.len(),
{
    if vs.len() == 0 {
        Seq::empty()
    } else {
        seq![vs.last()] + pushed_all(vs.drop_last())
    }
}

/// Pushing n values onto the empty list gives a list of length n whose
/// top is the value pushed last, and whose values read back, head to
/// tail, in reverse push order: iteration is last in, first out.
pub proof fn lemma_pushes_from_empty<T>(vs: Seq<T>)
    ensures
        pushed_all(vs).len() == vs.len(),
        vs.len() > 0 ==> pushed_all(vs)[0] == vs.last(),
        pushed_all(vs) == vs.reverse(),
    decreases vs.len(),
{
    if vs.len() > 0 {
        lemma_pushes_from_empty(vs.drop_last());
        assert(pushed_all(vs) =~= vs.reverse());
    } else {
        assert(pushed_all(vs) =~= vs.reverse());
    }
}

/// Pushing any value and then popping restores the original observable
/// state: the same sequence of values, hence the same length and top.
pub proof fn lemma_push_then_pop<T>(s: Seq<T>, v: T)
    ensures
        (seq![v] + s).drop_first() == s,
{
    assert((seq![v] + s).drop_first() =~= s);
}

/// Lists built by pushing different values onto the same list keep their
/// shared tail observably intact: popping either gives back exactly the
/// list both grew from, which the pushes never changed.
pub proof fn lemma_shared_tail<T>(s: Seq<T>, x: T, y: T)
    ensures
        (seq![x] + s).drop_first() == s,
        (seq![y] + s).drop_first() == s,
        (seq![x] + s).drop_first() == (seq![y] + s).drop_first(),
{
    lemma_push_then_pop(s, x);
    lemma_push_then_pop(s, y);
}

} // verus!
