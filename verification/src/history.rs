use vstd::prelude::*;

verus! {

/// Edit stack with undo and redo. Every change to the queued edits goes
/// through here, so the redo branch is dropped exactly when a new edit is
/// pushed or one is removed.
///
/// Its view is the pair (queued edits, undone edits), the latter with the most
/// recently undone edit last.
pub struct EditHistory<T> {
    edits: Vec<T>,
    undone: Vec<T>,
}

/// Keeps the elements of `s` whose flag in `keep` is set, in order.
pub open spec fn kept<T>(s: Seq<T>, keep: Seq<bool>) -> Seq<T>
    decreases s.len(),
{
    if s.len() == 0 {
        Seq::empty()
    } else {
        let rest = kept(s.drop_last(), keep.drop_last());
        if keep.last() {
            rest.push(s.last())
        } else {
            rest
        }
    }
}

/// The history after its newest queued edit is undone.
pub open spec fn undone_state<T>(v: (Seq<T>, Seq<T>)) -> (Seq<T>, Seq<T>) {
    (v.0.drop_last(), v.1.push(v.0.last()))
}

/// The history after its most recently undone edit is redone.
pub open spec fn redone_state<T>(v: (Seq<T>, Seq<T>)) -> (Seq<T>, Seq<T>) {
    (v.0.push(v.1.last()), v.1.drop_last())
}

/// The history after a new edit is queued: the redo branch is gone.
pub open spec fn pushed_state<T>(v: (Seq<T>, Seq<T>), edit: T) -> (Seq<T>, Seq<T>) {
    (v.0.push(edit), Seq::empty())
}

impl<T> View for EditHistory<T> {
    type V = (Seq<T>, Seq<T>);

    closed spec fn view(&self) -> (Seq<T>, Seq<T>) {
        (self.edits@, self.undone@)
    }
}

impl<T> Default for EditHistory<T> {
    /// An empty history: nothing queued, nothing to redo.
    fn default() -> (history: Self)
        ensures
            history@.0 == Seq::<T>::empty(),
            history@.1 == Seq::<T>::empty(),
    {
        EditHistory { edits: Vec::new(), undone: Vec::new() }
    }
}

impl<T: Clone> EditHistory<T> {
    /// The queued edits, oldest first.
    pub fn edits(&self) -> (edits: &[T])
        ensures
            edits@ == self@.0,
    {
        self.edits.as_slice()
    }

    pub fn len(&self) -> (len: usize)
        ensures
            len == self@.0.len(),
    {
        self.edits.len()
    }

    pub fn is_empty(&self) -> (empty: bool)
        ensures
            empty == (self@.0.len() == 0),
    {
        self.edits.len() == 0
    }

    pub fn can_undo(&self) -> (can: bool)
        ensures
            can == (self@.0.len() > 0),
    {
        self.edits.len() > 0
    }

    pub fn can_redo(&self) -> (can: bool)
        ensures
            can == (self@.1.len() > 0),
    {
        self.undone.len() > 0
    }

    /// Queues a new edit and drops the redo branch.
    pub fn push(&mut self, edit: T)
        ensures
            final(self)@ == pushed_state(old(self)@, edit),
    {
        self.undone.clear();
        self.edits.push(edit);
    }

    /// Moves the newest queued edit onto the redo stack and hands back a
    /// copy of it; `None` when nothing is queued.
    pub fn undo(&mut self) -> (edit: Option<T>)
        ensures
            match edit {
                Some(e) => {
                    &&& old(self)@.0.len() > 0
                    &&& final(self)@ == undone_state(old(self)@)
                    &&& cloned(old(self)@.0.last(), e)
                },
                None => old(self)@.0.len() == 0 && final(self)@ == old(self)@,
            },
    {
        match self.edits.pop() {
            Some(edit) => {
                let copy = edit.clone();
                self.undone.push(edit);
                Some(copy)
            },
            None => None,
        }
    }

    /// Moves the most recently undone edit back onto the queue and hands back
    /// a copy of it; `None` when there is nothing to redo.
    pub fn redo(&mut self) -> (edit: Option<T>)
        ensures
            match edit {
                Some(e) => {
                    &&& old(self)@.1.len() > 0
                    &&& final(self)@ == redone_state(old(self)@)
                    &&& cloned(old(self)@.1.last(), e)
                },
                None => old(self)@.1.len() == 0 && final(self)@ == old(self)@,
            },
    {
        match self.undone.pop() {
            Some(edit) => {
                let copy = edit.clone();
                self.edits.push(edit);
                Some(copy)
            },
            None => None,
        }
    }

    /// Removes the queued edit at `index` and drops the redo branch; `None`,
    /// with nothing changed, when there is no such edit.
    pub fn remove(&mut self, index: usize) -> (edit: Option<T>)
        ensures
            match edit {
                Some(e) => {
                    &&& index < old(self)@.0.len()
                    &&& e == old(self)@.0[index as int]
                    &&& final(self)@.0 == old(self)@.0.remove(index as int)
                    &&& final(self)@.1 == Seq::<T>::empty()
                },
                None => index >= old(self)@.0.len() && final(self)@ == old(self)@,
            },
    {
        if index < self.edits.len() {
            self.undone.clear();
            Some(self.edits.remove(index))
        } else {
            None
        }
    }

    /// Keeps the queued edits that `keep` accepts, in order; the redo branch
    /// is left as it is.
    pub fn retain<F: Fn(&T) -> bool>(&mut self, keep: F)
        requires
            forall|i: int| 0 <= i < old(self)@.0.len() ==> keep.requires((&old(self)@.0[i],)),
        ensures
            final(self)@.1 == old(self)@.1,
            exists|flags: Seq<bool>|
                {
                    &&& flags.len() == old(self)@.0.len()
                    &&& forall|i: int|
                        0 <= i < flags.len() ==> keep.ensures((&old(self)@.0[i],), #[trigger] flags[i])
                    &&& final(self)@.0 == kept(old(self)@.0, flags)
                },
    {
        let ghost before = self.edits@;
        let ghost n = before.len();
        assert(before == old(self)@.0);
        assert(forall|i: int| 0 <= i < n ==> keep.requires((&before[i],)));
        let mut source: Vec<T> = Vec::new();
        std::mem::swap(&mut source, &mut self.edits);
        let mut reversed: Vec<T> = Vec::new();
        while source.len() > 0
            invariant
                n == before.len(),
                source@ == before.take(source@.len() as int),
                forall|i: int| 0 <= i < n ==> keep.requires((&before[i],)),
                self.undone@ == old(self).undone@,
                self.edits@ == Seq::<T>::empty(),
                reversed@.len() + source@.len() == n,
                forall|j: int| 0 <= j < reversed@.len() ==> #[trigger] reversed@[j] == before[n - 1 - j],
            decreases source@.len(),
        {
            let e = source.pop().unwrap();
            reversed.push(e);
        }
        let ghost mut flags: Seq<bool> = Seq::empty();
        while reversed.len() > 0
            invariant
                n == before.len(),
                forall|i: int| 0 <= i < n ==> keep.requires((&before[i],)),
                flags.len() + reversed@.len() == n,
                forall|j: int| 0 <= j < reversed@.len() ==> #[trigger] reversed@[j] == before[n - 1 - j],
                forall|i: int| 0 <= i < flags.len() ==> keep.ensures((&before[i],), #[trigger] flags[i]),
                self.edits@ == kept(before.take(flags.len() as int), flags),
                self.undone@ == old(self).undone@,
            decreases reversed@.len(),
        {
            let ghost k = flags.len() as int;
            let e = reversed.pop().unwrap();
            assert(e == before[k]);
            let keep_it = keep(&e);
            proof {
                let next = flags.push(keep_it);
                assert(before.take(k + 1).drop_last() == before.take(k));
                assert(next.drop_last() == flags);
                flags = next;
            }
            if keep_it {
                self.edits.push(e);
            }
        }
        assert(before.take(n as int) == before);
    }

    pub fn clear(&mut self)
        ensures
            final(self)@.0 == Seq::<T>::empty(),
            final(self)@.1 == Seq::<T>::empty(),
    {
        self.edits.clear();
        self.undone.clear();
    }

    /// A copy of the queued edits, oldest first.
    pub fn to_vec(&self) -> (edits: Vec<T>)
        ensures
            edits@.len() == self@.0.len(),
            forall|i: int| 0 <= i < edits@.len() ==> cloned(self@.0[i], #[trigger] edits@[i]),
    {
        self.edits.clone()
    }
}

/// Undoing an edit and then redoing it gives back the history as it was.
pub proof fn lemma_redo_reverts_undo<T>(v: (Seq<T>, Seq<T>))
    requires
        v.0.len() > 0,
    ensures
        redone_state(undone_state(v)) == v,
{
    assert(redone_state(undone_state(v)).0 =~= v.0);
    assert(redone_state(undone_state(v)).1 =~= v.1);
}

/// Redoing an edit and then undoing it gives back the history as it was.
pub proof fn lemma_undo_reverts_redo<T>(v: (Seq<T>, Seq<T>))
    requires
        v.1.len() > 0,
    ensures
        undone_state(redone_state(v)) == v,
{
    assert(undone_state(redone_state(v)).0 =~= v.0);
    assert(undone_state(redone_state(v)).1 =~= v.1);
}

/// Undo and redo walk one stack: the queued and the undone edits together,
/// the undone ones read from the top, stay the same sequence.
pub proof fn lemma_undo_redo_keep_the_stack<T>(v: (Seq<T>, Seq<T>))
    ensures
        v.0.len() > 0 ==> undone_state(v).0 + undone_state(v).1.reverse() == v.0 + v.1.reverse(),
        v.1.len() > 0 ==> redone_state(v).0 + redone_state(v).1.reverse() == v.0 + v.1.reverse(),
{
    if v.0.len() > 0 {
        let u = undone_state(v);
        assert(u.1.reverse() =~= seq![v.0.last()] + v.1.reverse());
        assert(u.0 + u.1.reverse() =~= v.0 + v.1.reverse());
    }
    if v.1.len() > 0 {
        let r = redone_state(v);
        assert(v.1.reverse() =~= seq![v.1.last()] + r.1.reverse());
        assert(r.0 + r.1.reverse() =~= v.0 + v.1.reverse());
    }
}

/// A new edit discards the redo branch: nothing can be redone after a push,
/// whatever was undone before it.
pub proof fn lemma_push_discards_redo<T>(v: (Seq<T>, Seq<T>), edit: T)
    ensures
        pushed_state(v, edit).1.len() == 0,
        pushed_state(v, edit).0.len() == v.0.len() + 1,
        pushed_state(v, edit).0.last() == edit,
{
}

/// Whether `T`'s `Clone` gives back an equal value, as it does for the
/// integers, `String` and derived impls over such fields.
pub open spec fn faithful_clone<T: Clone>() -> bool {
    forall|a: T, b: T| #[trigger] cloned(a, b) ==> a == b
}

/// For an edit type whose clone is faithful, undo hands back exactly the edit
/// pushed last and leaves the queue as it was before the push; redo then
/// hands back the same edit and restores the history after the push.
pub proof fn lemma_undo_returns_the_pushed_edit<T: Clone>(
    v: (Seq<T>, Seq<T>),
    edit: T,
    undone: T,
    redone: T,
)
    requires
        faithful_clone::<T>(),
        cloned(pushed_state(v, edit).0.last(), undone),
        cloned(undone_state(pushed_state(v, edit)).1.last(), redone),
    ensures
        undone == edit,
        undone_state(pushed_state(v, edit)).0 == v.0,
        redone == edit,
        redone_state(undone_state(pushed_state(v, edit))) == pushed_state(v, edit),
{
    let p = pushed_state(v, edit);
    assert(p.0.drop_last() =~= v.0);
    lemma_redo_reverts_undo(p);
}

/// Edits held as integers or strings clone faithfully, so for them undo and
/// redo hand back exactly the edit that was pushed.
pub proof fn lemma_integer_and_string_edits_clone_faithfully()
    ensures
        faithful_clone::<u64>(),
        faithful_clone::<usize>(),
        faithful_clone::<String>(),
{
}

} // verus!
