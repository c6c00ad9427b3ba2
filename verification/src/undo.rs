//! The undo stack behind live preview: previewed changes are recorded in
//! order and rolled back most recent first.
use vstd::prelude::*;

verus! {

/// A single undoable change.
#[derive(Debug)]
pub struct UndoEntry {
    pub key: String,
    pub old_value: String,
}

impl UndoEntry {
    pub open spec fn view_entry(self) -> (Seq<char>, Seq<char>) {
        (self.key@, self.old_value@)
    }
}

/// A stack of undoable changes for live-preview revert.
#[derive(Debug)]
pub struct UndoStack {
    entries: Vec<UndoEntry>,
}

impl View for UndoStack {
    type V = Seq<(Seq<char>, Seq<char>)>;

    closed spec fn view(&self) -> Seq<(Seq<char>, Seq<char>)> {
        Seq::new(self.entries@.len(), |i: int| self.entries@[i].view_entry())
    }
}

impl Default for UndoStack {
    fn default() -> (s: Self)
        ensures
            s@ == Seq::<(Seq<char>, Seq<char>)>::empty(),
    {
        let s = UndoStack { entries: Vec::new() };
        assert(s@ =~= Seq::<(Seq<char>, Seq<char>)>::empty());
        s
    }
}

impl UndoStack {
    pub fn new() -> (s: Self)
        ensures
            s@ == Seq::<(Seq<char>, Seq<char>)>::empty(),
    {
        Self::default()
    }

    /// Push a new entry onto the stack.
    pub fn push(&mut self, entry: UndoEntry)
        ensures
            final(self)@ == old(self)@.push(entry.view_entry()),
    {
        let ghost e = entry.view_entry();
        self.entries.push(entry);
        assert(self@ =~= old(self)@.push(e));
    }

    /// The entries in reverse (most recent first), the order of rollback.
    pub fn rollback_iter(&self) -> (r: Vec<&UndoEntry>)
        ensures
            r@.len() == self@.len(),
            forall|i: int| 0 <= i < r@.len() ==> (#[trigger] r@[i]).view_entry() == self@.reverse()[i],
    {
        let mut r: Vec<&UndoEntry> = Vec::new();
        let n = self.entries.len();
        let mut k: usize = n;
        while k > 0
            invariant
                n == self@.len(),
                n == self.entries@.len(),
                k <= n,
                r@.len() == n - k,
                forall|i: int| 0 <= i < r@.len() ==> (#[trigger] r@[i]).view_entry() == self@[n - 1 - i],
            decreases k,
        {
            k = k - 1;
            r.push(&self.entries[k]);
        }
        r
    }

    /// Discard all entries.
    pub fn clear(&mut self)
        ensures
            final(self)@ == Seq::<(Seq<char>, Seq<char>)>::empty(),
    {
        self.entries.clear();
        assert(self@ =~= Seq::<(Seq<char>, Seq<char>)>::empty());
    }

    /// Returns `true` if there are pending changes.
    pub fn is_dirty(&self) -> (r: bool)
        ensures
            r == (self@.len() > 0),
    {
        !self.entries.is_empty()
    }

    /// Number of entries in the stack.
    pub fn len(&self) -> (r: usize)
        ensures
            r == self@.len(),
    {
        self.entries.len()
    }

    /// Returns `true` if the stack is empty.
    pub fn is_empty(&self) -> (r: bool)
        ensures
            r == (self@.len() == 0),
    {
        self.entries.is_empty()
    }
}

/// Rolling back after a sequence of pushes visits the pushed entries newest
/// first: the last entry pushed is the first one undone.
pub proof fn law_rollback_reverses_pushes(before: Seq<(Seq<char>, Seq<char>)>, e: (Seq<char>, Seq<char>))
    ensures
        before.push(e).reverse()[0] == e,
        before.push(e).reverse().drop_first() == before.reverse(),
{
    assert(before.push(e).reverse().drop_first() =~= before.reverse());
}

/// The view after pushing the entries `es`, in order, onto a stack whose
/// view is `start` (each `push` appends one entry to the view).
pub open spec fn after_pushes(start: Seq<(Seq<char>, Seq<char>)>, es: Seq<(Seq<char>, Seq<char>)>) -> Seq<
    (Seq<char>, Seq<char>),
>
    decreases es.len(),
{
    if es.len() == 0 {
        start
    } else {
        after_pushes(start, es.drop_last()).push(es.last())
    }
}

/// After `new()` and the pushes of `e_1 .. e_n` with no `clear` between,
/// the stack holds exactly those entries, and `rollback_iter` (which walks
/// the view reversed) yields `n` entries, `e_n` first and `e_1` last.
pub proof fn law_rollback_after_pushes(es: Seq<(Seq<char>, Seq<char>)>)
    ensures
        after_pushes(Seq::empty(), es) == es,
        after_pushes(Seq::empty(), es).reverse().len() == es.len(),
        forall|i: int|
            0 <= i < es.len() ==> #[trigger] after_pushes(Seq::empty(), es).reverse()[i] == es[es.len()
                - 1 - i],
    decreases es.len(),
{
    if es.len() > 0 {
        law_rollback_after_pushes(es.drop_last());
        assert(es.drop_last().push(es.last()) =~= es);
    }
}

} // verus!
