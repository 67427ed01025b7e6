use vstd::prelude::*;
use vstd::string::*;

verus! {

/// Why a node id could not be read or issued.
#[derive(PartialEq, Eq, Structural, Clone, Copy, Debug)]
pub enum IdDispatcherError {
    EmptyParent,
    EmptyCurrent,
    Wraparound,
}

pub open spec fn id_error_text(e: IdDispatcherError) -> Seq<char> {
    match e {
        IdDispatcherError::EmptyParent => "Parent is empty."@,
        IdDispatcherError::EmptyCurrent => "Current is empty."@,
        IdDispatcherError::Wraparound => "Wraparound."@,
    }
}

impl IdDispatcherError {
    /// A sentence that describes the error.
    pub fn to_string(&self) -> (r: String)
        ensures
            r@ == id_error_text(*self),
    {
        match self {
            IdDispatcherError::EmptyParent => String::from_str("Parent is empty."),
            IdDispatcherError::EmptyCurrent => String::from_str("Current is empty."),
            IdDispatcherError::Wraparound => String::from_str("Wraparound."),
        }
    }
}

pub type IdResult = Result<usize, IdDispatcherError>;

/// Issues node ids 1, 2, 3, ... and keeps the ids of the nodes that are
/// still open as a stack: field 0 is that stack (top last), field 1 the last
/// id issued (`None` once no further id can be had).
pub struct IdDispatcher(pub Vec<usize>, pub Option<usize>);

/// A dispatcher as plain values: the open ids, and the last id issued.
pub type DispatcherView = (Seq<usize>, Option<usize>);

impl View for IdDispatcher {
    type V = DispatcherView;

    open spec fn view(&self) -> DispatcherView {
        (self.0@, self.1)
    }
}

/// A fresh dispatcher: nothing open, nothing issued.
pub open spec fn fresh() -> DispatcherView {
    (Seq::empty(), Some(0usize))
}

/// The top of the stack.
pub open spec fn current_of(d: DispatcherView) -> IdResult {
    if d.0.len() == 0 {
        Err(IdDispatcherError::EmptyCurrent)
    } else {
        Ok(d.0.last())
    }
}

/// The entry under the top of the stack.
pub open spec fn parent_of(d: DispatcherView) -> IdResult {
    if d.0.len() >= 2 {
        Ok(d.0[d.0.len() - 2])
    } else {
        Err(IdDispatcherError::EmptyParent)
    }
}

/// Issuing an id: the one after the last, pushed onto the stack; fails and
/// changes nothing when the counter is exhausted.
pub open spec fn get_of(d: DispatcherView) -> (DispatcherView, IdResult) {
    match d.1 {
        Some(last) => if last < usize::MAX {
            ((d.0.push((last + 1) as usize), Some((last + 1) as usize)), Ok((last + 1) as usize))
        } else {
            (d, Err(IdDispatcherError::Wraparound))
        },
        None => (d, Err(IdDispatcherError::Wraparound)),
    }
}

/// Closing the top node: removes and returns the top of the stack.
pub open spec fn pop_of(d: DispatcherView) -> (DispatcherView, IdResult) {
    if d.0.len() == 0 {
        (d, Err(IdDispatcherError::EmptyCurrent))
    } else {
        ((d.0.drop_last(), d.1), Ok(d.0.last()))
    }
}

/// The open ids are distinct ids already issued, in the order they were
/// issued (so the top is the newest).
pub open spec fn dispatcher_well_formed(d: DispatcherView) -> bool {
    &&& d.1 is Some
    &&& forall|i: int, j: int| 0 <= i < j < d.0.len() ==> d.0[i] < d.0[j]
    &&& forall|i: int| 0 <= i < d.0.len() ==> 1 <= #[trigger] d.0[i] <= d.1->Some_0
}

impl IdDispatcher {
    pub fn new() -> (r: Self)
        ensures
            r@ == fresh(),
            dispatcher_well_formed(r@),
    {
        IdDispatcher(Vec::new(), Some(0))
    }

    pub fn current(&self) -> (r: IdResult)
        ensures
            r == current_of(self@),
    {
        if self.0.len() == 0 {
            Err(IdDispatcherError::EmptyCurrent)
        } else {
            Ok(self.0[self.0.len() - 1])
        }
    }

    pub fn parent(&self) -> (r: IdResult)
        ensures
            r == parent_of(self@),
    {
        if self.0.len() >= 2 {
            Ok(self.0[self.0.len() - 2])
        } else {
            Err(IdDispatcherError::EmptyParent)
        }
    }

    pub fn get(&mut self) -> (r: IdResult)
        ensures
            (final(self)@, r) == get_of(old(self)@),
            dispatcher_well_formed(old(self)@) ==> dispatcher_well_formed(final(self)@),
    {
        match self.1 {
            Some(last) => {
                match 1usize.checked_add(last) {
                    Some(v) => {
                        self.1 = Some(v);
                        self.0.push(v);
                        Ok(v)
                    },
                    None => Err(IdDispatcherError::Wraparound),
                }
            },
            None => Err(IdDispatcherError::Wraparound),
        }
    }

    pub fn pop(&mut self) -> (r: IdResult)
        ensures
            (final(self)@, r) == pop_of(old(self)@),
            dispatcher_well_formed(old(self)@) ==> dispatcher_well_formed(final(self)@),
    {
        let r = match self.0.pop() {
            Some(v) => Ok(v),
            None => Err(IdDispatcherError::EmptyCurrent),
        };
        proof {
            let old_ids = old(self)@.0;
            let ids = self@.0;
            assert(forall|i: int| 0 <= i < ids.len() ==> ids[i] == old_ids[i]);
            if dispatcher_well_formed(old(self)@) {
                assert forall|i: int| 0 <= i < ids.len() implies 1 <= #[trigger] ids[i]
                    <= self@.1->Some_0 by {
                    assert(ids[i] == old_ids[i]);
                }
            }
        }
        r
    }
}

/// The dispatcher after `n` ids were issued to a fresh one, with no pop.
pub open spec fn after_gets(n: nat) -> DispatcherView
    decreases n,
{
    if n == 0 {
        fresh()
    } else {
        get_of(after_gets((n - 1) as nat)).0
    }
}

/// The dispatcher after `n` pops.
pub open spec fn after_pops(d: DispatcherView, n: nat) -> DispatcherView
    decreases n,
{
    if n == 0 {
        d
    } else {
        pop_of(after_pops(d, (n - 1) as nat)).0
    }
}

proof fn lemma_after_gets_shape(n: nat)
    requires
        n <= usize::MAX,
    ensures
        after_gets(n).1 == Some(n as usize),
        after_gets(n).0.len() == n,
        forall|i: int| 0 <= i < n ==> #[trigger] after_gets(n).0[i] == i + 1,
    decreases n,
{
    if n > 0 {
        lemma_after_gets_shape((n - 1) as nat);
        let prev = after_gets((n - 1) as nat);
        assert(after_gets(n).0 =~= prev.0.push(n as usize));
    }
}

proof fn lemma_after_pops_shape(d: DispatcherView, n: nat)
    requires
        n <= d.0.len(),
    ensures
        after_pops(d, n).0 =~= d.0.subrange(0, d.0.len() - n),
    decreases n,
{
    if n > 0 {
        lemma_after_pops_shape(d, (n - 1) as nat);
    }
}

/// Stack discipline: the `n`-th id issued by a fresh dispatcher is `n`; after
/// `n` ids are issued with no pop, the current id is `n` and the parent id is
/// `n - 1`; after popping back to one open id, that id is current and the
/// parent is missing.
pub proof fn lemma_stack_discipline(n: nat)
    requires
        1 <= n <= usize::MAX,
    ensures
        get_of(after_gets((n - 1) as nat)).1 == Ok::<usize, IdDispatcherError>(n as usize),
        current_of(after_gets(n)) == Ok::<usize, IdDispatcherError>(n as usize),
        n >= 2 ==> parent_of(after_gets(n)) == Ok::<usize, IdDispatcherError>((n - 1) as usize),
        current_of(after_pops(after_gets(n), (n - 1) as nat)) == Ok::<usize, IdDispatcherError>(
            1usize,
        ),
        parent_of(after_pops(after_gets(n), (n - 1) as nat)) == Err::<usize, IdDispatcherError>(
            IdDispatcherError::EmptyParent,
        ),
{
    lemma_after_gets_shape(n);
    lemma_after_gets_shape((n - 1) as nat);
    lemma_after_pops_shape(after_gets(n), (n - 1) as nat);
    let d = after_gets(n);
    assert(d.0[n - 1] == n);
    if n >= 2 {
        assert(d.0[n - 2] == n - 1);
    }
    assert(d.0[0] == 1);
}

} // verus!
