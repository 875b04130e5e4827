//! A mutable memory location that can be set only once.

use vstd::prelude::*;

verus! {

/// A mutable memory location that can be set only once.
///
/// The cell starts `None` (absent) or `Some` (present). It becomes present
/// at most once, through the first successful initialization call, and from
/// then on its value never changes: `Some` is an absorbing state.
///
/// Initialization follows a check-call-check protocol: if the cell is
/// already present the initializer is not run; otherwise the initializer
/// runs, the state is checked again before committing, and only then is the
/// produced value installed. The second check is what keeps the protocol
/// correct when the initializer itself initializes the same cell (see
/// [`Routine`] and [`OnceCell::try_init_once_with`]): the value installed by
/// such a nested call wins, and the value produced by the outer initializer
/// is dropped.
#[derive(Debug)]
pub struct OnceCell<T>(Option<T>);

impl<T> View for OnceCell<T> {
    type V = Option<T>;

    closed spec fn view(&self) -> Option<T> {
        self.0
    }
}

impl<T> OnceCell<T> {
    /// Creates a new, absent `OnceCell`.
    pub fn new() -> (cell: Self)
        ensures
            cell@ is None,
    {
        OnceCell(None)
    }

    /// Creates a new `OnceCell` already initialized with `value`.
    pub fn new_with_value(value: T) -> (cell: Self)
        ensures
            cell@ == Some(value),
    {
        OnceCell(Some(value))
    }

    /// Returns `None` if the cell is absent, or else a reference to the
    /// stored value wrapped in `Some`.
    pub fn as_ref(&self) -> (r: Option<&T>)
        ensures
            r is Some <==> self@ is Some,
            r matches Some(value) ==> self@ == Some(*value),
    {
        self.0.as_ref()
    }

    /// Returns `None` if the cell is absent, or else a mutable reference to
    /// the stored value wrapped in `Some`.
    ///
    /// This call borrows the `OnceCell` mutably, which guarantees that the
    /// caller holds the only reference.
    pub fn as_mut(&mut self) -> (r: Option<&mut T>)
        ensures
            old(self)@ is None ==> r is None && final(self)@ is None,
            old(self)@ is Some ==> (r matches Some(borrowed) && *borrowed == old(self)@->0
                && final(self)@ == Some(*final(borrowed))),
    {
        match &mut self.0 {
            Some(value) => Some(value),
            None => None,
        }
    }

    /// Calls a function to try to initialize this cell.
    ///
    /// If the cell is already initialized, `f` is not called and a reference
    /// to the existing value is returned. Otherwise, if `f` returns
    /// `Ok(value)`, the cell is initialized with `value`; if `f` returns
    /// `Err(error)`, the error is propagated and the cell remains absent, so
    /// a later call will run its initializer again.
    pub fn try_init_once<E, F: FnOnce() -> Result<T, E>>(&mut self, f: F) -> (r: Result<&T, E>)
        requires
            old(self)@ is None ==> call_requires(f, ()),
        ensures
            old(self)@ matches Some(value) ==> final(self)@ == Some(value) && (r matches Ok(
                borrowed,
            ) && *borrowed == value),
            old(self)@ is None ==> match r {
                Ok(borrowed) => final(self)@ == Some(*borrowed) && call_ensures(
                    f,
                    (),
                    Ok(*borrowed),
                ),
                Err(error) => final(self)@ is None && call_ensures(f, (), Err(error)),
            },
    {
        if self.0.is_some() {
            return Ok(self.0.as_ref().unwrap());
        }
        let produced = f();
        // The initializer may have initialized the cell in a reentrant way,
        // so check again before committing its result.
        if self.0.is_some() {
            return Ok(self.0.as_ref().unwrap());
        }
        match produced {
            Ok(value) => {
                self.0 = Some(value);
                Ok(self.0.as_ref().unwrap())
            },
            Err(error) => Err(error),
        }
    }

    /// Calls a function to initialize this cell and borrows the value.
    ///
    /// If the cell is already initialized, `f` is not called and the
    /// returned reference is to the value that was already there.
    pub fn init_once<F: FnOnce() -> T>(&mut self, f: F) -> (r: &T)
        requires
            old(self)@ is None ==> call_requires(f, ()),
        ensures
            old(self)@ matches Some(value) ==> final(self)@ == Some(value) && *r == value,
            old(self)@ is None ==> final(self)@ == Some(*r) && call_ensures(f, (), *r),
    {
        if self.0.is_some() {
            return self.0.as_ref().unwrap();
        }
        let value = f();
        // Kept for symmetry with the fallible protocol: nothing can have
        // initialized the cell while `f` ran, as this call owns it.
        if self.0.is_some() {
            return self.0.as_ref().unwrap();
        }
        self.0 = Some(value);
        self.0.as_ref().unwrap()
    }
}

impl<T: Clone> Clone for OnceCell<T> {
    /// Produces a new cell in the same state, cloning the stored value if
    /// the cell is present.
    fn clone(&self) -> (res: Self)
        ensures
            res@ is Some <==> self@ is Some,
            self@ matches Some(value) ==> cloned::<T>(value, res@->0),
    {
        match self.0.as_ref() {
            Some(value) => OnceCell(Some(value.clone())),
            None => OnceCell(None),
        }
    }
}

impl<T> Default for OnceCell<T> {
    /// Creates a new, absent `OnceCell`.
    fn default() -> (cell: Self)
        ensures
            cell@ is None,
    {
        OnceCell::new()
    }
}

impl<T> vstd::std_specs::convert::FromSpecImpl<T> for OnceCell<T> {
    closed spec fn obeys_from_spec() -> bool {
        true
    }

    closed spec fn from_spec(value: T) -> Self {
        OnceCell(Some(value))
    }
}

impl<T> From<T> for OnceCell<T> {
    /// Wraps a bare value into a cell already initialized with it.
    fn from(value: T) -> (cell: Self)
        ensures
            cell@ == Some(value),
    {
        OnceCell::new_with_value(value)
    }
}

/// A description of an initializer routine, as the single-assignment
/// protocol sees it.
///
/// A routine makes some number of nested, reentrant initialization calls on
/// the same cell, in order, and then finishes with an outcome of its own.
/// Reentrancy is ordinary synchronous nesting: each reentrant call runs the
/// full check-call-check protocol recursively before the enclosing routine
/// goes on.
pub enum Routine<T, E> {
    /// Make no further reentrant call and finish with this outcome.
    Finish(Result<T, E>),
    /// Reentrantly run one full initialization call on the same cell with
    /// the first routine, then continue as the second routine.
    Reenter(Box<Routine<T, E>>, Box<Routine<T, E>>),
}

impl<T, E> Routine<T, E> {
    /// Holds when the routine's own outcome is a success, whatever its
    /// reentrant calls do.
    pub open spec fn finishes_ok(self) -> bool
        decreases self,
    {
        match self {
            Routine::Finish(outcome) => outcome is Ok,
            Routine::Reenter(_, rest) => rest.finishes_ok(),
        }
    }
}

/// The final state and the returned outcome of one full initialization call
/// on a cell in state `state`, running `routine` as the initializer.
///
/// This is the single-assignment protocol: a present cell returns its value
/// without running the routine; otherwise the routine runs, the state is
/// checked again, and the call adopts a value installed by a reentrant call,
/// installs the routine's own value, or propagates the routine's error.
pub open spec fn protocol_call<T, E>(state: Option<T>, routine: Routine<T, E>) -> (
    Option<T>,
    Result<T, E>,
)
    decreases routine, 1int,
{
    if state is Some {
        (state, Ok(state->0))
    } else {
        let run = routine_run(state, routine);
        if run.0 is Some {
            (run.0, Ok(run.0->0))
        } else {
            match run.1 {
                Ok(value) => (Some(value), Ok(value)),
                Err(error) => (None, Err(error)),
            }
        }
    }
}

/// The state left behind and the outcome produced by running a routine's
/// body itself: its reentrant calls, in order, and then its own outcome.
pub open spec fn routine_run<T, E>(state: Option<T>, routine: Routine<T, E>) -> (
    Option<T>,
    Result<T, E>,
)
    decreases routine, 0int,
{
    match routine {
        Routine::Finish(outcome) => (state, outcome),
        Routine::Reenter(inner, rest) => routine_run(protocol_call(state, *inner).0, *rest),
    }
}

/// The cell state after a sequence of initialization calls, one per routine,
/// in order.
pub open spec fn protocol_calls<T, E>(state: Option<T>, routines: Seq<Routine<T, E>>) -> Option<T>
    decreases routines.len(),
{
    if routines.len() == 0 {
        state
    } else {
        protocol_calls(protocol_call(state, routines[0]).0, routines.drop_first())
    }
}

impl<T> OnceCell<T> {
    /// Runs one full initialization call described by `routine`, reentrant
    /// calls included, and returns what the call returns: a reference to the
    /// value the cell ends up holding, or the routine's own error if nothing
    /// initialized the cell.
    pub fn try_init_once_with<E>(&mut self, routine: Routine<T, E>) -> (r: Result<&T, E>)
        ensures
            ({
                let call = protocol_call(old(self)@, routine);
                final(self)@ == call.0 && match r {
                    Ok(borrowed) => call.1 == Ok::<T, E>(*borrowed),
                    Err(error) => call.1 == Err::<T, E>(error),
                }
            }),
        decreases routine, 1int,
    {
        if self.0.is_some() {
            return Ok(self.0.as_ref().unwrap());
        }
        let produced = self.run_routine(routine);
        // A reentrant call may have initialized the cell while the routine
        // ran, so check again: the first installed value wins, and the value
        // the routine produced, or its error, is discarded.
        if self.0.is_some() {
            return Ok(self.0.as_ref().unwrap());
        }
        match produced {
            Ok(value) => {
                self.0 = Some(value);
                Ok(self.0.as_ref().unwrap())
            },
            Err(error) => Err(error),
        }
    }

    /// Runs one full initialization call whose routine always finishes with
    /// a value, and borrows the value the cell ends up holding.
    pub fn init_once_with<E>(&mut self, routine: Routine<T, E>) -> (r: &T)
        requires
            routine.finishes_ok(),
        ensures
            final(self)@ == protocol_call(old(self)@, routine).0,
            protocol_call(old(self)@, routine).1 == Ok::<T, E>(*r),
    {
        proof {
            lemma_finishes_ok_succeeds(old(self)@, routine);
        }
        match self.try_init_once_with(routine) {
            Ok(borrowed) => borrowed,
            Err(_) => unreached(),
        }
    }

    /// Runs the body of an initializer routine: performs its reentrant
    /// initialization calls, in order, and returns the routine's own
    /// outcome, to be committed or discarded by the enclosing call.
    fn run_routine<E>(&mut self, routine: Routine<T, E>) -> (outcome: Result<T, E>)
        ensures
            ({
                let run = routine_run(old(self)@, routine);
                final(self)@ == run.0 && outcome == run.1
            }),
        decreases routine, 0int,
    {
        match routine {
            Routine::Finish(outcome) => outcome,
            Routine::Reenter(inner, rest) => {
                // What the nested call returns is not the routine's own
                // outcome; the routine goes on, and the enclosing call's
                // re-check decides which value wins.
                let _ = self.try_init_once_with(*inner);
                self.run_routine(*rest)
            },
        }
    }
}

/// Law: a present cell absorbs every initialization call. The call returns
/// the stored value and changes nothing, whatever the routine says, because
/// the routine is never run.
pub proof fn lemma_present_is_absorbing<T, E>(state: Option<T>, routine: Routine<T, E>)
    requires
        state is Some,
    ensures
        protocol_call(state, routine) == (state, Ok::<T, E>(state->0)),
{
}

/// Law: running a routine, however deep its reentrant calls go, cannot
/// change a present cell.
pub proof fn lemma_run_preserves_present<T, E>(state: Option<T>, routine: Routine<T, E>)
    requires
        state is Some,
    ensures
        routine_run(state, routine).0 == state,
    decreases routine,
{
    match routine {
        Routine::Finish(_) => {},
        Routine::Reenter(inner, rest) => {
            lemma_run_preserves_present(protocol_call(state, *inner).0, *rest);
        },
    }
}

/// Law (single assignment): one initialization call moves the cell from
/// absent to present at most once and never changes a present value. A
/// successful call returns exactly the value the cell holds afterwards, and
/// a failed call leaves the cell absent, as it found it.
pub proof fn lemma_single_assignment<T, E>(state: Option<T>, routine: Routine<T, E>)
    ensures
        state matches Some(value) ==> protocol_call(state, routine).0 == Some(value),
        protocol_call(state, routine).1 matches Ok(value) ==> protocol_call(state, routine).0
            == Some(value),
        protocol_call(state, routine).1 is Err ==> state is None && protocol_call(state, routine).0
            is None,
{
}

/// Law (reentrancy precedence): if a cell is absent and the initializer's
/// first reentrant call installs a value, that value is what the whole call
/// installs and returns, whatever the rest of the initializer does and even
/// if it fails. Nested initialization attempts are resolved in favor of the
/// innermost successful one.
pub proof fn lemma_reentrant_precedence<T, E>(
    state: Option<T>,
    inner: Routine<T, E>,
    rest: Routine<T, E>,
)
    requires
        state is None,
        protocol_call(state, inner).0 is Some,
    ensures
        ({
            let installed = protocol_call(state, inner).0;
            protocol_call(state, Routine::Reenter(Box::new(inner), Box::new(rest))) == (
                installed,
                Ok::<T, E>(installed->0),
            )
        }),
{
    lemma_run_preserves_present(protocol_call(state, inner).0, rest);
}

/// Law (error overridden by reentrant success): if a cell is absent, the
/// initializer's reentrant call installs a value, and the initializer then
/// finishes with an error, the call still succeeds with the installed value
/// and the error is discarded.
pub proof fn lemma_error_overridden_by_reentrant_success<T, E>(
    state: Option<T>,
    inner: Routine<T, E>,
    error: E,
)
    requires
        state is None,
        protocol_call(state, inner).0 is Some,
    ensures
        ({
            let installed = protocol_call(state, inner).0;
            protocol_call(
                state,
                Routine::Reenter(Box::new(inner), Box::new(Routine::Finish(Err(error)))),
            ) == (installed, Ok::<T, E>(installed->0))
        }),
{
    lemma_reentrant_precedence(state, inner, Routine::Finish(Err(error)));
}

/// A routine whose own outcome is a success always produces a success.
proof fn lemma_run_finishes_ok<T, E>(state: Option<T>, routine: Routine<T, E>)
    requires
        routine.finishes_ok(),
    ensures
        routine_run(state, routine).1 is Ok,
    decreases routine,
{
    match routine {
        Routine::Finish(_) => {},
        Routine::Reenter(inner, rest) => {
            lemma_run_finishes_ok(protocol_call(state, *inner).0, *rest);
        },
    }
}

/// Law (no failure path for an infallible initializer): a call whose routine
/// finishes with a value always succeeds and leaves the cell present, with
/// the returned value being exactly what the cell holds.
pub proof fn lemma_finishes_ok_succeeds<T, E>(state: Option<T>, routine: Routine<T, E>)
    requires
        routine.finishes_ok(),
    ensures
        protocol_call(state, routine).1 is Ok,
        protocol_call(state, routine).0 == Some(protocol_call(state, routine).1->Ok_0),
{
    if state is None {
        lemma_run_finishes_ok(state, routine);
    }
    lemma_single_assignment(state, routine);
}

/// The present state is preserved by any sequence of initialization calls.
proof fn lemma_calls_preserve_present<T, E>(value: T, routines: Seq<Routine<T, E>>)
    ensures
        protocol_calls(Some(value), routines) == Some(value),
    decreases routines.len(),
{
    if routines.len() > 0 {
        lemma_calls_preserve_present(value, routines.drop_first());
    }
}

/// Law (idempotence): once a cell holds a value, any further sequence of
/// initialization calls leaves it unchanged, and every one of those calls
/// returns the stored value.
pub proof fn lemma_idempotence<T, E>(value: T, routines: Seq<Routine<T, E>>)
    ensures
        protocol_calls(Some(value), routines) == Some(value),
        forall|i: int|
            0 <= i < routines.len() ==> #[trigger] protocol_call(
                protocol_calls(Some(value), routines.take(i)),
                routines[i],
            ) == (Some(value), Ok::<T, E>(value)),
{
    lemma_calls_preserve_present(value, routines);
    assert forall|i: int| 0 <= i < routines.len() implies #[trigger] protocol_call(
        protocol_calls(Some(value), routines.take(i)),
        routines[i],
    ) == (Some(value), Ok::<T, E>(value)) by {
        lemma_calls_preserve_present(value, routines.take(i));
    };
}

/// A sequence of initialization calls decomposes: running two runs of calls
/// back to back is running the second from the state the first left behind.
proof fn lemma_calls_split<T, E>(
    state: Option<T>,
    front: Seq<Routine<T, E>>,
    back: Seq<Routine<T, E>>,
)
    ensures
        protocol_calls(state, front + back) == protocol_calls(protocol_calls(state, front), back),
    decreases front.len(),
{
    if front.len() == 0 {
        assert(front + back =~= back);
    } else {
        assert((front + back).drop_first() =~= front.drop_first() + back);
        lemma_calls_split(protocol_call(state, front[0]).0, front.drop_first(), back);
    }
}

/// Law (first successful write wins): as soon as some prefix of a sequence
/// of initialization calls has installed a value, that value is the one the
/// cell holds after the whole sequence; no later call, successful or not,
/// can displace it.
pub proof fn lemma_installed_value_persists<T, E>(
    state: Option<T>,
    routines: Seq<Routine<T, E>>,
    k: int,
    value: T,
)
    requires
        0 <= k <= routines.len(),
        protocol_calls(state, routines.take(k)) == Some(value),
    ensures
        protocol_calls(state, routines) == Some(value),
{
    assert(routines =~= routines.take(k) + routines.skip(k));
    lemma_calls_split(state, routines.take(k), routines.skip(k));
    lemma_calls_preserve_present(value, routines.skip(k));
}

/// Law (first success wins): starting from an absent cell, the value that
/// the first call of a sequence installs is the value the cell holds after
/// the whole sequence.
pub proof fn lemma_first_success_wins<T, E>(
    state: Option<T>,
    routines: Seq<Routine<T, E>>,
    value: T,
)
    requires
        routines.len() > 0,
        protocol_call(state, routines[0]).0 == Some(value),
    ensures
        protocol_calls(state, routines) == Some(value),
{
    let first = routines.take(1);
    assert(first[0] == routines[0]);
    assert(first.drop_first() =~= Seq::<Routine<T, E>>::empty());
    let after = protocol_call(state, first[0]).0;
    assert(protocol_calls(after, first.drop_first()) == after);
    assert(protocol_calls(state, first) == protocol_calls(after, first.drop_first()));
    lemma_installed_value_persists(state, routines, 1, value);
}

/// Law (plain calls follow the protocol): an initialization call whose
/// routine makes no reentrant call behaves exactly as the closure-taking
/// initializers state it: a present cell absorbs the call, a produced value
/// is installed and returned, and an error propagates and leaves the cell
/// absent.
pub proof fn lemma_plain_call_is_protocol<T, E>(state: Option<T>, outcome: Result<T, E>)
    ensures
        protocol_call(state, Routine::Finish(outcome)) == (
            if state is Some {
                state
            } else {
                match outcome {
                    Ok(value) => Some(value),
                    Err(_) => None,
                }
            },
            if state is Some {
                Ok(state->0)
            } else {
                outcome
            },
        ),
{
}

} // verus!
