//! A value that is set once its time has come.
use vstd::prelude::*;

verus! {

/// A generic data structure for asynchronously resolving values.
///
/// It holds what a resolver and those who wait for it share. Who waits looks
/// whether the value is there ([`AsyncResolve::get`]), sleeps if it has to
/// ([`AsyncResolve::must_wait`]), and takes the value when it was woken
/// ([`AsyncResolve::wait`]).
#[derive(Debug)]
pub struct AsyncResolve<T> {
    value: Option<T>,
    completed: bool,
}

impl<T> AsyncResolve<T> {
    /// The value, once there is one.
    pub closed spec fn resolved(&self) -> Option<T> {
        self.value
    }

    /// Whether those who wait were told.
    pub closed spec fn told(&self) -> bool {
        self.completed
    }

    /// The value and whether those who wait were told.
    pub open spec fn state(&self) -> (Option<T>, bool) {
        (self.resolved(), self.told())
    }

    /// Nobody is told before the value is there.
    pub open spec fn wf(&self) -> bool {
        self.told() ==> self.resolved() is Some
    }

    /// Creates a new unresolved AsyncResolve instance
    pub fn new() -> (resolver: Self)
        ensures
            resolver.wf(),
            resolver.state() == (None::<T>, false),
    {
        AsyncResolve { value: None, completed: false }
    }

    /// The first half of resolving: the value is there, and nobody was told yet.
    pub fn store(&mut self, value: T)
        ensures
            final(self).state() == stepped(old(self).state(), Step::Store(value)),
            final(self).wf(),
    {
        self.value = Some(value);
    }

    /// The second half of resolving: those who wait are told.
    pub fn complete(&mut self)
        ensures
            final(self).state() == stepped(old(self).state(), Step::Complete),
    {
        self.completed = true;
    }

    /// Sets the resolved value and notifies all waiters
    pub fn resolve(&mut self, value: T)
        ensures
            final(self).state() == (Some(value), true),
            final(self).wf(),
    {
        self.store(value);
        self.complete();
    }

    /// Whether one who found no value has to sleep until those who wait are told.
    pub fn must_wait(&self) -> (must: bool)
        ensures
            must == !(self.resolved() is Some || self.told()),
            self.wf() ==> must == (self.resolved() is None),
    {
        self.value.is_none() && !self.completed
    }

    /// Non-blocking check if value is resolved
    pub fn is_resolved(&self) -> (resolved: bool)
        ensures
            resolved == (self.resolved() is Some),
    {
        self.value.is_some()
    }
}

impl<T: Clone> AsyncResolve<T> {
    /// Non-blocking attempt to get the resolved value
    pub fn get(&self) -> (value: Option<T>)
        ensures
            match self.resolved() {
                Some(resolved) => value matches Some(value) && cloned(resolved, value),
                None => value is None,
            },
    {
        match &self.value {
            Some(value) => Some(value.clone()),
            None => None,
        }
    }

    /// What waiting comes to: the value, if it is there, or else, where the one who
    /// waited was woken without it, an error.
    pub fn wait(&self) -> (outcome: Result<T, String>)
        ensures
            match self.resolved() {
                Some(resolved) => outcome matches Ok(value) && cloned(resolved, value),
                None => outcome matches Err(why) && why@
                    == "Value should be resolved but is not available"@,
            },
    {
        match &self.value {
            Some(value) => Ok(value.clone()),
            None => Err("Value should be resolved but is not available".to_owned()),
        }
    }
}

impl<T> Default for AsyncResolve<T> {
    fn default() -> (resolver: Self)
        ensures
            resolver.wf(),
            resolver.state() == (None::<T>, false),
    {
        AsyncResolve::new()
    }
}

/// One step of those who share an `AsyncResolve`.
pub enum Step<T> {
    /// A value is stored.
    Store(T),
    /// Those who wait are told. It comes behind a `Store`.
    Complete,
}

/// What a step makes of the value and of whether those who wait were told.
pub open spec fn stepped<T>(state: (Option<T>, bool), step: Step<T>) -> (Option<T>, bool) {
    match step {
        Step::Store(stored) => (Some(stored), state.1),
        Step::Complete => (state.0, true),
    }
}

/// The value and whether those who wait were told, after `steps`.
pub open spec fn after<T>(steps: Seq<Step<T>>) -> (Option<T>, bool)
    decreases steps.len(),
{
    if steps.len() == 0 {
        (None, false)
    } else {
        stepped(after(steps.drop_last()), steps.last())
    }
}

/// Whether a value was stored before those who wait were first told, as each call
/// of `resolve` does it, whatever the others do in between.
pub open spec fn stored_first<T>(steps: Seq<Step<T>>) -> bool {
    forall|i: int|
        0 <= i < steps.len() && #[trigger] steps[i] is Complete ==> exists|j: int|
            0 <= j < i && #[trigger] steps[j] is Store
}

/// However the halves of several calls of `resolve` fall between each other: once
/// those who wait were told, the value is there.
pub proof fn law_told_means_resolved<T>(steps: Seq<Step<T>>)
    requires
        stored_first(steps),
    ensures
        after(steps).1 ==> after(steps).0 is Some,
        (exists|j: int| 0 <= j < steps.len() && #[trigger] steps[j] is Store) ==> after(
            steps,
        ).0 is Some,
    decreases steps.len(),
{
    if steps.len() > 0 {
        let shorter = steps.drop_last();
        assert forall|i: int| 0 <= i < shorter.len() && #[trigger] shorter[i] is Complete implies exists|
            j: int,
        | 0 <= j < i && #[trigger] shorter[j] is Store by {
            assert(shorter[i] == steps[i]);
            let j = choose|j: int| 0 <= j < i && #[trigger] steps[j] is Store;
            assert(shorter[j] == steps[j]);
        }
        law_told_means_resolved(shorter);
        if steps.last() is Complete {
            assert(steps[steps.len() - 1] is Complete);
            let j = choose|j: int| 0 <= j < steps.len() - 1 && #[trigger] steps[j] is Store;
            assert(shorter[j] == steps[j]);
        }
    }
}

/// Whatever came before, a call of `resolve` that nobody cuts into leaves its value
/// there for those who wait, and they were told.
pub proof fn law_last_resolve_wins<T>(steps: Seq<Step<T>>, value: T)
    ensures
        after(steps.push(Step::Store(value)).push(Step::Complete)) == (Some(value), true),
{
    let stored = steps.push(Step::Store(value));
    assert(stored.drop_last() =~= steps);
    assert(after(stored).0 == Some(value));
    assert(stored.push(Step::Complete).drop_last() =~= stored);
}

/// A value that is there stays there: no step takes it away.
pub proof fn law_resolved_stays_resolved<T>(state: (Option<T>, bool), step: Step<T>)
    ensures
        state.0 is Some ==> stepped(state, step).0 is Some,
        state.1 ==> stepped(state, step).1,
{
}

} // verus!
