//! The single slot that connects the interpreter's stateless server
//! callbacks to the one active implementation instance.
use vstd::prelude::*;

verus! {

/// Why a context operation was refused.
#[derive(Clone, Copy, Debug, PartialEq, Eq, Structural)]
pub enum ContextError {
    /// A server context is already active; it is left in place.
    AlreadyActive,
    /// No server context is active.
    NoContext,
}

/// Holds at most one active server context.
#[derive(Debug)]
pub struct ContextSlot<T> {
    active: Option<T>,
}

impl<T> View for ContextSlot<T> {
    type V = Option<T>;

    closed spec fn view(&self) -> Option<T> {
        self.active
    }
}

impl<T> ContextSlot<T> {
    /// An empty slot.
    pub fn new() -> (r: Self)
        ensures
            r@ == None::<T>,
    {
        ContextSlot { active: None }
    }

    /// Whether a context is active.
    pub fn is_active(&self) -> (r: bool)
        ensures
            r == self@.is_some(),
    {
        self.active.is_some()
    }

    /// The active context, if any.
    pub fn current(&self) -> (r: Option<&T>)
        ensures
            r == match self@ {
                Some(c) => Some(&c),
                None => None::<&T>,
            },
    {
        match &self.active {
            Some(c) => Some(c),
            None => None,
        }
    }
}

/// Makes `context` the active one. While another is active the call is
/// refused and the slot is left as it was: one active context never
/// silently replaces another.
pub fn set_context<T>(slot: &mut ContextSlot<T>, context: T) -> (r: Result<(), ContextError>)
    ensures
        old(slot)@.is_none() ==> r == Ok::<(), ContextError>(()) && final(slot)@ == Some(context),
        old(slot)@.is_some() ==> r == Err::<(), ContextError>(ContextError::AlreadyActive)
            && final(slot)@ == old(slot)@,
{
    if slot.active.is_some() {
        Err(ContextError::AlreadyActive)
    } else {
        slot.active = Some(context);
        Ok(())
    }
}

/// Empties the slot.
pub fn clear_context<T>(slot: &mut ContextSlot<T>)
    ensures
        final(slot)@ == None::<T>,
{
    slot.active = None;
}

/// Runs `f` on the active context and returns its result, or
/// `NoContext` where none is active.
pub fn with_context<T, R, F: FnOnce(&T) -> R>(slot: &ContextSlot<T>, f: F) -> (r: Result<
    R,
    ContextError,
>)
    requires
        forall|c: &T| slot@ == Some(*c) ==> call_requires(f, (c,)),
    ensures
        slot@.is_none() ==> r == Err::<R, ContextError>(ContextError::NoContext),
        slot@.is_some() ==> r.is_ok() && call_ensures(f, (&slot@.unwrap(),), r.unwrap()),
{
    match &slot.active {
        Some(c) => Ok(f(c)),
        None => Err(ContextError::NoContext),
    }
}

} // verus!
