use vstd::prelude::*;

verus! {

/// Busy-wait lock that owns its payload.
///
/// While the flag is clear the payload rests in the lock; acquiring the lock
/// hands the payload out inside a [`SpinlockGuard`], and releasing it takes the
/// guard back, so the payload is reachable only while the flag is held.
pub struct Spinlock<T> {
    lock: bool,
    data: Option<T>,
}

/// Exclusive access to the payload of a held [`Spinlock`].
pub struct SpinlockGuard<T> {
    data: T,
}

/// Whether one acquire attempt on a lock whose flag is `locked` succeeds.
pub open spec fn acquire_succeeds(locked: bool) -> bool {
    !locked
}

/// Two acquire attempts never both succeed: after any attempt the flag is set,
/// so the next attempt fails until a guard is given back; giving a guard back
/// clears the flag, after which the next attempt succeeds again.
pub proof fn lemma_acquire_exclusive(locked: bool)
    ensures
        !(acquire_succeeds(locked) && acquire_succeeds(true)),
        acquire_succeeds(false),
{
}

impl<T> Spinlock<T> {
    #[verifier::type_invariant]
    spec fn inv(&self) -> bool {
        self.lock <==> self.data.is_none()
    }

    /// The flag: set while a guard is out.
    pub closed spec fn is_locked(&self) -> bool {
        self.lock
    }

    /// The payload resting in the lock; `None` while a guard holds it.
    pub closed spec fn payload(&self) -> Option<T> {
        self.data
    }

    /// A free lock around `data`.
    pub fn new(data: T) -> (r: Self)
        ensures
            !r.is_locked(),
            r.payload() == Some(data),
    {
        Spinlock { lock: false, data: Some(data) }
    }

    /// One compare-and-swap attempt on the flag (false to true): hands out the
    /// payload if the flag was clear, fails and changes nothing otherwise.
    /// Safe to call from interrupt context, as it never waits.
    pub fn try_lock(&mut self) -> (r: Option<SpinlockGuard<T>>)
        ensures
            final(self).is_locked(),
            r.is_some() == acquire_succeeds(old(self).is_locked()),
            old(self).is_locked() ==> *final(self) == *old(self),
            !old(self).is_locked() ==> r.is_some() && r.unwrap().value() == old(
                self,
            ).payload().unwrap(),
    {
        proof {
            use_type_invariant(&*self);
        }
        if self.lock {
            None
        } else {
            let mut taken = Spinlock { lock: true, data: None };
            core::mem::swap(self, &mut taken);
            proof {
                use_type_invariant(&taken);
            }
            Some(SpinlockGuard { data: taken.data.unwrap() })
        }
    }

    /// Acquires a free lock. With exclusive access to the lock nobody else could
    /// release a held flag, so the flag must be clear.
    pub fn lock(&mut self) -> (r: SpinlockGuard<T>)
        requires
            !old(self).is_locked(),
        ensures
            final(self).is_locked(),
            r.value() == old(self).payload().unwrap(),
    {
        self.try_lock().unwrap()
    }

    /// Gives the guard back: the payload returns to the lock and the flag is
    /// cleared. The guard is consumed, so it clears the flag exactly once.
    pub fn unlock(&mut self, guard: SpinlockGuard<T>)
        requires
            old(self).is_locked(),
        ensures
            !final(self).is_locked(),
            final(self).payload() == Some(guard.value()),
    {
        *self = Spinlock { lock: false, data: Some(guard.data) };
    }
}

impl<T> SpinlockGuard<T> {
    /// The payload held by this guard.
    pub closed spec fn value(&self) -> T {
        self.data
    }

    /// Shared access to the payload.
    pub fn get(&self) -> (r: &T)
        ensures
            *r == self.value(),
    {
        &self.data
    }

    /// Mutable access to the payload.
    pub fn get_mut(&mut self) -> (r: &mut T)
        ensures
            *r == old(self).value(),
            final(self).value() == *final(r),
    {
        &mut self.data
    }
}

} // verus!
