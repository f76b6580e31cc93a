//! The cache of GPU resources that a worker thread keeps between renders:
//! what state it is in, and what an acquisition has to do.

use vstd::prelude::*;

verus! {

/// The state of a thread's cached resources.
#[derive(Clone, Copy, Debug, PartialEq, Eq, Structural)]
pub enum CacheState {
    /// Nothing is cached.
    Uninitialized,
    /// Factory, device and drawing context are cached and usable.
    Ready,
    /// The cached resources stem from a lost device. The next acquisition
    /// discards them.
    Poisoned,
}

/// What an acquisition has to do.
#[derive(Clone, Copy, Debug, PartialEq, Eq, Structural)]
pub enum AcquirePlan {
    /// Hand out the cached resources.
    Reuse,
    /// Discard what is cached, if anything, and create the resources anew.
    Create,
}

/// The kind of device to create.
#[derive(Clone, Copy, Debug, PartialEq, Eq, Structural)]
pub enum DriverKind {
    /// A device backed by the hardware.
    Hardware,
    /// A software device.
    Software,
}

/// What an acquisition has to do in state `s`.
pub open spec fn plan_in(s: CacheState) -> AcquirePlan {
    if s == CacheState::Ready {
        AcquirePlan::Reuse
    } else {
        AcquirePlan::Create
    }
}

/// The state in which an acquisition leaves the cache before anything is
/// created: poisoned resources are discarded.
pub open spec fn after_acquire(s: CacheState) -> CacheState {
    if s == CacheState::Ready {
        CacheState::Ready
    } else {
        CacheState::Uninitialized
    }
}

/// The state after a draw session has asked for its target to be
/// recreated. Only cached resources can be poisoned.
pub open spec fn after_poison(s: CacheState) -> CacheState {
    if s == CacheState::Uninitialized {
        CacheState::Uninitialized
    } else {
        CacheState::Poisoned
    }
}

/// The kind of device to try first.
pub open spec fn first_choice(prefer_hardware: bool) -> DriverKind {
    if prefer_hardware {
        DriverKind::Hardware
    } else {
        DriverKind::Software
    }
}

/// The kind of device to try once `failed` could not be created: software
/// after hardware, nothing after software.
pub open spec fn next_choice(failed: DriverKind) -> Option<DriverKind> {
    match failed {
        DriverKind::Hardware => Some(DriverKind::Software),
        DriverKind::Software => None,
    }
}

/// Tells which kind of device to try first.
pub fn first_driver(prefer_hardware: bool) -> (kind: DriverKind)
    ensures
        kind == first_choice(prefer_hardware),
{
    if prefer_hardware {
        DriverKind::Hardware
    } else {
        DriverKind::Software
    }
}

/// Tells which kind of device to try after one could not be created.
pub fn fallback_driver(failed: DriverKind) -> (kind: Option<DriverKind>)
    ensures
        kind == next_choice(failed),
{
    match failed {
        DriverKind::Hardware => Some(DriverKind::Software),
        DriverKind::Software => None,
    }
}

/// The record that a thread keeps of its cached resources. The resources
/// themselves stay with the thread that created them.
pub struct ResourceCache {
    state: CacheState,
}

impl ResourceCache {
    /// The state of the cache.
    pub closed spec fn spec_state(&self) -> CacheState {
        self.state
    }

    /// A cache that holds nothing.
    pub fn new() -> (c: ResourceCache)
        ensures
            c.spec_state() == CacheState::Uninitialized,
    {
        ResourceCache { state: CacheState::Uninitialized }
    }

    /// The state of the cache.
    #[verifier::when_used_as_spec(spec_state)]
    pub fn state(&self) -> (s: CacheState)
        ensures
            s == self.spec_state(),
    {
        self.state
    }

    /// Begins an acquisition: tells whether the cached resources can be
    /// handed out or new ones have to be created. Poisoned resources count
    /// as discarded from here on.
    pub fn acquire(&mut self) -> (plan: AcquirePlan)
        ensures
            plan == plan_in(old(self).spec_state()),
            final(self).spec_state() == after_acquire(old(self).spec_state()),
    {
        match self.state {
            CacheState::Ready => AcquirePlan::Reuse,
            _ => {
                self.state = CacheState::Uninitialized;
                AcquirePlan::Create
            },
        }
    }

    /// Records that factory, device and drawing context were created and
    /// are cached now.
    pub fn created(&mut self)
        ensures
            final(self).spec_state() == CacheState::Ready,
    {
        self.state = CacheState::Ready;
    }

    /// Marks the cached resources as invalid for the next acquisition. Work
    /// in progress goes on with them.
    pub fn poison(&mut self)
        ensures
            final(self).spec_state() == after_poison(old(self).spec_state()),
    {
        match self.state {
            CacheState::Uninitialized => {},
            _ => {
                self.state = CacheState::Poisoned;
            },
        }
    }

    /// Forgets the cached resources, as after a fault in the middle of a
    /// render.
    pub fn reset(&mut self)
        ensures
            final(self).spec_state() == CacheState::Uninitialized,
    {
        self.state = CacheState::Uninitialized;
    }
}

/// After a lost device the next acquisition creates the resources anew: it
/// never hands out what was cached before.
pub proof fn lemma_poisoned_cache_is_recreated(s: CacheState)
    ensures
        plan_in(after_poison(s)) == AcquirePlan::Create,
        after_acquire(after_poison(s)) == CacheState::Uninitialized,
{
}

/// Resources are handed out from the cache exactly in the state `Ready`,
/// and an acquisition leaves that state as it is.
pub proof fn lemma_ready_cache_is_reused(s: CacheState)
    ensures
        plan_in(s) == AcquirePlan::Reuse <==> s == CacheState::Ready,
        plan_in(s) == AcquirePlan::Reuse ==> after_acquire(s) == s,
{
}

/// Whatever kind is preferred, the software device is tried before the
/// creation is given up, and nothing is tried after it.
pub proof fn lemma_software_is_last(prefer_hardware: bool)
    ensures
        first_choice(prefer_hardware) == DriverKind::Software || next_choice(
            first_choice(prefer_hardware),
        ) == Some(DriverKind::Software),
        next_choice(DriverKind::Software) is None,
{
}

} // verus!
