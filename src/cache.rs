//! A weak handle to a compiled artifact, paired with the artifact it was made
//! from. Only `CachedArtifact::new` builds one, so the pairing always holds.
use vstd::prelude::*;
use std::rc::Rc;

verus! {

/// A `std::rc::Weak` to a compiled artifact.
#[verifier::external_body]
#[verifier::reject_recursive_types(T)]
struct WeakArtifact<T> {
    weak: std::rc::Weak<T>,
}

/// A weak handle together with the artifact it was made from.
#[verifier::reject_recursive_types(T)]
pub struct CachedArtifact<T> {
    handle: WeakArtifact<T>,
    artifact: Ghost<T>,
}

impl<T> CachedArtifact<T> {
    /// The artifact the handle was made from.
    pub closed spec fn target(&self) -> T {
        self.artifact@
    }

    /// Relies on `std::rc::Rc::downgrade`: the handle refers to the allocation of
    /// `rc`, whose value is recorded as the target.
    #[verifier::external_body]
    pub fn new(rc: &Rc<T>) -> (r: Self)
        ensures
            r.target() == **rc,
    {
        CachedArtifact { handle: WeakArtifact { weak: Rc::downgrade(rc) }, artifact: Ghost(**rc) }
    }

    /// Relies on `std::rc::Weak::upgrade`: `Some` while a strong reference to the
    /// allocation lives, and then it holds the value the handle was made from,
    /// which an `Rc` never changes.
    #[verifier::external_body]
    pub fn upgrade(&self) -> (r: Option<Rc<T>>)
        ensures
            r matches Some(a) ==> *a == self.target(),
    {
        self.handle.weak.upgrade()
    }
}

} // verus!
