//! The contract between translation units and the backends that compile them.
use vstd::prelude::*;
use std::rc::Rc;
use crate::interpret::ExecFault;
use crate::reg::RegisterMap;
use crate::unit::{TranslationUnit, UnitModel};

verus! {

/// A compiled translation unit that runs against host state of type `State`.
pub trait Executable<State: RegisterMap> {
    /// Whether one run may take the state bytes from `before` to `after` and
    /// end with `r`.
    spec fn runs(&self, before: Seq<u8>, after: Seq<u8>, r: Result<(), ExecFault>) -> bool;

    /// Whether a run from `before` is in the domain of `execute`: it does not
    /// meet a fault that stops execution fatally.
    spec fn admits(&self, before: Seq<u8>) -> bool;

    /// Runs the unit to one of its terminators, changing the state in place.
    fn execute(&self, state: &mut State) -> (r: Result<(), ExecFault>)
        requires
            self.admits(old(state).bytes()),
        ensures
            self.runs(old(state).bytes(), final(state).bytes(), r),
    ;
}

/// A backend: turns a translation unit into an executable for `State`, or fails
/// with a reason.
pub trait Compiler<State: RegisterMap> {
    /// What the backend produces.
    type Artifact: Executable<State>;

    /// Whether `artifact` is a faithful compilation of `unit`.
    spec fn compiles_to(unit: UnitModel, artifact: Self::Artifact) -> bool;

    /// Whether the backend promises to compile `unit`.
    spec fn accepts(unit: UnitModel) -> bool;

    /// The message the backend gives when it refuses `unit`.
    spec fn error_of(unit: UnitModel) -> Seq<char>;

    /// Two compilations of one unit, run from the same state, end the same way.
    proof fn lemma_deterministic(
        unit: UnitModel,
        a1: Self::Artifact,
        a2: Self::Artifact,
        before: Seq<u8>,
        after1: Seq<u8>,
        r1: Result<(), ExecFault>,
        after2: Seq<u8>,
        r2: Result<(), ExecFault>,
    )
        requires
            Self::compiles_to(unit, a1),
            Self::compiles_to(unit, a2),
            a1.runs(before, after1, r1),
            a2.runs(before, after2, r2),
        ensures
            after1 == after2,
            r1 == r2,
    ;

    /// Compiles `unit`.
    fn compile_unit(&mut self, unit: &TranslationUnit) -> (r: Result<Rc<Self::Artifact>, String>)
        requires
            unit.wf(),
        ensures
            r matches Ok(a) ==> Self::compiles_to(unit@, *a),
            Self::accepts(unit@) ==> r is Ok,
            r matches Err(e) ==> e@ == Self::error_of(unit@),
    ;
}

/// The artifact type of [`PlatformDefaultBackend`]; that backend never makes one.
pub struct PlatformExecutable;

impl<State: RegisterMap> Executable<State> for PlatformExecutable {
    open spec fn runs(&self, before: Seq<u8>, after: Seq<u8>, r: Result<(), ExecFault>) -> bool {
        after == before && r == Err::<(), ExecFault>(ExecFault::UnsupportedOperation)
    }

    open spec fn admits(&self, before: Seq<u8>) -> bool {
        true
    }

    fn execute(&self, state: &mut State) -> (r: Result<(), ExecFault>) {
        Err(ExecFault::UnsupportedOperation)
    }
}

/// Stands for a native code generator that this platform does not have: every
/// compilation fails.
#[derive(Debug, Default)]
pub struct PlatformDefaultBackend {}

/// Why the default backend refuses every unit.
pub fn no_platform_backend() -> (r: String)
    ensures
        r@ == "No platform backend available"@,
{
    String::from_str("No platform backend available")
}

impl<State: RegisterMap> Compiler<State> for PlatformDefaultBackend {
    type Artifact = PlatformExecutable;

    open spec fn compiles_to(unit: UnitModel, artifact: PlatformExecutable) -> bool {
        false
    }

    open spec fn accepts(unit: UnitModel) -> bool {
        false
    }

    open spec fn error_of(unit: UnitModel) -> Seq<char> {
        "No platform backend available"@
    }

    proof fn lemma_deterministic(
        unit: UnitModel,
        a1: PlatformExecutable,
        a2: PlatformExecutable,
        before: Seq<u8>,
        after1: Seq<u8>,
        r1: Result<(), ExecFault>,
        after2: Seq<u8>,
        r2: Result<(), ExecFault>,
    ) {
    }

    fn compile_unit(&mut self, unit: &TranslationUnit) -> (r: Result<Rc<PlatformExecutable>, String>) {
        Err(no_platform_backend())
    }
}

} // verus!
