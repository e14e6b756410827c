//! The execution context: compiles translation units through a backend and
//! keeps only a non-owning handle to each artifact, recompiling on demand.
use vstd::prelude::*;
use std::rc::Rc;
use crate::cache::CachedArtifact;
use crate::backend::{Compiler, Executable, PlatformDefaultBackend};
use crate::interpret::{spec_execute, ExecFault, InterpreterBackend, InterpreterExecutable, BLOCK_LIMIT};
use crate::reg::RegisterMap;
use crate::unit::{TranslationUnit, UnitModel};

verus! {

/// The value an `Rc` points to.
spec fn shared_value<T>(rc: &Rc<T>) -> T {
    **rc
}

/// Why executing a compiled unit failed.
#[derive(Debug)]
pub enum ExecError {
    /// The artifact had been reclaimed and the backend refused to compile the unit again.
    Compile(String),
    /// The run stopped with a fault.
    Fault(ExecFault),
}

/// The outcome of a run as the artifact reports it.
pub open spec fn run_outcome(r: Result<(), ExecError>) -> Result<(), ExecFault> {
    match r {
        Ok(_) => Ok(()),
        Err(ExecError::Fault(e)) => Err(e),
        Err(ExecError::Compile(_)) => Err(ExecFault::UnsupportedOperation),
    }
}

/// Whether some compilation of `unit` by `Backend` may take the state bytes from
/// `before` to `after` with outcome `r`.
pub open spec fn ran_compiled<State: RegisterMap, Backend: Compiler<State>>(
    unit: UnitModel,
    before: Seq<u8>,
    after: Seq<u8>,
    r: Result<(), ExecFault>,
) -> bool {
    exists|a: Backend::Artifact| #[trigger]
        Backend::compiles_to(unit, a) && a.runs(before, after, r)
}

/// Owns a backend and compiles translation units through it. Compiling needs
/// exclusive access to the context, so two compilations never interleave.
pub struct ExecutionContext<Backend = PlatformDefaultBackend> {
    backend: Backend,
}

impl<Backend> ExecutionContext<Backend> {
    /// A context around `backend`.
    pub fn new(backend: Backend) -> (r: Self)
        ensures
            r.backend() == backend,
    {
        ExecutionContext { backend }
    }

    /// The backend.
    pub closed spec fn backend(&self) -> Backend {
        self.backend
    }

    /// Compiles `translation_unit` once and returns a handle that keeps the unit
    /// and only a weak reference to the artifact.
    pub fn compile<State: RegisterMap>(&mut self, translation_unit: Box<TranslationUnit>) -> (r:
        Result<CompiledTranslationUnit<State, Backend>, String>) where Backend: Compiler<State>
        requires
            translation_unit.wf(),
        ensures
            r matches Ok(c) ==> c.wf() && c.unit() == translation_unit@,
            Backend::accepts(translation_unit@) ==> r is Ok,
            r matches Err(e) ==> e@ == Backend::error_of(translation_unit@),
            (forall|a: Backend::Artifact| !#[trigger] Backend::compiles_to(translation_unit@, a))
                ==> r is Err,
    {
        let exec = match self.compile_unit::<State>(&translation_unit) {
            Ok(exec) => exec,
            Err(e) => return Err(e),
        };
        Ok(CompiledTranslationUnit { translation_unit, executable: CachedArtifact::new(&exec) })
    }

    /// Hands the unit to the backend.
    fn compile_unit<State: RegisterMap>(&mut self, unit: &TranslationUnit) -> (r: Result<
        Rc<Backend::Artifact>,
        String,
    >) where Backend: Compiler<State>
        requires
            unit.wf(),
        ensures
            r matches Ok(a) ==> Backend::compiles_to(unit@, *a),
            Backend::accepts(unit@) ==> r is Ok,
            r matches Err(e) ==> e@ == Backend::error_of(unit@),
    {
        self.backend.compile_unit(unit)
    }
}

impl<Backend: Default> Default for ExecutionContext<Backend> {
    fn default() -> (r: Self) {
        ExecutionContext { backend: Backend::default() }
    }
}

/// A translation unit with a weak reference to its compiled form.
pub struct CompiledTranslationUnit<State: RegisterMap, Backend: Compiler<State>> {
    translation_unit: Box<TranslationUnit>,
    executable: CachedArtifact<Backend::Artifact>,
}

impl<State: RegisterMap, Backend: Compiler<State>> CompiledTranslationUnit<State, Backend> {
    /// The unit is well formed and the cached artifact is a compilation of it.
    pub closed spec fn wf(&self) -> bool {
        &&& self.translation_unit.wf()
        &&& Backend::compiles_to(self.translation_unit@, self.executable.target())
    }

    /// The unit that runs.
    pub closed spec fn unit(&self) -> UnitModel {
        self.translation_unit@
    }

    /// Runs the unit against `state`. When the artifact has been reclaimed, the
    /// unit is compiled again through `context` first; that new artifact is
    /// cached weakly in turn.
    pub fn execute(&mut self, context: &mut ExecutionContext<Backend>, state: &mut State) -> (r:
        Result<(), ExecError>)
        requires
            old(self).wf(),
            forall|a: Backend::Artifact| #[trigger]
                Backend::compiles_to(old(self).unit(), a) ==> a.admits(old(state).bytes()),
        ensures
            final(self).wf(),
            final(self).unit() == old(self).unit(),
            match r {
                Err(ExecError::Compile(msg)) => {
                    &&& final(state).bytes() == old(state).bytes()
                    &&& !Backend::accepts(old(self).unit())
                    &&& msg@ == Backend::error_of(old(self).unit())
                },
                _ => ran_compiled::<State, Backend>(
                    old(self).unit(),
                    old(state).bytes(),
                    final(state).bytes(),
                    run_outcome(r),
                ),
            },
    {
        let exec = match self.executable.upgrade() {
            Some(exec) => exec,
            None => {
                let exec = match context.compile_unit::<State>(&self.translation_unit) {
                    Ok(exec) => exec,
                    Err(msg) => return Err(ExecError::Compile(msg)),
                };
                self.executable = CachedArtifact::new(&exec);
                exec
            },
        };
        let ghost before = state.bytes();
        let r = exec.execute(state);
        let ghost a: Backend::Artifact = shared_value(&exec);
        let out = match r {
            Ok(u) => Ok(u),
            Err(e) => Err(ExecError::Fault(e)),
        };
        proof {
            assert(run_outcome(out) == r);
            assert(Backend::compiles_to(self.translation_unit@, a) && a.runs(
                before,
                state.bytes(),
                r,
            ));
        }
        out
    }
}

/// Two runs of compilations of one unit from the same state end the same way,
/// whether the artifact was still cached or had to be compiled again.
pub proof fn lemma_runs_agree<State: RegisterMap, Backend: Compiler<State>>(
    unit: UnitModel,
    before: Seq<u8>,
    after1: Seq<u8>,
    r1: Result<(), ExecFault>,
    after2: Seq<u8>,
    r2: Result<(), ExecFault>,
)
    requires
        ran_compiled::<State, Backend>(unit, before, after1, r1),
        ran_compiled::<State, Backend>(unit, before, after2, r2),
    ensures
        after1 == after2,
        r1 == r2,
{
    let a1 = choose|a: Backend::Artifact| #[trigger]
        Backend::compiles_to(unit, a) && a.runs(before, after1, r1);
    let a2 = choose|a: Backend::Artifact| #[trigger]
        Backend::compiles_to(unit, a) && a.runs(before, after2, r2);
    Backend::lemma_deterministic(unit, a1, a2, before, after1, r1, after2, r2);
}

/// With the interpreter backend, every run of a compiled unit, whether its
/// artifact was still cached or had to be compiled again, is the run the
/// interpreter semantics gives for the unit and the state type's register
/// table; so all runs from the same state agree.
pub proof fn lemma_interpreter_runs_agree<State: RegisterMap>(
    unit: UnitModel,
    before: Seq<u8>,
    after: Seq<u8>,
    r: Result<(), ExecFault>,
)
    requires
        ran_compiled::<State, InterpreterBackend>(unit, before, after, r),
    ensures
        (after, r) == spec_execute(unit, State::layout(), before, BLOCK_LIMIT as nat),
{
    let a = choose|a: InterpreterExecutable| #[trigger]
        <InterpreterBackend as Compiler<State>>::compiles_to(unit, a)
            && <InterpreterExecutable as Executable<State>>::runs(&a, before, after, r);
}

} // verus!
