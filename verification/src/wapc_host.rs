//! One loaded program: a WebAssembly module that runs in a host of its own
//! and answers calls by the name of an operation.
//!
//! The host comes from outside this library, and so does the engine under
//! it. To start a host on a module and to run a call in it is left to the
//! caller, where a host that gives up can be contained: this library says
//! what is to be run, and takes what running it ended in. What the engine
//! and the host report when they fail is sorted here into the two kinds of
//! failure of loading and the three kinds of failure of a call.

use crate::error::{ExecError, LoadError};
use vstd::prelude::*;
use vstd::string::StringExecFns;

verus! {

/// `wapc::WapcHost`, the host of one module. It is carried through as it
/// is: nothing of what it holds is seen from here.
#[verifier::external_type_specification]
#[verifier::external_body]
pub struct ExHost(wapc::WapcHost);

/// Why no host was started on a module.
#[derive(Debug)]
pub enum EngineFault {
    /// The engine could not be made.
    Engine(String),
    InitializationFailed(String),
    InitializationFailedTimeout(String),
    GuestCallNotFound,
    WasiDisabled,
    WasiInitCtxError(String),
    LinkerFuncDef { func: String, err: String },
    BuilderInvalidConfig(String),
    Wasmtime(String),
    Generic(String),
    /// The host could not be started on the engine.
    Host(String),
    /// The engine or the host gave up while the module was started.
    Panicked(String),
}

/// Why a call brought no answer.
#[derive(Debug)]
pub enum HostFault {
    NoSuchFunction(String),
    IO(String),
    WasmMisc(String),
    HostCallFailure(String),
    InitFailed(String),
    GuestCallFailure(String),
    ReplacementFailed(String),
    ProviderFailure(String),
    General(String),
    /// The engine or the host gave up while the call ran.
    Panicked(String),
}

impl EngineFault {
    /// Whether the fault lies with the module: the engine refused it. Every
    /// other fault lies with setting up the engine and the bridge between
    /// host and guest.
    pub open spec fn blames_module(&self) -> bool {
        self is Wasmtime || self is Generic
    }

    /// What the fault says.
    pub open spec fn reason(&self) -> Seq<char> {
        match self {
            EngineFault::Engine(m) => m@,
            EngineFault::Host(m) => m@,
            EngineFault::Panicked(m) => m@,
            EngineFault::InitializationFailed(m) => m@,
            EngineFault::InitializationFailedTimeout(m) => m@,
            EngineFault::GuestCallNotFound => "the module does not export __guest_call"@,
            EngineFault::WasiDisabled => "the engine was built without WASI"@,
            EngineFault::WasiInitCtxError(m) => m@,
            EngineFault::LinkerFuncDef { func, err } => err@,
            EngineFault::BuilderInvalidConfig(m) => m@,
            EngineFault::Wasmtime(m) => m@,
            EngineFault::Generic(m) => m@,
        }
    }
}

impl HostFault {
    /// What the fault says.
    pub open spec fn reason(&self) -> Seq<char> {
        match self {
            HostFault::NoSuchFunction(m) => m@,
            HostFault::IO(m) => m@,
            HostFault::WasmMisc(m) => m@,
            HostFault::HostCallFailure(m) => m@,
            HostFault::InitFailed(m) => m@,
            HostFault::GuestCallFailure(m) => m@,
            HostFault::ReplacementFailed(m) => m@,
            HostFault::ProviderFailure(m) => m@,
            HostFault::General(m) => m@,
            HostFault::Panicked(m) => m@,
        }
    }
}

impl LoadError {
    /// What the failure says.
    pub open spec fn reason(&self) -> Seq<char> {
        match self {
            LoadError::InvalidModule(m) => m@,
            LoadError::EngineInit(m) => m@,
        }
    }

    /// The failure of loading that a fault of the engine is:
    /// [`LoadError::InvalidModule`] where the fault lies with the module,
    /// [`LoadError::EngineInit`] otherwise, with what the fault says.
    pub fn of_engine(f: EngineFault) -> (e: LoadError)
        ensures
            e is InvalidModule <==> f.blames_module(),
            e.reason() == f.reason(),
    {
        match f {
            EngineFault::Engine(m) => LoadError::EngineInit(m),
            EngineFault::Host(m) => LoadError::EngineInit(m),
            EngineFault::Panicked(m) => LoadError::EngineInit(m),
            EngineFault::InitializationFailed(m) => LoadError::EngineInit(m),
            EngineFault::InitializationFailedTimeout(m) => LoadError::EngineInit(m),
            EngineFault::GuestCallNotFound => LoadError::EngineInit(
                String::from_str("the module does not export __guest_call"),
            ),
            EngineFault::WasiDisabled => LoadError::EngineInit(
                String::from_str("the engine was built without WASI"),
            ),
            EngineFault::WasiInitCtxError(m) => LoadError::EngineInit(m),
            EngineFault::LinkerFuncDef { func, err } => LoadError::EngineInit(err),
            EngineFault::BuilderInvalidConfig(m) => LoadError::EngineInit(m),
            EngineFault::Wasmtime(m) => LoadError::InvalidModule(m),
            EngineFault::Generic(m) => LoadError::InvalidModule(m),
        }
    }
}

impl ExecError {
    /// Whether the failure is the one that the fault `f` of the host is
    /// sorted as.
    pub open spec fn sorts(&self, f: HostFault) -> bool {
        match f {
            HostFault::NoSuchFunction(_) => self is NotFound,
            HostFault::GuestCallFailure(m) => self matches ExecError::GuestFailure(t) && t@ == m@,
            _ => self matches ExecError::HostFailure(t) && t@ == f.reason(),
        }
    }

    /// The failure of a call that a fault of the host is: a missing
    /// function is [`ExecError::NotFound`], a failure of the guest's call is
    /// [`ExecError::GuestFailure`], and every other fault is
    /// [`ExecError::HostFailure`], the last two with what the fault says.
    pub fn of_host(f: HostFault) -> (e: ExecError)
        ensures
            e.sorts(f),
    {
        match f {
            HostFault::NoSuchFunction(_) => ExecError::NotFound,
            HostFault::GuestCallFailure(m) => ExecError::GuestFailure(m),
            HostFault::IO(m) => ExecError::HostFailure(m),
            HostFault::WasmMisc(m) => ExecError::HostFailure(m),
            HostFault::HostCallFailure(m) => ExecError::HostFailure(m),
            HostFault::InitFailed(m) => ExecError::HostFailure(m),
            HostFault::ReplacementFailed(m) => ExecError::HostFailure(m),
            HostFault::ProviderFailure(m) => ExecError::HostFailure(m),
            HostFault::General(m) => ExecError::HostFailure(m),
            HostFault::Panicked(m) => ExecError::HostFailure(m),
        }
    }
}

/// A loaded program: the host that runs it, and the module that it was
/// loaded from.
pub struct ProgramHost {
    host: wapc::WapcHost,
    module: Ghost<Seq<u8>>,
}

/// A call that is to be run: the program, the operation, and the payload.
pub struct Invocation<'a> {
    pub program: &'a ProgramHost,
    pub operation: &'a str,
    pub payload: &'a [u8],
}

/// What a call ends in, by what the host brought back: the answer as it is,
/// or the failure that the host's fault is sorted as.
pub fn call_outcome(raw: Result<Vec<u8>, HostFault>) -> (r: Result<Vec<u8>, ExecError>)
    ensures
        match raw {
            Ok(answer) => r == Ok::<Vec<u8>, ExecError>(answer),
            Err(f) => r matches Err(e) && e.sorts(f),
        },
{
    match raw {
        Ok(answer) => Ok(answer),
        Err(f) => Err(ExecError::of_host(f)),
    }
}

impl ProgramHost {
    /// The bytes of the module that the program was loaded from.
    pub closed spec fn module(&self) -> Seq<u8> {
        self.module@
    }

    /// The host that runs the program.
    pub closed spec fn engine(&self) -> wapc::WapcHost {
        self.host
    }

    /// Takes what starting a host on the module `program` ended in: the
    /// program of that module, run by the host that was started, or the
    /// failure of loading that the fault is sorted as by
    /// [`LoadError::of_engine`].
    pub fn new(program: &[u8], started: Result<wapc::WapcHost, EngineFault>) -> (r: Result<
        ProgramHost,
        LoadError,
    >)
        ensures
            match started {
                Ok(host) => r matches Ok(loaded) && loaded.engine() == host && loaded.module()
                    == program@,
                Err(f) => r matches Err(e) && (e is InvalidModule <==> f.blames_module())
                    && e.reason() == f.reason(),
            },
    {
        match started {
            Ok(host) => Ok(ProgramHost { host, module: Ghost(program@) }),
            Err(f) => Err(LoadError::of_engine(f)),
        }
    }

    /// The host that runs the program, for the caller to run a call in.
    pub fn host(&self) -> (host: &wapc::WapcHost)
        ensures
            *host == self.engine(),
    {
        &self.host
    }

    /// Says what is to be run for a call of the operation `op` with
    /// `payload`: this program, that operation, that payload. What running
    /// it brings back becomes the result of the call by [`call_outcome`].
    pub fn call<'a>(&'a self, op: &'a str, payload: &'a [u8]) -> (invocation: Invocation<'a>)
        ensures
            *invocation.program == *self,
            invocation.operation@ == op@,
            invocation.payload@ == payload@,
    {
        Invocation { program: self, operation: op, payload }
    }
}

} // verus!
