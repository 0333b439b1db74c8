//! Interfaces: what a served object declares of its commands, and the
//! parameters that travel between a request and its handler.

use vstd::prelude::*;
use crate::ipc::{Alignment, BufferAttribute, BufferDescriptor, Handle, HandleMode};
use crate::result::ResultCode;

verus! {

/// The eight-byte name of a service; all zero names none.
#[derive(Clone, Copy, PartialEq, Eq, Structural, Debug)]
pub struct ServiceName {
    pub value: u64,
}

impl ServiceName {
    pub fn empty() -> (r: Self)
        ensures
            r.value == 0,
    {
        Self { value: 0 }
    }

    pub open spec fn spec_is_empty(&self) -> bool {
        self.value == 0
    }

    #[verifier::when_used_as_spec(spec_is_empty)]
    pub fn is_empty(&self) -> (b: bool)
        ensures
            b == self.spec_is_empty(),
    {
        self.value == 0
    }
}

/// What the service manager tells of the process behind an intercepted session.
#[derive(Clone, Copy, PartialEq, Eq, Structural, Debug)]
pub struct MitmProcessInfo {
    pub process_id: u64,
    pub program_id: u64,
    pub keys_held: u64,
    pub override_flags: u64,
}

/// The system versions for which a command exists, both ends included.
#[derive(Clone, Copy, PartialEq, Eq, Structural, Debug)]
pub struct VersionInterval {
    pub min: u32,
    pub max: u32,
}

impl VersionInterval {
    /// Every version.
    pub fn all() -> (r: Self)
        ensures
            r.min == 0,
            r.max == u32::MAX,
    {
        Self { min: 0, max: u32::MAX }
    }

    pub open spec fn spec_contains(&self, version: u32) -> bool {
        self.min <= version <= self.max
    }

    #[verifier::when_used_as_spec(spec_contains)]
    pub fn contains(&self, version: u32) -> (b: bool)
        ensures
            b == self.spec_contains(version),
    {
        self.min <= version && version <= self.max
    }
}

/// The category of a parameter, which decides how it is taken from a
/// request or put into a response.
#[derive(Clone, Copy, PartialEq, Eq, Structural, Debug)]
pub enum ParameterKind {
    /// Plain data in the raw payload, of a size and a natural alignment.
    Pod { size: usize, align: Alignment },
    /// A buffer descriptor.
    Buffer { attribute: BufferAttribute },
    /// A kernel handle, copied or moved.
    Handle { mode: HandleMode },
    /// The sender's process ID, vouched for by the kernel.
    ProcessId,
    /// A session object.
    Session,
}

/// A parameter's value.
pub enum Parameter {
    Pod { bytes: Vec<u8>, align: Alignment },
    Buffer { descriptor: BufferDescriptor },
    Handle { mode: HandleMode, handle: Handle },
    ProcessId { process_id: u64 },
    /// A session object, named by the token under which its handler left
    /// it with the system for the framework to pick up.
    Session { token: u64 },
}

/// A parameter's value, with its bytes taken as a sequence.
pub enum ParameterView {
    Pod { bytes: Seq<u8>, align: Alignment },
    Buffer { descriptor: BufferDescriptor },
    Handle { mode: HandleMode, handle: Handle },
    ProcessId { process_id: u64 },
    Session { token: u64 },
}

impl View for Parameter {
    type V = ParameterView;

    open spec fn view(&self) -> ParameterView {
        match *self {
            Parameter::Pod { bytes, align } => ParameterView::Pod { bytes: bytes@, align },
            Parameter::Buffer { descriptor } => ParameterView::Buffer { descriptor },
            Parameter::Handle { mode, handle } => ParameterView::Handle { mode, handle },
            Parameter::ProcessId { process_id } => ParameterView::ProcessId { process_id },
            Parameter::Session { token } => ParameterView::Session { token },
        }
    }
}

/// One command of an interface: its ID, the versions it exists for, and
/// the parameters its handler takes.
pub struct CommandMetadata {
    pub rq_id: u32,
    pub version_interval: VersionInterval,
    pub in_params: Vec<ParameterKind>,
}

impl CommandMetadata {
    pub fn new(rq_id: u32, version_interval: VersionInterval, in_params: Vec<ParameterKind>) -> (r: Self)
        ensures
            r.rq_id == rq_id,
            r.version_interval == version_interval,
            r.in_params == in_params,
    {
        Self { rq_id, version_interval, in_params }
    }

    /// Whether this entry answers to `rq_id` on system version `version`.
    pub open spec fn spec_matches(&self, rq_id: u32, version: u32) -> bool {
        self.rq_id == rq_id && self.version_interval.contains(version)
    }

    #[verifier::when_used_as_spec(spec_matches)]
    pub fn matches(&self, rq_id: u32, version: u32) -> (b: bool)
        ensures
            b == self.spec_matches(rq_id, version),
    {
        self.rq_id == rq_id && self.version_interval.contains(version)
    }
}

/// The first entry of `table` that answers to `rq_id` on `version`, if any.
pub open spec fn first_match(table: Seq<CommandMetadata>, rq_id: u32, version: u32, at: int) -> bool {
    &&& 0 <= at < table.len()
    &&& table[at].matches(rq_id, version)
    &&& forall|j: int| 0 <= j < at ==> !(#[trigger] table[j]).matches(rq_id, version)
}

/// Looks a command up by its ID; entries outside their version interval are invisible.
pub fn find_command(table: &Vec<CommandMetadata>, rq_id: u32, version: u32) -> (r: Option<usize>)
    ensures
        match r {
            Some(at) => first_match(table@, rq_id, version, at as int),
            None => forall|j: int| 0 <= j < table@.len() ==> !(#[trigger] table@[j]).matches(rq_id, version),
        },
{
    let mut i: usize = 0;
    while i < table.len()
        invariant
            i <= table.len(),
            forall|j: int| 0 <= j < i ==> !(#[trigger] table@[j]).matches(rq_id, version),
        decreases table.len() - i,
    {
        if table[i].matches(rq_id, version) {
            return Some(i);
        }
        i += 1;
    }
    None
}

/// An object that answers commands. It declares its commands and handles
/// each on parameters already taken from the request. Nothing is promised
/// of what a handler answers: the framework is proved for whatever it does.
pub trait IObject {
    /// The commands this object answers.
    fn get_command_metadata_table(&self) -> Vec<CommandMetadata>;

    /// Handles the command `rq_id` and returns what the response carries.
    fn call_command(&mut self, rq_id: u32, in_params: Vec<Parameter>) -> Result<
        Vec<Parameter>,
        ResultCode,
    >;
}

/// An object that can sit behind a session.
pub trait ISessionObject: IObject {

}

/// A served object held by the framework.
pub struct SessionObject {
    pub object: Box<dyn IObject>,
}

impl SessionObject {
    /// The served object that keeps `object`, seen only through the
    /// commands it answers.
    pub open spec fn keeping<S: ISessionObject + 'static>(object: S) -> Self {
        SessionObject { object: Box::new(object) }
    }

    /// Takes an object into the framework's keeping.
    pub fn new<S: ISessionObject + 'static>(object: S) -> (r: Self)
        ensures
            r == Self::keeping(object),
    {
        SessionObject { object: Box::new(object) }
    }
}

} // verus!
