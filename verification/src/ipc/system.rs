//! The system under the server framework: the kernel calls, the service
//! manager, and the transport that delivers requests and takes responses.
//! The framework reaches all of it through one trait, and is proved for
//! whatever an implementation answers.

use vstd::prelude::*;
use crate::ipc::{CommandIn, CommandOut, CommandProtocol, CommandType, DomainCommandType,
    DomainObjectId, Handle, ObjectInfo};
use crate::ipc::sf::{MitmProcessInfo, ServiceName, SessionObject};
use crate::result::ResultCode;

verus! {

/// A request as the transport delivers it: the message exactly as the
/// kernel left it, and what its headers say.
pub struct Received {
    /// The kernel's message buffer, copied before anything was decoded.
    pub message: Vec<u8>,
    pub command_type: CommandType,
    /// The command's ID; meaningful for requests and control commands.
    pub request_id: u32,
    /// What a request asks of the domain object it names.
    pub domain_command_type: DomainCommandType,
    /// The domain object a request names; zero outside domains.
    pub domain_object_id: DomainObjectId,
    pub in_params: CommandIn,
}

/// What the framework answers a command with.
pub enum Response {
    /// The response to a request: its result and, on success, what it carries.
    Request {
        protocol: CommandProtocol,
        command_type: CommandType,
        result: Result<(), ResultCode>,
        out_params: CommandOut,
    },
    /// The response to a control command.
    Control { command_type: CommandType, result: Result<(), ResultCode>, out_params: CommandOut },
    /// The acknowledgement of a close.
    Close,
    /// The reply of the service behind a MITM session, passed on as it came.
    Forwarded { message: Vec<u8> },
}

/// Everything the server framework asks of the system it runs on. Nothing
/// is promised of any answer.
pub trait System {
    /// The version of the running system, which decides what commands exist.
    fn get_version(&self) -> u32;

    /// Creates a session and returns its server and client ends.
    fn create_session(&self) -> Result<(Handle, Handle), ResultCode>;

    /// Accepts the session waiting on a port.
    fn accept_session(&self, port: Handle) -> Result<Handle, ResultCode>;

    fn close_handle(&self, handle: Handle) -> Result<(), ResultCode>;

    /// Creates a named port and returns its handle.
    fn manage_named_port(&self, name: &str, max_sessions: i32) -> Result<Handle, ResultCode>;

    /// Blocks until one of `handles` is signaled and returns its index.
    fn wait_handles(&self, handles: &Vec<Handle>) -> Result<usize, ResultCode>;

    /// Receives the next request on a session, with a pointer buffer of the
    /// given size offered to the kernel first.
    fn receive(&self, session: ObjectInfo, pointer_buffer_size: usize) -> Result<Received, ResultCode>;

    /// Sends a response on a session without waiting for another request.
    fn reply(&self, session: Handle, response: &Response) -> Result<(), ResultCode>;

    /// Sends `message` on a session as it is and returns the reply as it came.
    fn send_sync_request(&self, session: Handle, message: &Vec<u8>) -> Result<Vec<u8>, ResultCode>;

    /// Asks the service behind `session` to become a domain.
    fn convert_current_object_to_domain(&self, session: ObjectInfo) -> Result<DomainObjectId, ResultCode>;

    /// Asks the service behind `session` for a second session on the same object.
    fn clone_current_object(&self, session: ObjectInfo) -> Result<Handle, ResultCode>;

    /// Closes a session this process holds as a client.
    fn close_session(&self, session: ObjectInfo);

    fn register_service(&self, name: ServiceName, is_light: bool, max_sessions: i32) -> Result<
        Handle,
        ResultCode,
    >;

    fn unregister_service(&self, name: ServiceName) -> Result<(), ResultCode>;

    /// Installs a MITM on a service; returns the MITM port and the query session.
    fn atmosphere_install_mitm(&self, name: ServiceName) -> Result<(Handle, Handle), ResultCode>;

    fn atmosphere_uninstall_mitm(&self, name: ServiceName) -> Result<(), ResultCode>;

    /// Acknowledges an intercepted session; returns who opened it and the
    /// session to the service it was meant for.
    fn atmosphere_acknowledge_mitm_session(&self, name: ServiceName) -> Result<
        (MitmProcessInfo, Handle),
        ResultCode,
    >;

    fn atmosphere_clear_future_mitm(&self, name: ServiceName) -> Result<(), ResultCode>;

    /// Ends this process's registration with the service manager.
    fn detach_client(&self) -> Result<(), ResultCode>;

    /// Hands over the session object that a handler left under `token`.
    fn take_session_object(&self, token: u64) -> Option<SessionObject>;
}

} // verus!
