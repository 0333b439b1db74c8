//! The decisions of the manager that need nothing but values: which
//! handles to wait on, which object a request is for, what a request comes
//! to, what a reply and a round come to.

use vstd::prelude::*;
use crate::ipc::{CommandOut, CommandProtocol, CommandType, DomainObjectId, Handle,
    INVALID_HANDLE, MESSAGE_BUFFER_SIZE, ObjectInfo};
use crate::ipc::server::domain::DomainTable;
use crate::ipc::server::holder::{ServerHolder, duplicate_of};
use crate::ipc::server::response::served;
use crate::ipc::system::{Response, System};
use crate::ipc::sf::SessionObject;
use crate::mem::{CellId, SharedHeap};
use crate::result::ResultCode;

verus! {

/// The handles a manager waits on: those of its holders that are
/// handles, in the holders' order.
pub open spec fn wait_set(holders: Seq<ServerHolder>) -> Seq<Handle>
    decreases holders.len(),
{
    if holders.len() == 0 {
        Seq::empty()
    } else if holders.last().info.handle != INVALID_HANDLE {
        wait_set(holders.drop_last()).push(holders.last().info.handle)
    } else {
        wait_set(holders.drop_last())
    }
}

/// Whether `at` is the first holder on `handle`.
pub open spec fn first_on(holders: Seq<ServerHolder>, handle: Handle, at: int) -> bool {
    &&& 0 <= at < holders.len()
    &&& holders[at].info.handle == handle
    &&& forall|j: int| 0 <= j < at ==> (#[trigger] holders[j]).info.handle != handle
}

/// Whether no holder is on `handle`.
pub open spec fn none_on(holders: Seq<ServerHolder>, handle: Handle) -> bool {
    forall|j: int| 0 <= j < holders.len() ==> (#[trigger] holders[j]).info.handle != handle
}

/// Every handle in the wait set is the handle of a holder.
pub proof fn lemma_wait_set_members(holders: Seq<ServerHolder>, handle: Handle)
    requires
        wait_set(holders).contains(handle),
    ensures
        exists|j: int| 0 <= j < holders.len() && (#[trigger] holders[j]).info.handle == handle,
        wait_set(holders).len() <= holders.len(),
    decreases holders.len(),
{
    if holders.len() > 0 {
        let rest = holders.drop_last();
        lemma_wait_set_len(rest);
        let i = choose|i: int| 0 <= i < wait_set(holders).len() && wait_set(holders)[i] == handle;
        if holders.last().info.handle != INVALID_HANDLE && i == wait_set(rest).len() {
            assert(holders[holders.len() - 1].info.handle == handle);
        } else {
            assert(wait_set(rest)[i] == handle);
            lemma_wait_set_members(rest, handle);
            let j = choose|j: int| 0 <= j < rest.len() && (#[trigger] rest[j]).info.handle == handle;
            assert(holders[j].info.handle == handle);
        }
    }
}

/// The wait set is no longer than the list of holders.
pub proof fn lemma_wait_set_len(holders: Seq<ServerHolder>)
    ensures
        wait_set(holders).len() <= holders.len(),
    decreases holders.len(),
{
    if holders.len() > 0 {
        lemma_wait_set_len(holders.drop_last());
    }
}

/// After the one holder on a handle is removed, there is one holder less
/// and the handle is no longer waited on.
pub proof fn lemma_closed_handle_leaves_wait_set(holders: Seq<ServerHolder>, index: int)
    requires
        0 <= index < holders.len(),
        forall|j: int|
            0 <= j < holders.len() && j != index ==> (#[trigger] holders[j]).info.handle
                != holders[index].info.handle,
    ensures
        holders.remove(index).len() == holders.len() - 1,
        !wait_set(holders.remove(index)).contains(holders[index].info.handle),
{
    let after = holders.remove(index);
    let handle = holders[index].info.handle;
    if wait_set(after).contains(handle) {
        lemma_wait_set_members(after, handle);
        let j = choose|j: int| 0 <= j < after.len() && (#[trigger] after[j]).info.handle == handle;
        if j < index {
            assert(holders[j].info.handle == handle);
        } else {
            assert(holders[j + 1].info.handle == handle);
        }
    }
}

/// What a request comes to, once it is known whether the object has the
/// command and what serving it gave.
#[derive(Clone, Copy, PartialEq, Eq, Structural, Debug)]
pub enum RequestOutcome {
    /// The command was served; its response stands.
    Done,
    /// The command failed; the response carries the failure.
    Respond { result: ResultCode },
    /// The request goes to the service behind a MITM session, as it came.
    Forward,
}

/// What a request comes to. `served` is `None` where the object has no
/// such command, else what serving the command gave.
///
/// A served command is done. A failed one is forwarded where the session is
/// a MITM session and the failure asks for that, and answered with the
/// failure otherwise. An unknown one is forwarded on a MITM session and
/// answered with `InvalidCommandRequestId` otherwise.
pub open spec fn outcome_of(is_mitm_service: bool, served: Option<Result<(), ResultCode>>) -> RequestOutcome {
    match served {
        Some(Ok(_)) => RequestOutcome::Done,
        Some(Err(rc)) => if is_mitm_service && rc == ResultCode::ShouldForwardToSession {
            RequestOutcome::Forward
        } else {
            RequestOutcome::Respond { result: rc }
        },
        None => if is_mitm_service {
            RequestOutcome::Forward
        } else {
            RequestOutcome::Respond { result: ResultCode::InvalidCommandRequestId }
        },
    }
}

/// Decides what a request comes to: `outcome_of`.
pub fn request_outcome(is_mitm_service: bool, served: Option<Result<(), ResultCode>>) -> (r: RequestOutcome)
    ensures
        r == outcome_of(is_mitm_service, served),
{
    match served {
        Some(Ok(_)) => RequestOutcome::Done,
        Some(Err(rc)) => {
            if is_mitm_service && rc.is_forward_request() {
                RequestOutcome::Forward
            } else {
                RequestOutcome::Respond { result: rc }
            }
        },
        None => {
            if is_mitm_service {
                RequestOutcome::Forward
            } else {
                RequestOutcome::Respond { result: ResultCode::InvalidCommandRequestId }
            }
        },
    }
}

/// What sending a reply comes to: a peer that timed out or closed the
/// session is no failure of the server; anything else the kernel reports is.
pub open spec fn reply_result(sent: Result<(), ResultCode>) -> Result<(), ResultCode> {
    match sent {
        Err(rc) => if rc == ResultCode::KernelTimedOut || rc == ResultCode::KernelSessionClosed {
            Ok(())
        } else {
            Err(rc)
        },
        Ok(_) => Ok(()),
    }
}

/// Sends `response` on `handle`: the result is `reply_result` of what the
/// system answered to exactly that.
pub fn send_reply<Y: System>(system: &Y, handle: Handle, response: &Response) -> (r: Result<(), ResultCode>)
    ensures
        exists|sent: Result<(), ResultCode>|
            #![trigger call_ensures(Y::reply, (system, handle, response), sent)]
            call_ensures(Y::reply, (system, handle, response), sent) && r == reply_result(sent),
        replied(system, handle, *response, r),
{
    let sent = system.reply(handle, response);
    match sent {
        Err(rc) => {
            match rc {
                ResultCode::KernelTimedOut => Ok(()),
                ResultCode::KernelSessionClosed => Ok(()),
                _ => Err(rc),
            }
        },
        Ok(_) => Ok(()),
    }
}

/// What a forwarded request comes to: the reply of the service behind the
/// session, passed on as it came; or, where sending failed, a response
/// that carries the failure.
pub open spec fn forwarded(
    upstream: Result<Vec<u8>, ResultCode>,
    command_type: CommandType,
    protocol: CommandProtocol,
    r: Response,
) -> bool {
    match upstream {
        Ok(reply) => r matches Response::Forwarded { message } && message == reply,
        Err(rc) => r matches Response::Request { protocol: p, command_type: c, result, out_params } && p
            == protocol && c == command_type && result == Err::<(), ResultCode>(rc)
            && out_params.data@.len() == 0 && out_params.data_size == 0
            && out_params.copy_handles@.len() == 0 && out_params.move_handles@.len() == 0
            && out_params.objects@.len() == 0,
    }
}

/// Replays a request to the service behind a MITM session: the message
/// sent is `message`, byte for byte, on `forward_handle`.
pub fn forward_request<Y: System>(
    system: &Y,
    forward_handle: Handle,
    message: &Vec<u8>,
    command_type: CommandType,
    protocol: CommandProtocol,
) -> (r: Response)
    ensures
        exists|upstream: Result<Vec<u8>, ResultCode>|
            #![trigger call_ensures(Y::send_sync_request, (system, forward_handle, message), upstream)]
            call_ensures(Y::send_sync_request, (system, forward_handle, message), upstream) && forwarded(
                upstream,
                command_type,
                protocol,
                r,
            ),
{
    let upstream = system.send_sync_request(forward_handle, message);
    match upstream {
        Ok(reply) => {
            let r = Response::Forwarded { message: reply };
            assert(forwarded(upstream, command_type, protocol, r));
            r
        },
        Err(rc) => {
            let r = Response::Request {
                protocol,
                command_type,
                result: Err(rc),
                out_params: CommandOut::empty(),
            };
            assert(forwarded(upstream, command_type, protocol, r));
            r
        },
    }
}

/// The object a request is for: the object that the session's domain
/// table binds to the name the request gives, where the session is a domain
/// and the request names another object than its base; else the session's
/// own object. It fails with `DomainNotFound` where the table or the
/// binding is missing, and with `SignaledServerNotFound` where the session
/// has no object.
pub open spec fn target_of(
    holder: ServerHolder,
    info: ObjectInfo,
    tables: &SharedHeap<DomainTable>,
) -> Result<CellId, ResultCode> {
    if info.is_domain() && !info.owns_handle {
        match holder.table_cell() {
            Some(table_cell) => if tables.live(table_cell) {
                tables.value(table_cell).found(info.domain_object_id)
            } else {
                Err(ResultCode::DomainNotFound)
            },
            None => Err(ResultCode::DomainNotFound),
        }
    } else {
        match holder.server_cell() {
            Some(cell) => Ok(cell),
            None => Err(ResultCode::SignaledServerNotFound),
        }
    }
}

/// Finds the object a request is for.
pub fn select_target(holder: &ServerHolder, info: ObjectInfo, tables: &SharedHeap<DomainTable>) -> (r: Result<
    CellId,
    ResultCode,
>)
    ensures
        r == target_of(*holder, info, tables),
{
    if info.is_domain() && !info.owns_handle {
        let table_cell = match holder.get_table_cell() {
            Some(table_cell) => table_cell,
            None => {
                return Err(ResultCode::DomainNotFound);
            },
        };
        match tables.get(table_cell) {
            Some(table) => table.find_domain(info.domain_object_id),
            None => Err(ResultCode::DomainNotFound),
        }
    } else {
        match holder.get_server_cell() {
            Some(cell) => Ok(cell),
            None => Err(ResultCode::SignaledServerNotFound),
        }
    }
}

/// The object a request addresses on a session: on a domain, the object
/// the request names, which owns the handle exactly when it is the
/// session's base object; else the session itself.
pub open spec fn addressed(session: ObjectInfo, domain_object_id: DomainObjectId) -> ObjectInfo {
    if session.is_domain() {
        ObjectInfo {
            domain_object_id,
            owns_handle: session.domain_object_id == domain_object_id,
            ..session
        }
    } else {
        session
    }
}

/// The object a request addresses on a session: `addressed`.
pub fn addressed_object(session: ObjectInfo, domain_object_id: DomainObjectId) -> (r: ObjectInfo)
    ensures
        r == addressed(session, domain_object_id),
{
    let mut base_info = session;
    if session.is_domain() {
        base_info.domain_object_id = domain_object_id;
        base_info.owns_handle = session.domain_object_id == domain_object_id;
    }
    base_info
}

/// A session and its clone serve the same objects. Where `cloned` is
/// what `clone_self` made of `holder`, with the holder's object and table
/// shared, a request for a given name is for the same object whichever of
/// the two sessions it arrives on: the session's own object, or the object
/// that the one table binds to the name.
pub proof fn lemma_clone_serves_same_object(
    holder: ServerHolder,
    cloned: ServerHolder,
    handle: Handle,
    domain_object_id: DomainObjectId,
    objects: &SharedHeap<SessionObject>,
    tables: &SharedHeap<DomainTable>,
    tables_after: &SharedHeap<DomainTable>,
)
    requires
        cloned.info == (ObjectInfo { handle, ..holder.info }),
        cloned.server_cell() == duplicate_of(objects, holder.server_cell()),
        cloned.table_cell() == duplicate_of(tables, holder.table_cell()),
        tables_after.took_on(tables, holder.table_cell()),
        holder.server_cell() is Some ==> objects.can_share(holder.server_cell()),
        holder.table_cell() is Some ==> tables.can_share(holder.table_cell()),
    ensures
        cloned.server_cell() == holder.server_cell(),
        cloned.table_cell() == holder.table_cell(),
        target_of(cloned, addressed(cloned.info, domain_object_id), tables_after) == target_of(
            holder,
            addressed(holder.info, domain_object_id),
            tables_after,
        ),
{
}

/// What one round of the serving loop comes to.
#[derive(Clone, Copy, PartialEq, Eq, Structural, Debug)]
pub enum LoopStep {
    /// Go on serving.
    Continue,
    /// The wait was cancelled: stop, with success.
    Stop,
    /// Stop, with this failure.
    Fail { result: ResultCode },
}

/// What the loop does after a round that ended with `round`.
pub open spec fn loop_step_of(round: Result<(), ResultCode>) -> LoopStep {
    match round {
        Ok(_) => LoopStep::Continue,
        Err(rc) => if rc == ResultCode::KernelCancelled {
            LoopStep::Stop
        } else {
            LoopStep::Fail { result: rc }
        },
    }
}

/// Decides what the loop does after a round: `loop_step_of`.
pub fn loop_step(round: Result<(), ResultCode>) -> (r: LoopStep)
    ensures
        r == loop_step_of(round),
{
    match round {
        Ok(_) => LoopStep::Continue,
        Err(rc) => match rc {
            ResultCode::KernelCancelled => LoopStep::Stop,
            _ => LoopStep::Fail { result: rc },
        },
    }
}

/// A response to a request that carries nothing but its result.
pub fn request_result(
    protocol: CommandProtocol,
    command_type: CommandType,
    result: Result<(), ResultCode>,
) -> (r: Response)
    ensures
        carries_only(r, protocol, command_type, result),
{
    Response::Request { protocol, command_type, result, out_params: CommandOut::empty() }
}

/// What every response to a request is like: it is the response of the
/// request's protocol, or a forwarded reply. A response that carries a
/// failure carries nothing else; one that carries success carries raw data
/// of exactly the size it declares, which fits a message.
pub open spec fn answers_request(response: Response, protocol: CommandProtocol) -> bool {
    match response {
        Response::Request { protocol: p, command_type, result, out_params } => {
            &&& p == protocol
            &&& out_params.data@.len() == out_params.data_size
            &&& out_params.data@.len() <= MESSAGE_BUFFER_SIZE
            &&& result is Err ==> out_params.data@.len() == 0 && out_params.copy_handles@.len() == 0
                && out_params.move_handles@.len() == 0 && out_params.objects@.len() == 0
        },
        Response::Forwarded { message } => true,
        _ => false,
    }
}

/// Whether `response` is the response to a request that carries `result`
/// and nothing else.
pub open spec fn carries_only(
    response: Response,
    protocol: CommandProtocol,
    command_type: CommandType,
    result: Result<(), ResultCode>,
) -> bool {
    response matches Response::Request { protocol: p, command_type: c, result: res, out_params } && p
        == protocol && c == command_type && res == result && out_params.data@.len() == 0
        && out_params.data_size == 0 && out_params.copy_handles@.len() == 0
        && out_params.move_handles@.len() == 0 && out_params.objects@.len() == 0
}

/// The response was sent on `handle`, and `r` is what that came to: a
/// peer that timed out or closed the session is no failure.
pub open spec fn replied<Y: System>(
    system: &Y,
    handle: Handle,
    response: Response,
    r: Result<(), ResultCode>,
) -> bool {
    exists|sent: Result<(), ResultCode>|
        #![trigger call_ensures(Y::reply, (system, handle, &response), sent)]
        call_ensures(Y::reply, (system, handle, &response), sent) && r == reply_result(sent)
}

/// What the loop comes to after a round that failed with `failure`: a
/// cancelled wait ends it with `Ok(true)`, any other failure with itself.
pub open spec fn loop_end(failure: ResultCode) -> Result<bool, ResultCode> {
    if failure == ResultCode::KernelCancelled {
        Ok(true)
    } else {
        Err(failure)
    }
}

} // verus!
