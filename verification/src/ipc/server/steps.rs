//! What each step of the manager does, as predicates over what it held
//! before and after and what the system answered. The manager's functions
//! are proved to do exactly this.

use vstd::prelude::*;
use crate::gpu::parcel::u32_from_le;
use crate::ipc::{CommandContext, CommandProtocol, CommandType, DomainCommandType, Handle,
    INVALID_HANDLE, ObjectInfo};
use crate::ipc::server::dispatch::{RequestOutcome, addressed, carries_only, first_on, forwarded,
    loop_end, none_on, outcome_of, replied, target_of, wait_set};
use crate::ipc::server::domain::{DomainTable, bound_elsewhere, bound_to, other_than};
use crate::ipc::server::hipc::{CONTROL_CLONE_CURRENT_OBJECT, CONTROL_CLONE_CURRENT_OBJECT_EX,
    CONTROL_CONVERT_CURRENT_OBJECT_TO_DOMAIN, HipcManager, MitmQueryService, control_answered};
use crate::ipc::server::holder::{IMitmService, INamedPort, IService, ServerHolder,
    WaitHandleType, clone_of, closed_by, converted, duplicate_of, fresh_in, held_in, lost_owners,
    released, session_of};
use crate::ipc::server::manager::MAX_OBJECT_COUNT;
use crate::ipc::server::response::{Moment, extends, only_taken_from, served, written};
use crate::ipc::sf::{CommandMetadata, MitmProcessInfo, Parameter, ServiceName, SessionObject,
    first_match};
use crate::ipc::system::{Received, Response, System};
use crate::mem::{CellId, SharedHeap};
use crate::result::ResultCode;

verus! {

/// What a manager holds, as a value: its holders and its two arenas.
pub struct Serving {
    pub holders: Seq<ServerHolder>,
    pub objects: SharedHeap<SessionObject>,
    pub tables: SharedHeap<DomainTable>,
}

/// Whether `holder` was given up on its way out of the manager, between
/// `before` and `after`: the steps of `closed_by` were taken, whatever they
/// came to, and then its object and its table were given up, as `released`
/// says of the arenas. A failure to give something back to the system does
/// not keep the holder.
pub open spec fn disposed<Y: System>(
    system: &Y,
    holder: ServerHolder,
    before: Serving,
    after: Serving,
) -> bool {
    &&& exists|closing: Result<(), ResultCode>| #[trigger] closed_by(system, holder, closing)
    &&& released(holder, &before.objects, &after.objects, &before.tables, &after.tables)
}

/// Whether the holders `leaving` were given up between `before` and
/// `after`, last first, each as `disposed` says.
pub open spec fn all_disposed<Y: System>(
    system: &Y,
    leaving: Seq<ServerHolder>,
    before: Serving,
    after: Serving,
) -> bool
    decreases leaving.len(),
{
    if leaving.len() == 0 {
        after.objects == before.objects && after.tables == before.tables
    } else {
        exists|then: Serving| #[trigger]
            disposed(system, leaving.last(), before, then) && all_disposed(
                system,
                leaving.drop_last(),
                then,
                after,
            )
    }
}

/// Whether `start` is the moment at which serving a command for `ctx` on
/// `holder` starts: the response is empty, the walker at the head of the
/// raw data, no session has come into being, and the arenas are the
/// manager's.
pub open spec fn starting(start: Moment, ctx: CommandContext, holder: ServerHolder, before: Serving) -> bool {
    &&& start.ctx.ctx.object_info == ctx.object_info
    &&& start.ctx.ctx.in_params == ctx.in_params
    &&& start.ctx.ctx.out_params.data@.len() == 0
    &&& start.ctx.ctx.out_params.data_size == 0
    &&& start.ctx.ctx.out_params.copy_handles@.len() == 0
    &&& start.ctx.ctx.out_params.move_handles@.len() == 0
    &&& start.ctx.ctx.out_params.objects@.len() == 0
    &&& start.ctx.ctx.out_params.buffers@.len() == 0
    &&& start.ctx.raw_data_walker.offset() == 0
    &&& start.ctx.domain_table == holder.table_cell()
    &&& start.ctx.new_sessions@.len() == 0
    &&& start.objects == before.objects
    &&& start.tables == before.tables
}

/// How a command was looked up in the object's table and served: the
/// first entry that answers to `rq_id` on `version` was served as `served`
/// says; where there is none, nothing was served and nothing happened.
pub open spec fn looked_up<Y: System>(
    system: &Y,
    start: Moment,
    handled: Moment,
    table: Seq<CommandMetadata>,
    rq_id: u32,
    version: u32,
    target: CellId,
    result: Option<Result<(), ResultCode>>,
) -> bool {
    if exists|at: int| first_match(table, rq_id, version, at) {
        let at = choose|at: int| first_match(table, rq_id, version, at);
        result matches Some(went) && served(system, start, handled, target, table[at], went)
    } else {
        result is None && handled == start
    }
}

/// The response to a request that was looked up and served with
/// `result`, as `outcome_of` decides: the response that serving made; a
/// response that carries the failure and nothing else; or the reply of the
/// service behind the session to the request as it came, `ipc_buf_backup`.
pub open spec fn responded<Y: System>(
    system: &Y,
    holder: ServerHolder,
    protocol: CommandProtocol,
    command_type: CommandType,
    ipc_buf_backup: &Vec<u8>,
    handled: Moment,
    result: Option<Result<(), ResultCode>>,
    response: Response,
) -> bool {
    match outcome_of(holder.is_mitm_service, result) {
        RequestOutcome::Done => response == (Response::Request {
            protocol,
            command_type: CommandType::Request,
            result: Ok(()),
            out_params: handled.ctx.ctx.out_params,
        }),
        RequestOutcome::Respond { result: failure } => carries_only(
            response,
            protocol,
            command_type,
            Err(failure),
        ),
        RequestOutcome::Forward => exists|upstream: Result<Vec<u8>, ResultCode>|
            #![trigger call_ensures(Y::send_sync_request, (system, holder.mitm_forward_info.handle, ipc_buf_backup), upstream)]
            call_ensures(
                Y::send_sync_request,
                (system, holder.mitm_forward_info.handle, ipc_buf_backup),
                upstream,
            ) && forwarded(upstream, command_type, protocol, response),
    }
}

/// How the sessions that serving brought into being joined the holders:
/// where they fit, they were added at the end, and `response` is the
/// answer; where they do not, no holder was added, the sessions were all
/// given up again, and the answer carries `TooManyObjects` instead.
pub open spec fn adopted<Y: System>(
    system: &Y,
    before: Serving,
    handled: Moment,
    after: Serving,
    response: Response,
    protocol: CommandProtocol,
    command_type: CommandType,
    r: Result<Response, ResultCode>,
) -> bool {
    if before.holders.len() + handled.ctx.new_sessions@.len() <= MAX_OBJECT_COUNT {
        &&& r == Ok::<Response, ResultCode>(response)
        &&& after.holders == before.holders + handled.ctx.new_sessions@
        &&& after.objects == handled.objects
        &&& after.tables == handled.tables
    } else {
        &&& r matches Ok(refusal) && carries_only(
            refusal,
            protocol,
            command_type,
            Err(ResultCode::TooManyObjects),
        )
        &&& after.holders == before.holders
        &&& all_disposed(
            system,
            handled.ctx.new_sessions@,
            Serving { holders: before.holders, objects: handled.objects, tables: handled.tables },
            after,
        )
    }
}

/// What dispatching a request on the holder at `index` did.
///
/// The object is `target_of` the holder; where that fails, or the object
/// is gone, which fails with `SignaledServerNotFound`, that is the failure
/// and nothing changed. Else the object declared its commands, whatever
/// they are; the command was looked up on the system's version and served
/// as `looked_up` says; the response is what `responded` says; and the
/// sessions that came into being joined the holders as `adopted` says.
pub open spec fn dispatched<Y: System>(
    system: &Y,
    before: Serving,
    after: Serving,
    index: int,
    ctx: CommandContext,
    rq_id: u32,
    command_type: CommandType,
    ipc_buf_backup: &Vec<u8>,
    r: Result<Response, ResultCode>,
) -> bool {
    match target_of(before.holders[index], ctx.object_info, &before.tables) {
        Err(e) => (r matches Err(e2) && e2 == e) && after == before,
        Ok(target) => if !before.objects.live(target) {
            (r matches Err(e) && e == ResultCode::SignaledServerNotFound) && after == before
        } else {
            exists|
                table: Vec<CommandMetadata>,
                version: u32,
                start: Moment,
                handled: Moment,
                result: Option<Result<(), ResultCode>>,
                response: Response,
            |
                #![trigger
                    looked_up(system, start, handled, table@, rq_id, version, target, result),
                    responded(
                        system,
                        before.holders[index],
                        ctx.object_info.protocol,
                        command_type,
                        ipc_buf_backup,
                        handled,
                        result,
                        response,
                    ),
                ]
                call_ensures(Y::get_version, (system,), version) && starting(
                    start,
                    ctx,
                    before.holders[index],
                    before,
                ) && looked_up(
                    system,
                    start,
                    handled,
                    table@,
                    rq_id,
                    version,
                    target,
                    result,
                ) && responded(
                    system,
                    before.holders[index],
                    ctx.object_info.protocol,
                    command_type,
                    ipc_buf_backup,
                    handled,
                    result,
                    response,
                ) && adopted(
                    system,
                    before,
                    handled,
                    after,
                    response,
                    ctx.object_info.protocol,
                    command_type,
                    r,
                )
        },
    }
}

/// What a close of a domain object did. Of an object that is not the
/// base, on a session with a table: the table lost the object's name and
/// the holders bound to it, whose objects were given up, and the answer is
/// success; no other table changed. Without a table, the failure is
/// `DomainNotFound`. Of the base object: nothing changed, and the answer
/// carries `InvalidDomainCommandType`.
pub open spec fn closed_in_domain(
    holder: ServerHolder,
    info: ObjectInfo,
    objects_before: &SharedHeap<SessionObject>,
    objects_after: &SharedHeap<SessionObject>,
    tables_before: &SharedHeap<DomainTable>,
    tables_after: &SharedHeap<DomainTable>,
    command_type: CommandType,
    r: Result<Response, ResultCode>,
) -> bool {
    if info.owns_handle {
        r matches Ok(Response::Request { protocol, command_type: c, result, out_params }) && result
            == Err::<(), ResultCode>(ResultCode::InvalidDomainCommandType) && c == command_type
            && tables_after == tables_before && objects_after == objects_before
    } else {
        match holder.table_cell() {
            Some(cell) if tables_before.live(cell) => {
                let unbound = tables_before.value(cell).domains@.filter(bound_to(info.domain_object_id));
                &&& r matches Ok(Response::Request { protocol, command_type: c, result,
                    out_params }) && result
                    is Ok && c == command_type && out_params.data@.len() == 0
                &&& tables_after.live(cell)
                &&& tables_after.count(cell) == tables_before.count(cell)
                &&& tables_after.same_except(tables_before, cell)
                &&& tables_after.value(cell).table@ == tables_before.value(cell).table@.filter(
                    other_than(info.domain_object_id),
                )
                &&& tables_after.value(cell).domains@ == tables_before.value(cell).domains@.filter(
                    bound_elsewhere(info.domain_object_id),
                )
                &&& forall|o: CellId|
                    #![trigger objects_after.live(o)]
                    lost_owners(objects_before, objects_after, o, held_in(unbound, o) as int)
            },
            _ => r matches Err(e) && e == ResultCode::DomainNotFound && tables_after == tables_before
                && objects_after == objects_before,
        }
    }
}

/// What handling a request on the holder at `index` did.
///
/// A request that names no domain command is an error on a domain: it
/// fails with `InvalidDomainCommandType`, and nothing changed; elsewhere it
/// is dispatched. A message to an object is dispatched, as `dispatched`
/// says. A close of a domain object is as `closed_in_domain` says, and
/// changes no holder.
pub open spec fn request_handled<Y: System>(
    system: &Y,
    before: Serving,
    after: Serving,
    index: int,
    ctx: CommandContext,
    rq_id: u32,
    command_type: CommandType,
    domain_command_type: DomainCommandType,
    ipc_buf_backup: &Vec<u8>,
    r: Result<Response, ResultCode>,
) -> bool {
    match domain_command_type {
        DomainCommandType::Invalid => if ctx.object_info.is_domain() {
            (r matches Err(e) && e == ResultCode::InvalidDomainCommandType) && after == before
        } else {
            dispatched(system, before, after, index, ctx, rq_id, command_type, ipc_buf_backup, r)
        },
        DomainCommandType::SendMessage => dispatched(
            system,
            before,
            after,
            index,
            ctx,
            rq_id,
            command_type,
            ipc_buf_backup,
            r,
        ),
        DomainCommandType::Close => after.holders == before.holders && closed_in_domain(
            before.holders[index],
            ctx.object_info,
            &before.objects,
            &after.objects,
            &before.tables,
            &after.tables,
            command_type,
            r,
        ),
    }
}

/// Whether `start` is the moment at which answering a control command
/// for `ctx` starts: as for a request, but without a domain table.
pub open spec fn control_starting(start: Moment, ctx: CommandContext, before: Serving) -> bool {
    &&& start.ctx.ctx.object_info == ctx.object_info
    &&& start.ctx.ctx.in_params == ctx.in_params
    &&& start.ctx.ctx.out_params.data@.len() == 0
    &&& start.ctx.ctx.out_params.data_size == 0
    &&& start.ctx.ctx.out_params.copy_handles@.len() == 0
    &&& start.ctx.ctx.out_params.move_handles@.len() == 0
    &&& start.ctx.ctx.out_params.objects@.len() == 0
    &&& start.ctx.ctx.out_params.buffers@.len() == 0
    &&& start.ctx.raw_data_walker.offset() == 0
    &&& start.ctx.domain_table is None
    &&& start.ctx.new_sessions@.len() == 0
    &&& start.objects == before.objects
    &&& start.tables == before.tables
}

/// How the answer to a control command was turned into the result that
/// the response carries: no answer is `InvalidCommandRequestId`; a failure
/// is the failure; what a command returned was written as `written` says.
pub open spec fn control_written<Y: System>(
    system: &Y,
    called: Moment,
    finished: Moment,
    answer: Option<Result<Vec<Parameter>, ResultCode>>,
    result: Result<(), ResultCode>,
) -> bool {
    match answer {
        None => result == Err::<(), ResultCode>(ResultCode::InvalidCommandRequestId) && called.stays(
            finished,
        ),
        Some(Err(e)) => result == Err::<(), ResultCode>(e) && called.stays(finished),
        Some(Ok(outputs)) => written(system, called, finished, outputs@, result),
    }
}

/// The response to a control command whose answer came to `result`: on
/// success, what was written; else the failure and nothing else.
pub open spec fn control_response(
    finished: Moment,
    command_type: CommandType,
    result: Result<(), ResultCode>,
    response: Response,
) -> bool {
    match result {
        Ok(_) => response == (Response::Control {
            command_type: CommandType::Control,
            result: Ok(()),
            out_params: finished.ctx.ctx.out_params,
        }),
        Err(e) => response matches Response::Control { command_type: c, result: res, out_params } && c
            == command_type && res == Err::<(), ResultCode>(e) && out_params.data@.len() == 0
            && out_params.data_size == 0 && out_params.copy_handles@.len() == 0
            && out_params.move_handles@.len() == 0 && out_params.objects@.len() == 0,
    }
}

/// How a clone that a control command made was picked up, `finished`
/// being what the manager held when the response was written. Where none
/// was made, nothing changed and `response` is the answer. Else a second
/// holder of the object and the table of the holder at `index`, as
/// `clone_of` says, under the handles the command remembered, joined the
/// holders, and `response` is the answer; a full manager fails with
/// `TooManyObjects` instead: the holders stay, and the clone was made and
/// given up again.
pub open spec fn clone_picked_up<Y: System>(
    system: &Y,
    hipc: HipcManager,
    finished: Serving,
    index: int,
    after: Serving,
    response: Response,
    r: Result<Response, ResultCode>,
) -> bool {
    if !hipc.has_cloned_object() {
        r == Ok::<Response, ResultCode>(response) && after == finished
    } else if finished.holders.len() < MAX_OBJECT_COUNT {
        &&& r == Ok::<Response, ResultCode>(response)
        &&& after.holders.len() == finished.holders.len() + 1
        &&& extends(after.holders, finished.holders)
        &&& clone_of(
            finished.holders[index],
            after.holders.last(),
            hipc.cloned_object_server_handle,
            hipc.cloned_object_forward_handle,
            &finished.objects,
            &after.objects,
            &finished.tables,
            &after.tables,
        )
    } else {
        &&& r == Err::<Response, ResultCode>(ResultCode::TooManyObjects)
        &&& after.holders == finished.holders
        &&& exists|cloned: ServerHolder, then: Serving| #[trigger]
            disposed(system, cloned, then, after) && clone_of(
                finished.holders[index],
                cloned,
                hipc.cloned_object_server_handle,
                hipc.cloned_object_forward_handle,
                &finished.objects,
                &then.objects,
                &finished.tables,
                &then.tables,
            )
    }
}

/// What handling a control command on the holder at `index` did, step by
/// step.
///
/// On another protocol than CMIF it fails with `InvalidProtocol`, and
/// nothing changed. Else a control interface for a pointer buffer of the
/// manager's size answered the command as `control_answered` says, which
/// may have changed the holder at `index` and its table; the answer was
/// written as `control_written` says; the response is what
/// `control_response` says; and a clone was picked up as `clone_picked_up`
/// says.
pub open spec fn controlled_by<Y: System>(
    system: &Y,
    pointer_buffer_size: usize,
    before: Serving,
    after: Serving,
    index: int,
    ctx: CommandContext,
    rq_id: u32,
    command_type: CommandType,
    r: Result<Response, ResultCode>,
) -> bool {
    if !ctx.object_info.uses_cmif_protocol() {
        (r matches Err(e) && e == ResultCode::InvalidProtocol) && after == before
    } else {
        exists|
            hipc: HipcManager,
            holder: ServerHolder,
            start: Moment,
            called: Moment,
            answer: Option<Result<Vec<Parameter>, ResultCode>>,
            finished: Moment,
            result: Result<(), ResultCode>,
            response: Response,
        |
            #![trigger
                control_answered(
                    system,
                    rq_id,
                    HipcManager {
                        pointer_buf_size: pointer_buffer_size,
                        cloned_object_server_handle: INVALID_HANDLE,
                        cloned_object_forward_handle: INVALID_HANDLE,
                    },
                    hipc,
                    before.holders[index],
                    holder,
                    &before.tables,
                    &called.tables,
                    &start.ctx,
                    answer,
                ),
                control_response(finished, command_type, result, response),
            ]
            control_starting(start, ctx, before) && control_answered(
                system,
                rq_id,
                HipcManager {
                    pointer_buf_size: pointer_buffer_size,
                    cloned_object_server_handle: INVALID_HANDLE,
                    cloned_object_forward_handle: INVALID_HANDLE,
                },
                hipc,
                before.holders[index],
                holder,
                &before.tables,
                &called.tables,
                &start.ctx,
                answer,
            ) && only_taken_from(&start.ctx, &called.ctx) && called.objects == before.objects
                && control_written(system, called, finished, answer, result) && control_response(
                finished,
                command_type,
                result,
                response,
            ) && clone_picked_up(
                system,
                hipc,
                Serving {
                    holders: before.holders.update(index, holder),
                    objects: finished.objects,
                    tables: finished.tables,
                },
                index,
                after,
                response,
                r,
            )
    }
}

/// What a control command on the holder at `index` did.
///
/// A conversion that succeeded left the holder the base object of a new
/// domain, under the name the response carries. A clone adds at most one
/// holder, a session on the same object as the holder at `index`, and its
/// response moves one handle to the caller. A command that the interface
/// does not have is answered with `InvalidCommandRequestId` and changes no
/// holder.
pub open spec fn controlled(
    before: Seq<ServerHolder>,
    after: Seq<ServerHolder>,
    objects_before: &SharedHeap<SessionObject>,
    tables_before: &SharedHeap<DomainTable>,
    tables_after: &SharedHeap<DomainTable>,
    index: int,
    rq_id: u32,
    r: Result<Response, ResultCode>,
) -> bool {
    match r {
        Ok(Response::Control { command_type, result, out_params }) => {
            &&& rq_id > CONTROL_CLONE_CURRENT_OBJECT_EX ==> after =~= before
                && result == Err::<(), ResultCode>(
                ResultCode::InvalidCommandRequestId,
            )
            &&& rq_id == CONTROL_CONVERT_CURRENT_OBJECT_TO_DOMAIN ==> after.len() == before.len() && (result
                is Ok ==> out_params.data@.len() == 4 && converted(
                before[index],
                after[index],
                tables_before,
                tables_after,
                u32_from_le(out_params.data@),
            ))
            &&& (rq_id == CONTROL_CLONE_CURRENT_OBJECT || rq_id == CONTROL_CLONE_CURRENT_OBJECT_EX) ==> {
                &&& extends(after, before)
                &&& after.len() <= before.len() + 1
                &&& result is Ok ==> out_params.move_handles@.len() == 1
                &&& after.len() == before.len() + 1 ==> {
                    &&& after.last().server_cell() == duplicate_of(objects_before,
                        before[index].server_cell())
                    &&& after.last().handle_type == WaitHandleType::Session
                    &&& after.last().info.handle != INVALID_HANDLE
                }
            }
        },
        Ok(_) => false,
        Err(_) => rq_id == CONTROL_CLONE_CURRENT_OBJECT || rq_id == CONTROL_CLONE_CURRENT_OBJECT_EX,
    }
}

/// What serving a session that was signaled did, step by step, given
/// what the system delivered.
///
/// A request was handled, as `request_handled` says, for the object it
/// addresses and with the message as it came as the backup; a control
/// command as `controlled_by` says, for the session itself. What handling
/// fails with is the failure of the round; the response it gives was sent on
/// the session, and the result is what that came to. A close was
/// acknowledged on the session: where that failed, it is the failure, and
/// nothing changed; else the holder was removed and closed. A session that
/// the peer closed lost its holder, which was closed. Any other failure of the receive is the failure
/// of the round, as is a command of any other type, `InvalidCommandType`;
/// neither changes anything.
pub open spec fn session_handled<Y: System>(
    system: &Y,
    pointer_buffer_size: usize,
    before: Serving,
    after: Serving,
    index: int,
    received: Result<Received, ResultCode>,
    r: Result<(), ResultCode>,
) -> bool {
    let session = before.holders[index].info;
    match received {
        Err(rc) => if rc == ResultCode::KernelSessionClosed {
            r is Ok && after.holders == before.holders.remove(index) && disposed(
                system,
                before.holders[index],
                before,
                after,
            )
        } else {
            r == Err::<(), ResultCode>(rc) && after == before
        },
        Ok(delivered) => match delivered.command_type {
            CommandType::Request | CommandType::RequestWithContext => exists|
                ctx: CommandContext,
                outcome: Result<Response, ResultCode>,
            |
                ctx.object_info == addressed(session, delivered.domain_object_id) && ctx.in_params
                    == delivered.in_params && #[trigger] request_handled(
                    system,
                    before,
                    after,
                    index,
                    ctx,
                    delivered.request_id,
                    delivered.command_type,
                    delivered.domain_command_type,
                    &delivered.message,
                    outcome,
                ) && match outcome {
                    Err(e) => r == Err::<(), ResultCode>(e),
                    Ok(response) => replied(system, session.handle, response, r),
                },
            CommandType::Control | CommandType::ControlWithContext => exists|
                ctx: CommandContext,
                outcome: Result<Response, ResultCode>,
            |
                ctx.object_info == session && ctx.in_params == delivered.in_params
                    && #[trigger] controlled_by(
                    system,
                    pointer_buffer_size,
                    before,
                    after,
                    index,
                    ctx,
                    delivered.request_id,
                    delivered.command_type,
                    outcome,
                ) && match outcome {
                    Err(e) => r == Err::<(), ResultCode>(e),
                    Ok(response) => replied(system, session.handle, response, r),
                },
            CommandType::Close => exists|acknowledged: Result<(), ResultCode>| #[trigger]
                replied(system, session.handle, Response::Close, acknowledged) && match acknowledged {
                    Err(e) => r == Err::<(), ResultCode>(e) && after == before,
                    Ok(_) => r is Ok && after.holders == before.holders.remove(index) && disposed(
                        system,
                        before.holders[index],
                        before,
                        after,
                    ),
                },
            _ => r == Err::<(), ResultCode>(ResultCode::InvalidCommandType) && after == before,
        },
    }
}

/// What serving a session that was signaled did to the holders, given
/// what the system delivered. A closed session loses its holder; any other
/// failure of the receive is the failure of the round and changes nothing. A
/// close command that was answered loses the holder too. A request only
/// adds holders, at the end. A control command leaves every other holder as
/// it was. A command of any other type fails with `InvalidCommandType`.
pub open spec fn session_served(
    before: Seq<ServerHolder>,
    after: Seq<ServerHolder>,
    index: int,
    received: Result<Received, ResultCode>,
    r: Result<(), ResultCode>,
) -> bool {
    match received {
        Err(rc) => if rc == ResultCode::KernelSessionClosed {
            r is Ok && after == before.remove(index)
        } else {
            r == Err::<(), ResultCode>(rc) && after == before
        },
        Ok(delivered) => match delivered.command_type {
            CommandType::Close => if r is Ok {
                after == before.remove(index)
            } else {
                after == before
            },
            CommandType::Request | CommandType::RequestWithContext => extends(after, before),
            CommandType::Control | CommandType::ControlWithContext => after.len() >= before.len()
                && forall|j: int|
                0 <= j < before.len() && j != index ==> (#[trigger] after[j]) == before[j],
            _ => r == Err::<(), ResultCode>(ResultCode::InvalidCommandType) && after == before,
        },
    }
}

/// Whether `after` is `before` with the holder of a session that `port`
/// accepted on `handle` added at its end: a session as `session_of` says,
/// with a new object in a cell of its own, forwarding to `forward`. No
/// other object and no table changed.
pub open spec fn session_added(
    before: Serving,
    after: Serving,
    port: ServerHolder,
    handle: Handle,
    forward: ObjectInfo,
) -> bool {
    &&& after.holders.len() == before.holders.len() + 1
    &&& extends(after.holders, before.holders)
    &&& session_of(port, after.holders.last(), handle, forward, &before.objects, &after.objects)
    &&& after.tables == before.tables
}

/// Whether the holder that was made for an intercepted session was
/// given up again: `made` came into being as `session_of` says and was
/// `disposed` of, and the manager holds the holders it held.
pub open spec fn made_and_disposed<Y: System>(
    system: &Y,
    before: Serving,
    after: Serving,
    port: ServerHolder,
    handle: Handle,
    forward: ObjectInfo,
) -> bool {
    after.holders == before.holders && exists|made: ServerHolder, then: Serving| #[trigger]
        disposed(system, made, then, after) && session_of(
            port,
            made,
            handle,
            forward,
            &before.objects,
            &then.objects,
        ) && then.tables == before.tables
}

/// The last step of accepting an intercepted session: the client
/// detaches from the service manager; where that fails, it is the failure,
/// and the holder made for the session is given up again, as
/// `made_and_disposed` says; else the session's holder is added.
pub open spec fn detached_then_added<Y: System>(
    system: &Y,
    before: Serving,
    after: Serving,
    index: int,
    handle: Handle,
    forward_handle: Handle,
    r: Result<(), ResultCode>,
) -> bool {
    exists|detached: Result<(), ResultCode>|
        #![trigger call_ensures(Y::detach_client, (system,), detached)]
        call_ensures(Y::detach_client, (system,), detached) && match detached {
            Err(e) => r == Err::<(), ResultCode>(e) && made_and_disposed(
                system,
                before,
                after,
                before.holders[index],
                handle,
                ObjectInfo::session(forward_handle),
            ),
            Ok(_) => r is Ok && session_added(
                before,
                after,
                before.holders[index],
                handle,
                ObjectInfo::session(forward_handle),
            ),
        }
}

/// What accepting on a MITM port did after the session was accepted on
/// `handle`: the service manager was asked whose session it is and where it
/// was meant to go; where it refused, that is the failure; a port without a
/// factory for MITM objects fails with `SessionClosed`; else the rest is
/// `detached_then_added`. A failure adds no holder.
pub open spec fn intercepted<Y: System>(
    system: &Y,
    before: Serving,
    after: Serving,
    index: int,
    handle: Handle,
    r: Result<(), ResultCode>,
) -> bool {
    exists|acknowledged: Result<(MitmProcessInfo, Handle), ResultCode>|
        #![trigger call_ensures(Y::atmosphere_acknowledge_mitm_session, (system, before.holders[index].service_name), acknowledged)]
        call_ensures(
            Y::atmosphere_acknowledge_mitm_session,
            (system, before.holders[index].service_name),
            acknowledged,
        ) && match acknowledged {
            Err(e) => r == Err::<(), ResultCode>(e) && after == before,
            Ok(who) => if before.holders[index].new_mitm_server_fn is None {
                r == Err::<(), ResultCode>(ResultCode::SessionClosed) && after == before
            } else {
                detached_then_added(system, before, after, index, handle, who.1, r)
            },
        }
}

/// What accepting on the port at `index` did. A full manager fails with
/// `TooManyObjects` before anything is accepted. Else the kernel was asked
/// for the session that waits on the port; where it refused, that is the
/// failure. A MITM port goes on as `intercepted` says. Any other port
/// without a factory fails with `SessionClosed`, and with one adds the
/// session's holder. A failure adds no holder.
pub open spec fn accepted<Y: System>(
    system: &Y,
    before: Serving,
    after: Serving,
    index: int,
    r: Result<(), ResultCode>,
) -> bool {
    let port = before.holders[index];
    if before.holders.len() >= MAX_OBJECT_COUNT {
        r == Err::<(), ResultCode>(ResultCode::TooManyObjects) && after == before
    } else {
        exists|taken: Result<Handle, ResultCode>|
            #![trigger call_ensures(Y::accept_session, (system, port.info.handle), taken)]
            call_ensures(Y::accept_session, (system, port.info.handle), taken) && match taken {
                Err(e) => r == Err::<(), ResultCode>(e) && after == before,
                Ok(handle) => if port.is_mitm_service {
                    intercepted(system, before, after, index, handle, r)
                } else if port.new_server_fn is None {
                    r == Err::<(), ResultCode>(ResultCode::SessionClosed) && after == before
                } else {
                    r is Ok && session_added(before, after, port, handle, ObjectInfo::none())
                },
            }
    }
}

/// What serving a signaled handle did to the holders.
///
/// Where no holder is on the handle, the failure is
/// `SignaledServerNotFound` and nothing changed. A port, the first holder on
/// the handle, accepted a session as `accepted` says. A session was
/// received from, with a pointer buffer of the given size, and served step
/// by step as `session_handled` says, which comes to what `session_served`
/// says for the holders.
pub open spec fn signal_served<Y: System>(
    system: &Y,
    pointer_buffer_size: usize,
    before: Serving,
    after: Serving,
    handle: Handle,
    r: Result<(), ResultCode>,
) -> bool {
    &&& none_on(before.holders, handle) ==> r == Err::<(), ResultCode>(
        ResultCode::SignaledServerNotFound,
    ) && after == before
    &&& forall|at: int| #[trigger]
        first_on(before.holders, handle, at) ==> match before.holders[at].handle_type {
            WaitHandleType::Server => accepted(system, before, after, at, r),
            WaitHandleType::Session => exists|received: Result<Received, ResultCode>|
                #![trigger call_ensures(Y::receive, (system, before.holders[at].info, pointer_buffer_size), received)]
                call_ensures(Y::receive, (system, before.holders[at].info, pointer_buffer_size), received)
                    && session_served(before.holders, after.holders, at, received, r)
                    && session_handled(system, pointer_buffer_size, before, after, at, received, r),
        }
}

/// What one round of serving did: every handle of the wait set was
/// waited on; a wait that fails is the failure of the round and changes
/// nothing, as does a signal for a handle that was not waited on, which
/// fails with `SignaledServerNotFound`; else the handle that was signaled
/// was served as `signal_served` says.
pub open spec fn round_served<Y: System>(
    system: &Y,
    pointer_buffer_size: usize,
    before: Serving,
    after: Serving,
    r: Result<(), ResultCode>,
) -> bool {
    exists|handles: Vec<Handle>, waited: Result<usize, ResultCode>|
        #![trigger call_ensures(Y::wait_handles, (system, &handles), waited)]
        handles@ == wait_set(before.holders) && call_ensures(Y::wait_handles, (system, &handles), waited)
            && match waited {
            Err(e) => r == Err::<(), ResultCode>(e) && after == before,
            Ok(index) => if index < handles@.len() {
                signal_served::<Y>(system, pointer_buffer_size, before, after, handles@[index as int], r)
            } else {
                r == Err::<(), ResultCode>(ResultCode::SignaledServerNotFound) && after == before
            },
        }
}

/// Whether `n` rounds that succeeded lead from `start` to `now`.
pub open spec fn rounds_served<Y: System>(
    system: &Y,
    pointer_buffer_size: usize,
    start: Serving,
    now: Serving,
    n: int,
) -> bool
    decreases n,
{
    if n <= 0 {
        now == start
    } else {
        exists|mid: Serving|
            rounds_served(system, pointer_buffer_size, start, mid, n - 1) && #[trigger] round_served(
                system,
                pointer_buffer_size,
                mid,
                now,
                Ok::<(), ResultCode>(()),
            )
    }
}

/// What serving for at most `rounds` rounds did: some rounds succeeded,
/// one after the other; then either the rounds were used up, and the result
/// is `Ok(false)`, or one more round failed, which ended the loop as
/// `loop_end` says.
pub open spec fn looped<Y: System>(
    system: &Y,
    pointer_buffer_size: usize,
    start: Serving,
    after: Serving,
    rounds: u64,
    r: Result<bool, ResultCode>,
) -> bool {
    exists|done: int, mid: Serving| #[trigger]
        rounds_served(system, pointer_buffer_size, start, mid, done) && 0 <= done <= rounds && (if r
            == Ok::<bool, ResultCode>(false) {
            done == rounds && after == mid
        } else {
            done < rounds && exists|failure: ResultCode| #[trigger]
                round_served(system, pointer_buffer_size, mid, after, Err::<(), ResultCode>(failure)) && r
                    == loop_end(failure)
        })
}

/// Whether `after` is `before` with the holder of a port on `handle` added
/// at its end.
pub open spec fn port_added(
    before: Serving,
    after: Serving,
    handle: Handle,
    service_name: ServiceName,
    is_mitm_service: bool,
) -> bool {
    &&& after.holders.len() == before.holders.len() + 1
    &&& extends(after.holders, before.holders)
    &&& after.holders.last().is_port(handle, service_name, is_mitm_service)
    &&& after.objects == before.objects
    &&& after.tables == before.tables
}

/// Whether `after` is `before` with the holder of a session on `handle`
/// added at its end, which keeps `object` in a cell of its own. No other
/// object and no table changed.
pub open spec fn session_registered(
    before: Serving,
    after: Serving,
    handle: Handle,
    object: SessionObject,
) -> bool {
    &&& after.holders.len() == before.holders.len() + 1
    &&& extends(after.holders, before.holders)
    &&& after.holders.last().is_session(after.holders.last().server_cell(), ObjectInfo::session(handle))
    &&& after.holders.last().server_cell() matches Some(cell) && fresh_in(
        &before.objects,
        &after.objects,
        cell,
    ) && after.objects.value(cell) == object
    &&& after.tables == before.tables
}

/// What registering the service `S` did. A full manager fails with
/// `TooManyObjects` before anything is asked. Else the service manager was
/// asked to register the name of `S` for as many sessions as `S` allows;
/// where it refused, that is the failure and nothing is served; where it
/// agreed, the port it gave is served, and the result is what detaching
/// from the service manager gave.
pub open spec fn service_registered<S: IService, Y: System>(
    system: &Y,
    before: Serving,
    after: Serving,
    r: Result<(), ResultCode>,
) -> bool {
    if before.holders.len() >= MAX_OBJECT_COUNT {
        r == Err::<(), ResultCode>(ResultCode::TooManyObjects) && after == before
    } else {
        exists|name: ServiceName, max_sessions: i32, registered: Result<Handle, ResultCode>|
            #![trigger call_ensures(Y::register_service, (system, name, false, max_sessions), registered)]
            call_ensures(S::get_name, (), name) && call_ensures(S::get_max_sesssions, (), max_sessions)
                && call_ensures(Y::register_service, (system, name, false, max_sessions), registered)
                && match registered {
                Err(e) => r == Err::<(), ResultCode>(e) && after == before,
                Ok(handle) => port_added(before, after, handle, name, false) && call_ensures(
                    Y::detach_client,
                    (system,),
                    r,
                ),
            }
    }
}

/// What registering the named port of `S` did. A full manager fails with
/// `TooManyObjects` before anything is asked. Else the kernel was asked for
/// a port of the name of `S`, for as many sessions as `S` allows; where it
/// refused, that is the failure and nothing is served; where it agreed, the
/// port is served, under no service name.
pub open spec fn named_port_registered<S: INamedPort, Y: System>(
    system: &Y,
    before: Serving,
    after: Serving,
    r: Result<(), ResultCode>,
) -> bool {
    if before.holders.len() >= MAX_OBJECT_COUNT {
        r == Err::<(), ResultCode>(ResultCode::TooManyObjects) && after == before
    } else {
        exists|name: &'static str, max_sessions: i32, made: Result<Handle, ResultCode>|
            #![trigger call_ensures(Y::manage_named_port, (system, name, max_sessions), made)]
            call_ensures(S::get_port_name, (), name) && call_ensures(
                S::get_max_sesssions,
                (),
                max_sessions,
            ) && call_ensures(Y::manage_named_port, (system, name, max_sessions), made) && match made {
                Err(e) => r == Err::<(), ResultCode>(e) && after == before,
                Ok(handle) => r is Ok && port_added(before, after, handle, ServiceName { value: 0 }, false),
            }
    }
}

/// The last steps of installing a MITM: future sessions of the name are
/// cleared, then the client detaches; `r` is the first failure, or success.
pub open spec fn future_cleared<Y: System>(system: &Y, name: ServiceName, r: Result<(), ResultCode>) -> bool {
    exists|cleared: Result<(), ResultCode>|
        #![trigger call_ensures(Y::atmosphere_clear_future_mitm, (system, name), cleared)]
        call_ensures(Y::atmosphere_clear_future_mitm, (system, name), cleared) && match cleared {
            Err(e) => r == Err::<(), ResultCode>(e),
            Ok(_) => call_ensures(Y::detach_client, (system,), r),
        }
}

/// What installing `S` as a MITM did. A manager without room for two more
/// holders fails with `TooManyObjects` before anything is asked. Else the
/// service manager was asked to install a MITM on the name of `S`; where it
/// refused, that is the failure and nothing is served; where it agreed, the
/// MITM port it gave is served and, after it, the session on which a new
/// query service for `S` answers; the result is that of `future_cleared`.
pub open spec fn mitm_service_registered<S: IMitmService, Y: System>(
    system: &Y,
    before: Serving,
    after: Serving,
    r: Result<(), ResultCode>,
) -> bool {
    if before.holders.len() + 2 > MAX_OBJECT_COUNT {
        r == Err::<(), ResultCode>(ResultCode::TooManyObjects) && after == before
    } else {
        exists|name: ServiceName, installed: Result<(Handle, Handle), ResultCode>|
            #![trigger call_ensures(Y::atmosphere_install_mitm, (system, name), installed)]
            call_ensures(S::get_name, (), name) && call_ensures(
                Y::atmosphere_install_mitm,
                (system, name),
                installed,
            ) && match installed {
                Err(e) => r == Err::<(), ResultCode>(e) && after == before,
                Ok(handles) => exists|with_port: Serving, query: MitmQueryService<S>| #[trigger]
                    session_registered(with_port, after, handles.1, SessionObject::keeping(query))
                        && port_added(before, with_port, handles.0, name, true) && future_cleared(
                        system,
                        name,
                        r,
                    ),
            }
    }
}

} // verus!
