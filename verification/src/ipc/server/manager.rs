//! The manager: it waits on every port and session, accepts, receives,
//! dispatches and replies, and keeps the list of holders within bounds.

use vstd::prelude::*;
use crate::gpu::parcel::u32_from_le;
use crate::ipc::{Alignment, CommandContext, CommandOut, CommandType, DataWalker,
    DomainCommandType, DomainObjectId, Handle, INVALID_HANDLE};
use crate::ipc::server::dispatch::{LoopStep, RequestOutcome, addressed_object, answers_request,
    first_on, forward_request, loop_step, none_on, request_outcome, request_result, select_target,
    send_reply, wait_set};
use crate::ipc::server::domain::DomainTable;
use crate::ipc::server::hipc::{CONTROL_CONVERT_CURRENT_OBJECT_TO_DOMAIN, HipcManager,
    MitmQueryService, control_answered};
use crate::ipc::server::holder::{IMitmServerObject, IMitmService, INamedPort, IServerObject,
    IService, ServerHolder, WaitHandleType, converted, fresh_in, table_renewed};
use crate::ipc::server::response::{Moment, ServerContext, extends, lemma_single_handle,
    lemma_single_pod, lemma_single_word, plain_or_handles, serve_command, served, write_response,
    written};
use crate::ipc::server::steps::{Serving, accepted, all_disposed, clone_picked_up, port_added,
    session_registered, control_response, control_starting, control_written, controlled,
    controlled_by, detached_then_added, dispatched, disposed, future_cleared, intercepted,
    looked_up, looped, mitm_service_registered, named_port_registered, request_handled, responded,
    round_served, rounds_served, service_registered, session_handled, session_served,
    signal_served, starting};
use crate::ipc::sf::{ISessionObject, ServiceName, SessionObject, find_command, first_match};
use crate::ipc::system::{Received, Response, System};
use crate::mem::{CellId, Shared, SharedHeap};
use crate::result::ResultCode;

verus! {

/// How many ports and sessions one manager can wait on.
pub const MAX_OBJECT_COUNT: usize = 0x40;

/// The multiplexer: the ports and sessions it serves, and the arenas
/// that hold their objects and domain tables. `P` is the size of the
/// pointer buffer it offers the kernel with every receive.
pub struct ServerManager<const P: usize> {
    server_holders: Vec<ServerHolder>,
    objects: SharedHeap<SessionObject>,
    domain_tables: SharedHeap<DomainTable>,
}

impl<const P: usize> ServerManager<P> {
    /// The holders of what is served, in the order they were registered or accepted.
    pub closed spec fn holders(&self) -> Seq<ServerHolder> {
        self.server_holders@
    }

    /// The arena of the session objects.
    pub closed spec fn objects(&self) -> SharedHeap<SessionObject> {
        self.objects
    }

    /// The arena of the domain tables.
    pub closed spec fn tables(&self) -> SharedHeap<DomainTable> {
        self.domain_tables
    }

    /// What the manager holds, as a value.
    pub open spec fn serving(&self) -> Serving {
        Serving { holders: self.holders(), objects: self.objects(), tables: self.tables() }
    }

    /// No more holders than can be waited on, and sound arenas.
    pub open spec fn wf(&self) -> bool {
        &&& self.holders().len() <= MAX_OBJECT_COUNT
        &&& self.objects().wf()
        &&& self.tables().wf()
    }

    /// A manager that serves nothing yet.
    pub fn new() -> (r: Result<Self, ResultCode>)
        ensures
            r matches Ok(manager) && manager.wf() && manager.holders().len() == 0 && (forall|id: CellId|
                !manager.objects().live(id) && !manager.tables().live(id)),
    {
        Ok(Self { server_holders: Vec::new(), objects: SharedHeap::new(), domain_tables: SharedHeap::new() })
    }

    /// How many ports and sessions are served.
    pub fn holder_count(&self) -> (n: usize)
        ensures
            n == self.holders().len(),
    {
        self.server_holders.len()
    }

    /// The holder at `index`.
    pub fn holder(&self, index: usize) -> (r: &ServerHolder)
        requires
            index < self.holders().len(),
        ensures
            *r == self.holders()[index as int],
    {
        &self.server_holders[index]
    }

    /// How many handles own the object of the holder at `index`; zero
    /// where it has none.
    pub fn object_use_count(&self, index: usize) -> (n: i64)
        requires
            self.wf(),
            index < self.holders().len(),
        ensures
            n == match self.holders()[index as int].server_cell() {
                Some(cell) => self.objects().count(cell),
                None => 0,
            },
    {
        match &self.server_holders[index].server {
            Some(shared) => shared.use_count(&self.objects),
            None => 0,
        }
    }

    /// The names taken in the domain table of the holder at `index`, in
    /// the order they were taken; empty where it has no table.
    pub fn domain_ids(&self, index: usize) -> (r: Vec<DomainObjectId>)
        requires
            index < self.holders().len(),
        ensures
            r@ == match self.holders()[index as int].table_cell() {
                Some(cell) if self.tables().live(cell) => self.tables().value(cell).table@,
                _ => Seq::<DomainObjectId>::empty(),
            },
    {
        let mut ids: Vec<DomainObjectId> = Vec::new();
        match self.server_holders[index].get_table_cell() {
            Some(cell) => match self.domain_tables.get(cell) {
                Some(table) => {
                    let mut i: usize = 0;
                    while i < table.table.len()
                        invariant
                            i <= table.table.len(),
                            ids@ == table.table@.subrange(0, i as int),
                        decreases table.table.len() - i,
                    {
                        ids.push(table.table[i]);
                        assert(ids@ =~= table.table@.subrange(0, i + 1));
                        i += 1;
                    }
                    assert(table.table@.subrange(0, i as int) =~= table.table@);
                },
                None => {},
            },
            None => {},
        }
        ids
    }

    /// Gathers the handles to wait on: the handle of every holder that has one, in order.
    pub fn prepare_wait_handles(&self) -> (handles: Vec<Handle>)
        ensures
            handles@ == wait_set(self.holders()),
    {
        let mut handles: Vec<Handle> = Vec::new();
        let mut i: usize = 0;
        while i < self.server_holders.len()
            invariant
                i <= self.server_holders.len(),
                handles@ == wait_set(self.server_holders@.subrange(0, i as int)),
            decreases self.server_holders.len() - i,
        {
            let server_info = self.server_holders[i].info;
            proof {
                let longer = self.server_holders@.subrange(0, i + 1);
                assert(longer.drop_last() =~= self.server_holders@.subrange(0, i as int));
                assert(longer.last() == self.server_holders@[i as int]);
            }
            if server_info.handle != INVALID_HANDLE {
                handles.push(server_info.handle);
            }
            i += 1;
        }
        assert(self.server_holders@.subrange(0, i as int) =~= self.server_holders@);
        handles
    }

    /// Finds the first holder on `handle`.
    pub fn find_holder(&self, handle: Handle) -> (r: Option<usize>)
        ensures
            match r {
                Some(at) => first_on(self.holders(), handle, at as int),
                None => none_on(self.holders(), handle),
            },
    {
        let mut i: usize = 0;
        while i < self.server_holders.len()
            invariant
                i <= self.server_holders.len(),
                forall|j: int| 0 <= j < i ==> (#[trigger] self.server_holders@[j]).info.handle != handle,
            decreases self.server_holders.len() - i,
        {
            if self.server_holders[i].info.handle == handle {
                return Some(i);
            }
            i += 1;
        }
        None
    }

    /// Gives back what a holder that leaves the manager held: what the
    /// system gave it, then its object and table, as `disposed` says. A
    /// failure to give something back to the system does not stop the rest.
    fn dispose_holder<Y: System>(&mut self, system: &Y, holder: ServerHolder)
        requires
            old(self).wf(),
        ensures
            final(self).wf(),
            final(self).holders() == old(self).holders(),
            disposed(system, holder, old(self).serving(), final(self).serving()),
    {
        let mut holder = holder;
        let _ = holder.close(system);
        holder.release(&mut self.objects, &mut self.domain_tables);
    }

    /// Adds a holder at the end. Fails with `TooManyObjects` exactly when
    /// the manager is full; the holder is then given up.
    fn push_holder<Y: System>(&mut self, system: &Y, holder: ServerHolder) -> (r: Result<(), ResultCode>)
        requires
            old(self).wf(),
        ensures
            final(self).wf(),
            old(self).holders().len() < MAX_OBJECT_COUNT ==> r is Ok
                && final(self).holders() == old(self).holders().push(holder)
                && final(self).objects() == old(self).objects()
                && final(self).tables() == old(self).tables(),
            old(self).holders().len() >= MAX_OBJECT_COUNT ==> r == Err::<(), ResultCode>(
                ResultCode::TooManyObjects,
            ) && final(self).holders() == old(self).holders() && disposed(
                system,
                holder,
                old(self).serving(),
                final(self).serving(),
            ),
    {
        if self.server_holders.len() >= MAX_OBJECT_COUNT {
            self.dispose_holder(system, holder);
            return Err(ResultCode::TooManyObjects);
        }
        self.server_holders.push(holder);
        Ok(())
    }

    /// Removes the holder at `index` and gives back what it held, as
    /// `disposed` says.
    fn remove_holder<Y: System>(&mut self, system: &Y, index: usize)
        requires
            old(self).wf(),
            index < old(self).holders().len(),
        ensures
            final(self).wf(),
            final(self).holders() == old(self).holders().remove(index as int),
            disposed(
                system,
                old(self).holders()[index as int],
                old(self).serving(),
                final(self).serving(),
            ),
    {
        let holder = self.server_holders.remove(index);
        self.dispose_holder(system, holder);
    }

    /// Tears the manager down: every holder is removed, last first, and
    /// given up, as `all_disposed` says.
    pub fn close_all<Y: System>(&mut self, system: &Y)
        requires
            old(self).wf(),
        ensures
            final(self).wf(),
            final(self).holders().len() == 0,
            all_disposed(system, old(self).holders(), old(self).serving(), final(self).serving()),
    {
        while self.server_holders.len() > 0
            invariant
                self.wf(),
                forall|end: Serving| #[trigger]
                    all_disposed(system, self.holders(), self.serving(), end) ==> all_disposed(
                        system,
                        old(self).holders(),
                        old(self).serving(),
                        end,
                    ),
            decreases self.server_holders.len(),
        {
            let last = self.server_holders.len() - 1;
            let ghost leaving = self.holders();
            let ghost then = self.serving();
            self.remove_holder(system, last);
            proof {
                assert(self.holders() =~= leaving.drop_last());
                assert forall|end: Serving| #[trigger]
                    all_disposed(system, self.holders(), self.serving(), end) implies all_disposed(
                    system,
                    old(self).holders(),
                    old(self).serving(),
                    end,
                ) by {
                    assert(disposed(system, leaving.last(), then, self.serving()));
                    assert(all_disposed(system, leaving, then, end));
                }
            }
        }
        assert(all_disposed(system, self.holders(), self.serving(), self.serving()));
    }

    /// Serves a port on `handle` whose sessions get objects of type `S`,
    /// as `port_added` says. Fails with `TooManyObjects`, changing nothing,
    /// exactly when the manager is full.
    pub fn register_server<S: IServerObject + 'static>(
        &mut self,
        handle: Handle,
        service_name: ServiceName,
    ) -> (r: Result<(), ResultCode>)
        requires
            old(self).wf(),
        ensures
            final(self).wf(),
            old(self).holders().len() < MAX_OBJECT_COUNT ==> r is Ok && port_added(
                old(self).serving(),
                final(self).serving(),
                handle,
                service_name,
                false,
            ),
            old(self).holders().len() >= MAX_OBJECT_COUNT ==> r == Err::<(), ResultCode>(
                ResultCode::TooManyObjects,
            ) && final(self).serving() == old(self).serving(),
    {
        if self.server_holders.len() >= MAX_OBJECT_COUNT {
            return Err(ResultCode::TooManyObjects);
        }
        self.server_holders.push(ServerHolder::new_server::<S>(handle, service_name));
        proof {
            assert(self.holders().subrange(0, old(self).holders().len() as int) =~= old(self).holders());
        }
        Ok(())
    }

    /// Serves a MITM port on `handle` whose sessions get objects of type
    /// `S`, as `port_added` says. Fails with `TooManyObjects`, changing
    /// nothing, exactly when the manager is full.
    pub fn register_mitm_server<S: IMitmServerObject + 'static>(
        &mut self,
        handle: Handle,
        service_name: ServiceName,
    ) -> (r: Result<(), ResultCode>)
        requires
            old(self).wf(),
        ensures
            final(self).wf(),
            old(self).holders().len() < MAX_OBJECT_COUNT ==> r is Ok && port_added(
                old(self).serving(),
                final(self).serving(),
                handle,
                service_name,
                true,
            ),
            old(self).holders().len() >= MAX_OBJECT_COUNT ==> r == Err::<(), ResultCode>(
                ResultCode::TooManyObjects,
            ) && final(self).serving() == old(self).serving(),
    {
        if self.server_holders.len() >= MAX_OBJECT_COUNT {
            return Err(ResultCode::TooManyObjects);
        }
        self.server_holders.push(ServerHolder::new_mitm_server::<S>(handle, service_name));
        proof {
            assert(self.holders().subrange(0, old(self).holders().len() as int) =~= old(self).holders());
        }
        Ok(())
    }

    /// Serves `session_obj` on the session `handle`, as
    /// `session_registered` says: a new holder, last of all, keeps it in a
    /// cell of its own. Fails with `TooManyObjects`, changing nothing,
    /// exactly when the manager is full.
    pub fn register_session<S: ISessionObject + 'static>(&mut self, handle: Handle, session_obj: S) -> (r:
        Result<(), ResultCode>)
        requires
            old(self).wf(),
        ensures
            final(self).wf(),
            old(self).holders().len() < MAX_OBJECT_COUNT ==> r is Ok && session_registered(
                old(self).serving(),
                final(self).serving(),
                handle,
                SessionObject::keeping(session_obj),
            ),
            old(self).holders().len() >= MAX_OBJECT_COUNT ==> r == Err::<(), ResultCode>(
                ResultCode::TooManyObjects,
            ) && final(self).serving() == old(self).serving(),
    {
        if self.server_holders.len() >= MAX_OBJECT_COUNT {
            return Err(ResultCode::TooManyObjects);
        }
        let object = Shared::new(&mut self.objects, SessionObject::new(session_obj));
        self.server_holders.push(ServerHolder::new_session(handle, object));
        proof {
            assert(self.holders().subrange(0, old(self).holders().len() as int) =~= old(self).holders());
        }
        Ok(())
    }

    /// Registers the service `S` with the service manager and serves its
    /// port, as `service_registered` says.
    pub fn register_service_server<S: IService + 'static, Y: System>(&mut self, system: &Y) -> (r: Result<
        (),
        ResultCode,
    >)
        requires
            old(self).wf(),
        ensures
            final(self).wf(),
            service_registered::<S, Y>(system, old(self).serving(), final(self).serving(), r),
    {
        if self.server_holders.len() >= MAX_OBJECT_COUNT {
            return Err(ResultCode::TooManyObjects);
        }
        let service_name = S::get_name();
        let max_sessions = S::get_max_sesssions();
        let registered = system.register_service(service_name, false, max_sessions);
        let service_handle = match registered {
            Ok(handle) => handle,
            Err(e) => {
                return Err(e);
            },
        };
        let _ = self.register_server::<S>(service_handle, service_name);
        system.detach_client()
    }

    /// Installs `S` as a MITM of its service, and serves the MITM port and
    /// the session on which the service manager asks whom to intercept, as
    /// `mitm_service_registered` says.
    pub fn register_mitm_service_server<S: IMitmService + 'static, Y: System>(&mut self, system: &Y) -> (r:
        Result<(), ResultCode>)
        requires
            old(self).wf(),
        ensures
            final(self).wf(),
            mitm_service_registered::<S, Y>(system, old(self).serving(), final(self).serving(), r),
    {
        if self.server_holders.len() + 2 > MAX_OBJECT_COUNT {
            return Err(ResultCode::TooManyObjects);
        }
        let service_name = S::get_name();
        let installed = system.atmosphere_install_mitm(service_name);
        let (mitm_handle, query_handle) = match installed {
            Ok(handles) => handles,
            Err(e) => {
                return Err(e);
            },
        };
        let _ = self.register_mitm_server::<S>(mitm_handle, service_name);
        let ghost with_port = self.serving();
        let query = MitmQueryService::<S>::new();
        let ghost asked = query;
        let _ = self.register_session(query_handle, query);
        proof {
            assert(session_registered(with_port, self.serving(), query_handle, SessionObject::keeping(asked)));
        }
        let cleared = system.atmosphere_clear_future_mitm(service_name);
        match cleared {
            Ok(_) => {},
            Err(e) => {
                assert(future_cleared(system, service_name, Err::<(), ResultCode>(e)));
                return Err(e);
            },
        }
        let r = system.detach_client();
        assert(future_cleared(system, service_name, r));
        r
    }

    /// Has the kernel create the named port of `S` and serves it, as
    /// `named_port_registered` says.
    pub fn register_named_port_server<S: INamedPort + 'static, Y: System>(&mut self, system: &Y) -> (r:
        Result<(), ResultCode>)
        requires
            old(self).wf(),
        ensures
            final(self).wf(),
            named_port_registered::<S, Y>(system, old(self).serving(), final(self).serving(), r),
    {
        if self.server_holders.len() >= MAX_OBJECT_COUNT {
            return Err(ResultCode::TooManyObjects);
        }
        let port_name = S::get_port_name();
        let max_sessions = S::get_max_sesssions();
        let made = system.manage_named_port(port_name, max_sessions);
        let port_handle = match made {
            Ok(handle) => handle,
            Err(e) => {
                return Err(e);
            },
        };
        self.register_server::<S>(port_handle, ServiceName::empty())
    }
}

impl<const P: usize> ServerManager<P> {
    /// Takes the sessions that serving a command brought into being among
    /// the holders. Where they would not all fit, none is taken, all are
    /// given up, last first, as `all_disposed` says, and the result is
    /// `false`.
    fn adopt<Y: System>(&mut self, system: &Y, new_sessions: Vec<ServerHolder>) -> (taken: bool)
        requires
            old(self).wf(),
        ensures
            final(self).wf(),
            taken == (old(self).holders().len() + new_sessions@.len() <= MAX_OBJECT_COUNT),
            taken ==> final(self).holders() == old(self).holders() + new_sessions@
                && final(self).objects() == old(self).objects()
                && final(self).tables() == old(self).tables(),
            !taken ==> final(self).holders() == old(self).holders() && all_disposed(
                system,
                new_sessions@,
                old(self).serving(),
                final(self).serving(),
            ),
    {
        let mut leaving = new_sessions;
        if leaving.len() <= MAX_OBJECT_COUNT - self.server_holders.len() {
            self.server_holders.append(&mut leaving);
            true
        } else {
            while leaving.len() > 0
                invariant
                    self.wf(),
                    self.holders() == old(self).holders(),
                    forall|end: Serving| #[trigger]
                        all_disposed(system, leaving@, self.serving(), end) ==> all_disposed(
                            system,
                            new_sessions@,
                            old(self).serving(),
                            end,
                        ),
                decreases leaving.len(),
            {
                let ghost longer = leaving@;
                let ghost then = self.serving();
                match leaving.pop() {
                    Some(holder) => {
                        self.dispose_holder(system, holder);
                    },
                    None => {},
                }
                proof {
                    assert(leaving@ =~= longer.drop_last());
                    assert forall|end: Serving| #[trigger]
                        all_disposed(system, leaving@, self.serving(), end) implies all_disposed(
                        system,
                        new_sessions@,
                        old(self).serving(),
                        end,
                    ) by {
                        assert(disposed(system, longer.last(), then, self.serving()));
                        assert(all_disposed(system, longer, then, end));
                    }
                }
            }
            assert(all_disposed(system, leaving@, self.serving(), self.serving()));
            false
        }
    }

    /// Dispatches a request to the object it is for and returns the
    /// response to send.
    ///
    /// The object is `target_of` the holder at `index`; the command is the
    /// first of the object's table that answers to `rq_id` on the system's
    /// version; what the request comes to is `outcome_of`. A request that is
    /// forwarded goes out exactly as `ipc_buf_backup`, on the holder's
    /// forward handle, and the response is what came back. Sessions that
    /// serving brought into being join the holders; where they do not fit,
    /// the response carries `TooManyObjects` instead.
    fn do_handle_request<Y: System>(
        &mut self,
        system: &Y,
        index: usize,
        ctx: CommandContext,
        rq_id: u32,
        command_type: CommandType,
        ipc_buf_backup: &Vec<u8>,
    ) -> (r: Result<Response, ResultCode>)
        requires
            old(self).wf(),
            index < old(self).holders().len(),
        ensures
            final(self).wf(),
            extends(final(self).holders(), old(self).holders()),
            dispatched(
                system,
                old(self).serving(),
                final(self).serving(),
                index as int,
                ctx,
                rq_id,
                command_type,
                ipc_buf_backup,
                r,
            ),
            r is Err ==> final(self).serving() == old(self).serving(),
            r matches Ok(response) ==> answers_request(response, ctx.object_info.protocol),
            r matches Ok(Response::Forwarded { message })
                ==> old(self).holders()[index as int].is_mitm_service
                && call_ensures(
                Y::send_sync_request,
                (system, old(self).holders()[index as int].mitm_forward_info.handle, ipc_buf_backup),
                Ok::<Vec<u8>, ResultCode>(message),
            ),
    {
        let protocol = ctx.object_info.protocol;
        let is_mitm_service = self.server_holders[index].is_mitm_service;
        let forward_handle = self.server_holders[index].mitm_forward_info.handle;
        let target = match select_target(&self.server_holders[index], ctx.object_info, &self.domain_tables) {
            Ok(target) => target,
            Err(e) => {
                return Err(e);
            },
        };
        let command_table = match self.objects.get(target) {
            Some(object) => object.object.get_command_metadata_table(),
            None => {
                return Err(ResultCode::SignaledServerNotFound);
            },
        };
        let version = system.get_version();
        let found = find_command(&command_table, rq_id, version);
        let table_cell = self.server_holders[index].get_table_cell();
        let ghost asked = ctx;
        let mut ctx = ctx;
        ctx.out_params = CommandOut::empty();
        let mut server_ctx = ServerContext::new(ctx, DataWalker::new(), table_cell, Vec::new());
        let ghost start = Moment { ctx: server_ctx, objects: self.objects, tables: self.domain_tables };
        let served = match found {
            Some(at) => {
                proof {
                    assert forall|other: int| first_match(
                        command_table@,
                        rq_id,
                        version,
                        other,
                    ) implies other == at by {
                        if other < at {
                            assert(!command_table@[other].matches(rq_id, version));
                        }
                        if at < other {
                            assert(!command_table@[at as int].matches(rq_id, version));
                        }
                    }
                }
                Some(
                    serve_command(
                        system,
                        &mut self.objects,
                        &mut self.domain_tables,
                        target,
                        &command_table[at],
                        &mut server_ctx,
                    ),
                )
            },
            None => {
                proof {
                    assert forall|other: int| !first_match(command_table@, rq_id, version, other) by {
                        if 0 <= other < command_table@.len() {
                            assert(!command_table@[other].matches(rq_id, version));
                        }
                    }
                }
                None
            },
        };
        let ghost handled = Moment { ctx: server_ctx, objects: self.objects, tables: self.domain_tables };
        let ServerContext { ctx, raw_data_walker, domain_table, new_sessions } = server_ctx;
        let response = match request_outcome(is_mitm_service, served) {
            RequestOutcome::Done => Response::Request {
                protocol,
                command_type: CommandType::Request,
                result: Ok(()),
                out_params: ctx.out_params,
            },
            RequestOutcome::Respond { result } => request_result(protocol, command_type, Err(result)),
            RequestOutcome::Forward => forward_request(
                system,
                forward_handle,
                ipc_buf_backup,
                command_type,
                protocol,
            ),
        };
        let ghost answer = response;
        proof {
            assert(starting(start, asked, old(self).holders()[index as int], old(self).serving()));
            assert(looked_up(system, start, handled, command_table@, rq_id, version, target, served));
            assert(responded(
                system,
                old(self).holders()[index as int],
                protocol,
                command_type,
                ipc_buf_backup,
                handled,
                served,
                answer,
            ));
        }
        if self.adopt(system, new_sessions) {
            Ok(response)
        } else {
            Ok(request_result(protocol, command_type, Err(ResultCode::TooManyObjects)))
        }
    }

    /// Handles a request on the holder at `index`, as `request_handled`
    /// says.
    ///
    /// A request that names no domain command is an error on a domain,
    /// `InvalidDomainCommandType`, and is dispatched elsewhere. A message
    /// to an object is dispatched. A close of an object of a domain frees its
    /// name and unbinds its holders, and is answered with success; a close of
    /// the base object is answered with `InvalidDomainCommandType`. Whatever
    /// the answer, it answers in the request's protocol or is a forwarded
    /// reply; and a forwarded reply is what the service behind the session
    /// answered to exactly `ipc_buf_backup`.
    pub fn handle_request_command<Y: System>(
        &mut self,
        system: &Y,
        index: usize,
        ctx: CommandContext,
        rq_id: u32,
        command_type: CommandType,
        domain_command_type: DomainCommandType,
        ipc_buf_backup: &Vec<u8>,
    ) -> (r: Result<Response, ResultCode>)
        requires
            old(self).wf(),
            index < old(self).holders().len(),
        ensures
            final(self).wf(),
            extends(final(self).holders(), old(self).holders()),
            request_handled(
                system,
                old(self).serving(),
                final(self).serving(),
                index as int,
                ctx,
                rq_id,
                command_type,
                domain_command_type,
                ipc_buf_backup,
                r,
            ),
            r is Err ==> final(self).holders() == old(self).holders(),
            r matches Ok(response) ==> answers_request(response, ctx.object_info.protocol),
            r matches Ok(Response::Forwarded { message })
                ==> old(self).holders()[index as int].is_mitm_service
                && call_ensures(
                Y::send_sync_request,
                (system, old(self).holders()[index as int].mitm_forward_info.handle, ipc_buf_backup),
                Ok::<Vec<u8>, ResultCode>(message),
            ),
    {
        let is_domain = ctx.object_info.is_domain();
        match domain_command_type {
            DomainCommandType::Invalid => {
                if is_domain {
                    Err(ResultCode::InvalidDomainCommandType)
                } else {
                    self.do_handle_request(system, index, ctx, rq_id, command_type, ipc_buf_backup)
                }
            },
            DomainCommandType::SendMessage => self.do_handle_request(
                system,
                index,
                ctx,
                rq_id,
                command_type,
                ipc_buf_backup,
            ),
            DomainCommandType::Close => {
                let protocol = ctx.object_info.protocol;
                if !ctx.object_info.owns_handle {
                    let table_cell = match self.server_holders[index].get_table_cell() {
                        Some(table_cell) => table_cell,
                        None => {
                            return Err(ResultCode::DomainNotFound);
                        },
                    };
                    if !self.domain_tables.is_live(table_cell) {
                        return Err(ResultCode::DomainNotFound);
                    }
                    let table = self.domain_tables.get_mut(table_cell);
                    let unbound = table.deallocate_domain(ctx.object_info.domain_object_id);
                    ServerHolder::release_servers(unbound, &mut self.objects);
                    Ok(request_result(protocol, command_type, Ok(())))
                } else {
                    Ok(request_result(protocol, command_type, Err(ResultCode::InvalidDomainCommandType)))
                }
            },
        }
    }

    /// Handles a control command on the holder at `index`, step by step as
    /// `controlled_by` says; `controlled` says what that comes to for the
    /// holders.
    ///
    /// Control commands exist in CMIF only: on another protocol this fails
    /// with `InvalidProtocol` and changes nothing. Else the command is
    /// answered by the session's control interface; a command it does not
    /// have is answered with `InvalidCommandRequestId`, a failed one with
    /// its failure. A clone that the command made joins the holders as a
    /// second holder of the same object.
    pub fn handle_control_command<Y: System>(
        &mut self,
        system: &Y,
        index: usize,
        ctx: CommandContext,
        rq_id: u32,
        command_type: CommandType,
    ) -> (r: Result<Response, ResultCode>)
        requires
            old(self).wf(),
            index < old(self).holders().len(),
        ensures
            final(self).wf(),
            final(self).holders().len() >= old(self).holders().len(),
            forall|j: int|
                0 <= j < old(self).holders().len() && j != index
                    ==> (#[trigger] final(self).holders()[j]) == old(self).holders()[j],
            !ctx.object_info.uses_cmif_protocol() ==> (r matches Err(e) && e
                == ResultCode::InvalidProtocol) && final(self).holders() == old(self).holders()
                && final(self).objects() == old(self).objects() && final(self).tables() == old(self).tables(),
            ctx.object_info.uses_cmif_protocol() ==> controlled(
                old(self).holders(),
                final(self).holders(),
                &old(self).objects(),
                &old(self).tables(),
                &final(self).tables(),
                index as int,
                rq_id,
                r,
            ),
            controlled_by(
                system,
                P,
                old(self).serving(),
                final(self).serving(),
                index as int,
                ctx,
                rq_id,
                command_type,
                r,
            ),
    {
        if !ctx.object_info.uses_cmif_protocol() {
            return Err(ResultCode::InvalidProtocol);
        }
        let mut hipc_manager = HipcManager::new(P);
        let ghost asked = ctx;
        let mut ctx = ctx;
        ctx.out_params = CommandOut::empty();
        let mut server_ctx = ServerContext::new(ctx, DataWalker::new(), None, Vec::new());
        let ghost start = Moment { ctx: server_ctx, objects: self.objects, tables: self.domain_tables };
        let answered = hipc_manager.call_command(
            system,
            &mut self.server_holders[index],
            &mut self.domain_tables,
            rq_id,
            &mut server_ctx,
        );
        let ghost tables_then = self.domain_tables;
        let ghost holder_then = self.server_holders@[index as int];
        let ghost called = Moment { ctx: server_ctx, objects: self.objects, tables: self.domain_tables };
        let ghost answer = answered;
        let ghost with_holder = self.server_holders@;
        proof {
            assert(called.stays(called));
            assert(with_holder =~= old(self).holders().update(index as int, holder_then));
        }
        let written = match answered {
            None => Err(ResultCode::InvalidCommandRequestId),
            Some(Err(rc)) => Err(rc),
            Some(Ok(outputs)) => {
                proof {
                    assert(plain_or_handles(outputs@));
                    if outputs@[0]@ is Pod {
                        lemma_single_pod(outputs@);
                    } else {
                        lemma_single_handle(outputs@);
                    }
                }
                let written = write_response(
                    system,
                    &mut server_ctx,
                    &outputs,
                    &mut self.objects,
                    &mut self.domain_tables,
                );
                proof {
                    if written is Ok && outputs@[0]@ is Pod && outputs@[0]@->Pod_align == Alignment::Four
                        && outputs@[0]@->Pod_bytes.len() == 4 {
                        lemma_single_word(outputs@, server_ctx.ctx.out_params.data@);
                        if rq_id == CONTROL_CONVERT_CURRENT_OBJECT_TO_DOMAIN {
                            let id = u32_from_le(server_ctx.ctx.out_params.data@);
                            let cell = holder_then.table_cell()->0;
                            assert(tables_then.live(cell));
                            assert(self.domain_tables.live(cell));
                            assert(self.domain_tables.value(cell) == tables_then.value(cell));
                            let stale = old(self).holders()[index as int].table_cell();
                            assert(table_renewed(stale, &old(self).tables(), &tables_then, cell));
                            let between = choose|between: SharedHeap<DomainTable>| #[trigger]
                                fresh_in(&between, &tables_then, cell) && between.gave_up(
                                    &old(self).tables(),
                                    stale,
                                );
                            assert(self.domain_tables.same_as(&tables_then));
                            assert(fresh_in(&between, &self.domain_tables, cell));
                            assert(converted(
                                old(self).holders()[index as int],
                                holder_then,
                                &old(self).tables(),
                                &self.domain_tables,
                                id,
                            ));
                        }
                    }
                }
                written
            },
        };
        let ghost finished = Moment { ctx: server_ctx, objects: self.objects, tables: self.domain_tables };
        let ServerContext { ctx, raw_data_walker, domain_table, new_sessions } = server_ctx;
        let response = match written {
            Ok(_) => Response::Control {
                command_type: CommandType::Control,
                result: Ok(()),
                out_params: ctx.out_params,
            },
            Err(rc) => Response::Control { command_type, result: Err(rc), out_params: CommandOut::empty() },
        };
        let ghost sent = response;
        proof {
            assert(control_starting(start, asked, old(self).serving()));
            assert(control_written(system, called, finished, answer, written));
        }
        let r = self.pick_up_clone(system, index, &hipc_manager, response);
        proof {
            let before = old(self).serving();
            assert(control_answered(
                system,
                rq_id,
                HipcManager {
                    pointer_buf_size: P,
                    cloned_object_server_handle: INVALID_HANDLE,
                    cloned_object_forward_handle: INVALID_HANDLE,
                },
                hipc_manager,
                before.holders[index as int],
                holder_then,
                &before.tables,
                &called.tables,
                &start.ctx,
                answer,
            ));
            assert(control_response(finished, command_type, written, sent));
            assert(clone_picked_up(
                system,
                hipc_manager,
                Serving {
                    holders: before.holders.update(index as int, holder_then),
                    objects: finished.objects,
                    tables: finished.tables,
                },
                index as int,
                self.serving(),
                sent,
                r,
            ));
            assert forall|j: int| 0 <= j < with_holder.len() implies #[trigger] self.holders()[j]
                == with_holder[j] by {
                if self.holders().len() > with_holder.len() {
                    assert(self.holders().subrange(0, with_holder.len() as int)[j] == self.holders()[j]);
                }
            }
        }
        r
    }

    /// Picks up the clone that a control command made, if it made one, as
    /// `clone_picked_up` says: its holder joins the holders, and `response`
    /// is the answer.
    fn pick_up_clone<Y: System>(
        &mut self,
        system: &Y,
        index: usize,
        hipc_manager: &HipcManager,
        response: Response,
    ) -> (r: Result<Response, ResultCode>)
        requires
            old(self).wf(),
            index < old(self).holders().len(),
        ensures
            final(self).wf(),
            clone_picked_up(
                system,
                *hipc_manager,
                old(self).serving(),
                index as int,
                final(self).serving(),
                response,
                r,
            ),
    {
        if hipc_manager.has_cloned_object() {
            let cloned_holder = match hipc_manager.clone_object(
                &self.server_holders[index],
                &mut self.objects,
                &mut self.domain_tables,
            ) {
                Ok(cloned_holder) => cloned_holder,
                Err(e) => {
                    return Err(e);
                },
            };
            let ghost then = self.serving();
            match self.push_holder(system, cloned_holder) {
                Ok(_) => {
                    assert(self.holders().subrange(0, old(self).holders().len() as int)
                        =~= old(self).holders());
                },
                Err(e) => {
                    assert(disposed(system, cloned_holder, then, self.serving()));
                    return Err(e);
                },
            }
        }
        Ok(response)
    }
}

impl<const P: usize> ServerManager<P> {
    /// Accepts the session that waits on the port at `index`, and serves it
    /// with a new object of the port's kind, as `accepted` says.
    fn accept<Y: System>(&mut self, system: &Y, index: usize) -> (r: Result<(), ResultCode>)
        requires
            old(self).wf(),
            index < old(self).holders().len(),
        ensures
            final(self).wf(),
            accepted(system, old(self).serving(), final(self).serving(), index as int, r),
    {
        if self.server_holders.len() >= MAX_OBJECT_COUNT {
            return Err(ResultCode::TooManyObjects);
        }
        let ghost before = self.serving();
        let port = self.server_holders[index].info.handle;
        let taken = system.accept_session(port);
        let new_handle = match taken {
            Ok(handle) => handle,
            Err(e) => {
                return Err(e);
            },
        };
        if self.server_holders[index].is_mitm_service {
            let service_name = self.server_holders[index].service_name;
            let acknowledged = system.atmosphere_acknowledge_mitm_session(service_name);
            let (info, forward_handle) = match acknowledged {
                Ok(who) => who,
                Err(e) => {
                    assert(intercepted(system, before, self.serving(), index as int, new_handle, Err::<
                        (),
                        ResultCode,
                    >(e)));
                    return Err(e);
                },
            };
            let holder = match self.server_holders[index].make_new_mitm_session(
                new_handle,
                forward_handle,
                info,
                &mut self.objects,
            ) {
                Ok(holder) => holder,
                Err(e) => {
                    assert(intercepted(system, before, self.serving(), index as int, new_handle, Err::<
                        (),
                        ResultCode,
                    >(e)));
                    return Err(e);
                },
            };
            let detached = system.detach_client();
            match detached {
                Ok(_) => {},
                Err(e) => {
                    self.dispose_holder(system, holder);
                    assert(detached_then_added(
                        system,
                        before,
                        self.serving(),
                        index as int,
                        new_handle,
                        forward_handle,
                        Err::<(), ResultCode>(e),
                    ));
                    assert(intercepted(system, before, self.serving(), index as int, new_handle, Err::<
                        (),
                        ResultCode,
                    >(e)));
                    return Err(e);
                },
            }
            self.server_holders.push(holder);
            proof {
                assert(self.server_holders@.subrange(0, before.holders.len() as int) =~= before.holders);
                assert(detached_then_added(
                    system,
                    before,
                    self.serving(),
                    index as int,
                    new_handle,
                    forward_handle,
                    Ok::<(), ResultCode>(()),
                ));
                assert(intercepted(system, before, self.serving(), index as int, new_handle, Ok::<
                    (),
                    ResultCode,
                >(())));
            }
            Ok(())
        } else {
            let holder = match self.server_holders[index].make_new_session(new_handle, &mut self.objects) {
                Ok(holder) => holder,
                Err(e) => {
                    return Err(e);
                },
            };
            self.server_holders.push(holder);
            proof {
                assert(self.server_holders@.subrange(0, before.holders.len() as int) =~= before.holders);
            }
            Ok(())
        }
    }

    /// Receives what the session at `index` was signaled for, and serves
    /// it: a request or a control command is dispatched and answered, a close
    /// is answered and the holder removed, a session that the peer closed
    /// loses its holder. What happens to the holders is `session_served` of
    /// what the system delivered on exactly this session.
    fn serve_session<Y: System>(&mut self, system: &Y, index: usize) -> (r: Result<(), ResultCode>)
        requires
            old(self).wf(),
            index < old(self).holders().len(),
        ensures
            final(self).wf(),
            exists|received: Result<Received, ResultCode>|
                #![trigger call_ensures(Y::receive, (system, old(self).holders()[index as int].info, P), received)]
                call_ensures(Y::receive, (system, old(self).holders()[index as int].info, P), received)
                    && session_served(old(self).holders(), final(self).holders(), index as int, received, r)
                    && session_handled(
                    system,
                    P,
                    old(self).serving(),
                    final(self).serving(),
                    index as int,
                    received,
                    r,
                ),
    {
        let server_info = self.server_holders[index].info;
        let handle = server_info.handle;
        let received = system.receive(server_info, P);
        let delivered = match received {
            Ok(delivered) => delivered,
            Err(rc) => {
                match rc {
                    ResultCode::KernelSessionClosed => {
                        self.remove_holder(system, index);
                        return Ok(());
                    },
                    _ => {
                        return Err(rc);
                    },
                }
            },
        };
        let Received { message, command_type, request_id, domain_command_type, domain_object_id, in_params } =
            delivered;
        match command_type {
            CommandType::Request | CommandType::RequestWithContext => {
                let ctx = CommandContext::new_server(addressed_object(server_info,
                    domain_object_id), in_params);
                let outcome = self.handle_request_command(
                    system,
                    index,
                    ctx,
                    request_id,
                    command_type,
                    domain_command_type,
                    &message,
                );
                let response = match outcome {
                    Ok(response) => response,
                    Err(e) => {
                        return Err(e);
                    },
                };
                send_reply(system, handle, &response)
            },
            CommandType::Control | CommandType::ControlWithContext => {
                let ctx = CommandContext::new_server(server_info, in_params);
                let outcome = self.handle_control_command(system, index, ctx, request_id, command_type);
                let response = match outcome {
                    Ok(response) => response,
                    Err(e) => {
                        return Err(e);
                    },
                };
                send_reply(system, handle, &response)
            },
            CommandType::Close => {
                match send_reply(system, handle, &Response::Close) {
                    Ok(_) => {},
                    Err(e) => {
                        return Err(e);
                    },
                }
                self.remove_holder(system, index);
                Ok(())
            },
            _ => Err(ResultCode::InvalidCommandType),
        }
    }

    /// Serves the handle that was signaled: the first holder on it. A port
    /// accepts the session that waits on it; a session is received from and
    /// served. Fails with `SignaledServerNotFound`, changing nothing, exactly
    /// when no holder is on the handle.
    pub fn process_signaled_handle<Y: System>(&mut self, system: &Y, handle: Handle) -> (r: Result<
        (),
        ResultCode,
    >)
        requires
            old(self).wf(),
        ensures
            final(self).wf(),
            none_on(old(self).holders(), handle) ==> final(self).objects() == old(self).objects()
                && final(self).tables() == old(self).tables(),
            signal_served::<Y>(system, P, old(self).serving(), final(self).serving(), handle, r),
    {
        let index = match self.find_holder(handle) {
            Some(index) => index,
            None => {
                assert forall|at: int| !first_on(old(self).holders(), handle, at) by {
                    if 0 <= at < old(self).holders().len() {
                        assert(old(self).holders()[at].info.handle != handle);
                    }
                }
                return Err(ResultCode::SignaledServerNotFound);
            },
        };
        assert forall|at: int| first_on(old(self).holders(), handle, at) implies at == index by {
            if at < index {
                assert(old(self).holders()[at].info.handle != handle);
            }
            if index < at {
                assert(old(self).holders()[index as int].info.handle != handle);
            }
        }
        match self.server_holders[index].handle_type {
            WaitHandleType::Session => self.serve_session(system, index),
            WaitHandleType::Server => self.accept(system, index),
        }
    }

    /// One round of serving, as `round_served` says: waits on every
    /// handle, then serves the one that was signaled.
    pub fn process<Y: System>(&mut self, system: &Y) -> (r: Result<(), ResultCode>)
        requires
            old(self).wf(),
        ensures
            final(self).wf(),
            round_served(system, P, old(self).serving(), final(self).serving(), r),
    {
        let handles = self.prepare_wait_handles();
        let waited = system.wait_handles(&handles);
        let index = match waited {
            Ok(index) => index,
            Err(e) => {
                return Err(e);
            },
        };
        if index >= handles.len() {
            return Err(ResultCode::SignaledServerNotFound);
        }
        let signaled_handle = handles[index];
        self.process_signaled_handle(system, signaled_handle)
    }

    /// Serves round after round, for at most `rounds` rounds, as `looped`
    /// says. Stops with `Ok(true)` as soon as a wait is cancelled, and with
    /// the failure of the first round that fails otherwise; `Ok(false)` says
    /// that the rounds are used up and serving can go on.
    pub fn loop_process<Y: System>(&mut self, system: &Y, rounds: u64) -> (r: Result<bool, ResultCode>)
        requires
            old(self).wf(),
        ensures
            final(self).wf(),
            looped(system, P, old(self).serving(), final(self).serving(), rounds, r),
            rounds == 0 ==> r == Ok::<bool, ResultCode>(false)
                && final(self).serving() == old(self).serving(),
            r matches Err(e) ==> e != ResultCode::KernelCancelled,
    {
        let mut left: u64 = rounds;
        let ghost start = self.serving();
        while left > 0
            invariant
                self.wf(),
                left <= rounds,
                start == old(self).serving(),
                rounds_served(system, P, start, self.serving(), rounds - left),
            decreases left,
        {
            let ghost mid = self.serving();
            let round = self.process(system);
            match loop_step(round) {
                LoopStep::Continue => {
                    proof {
                        assert(round_served(system, P, mid, self.serving(), Ok::<(), ResultCode>(())));
                    }
                },
                LoopStep::Stop => {
                    return Ok(true);
                },
                LoopStep::Fail { result } => {
                    return Err(result);
                },
            }
            left -= 1;
        }
        Ok(false)
    }
}

} // verus!
