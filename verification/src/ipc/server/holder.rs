//! Holders: one served port or session each, with what it needs to make,
//! clone, forward and close sessions.

use vstd::prelude::*;
use core::marker::PhantomData;
use std::rc::Rc;
use crate::ipc::{DomainObjectId, Handle, ObjectInfo};
use crate::ipc::server::domain::DomainTable;
use crate::ipc::sf::{ISessionObject, MitmProcessInfo, ServiceName, SessionObject};
use crate::ipc::system::System;
use crate::mem::{CellId, Shared, SharedHeap};
use crate::result::ResultCode;

verus! {

/// A session object that a port makes for each session it accepts.
pub trait IServerObject: ISessionObject {
    fn new() -> Self where Self: Sized;
}

/// A session object that a MITM port makes for each session it intercepts.
pub trait IMitmServerObject: ISessionObject {
    fn new(info: MitmProcessInfo) -> Self where Self: Sized;
}

/// A server object reached through a port that the kernel names.
pub trait INamedPort: IServerObject {
    fn get_port_name() -> &'static str;

    fn get_max_sesssions() -> i32;
}

/// A server object reached through a service that the service manager names.
pub trait IService: IServerObject {
    fn get_name() -> ServiceName;

    fn get_max_sesssions() -> i32;
}

/// A server object that intercepts the sessions of another service.
pub trait IMitmService: IMitmServerObject {
    fn get_name() -> ServiceName;

    /// Whether sessions opened by this process are to be intercepted.
    fn should_mitm(info: MitmProcessInfo) -> bool;
}

/// Makes the object behind a newly accepted session.
pub trait ServerObjectFactory {
    fn create(&self) -> SessionObject;
}

/// Makes the object behind a newly intercepted session.
pub trait MitmServerObjectFactory {
    fn create(&self, info: MitmProcessInfo) -> SessionObject;
}

/// The factory of the objects of type `S`.
pub struct ServerObjectMaker<S> {
    marker: PhantomData<S>,
}

impl<S: IServerObject + 'static> ServerObjectFactory for ServerObjectMaker<S> {
    fn create(&self) -> (r: SessionObject)
        ensures
            made::<S>(r),
    {
        create_server_object_impl::<S>()
    }
}

/// The factory of the MITM objects of type `S`.
pub struct MitmServerObjectMaker<S> {
    marker: PhantomData<S>,
}

impl<S: IMitmServerObject + 'static> MitmServerObjectFactory for MitmServerObjectMaker<S> {
    fn create(&self, info: MitmProcessInfo) -> (r: SessionObject)
        ensures
            made_for::<S>(info, r),
    {
        create_mitm_server_object_impl::<S>(info)
    }
}

/// The factory that a port keeps for the objects of its sessions.
pub type NewServerFn = Rc<Box<dyn ServerObjectFactory>>;

/// The factory that a MITM port keeps for the objects of its sessions.
pub type NewMitmServerFn = Rc<Box<dyn MitmServerObjectFactory>>;

/// Whether `r` keeps an object that `S` made for a new session: whatever
/// `S` makes, that object and no other is the one served.
pub open spec fn made<S: IServerObject + 'static>(r: SessionObject) -> bool {
    exists|object: S|
        #[trigger] call_ensures(S::new, (), object) && r == SessionObject::keeping(object)
}

/// Whether `r` keeps an object that `S` made for a session intercepted
/// from the process described by `info`.
pub open spec fn made_for<S: IMitmServerObject + 'static>(
    info: MitmProcessInfo,
    r: SessionObject,
) -> bool {
    exists|object: S|
        #[trigger] call_ensures(S::new, (info,), object) && r == SessionObject::keeping(object)
}

/// Makes a new object of type `S` for a session that a port accepted.
pub fn create_server_object_impl<S: IServerObject + 'static>() -> (r: SessionObject)
    ensures
        made::<S>(r),
{
    SessionObject::new(S::new())
}

/// Makes a new object of type `S` for a session that a MITM port
/// intercepted from the process described by `info`.
pub fn create_mitm_server_object_impl<S: IMitmServerObject + 'static>(
    info: MitmProcessInfo,
) -> (r: SessionObject)
    ensures
        made_for::<S>(info, r),
{
    SessionObject::new(S::new(info))
}

/// What a waited-on handle is: a port that accepts sessions, or a session.
#[derive(Clone, Copy, PartialEq, Eq, Structural, Debug)]
pub enum WaitHandleType {
    Server,
    Session,
}

/// One served port or session: its object, its handle, and what it needs
/// to make, clone or forward sessions.
pub struct ServerHolder {
    pub server: Option<Shared<SessionObject>>,
    pub info: ObjectInfo,
    pub new_server_fn: Option<NewServerFn>,
    pub new_mitm_server_fn: Option<NewMitmServerFn>,
    pub handle_type: WaitHandleType,
    pub mitm_forward_info: ObjectInfo,
    pub is_mitm_service: bool,
    pub service_name: ServiceName,
    pub domain_table: Option<Shared<DomainTable>>,
}

impl ServerHolder {
    /// The allocation that holds this holder's object, if it has one.
    pub open spec fn server_cell(&self) -> Option<CellId> {
        match self.server {
            Some(shared) => shared.cell(),
            None => None,
        }
    }

    /// The allocation that holds this holder's domain table, if it has one.
    pub open spec fn table_cell(&self) -> Option<CellId> {
        match self.domain_table {
            Some(shared) => shared.cell(),
            None => None,
        }
    }

    /// The allocation that holds this holder's object, if it has one.
    pub fn get_server_cell(&self) -> (r: Option<CellId>)
        ensures
            r == self.server_cell(),
    {
        match &self.server {
            Some(shared) => shared.id(),
            None => None,
        }
    }

    /// The allocation that holds this holder's domain table, if it has one.
    pub fn get_table_cell(&self) -> (r: Option<CellId>)
        ensures
            r == self.table_cell(),
    {
        match &self.domain_table {
            Some(shared) => shared.id(),
            None => None,
        }
    }
}

/// Whether the allocation `id` came into being between `before` and
/// `after`, with one owner, and nothing else changed.
pub open spec fn fresh_in<T>(before: &SharedHeap<T>, after: &SharedHeap<T>, id: CellId) -> bool {
    &&& !before.live(id)
    &&& after.live(id)
    &&& after.count(id) == 1
    &&& after.same_except(before, id)
}

/// Whether `cloned` is a second holder of the object and the table of
/// `holder`, under `handle` and forwarding to `forward_handle`: a session
/// with handles of its own on both, where they can be shared, and on
/// nothing where they cannot. It is a MITM session exactly when it has
/// somewhere to forward to. The object and the table have one owner more
/// each; nothing else changed.
pub open spec fn clone_of(
    holder: ServerHolder,
    cloned: ServerHolder,
    handle: Handle,
    forward_handle: Handle,
    objects_before: &SharedHeap<SessionObject>,
    objects_after: &SharedHeap<SessionObject>,
    tables_before: &SharedHeap<DomainTable>,
    tables_after: &SharedHeap<DomainTable>,
) -> bool {
    &&& cloned.server_cell() == duplicate_of(objects_before, holder.server_cell())
    &&& cloned.table_cell() == duplicate_of(tables_before, holder.table_cell())
    &&& cloned.info == (ObjectInfo { handle, ..holder.info })
    &&& cloned.mitm_forward_info == (ObjectInfo { handle: forward_handle, ..holder.mitm_forward_info })
    &&& cloned.handle_type == WaitHandleType::Session
    &&& cloned.is_mitm_service == (forward_handle != 0)
    &&& cloned.service_name.is_empty()
    &&& cloned.new_server_fn == holder.new_server_fn
    &&& cloned.new_mitm_server_fn == holder.new_mitm_server_fn
    &&& objects_after.took_on(objects_before, holder.server_cell())
    &&& tables_after.took_on(tables_before, holder.table_cell())
}

/// Whether `made` is the holder of a session that `port` accepted on
/// `handle`: a session that keeps a new object in a cell of its own, has no
/// name and no domain table, forwards to `forward`, and has the port's
/// factories and the port's kind. No other object changed.
pub open spec fn session_of(
    port: ServerHolder,
    made: ServerHolder,
    handle: Handle,
    forward: ObjectInfo,
    objects_before: &SharedHeap<SessionObject>,
    objects_after: &SharedHeap<SessionObject>,
) -> bool {
    &&& made.server_cell() matches Some(cell) && fresh_in(objects_before, objects_after, cell)
    &&& made.info == ObjectInfo::session(handle)
    &&& made.handle_type == WaitHandleType::Session
    &&& made.mitm_forward_info == forward
    &&& made.domain_table is None
    &&& made.new_server_fn == port.new_server_fn
    &&& made.new_mitm_server_fn == port.new_mitm_server_fn
    &&& made.is_mitm_service == port.is_mitm_service
    &&& made.service_name.is_empty()
}

/// What a handle on `cell` becomes when it is duplicated in `heap`.
pub open spec fn duplicate_of<T>(heap: &SharedHeap<T>, cell: Option<CellId>) -> Option<CellId> {
    if heap.can_share(cell) {
        cell
    } else {
        None
    }
}

/// The handle closed where the holder owns it: `r` is what the kernel
/// answered, or success where there was nothing to close. Where that
/// succeeded, the session that the holder forwards to was closed after it.
pub open spec fn handle_closed_by<Y: System>(
    system: &Y,
    holder: ServerHolder,
    r: Result<(), ResultCode>,
) -> bool {
    &&& if holder.info.owns_handle {
        call_ensures(Y::close_handle, (system, holder.info.handle), r)
    } else {
        r is Ok
    }
    &&& r is Ok ==> call_ensures(Y::close_session, (system, holder.mitm_forward_info), ())
}

/// The client detached from the service manager, then the handle closed.
pub open spec fn detached_and_closed_by<Y: System>(
    system: &Y,
    holder: ServerHolder,
    r: Result<(), ResultCode>,
) -> bool {
    exists|detached: Result<(), ResultCode>|
        #![trigger call_ensures(Y::detach_client, (system,), detached)]
        call_ensures(Y::detach_client, (system,), detached) && match detached {
            Err(e) => r == Err::<(), ResultCode>(e),
            Ok(_) => handle_closed_by(system, holder, r),
        }
}

/// The service's name given back to the service manager: uninstalled for
/// a MITM, unregistered otherwise; `gone` is what the manager answered.
pub open spec fn name_given_back<Y: System>(
    system: &Y,
    holder: ServerHolder,
    gone: Result<(), ResultCode>,
) -> bool {
    if holder.is_mitm_service {
        call_ensures(Y::atmosphere_uninstall_mitm, (system, holder.service_name), gone)
    } else {
        call_ensures(Y::unregister_service, (system, holder.service_name), gone)
    }
}

/// What closing `holder` does, step by step, each step taken only where
/// the one before succeeded: a named service gives its name back and
/// detaches from the service manager; a holder that owns its handle closes
/// it; `r` is the first failure, or success.
pub open spec fn closed_by<Y: System>(system: &Y, holder: ServerHolder, r: Result<(), ResultCode>) -> bool {
    if holder.service_name.is_empty() {
        handle_closed_by(system, holder, r)
    } else {
        exists|gone: Result<(), ResultCode>| #[trigger]
            name_given_back(system, holder, gone) && match gone {
                Err(e) => r == Err::<(), ResultCode>(e),
                Ok(_) => detached_and_closed_by(system, holder, r),
            }
    }
}

/// What giving a holder a new table did to the arena of tables: the
/// handle on the table that the holder had, if any, was given up; then
/// the table in `cell` came into being, with the holder as its one owner.
/// No other table changed.
pub open spec fn table_renewed(
    stale: Option<CellId>,
    tables_before: &SharedHeap<DomainTable>,
    tables_after: &SharedHeap<DomainTable>,
    cell: CellId,
) -> bool {
    exists|between: SharedHeap<DomainTable>| #[trigger]
        fresh_in(&between, tables_after, cell) && between.gave_up(tables_before, stale)
}

/// What `convert_to_domain` leaves of a holder that was no domain, where
/// the name `id` was settled on: the holder is the base object `id` of a
/// new domain whose table holds that one name and no holder. But for its
/// name, its table, and the session it forwards to, the holder is as it was.
pub open spec fn converted(
    before: ServerHolder,
    after: ServerHolder,
    tables_before: &SharedHeap<DomainTable>,
    tables_after: &SharedHeap<DomainTable>,
    id: DomainObjectId,
) -> bool {
    &&& after == (ServerHolder {
        info: ObjectInfo { domain_object_id: id, ..before.info },
        mitm_forward_info: after.mitm_forward_info,
        domain_table: after.domain_table,
        ..before
    })
    &&& after.table_cell() matches Some(cell) && {
        &&& table_renewed(before.table_cell(), tables_before, tables_after, cell)
        &&& tables_after.value(cell).table@ == seq![id]
        &&& tables_after.value(cell).domains@.len() == 0
    }
}

/// What `convert_to_domain` leaves of a MITM holder where the service
/// behind it refused: the holder is no domain, and has a new table that
/// holds no name and no holder. But for its table it is as it was.
pub open spec fn left_unconverted(
    before: ServerHolder,
    after: ServerHolder,
    tables_before: &SharedHeap<DomainTable>,
    tables_after: &SharedHeap<DomainTable>,
) -> bool {
    &&& after == (ServerHolder { domain_table: after.domain_table, ..before })
    &&& after.table_cell() matches Some(cell) && {
        &&& table_renewed(before.table_cell(), tables_before, tables_after, cell)
        &&& tables_after.value(cell).table@.len() == 0
        &&& tables_after.value(cell).domains@.len() == 0
    }
}

/// What converting a session to a domain did.
///
/// A session that is a domain already fails with `AlreadyDomain`, and
/// nothing changed. A MITM session first had the service behind it
/// converted: where that failed, it is the failure, and the session is
/// `left_unconverted`; else the session took the name that service gave,
/// for itself and for the session it forwards to. Any other session took
/// the name 1. A session that took a name is `converted` under it.
pub open spec fn domain_converted<Y: System>(
    system: &Y,
    before: ServerHolder,
    after: ServerHolder,
    tables_before: &SharedHeap<DomainTable>,
    tables_after: &SharedHeap<DomainTable>,
    r: Result<DomainObjectId, ResultCode>,
) -> bool {
    if before.info.is_domain() {
        r == Err::<DomainObjectId, ResultCode>(ResultCode::AlreadyDomain) && after == before
            && tables_after.same_as(tables_before)
    } else if !before.is_mitm_service {
        r == Ok::<DomainObjectId, ResultCode>(1) && converted(before, after, tables_before, tables_after, 1)
            && after.mitm_forward_info == before.mitm_forward_info
    } else {
        exists|upstream: Result<DomainObjectId, ResultCode>|
            #![trigger call_ensures(Y::convert_current_object_to_domain, (system, before.mitm_forward_info), upstream)]
            call_ensures(Y::convert_current_object_to_domain, (system, before.mitm_forward_info), upstream)
                && match upstream {
                Ok(id) => r == Ok::<DomainObjectId, ResultCode>(id) && converted(
                    before,
                    after,
                    tables_before,
                    tables_after,
                    id,
                ) && after.mitm_forward_info == (ObjectInfo { domain_object_id: id,
                    ..before.mitm_forward_info }),
                Err(e) => r == Err::<DomainObjectId, ResultCode>(e) && left_unconverted(
                    before,
                    after,
                    tables_before,
                    tables_after,
                ),
            }
    }
}

/// How many of `holders` keep their object in the allocation `id`.
pub open spec fn held_in(holders: Seq<ServerHolder>, id: CellId) -> nat
    decreases holders.len(),
{
    if holders.len() == 0 {
        0
    } else {
        held_in(holders.drop_last(), id) + if holders.last().server_cell() == Some(id) {
            1nat
        } else {
            0nat
        }
    }
}

/// How many handles on the allocation `id` go when a holder that keeps
/// its object in `own` goes together with the holders `bound` in its table.
pub open spec fn given_up(own: Option<CellId>, bound: Seq<ServerHolder>, id: CellId) -> nat {
    held_in(bound, id) + if own == Some(id) {
        1nat
    } else {
        0nat
    }
}

/// The holders that go with `holder`: those bound in its domain table,
/// where `holder` has the last handle on that table; else none.
pub open spec fn goes_with(holder: ServerHolder, tables: &SharedHeap<DomainTable>) -> Seq<ServerHolder> {
    match holder.table_cell() {
        Some(cell) => if tables.count(cell) == 1 {
            tables.value(cell).domains@
        } else {
            Seq::empty()
        },
        None => Seq::empty(),
    }
}

/// Whether the allocation `id` lost `n` owners between `before` and
/// `after`: it is gone where it had no more than that, and else holds the
/// object it held.
pub open spec fn lost_owners(
    before: &SharedHeap<SessionObject>,
    after: &SharedHeap<SessionObject>,
    id: CellId,
    n: int,
) -> bool {
    &&& after.live(id) == (before.count(id) > n)
    &&& after.count(id) == if before.count(id) > n {
        before.count(id) - n
    } else {
        0
    }
    &&& (after.live(id) ==> after.value(id) == before.value(id))
}

/// What giving up the object and the table of `holder` did to the two
/// arenas. The holder's handle on its table was given up. Every object
/// lost as many owners as went: the holder's own handle, and one for each
/// holder that went with it; an object that lost its last owner is gone,
/// and nothing else changed.
pub open spec fn released(
    holder: ServerHolder,
    objects_before: &SharedHeap<SessionObject>,
    objects_after: &SharedHeap<SessionObject>,
    tables_before: &SharedHeap<DomainTable>,
    tables_after: &SharedHeap<DomainTable>,
) -> bool {
    &&& tables_after.gave_up(tables_before, holder.table_cell())
    &&& forall|o: CellId|
        #![trigger objects_after.live(o)]
        lost_owners(
            objects_before,
            objects_after,
            o,
            given_up(holder.server_cell(), goes_with(holder, tables_before), o) as int,
        )
}

impl ServerHolder {
    /// A holder with these parts and nothing else.
    pub open spec fn is_plain(
        &self,
        server: Option<CellId>,
        info: ObjectInfo,
        handle_type: WaitHandleType,
    ) -> bool {
        &&& self.server_cell() == server
        &&& self.info == info
        &&& self.handle_type == handle_type
        &&& self.mitm_forward_info == ObjectInfo::none()
        &&& self.domain_table is None
    }

    /// A session that serves the object in `server` as `info`, and is
    /// nothing else: it has no factory, no name, no table, and forwards to
    /// nothing.
    pub open spec fn is_session(&self, server: Option<CellId>, info: ObjectInfo) -> bool {
        &&& self.is_plain(server, info, WaitHandleType::Session)
        &&& self.new_server_fn is None
        &&& self.new_mitm_server_fn is None
        &&& !self.is_mitm_service
        &&& self.service_name.is_empty()
    }

    /// A port on `handle` under `service_name`, and nothing else: it has
    /// no object and no table, and the one factory of its kind, for MITM
    /// objects exactly when it is a MITM port.
    pub open spec fn is_port(&self, handle: Handle, service_name: ServiceName, is_mitm: bool) -> bool {
        &&& self.is_plain(None, ObjectInfo::session(handle), WaitHandleType::Server)
        &&& self.service_name == service_name
        &&& self.is_mitm_service == is_mitm
        &&& (self.new_server_fn is Some) == !is_mitm
        &&& (self.new_mitm_server_fn is Some) == is_mitm
    }

    /// The holder of a session on `handle` that serves `object`.
    pub fn new_session(handle: Handle, object: Shared<SessionObject>) -> (r: Self)
        ensures
            r.is_session(object.cell(), ObjectInfo::session(handle)),
            r.server == Some(object),
    {
        Self {
            server: Some(object),
            info: ObjectInfo::from_handle(handle),
            new_server_fn: None,
            new_mitm_server_fn: None,
            handle_type: WaitHandleType::Session,
            mitm_forward_info: ObjectInfo::new(),
            is_mitm_service: false,
            service_name: ServiceName::empty(),
            domain_table: None,
        }
    }

    /// The holder of the object `domain_object_id` of the domain on `handle`.
    pub fn new_domain_session(
        handle: Handle,
        domain_object_id: DomainObjectId,
        object: Shared<SessionObject>,
    ) -> (r: Self)
        ensures
            r.is_session(object.cell(), ObjectInfo::domain_object(handle, domain_object_id)),
            r.server == Some(object),
    {
        Self {
            server: Some(object),
            info: ObjectInfo::from_domain_object_id(handle, domain_object_id),
            new_server_fn: None,
            new_mitm_server_fn: None,
            handle_type: WaitHandleType::Session,
            mitm_forward_info: ObjectInfo::new(),
            is_mitm_service: false,
            service_name: ServiceName::empty(),
            domain_table: None,
        }
    }

    /// The holder of a port on `handle` whose sessions are served by objects of type `S`.
    pub fn new_server<S: IServerObject + 'static>(handle: Handle, service_name: ServiceName) -> (r: Self)
        ensures
            r.is_port(handle, service_name, false),
    {
        let factory: Box<dyn ServerObjectFactory> = Box::new(ServerObjectMaker::<S> { marker: PhantomData });
        Self {
            server: None,
            info: ObjectInfo::from_handle(handle),
            new_server_fn: Some(Rc::new(factory)),
            new_mitm_server_fn: None,
            handle_type: WaitHandleType::Server,
            mitm_forward_info: ObjectInfo::new(),
            is_mitm_service: false,
            service_name,
            domain_table: None,
        }
    }

    /// The holder of a MITM port on `handle` whose sessions are served by objects of type `S`.
    pub fn new_mitm_server<S: IMitmServerObject + 'static>(handle: Handle, service_name: ServiceName) -> (r:
        Self)
        ensures
            r.is_port(handle, service_name, true),
    {
        let factory: Box<dyn MitmServerObjectFactory> = Box::new(
            MitmServerObjectMaker::<S> { marker: PhantomData },
        );
        Self {
            server: None,
            info: ObjectInfo::from_handle(handle),
            new_server_fn: None,
            new_mitm_server_fn: Some(Rc::new(factory)),
            handle_type: WaitHandleType::Server,
            mitm_forward_info: ObjectInfo::new(),
            is_mitm_service: true,
            service_name,
            domain_table: None,
        }
    }

    /// The factory of this port's session objects. Fails with
    /// `SessionClosed` exactly when the holder has none.
    pub fn get_new_server_fn(&self) -> (r: Result<NewServerFn, ResultCode>)
        ensures
            match self.new_server_fn {
                Some(f) => r == Ok::<NewServerFn, ResultCode>(f),
                None => r == Err::<NewServerFn, ResultCode>(ResultCode::SessionClosed),
            },
    {
        match &self.new_server_fn {
            Some(new_server_fn) => Ok(new_server_fn.clone()),
            None => Err(ResultCode::SessionClosed),
        }
    }

    /// The factory of this MITM port's session objects. Fails with
    /// `SessionClosed` exactly when the holder has none.
    pub fn get_new_mitm_server_fn(&self) -> (r: Result<NewMitmServerFn, ResultCode>)
        ensures
            match self.new_mitm_server_fn {
                Some(f) => r == Ok::<NewMitmServerFn, ResultCode>(f),
                None => r == Err::<NewMitmServerFn, ResultCode>(ResultCode::SessionClosed),
            },
    {
        match &self.new_mitm_server_fn {
            Some(new_mitm_server_fn) => Ok(new_mitm_server_fn.clone()),
            None => Err(ResultCode::SessionClosed),
        }
    }

    fn clone_new_mitm_server_fn(&self) -> (r: Option<NewMitmServerFn>)
        ensures
            r == self.new_mitm_server_fn,
    {
        match &self.new_mitm_server_fn {
            Some(f) => Some(f.clone()),
            None => None,
        }
    }

    fn clone_new_server_fn(&self) -> (r: Option<NewServerFn>)
        ensures
            r == self.new_server_fn,
    {
        match &self.new_server_fn {
            Some(f) => Some(f.clone()),
            None => None,
        }
    }

    /// The holder of a session that this port accepted on `handle`, with a
    /// new object from the port's factory. Fails with `SessionClosed`,
    /// making nothing, exactly when the holder has no factory.
    pub fn make_new_session(&self, handle: Handle, objects: &mut SharedHeap<SessionObject>) -> (r: Result<
        Self,
        ResultCode,
    >)
        requires
            old(objects).wf(),
        ensures
            final(objects).wf(),
            match r {
                Ok(made) => self.new_server_fn is Some && session_of(
                    *self,
                    made,
                    handle,
                    ObjectInfo::none(),
                    old(objects),
                    final(objects),
                ),
                Err(e) => e == ResultCode::SessionClosed && self.new_server_fn is None
                    && *final(objects) == *old(objects),
            },
    {
        let new_fn = match self.get_new_server_fn() {
            Ok(new_fn) => new_fn,
            Err(e) => {
                return Err(e);
            },
        };
        let object = new_fn.create();
        let server = Shared::new(objects, object);
        Ok(
            Self {
                server: Some(server),
                info: ObjectInfo::from_handle(handle),
                new_server_fn: self.clone_new_server_fn(),
                new_mitm_server_fn: self.clone_new_mitm_server_fn(),
                handle_type: WaitHandleType::Session,
                mitm_forward_info: ObjectInfo::new(),
                is_mitm_service: self.is_mitm_service,
                service_name: ServiceName::empty(),
                domain_table: None,
            },
        )
    }

    /// The holder of a session that this MITM port intercepted on
    /// `handle`, with a new object made for the process described by `info`,
    /// and `forward_handle` as the session to the service it was meant for.
    /// Fails with `SessionClosed`, making nothing, exactly when the holder
    /// has no MITM factory.
    pub fn make_new_mitm_session(
        &self,
        handle: Handle,
        forward_handle: Handle,
        info: MitmProcessInfo,
        objects: &mut SharedHeap<SessionObject>,
    ) -> (r: Result<Self, ResultCode>)
        requires
            old(objects).wf(),
        ensures
            final(objects).wf(),
            match r {
                Ok(made) => self.new_mitm_server_fn is Some && session_of(
                    *self,
                    made,
                    handle,
                    ObjectInfo::session(forward_handle),
                    old(objects),
                    final(objects),
                ),
                Err(e) => e == ResultCode::SessionClosed && self.new_mitm_server_fn is None
                    && *final(objects) == *old(objects),
            },
    {
        let new_mitm_fn = match self.get_new_mitm_server_fn() {
            Ok(new_mitm_fn) => new_mitm_fn,
            Err(e) => {
                return Err(e);
            },
        };
        let object = new_mitm_fn.create(info);
        let server = Shared::new(objects, object);
        Ok(
            Self {
                server: Some(server),
                info: ObjectInfo::from_handle(handle),
                new_server_fn: self.clone_new_server_fn(),
                new_mitm_server_fn: self.clone_new_mitm_server_fn(),
                handle_type: WaitHandleType::Session,
                mitm_forward_info: ObjectInfo::from_handle(forward_handle),
                is_mitm_service: self.is_mitm_service,
                service_name: ServiceName::empty(),
                domain_table: None,
            },
        )
    }

    /// A second holder of the same object and the same domain table, under
    /// `handle`, forwarding to `forward_handle`. It is a MITM session exactly
    /// when it has somewhere to forward to.
    pub fn clone_self(
        &self,
        handle: Handle,
        forward_handle: Handle,
        objects: &mut SharedHeap<SessionObject>,
        tables: &mut SharedHeap<DomainTable>,
    ) -> (r: Result<Self, ResultCode>)
        requires
            old(objects).wf(),
            old(tables).wf(),
        ensures
            final(objects).wf(),
            final(tables).wf(),
            r matches Ok(cloned) && clone_of(
                *self,
                cloned,
                handle,
                forward_handle,
                old(objects),
                final(objects),
                old(tables),
                final(tables),
            ),
    {
        let mut object_info = self.info;
        object_info.handle = handle;
        let mut mitm_fwd_info = self.mitm_forward_info;
        mitm_fwd_info.handle = forward_handle;
        let server = match &self.server {
            Some(shared) => {
                let copy = shared.copy(objects);
                if copy.id().is_some() {
                    Some(copy)
                } else {
                    None
                }
            },
            None => None,
        };
        let domain_table = match &self.domain_table {
            Some(shared) => {
                let copy = shared.copy(tables);
                if copy.id().is_some() {
                    Some(copy)
                } else {
                    None
                }
            },
            None => None,
        };
        Ok(
            Self {
                server,
                info: object_info,
                new_server_fn: self.clone_new_server_fn(),
                new_mitm_server_fn: self.clone_new_mitm_server_fn(),
                handle_type: WaitHandleType::Session,
                mitm_forward_info: mitm_fwd_info,
                is_mitm_service: forward_handle != 0,
                service_name: ServiceName::empty(),
                domain_table,
            },
        )
    }

    /// Makes this session the base object of a new domain and returns the
    /// name it has there, as `domain_converted` says.
    pub fn convert_to_domain<Y: System>(&mut self, system: &Y, tables: &mut SharedHeap<DomainTable>) -> (r:
        Result<DomainObjectId, ResultCode>)
        requires
            old(tables).wf(),
        ensures
            final(tables).wf(),
            domain_converted(system, *old(self), *final(self), old(tables), final(tables), r),
    {
        if self.info.is_domain() {
            return Err(ResultCode::AlreadyDomain);
        }
        match self.domain_table.take() {
            Some(mut stale) => {
                stale.reset(tables);
            },
            None => {},
        }
        let ghost between = *tables;
        assert(between.gave_up(old(tables), old(self).table_cell()));
        let mut table = DomainTable::new();
        if self.is_mitm_service {
            let forward_object_id = match system.convert_current_object_to_domain(self.mitm_forward_info) {
                Ok(id) => id,
                Err(e) => {
                    self.domain_table = Some(Shared::new(tables, table));
                    assert(fresh_in(&between, tables, self.table_cell()->0));
                    return Err(e);
                },
            };
            self.mitm_forward_info.domain_object_id = forward_object_id;
            let _ = table.allocate_specific_id(forward_object_id);
            assert(table.table@ =~= seq![forward_object_id]);
            self.domain_table = Some(Shared::new(tables, table));
            self.info.domain_object_id = forward_object_id;
            assert(fresh_in(&between, tables, self.table_cell()->0));
            Ok(forward_object_id)
        } else {
            let ghost none = table.ids();
            assert(!none.contains(1));
            let domain_object_id = match table.allocate_id() {
                Ok(id) => id,
                Err(e) => {
                    self.domain_table = Some(Shared::new(tables, table));
                    return Err(e);
                },
            };
            assert(domain_object_id == 1);
            assert(table.table@ =~= seq![domain_object_id]);
            self.domain_table = Some(Shared::new(tables, table));
            self.info.domain_object_id = domain_object_id;
            assert(fresh_in(&between, tables, self.table_cell()->0));
            Ok(domain_object_id)
        }
    }

    /// Gives back to the system what this holder took from it: a named
    /// service's name, a handle it owns, and the session it forwards to.
    /// The steps and the result are those of `closed_by`.
    pub fn close<Y: System>(&mut self, system: &Y) -> (r: Result<(), ResultCode>)
        ensures
            *final(self) == *old(self),
            closed_by(system, *old(self), r),
    {
        if !self.service_name.is_empty() {
            let gone = if self.is_mitm_service {
                system.atmosphere_uninstall_mitm(self.service_name)
            } else {
                system.unregister_service(self.service_name)
            };
            assert(name_given_back(system, *self, gone));
            match gone {
                Ok(_) => {},
                Err(e) => {
                    return Err(e);
                },
            }
            let detached = system.detach_client();
            match detached {
                Ok(_) => {},
                Err(e) => {
                    assert(detached_and_closed_by(system, *self, Err::<(), ResultCode>(e)));
                    return Err(e);
                },
            }
            let r = self.close_handles(system);
            assert(detached_and_closed_by(system, *self, r));
            r
        } else {
            self.close_handles(system)
        }
    }

    /// Closes the handle where the holder owns it, then the session it forwards to.
    fn close_handles<Y: System>(&self, system: &Y) -> (r: Result<(), ResultCode>)
        ensures
            handle_closed_by(system, *self, r),
    {
        if self.info.owns_handle {
            let closed = system.close_handle(self.info.handle);
            match closed {
                Ok(_) => {},
                Err(e) => {
                    return closed;
                },
            }
            system.close_session(self.mitm_forward_info);
            closed
        } else {
            system.close_session(self.mitm_forward_info);
            Ok(())
        }
    }

    /// Gives up this holder's object and its domain table, as `released`
    /// says. Where the table goes with its last handle, the objects of the
    /// holders bound in it are given up too.
    pub fn release(self, objects: &mut SharedHeap<SessionObject>, tables: &mut SharedHeap<DomainTable>)
        requires
            old(objects).wf(),
            old(tables).wf(),
        ensures
            final(objects).wf(),
            final(tables).wf(),
            released(self, old(objects), final(objects), old(tables), final(tables)),
    {
        let mut holder = self;
        match holder.server.take() {
            Some(mut server) => {
                server.reset(objects);
            },
            None => {},
        }
        let ghost own = self.server_cell();
        let ghost then = *objects;
        let freed = match holder.domain_table.take() {
            Some(mut table) => table.take(tables),
            None => None,
        };
        let ghost bound = goes_with(self, old(tables));
        match freed {
            Some(table) => {
                Self::release_servers(table.domains, objects);
            },
            None => {
                proof {
                    then.lemma_counts();
                }
            },
        }
        proof {
            old(objects).lemma_counts();
            then.lemma_counts();
            assert(then.gave_up(old(objects), own));
            assert forall|o: CellId|
                #![trigger objects.live(o)]
                lost_owners(old(objects), objects, o, given_up(own, bound, o) as int) by {
                assert(lost_owners(&then, objects, o, held_in(bound, o) as int));
                if own != Some(o) {
                    assert(then.live(o) == old(objects).live(o));
                }
            }
        }
    }

    /// Gives up the objects of `holders`, last first: every object loses
    /// as many owners as there are holders that keep it, and is gone where
    /// it had no more than that. Nothing else changes.
    pub fn release_servers(holders: Vec<ServerHolder>, objects: &mut SharedHeap<SessionObject>)
        requires
            old(objects).wf(),
        ensures
            final(objects).wf(),
            forall|o: CellId|
                #![trigger final(objects).live(o)]
                lost_owners(old(objects), final(objects), o, held_in(holders@, o) as int),
    {
        let mut leaving = holders;
        proof {
            old(objects).lemma_counts();
            assert(holders@.subrange(0, holders@.len() as int) =~= holders@);
        }
        while leaving.len() > 0
            invariant
                objects.wf(),
                old(objects).wf(),
                leaving@ == holders@.subrange(0, leaving@.len() as int),
                leaving@.len() <= holders@.len(),
                forall|o: CellId|
                    #![trigger objects.live(o)]
                    lost_owners(old(objects), objects, o, held_in(holders@, o) - held_in(leaving@, o)),
            decreases leaving.len(),
        {
            let ghost longer = leaving@;
            let ghost then = *objects;
            let ghost cell = longer.last().server_cell();
            match leaving.pop() {
                Some(mut bound) => match bound.server.take() {
                    Some(mut server) => {
                        server.reset(objects);
                    },
                    None => {},
                },
                None => {},
            }
            proof {
                assert(leaving@ =~= holders@.subrange(0, leaving@.len() as int));
                assert(longer.drop_last() =~= leaving@);
                then.lemma_counts();
                assert(objects.gave_up(&then, cell));
                assert forall|o: CellId|
                    #![trigger objects.live(o)]
                    lost_owners(old(objects), objects, o, held_in(holders@, o) - held_in(leaving@, o)) by {
                    assert(lost_owners(
                        old(objects),
                        &then,
                        o,
                        held_in(holders@, o) - held_in(longer, o),
                    ));
                    if cell != Some(o) {
                        assert(objects.live(o) == then.live(o));
                    }
                }
            }
        }
        proof {
            assert(leaving@ =~= Seq::<ServerHolder>::empty());
        }
    }
}

} // verus!
