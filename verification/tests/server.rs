use std::cell::RefCell;

use nx::ipc::server::{
    addressed_object, forward_request, loop_step, read_process_info, request_outcome,
    select_target, send_reply, DomainTable, HipcManager, IMitmServerObject, IServerObject,
    LoopStep, RequestOutcome, ServerHolder, WaitHandleType,
};
use nx::ipc::server::{create_mitm_server_object_impl, create_server_object_impl};
use nx::ipc::server::{plan_session_response, ServerContext};
use nx::ipc::{Alignment, CommandContext, CommandIn, DataWalker};
use nx::ipc::sf::{
    CommandMetadata, IObject, ISessionObject, MitmProcessInfo, Parameter, ServiceName,
    SessionObject,
};
use nx::ipc::system::{Received, Response, System};
use nx::ipc::{CommandProtocol, CommandType, DomainObjectId, Handle, ObjectInfo};
use nx::mem::{Shared, SharedHeap};
use nx::result::ResultCode;

struct Plain;

impl IObject for Plain {
    fn get_command_metadata_table(&self) -> Vec<CommandMetadata> {
        Vec::new()
    }

    fn call_command(&mut self, _rq_id: u32, _in_params: Vec<Parameter>) -> Result<Vec<Parameter>, ResultCode> {
        Err(ResultCode::NotImplemented)
    }
}

impl ISessionObject for Plain {}

impl IServerObject for Plain {
    fn new() -> Self {
        Plain
    }
}

impl IMitmServerObject for Plain {
    fn new(_info: MitmProcessInfo) -> Self {
        Plain
    }
}

/// A system that records what it is asked and answers from what it was told.
struct Recorder {
    log: RefCell<Vec<String>>,
    fail: RefCell<Vec<&'static str>>,
    convert: Result<DomainObjectId, ResultCode>,
    forward: Result<Vec<u8>, ResultCode>,
    reply: Result<(), ResultCode>,
}

impl Recorder {
    fn new() -> Self {
        Recorder {
            log: RefCell::new(Vec::new()),
            fail: RefCell::new(Vec::new()),
            convert: Ok(9),
            forward: Ok(vec![0x55; 4]),
            reply: Ok(()),
        }
    }

    fn failing(what: &'static str) -> Self {
        let recorder = Self::new();
        recorder.fail.borrow_mut().push(what);
        recorder
    }

    fn note(&self, what: &'static str, detail: String) -> Result<(), ResultCode> {
        self.log.borrow_mut().push(format!("{} {}", what, detail));
        if self.fail.borrow().contains(&what) {
            Err(ResultCode::Other(1))
        } else {
            Ok(())
        }
    }

    fn calls(&self) -> Vec<String> {
        self.log.borrow().clone()
    }
}

impl System for Recorder {
    fn get_version(&self) -> u32 {
        0
    }

    fn create_session(&self) -> Result<(Handle, Handle), ResultCode> {
        self.note("create_session", String::new()).map(|_| (0x70, 0x71))
    }

    fn accept_session(&self, port: Handle) -> Result<Handle, ResultCode> {
        self.note("accept_session", format!("{}", port)).map(|_| 0x80)
    }

    fn close_handle(&self, handle: Handle) -> Result<(), ResultCode> {
        self.note("close_handle", format!("{}", handle))
    }

    fn manage_named_port(&self, name: &str, max_sessions: i32) -> Result<Handle, ResultCode> {
        self.note("manage_named_port", format!("{} {}", name, max_sessions)).map(|_| 0x90)
    }

    fn wait_handles(&self, _handles: &Vec<Handle>) -> Result<usize, ResultCode> {
        Err(ResultCode::KernelCancelled)
    }

    fn receive(&self, _session: ObjectInfo, _pointer_buffer_size: usize) -> Result<Received, ResultCode> {
        Err(ResultCode::KernelSessionClosed)
    }

    fn reply(&self, session: Handle, _response: &Response) -> Result<(), ResultCode> {
        self.log.borrow_mut().push(format!("reply {}", session));
        self.reply
    }

    fn send_sync_request(&self, session: Handle, message: &Vec<u8>) -> Result<Vec<u8>, ResultCode> {
        self.log.borrow_mut().push(format!("send_sync_request {} {:?}", session, message));
        self.forward.clone()
    }

    fn convert_current_object_to_domain(&self, session: ObjectInfo) -> Result<DomainObjectId, ResultCode> {
        self.log.borrow_mut().push(format!("convert {}", session.handle));
        self.convert
    }

    fn clone_current_object(&self, session: ObjectInfo) -> Result<Handle, ResultCode> {
        self.note("clone_current_object", format!("{}", session.handle)).map(|_| 0xa0)
    }

    fn close_session(&self, session: ObjectInfo) {
        self.log.borrow_mut().push(format!("close_session {}", session.handle));
    }

    fn register_service(&self, name: ServiceName, _is_light: bool, _max_sessions: i32) -> Result<Handle, ResultCode> {
        self.note("register_service", format!("{}", name.value)).map(|_| 0xb0)
    }

    fn unregister_service(&self, name: ServiceName) -> Result<(), ResultCode> {
        self.note("unregister_service", format!("{}", name.value))
    }

    fn atmosphere_install_mitm(&self, name: ServiceName) -> Result<(Handle, Handle), ResultCode> {
        self.note("install_mitm", format!("{}", name.value)).map(|_| (0xc0, 0xc1))
    }

    fn atmosphere_uninstall_mitm(&self, name: ServiceName) -> Result<(), ResultCode> {
        self.note("uninstall_mitm", format!("{}", name.value))
    }

    fn atmosphere_acknowledge_mitm_session(&self, _name: ServiceName) -> Result<(MitmProcessInfo, Handle), ResultCode> {
        Err(ResultCode::NotImplemented)
    }

    fn atmosphere_clear_future_mitm(&self, name: ServiceName) -> Result<(), ResultCode> {
        self.note("clear_future_mitm", format!("{}", name.value))
    }

    fn detach_client(&self) -> Result<(), ResultCode> {
        self.note("detach_client", String::new())
    }

    fn take_session_object(&self, _token: u64) -> Option<SessionObject> {
        None
    }
}

fn plain_object(objects: &mut SharedHeap<SessionObject>) -> Shared<SessionObject> {
    Shared::new(objects, SessionObject::new(Plain))
}

#[test]
fn domain_names_are_taken_refused_and_reused() {
    let mut table = DomainTable::new();
    assert_eq!(table.allocate_id(), Ok(1));
    assert_eq!(table.allocate_id(), Ok(2));
    assert_eq!(table.allocate_specific_id(5), Ok(5));
    assert_eq!(table.allocate_specific_id(2), Err(ResultCode::ObjectIdAlreadyAllocated));
    assert!(table.deallocate_domain(1).is_empty());
    assert_eq!(table.allocate_id(), Ok(1));
    assert_eq!(table.table, vec![2, 5, 1]);
}

#[test]
fn allocating_k_times_yields_one_to_k() {
    let mut table = DomainTable::new();
    for expected in 1..=40u32 {
        assert_eq!(table.allocate_id(), Ok(expected));
    }
    assert_eq!(table.table, (1..=40u32).collect::<Vec<u32>>());
}

#[test]
fn allocate_id_fills_the_smallest_gap() {
    let mut table = DomainTable::new();
    assert_eq!(table.allocate_specific_id(1), Ok(1));
    assert_eq!(table.allocate_specific_id(2), Ok(2));
    assert_eq!(table.allocate_specific_id(4), Ok(4));
    assert_eq!(table.allocate_id(), Ok(3));
    assert_eq!(table.allocate_id(), Ok(5));
}

#[test]
fn attach_binds_a_holder_to_the_smallest_free_name() {
    let mut objects: SharedHeap<SessionObject> = SharedHeap::new();
    let mut table = DomainTable::new();
    assert_eq!(table.allocate_id(), Ok(1));
    let object = plain_object(&mut objects);
    let cell = object.id().unwrap();
    assert_eq!(table.attach(ServerHolder::new_session(0, object)), Ok(2));
    assert_eq!(table.table, vec![1, 2]);
    assert_eq!(table.domains.len(), 1);
    assert_eq!(table.domains[0].info, ObjectInfo::from_domain_object_id(0, 2));
    assert_eq!(table.find_domain(2), Ok(cell));
}

#[test]
fn find_domain_finds_the_first_holder_of_a_name() {
    let mut objects: SharedHeap<SessionObject> = SharedHeap::new();
    let mut table = DomainTable::new();
    let first = plain_object(&mut objects);
    let second = plain_object(&mut objects);
    let third = plain_object(&mut objects);
    let first_cell = first.id().unwrap();
    let second_cell = second.id().unwrap();
    table.domains.push(ServerHolder::new_domain_session(0, 3, first));
    table.domains.push(ServerHolder::new_domain_session(0, 4, second));
    table.domains.push(ServerHolder::new_domain_session(0, 3, third));
    assert_eq!(table.find_domain(3), Ok(first_cell));
    assert_eq!(table.find_domain(4), Ok(second_cell));
    assert_eq!(table.find_domain(5), Err(ResultCode::DomainNotFound));
}

#[test]
fn find_domain_fails_for_a_holder_without_object() {
    let mut table = DomainTable::new();
    let mut holder = ServerHolder::new_server::<Plain>(0, ServiceName::empty());
    holder.info = ObjectInfo::from_domain_object_id(0, 2);
    table.domains.push(holder);
    assert_eq!(table.find_domain(2), Err(ResultCode::DomainNotFound));
}

#[test]
fn deallocate_domain_removes_name_and_holders_in_one_step() {
    let mut objects: SharedHeap<SessionObject> = SharedHeap::new();
    let mut table = DomainTable::new();
    for _ in 0..3 {
        let object = plain_object(&mut objects);
        table.attach(ServerHolder::new_session(0, object)).unwrap();
    }
    let unbound = table.deallocate_domain(2);
    assert_eq!(unbound.len(), 1);
    assert_eq!(unbound[0].info.domain_object_id, 2);
    assert_eq!(table.table, vec![1, 3]);
    let left: Vec<u32> = table.domains.iter().map(|holder| holder.info.domain_object_id).collect();
    assert_eq!(left, vec![1, 3]);
    assert_eq!(table.find_domain(2), Err(ResultCode::DomainNotFound));
    // a name that is not taken: nothing happens
    assert!(table.deallocate_domain(7).is_empty());
    assert_eq!(table.table, vec![1, 3]);
}

#[test]
fn taken_names_are_the_names_of_the_holders() {
    let mut objects: SharedHeap<SessionObject> = SharedHeap::new();
    let mut table = DomainTable::new();
    let names = |table: &DomainTable| {
        let mut taken = table.table.clone();
        taken.sort();
        let mut bound: Vec<u32> =
            table.domains.iter().map(|holder| holder.info.domain_object_id).collect();
        bound.sort();
        (taken, bound)
    };
    for _ in 0..5 {
        let object = plain_object(&mut objects);
        table.attach(ServerHolder::new_session(0, object)).unwrap();
        let (taken, bound) = names(&table);
        assert_eq!(taken, bound);
    }
    for id in [3, 1, 9] {
        table.deallocate_domain(id);
        let (taken, bound) = names(&table);
        assert_eq!(taken, bound);
    }
    let (taken, _) = names(&table);
    assert_eq!(taken, vec![2, 4, 5]);
    let object = plain_object(&mut objects);
    assert_eq!(table.attach(ServerHolder::new_session(0, object)), Ok(1));
    let (taken, bound) = names(&table);
    assert_eq!(taken, bound);
}

#[test]
fn holder_of_a_session() {
    let mut objects: SharedHeap<SessionObject> = SharedHeap::new();
    let object = plain_object(&mut objects);
    let cell = object.id();
    let holder = ServerHolder::new_session(0x10, object);
    assert_eq!(holder.get_server_cell(), cell);
    assert_eq!(holder.info, ObjectInfo::from_handle(0x10));
    assert_eq!(holder.handle_type, WaitHandleType::Session);
    assert_eq!(holder.mitm_forward_info, ObjectInfo::new());
    assert!(!holder.is_mitm_service);
    assert!(holder.service_name.is_empty());
    assert!(holder.domain_table.is_none());
    assert_eq!(holder.get_new_server_fn().err(), Some(ResultCode::SessionClosed));
    assert_eq!(holder.get_new_mitm_server_fn().err(), Some(ResultCode::SessionClosed));
}

#[test]
fn holder_of_a_domain_object() {
    let mut objects: SharedHeap<SessionObject> = SharedHeap::new();
    let object = plain_object(&mut objects);
    let holder = ServerHolder::new_domain_session(0, 6, object);
    assert_eq!(holder.info, ObjectInfo::from_domain_object_id(0, 6));
    assert!(!holder.info.owns_handle);
    assert_eq!(holder.handle_type, WaitHandleType::Session);
}

#[test]
fn holder_of_a_port_makes_sessions() {
    let mut objects: SharedHeap<SessionObject> = SharedHeap::new();
    let name = ServiceName { value: 0x747365 };
    let port = ServerHolder::new_server::<Plain>(0x11, name);
    assert_eq!(port.handle_type, WaitHandleType::Server);
    assert_eq!(port.service_name, name);
    assert!(port.server.is_none());
    assert!(port.get_new_server_fn().is_ok());
    assert!(port.get_new_mitm_server_fn().is_err());
    let session = port.make_new_session(0x12, &mut objects).unwrap();
    assert_eq!(session.info, ObjectInfo::from_handle(0x12));
    assert_eq!(session.handle_type, WaitHandleType::Session);
    assert!(session.service_name.is_empty());
    assert!(!session.is_mitm_service);
    assert_eq!(session.server.as_ref().unwrap().use_count(&objects), 1);
    assert_eq!(
        port.make_new_mitm_session(0x13, 0x14, info(), &mut objects).err(),
        Some(ResultCode::SessionClosed)
    );
}

fn info() -> MitmProcessInfo {
    MitmProcessInfo { process_id: 1, program_id: 2, keys_held: 3, override_flags: 4 }
}

#[test]
fn holder_of_a_mitm_port_makes_forwarding_sessions() {
    let mut objects: SharedHeap<SessionObject> = SharedHeap::new();
    let port = ServerHolder::new_mitm_server::<Plain>(0x11, ServiceName { value: 5 });
    assert!(port.is_mitm_service);
    assert_eq!(port.handle_type, WaitHandleType::Server);
    assert_eq!(port.make_new_session(0x12, &mut objects).err(), Some(ResultCode::SessionClosed));
    let session = port.make_new_mitm_session(0x13, 0x14, info(), &mut objects).unwrap();
    assert_eq!(session.info, ObjectInfo::from_handle(0x13));
    assert_eq!(session.mitm_forward_info, ObjectInfo::from_handle(0x14));
    assert!(session.is_mitm_service);
    assert!(session.service_name.is_empty());
}

#[test]
fn clone_self_shares_object_and_table() {
    let mut objects: SharedHeap<SessionObject> = SharedHeap::new();
    let mut tables: SharedHeap<DomainTable> = SharedHeap::new();
    let system = Recorder::new();
    let object = plain_object(&mut objects);
    let mut holder = ServerHolder::new_session(0x10, object);
    assert_eq!(holder.convert_to_domain(&system, &mut tables), Ok(1));
    let clone = holder.clone_self(0x20, 0, &mut objects, &mut tables).unwrap();
    assert_eq!(clone.get_server_cell(), holder.get_server_cell());
    assert_eq!(clone.get_table_cell(), holder.get_table_cell());
    assert_eq!(clone.info.handle, 0x20);
    assert_eq!(clone.info.domain_object_id, 1);
    assert!(!clone.is_mitm_service);
    assert_eq!(holder.server.as_ref().unwrap().use_count(&objects), 2);
    assert_eq!(holder.domain_table.as_ref().unwrap().use_count(&tables), 2);
    let forwarding = holder.clone_self(0x30, 0x31, &mut objects, &mut tables).unwrap();
    assert!(forwarding.is_mitm_service);
    assert_eq!(forwarding.mitm_forward_info.handle, 0x31);
    assert_eq!(holder.server.as_ref().unwrap().use_count(&objects), 3);
}

#[test]
fn convert_to_domain_takes_the_first_name() {
    let mut objects: SharedHeap<SessionObject> = SharedHeap::new();
    let mut tables: SharedHeap<DomainTable> = SharedHeap::new();
    let system = Recorder::new();
    let object = plain_object(&mut objects);
    let mut holder = ServerHolder::new_session(0x10, object);
    assert_eq!(holder.convert_to_domain(&system, &mut tables), Ok(1));
    assert!(holder.info.is_domain());
    assert_eq!(holder.info.domain_object_id, 1);
    let table = holder.domain_table.as_ref().unwrap().get(&tables).unwrap();
    assert_eq!(table.table, vec![1]);
    assert!(table.domains.is_empty());
    assert!(system.calls().is_empty());
    // once a domain, always a domain
    assert_eq!(holder.convert_to_domain(&system, &mut tables), Err(ResultCode::AlreadyDomain));
    assert_eq!(holder.info.domain_object_id, 1);
}

#[test]
fn convert_to_domain_of_a_mitm_session_takes_the_upstream_name() {
    let mut objects: SharedHeap<SessionObject> = SharedHeap::new();
    let mut tables: SharedHeap<DomainTable> = SharedHeap::new();
    let system = Recorder::new();
    let port = ServerHolder::new_mitm_server::<Plain>(0x11, ServiceName { value: 5 });
    let mut holder = port.make_new_mitm_session(0x13, 0x14, info(), &mut objects).unwrap();
    assert_eq!(holder.convert_to_domain(&system, &mut tables), Ok(9));
    assert_eq!(system.calls(), vec!["convert 20"]);
    assert_eq!(holder.info.domain_object_id, 9);
    assert_eq!(holder.mitm_forward_info.domain_object_id, 9);
    let table = holder.domain_table.as_ref().unwrap().get(&tables).unwrap();
    assert_eq!(table.table, vec![9]);
}

#[test]
fn convert_to_domain_fails_as_the_upstream_fails() {
    let mut objects: SharedHeap<SessionObject> = SharedHeap::new();
    let mut tables: SharedHeap<DomainTable> = SharedHeap::new();
    let mut system = Recorder::new();
    system.convert = Err(ResultCode::Other(3));
    let port = ServerHolder::new_mitm_server::<Plain>(0x11, ServiceName { value: 5 });
    let mut holder = port.make_new_mitm_session(0x13, 0x14, info(), &mut objects).unwrap();
    assert_eq!(holder.convert_to_domain(&system, &mut tables), Err(ResultCode::Other(3)));
    assert!(!holder.info.is_domain());
    assert_eq!(holder.mitm_forward_info.domain_object_id, 0);
}

#[test]
fn close_of_a_session_closes_its_handle_and_forward_session() {
    let mut objects: SharedHeap<SessionObject> = SharedHeap::new();
    let system = Recorder::new();
    let object = plain_object(&mut objects);
    let mut holder = ServerHolder::new_session(0x10, object);
    assert_eq!(holder.close(&system), Ok(()));
    assert_eq!(system.calls(), vec!["close_handle 16", "close_session 0"]);
}

#[test]
fn close_of_a_domain_object_leaves_the_handle_open() {
    let mut objects: SharedHeap<SessionObject> = SharedHeap::new();
    let system = Recorder::new();
    let object = plain_object(&mut objects);
    let mut holder = ServerHolder::new_domain_session(0x10, 2, object);
    assert_eq!(holder.close(&system), Ok(()));
    assert_eq!(system.calls(), vec!["close_session 0"]);
}

#[test]
fn close_of_a_service_unregisters_its_name() {
    let system = Recorder::new();
    let mut holder = ServerHolder::new_server::<Plain>(0x11, ServiceName { value: 7 });
    assert_eq!(holder.close(&system), Ok(()));
    assert_eq!(
        system.calls(),
        vec!["unregister_service 7", "detach_client ", "close_handle 17", "close_session 0"]
    );
}

#[test]
fn close_of_a_mitm_service_uninstalls_it() {
    let system = Recorder::new();
    let mut holder = ServerHolder::new_mitm_server::<Plain>(0x11, ServiceName { value: 7 });
    assert_eq!(holder.close(&system), Ok(()));
    assert_eq!(
        system.calls(),
        vec!["uninstall_mitm 7", "detach_client ", "close_handle 17", "close_session 0"]
    );
}

#[test]
fn close_stops_at_the_first_failure() {
    let system = Recorder::failing("unregister_service");
    let mut holder = ServerHolder::new_server::<Plain>(0x11, ServiceName { value: 7 });
    assert_eq!(holder.close(&system), Err(ResultCode::Other(1)));
    assert_eq!(system.calls(), vec!["unregister_service 7"]);
    let system = Recorder::failing("close_handle");
    assert_eq!(holder.close(&system), Err(ResultCode::Other(1)));
    assert_eq!(system.calls(), vec!["unregister_service 7", "detach_client ", "close_handle 17"]);
}

#[test]
fn release_gives_up_object_and_table() {
    let mut objects: SharedHeap<SessionObject> = SharedHeap::new();
    let mut tables: SharedHeap<DomainTable> = SharedHeap::new();
    let system = Recorder::new();
    let object = plain_object(&mut objects);
    let object_cell = object.id().unwrap();
    let mut holder = ServerHolder::new_session(0x10, object);
    holder.convert_to_domain(&system, &mut tables).unwrap();
    let table_cell = holder.get_table_cell().unwrap();
    let child = plain_object(&mut objects);
    let child_cell = child.id().unwrap();
    tables.get_mut(table_cell).attach(ServerHolder::new_session(0, child)).unwrap();
    let clone = holder.clone_self(0x20, 0, &mut objects, &mut tables).unwrap();
    holder.release(&mut objects, &mut tables);
    assert!(objects.is_live(object_cell));
    assert!(tables.is_live(table_cell));
    assert!(objects.is_live(child_cell));
    clone.release(&mut objects, &mut tables);
    assert!(!objects.is_live(object_cell));
    assert!(!tables.is_live(table_cell));
    // the objects bound in the table went with it
    assert!(!objects.is_live(child_cell));
}

#[test]
fn request_outcome_table() {
    let forward = ResultCode::ShouldForwardToSession;
    assert_eq!(request_outcome(false, Some(Ok(()))), RequestOutcome::Done);
    assert_eq!(request_outcome(true, Some(Ok(()))), RequestOutcome::Done);
    assert_eq!(
        request_outcome(false, Some(Err(ResultCode::Other(4)))),
        RequestOutcome::Respond { result: ResultCode::Other(4) }
    );
    assert_eq!(
        request_outcome(true, Some(Err(ResultCode::Other(4)))),
        RequestOutcome::Respond { result: ResultCode::Other(4) }
    );
    assert_eq!(request_outcome(true, Some(Err(forward))), RequestOutcome::Forward);
    assert_eq!(request_outcome(false, Some(Err(forward))), RequestOutcome::Respond { result: forward });
    assert_eq!(request_outcome(true, None), RequestOutcome::Forward);
    assert_eq!(
        request_outcome(false, None),
        RequestOutcome::Respond { result: ResultCode::InvalidCommandRequestId }
    );
    assert!(forward.is_forward_request());
    assert!(!ResultCode::SessionClosed.is_forward_request());
}

#[test]
fn loop_step_table() {
    assert_eq!(loop_step(Ok(())), LoopStep::Continue);
    assert_eq!(loop_step(Err(ResultCode::KernelCancelled)), LoopStep::Stop);
    assert_eq!(
        loop_step(Err(ResultCode::KernelTimedOut)),
        LoopStep::Fail { result: ResultCode::KernelTimedOut }
    );
    assert_eq!(
        loop_step(Err(ResultCode::SignaledServerNotFound)),
        LoopStep::Fail { result: ResultCode::SignaledServerNotFound }
    );
}

#[test]
fn reply_treats_a_gone_peer_as_benign() {
    let mut system = Recorder::new();
    assert_eq!(send_reply(&system, 5, &Response::Close), Ok(()));
    system.reply = Err(ResultCode::KernelTimedOut);
    assert_eq!(send_reply(&system, 5, &Response::Close), Ok(()));
    system.reply = Err(ResultCode::KernelSessionClosed);
    assert_eq!(send_reply(&system, 5, &Response::Close), Ok(()));
    system.reply = Err(ResultCode::KernelCancelled);
    assert_eq!(send_reply(&system, 5, &Response::Close), Err(ResultCode::KernelCancelled));
    assert_eq!(system.calls(), vec!["reply 5", "reply 5", "reply 5", "reply 5"]);
}

#[test]
fn forward_request_sends_the_message_as_it_is() {
    let mut system = Recorder::new();
    let message: Vec<u8> = (0..=255u8).collect();
    let response = forward_request(&system, 0x14, &message, CommandType::Request, CommandProtocol::Cmif);
    assert!(matches!(response, Response::Forwarded { message } if message == vec![0x55; 4]));
    assert_eq!(system.calls(), vec![format!("send_sync_request 20 {:?}", message)]);
    system.forward = Err(ResultCode::Other(8));
    let response = forward_request(&system, 0x14, &message, CommandType::Request, CommandProtocol::Cmif);
    assert!(matches!(
        response,
        Response::Request { result: Err(ResultCode::Other(8)), command_type: CommandType::Request, .. }
    ));
}

#[test]
fn addressed_object_of_a_request() {
    let plain = ObjectInfo::from_handle(5);
    assert_eq!(addressed_object(plain, 3), plain);
    let base = ObjectInfo { domain_object_id: 1, ..plain };
    let own = addressed_object(base, 1);
    assert_eq!(own.domain_object_id, 1);
    assert!(own.owns_handle);
    let other = addressed_object(base, 4);
    assert_eq!(other.domain_object_id, 4);
    assert!(!other.owns_handle);
    assert_eq!(other.handle, 5);
}

#[test]
fn select_target_of_a_request() {
    let mut objects: SharedHeap<SessionObject> = SharedHeap::new();
    let mut tables: SharedHeap<DomainTable> = SharedHeap::new();
    let system = Recorder::new();
    let object = plain_object(&mut objects);
    let own = object.id().unwrap();
    let mut holder = ServerHolder::new_session(0x10, object);
    assert_eq!(select_target(&holder, holder.info, &tables), Ok(own));
    // a domain object on a session without a table
    let stray = ObjectInfo::from_domain_object_id(0x10, 2);
    assert_eq!(select_target(&holder, stray, &tables), Err(ResultCode::DomainNotFound));
    holder.convert_to_domain(&system, &mut tables).unwrap();
    let child = plain_object(&mut objects);
    let bound = child.id().unwrap();
    let table_cell = holder.get_table_cell().unwrap();
    tables.get_mut(table_cell).attach(ServerHolder::new_session(0, child)).unwrap();
    assert_eq!(select_target(&holder, addressed_object(holder.info, 1), &tables), Ok(own));
    assert_eq!(select_target(&holder, addressed_object(holder.info, 2), &tables), Ok(bound));
    assert_eq!(
        select_target(&holder, addressed_object(holder.info, 3), &tables),
        Err(ResultCode::DomainNotFound)
    );
    let port = ServerHolder::new_server::<Plain>(0x11, ServiceName::empty());
    assert_eq!(select_target(&port, port.info, &tables), Err(ResultCode::SignaledServerNotFound));
}

#[test]
fn process_info_from_raw_data() {
    let mut bytes = Vec::new();
    for value in [0x11u64, 0x0100_0000_0000_1000, 3, u64::MAX] {
        bytes.extend_from_slice(&value.to_le_bytes());
    }
    assert_eq!(
        read_process_info(&bytes),
        Some(MitmProcessInfo {
            process_id: 0x11,
            program_id: 0x0100_0000_0000_1000,
            keys_held: 3,
            override_flags: u64::MAX,
        })
    );
    assert_eq!(read_process_info(&bytes[..31].to_vec()), None);
}

#[test]
fn control_interface_remembers_a_clone() {
    let mut objects: SharedHeap<SessionObject> = SharedHeap::new();
    let mut tables: SharedHeap<DomainTable> = SharedHeap::new();
    let system = Recorder::new();
    let object = plain_object(&mut objects);
    let holder = ServerHolder::new_session(0x10, object);
    let mut control = HipcManager::new(0x40);
    assert!(!control.has_cloned_object());
    assert_eq!(control.query_pointer_buffer_size(), Ok(0x40));
    assert_eq!(control.copy_from_current_domain(1), Err(ResultCode::NotImplemented));
    assert_eq!(control.clone_current_object(&system, &holder), Ok(0x71));
    assert!(control.has_cloned_object());
    assert_eq!(control.cloned_object_server_handle, 0x70);
    assert_eq!(control.cloned_object_forward_handle, 0);
    assert_eq!(system.calls(), vec!["create_session "]);
    let clone = control.clone_object(&holder, &mut objects, &mut tables).unwrap();
    assert_eq!(clone.info.handle, 0x70);
    assert_eq!(clone.get_server_cell(), holder.get_server_cell());
}

#[test]
fn control_interface_clones_the_upstream_of_a_mitm_session() {
    let mut objects: SharedHeap<SessionObject> = SharedHeap::new();
    let system = Recorder::new();
    let port = ServerHolder::new_mitm_server::<Plain>(0x11, ServiceName { value: 5 });
    let holder = port.make_new_mitm_session(0x13, 0x14, info(), &mut objects).unwrap();
    let mut control = HipcManager::new(0);
    assert_eq!(control.clone_current_object_ex(&system, &holder, 77), Ok(0x71));
    assert_eq!(control.cloned_object_server_handle, 0x70);
    assert_eq!(control.cloned_object_forward_handle, 0xa0);
    assert_eq!(system.calls(), vec!["create_session ", "clone_current_object 20"]);
    let failing = Recorder::failing("clone_current_object");
    let mut control = HipcManager::new(0);
    assert_eq!(control.clone_current_object(&failing, &holder), Err(ResultCode::Other(1)));
    assert!(!control.has_cloned_object());
}

#[test]
fn pointer_buffer_size_is_reported_in_sixteen_bits() {
    assert_eq!(HipcManager::new(0).query_pointer_buffer_size(), Ok(0));
    assert_eq!(HipcManager::new(0xffff).query_pointer_buffer_size(), Ok(0xffff));
    assert_eq!(HipcManager::new(0x1_0020).query_pointer_buffer_size(), Ok(0x20));
}

/// An object that answers every command with the program it was made for.
struct Told {
    program_id: u64,
}

impl IObject for Told {
    fn get_command_metadata_table(&self) -> Vec<CommandMetadata> {
        Vec::new()
    }

    fn call_command(&mut self, rq_id: u32, _in_params: Vec<Parameter>) -> Result<Vec<Parameter>, ResultCode> {
        if rq_id != 7 {
            return Err(ResultCode::InvalidCommandRequestId);
        }
        Ok(vec![Parameter::Pod { bytes: self.program_id.to_le_bytes().to_vec(), align: Alignment::Eight }])
    }
}

impl ISessionObject for Told {}

impl IServerObject for Told {
    fn new() -> Self {
        Told { program_id: 0x0100_0000_0000_1000 }
    }
}

impl IMitmServerObject for Told {
    fn new(info: MitmProcessInfo) -> Self {
        Told { program_id: info.program_id }
    }
}

fn program_answered(object: &mut SessionObject) -> Vec<u8> {
    match object.object.call_command(7, Vec::new()) {
        Ok(outputs) => match outputs.into_iter().next() {
            Some(Parameter::Pod { bytes, .. }) => bytes,
            _ => panic!("one plain value was expected"),
        },
        Err(e) => panic!("the command failed: {:?}", e),
    }
}

#[test]
fn session_object_keeps_the_object_it_was_given() {
    let mut kept = SessionObject::new(Told { program_id: 0x1122_3344_5566_7788 });
    assert_eq!(program_answered(&mut kept), 0x1122_3344_5566_7788u64.to_le_bytes().to_vec());
    assert!(matches!(kept.object.call_command(8, Vec::new()), Err(ResultCode::InvalidCommandRequestId)));
}

#[test]
fn server_object_is_the_one_its_type_makes() {
    let mut made = create_server_object_impl::<Told>();
    assert_eq!(program_answered(&mut made), 0x0100_0000_0000_1000u64.to_le_bytes().to_vec());
}

#[test]
fn mitm_server_object_is_made_for_the_process_described() {
    let info = MitmProcessInfo { process_id: 81, program_id: 0x0100_0000_0000_0023, keys_held: 0, override_flags: 0 };
    let mut made = create_mitm_server_object_impl::<Told>(info);
    assert_eq!(program_answered(&mut made), 0x0100_0000_0000_0023u64.to_le_bytes().to_vec());
    let other = MitmProcessInfo { process_id: 82, program_id: 5, keys_held: 1, override_flags: 2 };
    let mut second = create_mitm_server_object_impl::<Told>(other);
    assert_eq!(program_answered(&mut second), 5u64.to_le_bytes().to_vec());
}

fn program_held(objects: &mut SharedHeap<SessionObject>, holder: &ServerHolder) -> Vec<u8> {
    let cell = holder.get_server_cell().expect("the holder keeps an object");
    program_answered(objects.get_mut(cell))
}

#[test]
fn returned_session_is_the_object_attached_to_the_domain() {
    let mut objects: SharedHeap<SessionObject> = SharedHeap::new();
    let mut tables: SharedHeap<DomainTable> = SharedHeap::new();
    let system = Recorder::new();
    let base = plain_object(&mut objects);
    let mut holder = ServerHolder::new_session(0x10, base);
    assert_eq!(holder.convert_to_domain(&system, &mut tables), Ok(1));
    let table_cell = holder.get_table_cell().unwrap();
    let other = Shared::new(&mut objects, SessionObject::new(Told { program_id: 1 }));
    let mut ctx = ServerContext::new(
        CommandContext::new_server(ObjectInfo::from_domain_object_id(0x10, 1), CommandIn::empty()),
        DataWalker::new(),
        Some(table_cell),
        Vec::new(),
    );
    let session = SessionObject::new(Told { program_id: 0xABCD });
    assert_eq!(plan_session_response(&system, &mut ctx, session, &mut objects, &mut tables), Ok(()));
    assert_eq!(ctx.ctx.out_params.objects, vec![2]);
    assert!(ctx.ctx.out_params.move_handles.is_empty());
    assert!(ctx.new_sessions.is_empty());
    assert!(system.calls().is_empty());
    let bound = tables.get_mut(table_cell).domains.pop().unwrap();
    assert_eq!(bound.info.domain_object_id, 2);
    assert_ne!(bound.get_server_cell(), other.id());
    assert_ne!(bound.get_server_cell(), holder.get_server_cell());
    assert_eq!(program_held(&mut objects, &bound), 0xABCDu64.to_le_bytes().to_vec());
}

#[test]
fn returned_session_is_the_object_behind_its_own_kernel_session() {
    let mut objects: SharedHeap<SessionObject> = SharedHeap::new();
    let mut tables: SharedHeap<DomainTable> = SharedHeap::new();
    let system = Recorder::new();
    let mut ctx = ServerContext::new(
        CommandContext::new_server(ObjectInfo::from_handle(0x10), CommandIn::empty()),
        DataWalker::new(),
        None,
        Vec::new(),
    );
    let session = SessionObject::new(Told { program_id: 0x77 });
    assert_eq!(plan_session_response(&system, &mut ctx, session, &mut objects, &mut tables), Ok(()));
    assert_eq!(system.calls(), vec!["create_session "]);
    assert_eq!(ctx.ctx.out_params.move_handles, vec![0x71]);
    assert!(ctx.ctx.out_params.objects.is_empty());
    assert_eq!(ctx.new_sessions.len(), 1);
    let made = ctx.new_sessions.pop().unwrap();
    assert_eq!(made.info.handle, 0x70);
    assert_eq!(program_held(&mut objects, &made), 0x77u64.to_le_bytes().to_vec());
}

#[test]
fn failed_conversion_leaves_an_empty_table_on_the_session() {
    let mut objects: SharedHeap<SessionObject> = SharedHeap::new();
    let mut tables: SharedHeap<DomainTable> = SharedHeap::new();
    let mut system = Recorder::new();
    system.convert = Err(ResultCode::Other(3));
    let port = ServerHolder::new_mitm_server::<Plain>(0x11, ServiceName { value: 5 });
    let mut holder = port.make_new_mitm_session(0x13, 0x14, info(), &mut objects).unwrap();
    let object_cell = holder.get_server_cell();
    assert_eq!(holder.convert_to_domain(&system, &mut tables), Err(ResultCode::Other(3)));
    assert_eq!(holder.info, ObjectInfo::from_handle(0x13));
    assert_eq!(holder.mitm_forward_info, ObjectInfo::from_handle(0x14));
    assert_eq!(holder.get_server_cell(), object_cell);
    assert!(holder.is_mitm_service);
    let table_cell = holder.get_table_cell().expect("a table was left on the session");
    let table = tables.get(table_cell).unwrap();
    assert!(table.table.is_empty());
    assert!(table.domains.is_empty());
    assert_eq!(holder.domain_table.as_ref().unwrap().use_count(&tables), 1);
}

#[test]
fn accepted_sessions_get_objects_of_their_own() {
    let mut objects: SharedHeap<SessionObject> = SharedHeap::new();
    let port = ServerHolder::new_server::<Told>(0x11, ServiceName { value: 0 });
    let first = port.make_new_session(0x20, &mut objects).unwrap();
    let second = port.make_new_session(0x21, &mut objects).unwrap();
    assert!(first.get_server_cell().is_some());
    assert_ne!(first.get_server_cell(), second.get_server_cell());
    assert_eq!(first.server.as_ref().unwrap().use_count(&objects), 1);
    assert_eq!(second.server.as_ref().unwrap().use_count(&objects), 1);
    assert_eq!(program_held(&mut objects, &second), 0x0100_0000_0000_1000u64.to_le_bytes().to_vec());
}

#[test]
fn release_takes_one_owner_for_each_holder_that_goes() {
    let mut objects: SharedHeap<SessionObject> = SharedHeap::new();
    let mut tables: SharedHeap<DomainTable> = SharedHeap::new();
    let system = Recorder::new();
    let object = plain_object(&mut objects);
    let kept = object.copy(&mut objects);
    let bound_once = object.copy(&mut objects);
    let bound_twice = object.copy(&mut objects);
    let mut holder = ServerHolder::new_session(0x10, object);
    holder.convert_to_domain(&system, &mut tables).unwrap();
    let table_cell = holder.get_table_cell().unwrap();
    tables.get_mut(table_cell).attach(ServerHolder::new_session(0, bound_once)).unwrap();
    tables.get_mut(table_cell).attach(ServerHolder::new_session(0, bound_twice)).unwrap();
    assert_eq!(kept.use_count(&objects), 4);
    holder.release(&mut objects, &mut tables);
    // the holder's own handle and the two bound in its table went
    assert_eq!(kept.use_count(&objects), 1);
    assert!(!tables.is_live(table_cell));
}

#[test]
fn release_servers_takes_one_owner_for_each_holder() {
    let mut objects: SharedHeap<SessionObject> = SharedHeap::new();
    let first = plain_object(&mut objects);
    let second = first.copy(&mut objects);
    let kept = first.copy(&mut objects);
    let alone = plain_object(&mut objects);
    let alone_cell = alone.id().unwrap();
    assert_eq!(kept.use_count(&objects), 3);
    let holders = vec![
        ServerHolder::new_session(1, first),
        ServerHolder::new_session(2, alone),
        ServerHolder::new_session(3, second),
    ];
    ServerHolder::release_servers(holders, &mut objects);
    assert_eq!(kept.use_count(&objects), 1);
    assert!(!objects.is_live(alone_cell));
    ServerHolder::release_servers(Vec::new(), &mut objects);
    assert_eq!(kept.use_count(&objects), 1);
}
