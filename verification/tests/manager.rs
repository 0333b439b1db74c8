use std::cell::{Cell, RefCell};
use std::collections::{HashMap, VecDeque};
use std::rc::Rc;

use nx::ipc::server::{
    IMitmServerObject, IMitmService, INamedPort, IServerObject, IService, MitmQueryService,
    ServerManager, WaitHandleType, MAX_OBJECT_COUNT,
};
use nx::ipc::sf::{
    CommandMetadata, IObject, ISessionObject, MitmProcessInfo, Parameter, ParameterKind,
    ServiceName, SessionObject, VersionInterval,
};
use nx::ipc::system::{Received, Response, System};
use nx::ipc::{
    Alignment, CommandIn, CommandProtocol, CommandType, DomainCommandType, DomainObjectId, Handle,
    HandleMode, ObjectInfo,
};
use nx::result::ResultCode;

/// An object with a handful of commands, counting how often it is called.
struct TestObject {
    hits: Rc<Cell<u32>>,
}

impl TestObject {
    fn counting(hits: &Rc<Cell<u32>>) -> Self {
        TestObject { hits: hits.clone() }
    }

    fn fresh() -> Self {
        TestObject { hits: Rc::new(Cell::new(0)) }
    }
}

impl IObject for TestObject {
    fn get_command_metadata_table(&self) -> Vec<CommandMetadata> {
        vec![
            CommandMetadata::new(1, VersionInterval::all(), vec![]),
            CommandMetadata::new(
                2,
                VersionInterval::all(),
                vec![ParameterKind::Pod { size: 4, align: Alignment::Four }],
            ),
            CommandMetadata::new(3, VersionInterval::all(), vec![]),
            CommandMetadata::new(4, VersionInterval::all(), vec![]),
            CommandMetadata::new(5, VersionInterval::all(), vec![]),
            CommandMetadata::new(6, VersionInterval { min: 5, max: 9 }, vec![]),
            CommandMetadata::new(7, VersionInterval::all(), vec![]),
        ]
    }

    fn call_command(&mut self, rq_id: u32, in_params: Vec<Parameter>) -> Result<Vec<Parameter>, ResultCode> {
        self.hits.set(self.hits.get() + 1);
        match rq_id {
            1 => Ok(vec![Parameter::Pod {
                bytes: self.hits.get().to_le_bytes().to_vec(),
                align: Alignment::Four,
            }]),
            2 => {
                let word = match &in_params[0] {
                    Parameter::Pod { bytes, .. } => bytes.clone(),
                    _ => return Err(ResultCode::InvalidHeaderSize),
                };
                Ok(vec![
                    Parameter::Pod { bytes: vec![0xab], align: Alignment::One },
                    Parameter::Pod { bytes: word, align: Alignment::Four },
                ])
            }
            3 => Err(ResultCode::Other(5)),
            4 => Err(ResultCode::ShouldForwardToSession),
            5 => Ok(vec![Parameter::Session { token: 1 }]),
            6 => Ok(vec![]),
            7 => Ok(vec![Parameter::Handle { mode: HandleMode::Copy, handle: 0x99 }]),
            _ => Err(ResultCode::InvalidCommandRequestId),
        }
    }
}

impl ISessionObject for TestObject {}

impl IServerObject for TestObject {
    fn new() -> Self {
        TestObject { hits: Rc::new(Cell::new(0)) }
    }
}

impl IMitmServerObject for TestObject {
    fn new(info: MitmProcessInfo) -> Self {
        TestObject { hits: Rc::new(Cell::new(info.process_id as u32)) }
    }
}

impl IService for TestObject {
    fn get_name() -> ServiceName {
        ServiceName { value: 0x31 }
    }

    fn get_max_sesssions() -> i32 {
        4
    }
}

impl INamedPort for TestObject {
    fn get_port_name() -> &'static str {
        "test:p"
    }

    fn get_max_sesssions() -> i32 {
        2
    }
}

impl IMitmService for TestObject {
    fn get_name() -> ServiceName {
        ServiceName { value: 0x32 }
    }

    fn should_mitm(info: MitmProcessInfo) -> bool {
        info.program_id == 0x0100_0000_0000_1000
    }
}

/// What the system saw of a response.
#[derive(Debug, PartialEq)]
enum Seen {
    Request {
        command_type: CommandType,
        result: Result<(), ResultCode>,
        data: Vec<u8>,
        data_size: u32,
        copy_handles: Vec<Handle>,
        move_handles: Vec<Handle>,
        objects: Vec<DomainObjectId>,
    },
    Control { result: Result<(), ResultCode>, data: Vec<u8>, move_handles: Vec<Handle> },
    Close,
    Forwarded { message: Vec<u8> },
}

fn ok_request(data: Vec<u8>) -> Seen {
    Seen::Request {
        command_type: CommandType::Request,
        result: Ok(()),
        data_size: data.len() as u32,
        data,
        copy_handles: vec![],
        move_handles: vec![],
        objects: vec![],
    }
}

fn failed_request(result: ResultCode) -> Seen {
    Seen::Request {
        command_type: CommandType::Request,
        result: Err(result),
        data: vec![],
        data_size: 0,
        copy_handles: vec![],
        move_handles: vec![],
        objects: vec![],
    }
}

/// A system that answers from a script and records what it is asked.
#[derive(Default)]
struct Scripted {
    version: Cell<u32>,
    waits: RefCell<VecDeque<Result<usize, ResultCode>>>,
    waited: RefCell<Vec<Vec<Handle>>>,
    accepts: RefCell<VecDeque<Result<Handle, ResultCode>>>,
    acknowledges: RefCell<VecDeque<Result<(MitmProcessInfo, Handle), ResultCode>>>,
    receives: RefCell<VecDeque<Result<Received, ResultCode>>>,
    received_on: RefCell<Vec<(ObjectInfo, usize)>>,
    replies: RefCell<Vec<(Handle, Seen)>>,
    reply_results: RefCell<VecDeque<Result<(), ResultCode>>>,
    sessions: RefCell<VecDeque<Result<(Handle, Handle), ResultCode>>>,
    forwards: RefCell<Vec<(Handle, Vec<u8>)>>,
    forward_replies: RefCell<VecDeque<Result<Vec<u8>, ResultCode>>>,
    converts: RefCell<VecDeque<Result<DomainObjectId, ResultCode>>>,
    clones: RefCell<VecDeque<Result<Handle, ResultCode>>>,
    log: RefCell<Vec<String>>,
    stash: RefCell<HashMap<u64, SessionObject>>,
}

impl Scripted {
    fn new() -> Self {
        Self::default()
    }

    /// Scripts one round: the wait signals `index`, and the receive delivers `received`.
    fn deliver(&self, index: usize, received: Result<Received, ResultCode>) {
        self.waits.borrow_mut().push_back(Ok(index));
        self.receives.borrow_mut().push_back(received);
    }

    fn last_reply(&self) -> (Handle, Seen) {
        self.replies.borrow_mut().pop().expect("a reply")
    }

    fn calls(&self) -> Vec<String> {
        self.log.borrow().clone()
    }
}

impl System for Scripted {
    fn get_version(&self) -> u32 {
        self.version.get()
    }

    fn create_session(&self) -> Result<(Handle, Handle), ResultCode> {
        self.log.borrow_mut().push("create_session".into());
        self.sessions.borrow_mut().pop_front().unwrap_or(Err(ResultCode::Other(0x100)))
    }

    fn accept_session(&self, port: Handle) -> Result<Handle, ResultCode> {
        self.log.borrow_mut().push(format!("accept_session {:#x}", port));
        self.accepts.borrow_mut().pop_front().unwrap_or(Err(ResultCode::Other(0x101)))
    }

    fn close_handle(&self, handle: Handle) -> Result<(), ResultCode> {
        self.log.borrow_mut().push(format!("close_handle {:#x}", handle));
        Ok(())
    }

    fn manage_named_port(&self, name: &str, max_sessions: i32) -> Result<Handle, ResultCode> {
        self.log.borrow_mut().push(format!("manage_named_port {} {}", name, max_sessions));
        Ok(0x500)
    }

    fn wait_handles(&self, handles: &Vec<Handle>) -> Result<usize, ResultCode> {
        self.waited.borrow_mut().push(handles.clone());
        self.waits.borrow_mut().pop_front().unwrap_or(Err(ResultCode::KernelCancelled))
    }

    fn receive(&self, session: ObjectInfo, pointer_buffer_size: usize) -> Result<Received, ResultCode> {
        self.received_on.borrow_mut().push((session, pointer_buffer_size));
        self.receives.borrow_mut().pop_front().unwrap_or(Err(ResultCode::Other(0x102)))
    }

    fn reply(&self, session: Handle, response: &Response) -> Result<(), ResultCode> {
        let seen = match response {
            Response::Request { command_type, result, out_params, .. } => Seen::Request {
                command_type: *command_type,
                result: *result,
                data: out_params.data.clone(),
                data_size: out_params.data_size,
                copy_handles: out_params.copy_handles.clone(),
                move_handles: out_params.move_handles.clone(),
                objects: out_params.objects.clone(),
            },
            Response::Control { result, out_params, .. } => Seen::Control {
                result: *result,
                data: out_params.data.clone(),
                move_handles: out_params.move_handles.clone(),
            },
            Response::Close => Seen::Close,
            Response::Forwarded { message } => Seen::Forwarded { message: message.clone() },
        };
        self.replies.borrow_mut().push((session, seen));
        self.reply_results.borrow_mut().pop_front().unwrap_or(Ok(()))
    }

    fn send_sync_request(&self, session: Handle, message: &Vec<u8>) -> Result<Vec<u8>, ResultCode> {
        self.forwards.borrow_mut().push((session, message.clone()));
        self.forward_replies.borrow_mut().pop_front().unwrap_or(Err(ResultCode::Other(0x103)))
    }

    fn convert_current_object_to_domain(&self, session: ObjectInfo) -> Result<DomainObjectId, ResultCode> {
        self.log.borrow_mut().push(format!("convert {:#x}", session.handle));
        self.converts.borrow_mut().pop_front().unwrap_or(Err(ResultCode::Other(0x104)))
    }

    fn clone_current_object(&self, session: ObjectInfo) -> Result<Handle, ResultCode> {
        self.log.borrow_mut().push(format!("clone {:#x}", session.handle));
        self.clones.borrow_mut().pop_front().unwrap_or(Err(ResultCode::Other(0x105)))
    }

    fn close_session(&self, session: ObjectInfo) {
        if session.handle != 0 {
            self.log.borrow_mut().push(format!("close_session {:#x}", session.handle));
        }
    }

    fn register_service(&self, name: ServiceName, is_light: bool, max_sessions: i32) -> Result<Handle, ResultCode> {
        self.log.borrow_mut().push(format!("register_service {:#x} {} {}", name.value, is_light, max_sessions));
        Ok(0x600)
    }

    fn unregister_service(&self, name: ServiceName) -> Result<(), ResultCode> {
        self.log.borrow_mut().push(format!("unregister_service {:#x}", name.value));
        Ok(())
    }

    fn atmosphere_install_mitm(&self, name: ServiceName) -> Result<(Handle, Handle), ResultCode> {
        self.log.borrow_mut().push(format!("install_mitm {:#x}", name.value));
        Ok((0x700, 0x701))
    }

    fn atmosphere_uninstall_mitm(&self, name: ServiceName) -> Result<(), ResultCode> {
        self.log.borrow_mut().push(format!("uninstall_mitm {:#x}", name.value));
        Ok(())
    }

    fn atmosphere_acknowledge_mitm_session(&self, name: ServiceName) -> Result<(MitmProcessInfo, Handle), ResultCode> {
        self.log.borrow_mut().push(format!("acknowledge {:#x}", name.value));
        self.acknowledges.borrow_mut().pop_front().unwrap_or(Err(ResultCode::Other(0x106)))
    }

    fn atmosphere_clear_future_mitm(&self, name: ServiceName) -> Result<(), ResultCode> {
        self.log.borrow_mut().push(format!("clear_future_mitm {:#x}", name.value));
        Ok(())
    }

    fn detach_client(&self) -> Result<(), ResultCode> {
        self.log.borrow_mut().push("detach_client".into());
        Ok(())
    }

    fn take_session_object(&self, token: u64) -> Option<SessionObject> {
        self.stash.borrow_mut().remove(&token)
    }
}

fn message() -> Vec<u8> {
    (0..=255u8).collect()
}

fn received(command_type: CommandType, request_id: u32, data: Vec<u8>) -> Received {
    let mut in_params = CommandIn::empty();
    in_params.data = data;
    Received {
        message: message(),
        command_type,
        request_id,
        domain_command_type: DomainCommandType::Invalid,
        domain_object_id: 0,
        in_params,
    }
}

fn request(request_id: u32, data: Vec<u8>) -> Result<Received, ResultCode> {
    Ok(received(CommandType::Request, request_id, data))
}

fn control(request_id: u32, data: Vec<u8>) -> Result<Received, ResultCode> {
    Ok(received(CommandType::Control, request_id, data))
}

fn domain_request(
    domain_command_type: DomainCommandType,
    domain_object_id: DomainObjectId,
    request_id: u32,
) -> Result<Received, ResultCode> {
    let mut delivered = received(CommandType::Request, request_id, vec![]);
    delivered.domain_command_type = domain_command_type;
    delivered.domain_object_id = domain_object_id;
    Ok(delivered)
}

fn info() -> MitmProcessInfo {
    MitmProcessInfo { process_id: 7, program_id: 8, keys_held: 0, override_flags: 0 }
}

/// A manager that serves one object on session 0x100.
fn serving(hits: &Rc<Cell<u32>>) -> ServerManager<0x20> {
    let mut manager: ServerManager<0x20> = ServerManager::new().unwrap();
    manager.register_session(0x100, TestObject::counting(hits)).unwrap();
    manager
}

/// A manager with a MITM port on 0x10 and one session accepted on 0x11, forwarding to 0x12.
fn intercepting(system: &Scripted) -> ServerManager<0> {
    let mut manager: ServerManager<0> = ServerManager::new().unwrap();
    manager.register_mitm_server::<TestObject>(0x10, ServiceName { value: 0x32 }).unwrap();
    system.waits.borrow_mut().push_back(Ok(0));
    system.accepts.borrow_mut().push_back(Ok(0x11));
    system.acknowledges.borrow_mut().push_back(Ok((info(), 0x12)));
    assert_eq!(manager.process(system), Ok(()));
    system.log.borrow_mut().clear();
    manager
}

#[test]
fn manager_starts_empty() {
    let manager: ServerManager<0> = ServerManager::new().unwrap();
    assert_eq!(manager.holder_count(), 0);
    assert!(manager.prepare_wait_handles().is_empty());
}

#[test]
fn register_server_adds_a_port() {
    let mut manager: ServerManager<0> = ServerManager::new().unwrap();
    assert_eq!(manager.register_server::<TestObject>(0x10, ServiceName { value: 3 }), Ok(()));
    assert_eq!(manager.holder_count(), 1);
    let holder = manager.holder(0);
    assert_eq!(holder.handle_type, WaitHandleType::Server);
    assert_eq!(holder.info, ObjectInfo::from_handle(0x10));
    assert_eq!(holder.service_name, ServiceName { value: 3 });
    assert!(!holder.is_mitm_service);
    assert!(holder.server.is_none());
    assert_eq!(manager.prepare_wait_handles(), vec![0x10]);
}

#[test]
fn register_session_adds_a_session_with_its_object() {
    let hits = Rc::new(Cell::new(0));
    let manager = serving(&hits);
    assert_eq!(manager.holder_count(), 1);
    assert_eq!(manager.holder(0).handle_type, WaitHandleType::Session);
    assert_eq!(manager.holder(0).info, ObjectInfo::from_handle(0x100));
    assert_eq!(manager.object_use_count(0), 1);
}

#[test]
fn wait_set_is_every_valid_handle_in_order() {
    let mut manager: ServerManager<0> = ServerManager::new().unwrap();
    manager.register_server::<TestObject>(0x30, ServiceName::empty()).unwrap();
    manager.register_session(0, TestObject::fresh()).unwrap();
    manager.register_session(0x10, TestObject::fresh()).unwrap();
    manager.register_mitm_server::<TestObject>(0x20, ServiceName::empty()).unwrap();
    assert_eq!(manager.prepare_wait_handles(), vec![0x30, 0x10, 0x20]);
    assert_eq!(manager.find_holder(0x10), Some(2));
    assert_eq!(manager.find_holder(0x40), None);
}

#[test]
fn manager_holds_no_more_than_its_capacity() {
    let mut manager: ServerManager<0> = ServerManager::new().unwrap();
    for i in 0..MAX_OBJECT_COUNT {
        assert_eq!(manager.register_session(0x100 + i as u32, TestObject::fresh()), Ok(()));
    }
    assert_eq!(manager.holder_count(), 64);
    assert_eq!(manager.register_session(0x9000, TestObject::fresh()), Err(ResultCode::TooManyObjects));
    assert_eq!(
        manager.register_server::<TestObject>(0x9001, ServiceName::empty()),
        Err(ResultCode::TooManyObjects)
    );
    assert_eq!(
        manager.register_mitm_server::<TestObject>(0x9002, ServiceName::empty()),
        Err(ResultCode::TooManyObjects)
    );
    assert_eq!(manager.holder_count(), 64);
    assert_eq!(manager.prepare_wait_handles().len(), 64);
}

#[test]
fn accept_beyond_capacity_is_an_error() {
    let system = Scripted::new();
    let mut manager: ServerManager<0> = ServerManager::new().unwrap();
    manager.register_server::<TestObject>(0x10, ServiceName::empty()).unwrap();
    for i in 1..MAX_OBJECT_COUNT {
        manager.register_session(0x100 + i as u32, TestObject::fresh()).unwrap();
    }
    system.accepts.borrow_mut().push_back(Ok(0x11));
    assert_eq!(manager.process_signaled_handle(&system, 0x10), Err(ResultCode::TooManyObjects));
    assert_eq!(manager.holder_count(), 64);
    assert!(system.calls().is_empty());
}

#[test]
fn signal_for_an_unknown_handle_fails() {
    let system = Scripted::new();
    let hits = Rc::new(Cell::new(0));
    let mut manager = serving(&hits);
    assert_eq!(
        manager.process_signaled_handle(&system, 0x999),
        Err(ResultCode::SignaledServerNotFound)
    );
    assert_eq!(manager.holder_count(), 1);
}

#[test]
fn port_accepts_a_session() {
    let system = Scripted::new();
    let mut manager: ServerManager<0> = ServerManager::new().unwrap();
    manager.register_server::<TestObject>(0x10, ServiceName { value: 3 }).unwrap();
    system.waits.borrow_mut().push_back(Ok(0));
    system.accepts.borrow_mut().push_back(Ok(0x11));
    assert_eq!(manager.process(&system), Ok(()));
    assert_eq!(*system.waited.borrow(), vec![vec![0x10]]);
    assert_eq!(system.calls(), vec!["accept_session 0x10"]);
    assert_eq!(manager.holder_count(), 2);
    let session = manager.holder(1);
    assert_eq!(session.handle_type, WaitHandleType::Session);
    assert_eq!(session.info, ObjectInfo::from_handle(0x11));
    assert!(session.service_name.is_empty());
    assert_eq!(manager.object_use_count(1), 1);
    assert_eq!(manager.prepare_wait_handles(), vec![0x10, 0x11]);
}

#[test]
fn accept_failure_adds_nothing() {
    let system = Scripted::new();
    let mut manager: ServerManager<0> = ServerManager::new().unwrap();
    manager.register_server::<TestObject>(0x10, ServiceName::empty()).unwrap();
    system.waits.borrow_mut().push_back(Ok(0));
    system.accepts.borrow_mut().push_back(Err(ResultCode::Other(9)));
    assert_eq!(manager.process(&system), Err(ResultCode::Other(9)));
    assert_eq!(manager.holder_count(), 1);
}

#[test]
fn mitm_port_accepts_a_forwarding_session() {
    let system = Scripted::new();
    let mut manager: ServerManager<0> = ServerManager::new().unwrap();
    manager.register_mitm_server::<TestObject>(0x10, ServiceName { value: 0x32 }).unwrap();
    system.waits.borrow_mut().push_back(Ok(0));
    system.accepts.borrow_mut().push_back(Ok(0x11));
    system.acknowledges.borrow_mut().push_back(Ok((info(), 0x12)));
    assert_eq!(manager.process(&system), Ok(()));
    assert_eq!(system.calls(), vec!["accept_session 0x10", "acknowledge 0x32", "detach_client"]);
    assert_eq!(manager.holder_count(), 2);
    let session = manager.holder(1);
    assert!(session.is_mitm_service);
    assert_eq!(session.info, ObjectInfo::from_handle(0x11));
    assert_eq!(session.mitm_forward_info, ObjectInfo::from_handle(0x12));
}

#[test]
fn request_is_dispatched_to_the_object() {
    let system = Scripted::new();
    let hits = Rc::new(Cell::new(0));
    let mut manager = serving(&hits);
    system.deliver(0, request(2, vec![1, 2, 3, 4]));
    assert_eq!(manager.process(&system), Ok(()));
    assert_eq!(hits.get(), 1);
    assert_eq!(*system.received_on.borrow(), vec![(ObjectInfo::from_handle(0x100), 0x20)]);
    // one byte, then the word at its alignment
    assert_eq!(system.last_reply(), (0x100, ok_request(vec![0xab, 0, 0, 0, 1, 2, 3, 4])));
    assert_eq!(manager.holder_count(), 1);
}

#[test]
fn request_with_too_little_raw_data_is_answered_with_an_error() {
    let system = Scripted::new();
    let hits = Rc::new(Cell::new(0));
    let mut manager = serving(&hits);
    system.deliver(0, request(2, vec![1, 2]));
    assert_eq!(manager.process(&system), Ok(()));
    assert_eq!(hits.get(), 0);
    assert_eq!(system.last_reply(), (0x100, failed_request(ResultCode::InvalidHeaderSize)));
}

#[test]
fn handle_returned_by_a_handler_travels_in_the_response() {
    let system = Scripted::new();
    let hits = Rc::new(Cell::new(0));
    let mut manager = serving(&hits);
    system.deliver(0, request(7, vec![]));
    assert_eq!(manager.process(&system), Ok(()));
    let (_, seen) = system.last_reply();
    assert_eq!(
        seen,
        Seen::Request {
            command_type: CommandType::Request,
            result: Ok(()),
            data: vec![],
            data_size: 0,
            copy_handles: vec![0x99],
            move_handles: vec![],
            objects: vec![],
        }
    );
}

#[test]
fn unknown_command_is_answered_with_invalid_request_id() {
    let system = Scripted::new();
    let hits = Rc::new(Cell::new(0));
    let mut manager = serving(&hits);
    system.deliver(0, request(42, vec![]));
    assert_eq!(manager.process(&system), Ok(()));
    assert_eq!(hits.get(), 0);
    assert_eq!(system.last_reply(), (0x100, failed_request(ResultCode::InvalidCommandRequestId)));
    assert!(system.forwards.borrow().is_empty());
}

#[test]
fn command_outside_its_versions_is_unknown() {
    let system = Scripted::new();
    let hits = Rc::new(Cell::new(0));
    let mut manager = serving(&hits);
    system.version.set(4);
    system.deliver(0, request(6, vec![]));
    assert_eq!(manager.process(&system), Ok(()));
    assert_eq!(system.last_reply().1, failed_request(ResultCode::InvalidCommandRequestId));
    system.version.set(5);
    system.deliver(0, request(6, vec![]));
    assert_eq!(manager.process(&system), Ok(()));
    assert_eq!(system.last_reply().1, ok_request(vec![]));
}

#[test]
fn handler_failure_is_answered_with_its_result() {
    let system = Scripted::new();
    let hits = Rc::new(Cell::new(0));
    let mut manager = serving(&hits);
    system.deliver(0, request(3, vec![]));
    assert_eq!(manager.process(&system), Ok(()));
    assert_eq!(system.last_reply(), (0x100, failed_request(ResultCode::Other(5))));
    // outside a MITM session, a wish to forward is a failure like any other
    system.deliver(0, request(4, vec![]));
    assert_eq!(manager.process(&system), Ok(()));
    assert_eq!(system.last_reply().1, failed_request(ResultCode::ShouldForwardToSession));
    assert!(system.forwards.borrow().is_empty());
}

#[test]
fn mitm_forwards_an_unknown_command_as_it_came() {
    let system = Scripted::new();
    let mut manager = intercepting(&system);
    let upstream_reply = vec![0xee; 0x100];
    system.forward_replies.borrow_mut().push_back(Ok(upstream_reply.clone()));
    system.deliver(1, request(42, vec![]));
    assert_eq!(manager.process(&system), Ok(()));
    // the upstream saw the message exactly as the kernel delivered it
    assert_eq!(*system.forwards.borrow(), vec![(0x12, message())]);
    // and its reply goes back verbatim
    assert_eq!(system.last_reply(), (0x11, Seen::Forwarded { message: upstream_reply }));
}

#[test]
fn mitm_handler_can_ask_to_forward() {
    let system = Scripted::new();
    let mut manager = intercepting(&system);
    system.forward_replies.borrow_mut().push_back(Ok(vec![1, 2, 3]));
    system.deliver(1, request(4, vec![]));
    assert_eq!(manager.process(&system), Ok(()));
    assert_eq!(*system.forwards.borrow(), vec![(0x12, message())]);
    assert_eq!(system.last_reply().1, Seen::Forwarded { message: vec![1, 2, 3] });
}

#[test]
fn mitm_handler_failure_that_is_no_wish_to_forward_is_answered() {
    let system = Scripted::new();
    let mut manager = intercepting(&system);
    system.deliver(1, request(3, vec![]));
    assert_eq!(manager.process(&system), Ok(()));
    assert!(system.forwards.borrow().is_empty());
    assert_eq!(system.last_reply().1, failed_request(ResultCode::Other(5)));
}

#[test]
fn mitm_forward_failure_is_answered_with_the_failure() {
    let system = Scripted::new();
    let mut manager = intercepting(&system);
    system.forward_replies.borrow_mut().push_back(Err(ResultCode::Other(0x44)));
    system.deliver(1, request(42, vec![]));
    assert_eq!(manager.process(&system), Ok(()));
    assert_eq!(system.last_reply().1, failed_request(ResultCode::Other(0x44)));
}

#[test]
fn mitm_session_serves_what_it_implements() {
    let system = Scripted::new();
    let mut manager = intercepting(&system);
    system.deliver(1, request(1, vec![]));
    assert_eq!(manager.process(&system), Ok(()));
    assert!(system.forwards.borrow().is_empty());
    // the object was made for process 7 and counted this call
    assert_eq!(system.last_reply().1, ok_request(vec![8, 0, 0, 0]));
}

#[test]
fn clone_current_object_adds_a_session_on_the_same_object() {
    let system = Scripted::new();
    let hits = Rc::new(Cell::new(0));
    let mut manager = serving(&hits);
    system.sessions.borrow_mut().push_back(Ok((0x200, 0x201)));
    system.deliver(0, control(2, vec![]));
    assert_eq!(manager.process(&system), Ok(()));
    // (a) the new client handle travels in a move-handle slot
    assert_eq!(
        system.last_reply(),
        (0x100, Seen::Control { result: Ok(()), data: vec![], move_handles: vec![0x201] })
    );
    // (b) a new holder shares the object of the session that was cloned
    assert_eq!(manager.holder_count(), 2);
    let clone = manager.holder(1);
    assert_eq!(clone.info, ObjectInfo::from_handle(0x200));
    assert_eq!(clone.handle_type, WaitHandleType::Session);
    assert!(!clone.is_mitm_service);
    assert_eq!(clone.get_server_cell(), manager.holder(0).get_server_cell());
    assert_eq!(manager.object_use_count(0), 2);
    assert_eq!(manager.prepare_wait_handles(), vec![0x100, 0x200]);
    assert_eq!(system.calls(), vec!["create_session"]);
    // (c) both sessions dispatch, independently, to the same object
    system.deliver(1, request(1, vec![]));
    assert_eq!(manager.process(&system), Ok(()));
    assert_eq!(system.last_reply(), (0x200, ok_request(vec![1, 0, 0, 0])));
    system.deliver(0, request(1, vec![]));
    assert_eq!(manager.process(&system), Ok(()));
    assert_eq!(system.last_reply(), (0x100, ok_request(vec![2, 0, 0, 0])));
    assert_eq!(hits.get(), 2);
    // closing one leaves the object to the other
    system.deliver(0, Err(ResultCode::KernelSessionClosed));
    assert_eq!(manager.process(&system), Ok(()));
    assert_eq!(manager.holder_count(), 1);
    assert_eq!(manager.object_use_count(0), 1);
    system.deliver(0, request(1, vec![]));
    assert_eq!(manager.process(&system), Ok(()));
    assert_eq!(system.last_reply(), (0x200, ok_request(vec![3, 0, 0, 0])));
}

#[test]
fn clone_with_a_tag_is_a_clone() {
    let system = Scripted::new();
    let hits = Rc::new(Cell::new(0));
    let mut manager = serving(&hits);
    system.sessions.borrow_mut().push_back(Ok((0x200, 0x201)));
    system.deliver(0, control(4, vec![9, 0, 0, 0]));
    assert_eq!(manager.process(&system), Ok(()));
    assert_eq!(
        system.last_reply().1,
        Seen::Control { result: Ok(()), data: vec![], move_handles: vec![0x201] }
    );
    assert_eq!(manager.holder_count(), 2);
}

#[test]
fn clone_of_a_mitm_session_clones_the_upstream_too() {
    let system = Scripted::new();
    let mut manager = intercepting(&system);
    system.sessions.borrow_mut().push_back(Ok((0x200, 0x201)));
    system.clones.borrow_mut().push_back(Ok(0x300));
    system.deliver(1, control(2, vec![]));
    assert_eq!(manager.process(&system), Ok(()));
    assert_eq!(system.calls(), vec!["create_session", "clone 0x12"]);
    assert_eq!(manager.holder_count(), 3);
    let clone = manager.holder(2);
    assert!(clone.is_mitm_service);
    assert_eq!(clone.info.handle, 0x200);
    assert_eq!(clone.mitm_forward_info.handle, 0x300);
}

#[test]
fn clone_failure_is_answered_and_adds_nothing() {
    let system = Scripted::new();
    let hits = Rc::new(Cell::new(0));
    let mut manager = serving(&hits);
    system.sessions.borrow_mut().push_back(Err(ResultCode::Other(0x66)));
    system.deliver(0, control(2, vec![]));
    assert_eq!(manager.process(&system), Ok(()));
    assert_eq!(
        system.last_reply().1,
        Seen::Control { result: Err(ResultCode::Other(0x66)), data: vec![], move_handles: vec![] }
    );
    assert_eq!(manager.holder_count(), 1);
}

#[test]
fn mitm_conversion_takes_the_name_the_upstream_gave() {
    let system = Scripted::new();
    let mut manager = intercepting(&system);
    system.converts.borrow_mut().push_back(Ok(0x2a));
    system.deliver(1, control(0, vec![]));
    assert_eq!(manager.process(&system), Ok(()));
    // the upstream was converted, and its name is used here
    assert_eq!(system.calls(), vec!["convert 0x12"]);
    assert_eq!(
        system.last_reply(),
        (0x11, Seen::Control { result: Ok(()), data: vec![0x2a, 0, 0, 0], move_handles: vec![] })
    );
    assert_eq!(manager.domain_ids(1), vec![0x2a]);
    assert_eq!(manager.holder(1).info.domain_object_id, 0x2a);
    assert_eq!(manager.holder(1).mitm_forward_info.domain_object_id, 0x2a);
}

#[test]
fn convert_to_domain_of_a_plain_session() {
    let system = Scripted::new();
    let hits = Rc::new(Cell::new(0));
    let mut manager = serving(&hits);
    system.deliver(0, control(0, vec![]));
    assert_eq!(manager.process(&system), Ok(()));
    assert_eq!(
        system.last_reply().1,
        Seen::Control { result: Ok(()), data: vec![1, 0, 0, 0], move_handles: vec![] }
    );
    assert_eq!(manager.domain_ids(0), vec![1]);
    assert!(manager.holder(0).info.is_domain());
    // a second conversion is refused
    system.deliver(0, control(0, vec![]));
    assert_eq!(manager.process(&system), Ok(()));
    assert_eq!(
        system.last_reply().1,
        Seen::Control { result: Err(ResultCode::AlreadyDomain), data: vec![], move_handles: vec![] }
    );
    assert_eq!(manager.domain_ids(0), vec![1]);
}

#[test]
fn pointer_buffer_size_is_reported() {
    let system = Scripted::new();
    let hits = Rc::new(Cell::new(0));
    let mut manager = serving(&hits);
    system.deliver(0, control(3, vec![]));
    assert_eq!(manager.process(&system), Ok(()));
    assert_eq!(
        system.last_reply().1,
        Seen::Control { result: Ok(()), data: vec![0x20, 0], move_handles: vec![] }
    );
}

#[test]
fn copy_from_current_domain_is_not_implemented() {
    let system = Scripted::new();
    let hits = Rc::new(Cell::new(0));
    let mut manager = serving(&hits);
    system.deliver(0, control(1, vec![1, 0, 0, 0]));
    assert_eq!(manager.process(&system), Ok(()));
    assert_eq!(
        system.last_reply().1,
        Seen::Control { result: Err(ResultCode::NotImplemented), data: vec![], move_handles: vec![] }
    );
}

#[test]
fn unknown_control_command_is_answered_with_invalid_request_id() {
    let system = Scripted::new();
    let hits = Rc::new(Cell::new(0));
    let mut manager = serving(&hits);
    system.deliver(0, control(5, vec![]));
    assert_eq!(manager.process(&system), Ok(()));
    assert_eq!(
        system.last_reply().1,
        Seen::Control {
            result: Err(ResultCode::InvalidCommandRequestId),
            data: vec![],
            move_handles: vec![]
        }
    );
}

#[test]
fn control_commands_exist_in_cmif_only() {
    let system = Scripted::new();
    let mut manager: ServerManager<0> = ServerManager::new().unwrap();
    manager.register_session(0x100, TestObject::fresh()).unwrap();
    let ctx = nx::ipc::CommandContext::new_server(
        ObjectInfo { protocol: CommandProtocol::Tipc, ..ObjectInfo::from_handle(0x100) },
        CommandIn::empty(),
    );
    let outcome = manager.handle_control_command(&system, 0, ctx, 3, CommandType::Control);
    assert_eq!(outcome.err(), Some(ResultCode::InvalidProtocol));
    assert!(system.replies.borrow().is_empty());
}

#[test]
fn session_closed_by_the_peer_loses_its_holder() {
    let system = Scripted::new();
    let mut manager: ServerManager<0> = ServerManager::new().unwrap();
    manager.register_session(0x100, TestObject::fresh()).unwrap();
    manager.register_session(0x101, TestObject::fresh()).unwrap();
    manager.register_session(0x102, TestObject::fresh()).unwrap();
    system.deliver(1, Err(ResultCode::KernelSessionClosed));
    assert_eq!(manager.process(&system), Ok(()));
    // one holder less, and the closed handle is waited on no more
    assert_eq!(manager.holder_count(), 2);
    assert_eq!(manager.prepare_wait_handles(), vec![0x100, 0x102]);
    assert_eq!(manager.find_holder(0x101), None);
    assert_eq!(system.calls(), vec!["close_handle 0x101"]);
    assert!(system.replies.borrow().is_empty());
}

#[test]
fn close_command_is_answered_and_the_holder_removed() {
    let system = Scripted::new();
    let mut manager = intercepting(&system);
    system.deliver(1, Ok(received(CommandType::Close, 0, vec![])));
    assert_eq!(manager.process(&system), Ok(()));
    assert_eq!(system.last_reply(), (0x11, Seen::Close));
    assert_eq!(manager.holder_count(), 1);
    assert_eq!(manager.prepare_wait_handles(), vec![0x10]);
    // the session's handle and its forward session are given back
    assert_eq!(system.calls(), vec!["close_handle 0x11", "close_session 0x12"]);
}

#[test]
fn command_of_an_unknown_type_fails() {
    let system = Scripted::new();
    let hits = Rc::new(Cell::new(0));
    let mut manager = serving(&hits);
    for command_type in [CommandType::Invalid, CommandType::LegacyRequest, CommandType::LegacyControl] {
        system.deliver(0, Ok(received(command_type, 1, vec![])));
        assert_eq!(manager.process(&system), Err(ResultCode::InvalidCommandType));
    }
    assert_eq!(manager.holder_count(), 1);
    assert_eq!(hits.get(), 0);
}

#[test]
fn receive_failure_fails_the_round() {
    let system = Scripted::new();
    let hits = Rc::new(Cell::new(0));
    let mut manager = serving(&hits);
    system.deliver(0, Err(ResultCode::Other(0x33)));
    assert_eq!(manager.process(&system), Err(ResultCode::Other(0x33)));
    assert_eq!(manager.holder_count(), 1);
}

#[test]
fn peer_that_is_gone_at_reply_is_no_failure() {
    let system = Scripted::new();
    let hits = Rc::new(Cell::new(0));
    let mut manager = serving(&hits);
    for benign in [ResultCode::KernelTimedOut, ResultCode::KernelSessionClosed] {
        system.reply_results.borrow_mut().push_back(Err(benign));
        system.deliver(0, request(1, vec![]));
        assert_eq!(manager.process(&system), Ok(()));
    }
    system.reply_results.borrow_mut().push_back(Err(ResultCode::Other(0x77)));
    system.deliver(0, request(1, vec![]));
    assert_eq!(manager.process(&system), Err(ResultCode::Other(0x77)));
}

#[test]
fn wait_failure_fails_the_round() {
    let system = Scripted::new();
    let hits = Rc::new(Cell::new(0));
    let mut manager = serving(&hits);
    system.waits.borrow_mut().push_back(Err(ResultCode::KernelTimedOut));
    assert_eq!(manager.process(&system), Err(ResultCode::KernelTimedOut));
    system.waits.borrow_mut().push_back(Ok(5));
    assert_eq!(manager.process(&system), Err(ResultCode::SignaledServerNotFound));
    assert_eq!(*system.waited.borrow(), vec![vec![0x100], vec![0x100]]);
}

#[test]
fn loop_stops_cleanly_when_the_wait_is_cancelled() {
    let system = Scripted::new();
    let hits = Rc::new(Cell::new(0));
    let mut manager = serving(&hits);
    system.deliver(0, request(1, vec![]));
    system.deliver(0, request(1, vec![]));
    system.waits.borrow_mut().push_back(Err(ResultCode::KernelCancelled));
    assert_eq!(manager.loop_process(&system, 10), Ok(true));
    assert_eq!(hits.get(), 2);
}

#[test]
fn loop_gives_up_after_its_rounds() {
    let system = Scripted::new();
    let hits = Rc::new(Cell::new(0));
    let mut manager = serving(&hits);
    for _ in 0..3 {
        system.deliver(0, request(1, vec![]));
    }
    assert_eq!(manager.loop_process(&system, 2), Ok(false));
    assert_eq!(hits.get(), 2);
    assert_eq!(manager.loop_process(&system, 0), Ok(false));
    assert_eq!(hits.get(), 2);
}

#[test]
fn loop_ends_with_the_first_failure() {
    let system = Scripted::new();
    let hits = Rc::new(Cell::new(0));
    let mut manager = serving(&hits);
    system.deliver(0, request(1, vec![]));
    system.waits.borrow_mut().push_back(Err(ResultCode::Other(0x12)));
    system.deliver(0, request(1, vec![]));
    assert_eq!(manager.loop_process(&system, 10), Err(ResultCode::Other(0x12)));
    assert_eq!(hits.get(), 1);
}

#[test]
fn session_object_in_a_domain_becomes_a_domain_object() {
    let system = Scripted::new();
    let hits = Rc::new(Cell::new(0));
    let spawned = Rc::new(Cell::new(100));
    let mut manager = serving(&hits);
    system.deliver(0, control(0, vec![]));
    assert_eq!(manager.process(&system), Ok(()));
    system.last_reply();
    // the handler returns a session object
    system.stash.borrow_mut().insert(1, SessionObject::new(TestObject::counting(&spawned)));
    system.deliver(0, domain_request(DomainCommandType::SendMessage, 1, 5));
    assert_eq!(manager.process(&system), Ok(()));
    let base = ObjectInfo { domain_object_id: 1, ..ObjectInfo::from_handle(0x100) };
    assert_eq!(system.received_on.borrow().last(), Some(&(base, 0x20)));
    assert_eq!(
        system.last_reply().1,
        Seen::Request {
            command_type: CommandType::Request,
            result: Ok(()),
            data: vec![],
            data_size: 0,
            copy_handles: vec![],
            move_handles: vec![],
            objects: vec![2],
        }
    );
    assert_eq!(manager.domain_ids(0), vec![1, 2]);
    assert_eq!(manager.holder_count(), 1);
    assert!(system.calls().is_empty());
    // a request to the new object reaches it
    system.deliver(0, domain_request(DomainCommandType::SendMessage, 2, 1));
    assert_eq!(manager.process(&system), Ok(()));
    assert_eq!(system.last_reply().1, ok_request(vec![101, 0, 0, 0]));
    assert_eq!(hits.get(), 1);
    // a close of the new object frees its name
    system.deliver(0, domain_request(DomainCommandType::Close, 2, 0));
    assert_eq!(manager.process(&system), Ok(()));
    assert_eq!(system.last_reply().1, ok_request(vec![]));
    assert_eq!(manager.domain_ids(0), vec![1]);
    // and the name can be taken again
    system.stash.borrow_mut().insert(1, SessionObject::new(TestObject::counting(&spawned)));
    system.deliver(0, domain_request(DomainCommandType::SendMessage, 1, 5));
    assert_eq!(manager.process(&system), Ok(()));
    assert_eq!(manager.domain_ids(0), vec![1, 2]);
}

#[test]
fn request_to_an_unbound_domain_object_fails() {
    let system = Scripted::new();
    let hits = Rc::new(Cell::new(0));
    let mut manager = serving(&hits);
    system.deliver(0, control(0, vec![]));
    assert_eq!(manager.process(&system), Ok(()));
    system.deliver(0, domain_request(DomainCommandType::SendMessage, 7, 1));
    assert_eq!(manager.process(&system), Err(ResultCode::DomainNotFound));
    assert_eq!(hits.get(), 0);
}

#[test]
fn domain_request_without_a_domain_command_is_an_error() {
    let system = Scripted::new();
    let hits = Rc::new(Cell::new(0));
    let mut manager = serving(&hits);
    system.deliver(0, control(0, vec![]));
    assert_eq!(manager.process(&system), Ok(()));
    system.replies.borrow_mut().clear();
    system.deliver(0, domain_request(DomainCommandType::Invalid, 1, 1));
    assert_eq!(manager.process(&system), Err(ResultCode::InvalidDomainCommandType));
    assert!(system.replies.borrow().is_empty());
    assert_eq!(hits.get(), 0);
}

#[test]
fn close_of_the_base_object_is_a_protocol_error() {
    let system = Scripted::new();
    let hits = Rc::new(Cell::new(0));
    let mut manager = serving(&hits);
    system.deliver(0, control(0, vec![]));
    assert_eq!(manager.process(&system), Ok(()));
    system.deliver(0, domain_request(DomainCommandType::Close, 1, 0));
    assert_eq!(manager.process(&system), Ok(()));
    assert_eq!(system.last_reply().1, failed_request(ResultCode::InvalidDomainCommandType));
    assert_eq!(manager.domain_ids(0), vec![1]);
    assert_eq!(manager.holder_count(), 1);
}

#[test]
fn session_object_outside_a_domain_gets_a_session_of_its_own() {
    let system = Scripted::new();
    let hits = Rc::new(Cell::new(0));
    let spawned = Rc::new(Cell::new(100));
    let mut manager = serving(&hits);
    system.stash.borrow_mut().insert(1, SessionObject::new(TestObject::counting(&spawned)));
    system.sessions.borrow_mut().push_back(Ok((0x300, 0x301)));
    system.deliver(0, request(5, vec![]));
    assert_eq!(manager.process(&system), Ok(()));
    assert_eq!(
        system.last_reply().1,
        Seen::Request {
            command_type: CommandType::Request,
            result: Ok(()),
            data: vec![],
            data_size: 0,
            copy_handles: vec![],
            move_handles: vec![0x301],
            objects: vec![],
        }
    );
    assert_eq!(manager.holder_count(), 2);
    assert_eq!(manager.holder(1).info, ObjectInfo::from_handle(0x300));
    assert_eq!(manager.prepare_wait_handles(), vec![0x100, 0x300]);
    system.deliver(1, request(1, vec![]));
    assert_eq!(manager.process(&system), Ok(()));
    assert_eq!(system.last_reply(), (0x300, ok_request(vec![101, 0, 0, 0])));
}

#[test]
fn session_object_that_was_not_left_with_the_system_is_an_error() {
    let system = Scripted::new();
    let hits = Rc::new(Cell::new(0));
    let mut manager = serving(&hits);
    system.deliver(0, request(5, vec![]));
    assert_eq!(manager.process(&system), Ok(()));
    assert_eq!(system.last_reply().1, failed_request(ResultCode::SessionClosed));
    assert_eq!(manager.holder_count(), 1);
}

#[test]
fn close_all_gives_everything_back() {
    let system = Scripted::new();
    let mut manager = intercepting(&system);
    manager.register_server::<TestObject>(0x20, ServiceName { value: 0x31 }).unwrap();
    manager.close_all(&system);
    assert_eq!(manager.holder_count(), 0);
    assert!(manager.prepare_wait_handles().is_empty());
    assert_eq!(
        system.calls(),
        vec![
            "unregister_service 0x31",
            "detach_client",
            "close_handle 0x20",
            "close_handle 0x11",
            "close_session 0x12",
            "uninstall_mitm 0x32",
            "detach_client",
            "close_handle 0x10",
        ]
    );
}

#[test]
fn register_service_server_registers_with_the_service_manager() {
    let system = Scripted::new();
    let mut manager: ServerManager<0> = ServerManager::new().unwrap();
    assert_eq!(manager.register_service_server::<TestObject, Scripted>(&system), Ok(()));
    assert_eq!(system.calls(), vec!["register_service 0x31 false 4", "detach_client"]);
    assert_eq!(manager.holder_count(), 1);
    assert_eq!(manager.holder(0).info, ObjectInfo::from_handle(0x600));
    assert_eq!(manager.holder(0).service_name, ServiceName { value: 0x31 });
    assert_eq!(manager.holder(0).handle_type, WaitHandleType::Server);
}

#[test]
fn register_named_port_server_has_the_kernel_make_the_port() {
    let system = Scripted::new();
    let mut manager: ServerManager<0> = ServerManager::new().unwrap();
    assert_eq!(manager.register_named_port_server::<TestObject, Scripted>(&system), Ok(()));
    assert_eq!(system.calls(), vec!["manage_named_port test:p 2"]);
    assert_eq!(manager.holder(0).info, ObjectInfo::from_handle(0x500));
    assert!(manager.holder(0).service_name.is_empty());
}

#[test]
fn register_mitm_service_server_serves_port_and_query_session() {
    let system = Scripted::new();
    let mut manager: ServerManager<0> = ServerManager::new().unwrap();
    assert_eq!(manager.register_mitm_service_server::<TestObject, Scripted>(&system), Ok(()));
    assert_eq!(system.calls(), vec!["install_mitm 0x32", "clear_future_mitm 0x32", "detach_client"]);
    assert_eq!(manager.holder_count(), 2);
    assert!(manager.holder(0).is_mitm_service);
    assert_eq!(manager.holder(0).handle_type, WaitHandleType::Server);
    assert_eq!(manager.holder(0).info.handle, 0x700);
    assert_eq!(manager.holder(1).handle_type, WaitHandleType::Session);
    assert_eq!(manager.holder(1).info.handle, 0x701);
    // the query session answers whether a process is to be intercepted
    let mut raw = Vec::new();
    for value in [1u64, 0x0100_0000_0000_1000, 0, 0] {
        raw.extend_from_slice(&value.to_le_bytes());
    }
    system.deliver(1, request(65000, raw));
    assert_eq!(manager.process(&system), Ok(()));
    assert_eq!(system.last_reply(), (0x701, ok_request(vec![1])));
    system.deliver(1, request(65000, vec![0; 32]));
    assert_eq!(manager.process(&system), Ok(()));
    assert_eq!(system.last_reply(), (0x701, ok_request(vec![0])));
}

#[test]
fn mitm_query_service_asks_the_service() {
    let mut query: MitmQueryService<TestObject> = MitmQueryService::new();
    let wanted = MitmProcessInfo { process_id: 1, program_id: 0x0100_0000_0000_1000, keys_held: 0, override_flags: 0 };
    assert_eq!(query.should_mitm(wanted), Ok(true));
    assert_eq!(query.should_mitm(info()), Ok(false));
    let table = query.get_command_metadata_table();
    assert_eq!(table.len(), 1);
    assert_eq!(table[0].rq_id, 65000);
    assert_eq!(query.call_command(1, vec![]).err(), Some(ResultCode::InvalidCommandRequestId));
    assert_eq!(query.call_command(65000, vec![]).err(), Some(ResultCode::InvalidHeaderSize));
}

#[test]
fn clone_on_a_full_manager_is_made_and_given_up_again() {
    let system = Scripted::new();
    let hits = Rc::new(Cell::new(0));
    let mut manager: ServerManager<0> = ServerManager::new().unwrap();
    manager.register_session(0x100, TestObject::counting(&hits)).unwrap();
    for i in 1..MAX_OBJECT_COUNT {
        manager.register_session(0x100 + i as u32, TestObject::fresh()).unwrap();
    }
    system.sessions.borrow_mut().push_back(Ok((0x200, 0x201)));
    system.deliver(0, control(2, vec![]));
    assert_eq!(manager.process(&system), Err(ResultCode::TooManyObjects));
    assert_eq!(manager.holder_count(), 64);
    // the object has the one owner it had, and the clone's handle was closed
    assert_eq!(manager.object_use_count(0), 1);
    assert_eq!(system.calls(), vec!["create_session", "close_handle 0x200"]);
}
