//! The control interface of a session, and the session on which the
//! service manager asks whom to intercept.

use vstd::prelude::*;
use core::marker::PhantomData;
use crate::gpu::parcel::{get_u32, get_u64, lemma_u32_round_trip, push_u32, u32_from_le, u32_le,
    u64_from_le};
use crate::ipc::{Alignment, DomainObjectId, Handle, HandleMode, INVALID_HANDLE,
    MESSAGE_BUFFER_SIZE};
use crate::ipc::server::domain::DomainTable;
use crate::ipc::server::holder::{IMitmService, ServerHolder, clone_of, converted, domain_converted};
use crate::ipc::server::response::{ServerContext, only_taken_from, parameters_taken,
    parse_parameters, views_of};
use crate::ipc::sf::{CommandMetadata, IObject, ISessionObject, MitmProcessInfo, Parameter,
    ParameterKind, ParameterView, SessionObject, VersionInterval};
use crate::ipc::system::System;
use crate::mem::SharedHeap;
use crate::result::ResultCode;

verus! {

/// The control commands of a session, by their IDs: this one makes the
/// session a domain.
pub const CONTROL_CONVERT_CURRENT_OBJECT_TO_DOMAIN: u32 = 0;

/// Not implemented.
pub const CONTROL_COPY_FROM_CURRENT_DOMAIN: u32 = 1;

/// Makes a second session on the same object.
pub const CONTROL_CLONE_CURRENT_OBJECT: u32 = 2;

/// Asks for the size of the manager's pointer buffer.
pub const CONTROL_QUERY_POINTER_BUFFER_SIZE: u32 = 3;

/// As the clone, with a tag that is not used.
pub const CONTROL_CLONE_CURRENT_OBJECT_EX: u32 = 4;

/// The control interface of one session, for the time of one control
/// command. It answers for the holder it is called with, and remembers the
/// handles of a clone it made for the manager to pick up.
pub struct HipcManager {
    pub pointer_buf_size: usize,
    pub cloned_object_server_handle: Handle,
    pub cloned_object_forward_handle: Handle,
}

/// What `clone_current_object` did, step by step: the kernel was asked
/// for a session; where the holder is a MITM session, the service behind
/// it was then asked for a clone. `r` is the first failure, and nothing is
/// remembered; or it is the client end, and the server end and the clone's
/// forward handle are remembered.
pub open spec fn cloned_by<Y: System>(
    system: &Y,
    holder: ServerHolder,
    before: HipcManager,
    after: HipcManager,
    r: Result<Handle, ResultCode>,
) -> bool {
    exists|created: Result<(Handle, Handle), ResultCode>|
        #![trigger call_ensures(Y::create_session, (system,), created)]
        call_ensures(Y::create_session, (system,), created) && match created {
            Err(e) => r == Err::<Handle, ResultCode>(e) && after == before,
            Ok(ends) => if holder.is_mitm_service {
                forward_cloned_by(system, holder, before, after, ends, r)
            } else {
                r == Ok::<Handle, ResultCode>(ends.1) && after.remembers(before, ends.0, 0)
            },
        }
}

/// The second step of `cloned_by`, for a MITM session.
pub open spec fn forward_cloned_by<Y: System>(
    system: &Y,
    holder: ServerHolder,
    before: HipcManager,
    after: HipcManager,
    ends: (Handle, Handle),
    r: Result<Handle, ResultCode>,
) -> bool {
    exists|upstream: Result<Handle, ResultCode>|
        #![trigger call_ensures(Y::clone_current_object, (system, holder.mitm_forward_info), upstream)]
        call_ensures(Y::clone_current_object, (system, holder.mitm_forward_info), upstream)
            && match upstream {
            Err(e) => r == Err::<Handle, ResultCode>(e) && after == before,
            Ok(forward_handle) => r == Ok::<Handle, ResultCode>(ends.1) && after.remembers(
                before,
                ends.0,
                forward_handle,
            ),
        }
}

/// The parameters that a control command takes: the name of a domain
/// object for a copy, a tag for a tagged clone, nothing for the others.
pub open spec fn control_parameters(rq_id: u32) -> Seq<ParameterKind> {
    if rq_id == CONTROL_COPY_FROM_CURRENT_DOMAIN || rq_id == CONTROL_CLONE_CURRENT_OBJECT_EX {
        seq![ParameterKind::Pod { size: 4, align: Alignment::Four }]
    } else {
        Seq::empty()
    }
}

/// The answer to a control command, with what it carries taken by views.
pub open spec fn answer_view(r: Option<Result<Vec<Parameter>, ResultCode>>) -> Option<
    Result<Seq<ParameterView>, ResultCode>,
> {
    match r {
        Some(Ok(outputs)) => Some(Ok(views_of(outputs@))),
        Some(Err(e)) => Some(Err(e)),
        None => None,
    }
}

/// What a conversion answers with: the name, as a word.
pub open spec fn conversion_answer(went: Result<DomainObjectId, ResultCode>) -> Option<
    Result<Seq<ParameterView>, ResultCode>,
> {
    match went {
        Ok(id) => Some(Ok(seq![ParameterView::Pod { bytes: u32_le(id), align: Alignment::Four }])),
        Err(e) => Some(Err(e)),
    }
}

/// What a clone answers with: the client end, moved to the caller.
pub open spec fn clone_answer(went: Result<Handle, ResultCode>) -> Option<
    Result<Seq<ParameterView>, ResultCode>,
> {
    match went {
        Ok(handle) => Some(Ok(seq![ParameterView::Handle { mode: HandleMode::Move, handle }])),
        Err(e) => Some(Err(e)),
    }
}

/// What answering the control command `rq_id` did, and what the answer is.
///
/// The interface has the commands 0 to 4; for any other, there is no
/// answer and nothing changed. The command's parameters were taken from the
/// request first; where that failed, it is the answer, and nothing changed.
/// Then a conversion went as `domain_converted` says and answers with the
/// name; a copy from the domain answers `NotImplemented`; a query answers
/// with the size of the pointer buffer in two bytes; a clone went as
/// `cloned_by` says and answers with the client end.
pub open spec fn control_answered<Y: System>(
    system: &Y,
    rq_id: u32,
    before: HipcManager,
    after: HipcManager,
    holder_before: ServerHolder,
    holder_after: ServerHolder,
    tables_before: &SharedHeap<DomainTable>,
    tables_after: &SharedHeap<DomainTable>,
    ctx_before: &ServerContext,
    r: Option<Result<Vec<Parameter>, ResultCode>>,
) -> bool {
    if rq_id > CONTROL_CLONE_CURRENT_OBJECT_EX {
        r is None && after == before && holder_after == holder_before && tables_after.same_as(
            tables_before,
        )
    } else {
        match parameters_taken(ctx_before, control_parameters(rq_id)) {
            Err(e) => answer_view(r) == Some(Err::<Seq<ParameterView>, ResultCode>(e)) && after == before
                && holder_after == holder_before && tables_after.same_as(tables_before),
            Ok(_) => if rq_id == CONTROL_CONVERT_CURRENT_OBJECT_TO_DOMAIN {
                after == before && exists|went: Result<DomainObjectId, ResultCode>| #[trigger]
                    domain_converted(system, holder_before, holder_after, tables_before, tables_after, went)
                        && answer_view(r) == conversion_answer(went)
            } else if rq_id == CONTROL_COPY_FROM_CURRENT_DOMAIN {
                answer_view(r) == Some(Err::<Seq<ParameterView>, ResultCode>(ResultCode::NotImplemented))
                    && after == before && holder_after == holder_before && tables_after.same_as(
                    tables_before,
                )
            } else if rq_id == CONTROL_QUERY_POINTER_BUFFER_SIZE {
                answer_view(r) == Some(
                    Ok::<Seq<ParameterView>, ResultCode>(
                        seq![
                            ParameterView::Pod {
                                bytes: u16_bytes((before.pointer_buf_size() % 0x1_0000) as u16),
                                align: Alignment::Two,
                            },
                        ],
                    ),
                ) && after == before && holder_after == holder_before && tables_after.same_as(
                    tables_before,
                )
            } else {
                holder_after == holder_before && tables_after.same_as(tables_before) && exists|
                    went: Result<Handle, ResultCode>,
                | #[trigger]
                    cloned_by(system, holder_before, before, after, went) && answer_view(r)
                        == clone_answer(went)
            },
        }
    }
}

impl HipcManager {
    /// The size of the pointer buffer that this interface reports.
    pub open spec fn pointer_buf_size(&self) -> usize {
        self.pointer_buf_size
    }

    /// `self` is `before` with the handles of a clone remembered.
    pub open spec fn remembers(
        self,
        before: HipcManager,
        server_handle: Handle,
        forward_handle: Handle,
    ) -> bool {
        &&& self.pointer_buf_size() == before.pointer_buf_size()
        &&& self.cloned_object_server_handle == server_handle
        &&& self.cloned_object_forward_handle == forward_handle
    }

    pub fn new(pointer_buf_size: usize) -> (r: Self)
        ensures
            r.pointer_buf_size() == pointer_buf_size,
            r.cloned_object_server_handle == INVALID_HANDLE,
            r.cloned_object_forward_handle == INVALID_HANDLE,
    {
        Self {
            pointer_buf_size,
            cloned_object_server_handle: INVALID_HANDLE,
            cloned_object_forward_handle: INVALID_HANDLE,
        }
    }

    pub open spec fn spec_has_cloned_object(&self) -> bool {
        self.cloned_object_server_handle != 0
    }

    /// Whether a control command made a clone that waits to be picked up.
    #[verifier::when_used_as_spec(spec_has_cloned_object)]
    pub fn has_cloned_object(&self) -> (b: bool)
        ensures
            b == self.spec_has_cloned_object(),
    {
        self.cloned_object_server_handle != 0
    }

    /// The holder of the clone: a second holder of `server_holder`'s object
    /// and table under the handles that were remembered.
    pub fn clone_object(
        &self,
        server_holder: &ServerHolder,
        objects: &mut SharedHeap<SessionObject>,
        tables: &mut SharedHeap<DomainTable>,
    ) -> (r: Result<ServerHolder, ResultCode>)
        requires
            old(objects).wf(),
            old(tables).wf(),
        ensures
            final(objects).wf(),
            final(tables).wf(),
            r matches Ok(cloned) && clone_of(
                *server_holder,
                cloned,
                self.cloned_object_server_handle,
                self.cloned_object_forward_handle,
                old(objects),
                final(objects),
                old(tables),
                final(tables),
            ),
    {
        server_holder.clone_self(
            self.cloned_object_server_handle,
            self.cloned_object_forward_handle,
            objects,
            tables,
        )
    }

    /// Makes the session a domain; see `ServerHolder::convert_to_domain`.
    pub fn convert_current_object_to_domain<Y: System>(
        &mut self,
        system: &Y,
        server_holder: &mut ServerHolder,
        tables: &mut SharedHeap<DomainTable>,
    ) -> (r: Result<DomainObjectId, ResultCode>)
        requires
            old(tables).wf(),
        ensures
            final(tables).wf(),
            *final(self) == *old(self),
            domain_converted(
                system,
                *old(server_holder),
                *final(server_holder),
                old(tables),
                final(tables),
                r,
            ),
    {
        server_holder.convert_to_domain(system, tables)
    }

    /// Not implemented: always fails with `NotImplemented`.
    pub fn copy_from_current_domain(&mut self, domain_object_id: DomainObjectId) -> (r: Result<
        Handle,
        ResultCode,
    >)
        ensures
            r == Err::<Handle, ResultCode>(ResultCode::NotImplemented),
            *final(self) == *old(self),
    {
        Err(ResultCode::NotImplemented)
    }

    /// Makes a second session on the same object and returns its client
    /// end, to be moved to the caller. The steps are those of `cloned_by`.
    pub fn clone_current_object<Y: System>(&mut self, system: &Y, server_holder: &ServerHolder) -> (r:
        Result<Handle, ResultCode>)
        ensures
            cloned_by(system, *server_holder, *old(self), *final(self), r),
    {
        let created = system.create_session();
        let (server_handle, client_handle) = match created {
            Ok(ends) => ends,
            Err(e) => {
                return Err(e);
            },
        };
        let mut forward_handle: Handle = 0;
        if server_holder.is_mitm_service {
            let upstream = system.clone_current_object(server_holder.mitm_forward_info);
            match upstream {
                Ok(handle) => {
                    forward_handle = handle;
                },
                Err(e) => {
                    assert(forward_cloned_by(
                        system,
                        *server_holder,
                        *old(self),
                        *self,
                        (server_handle, client_handle),
                        Err::<Handle, ResultCode>(e),
                    ));
                    return Err(e);
                },
            }
            self.cloned_object_server_handle = server_handle;
            self.cloned_object_forward_handle = forward_handle;
            assert(forward_cloned_by(
                system,
                *server_holder,
                *old(self),
                *self,
                (server_handle, client_handle),
                Ok::<Handle, ResultCode>(client_handle),
            ));
            return Ok(client_handle);
        }
        self.cloned_object_server_handle = server_handle;
        self.cloned_object_forward_handle = forward_handle;
        Ok(client_handle)
    }

    /// The size of the manager's pointer buffer, in the sixteen bits the
    /// command has for it.
    pub fn query_pointer_buffer_size(&mut self) -> (r: Result<u16, ResultCode>)
        ensures
            r == Ok::<u16, ResultCode>((old(self).pointer_buf_size() % 0x1_0000) as u16),
            *final(self) == *old(self),
    {
        Ok((self.pointer_buf_size % 0x1_0000) as u16)
    }

    /// As `clone_current_object`; the tag is not used.
    pub fn clone_current_object_ex<Y: System>(
        &mut self,
        system: &Y,
        server_holder: &ServerHolder,
        tag: u32,
    ) -> (r: Result<Handle, ResultCode>)
        ensures
            cloned_by(system, *server_holder, *old(self), *final(self), r),
    {
        self.clone_current_object(system, server_holder)
    }

    /// Answers the control command `rq_id`, its parameters taken from the
    /// request, and returns what the response carries; `None` where the
    /// interface has no such command. What it does and answers is what
    /// `control_answered` says.
    pub fn call_command<Y: System>(
        &mut self,
        system: &Y,
        server_holder: &mut ServerHolder,
        tables: &mut SharedHeap<DomainTable>,
        rq_id: u32,
        ctx: &mut ServerContext,
    ) -> (r: Option<Result<Vec<Parameter>, ResultCode>>)
        requires
            old(tables).wf(),
        ensures
            final(tables).wf(),
            final(ctx).new_sessions == old(ctx).new_sessions,
            final(ctx).ctx.object_info == old(ctx).ctx.object_info,
            final(ctx).ctx.out_params.copy_handles == old(ctx).ctx.out_params.copy_handles,
            final(ctx).ctx.out_params.move_handles == old(ctx).ctx.out_params.move_handles,
            final(self).pointer_buf_size() == old(self).pointer_buf_size(),
            only_taken_from(old(ctx), final(ctx)),
            control_answered(
                system,
                rq_id,
                *old(self),
                *final(self),
                *old(server_holder),
                *final(server_holder),
                old(tables),
                final(tables),
                old(ctx),
                r,
            ),
            rq_id > CONTROL_CLONE_CURRENT_OBJECT_EX ==> r is None && *final(self) == *old(self)
                && *final(server_holder) == *old(server_holder) && final(tables).same_as(old(tables)),
            rq_id <= CONTROL_CLONE_CURRENT_OBJECT_EX ==> r is Some,
            r matches Some(Ok(outputs)) ==> outputs@.len() == 1 && (outputs@[0]@ is Pod
                || outputs@[0]@ is Handle),
            rq_id != CONTROL_CONVERT_CURRENT_OBJECT_TO_DOMAIN
                ==> *final(server_holder) == *old(server_holder)
                && final(tables).same_as(old(tables)),
            rq_id == CONTROL_CONVERT_CURRENT_OBJECT_TO_DOMAIN ==> {
                &&& *final(self) == *old(self)
                &&& old(ctx).ctx.in_params.data@.len() <= MESSAGE_BUFFER_SIZE
                    && old(server_holder).info.is_domain() ==> (r matches Some(Err(e))
                    && e == ResultCode::AlreadyDomain)
                &&& r matches Some(Ok(outputs)) ==> outputs@.len() == 1
                    && (outputs@[0]@ matches ParameterView::Pod {
                    bytes,
                    align,
                } && align == Alignment::Four && bytes.len() == 4 && converted(
                    *old(server_holder),
                    *final(server_holder),
                    old(tables),
                    final(tables),
                    u32_from_le(bytes),
                ))
            },
            rq_id != CONTROL_CLONE_CURRENT_OBJECT && rq_id != CONTROL_CLONE_CURRENT_OBJECT_EX ==> *final(self)
                == *old(self),
            rq_id == CONTROL_QUERY_POINTER_BUFFER_SIZE && old(ctx).ctx.in_params.data@.len()
                <= MESSAGE_BUFFER_SIZE ==> *final(self) == *old(self) && (r matches Some(Ok(outputs))
                && outputs@.len() == 1 && outputs@[0]@ == (ParameterView::Pod {
                bytes: u16_bytes((old(self).pointer_buf_size() % 0x1_0000) as u16),
                align: Alignment::Two,
            })),
            rq_id == CONTROL_COPY_FROM_CURRENT_DOMAIN ==> *final(self) == *old(self) && r is Some
                && r->0 is Err,
            (rq_id == CONTROL_CLONE_CURRENT_OBJECT || rq_id == CONTROL_CLONE_CURRENT_OBJECT_EX) ==> match r {
                Some(Ok(outputs)) => outputs@.len() == 1 && (outputs@[0]@ matches ParameterView::Handle {
                    mode,
                    handle,
                } && mode == HandleMode::Move && cloned_by(
                    system,
                    *old(server_holder),
                    *old(self),
                    *final(self),
                    Ok::<Handle, ResultCode>(handle),
                )),
                Some(Err(e)) => *final(self) == *old(self),
                None => false,
            },
    {
        if rq_id == CONTROL_CONVERT_CURRENT_OBJECT_TO_DOMAIN {
            let no_parameters: Vec<ParameterKind> = Vec::new();
            assert(no_parameters@ =~= control_parameters(rq_id));
            match parse_parameters(ctx, &no_parameters) {
                Ok(_) => {},
                Err(e) => {
                    return Some(Err(e));
                },
            }
            let went = self.convert_current_object_to_domain(system, server_holder, tables);
            match went {
                Ok(domain_object_id) => {
                    let mut bytes: Vec<u8> = Vec::new();
                    push_u32(&mut bytes, domain_object_id);
                    proof {
                        lemma_u32_round_trip(domain_object_id);
                        assert(bytes@ =~= u32_le(domain_object_id));
                    }
                    let mut outputs: Vec<Parameter> = Vec::new();
                    outputs.push(Parameter::Pod { bytes, align: Alignment::Four });
                    let r = Some(Ok(outputs));
                    assert(views_of(outputs@) =~= seq![
                        ParameterView::Pod { bytes: u32_le(domain_object_id), align: Alignment::Four },
                    ]);
                    assert(answer_view(r) == conversion_answer(went));
                    r
                },
                Err(e) => {
                    let r = Some(Err(e));
                    assert(answer_view(r) == conversion_answer(went));
                    r
                },
            }
        } else if rq_id == CONTROL_COPY_FROM_CURRENT_DOMAIN {
            let mut kinds: Vec<ParameterKind> = Vec::new();
            kinds.push(ParameterKind::Pod { size: 4, align: Alignment::Four });
            assert(kinds@ =~= control_parameters(rq_id));
            let inputs = match parse_parameters(ctx, &kinds) {
                Ok(inputs) => inputs,
                Err(e) => {
                    return Some(Err(e));
                },
            };
            let domain_object_id: DomainObjectId = match &inputs[0] {
                Parameter::Pod { bytes, align } => {
                    if bytes.len() >= 4 {
                        get_u32(bytes, 0)
                    } else {
                        0
                    }
                },
                _ => 0,
            };
            match self.copy_from_current_domain(domain_object_id) {
                Ok(handle) => {
                    let mut outputs: Vec<Parameter> = Vec::new();
                    outputs.push(Parameter::Handle { mode: HandleMode::Move, handle });
                    Some(Ok(outputs))
                },
                Err(e) => Some(Err(e)),
            }
        } else if rq_id == CONTROL_CLONE_CURRENT_OBJECT {
            let no_parameters: Vec<ParameterKind> = Vec::new();
            assert(no_parameters@ =~= control_parameters(rq_id));
            match parse_parameters(ctx, &no_parameters) {
                Ok(_) => {},
                Err(e) => {
                    return Some(Err(e));
                },
            }
            let went = self.clone_current_object(system, server_holder);
            match went {
                Ok(handle) => {
                    let mut outputs: Vec<Parameter> = Vec::new();
                    outputs.push(Parameter::Handle { mode: HandleMode::Move, handle });
                    let r = Some(Ok(outputs));
                    assert(views_of(outputs@) =~= seq![
                        ParameterView::Handle { mode: HandleMode::Move, handle },
                    ]);
                    assert(answer_view(r) == clone_answer(went));
                    r
                },
                Err(e) => {
                    let r = Some(Err(e));
                    assert(answer_view(r) == clone_answer(went));
                    r
                },
            }
        } else if rq_id == CONTROL_QUERY_POINTER_BUFFER_SIZE {
            let no_parameters: Vec<ParameterKind> = Vec::new();
            assert(no_parameters@ =~= control_parameters(rq_id));
            match parse_parameters(ctx, &no_parameters) {
                Ok(_) => {},
                Err(e) => {
                    return Some(Err(e));
                },
            }
            match self.query_pointer_buffer_size() {
                Ok(size) => {
                    let mut bytes: Vec<u8> = Vec::new();
                    bytes.push((size % 256) as u8);
                    bytes.push((size / 256) as u8);
                    assert(bytes@ =~= u16_bytes(size));
                    let mut outputs: Vec<Parameter> = Vec::new();
                    outputs.push(Parameter::Pod { bytes, align: Alignment::Two });
                    assert(views_of(outputs@) =~= seq![
                        ParameterView::Pod { bytes: u16_bytes(size), align: Alignment::Two },
                    ]);
                    Some(Ok(outputs))
                },
                Err(e) => Some(Err(e)),
            }
        } else if rq_id == CONTROL_CLONE_CURRENT_OBJECT_EX {
            let mut kinds: Vec<ParameterKind> = Vec::new();
            kinds.push(ParameterKind::Pod { size: 4, align: Alignment::Four });
            assert(kinds@ =~= control_parameters(rq_id));
            let inputs = match parse_parameters(ctx, &kinds) {
                Ok(inputs) => inputs,
                Err(e) => {
                    return Some(Err(e));
                },
            };
            let tag: u32 = match &inputs[0] {
                Parameter::Pod { bytes, align } => {
                    if bytes.len() >= 4 {
                        get_u32(bytes, 0)
                    } else {
                        0
                    }
                },
                _ => 0,
            };
            let went = self.clone_current_object_ex(system, server_holder, tag);
            match went {
                Ok(handle) => {
                    let mut outputs: Vec<Parameter> = Vec::new();
                    outputs.push(Parameter::Handle { mode: HandleMode::Move, handle });
                    let r = Some(Ok(outputs));
                    assert(views_of(outputs@) =~= seq![
                        ParameterView::Handle { mode: HandleMode::Move, handle },
                    ]);
                    assert(answer_view(r) == clone_answer(went));
                    r
                },
                Err(e) => {
                    let r = Some(Err(e));
                    assert(answer_view(r) == clone_answer(went));
                    r
                },
            }
        } else {
            None
        }
    }
}

/// The two bytes of `v`, least significant first.
pub open spec fn u16_bytes(v: u16) -> Seq<u8> {
    seq![(v % 256) as u8, (v / 256) as u8]
}

/// The ID of the one command of a MITM query service.
pub const MITM_QUERY_SHOULD_MITM: u32 = 65000;

/// The size of a process description in raw data.
pub const MITM_PROCESS_INFO_SIZE: usize = 32;

/// The process described by the first thirty-two bytes of `bytes`: four
/// 64-bit values, least significant byte first.
pub open spec fn process_info_of(bytes: Seq<u8>) -> MitmProcessInfo {
    MitmProcessInfo {
        process_id: u64_from_le(bytes.subrange(0, 8)),
        program_id: u64_from_le(bytes.subrange(8, 16)),
        keys_held: u64_from_le(bytes.subrange(16, 24)),
        override_flags: u64_from_le(bytes.subrange(24, 32)),
    }
}

/// Reads a process description from raw data.
pub fn read_process_info(bytes: &Vec<u8>) -> (r: Option<MitmProcessInfo>)
    ensures
        bytes@.len() >= MITM_PROCESS_INFO_SIZE ==> r == Some(process_info_of(bytes@)),
        bytes@.len() < MITM_PROCESS_INFO_SIZE ==> r is None,
{
    if bytes.len() < MITM_PROCESS_INFO_SIZE {
        return None;
    }
    Some(
        MitmProcessInfo {
            process_id: get_u64(bytes, 0),
            program_id: get_u64(bytes, 8),
            keys_held: get_u64(bytes, 16),
            override_flags: get_u64(bytes, 24),
        },
    )
}

/// The session on which the service manager asks whether a process's
/// sessions with the service `S` are to be intercepted.
pub struct MitmQueryService<S: IMitmService> {
    phantom: PhantomData<S>,
}

impl<S: IMitmService> MitmQueryService<S> {
    pub fn new() -> (r: Self) {
        Self { phantom: PhantomData }
    }

    /// What `S` says of the process: always succeeds, with `S`'s answer.
    pub fn should_mitm(&mut self, info: MitmProcessInfo) -> (r: Result<bool, ResultCode>)
        ensures
            r matches Ok(answer) && call_ensures(S::should_mitm, (info,), answer),
    {
        Ok(S::should_mitm(info))
    }
}

/// What a MITM query service answers a command with: only the one
/// command exists; its one parameter is a process description; the answer
/// is what the service `S` says of that process, in one byte.
pub open spec fn query_answered<S: IMitmService>(
    rq_id: u32,
    in_params: Seq<Parameter>,
    r: Result<Vec<Parameter>, ResultCode>,
) -> bool {
    if rq_id != MITM_QUERY_SHOULD_MITM {
        r matches Err(e) && e == ResultCode::InvalidCommandRequestId
    } else if in_params.len() == 1 && in_params[0]@ is Pod && in_params[0]@->Pod_bytes.len()
        >= MITM_PROCESS_INFO_SIZE {
        r matches Ok(outputs) && outputs@.len() == 1 && exists|answer: bool|
            #![trigger call_ensures(S::should_mitm, (process_info_of(in_params[0]@->Pod_bytes),), answer)]
            call_ensures(S::should_mitm, (process_info_of(in_params[0]@->Pod_bytes),), answer)
                && outputs@[0]@ == (ParameterView::Pod {
                bytes: seq![if answer { 1u8 } else { 0u8 }],
                align: Alignment::One,
            })
    } else {
        r matches Err(e) && e == ResultCode::InvalidHeaderSize
    }
}

impl<S: IMitmService> IObject for MitmQueryService<S> {
    /// The one command of the service: it answers to its ID on every
    /// version, and takes a process description.
    fn get_command_metadata_table(&self) -> (table: Vec<CommandMetadata>)
        ensures
            table@.len() == 1,
            table@[0].rq_id == MITM_QUERY_SHOULD_MITM,
            table@[0].version_interval == (VersionInterval { min: 0, max: u32::MAX }),
            table@[0].in_params@ == seq![
                ParameterKind::Pod { size: MITM_PROCESS_INFO_SIZE, align: Alignment::Eight },
            ],
    {
        let mut in_params: Vec<ParameterKind> = Vec::new();
        in_params.push(ParameterKind::Pod { size: MITM_PROCESS_INFO_SIZE, align: Alignment::Eight });
        let mut table: Vec<CommandMetadata> = Vec::new();
        table.push(CommandMetadata::new(MITM_QUERY_SHOULD_MITM, VersionInterval::all(), in_params));
        table
    }

    /// Answers the one command as `query_answered` says.
    fn call_command(&mut self, rq_id: u32, in_params: Vec<Parameter>) -> (r: Result<
        Vec<Parameter>,
        ResultCode,
    >)
        ensures
            query_answered::<S>(rq_id, in_params@, r),
    {
        if rq_id != MITM_QUERY_SHOULD_MITM {
            return Err(ResultCode::InvalidCommandRequestId);
        }
        if in_params.len() != 1 {
            return Err(ResultCode::InvalidHeaderSize);
        }
        let info = match &in_params[0] {
            Parameter::Pod { bytes, align } => match read_process_info(bytes) {
                Some(info) => info,
                None => {
                    return Err(ResultCode::InvalidHeaderSize);
                },
            },
            _ => {
                return Err(ResultCode::InvalidHeaderSize);
            },
        };
        let answer = match self.should_mitm(info) {
            Ok(answer) => answer,
            Err(e) => {
                return Err(e);
            },
        };
        let mut bytes: Vec<u8> = Vec::new();
        bytes.push(if answer { 1u8 } else { 0u8 });
        assert(bytes@ =~= seq![if answer { 1u8 } else { 0u8 }]);
        let mut outputs: Vec<Parameter> = Vec::new();
        outputs.push(Parameter::Pod { bytes, align: Alignment::One });
        Ok(outputs)
    }
}

impl<S: IMitmService> ISessionObject for MitmQueryService<S> {

}

} // verus!
