//! The glue between a command and its handler: parameters are taken from
//! the request by their kind, and what the handler returns is laid out in
//! the response in two passes, one that measures and one that writes.

use vstd::prelude::*;
use crate::ipc::{Alignment, BufferAttribute, BufferDescriptor, CommandContext, DataWalker, Handle,
    HandleMode, MESSAGE_BUFFER_SIZE, ObjectInfo, aligned, lemma_walk_from_start, walk};
use crate::ipc::server::domain::{lemma_push_bound, DomainTable, is_full, is_smallest_free};
use crate::ipc::server::holder::{ServerHolder, fresh_in};
use crate::ipc::sf::{CommandMetadata, Parameter, ParameterKind, ParameterView, SessionObject};
use crate::ipc::system::System;
use crate::mem::{CellId, Shared, SharedHeap};
use crate::result::ResultCode;

verus! {

/// What one command needs beside its context: the walker over its raw
/// data, the domain table of the session it came on, and the sessions that
/// serving it brought into being.
pub struct ServerContext {
    pub ctx: CommandContext,
    pub raw_data_walker: DataWalker,
    pub domain_table: Option<CellId>,
    pub new_sessions: Vec<ServerHolder>,
}

impl ServerContext {
    pub fn new(
        ctx: CommandContext,
        raw_data_walker: DataWalker,
        domain_table: Option<CellId>,
        new_sessions: Vec<ServerHolder>,
    ) -> (r: Self)
        ensures
            r.ctx == ctx,
            r.raw_data_walker == raw_data_walker,
            r.domain_table == domain_table,
            r.new_sessions == new_sessions,
    {
        Self { ctx, raw_data_walker, domain_table, new_sessions }
    }

    /// The raw data fit a message, and the walker has not left them.
    pub open spec fn wf(&self) -> bool {
        &&& self.ctx.in_params.data@.len() <= MESSAGE_BUFFER_SIZE
        &&& self.raw_data_walker.offset() <= MESSAGE_BUFFER_SIZE
    }
}

/// The bytes of a process ID's place in raw data.
pub const PROCESS_ID_SIZE: usize = 8;

/// What is left of a request while its parameters are taken: where the
/// walker stands in the raw data, the handles and buffers not yet taken, and
/// the buffers that the response carries back.
pub struct Taking {
    pub offset: int,
    pub copy_handles: Seq<Handle>,
    pub move_handles: Seq<Handle>,
    pub buffers: Seq<BufferDescriptor>,
    pub carried: Seq<BufferDescriptor>,
}

impl ServerContext {
    /// What is left of the request in this context.
    pub open spec fn taking(&self) -> Taking {
        Taking {
            offset: self.raw_data_walker.offset(),
            copy_handles: self.ctx.in_params.copy_handles@,
            move_handles: self.ctx.in_params.move_handles@,
            buffers: self.ctx.in_params.buffers@,
            carried: self.ctx.out_params.buffers@,
        }
    }

    /// What is left of the request before any parameter is taken.
    pub open spec fn untaken(&self) -> Taking {
        Taking { offset: 0, ..self.taking() }
    }
}

/// What taking one parameter of the given kind gives, and what is left
/// after it.
///
/// Plain data is read from the raw data at its alignment. A buffer is the
/// next descriptor; one that is written through a pointer is also carried
/// back by the response, as an input pointer. A handle is the next of its
/// mode. A process ID takes eight bytes of raw data as its place and is the
/// ID the kernel vouches for; it fails with `UnsupportedOperation` where the
/// request sent none. A session object fails with `UnsupportedOperation`.
/// Where raw data, descriptors or handles run out, the failure is
/// `InvalidHeaderSize`.
pub open spec fn take_one(
    data: Seq<u8>,
    send_process_id: bool,
    process_id: u64,
    left: Taking,
    kind: ParameterKind,
) -> Result<(ParameterView, Taking), ResultCode> {
    match kind {
        ParameterKind::Pod { size, align } => {
            let end = walk(left.offset, size as int, align);
            if size <= MESSAGE_BUFFER_SIZE && end <= data.len() {
                Ok(
                    (
                        ParameterView::Pod { bytes: data.subrange(end - size, end), align },
                        Taking { offset: end, ..left },
                    ),
                )
            } else {
                Err(ResultCode::InvalidHeaderSize)
            }
        },
        ParameterKind::Buffer { attribute } => {
            if left.buffers.len() > 0 {
                let descriptor = left.buffers[0];
                Ok(
                    (
                        ParameterView::Buffer { descriptor },
                        Taking {
                            buffers: left.buffers.subrange(1, left.buffers.len() as int),
                            carried: if attribute.output && attribute.pointer {
                                left.carried.push(
                                    BufferDescriptor { attribute: BufferAttribute::in_pointer(),
                                        ..descriptor },
                                )
                            } else {
                                left.carried
                            },
                            ..left
                        },
                    ),
                )
            } else {
                Err(ResultCode::InvalidHeaderSize)
            }
        },
        ParameterKind::Handle { mode } => match mode {
            HandleMode::Copy => if left.copy_handles.len() > 0 {
                Ok(
                    (
                        ParameterView::Handle { mode, handle: left.copy_handles[0] },
                        Taking {
                            copy_handles: left.copy_handles.subrange(1, left.copy_handles.len() as int),
                            ..left
                        },
                    ),
                )
            } else {
                Err(ResultCode::InvalidHeaderSize)
            },
            HandleMode::Move => if left.move_handles.len() > 0 {
                Ok(
                    (
                        ParameterView::Handle { mode, handle: left.move_handles[0] },
                        Taking {
                            move_handles: left.move_handles.subrange(1, left.move_handles.len() as int),
                            ..left
                        },
                    ),
                )
            } else {
                Err(ResultCode::InvalidHeaderSize)
            },
        },
        ParameterKind::ProcessId => {
            let end = walk(left.offset, PROCESS_ID_SIZE as int, Alignment::Eight);
            if !send_process_id {
                Err(ResultCode::UnsupportedOperation)
            } else if end <= data.len() {
                Ok((ParameterView::ProcessId { process_id }, Taking { offset: end, ..left }))
            } else {
                Err(ResultCode::InvalidHeaderSize)
            }
        },
        ParameterKind::Session => Err(ResultCode::UnsupportedOperation),
    }
}

/// What taking the first `n` parameters of `kinds` in order gives, and
/// what is left after them: the failure of the first that cannot be taken,
/// or all of them.
pub open spec fn take_all(
    data: Seq<u8>,
    send_process_id: bool,
    process_id: u64,
    left: Taking,
    kinds: Seq<ParameterKind>,
    n: int,
) -> Result<(Seq<ParameterView>, Taking), ResultCode>
    decreases n,
{
    if n <= 0 {
        Ok((Seq::empty(), left))
    } else {
        match take_all(data, send_process_id, process_id, left, kinds, n - 1) {
            Err(e) => Err(e),
            Ok(before) => match take_one(data, send_process_id, process_id, before.1, kinds[n - 1]) {
                Err(e) => Err(e),
                Ok(taken) => Ok((before.0.push(taken.0), taken.1)),
            },
        }
    }
}

/// What taking the parameters of `kinds` from the request in `ctx` gives:
/// raw data longer than a message fail with `InvalidHeaderSize` before
/// anything is taken; else it is what `take_all` says, from the head of the
/// raw data.
pub open spec fn parameters_taken(ctx: &ServerContext, kinds: Seq<ParameterKind>) -> Result<
    (Seq<ParameterView>, Taking),
    ResultCode,
> {
    if ctx.ctx.in_params.data@.len() > MESSAGE_BUFFER_SIZE {
        Err(ResultCode::InvalidHeaderSize)
    } else {
        take_all(
            ctx.ctx.in_params.data@,
            ctx.ctx.in_params.send_process_id,
            ctx.ctx.in_params.process_id,
            ctx.untaken(),
            kinds,
            kinds.len() as int,
        )
    }
}

/// The views of parameters.
pub open spec fn views_of(parameters: Seq<Parameter>) -> Seq<ParameterView> {
    parameters.map_values(|p: Parameter| p@)
}

/// Whether `after` is `before` with nothing changed but what taking
/// parameters changes and the sessions and data of the response.
pub open spec fn only_taken_from(before: &ServerContext, after: &ServerContext) -> bool {
    &&& after.ctx.object_info == before.ctx.object_info
    &&& after.ctx.in_params.data == before.ctx.in_params.data
    &&& after.ctx.in_params.send_process_id == before.ctx.in_params.send_process_id
    &&& after.ctx.in_params.process_id == before.ctx.in_params.process_id
    &&& after.domain_table == before.domain_table
    &&& after.new_sessions == before.new_sessions
    &&& after.ctx.out_params.data == before.ctx.out_params.data
    &&& after.ctx.out_params.data_size == before.ctx.out_params.data_size
    &&& after.ctx.out_params.copy_handles == before.ctx.out_params.copy_handles
    &&& after.ctx.out_params.move_handles == before.ctx.out_params.move_handles
    &&& after.ctx.out_params.objects == before.ctx.out_params.objects
}

/// Takes one parameter of the given kind from the request: what
/// `take_one` says. A failure takes nothing.
pub fn parse_request(ctx: &mut ServerContext, kind: ParameterKind) -> (r: Result<Parameter, ResultCode>)
    requires
        old(ctx).wf(),
    ensures
        final(ctx).wf(),
        only_taken_from(old(ctx), final(ctx)),
        match take_one(
            old(ctx).ctx.in_params.data@,
            old(ctx).ctx.in_params.send_process_id,
            old(ctx).ctx.in_params.process_id,
            old(ctx).taking(),
            kind,
        ) {
            Ok(taken) => r matches Ok(p) && p@ == taken.0 && final(ctx).taking() == taken.1,
            Err(e) => r matches Err(e2) && e2 == e && final(ctx).taking() == old(ctx).taking(),
        },
{
    match kind {
        ParameterKind::Pod { size, align } => {
            if size > MESSAGE_BUFFER_SIZE {
                return Err(ResultCode::InvalidHeaderSize);
            }
            match ctx.raw_data_walker.advance_get(&ctx.ctx.in_params.data, size, align) {
                Some(bytes) => Ok(Parameter::Pod { bytes, align }),
                None => Err(ResultCode::InvalidHeaderSize),
            }
        },
        ParameterKind::Buffer { attribute } => {
            let descriptor = match ctx.ctx.in_params.pop_buffer() {
                Ok(descriptor) => descriptor,
                Err(e) => {
                    return Err(e);
                },
            };
            if attribute.output && attribute.pointer {
                ctx.ctx.out_params.add_buffer(
                    BufferDescriptor {
                        address: descriptor.address,
                        size: descriptor.size,
                        attribute: BufferAttribute {
                            input: true,
                            output: false,
                            map_alias: false,
                            pointer: true,
                            fixed_size: false,
                            auto_select: false,
                        },
                    },
                );
            }
            Ok(Parameter::Buffer { descriptor })
        },
        ParameterKind::Handle { mode } => {
            match ctx.ctx.in_params.pop_handle(mode) {
                Ok(handle) => Ok(Parameter::Handle { mode, handle }),
                Err(e) => Err(e),
            }
        },
        ParameterKind::ProcessId => {
            if ctx.ctx.in_params.send_process_id {
                match ctx.raw_data_walker.advance_get(
                    &ctx.ctx.in_params.data,
                    PROCESS_ID_SIZE,
                    Alignment::Eight,
                ) {
                    Some(_) => Ok(Parameter::ProcessId { process_id: ctx.ctx.in_params.process_id }),
                    None => Err(ResultCode::InvalidHeaderSize),
                }
            } else {
                Err(ResultCode::UnsupportedOperation)
            }
        },
        ParameterKind::Session => Err(ResultCode::UnsupportedOperation),
    }
}

/// How a parameter is taken from a request, by its kind.
pub trait RequestCommandParameter {
    /// Takes the parameter from the request.
    fn after_request_read(&self, ctx: &mut ServerContext) -> Result<Parameter, ResultCode>
        requires
            old(ctx).wf(),
    ;
}

impl RequestCommandParameter for ParameterKind {
    /// Takes one parameter of this kind from the request: what `take_one`
    /// says. A failure takes nothing.
    fn after_request_read(&self, ctx: &mut ServerContext) -> (r: Result<Parameter, ResultCode>)
        ensures
            final(ctx).wf(),
            only_taken_from(old(ctx), final(ctx)),
            match take_one(
                old(ctx).ctx.in_params.data@,
                old(ctx).ctx.in_params.send_process_id,
                old(ctx).ctx.in_params.process_id,
                old(ctx).taking(),
                *self,
            ) {
                Ok(taken) => r matches Ok(p) && p@ == taken.0 && final(ctx).taking() == taken.1,
                Err(e) => r matches Err(e2) && e2 == e && final(ctx).taking() == old(ctx).taking(),
            },
    {
        parse_request(ctx, *self)
    }
}

/// Takes the parameters of a command from the request, in order, the
/// walker starting over at the head of the raw data: what `take_all` says.
/// Raw data longer than a message fail with `InvalidHeaderSize` before
/// anything is taken.
pub fn parse_parameters(ctx: &mut ServerContext, kinds: &Vec<ParameterKind>) -> (r: Result<
    Vec<Parameter>,
    ResultCode,
>)
    ensures
        only_taken_from(old(ctx), final(ctx)),
        old(ctx).ctx.in_params.data@.len() > MESSAGE_BUFFER_SIZE ==> (r matches Err(e) && e
            == ResultCode::InvalidHeaderSize) && final(ctx).taking() == old(ctx).taking(),
        old(ctx).ctx.in_params.data@.len() <= MESSAGE_BUFFER_SIZE ==> match take_all(
            old(ctx).ctx.in_params.data@,
            old(ctx).ctx.in_params.send_process_id,
            old(ctx).ctx.in_params.process_id,
            old(ctx).untaken(),
            kinds@,
            kinds@.len() as int,
        ) {
            Ok(taken) => r matches Ok(parameters) && views_of(parameters@) == taken.0
                && final(ctx).taking() == taken.1,
            Err(e) => r matches Err(e2) && e2 == e,
        },
        r matches Ok(parameters) ==> parameters@.len() == kinds@.len(),
        match parameters_taken(old(ctx), kinds@) {
            Ok(taken) => r matches Ok(parameters) && views_of(parameters@) == taken.0,
            Err(e) => r matches Err(e2) && e2 == e,
        },
{
    if ctx.ctx.in_params.data.len() > MESSAGE_BUFFER_SIZE {
        return Err(ResultCode::InvalidHeaderSize);
    }
    ctx.raw_data_walker = DataWalker::new();
    let mut taken: Vec<Parameter> = Vec::new();
    let mut i: usize = 0;
    let ghost data = ctx.ctx.in_params.data@;
    let ghost spid = ctx.ctx.in_params.send_process_id;
    let ghost pid = ctx.ctx.in_params.process_id;
    assert(views_of(taken@) =~= Seq::<ParameterView>::empty());
    while i < kinds.len()
        invariant
            i <= kinds.len(),
            taken@.len() == i,
            ctx.wf(),
            only_taken_from(old(ctx), ctx),
            data == old(ctx).ctx.in_params.data@,
            spid == old(ctx).ctx.in_params.send_process_id,
            pid == old(ctx).ctx.in_params.process_id,
            take_all(data, spid, pid, old(ctx).untaken(), kinds@, i as int) == Ok::<
                (Seq<ParameterView>, Taking),
                ResultCode,
            >((views_of(taken@), ctx.taking())),
        decreases kinds.len() - i,
    {
        let ghost before = views_of(taken@);
        match kinds[i].after_request_read(ctx) {
            Ok(parameter) => {
                taken.push(parameter);
                assert(views_of(taken@) =~= before.push(parameter@));
            },
            Err(e) => {
                proof {
                    lemma_take_all_fails(data, spid, pid, old(ctx).untaken(), kinds@, i + 1,
                        kinds@.len() as int);
                }
                return Err(e);
            },
        }
        i += 1;
    }
    Ok(taken)
}

/// Once a parameter cannot be taken, taking more does not help.
pub proof fn lemma_take_all_fails(
    data: Seq<u8>,
    send_process_id: bool,
    process_id: u64,
    left: Taking,
    kinds: Seq<ParameterKind>,
    n: int,
    m: int,
)
    requires
        0 <= n <= m,
        take_all(data, send_process_id, process_id, left, kinds, n) is Err,
    ensures
        take_all(data, send_process_id, process_id, left, kinds, m) == take_all(
            data,
            send_process_id,
            process_id,
            left,
            kinds,
            n,
        ),
    decreases m,
{
    if n < m {
        lemma_take_all_fails(data, send_process_id, process_id, left, kinds, n, m - 1);
    }
}

/// Where the walker stands after the first `n` of `outputs`: only plain
/// data moves it.
pub open spec fn planned_offset(outputs: Seq<Parameter>, n: int) -> int
    decreases n,
{
    if n <= 0 {
        0
    } else {
        match outputs[n - 1]@ {
            ParameterView::Pod { bytes, align } => walk(
                planned_offset(outputs, n - 1),
                bytes.len() as int,
                align,
            ),
            _ => planned_offset(outputs, n - 1),
        }
    }
}

/// The size of the raw data that carries `outputs`.
pub open spec fn planned_size(outputs: Seq<Parameter>) -> int {
    planned_offset(outputs, outputs.len() as int)
}

/// A walker never moves backwards.
pub proof fn lemma_planned_offset_grows(outputs: Seq<Parameter>, i: int, j: int)
    requires
        0 <= i <= j <= outputs.len(),
    ensures
        0 <= planned_offset(outputs, i) <= planned_offset(outputs, j),
    decreases j,
{
    if j > 0 {
        if i < j {
            lemma_planned_offset_grows(outputs, i, j - 1);
        } else {
            lemma_planned_offset_grows(outputs, i - 1, j - 1);
        }
        match outputs[j - 1]@ {
            ParameterView::Pod { bytes, align } => {
                lemma_walk_grows(planned_offset(outputs, j - 1), bytes.len() as int, align);
            },
            _ => {},
        }
    }
}

/// A step of the walker ends no earlier than it starts.
pub proof fn lemma_walk_grows(offset: int, size: int, align: Alignment)
    requires
        offset >= 0,
        size >= 0,
    ensures
        walk(offset, size, align) >= offset + size,
{
    let a = align.value() as int;
    assert((offset + a - 1) / a * a >= offset) by (nonlinear_arith)
        requires
            a > 0,
            offset >= 0,
    ;
}

/// Measures the raw data of a response, the walker passing over each
/// output with no data under it. Fails with `InvalidHeaderSize` exactly
/// when the outputs do not fit a message.
pub fn measure_response(outputs: &Vec<Parameter>) -> (r: Result<usize, ResultCode>)
    ensures
        match r {
            Ok(size) => size == planned_size(outputs@) && size <= MESSAGE_BUFFER_SIZE,
            Err(e) => e == ResultCode::InvalidHeaderSize && planned_size(outputs@) > MESSAGE_BUFFER_SIZE,
        },
{
    let mut walker = DataWalker::new();
    let mut i: usize = 0;
    while i < outputs.len()
        invariant
            i <= outputs.len(),
            walker.offset() == planned_offset(outputs@, i as int),
            walker.offset() <= MESSAGE_BUFFER_SIZE,
        decreases outputs.len() - i,
    {
        proof {
            lemma_planned_offset_grows(outputs@, i + 1, outputs@.len() as int);
        }
        match &outputs[i] {
            Parameter::Pod { bytes, align } => {
                if bytes.len() > MESSAGE_BUFFER_SIZE {
                    proof {
                        lemma_walk_grows(walker.offset(), bytes@.len() as int, *align);
                    }
                    return Err(ResultCode::InvalidHeaderSize);
                }
                walker.advance(bytes.len(), *align);
                if walker.get_offset() > MESSAGE_BUFFER_SIZE {
                    return Err(ResultCode::InvalidHeaderSize);
                }
            },
            _ => {},
        }
        i += 1;
    }
    Ok(walker.get_offset())
}

/// The plan for one plain output: it starts the raw data, and brings no handle.
pub proof fn lemma_single_pod(outputs: Seq<Parameter>)
    requires
        outputs.len() == 1,
        outputs[0]@ is Pod,
    ensures
        planned_size(outputs) == walk(0, outputs[0]@->Pod_bytes.len() as int, outputs[0]@->Pod_align),
        handles_among(outputs, HandleMode::Move, 1) == Seq::<Handle>::empty(),
        handles_among(outputs, HandleMode::Copy, 1) == Seq::<Handle>::empty(),
{
    reveal_with_fuel(planned_offset, 2);
    reveal_with_fuel(handles_among, 2);
}

/// Raw data that carry one plain output alone are that output.
pub proof fn lemma_single_word(outputs: Seq<Parameter>, data: Seq<u8>)
    requires
        outputs.len() == 1,
        outputs[0]@ is Pod,
        data.len() == planned_size(outputs),
        carries(data, outputs, 1),
    ensures
        data == outputs[0]@->Pod_bytes,
{
    lemma_single_pod(outputs);
    let bytes = outputs[0]@->Pod_bytes;
    lemma_walk_from_start(bytes.len() as int, outputs[0]@->Pod_align);
    assert(planned_offset(outputs, 1) == bytes.len());
    assert(outputs[0]@ matches ParameterView::Pod { bytes: b, align } ==> data.subrange(
        planned_offset(outputs, 1) - b.len(),
        planned_offset(outputs, 1),
    ) == b);
    assert(data.subrange(0, bytes.len() as int) == bytes);
    assert(data =~= data.subrange(0, bytes.len() as int));
}

/// The two passes over a response advance alike. Where the writing pass
/// meets the output `k` at the offset that the measuring pass planned for
/// it and writes it, it leaves the walker where the measuring pass planned
/// the next output: for plain data, at the offset rounded up to the
/// alignment plus the size; for anything else, where it was.
pub proof fn lemma_passes_advance_alike(
    outputs: Seq<Parameter>,
    k: int,
    data_before: Seq<u8>,
    data_after: Seq<u8>,
    offset_after: int,
)
    requires
        0 <= k < outputs.len(),
        written_one(
            outputs[k]@,
            data_before,
            data_after,
            planned_offset(outputs, k),
            offset_after,
            Ok::<(), ResultCode>(()),
        ),
    ensures
        offset_after == planned_offset(outputs, k + 1),
        outputs[k]@ matches ParameterView::Pod { bytes, align } ==> offset_after == aligned(
            planned_offset(outputs, k),
            align,
        ) + bytes.len(),
{
    reveal_with_fuel(planned_offset, 2);
}

/// The plan for one handle: no raw data, and the handle among those of its mode.
pub proof fn lemma_single_handle(outputs: Seq<Parameter>)
    requires
        outputs.len() == 1,
        outputs[0]@ is Handle,
    ensures
        planned_size(outputs) == 0,
        handles_among(outputs, outputs[0]@->Handle_mode, 1) == seq![outputs[0]@->Handle_handle],
{
    reveal_with_fuel(planned_offset, 2);
    reveal_with_fuel(handles_among, 2);
    assert(handles_among(outputs, outputs[0]@->Handle_mode, 1) =~= seq![outputs[0]@->Handle_handle]);
}

/// Whether `data` carries every plain output among the first `n` of
/// `outputs` at the place the walker gives it.
pub open spec fn carries(data: Seq<u8>, outputs: Seq<Parameter>, n: int) -> bool {
    forall|k: int|
        0 <= k < n ==> (#[trigger] outputs[k]@ matches ParameterView::Pod { bytes, align } ==> data.subrange(
            planned_offset(outputs, k + 1) - bytes.len(),
            planned_offset(outputs, k + 1),
        ) == bytes)
}

/// Whether byte `at` of the raw data belongs to a plain output among the
/// first `n` of `outputs`.
pub open spec fn covered(outputs: Seq<Parameter>, n: int, at: int) -> bool {
    exists|k: int|
        0 <= k < n && (#[trigger] outputs[k]@ matches ParameterView::Pod { bytes, align } && planned_offset(
            outputs,
            k + 1,
        ) - bytes.len() <= at < planned_offset(outputs, k + 1))
}

/// Writes the plain outputs into raw data of the size that was measured
/// for them. The walker ends exactly where the measuring pass ended: at
/// the end of the data. Every plain output stands at its place, and what
/// lies between them is left as it was.
pub fn emit_response(data: &mut Vec<u8>, outputs: &Vec<Parameter>) -> (written: usize)
    requires
        old(data)@.len() == planned_size(outputs@),
        planned_size(outputs@) <= MESSAGE_BUFFER_SIZE,
    ensures
        final(data)@.len() == old(data)@.len(),
        written == planned_size(outputs@),
        written == final(data)@.len(),
        carries(final(data)@, outputs@, outputs@.len() as int),
        forall|at: int|
            0 <= at < old(data)@.len() && !covered(outputs@, outputs@.len() as int, at)
                ==> final(data)@[at] == old(data)@[at],
{
    let mut walker = DataWalker::new();
    let mut i: usize = 0;
    while i < outputs.len()
        invariant
            i <= outputs.len(),
            data@.len() == planned_size(outputs@),
            planned_size(outputs@) <= MESSAGE_BUFFER_SIZE,
            walker.offset() == planned_offset(outputs@, i as int),
            carries(data@, outputs@, i as int),
            forall|at: int|
                0 <= at < data@.len() && !covered(outputs@, i as int, at) ==> data@[at] == old(data)@[at],
        decreases outputs.len() - i,
    {
        proof {
            lemma_planned_offset_grows(outputs@, i as int, outputs@.len() as int);
            lemma_planned_offset_grows(outputs@, i + 1, outputs@.len() as int);
            assert forall|at: int| covered(outputs@, i as int, at) implies covered(
                outputs@,
                i + 1,
                at,
            ) by {
                let k = choose|k: int|
                    0 <= k < i && (#[trigger] outputs@[k]@ matches ParameterView::Pod { bytes, align }
                        && planned_offset(outputs@, k + 1) - bytes.len() <= at < planned_offset(
                        outputs@,
                        k + 1,
                    ));
                assert(0 <= k < i + 1);
            }
        }
        match &outputs[i] {
            Parameter::Pod { bytes, align } => {
                let ghost before = data@;
                let ghost start = walker.offset();
                proof {
                    lemma_walk_grows(start, bytes@.len() as int, *align);
                }
                let _ = Parameter::after_response_write(&outputs[i], data, &mut walker);
                proof {
                    let end = planned_offset(outputs@, i + 1);
                    assert(end - bytes@.len() >= start);
                    assert forall|at: int|
                        0 <= at < data@.len()
                            && !covered(outputs@, i + 1,
                            at) implies data@[at] == old(data)@[at] by {
                        if end - bytes@.len() <= at < end {
                            assert(outputs@[i as int]@ is Pod);
                            assert(covered(outputs@, i + 1, at));
                        }
                    }
                    assert forall|k: int| 0 <= k < i implies (#[trigger] outputs@[k]@ matches
                        ParameterView::Pod {
                        bytes: b,
                        align: a,
                    } ==> data@.subrange(
                        planned_offset(outputs@, k + 1) - b.len(),
                        planned_offset(outputs@, k + 1),
                    ) == b) by {
                        lemma_planned_offset_grows(outputs@, k + 1, i as int);
                        lemma_planned_offset_grows(outputs@, k, k + 1);
                        match outputs@[k]@ {
                            ParameterView::Pod { bytes: b, align: a } => {
                                lemma_walk_grows(planned_offset(outputs@, k), b.len() as int, a);
                                let lo = planned_offset(outputs@, k + 1) - b.len();
                                let hi = planned_offset(outputs@, k + 1);
                                assert(data@.subrange(lo, hi) =~= before.subrange(lo, hi));
                            },
                            _ => {},
                        }
                    }
                }
            },
            _ => {},
        }
        i += 1;
    }
    walker.get_offset()
}

/// Raw data of `size` zero bytes.
pub fn zeroed(size: usize) -> (data: Vec<u8>)
    ensures
        data@.len() == size,
        forall|i: int| 0 <= i < size ==> data@[i] == 0,
{
    let mut data: Vec<u8> = Vec::new();
    while data.len() < size
        invariant
            data@.len() <= size,
            forall|i: int| 0 <= i < data@.len() ==> data@[i] == 0,
        decreases size - data@.len(),
    {
        data.push(0u8);
    }
    data
}

/// What `ctx` is after `final_ctx` changed nothing of it but what a
/// response carries and the sessions it brought.
pub open spec fn request_untouched(before: &ServerContext, after: &ServerContext) -> bool {
    &&& after.ctx.object_info == before.ctx.object_info
    &&& after.ctx.in_params == before.ctx.in_params
    &&& after.domain_table == before.domain_table
    &&& after.raw_data_walker == before.raw_data_walker
    &&& after.ctx.out_params.data == before.ctx.out_params.data
    &&& after.ctx.out_params.data_size == before.ctx.out_params.data_size
    &&& after.ctx.out_params.buffers == before.ctx.out_params.buffers
}

/// Whether `longer` is `shorter` with holders added at its end.
pub open spec fn extends(longer: Seq<ServerHolder>, shorter: Seq<ServerHolder>) -> bool {
    shorter.len() <= longer.len() && longer.subrange(0, shorter.len() as int) =~= shorter
}

/// What attaching `session` to a domain does: the table of the domain
/// takes its smallest free name and binds to it a holder that keeps
/// `session` in a cell of its own, and the response names the object by it.
pub open spec fn attached_to_domain(
    session: SessionObject,
    before: &ServerContext,
    after: &ServerContext,
    objects_before: &SharedHeap<SessionObject>,
    objects_after: &SharedHeap<SessionObject>,
    tables_before: &SharedHeap<DomainTable>,
    tables_after: &SharedHeap<DomainTable>,
    table_cell: CellId,
) -> bool {
    let old_table = tables_before.value(table_cell);
    let new_table = tables_after.value(table_cell);
    let id = new_table.table@.last();
    &&& tables_after.live(table_cell)
    &&& tables_after.count(table_cell) == tables_before.count(table_cell)
    &&& tables_after.same_except(tables_before, table_cell)
    &&& is_smallest_free(old_table.ids(), id)
    &&& new_table.table@ == old_table.table@.push(id)
    &&& new_table.domains@.len() == old_table.domains@.len() + 1
    &&& extends(new_table.domains@, old_table.domains@)
    &&& new_table.domains@.last().is_session(
        new_table.domains@.last().server_cell(),
        ObjectInfo::domain_object(0, id),
    )
    &&& new_table.domains@.last().server_cell() matches Some(cell) && fresh_in(
        objects_before,
        objects_after,
        cell,
    ) && objects_after.value(cell) == session
    &&& new_table.ids() == old_table.ids().insert(id)
    &&& new_table.bound_ids() == old_table.bound_ids().insert(id)
    &&& old_table.wf() ==> new_table.wf()
    &&& after.ctx.out_params.objects@ == before.ctx.out_params.objects@.push(id)
    &&& after.ctx.out_params.move_handles == before.ctx.out_params.move_handles
    &&& after.new_sessions == before.new_sessions
}

/// What giving `session` a kernel session of its own does: the response
/// moves the client end to the caller, and a holder that keeps `session`
/// in a cell of its own, on the server end, joins the new sessions.
pub open spec fn given_own_session(
    session: SessionObject,
    before: &ServerContext,
    after: &ServerContext,
    objects_before: &SharedHeap<SessionObject>,
    objects_after: &SharedHeap<SessionObject>,
    server_handle: Handle,
    client_handle: Handle,
) -> bool {
    &&& after.ctx.out_params.move_handles@ == before.ctx.out_params.move_handles@.push(client_handle)
    &&& after.ctx.out_params.objects == before.ctx.out_params.objects
    &&& after.new_sessions@.len() == before.new_sessions@.len() + 1
    &&& extends(after.new_sessions@, before.new_sessions@)
    &&& after.new_sessions@.last().is_session(
        after.new_sessions@.last().server_cell(),
        ObjectInfo::session(server_handle),
    )
    &&& after.new_sessions@.last().server_cell() matches Some(cell) && fresh_in(
        objects_before,
        objects_after,
        cell,
    ) && objects_after.value(cell) == session
}

/// A moment in the making of a response: the command's context and the
/// two arenas, as they are.
pub struct Moment {
    pub ctx: ServerContext,
    pub objects: SharedHeap<SessionObject>,
    pub tables: SharedHeap<DomainTable>,
}

impl Moment {
    /// Nothing happened between `self` and `after`.
    pub open spec fn stays(self, after: Moment) -> bool {
        &&& after.ctx == self.ctx
        &&& after.objects.same_as(&self.objects)
        &&& after.tables.same_as(&self.tables)
    }
}

/// What making `session` reachable did between two moments.
///
/// On a domain with a table that has a free name, the object was attached
/// to the domain; where the session has no table the failure is
/// `DomainNotFound`, and where the table is full it is `TooManyObjects`.
/// Elsewhere the kernel was asked for a session; where it refused, that is
/// the failure; else the object was given the session. A failure changes
/// nothing.
pub open spec fn session_planned<Y: System>(
    system: &Y,
    session: SessionObject,
    before: Moment,
    after: Moment,
    r: Result<(), ResultCode>,
) -> bool {
    &&& request_untouched(&before.ctx, &after.ctx)
    &&& after.ctx.ctx.out_params.copy_handles == before.ctx.ctx.out_params.copy_handles
    &&& r is Err ==> before.stays(after)
    &&& before.ctx.ctx.object_info.is_domain() ==> match before.ctx.domain_table {
        Some(table_cell) => if before.tables.live(table_cell) {
            if is_full(before.tables.value(table_cell).ids()) {
                r == Err::<(), ResultCode>(ResultCode::TooManyObjects)
            } else {
                r is Ok && attached_to_domain(
                    session,
                    &before.ctx,
                    &after.ctx,
                    &before.objects,
                    &after.objects,
                    &before.tables,
                    &after.tables,
                    table_cell,
                )
            }
        } else {
            r == Err::<(), ResultCode>(ResultCode::DomainNotFound)
        },
        None => r == Err::<(), ResultCode>(ResultCode::DomainNotFound),
    }
    &&& !before.ctx.ctx.object_info.is_domain() ==> after.tables.same_as(&before.tables) && exists|
        created: Result<(Handle, Handle), ResultCode>,
    |
        #![trigger call_ensures(Y::create_session, (system,), created)]
        call_ensures(Y::create_session, (system,), created) && match created {
            Ok(ends) => r is Ok && given_own_session(
                session,
                &before.ctx,
                &after.ctx,
                &before.objects,
                &after.objects,
                ends.0,
                ends.1,
            ),
            Err(e) => r == Err::<(), ResultCode>(e),
        }
}

/// What putting one output into the response did between two moments.
///
/// Plain data changes nothing here: it is written later. A handle joins
/// the handles of its mode. A session object is picked up from the system
/// under its token and made reachable as `session_planned` says; one that
/// the system does not hold fails with `SessionClosed`. A buffer or a
/// process ID fails with `UnsupportedOperation`.
pub open spec fn planned_one<Y: System>(
    system: &Y,
    before: Moment,
    after: Moment,
    output: ParameterView,
    r: Result<(), ResultCode>,
) -> bool {
    match output {
        ParameterView::Pod { bytes, align } => r is Ok && before.stays(after),
        ParameterView::Handle { mode, handle } => {
            &&& r is Ok
            &&& request_untouched(&before.ctx, &after.ctx)
            &&& after.ctx.new_sessions == before.ctx.new_sessions
            &&& after.ctx.ctx.out_params.objects == before.ctx.ctx.out_params.objects
            &&& after.objects.same_as(&before.objects)
            &&& after.tables.same_as(&before.tables)
            &&& match mode {
                HandleMode::Copy => after.ctx.ctx.out_params.copy_handles@
                    == before.ctx.ctx.out_params.copy_handles@.push(handle)
                    && after.ctx.ctx.out_params.move_handles == before.ctx.ctx.out_params.move_handles,
                HandleMode::Move => after.ctx.ctx.out_params.move_handles@
                    == before.ctx.ctx.out_params.move_handles@.push(handle)
                    && after.ctx.ctx.out_params.copy_handles == before.ctx.ctx.out_params.copy_handles,
            }
        },
        ParameterView::Session { token } => exists|picked: Option<SessionObject>|
            #![trigger call_ensures(Y::take_session_object, (system, token), picked)]
            call_ensures(Y::take_session_object, (system, token), picked) && match picked {
                Some(session) => session_planned(system, session, before, after, r),
                None => r == Err::<(), ResultCode>(ResultCode::SessionClosed) && before.stays(after),
            },
        _ => r == Err::<(), ResultCode>(ResultCode::UnsupportedOperation) && before.stays(after),
    }
}

/// What the next output made of a plan that had come to `mid`, where
/// the outputs before it went as `so_far` says: after a failure nothing
/// more happens, and the failure stays the result; else the output was put
/// into the response as `planned_one` says.
pub open spec fn planned_next<Y: System>(
    system: &Y,
    mid: Moment,
    after: Moment,
    output: ParameterView,
    so_far: Result<(), ResultCode>,
    r: Result<(), ResultCode>,
) -> bool {
    match so_far {
        Err(e) => r == Err::<(), ResultCode>(e) && mid.stays(after),
        Ok(_) => planned_one(system, mid, after, output, r),
    }
}

/// What putting the first `n` of `outputs` into the response did between
/// two moments, one output after the other, each as `planned_next` says:
/// `planned_one` for each, up to the first that fails, whose failure is the
/// result.
pub open spec fn planned_all<Y: System>(
    system: &Y,
    start: Moment,
    after: Moment,
    outputs: Seq<Parameter>,
    n: int,
    r: Result<(), ResultCode>,
) -> bool
    decreases n,
{
    if n <= 0 {
        r is Ok && start.stays(after)
    } else {
        exists|mid: Moment, so_far: Result<(), ResultCode>|
            planned_all(system, start, mid, outputs, n - 1, so_far) && #[trigger] planned_next(
                system,
                mid,
                after,
                outputs[n - 1]@,
                so_far,
                r,
            )
    }
}

/// One more output put into the response.
pub proof fn lemma_planned_next<Y: System>(
    system: &Y,
    start: Moment,
    mid: Moment,
    after: Moment,
    outputs: Seq<Parameter>,
    n: int,
    r: Result<(), ResultCode>,
)
    requires
        n >= 1,
        planned_all(system, start, mid, outputs, n - 1, Ok::<(), ResultCode>(())),
        planned_one(system, mid, after, outputs[n - 1]@, r),
    ensures
        planned_all(system, start, after, outputs, n, r),
{
    assert(planned_next(system, mid, after, outputs[n - 1]@, Ok::<(), ResultCode>(()), r));
}

/// Once an output failed, the outputs after it change nothing.
pub proof fn lemma_planned_failed<Y: System>(
    system: &Y,
    start: Moment,
    after: Moment,
    outputs: Seq<Parameter>,
    n: int,
    m: int,
    e: ResultCode,
)
    requires
        0 <= n <= m,
        planned_all(system, start, after, outputs, n, Err::<(), ResultCode>(e)),
    ensures
        planned_all(system, start, after, outputs, m, Err::<(), ResultCode>(e)),
    decreases m,
{
    if n < m {
        lemma_planned_failed(system, start, after, outputs, n, m - 1, e);
        assert(after.stays(after));
        assert(planned_next(
            system,
            after,
            after,
            outputs[m - 1]@,
            Err::<(), ResultCode>(e),
            Err::<(), ResultCode>(e),
        ));
    }
}

/// Makes a session object that a handler returned reachable for the
/// caller. On a domain, it becomes a new object of the domain and the
/// response names it; failing that, it gets a kernel session of its own,
/// whose client end the response moves to the caller and whose server end
/// joins the new sessions.
///
/// On a domain this fails with `DomainNotFound` where the session has no
/// table, and with `TooManyObjects` where the table is full; elsewhere it
/// fails as the kernel fails to create a session. A failure changes nothing.
pub fn plan_session_response<Y: System>(
    system: &Y,
    ctx: &mut ServerContext,
    session: SessionObject,
    objects: &mut SharedHeap<SessionObject>,
    tables: &mut SharedHeap<DomainTable>,
) -> (r: Result<(), ResultCode>)
    requires
        old(objects).wf(),
        old(tables).wf(),
    ensures
        final(objects).wf(),
        final(tables).wf(),
        session_planned(
            system,
            session,
            Moment { ctx: *old(ctx), objects: *old(objects), tables: *old(tables) },
            Moment { ctx: *final(ctx), objects: *final(objects), tables: *final(tables) },
            r,
        ),
{
    if ctx.ctx.object_info.is_domain() {
        let table_cell = match ctx.domain_table {
            Some(table_cell) => table_cell,
            None => {
                return Err(ResultCode::DomainNotFound);
            },
        };
        if !tables.is_live(table_cell) {
            return Err(ResultCode::DomainNotFound);
        }
        let table = tables.get_mut(table_cell);
        let domain_object_id = match table.allocate_id() {
            Ok(id) => id,
            Err(e) => {
                return Err(e);
            },
        };
        ctx.ctx.out_params.push_domain_object(domain_object_id);
        let session_copy = Shared::new(objects, session);
        table.domains.push(ServerHolder::new_domain_session(0, domain_object_id, session_copy));
        proof {
            let old_table = old(tables).value(table_cell);
            assert(table.domains@.subrange(0, old_table.domains@.len() as int) =~= old_table.domains@);
            lemma_push_bound(old_table.domains@, table.domains@.last());
            assert(table.domains@ =~= old_table.domains@.push(table.domains@.last()));
        }
        Ok(())
    } else {
        let created = system.create_session();
        let (server_handle, client_handle) = match created {
            Ok(ends) => ends,
            Err(e) => {
                return Err(e);
            },
        };
        ctx.ctx.out_params.push_handle(HandleMode::Move, client_handle);
        let session_copy = Shared::new(objects, session);
        ctx.new_sessions.push(ServerHolder::new_session(server_handle, session_copy));
        proof {
            assert(ctx.new_sessions@.subrange(0,
                old(ctx).new_sessions@.len() as int) =~= old(ctx).new_sessions@);
            assert(given_own_session(
                session,
                old(ctx),
                ctx,
                old(objects),
                objects,
                server_handle,
                client_handle,
            ));
        }
        Ok(())
    }
}

/// Whether every one of `outputs` is plain data or a handle.
pub open spec fn plain_or_handles(outputs: Seq<Parameter>) -> bool {
    forall|i: int|
        0 <= i < outputs.len() ==> (#[trigger] outputs[i]@ is Pod || outputs[i]@ is Handle)
}

/// The handles of the given mode among the first `n` of `outputs`, in order.
pub open spec fn handles_among(outputs: Seq<Parameter>, mode: HandleMode, n: int) -> Seq<Handle>
    decreases n,
{
    if n <= 0 {
        Seq::empty()
    } else {
        match outputs[n - 1]@ {
            ParameterView::Handle { mode: m, handle } if m == mode => handles_among(outputs, mode,
                n - 1).push(
                handle,
            ),
            _ => handles_among(outputs, mode, n - 1),
        }
    }
}

/// How a value that a handler returned is put into the response: once
/// before the raw data are laid out, and once into them.
pub trait ResponseCommandParameter {
    /// Puts into the response what of the value is not raw data.
    fn before_response_write<Y: System>(
        var: &Self,
        system: &Y,
        ctx: &mut ServerContext,
        objects: &mut SharedHeap<SessionObject>,
        tables: &mut SharedHeap<DomainTable>,
    ) -> Result<(), ResultCode>
        requires
            old(objects).wf(),
            old(tables).wf(),
    ;

    /// Writes what of the value is raw data to where the walker stands.
    fn after_response_write(var: &Self, data: &mut Vec<u8>, walker: &mut DataWalker) -> Result<(),
        ResultCode>;
}

/// What writing one output into the raw data did: plain data that fit
/// were written at their alignment, and the walker passed over them; plain
/// data that do not fit fail with `InvalidHeaderSize`; anything else is no
/// raw data. But for plain data that fit, nothing changed.
pub open spec fn written_one(
    output: ParameterView,
    data_before: Seq<u8>,
    data_after: Seq<u8>,
    offset_before: int,
    offset_after: int,
    r: Result<(), ResultCode>,
) -> bool {
    match output {
        ParameterView::Pod { bytes, align } => if offset_before <= MESSAGE_BUFFER_SIZE && bytes.len()
            <= MESSAGE_BUFFER_SIZE && walk(offset_before, bytes.len() as int, align) <= data_before.len() {
            &&& r is Ok
            &&& offset_after == walk(offset_before, bytes.len() as int, align)
            &&& data_after.len() == data_before.len()
            &&& data_after.subrange(offset_after - bytes.len(), offset_after) == bytes
            &&& forall|i: int|
                0 <= i < data_before.len() && !(offset_after - bytes.len() <= i < offset_after)
                    ==> data_after[i] == data_before[i]
        } else {
            r == Err::<(), ResultCode>(ResultCode::InvalidHeaderSize) && data_after == data_before
                && offset_after == offset_before
        },
        _ => r is Ok && data_after == data_before && offset_after == offset_before,
    }
}

impl ResponseCommandParameter for Parameter {
    /// Puts one output into the response, as `planned_one` says.
    fn before_response_write<Y: System>(
        var: &Self,
        system: &Y,
        ctx: &mut ServerContext,
        objects: &mut SharedHeap<SessionObject>,
        tables: &mut SharedHeap<DomainTable>,
    ) -> (r: Result<(), ResultCode>)
        ensures
            final(objects).wf(),
            final(tables).wf(),
            request_untouched(old(ctx), final(ctx)),
            extends(final(ctx).new_sessions@, old(ctx).new_sessions@),
            planned_one(
                system,
                Moment { ctx: *old(ctx), objects: *old(objects), tables: *old(tables) },
                Moment { ctx: *final(ctx), objects: *final(objects), tables: *final(tables) },
                var@,
                r,
            ),
    {
        let ghost mid = Moment { ctx: *ctx, objects: *objects, tables: *tables };
        proof {
            assert(mid.stays(mid));
        }
        match var {
            Parameter::Pod { bytes, align } => Ok(()),
            Parameter::Handle { mode, handle } => {
                ctx.ctx.out_params.push_handle(*mode, *handle);
                Ok(())
            },
            Parameter::Session { token } => {
                let session = match system.take_session_object(*token) {
                    Some(session) => session,
                    None => {
                        return Err(ResultCode::SessionClosed);
                    },
                };
                let ghost sessions = ctx.new_sessions@;
                let r = plan_session_response(system, ctx, session, objects, tables);
                proof {
                    assert(extends(ctx.new_sessions@, sessions));
                }
                r
            },
            _ => Err(ResultCode::UnsupportedOperation),
        }
    }

    /// Writes one output into the raw data, as `written_one` says.
    fn after_response_write(var: &Self, data: &mut Vec<u8>, walker: &mut DataWalker) -> (r: Result<
        (),
        ResultCode,
    >)
        ensures
            written_one(var@, old(data)@, final(data)@, old(walker).offset(), final(walker).offset(), r),
    {
        match var {
            Parameter::Pod { bytes, align } => {
                if walker.get_offset() > MESSAGE_BUFFER_SIZE || bytes.len() > MESSAGE_BUFFER_SIZE {
                    return Err(ResultCode::InvalidHeaderSize);
                }
                if walker.end_of(bytes.len(), *align) > data.len() {
                    return Err(ResultCode::InvalidHeaderSize);
                }
                walker.advance_set(data, bytes, *align);
                Ok(())
            },
            _ => Ok(()),
        }
    }
}

/// Puts what is not plain data among `outputs` into the response, one
/// output after the other, as `planned_all` says: handles join the handles
/// of their mode, session objects are picked up from the system and made
/// reachable. A buffer or a process ID cannot be returned: either fails with
/// `UnsupportedOperation`. A session object that the system does not hold
/// fails with `SessionClosed`. The first failure ends it.
pub fn plan_response<Y: System>(
    system: &Y,
    ctx: &mut ServerContext,
    outputs: &Vec<Parameter>,
    objects: &mut SharedHeap<SessionObject>,
    tables: &mut SharedHeap<DomainTable>,
) -> (r: Result<(), ResultCode>)
    requires
        old(objects).wf(),
        old(tables).wf(),
    ensures
        final(objects).wf(),
        final(tables).wf(),
        request_untouched(old(ctx), final(ctx)),
        extends(final(ctx).new_sessions@, old(ctx).new_sessions@),
        planned_all(
            system,
            Moment { ctx: *old(ctx), objects: *old(objects), tables: *old(tables) },
            Moment { ctx: *final(ctx), objects: *final(objects), tables: *final(tables) },
            outputs@,
            outputs@.len() as int,
            r,
        ),
        plain_or_handles(outputs@) ==> {
            &&& r is Ok
            &&& final(ctx).ctx.out_params.copy_handles@ == old(ctx).ctx.out_params.copy_handles@
                + handles_among(outputs@, HandleMode::Copy, outputs@.len() as int)
            &&& final(ctx).ctx.out_params.move_handles@ == old(ctx).ctx.out_params.move_handles@
                + handles_among(outputs@, HandleMode::Move, outputs@.len() as int)
            &&& final(ctx).ctx.out_params.objects == old(ctx).ctx.out_params.objects
            &&& final(ctx).new_sessions == old(ctx).new_sessions
            &&& final(objects).same_as(old(objects))
            &&& final(tables).same_as(old(tables))
        },
{
    let mut i: usize = 0;
    let ghost mut only_plain = true;
    let ghost start = Moment { ctx: *ctx, objects: *objects, tables: *tables };
    while i < outputs.len()
        invariant
            i <= outputs.len(),
            objects.wf(),
            tables.wf(),
            start == (Moment { ctx: *old(ctx), objects: *old(objects), tables: *old(tables) }),
            request_untouched(old(ctx), ctx),
            extends(ctx.new_sessions@, old(ctx).new_sessions@),
            planned_all(
                system,
                start,
                Moment { ctx: *ctx, objects: *objects, tables: *tables },
                outputs@,
                i as int,
                Ok::<(), ResultCode>(()),
            ),
            only_plain == (forall|k: int| 0 <= k < i ==> (#[trigger] outputs@[k]@ is Pod
                || outputs@[k]@ is Handle)),
            only_plain ==> {
                &&& ctx.ctx.out_params.copy_handles@ == old(ctx).ctx.out_params.copy_handles@ + handles_among(
                    outputs@,
                    HandleMode::Copy,
                    i as int,
                )
                &&& ctx.ctx.out_params.move_handles@ == old(ctx).ctx.out_params.move_handles@ + handles_among(
                    outputs@,
                    HandleMode::Move,
                    i as int,
                )
                &&& ctx.ctx.out_params.objects == old(ctx).ctx.out_params.objects
                &&& ctx.new_sessions == old(ctx).new_sessions
                &&& objects.same_as(old(objects))
                &&& tables.same_as(old(tables))
            },
        decreases outputs.len() - i,
    {
        let ghost sessions = ctx.new_sessions@;
        let ghost mid = Moment { ctx: *ctx, objects: *objects, tables: *tables };
        let went = Parameter::before_response_write(&outputs[i], system, ctx, objects, tables);
        proof {
            let now = Moment { ctx: *ctx, objects: *objects, tables: *tables };
            lemma_planned_next(system, start, mid, now, outputs@, i + 1, went);
            assert(extends(ctx.new_sessions@, old(ctx).new_sessions@)) by {
                assert(ctx.new_sessions@.subrange(0,
                    old(ctx).new_sessions@.len() as int) =~= sessions.subrange(
                    0,
                    old(ctx).new_sessions@.len() as int,
                ));
            }
            if only_plain && (outputs@[i as int]@ is Pod || outputs@[i as int]@ is Handle) {
                assert(ctx.ctx.out_params.copy_handles@ =~= old(ctx).ctx.out_params.copy_handles@
                    + handles_among(outputs@, HandleMode::Copy, i + 1));
                assert(ctx.ctx.out_params.move_handles@ =~= old(ctx).ctx.out_params.move_handles@
                    + handles_among(outputs@, HandleMode::Move, i + 1));
            } else {
                only_plain = false;
            }
        }
        match went {
            Ok(_) => {
                proof {
                    assert(went->Ok_0 == ());
                }
            },
            Err(e) => {
                proof {
                    let now = Moment { ctx: *ctx, objects: *objects, tables: *tables };
                    assert(!(outputs@[i as int]@ is Pod || outputs@[i as int]@ is Handle));
                    lemma_planned_failed(system, start, now, outputs@, i + 1, outputs@.len() as int, e);
                }
                return Err(e);
            },
        }
        i += 1;
    }
    Ok(())
}

/// Whether `data` is the raw data that carries `outputs`: as long as
/// measured, every plain output at its place, and zero between them.
pub open spec fn laid_out(data: Seq<u8>, outputs: Seq<Parameter>) -> bool {
    &&& data.len() == planned_size(outputs)
    &&& data.len() <= MESSAGE_BUFFER_SIZE
    &&& carries(data, outputs, outputs.len() as int)
    &&& forall|at: int| 0 <= at < data.len() && !covered(outputs, outputs.len() as int, at) ==> data[at] == 0
}

/// What turning `outputs` into a response did between two moments.
///
/// First the outputs were put into the response as `planned_all` says; a
/// failure there is the failure, and nothing more happened. Then the raw
/// data were measured: outputs that do not fit a message fail with
/// `InvalidHeaderSize`, and nothing more happened. Else the response got
/// raw data laid out as measured, and declares their size.
pub open spec fn written<Y: System>(
    system: &Y,
    before: Moment,
    after: Moment,
    outputs: Seq<Parameter>,
    r: Result<(), ResultCode>,
) -> bool {
    exists|planned: Moment, so_far: Result<(), ResultCode>| #[trigger]
        planned_all(system, before, planned, outputs, outputs.len() as int, so_far) && match so_far {
            Err(e) => r == Err::<(), ResultCode>(e) && planned.stays(after),
            Ok(_) => if planned_size(outputs) > MESSAGE_BUFFER_SIZE {
                r == Err::<(), ResultCode>(ResultCode::InvalidHeaderSize) && planned.stays(after)
            } else {
                &&& r is Ok
                &&& laid_out(after.ctx.ctx.out_params.data@, outputs)
                &&& after.ctx.ctx.out_params.data_size == planned_size(outputs)
                &&& after.ctx.raw_data_walker.offset() == planned_size(outputs)
                &&& after.ctx.ctx.object_info == planned.ctx.ctx.object_info
                &&& after.ctx.ctx.in_params == planned.ctx.ctx.in_params
                &&& after.ctx.domain_table == planned.ctx.domain_table
                &&& after.ctx.new_sessions == planned.ctx.new_sessions
                &&& after.ctx.ctx.out_params.copy_handles == planned.ctx.ctx.out_params.copy_handles
                &&& after.ctx.ctx.out_params.move_handles == planned.ctx.ctx.out_params.move_handles
                &&& after.ctx.ctx.out_params.objects == planned.ctx.ctx.out_params.objects
                &&& after.ctx.ctx.out_params.buffers == planned.ctx.ctx.out_params.buffers
                &&& after.objects.same_as(&planned.objects)
                &&& after.tables.same_as(&planned.tables)
            },
        }
}

/// Turns what a handler returned into a response: puts handles and session
/// objects in place, measures the raw data with a walker that has no data
/// under it, then writes the plain outputs with a walker over data of the
/// measured size, as `written` says. On success the data of the response
/// is exactly as long as measured, carries every plain output at its
/// place, and is zero between them.
pub fn write_response<Y: System>(
    system: &Y,
    ctx: &mut ServerContext,
    outputs: &Vec<Parameter>,
    objects: &mut SharedHeap<SessionObject>,
    tables: &mut SharedHeap<DomainTable>,
) -> (r: Result<(), ResultCode>)
    requires
        old(objects).wf(),
        old(tables).wf(),
    ensures
        final(objects).wf(),
        final(tables).wf(),
        final(ctx).ctx.object_info == old(ctx).ctx.object_info,
        final(ctx).ctx.in_params == old(ctx).ctx.in_params,
        final(ctx).domain_table == old(ctx).domain_table,
        extends(final(ctx).new_sessions@, old(ctx).new_sessions@),
        written(
            system,
            Moment { ctx: *old(ctx), objects: *old(objects), tables: *old(tables) },
            Moment { ctx: *final(ctx), objects: *final(objects), tables: *final(tables) },
            outputs@,
            r,
        ),
        r is Ok ==> {
            &&& final(ctx).ctx.out_params.data@.len() == planned_size(outputs@)
            &&& final(ctx).ctx.out_params.data@.len() <= MESSAGE_BUFFER_SIZE
            &&& final(ctx).ctx.out_params.data_size == planned_size(outputs@)
            &&& final(ctx).raw_data_walker.offset() == planned_size(outputs@)
            &&& carries(final(ctx).ctx.out_params.data@, outputs@, outputs@.len() as int)
            &&& forall|at: int|
                0 <= at < planned_size(outputs@) && !covered(outputs@, outputs@.len() as int, at)
                    ==> final(ctx).ctx.out_params.data@[at] == 0
        },
        plain_or_handles(outputs@) ==> {
            &&& r is Ok <==> planned_size(outputs@) <= MESSAGE_BUFFER_SIZE
            &&& r is Err ==> r == Err::<(), ResultCode>(ResultCode::InvalidHeaderSize)
            &&& final(ctx).ctx.out_params.copy_handles@ == old(ctx).ctx.out_params.copy_handles@
                + handles_among(outputs@, HandleMode::Copy, outputs@.len() as int)
            &&& final(ctx).ctx.out_params.move_handles@ == old(ctx).ctx.out_params.move_handles@
                + handles_among(outputs@, HandleMode::Move, outputs@.len() as int)
            &&& final(ctx).new_sessions == old(ctx).new_sessions
            &&& final(objects).same_as(old(objects))
            &&& final(tables).same_as(old(tables))
        },
{
    let planning = plan_response(system, ctx, outputs, objects, tables);
    let ghost planned = Moment { ctx: *ctx, objects: *objects, tables: *tables };
    proof {
        assert(planned.stays(planned));
    }
    match planning {
        Ok(_) => {},
        Err(e) => {
            return Err(e);
        },
    }
    let size = match measure_response(outputs) {
        Ok(size) => size,
        Err(e) => {
            return Err(e);
        },
    };
    ctx.ctx.out_params.data_size = size as u32;
    ctx.ctx.out_params.data = zeroed(size);
    let written = emit_response(&mut ctx.ctx.out_params.data, outputs);
    ctx.raw_data_walker = DataWalker::new();
    ctx.raw_data_walker.set_offset(written);
    Ok(())
}

/// What became of a handler's answer between the moment it was given
/// and `after`: its failure is the failure, and nothing more happened; what
/// it returned was turned into the response as `written` says.
pub open spec fn answer_written<Y: System>(
    system: &Y,
    handled: Moment,
    after: Moment,
    answer: Result<Vec<Parameter>, ResultCode>,
    r: Result<(), ResultCode>,
) -> bool {
    match answer {
        Err(e) => r == Err::<(), ResultCode>(e) && handled.stays(after),
        Ok(outputs) => written(system, handled, after, outputs@, r),
    }
}

/// What serving one command of the object `target` did between two
/// moments.
///
/// The command's parameters were taken from the request as `take_all`
/// says; raw data longer than a message, or a parameter that cannot be
/// taken, is the failure, and the handler is not reached. An object that is
/// gone fails with `SignaledServerNotFound`. Else the object handled the
/// command, which may have changed the object and nothing else; its failure
/// is the failure; what it returned was turned into the response, as
/// `answer_written` says.
pub open spec fn served<Y: System>(
    system: &Y,
    before: Moment,
    after: Moment,
    target: CellId,
    command: CommandMetadata,
    r: Result<(), ResultCode>,
) -> bool {
    if before.ctx.ctx.in_params.data@.len() > MESSAGE_BUFFER_SIZE {
        r == Err::<(), ResultCode>(ResultCode::InvalidHeaderSize) && only_taken_from(
            &before.ctx,
            &after.ctx,
        ) && after.ctx.taking() == before.ctx.taking() && after.objects.same_as(&before.objects)
            && after.tables.same_as(&before.tables)
    } else {
        match take_all(
            before.ctx.ctx.in_params.data@,
            before.ctx.ctx.in_params.send_process_id,
            before.ctx.ctx.in_params.process_id,
            before.ctx.untaken(),
            command.in_params@,
            command.in_params@.len() as int,
        ) {
            Err(e) => r == Err::<(), ResultCode>(e) && only_taken_from(&before.ctx, &after.ctx)
                && after.objects.same_as(&before.objects) && after.tables.same_as(&before.tables),
            Ok(taken) => if !before.objects.live(target) {
                r == Err::<(), ResultCode>(ResultCode::SignaledServerNotFound) && only_taken_from(
                    &before.ctx,
                    &after.ctx,
                ) && after.ctx.taking() == taken.1 && after.objects.same_as(&before.objects)
                    && after.tables.same_as(&before.tables)
            } else {
                exists|handled: Moment, answer: Result<Vec<Parameter>, ResultCode>|
                    only_taken_from(&before.ctx, &handled.ctx) && handled.ctx.taking() == taken.1
                        && handled.objects.live(target) && handled.objects.count(target)
                        == before.objects.count(target) && handled.objects.same_except(
                        &before.objects,
                        target,
                    ) && handled.tables.same_as(&before.tables) && #[trigger] answer_written(
                        system,
                        handled,
                        after,
                        answer,
                        r,
                    )
            },
        }
    }
}

/// Serves one command of the object `target`, as `served` says: takes the
/// command's parameters from the request, has the object handle the
/// command, and turns what it returns into the response.
pub fn serve_command<Y: System>(
    system: &Y,
    objects: &mut SharedHeap<SessionObject>,
    tables: &mut SharedHeap<DomainTable>,
    target: CellId,
    command: &CommandMetadata,
    ctx: &mut ServerContext,
) -> (r: Result<(), ResultCode>)
    requires
        old(objects).wf(),
        old(tables).wf(),
    ensures
        final(objects).wf(),
        final(tables).wf(),
        final(ctx).ctx.object_info == old(ctx).ctx.object_info,
        final(ctx).domain_table == old(ctx).domain_table,
        extends(final(ctx).new_sessions@, old(ctx).new_sessions@),
        served(
            system,
            Moment { ctx: *old(ctx), objects: *old(objects), tables: *old(tables) },
            Moment { ctx: *final(ctx), objects: *final(objects), tables: *final(tables) },
            target,
            *command,
            r,
        ),
        r is Ok ==> old(objects).live(target)
            && final(ctx).ctx.out_params.data@.len() == final(ctx).ctx.out_params.data_size
            && final(ctx).ctx.out_params.data@.len() <= MESSAGE_BUFFER_SIZE,
{
    let inputs = match parse_parameters(ctx, &command.in_params) {
        Ok(inputs) => inputs,
        Err(e) => {
            return Err(e);
        },
    };
    if !objects.is_live(target) {
        return Err(ResultCode::SignaledServerNotFound);
    }
    let object = objects.get_mut(target);
    let answer = object.object.call_command(command.rq_id, inputs);
    let ghost handled = Moment { ctx: *ctx, objects: *objects, tables: *tables };
    let ghost answer_given = answer;
    let outputs = match answer {
        Ok(outputs) => outputs,
        Err(e) => {
            proof {
                assert(handled.stays(handled));
                assert(answer_written(system, handled, handled, answer_given, Err::<(), ResultCode>(e)));
            }
            return Err(e);
        },
    };
    let r = write_response(system, ctx, &outputs, objects, tables);
    proof {
        assert(answer_written(
            system,
            handled,
            Moment { ctx: *ctx, objects: *objects, tables: *tables },
            answer_given,
            r,
        ));
    }
    r
}

} // verus!
