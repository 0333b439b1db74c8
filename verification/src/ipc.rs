//! The command context: what one request brought and what its response
//! carries, and the walker that lays parameters out in raw data.

use vstd::prelude::*;
use vstd::arithmetic::power2::{pow2, lemma2_to64};
use crate::mem::{align_up, is_power_of_two};
use crate::result::ResultCode;

pub mod sf;
pub mod system;
pub mod server;

verus! {

/// A kernel handle; zero is not a handle.
pub type Handle = u32;

pub const INVALID_HANDLE: Handle = 0;

/// Names one object of a domain; zero names none.
pub type DomainObjectId = u32;

/// Size of the kernel's message buffer, which bounds every command's raw data.
pub const MESSAGE_BUFFER_SIZE: usize = 0x100;

/// The framing a session speaks.
#[derive(Clone, Copy, PartialEq, Eq, Structural, Debug)]
pub enum CommandProtocol {
    Cmif,
    Tipc,
}

/// What a server knows of one object it serves or speaks to.
#[derive(Clone, Copy, PartialEq, Eq, Structural, Debug)]
pub struct ObjectInfo {
    pub handle: Handle,
    pub domain_object_id: DomainObjectId,
    pub owns_handle: bool,
    pub protocol: CommandProtocol,
}

impl ObjectInfo {
    /// No object.
    pub open spec fn none() -> ObjectInfo {
        ObjectInfo {
            handle: INVALID_HANDLE,
            domain_object_id: 0,
            owns_handle: false,
            protocol: CommandProtocol::Cmif,
        }
    }

    /// A session of its own on `handle`.
    pub open spec fn session(handle: Handle) -> ObjectInfo {
        ObjectInfo { handle, domain_object_id: 0, owns_handle: true, protocol: CommandProtocol::Cmif }
    }

    /// The object `domain_object_id` of the domain on `handle`.
    pub open spec fn domain_object(handle: Handle, domain_object_id: DomainObjectId) -> ObjectInfo {
        ObjectInfo { handle, domain_object_id, owns_handle: false, protocol: CommandProtocol::Cmif }
    }

    /// No object.
    pub fn new() -> (r: Self)
        ensures
            r == ObjectInfo::none(),
    {
        Self { handle: INVALID_HANDLE, domain_object_id: 0, owns_handle: false,
            protocol: CommandProtocol::Cmif }
    }

    /// A session of its own, which owns its handle.
    pub fn from_handle(handle: Handle) -> (r: Self)
        ensures
            r == ObjectInfo::session(handle),
    {
        Self { handle, domain_object_id: 0, owns_handle: true, protocol: CommandProtocol::Cmif }
    }

    /// An object of a domain, which shares the domain's handle.
    pub fn from_domain_object_id(handle: Handle, domain_object_id: DomainObjectId) -> (r: Self)
        ensures
            r == ObjectInfo::domain_object(handle, domain_object_id),
    {
        Self { handle, domain_object_id, owns_handle: false, protocol: CommandProtocol::Cmif }
    }

    pub open spec fn spec_is_valid(&self) -> bool {
        self.handle != INVALID_HANDLE
    }

    #[verifier::when_used_as_spec(spec_is_valid)]
    pub fn is_valid(&self) -> (b: bool)
        ensures
            b == self.spec_is_valid(),
    {
        self.handle != INVALID_HANDLE
    }

    pub open spec fn spec_is_domain(&self) -> bool {
        self.domain_object_id != 0
    }

    #[verifier::when_used_as_spec(spec_is_domain)]
    pub fn is_domain(&self) -> (b: bool)
        ensures
            b == self.spec_is_domain(),
    {
        self.domain_object_id != 0
    }

    pub open spec fn spec_uses_cmif_protocol(&self) -> bool {
        self.protocol == CommandProtocol::Cmif
    }

    #[verifier::when_used_as_spec(spec_uses_cmif_protocol)]
    pub fn uses_cmif_protocol(&self) -> (b: bool)
        ensures
            b == self.spec_uses_cmif_protocol(),
    {
        match self.protocol {
            CommandProtocol::Cmif => true,
            CommandProtocol::Tipc => false,
        }
    }
}

/// The kind of a command, as its header names it.
#[derive(Clone, Copy, PartialEq, Eq, Structural, Debug)]
pub enum CommandType {
    Invalid,
    LegacyRequest,
    Close,
    LegacyControl,
    Request,
    Control,
    RequestWithContext,
    ControlWithContext,
}

/// What a request to a domain asks of the object it names.
#[derive(Clone, Copy, PartialEq, Eq, Structural, Debug)]
pub enum DomainCommandType {
    Invalid,
    SendMessage,
    Close,
}

/// Whether a handle is copied to the receiver or moved to it.
#[derive(Clone, Copy, PartialEq, Eq, Structural, Debug)]
pub enum HandleMode {
    Copy,
    Move,
}

/// The direction and layout of a buffer.
#[derive(Clone, Copy, PartialEq, Eq, Structural, Debug)]
pub struct BufferAttribute {
    pub input: bool,
    pub output: bool,
    pub map_alias: bool,
    pub pointer: bool,
    pub fixed_size: bool,
    pub auto_select: bool,
}

impl BufferAttribute {
    /// The attribute of the copy that carries an out-pointer buffer back.
    pub open spec fn in_pointer() -> BufferAttribute {
        BufferAttribute {
            input: true,
            output: false,
            map_alias: false,
            pointer: true,
            fixed_size: false,
            auto_select: false,
        }
    }
}

/// A buffer as a command names it: where it lies and what it is for.
#[derive(Clone, Copy, PartialEq, Eq, Structural, Debug)]
pub struct BufferDescriptor {
    pub address: u64,
    pub size: u64,
    pub attribute: BufferAttribute,
}

/// What a request brought.
pub struct CommandIn {
    pub send_process_id: bool,
    pub process_id: u64,
    pub data: Vec<u8>,
    pub copy_handles: Vec<Handle>,
    pub move_handles: Vec<Handle>,
    pub buffers: Vec<BufferDescriptor>,
}

impl CommandIn {
    pub fn empty() -> (r: Self)
        ensures
            !r.send_process_id,
            r.process_id == 0,
            r.data@.len() == 0,
            r.copy_handles@.len() == 0,
            r.move_handles@.len() == 0,
            r.buffers@.len() == 0,
    {
        Self {
            send_process_id: false,
            process_id: 0,
            data: Vec::new(),
            copy_handles: Vec::new(),
            move_handles: Vec::new(),
            buffers: Vec::new(),
        }
    }

    /// Takes the next handle of the given mode, in the order they came.
    /// Fails with `InvalidHeaderSize`, taking nothing, exactly when none is left.
    pub fn pop_handle(&mut self, mode: HandleMode) -> (r: Result<Handle, ResultCode>)
        ensures
            final(self).send_process_id == old(self).send_process_id,
            final(self).process_id == old(self).process_id,
            final(self).data == old(self).data,
            final(self).buffers == old(self).buffers,
            match mode {
                HandleMode::Copy => {
                    &&& final(self).move_handles == old(self).move_handles
                    &&& if old(self).copy_handles@.len() > 0 {
                        r == Ok::<Handle, ResultCode>(old(self).copy_handles@[0])
                            && final(self).copy_handles@ == old(self).copy_handles@.subrange(
                            1,
                            old(self).copy_handles@.len() as int,
                        )
                    } else {
                        r == Err::<Handle, ResultCode>(ResultCode::InvalidHeaderSize)
                            && final(self).copy_handles == old(self).copy_handles
                    }
                },
                HandleMode::Move => {
                    &&& final(self).copy_handles == old(self).copy_handles
                    &&& if old(self).move_handles@.len() > 0 {
                        r == Ok::<Handle, ResultCode>(old(self).move_handles@[0])
                            && final(self).move_handles@ == old(self).move_handles@.subrange(
                            1,
                            old(self).move_handles@.len() as int,
                        )
                    } else {
                        r == Err::<Handle, ResultCode>(ResultCode::InvalidHeaderSize)
                            && final(self).move_handles == old(self).move_handles
                    }
                },
            },
    {
        match mode {
            HandleMode::Copy => {
                if self.copy_handles.len() > 0 {
                    let handle = self.copy_handles.remove(0);
                    assert(self.copy_handles@ =~= old(self).copy_handles@.subrange(
                        1,
                        old(self).copy_handles@.len() as int,
                    ));
                    Ok(handle)
                } else {
                    Err(ResultCode::InvalidHeaderSize)
                }
            },
            HandleMode::Move => {
                if self.move_handles.len() > 0 {
                    let handle = self.move_handles.remove(0);
                    assert(self.move_handles@ =~= old(self).move_handles@.subrange(
                        1,
                        old(self).move_handles@.len() as int,
                    ));
                    Ok(handle)
                } else {
                    Err(ResultCode::InvalidHeaderSize)
                }
            },
        }
    }

    /// Takes the next buffer descriptor, in the order they came. Fails with
    /// `InvalidHeaderSize`, taking nothing, exactly when none is left.
    pub fn pop_buffer(&mut self) -> (r: Result<BufferDescriptor, ResultCode>)
        ensures
            final(self).send_process_id == old(self).send_process_id,
            final(self).process_id == old(self).process_id,
            final(self).data == old(self).data,
            final(self).copy_handles == old(self).copy_handles,
            final(self).move_handles == old(self).move_handles,
            if old(self).buffers@.len() > 0 {
                r == Ok::<BufferDescriptor, ResultCode>(old(self).buffers@[0])
                    && final(self).buffers@ == old(self).buffers@.subrange(
                    1,
                    old(self).buffers@.len() as int,
                )
            } else {
                r == Err::<BufferDescriptor, ResultCode>(ResultCode::InvalidHeaderSize)
                    && final(self).buffers == old(self).buffers
            },
    {
        if self.buffers.len() > 0 {
            let buffer = self.buffers.remove(0);
            assert(self.buffers@ =~= old(self).buffers@.subrange(1, old(self).buffers@.len() as int));
            Ok(buffer)
        } else {
            Err(ResultCode::InvalidHeaderSize)
        }
    }
}

/// What a response carries.
pub struct CommandOut {
    pub data: Vec<u8>,
    pub data_size: u32,
    pub copy_handles: Vec<Handle>,
    pub move_handles: Vec<Handle>,
    pub objects: Vec<DomainObjectId>,
    pub buffers: Vec<BufferDescriptor>,
}

impl CommandOut {
    pub fn empty() -> (r: Self)
        ensures
            r.data@.len() == 0,
            r.data_size == 0,
            r.copy_handles@.len() == 0,
            r.move_handles@.len() == 0,
            r.objects@.len() == 0,
            r.buffers@.len() == 0,
    {
        Self {
            data: Vec::new(),
            data_size: 0,
            copy_handles: Vec::new(),
            move_handles: Vec::new(),
            objects: Vec::new(),
            buffers: Vec::new(),
        }
    }

    /// Adds a handle to the response, after those of its mode already there.
    pub fn push_handle(&mut self, mode: HandleMode, handle: Handle)
        ensures
            final(self).data == old(self).data,
            final(self).data_size == old(self).data_size,
            final(self).objects == old(self).objects,
            final(self).buffers == old(self).buffers,
            match mode {
                HandleMode::Copy => final(self).copy_handles@ == old(self).copy_handles@.push(handle)
                    && final(self).move_handles == old(self).move_handles,
                HandleMode::Move => final(self).move_handles@ == old(self).move_handles@.push(handle)
                    && final(self).copy_handles == old(self).copy_handles,
            },
    {
        match mode {
            HandleMode::Copy => self.copy_handles.push(handle),
            HandleMode::Move => self.move_handles.push(handle),
        }
    }

    /// Adds the name of a domain object to the response.
    pub fn push_domain_object(&mut self, domain_object_id: DomainObjectId)
        ensures
            final(self).data == old(self).data,
            final(self).data_size == old(self).data_size,
            final(self).copy_handles == old(self).copy_handles,
            final(self).move_handles == old(self).move_handles,
            final(self).buffers == old(self).buffers,
            final(self).objects@ == old(self).objects@.push(domain_object_id),
    {
        self.objects.push(domain_object_id);
    }

    /// Adds a buffer descriptor to the response.
    pub fn add_buffer(&mut self, buffer: BufferDescriptor)
        ensures
            final(self).data == old(self).data,
            final(self).data_size == old(self).data_size,
            final(self).copy_handles == old(self).copy_handles,
            final(self).move_handles == old(self).move_handles,
            final(self).objects == old(self).objects,
            final(self).buffers@ == old(self).buffers@.push(buffer),
    {
        self.buffers.push(buffer);
    }
}

/// One command in flight: the object it addresses, what came in, what goes out.
pub struct CommandContext {
    pub object_info: ObjectInfo,
    pub in_params: CommandIn,
    pub out_params: CommandOut,
}

impl CommandContext {
    pub fn empty() -> (r: Self)
        ensures
            r.object_info == ObjectInfo::none(),
            !r.in_params.send_process_id,
            r.in_params.process_id == 0,
            r.in_params.data@.len() == 0,
            r.in_params.copy_handles@.len() == 0,
            r.in_params.move_handles@.len() == 0,
            r.in_params.buffers@.len() == 0,
            r.out_params.data@.len() == 0,
            r.out_params.data_size == 0,
            r.out_params.copy_handles@.len() == 0,
            r.out_params.move_handles@.len() == 0,
            r.out_params.objects@.len() == 0,
            r.out_params.buffers@.len() == 0,
    {
        Self { object_info: ObjectInfo::new(), in_params: CommandIn::empty(),
            out_params: CommandOut::empty() }
    }

    /// The context of a request that a server received for `object_info`.
    pub fn new_server(object_info: ObjectInfo, in_params: CommandIn) -> (r: Self)
        ensures
            r.object_info == object_info,
            r.in_params == in_params,
            r.out_params.data@.len() == 0,
            r.out_params.data_size == 0,
            r.out_params.copy_handles@.len() == 0,
            r.out_params.move_handles@.len() == 0,
            r.out_params.objects@.len() == 0,
            r.out_params.buffers@.len() == 0,
    {
        Self { object_info, in_params, out_params: CommandOut::empty() }
    }
}

/// The natural alignment of a plain parameter.
#[derive(Clone, Copy, PartialEq, Eq, Structural, Debug)]
pub enum Alignment {
    One,
    Two,
    Four,
    Eight,
}

impl Alignment {
    pub open spec fn value(self) -> usize {
        match self {
            Alignment::One => 1,
            Alignment::Two => 2,
            Alignment::Four => 4,
            Alignment::Eight => 8,
        }
    }

    pub fn bytes(self) -> (n: usize)
        ensures
            n == self.value(),
            is_power_of_two(n),
    {
        proof {
            lemma2_to64();
            assert(1usize == pow2(0) && 2usize == pow2(1) && 4usize == pow2(2) && 8usize == pow2(3));
        }
        match self {
            Alignment::One => 1,
            Alignment::Two => 2,
            Alignment::Four => 4,
            Alignment::Eight => 8,
        }
    }
}

/// Where a walker stands after a parameter of `size` bytes and alignment
/// `align` that it met at `offset`: the offset rounded up to the alignment,
/// plus the size.
pub open spec fn walk(offset: int, size: int, align: Alignment) -> int {
    let a = align.value() as int;
    (offset + a - 1) / a * a + size
}

/// At the start of raw data every parameter is aligned: a walker that
/// meets one there ends at its size.
pub proof fn lemma_walk_from_start(size: int, align: Alignment)
    ensures
        aligned(0, align) == 0,
        walk(0, size, align) == size,
{
    match align {
        Alignment::One => {
            assert((0 + 1 - 1) / 1 * 1 == 0int);
        },
        Alignment::Two => {
            assert((0 + 2 - 1) / 2 * 2 == 0int);
        },
        Alignment::Four => {
            assert((0 + 4 - 1) / 4 * 4 == 0int);
        },
        Alignment::Eight => {
            assert((0 + 8 - 1) / 8 * 8 == 0int);
        },
    }
}

/// Where in raw data the parameter that a walker meets at `offset` starts.
pub open spec fn aligned(offset: int, align: Alignment) -> int {
    let a = align.value() as int;
    (offset + a - 1) / a * a
}

/// A cursor over the raw data of a command. It advances parameter by
/// parameter, each at its natural alignment. Without data under it, it
/// only measures.
#[derive(Clone, Copy, Debug)]
pub struct DataWalker {
    offset: usize,
}

impl DataWalker {
    /// How far the walker has come.
    pub closed spec fn offset(&self) -> int {
        self.offset as int
    }

    /// A walker at the start of raw data.
    pub fn new() -> (r: Self)
        ensures
            r.offset() == 0,
    {
        Self { offset: 0 }
    }

    pub fn get_offset(&self) -> (n: usize)
        ensures
            n == self.offset(),
    {
        self.offset
    }

    /// Puts the walker at `offset`.
    pub fn set_offset(&mut self, offset: usize)
        ensures
            final(self).offset() == offset,
    {
        self.offset = offset;
    }

    /// Puts the walker back at the start.
    pub fn reset(&mut self)
        ensures
            final(self).offset() == 0,
    {
        self.offset = 0;
    }

    fn align(&self, align: Alignment) -> (start: usize)
        requires
            self.offset() <= MESSAGE_BUFFER_SIZE,
        ensures
            start == aligned(self.offset(), align),
            self.offset() <= start < self.offset() + 8,
    {
        let a = align.bytes();
        let start = align_up(self.offset, a);
        proof {
            let o = self.offset as int;
            let ai = a as int;
            assert((start as int) % ai == 0);
            assert(o <= start && start - o < ai);
            assert(start == (o + ai - 1) / ai * ai) by (nonlinear_arith)
                requires
                    (start as int) % ai == 0,
                    o <= start,
                    start - o < ai,
                    ai > 0,
            ;
        }
        start
    }

    /// Where the walker would stand after a parameter of `size` bytes and
    /// alignment `align`.
    pub fn end_of(&self, size: usize, align: Alignment) -> (end: usize)
        requires
            self.offset() <= MESSAGE_BUFFER_SIZE,
            size <= MESSAGE_BUFFER_SIZE,
        ensures
            end == walk(self.offset(), size as int, align),
    {
        let start = self.align(align);
        start + size
    }

    /// Passes over a parameter without touching any data: the measuring
    /// pass of a response.
    pub fn advance(&mut self, size: usize, align: Alignment)
        requires
            old(self).offset() <= MESSAGE_BUFFER_SIZE,
            size <= MESSAGE_BUFFER_SIZE,
        ensures
            final(self).offset() == walk(old(self).offset(), size as int, align),
    {
        let start = self.align(align);
        self.offset = start + size;
    }

    /// Reads the parameter of `size` bytes that comes next in `data`.
    /// `None`, with the walker where it was, exactly when `data` ends before
    /// the parameter does.
    pub fn advance_get(&mut self, data: &Vec<u8>, size: usize, align: Alignment) -> (r: Option<Vec<u8>>)
        requires
            old(self).offset() <= MESSAGE_BUFFER_SIZE,
            size <= MESSAGE_BUFFER_SIZE,
        ensures
            walk(old(self).offset(), size as int, align) <= data@.len() ==> (r matches Some(bytes)
                && bytes@ == data@.subrange(
                aligned(old(self).offset(), align),
                walk(old(self).offset(), size as int, align),
            )) && final(self).offset() == walk(old(self).offset(), size as int, align),
            walk(old(self).offset(), size as int, align) > data@.len() ==> r is None
                && final(self).offset() == old(self).offset(),
    {
        let start = self.align(align);
        if start + size > data.len() {
            return None;
        }
        let bytes = crate::gpu::parcel::copy_range(data, start, start + size);
        self.offset = start + size;
        Some(bytes)
    }

    /// Writes `bytes` as the parameter that comes next in `data`: the
    /// writing pass of a response.
    pub fn advance_set(&mut self, data: &mut Vec<u8>, bytes: &Vec<u8>, align: Alignment)
        requires
            old(self).offset() <= MESSAGE_BUFFER_SIZE,
            bytes@.len() <= MESSAGE_BUFFER_SIZE,
            walk(old(self).offset(), bytes@.len() as int, align) <= old(data)@.len(),
        ensures
            final(self).offset() == walk(old(self).offset(), bytes@.len() as int, align),
            final(data)@.len() == old(data)@.len(),
            final(data)@.subrange(
                aligned(old(self).offset(), align),
                final(self).offset(),
            ) == bytes@,
            forall|i: int|
                0 <= i < old(data)@.len()
                    && !(aligned(old(self).offset(), align) <= i < final(self).offset())
                    ==> final(data)@[i] == old(data)@[i],
    {
        let start = self.align(align);
        let mut i: usize = 0;
        while i < bytes.len()
            invariant
                i <= bytes.len(),
                start + bytes.len() <= data.len(),
                data@.len() == old(data)@.len(),
                forall|k: int| 0 <= k < i ==> data@[start + k] == bytes@[k],
                forall|k: int|
                    0 <= k < data@.len() && !(start <= k < start + i) ==> data@[k] == old(data)@[k],
            decreases bytes.len() - i,
        {
            data.set(start + i, bytes[i]);
            i += 1;
        }
        self.offset = start + bytes.len();
        assert(data@.subrange(start as int, start + bytes@.len()) =~= bytes@);
    }
}

} // verus!
