//! The graphics-buffer-producer client: each call frames a request parcel,
//! transacts it through the driver, and reads the reply and its status.

use vstd::prelude::*;
use crate::result::ResultCode;
use crate::gpu::parcel::{Cursor, Parcel, ParcelPayload, finished_header, token, u32_le, sized,
    i32_bits, bits_of_i32, HEADER_SIZE, MAX_PARCEL_SIZE};
use crate::gpu::{ConnectionApi, DisconnectMode, GraphicBuffer, GraphicsAllocatorUsage, MultiFence,
    QueueBufferInput, QueueBufferOutput};

verus! {

/// The interface that every request names first.
pub const INTERFACE_TOKEN: &'static str = "android.gui.IGraphicBufferProducer";

/// The status that ends every reply.
#[derive(Clone, Copy, PartialEq, Eq, Structural, Debug)]
pub enum ErrorCode {
    Success,
    PermissionDenied,
    NameNotFound,
    WouldBlock,
    NoMemory,
    AlreadyExists,
    NoInit,
    BadValue,
    DeadObject,
    InvalidOperation,
    NotEnoughData,
    UnknownTransaction,
    BadIndex,
    TimeOut,
    FdsNotAllowed,
    FailedTransaction,
    BadType,
    /// Any negative status without a name of its own.
    Invalid,
}

impl ErrorCode {
    /// The status that the wire value `v` stands for: its name where it has
    /// one, `Invalid` for any other negative value, nothing for any other
    /// positive value.
    pub open spec fn of(v: i32) -> Option<ErrorCode> {
        if v == 0 {
            Some(ErrorCode::Success)
        } else if v == -1 {
            Some(ErrorCode::PermissionDenied)
        } else if v == -2 {
            Some(ErrorCode::NameNotFound)
        } else if v == -11 {
            Some(ErrorCode::WouldBlock)
        } else if v == -12 {
            Some(ErrorCode::NoMemory)
        } else if v == -17 {
            Some(ErrorCode::AlreadyExists)
        } else if v == -19 {
            Some(ErrorCode::NoInit)
        } else if v == -22 {
            Some(ErrorCode::BadValue)
        } else if v == -32 {
            Some(ErrorCode::DeadObject)
        } else if v == -38 {
            Some(ErrorCode::InvalidOperation)
        } else if v == -61 {
            Some(ErrorCode::NotEnoughData)
        } else if v == -74 {
            Some(ErrorCode::UnknownTransaction)
        } else if v == -75 {
            Some(ErrorCode::BadIndex)
        } else if v == -110 {
            Some(ErrorCode::TimeOut)
        } else if v == -2147483641 {
            Some(ErrorCode::FdsNotAllowed)
        } else if v == -2147483646 {
            Some(ErrorCode::FailedTransaction)
        } else if v == -2147483647 {
            Some(ErrorCode::BadType)
        } else if v < 0 {
            Some(ErrorCode::Invalid)
        } else {
            None
        }
    }

    /// The result that a status stands for: success, or the error of its name.
    pub open spec fn result(self) -> Result<(), ResultCode> {
        match self {
            ErrorCode::Success => Ok(()),
            ErrorCode::PermissionDenied => Err(ResultCode::ErrorCodePermissionDenied),
            ErrorCode::NameNotFound => Err(ResultCode::ErrorCodeNameNotFound),
            ErrorCode::WouldBlock => Err(ResultCode::ErrorCodeWouldBlock),
            ErrorCode::NoMemory => Err(ResultCode::ErrorCodeNoMemory),
            ErrorCode::AlreadyExists => Err(ResultCode::ErrorCodeAlreadyExists),
            ErrorCode::NoInit => Err(ResultCode::ErrorCodeNoInit),
            ErrorCode::BadValue => Err(ResultCode::ErrorCodeBadValue),
            ErrorCode::DeadObject => Err(ResultCode::ErrorCodeDeadObject),
            ErrorCode::InvalidOperation => Err(ResultCode::ErrorCodeInvalidOperation),
            ErrorCode::NotEnoughData => Err(ResultCode::ErrorCodeNotEnoughData),
            ErrorCode::UnknownTransaction => Err(ResultCode::ErrorCodeUnknownTransaction),
            ErrorCode::BadIndex => Err(ResultCode::ErrorCodeBadIndex),
            ErrorCode::TimeOut => Err(ResultCode::ErrorCodeTimeOut),
            ErrorCode::FdsNotAllowed => Err(ResultCode::ErrorCodeFdsNotAllowed),
            ErrorCode::FailedTransaction => Err(ResultCode::ErrorCodeFailedTransaction),
            ErrorCode::BadType => Err(ResultCode::ErrorCodeBadType),
            ErrorCode::Invalid => Err(ResultCode::ErrorCodeInvalid),
        }
    }

    /// Names the status that a wire value stands for.
    pub fn from_i32(v: i32) -> (r: Option<ErrorCode>)
        ensures
            r == ErrorCode::of(v),
    {
        if v == 0 {
            Some(ErrorCode::Success)
        } else if v == -1 {
            Some(ErrorCode::PermissionDenied)
        } else if v == -2 {
            Some(ErrorCode::NameNotFound)
        } else if v == -11 {
            Some(ErrorCode::WouldBlock)
        } else if v == -12 {
            Some(ErrorCode::NoMemory)
        } else if v == -17 {
            Some(ErrorCode::AlreadyExists)
        } else if v == -19 {
            Some(ErrorCode::NoInit)
        } else if v == -22 {
            Some(ErrorCode::BadValue)
        } else if v == -32 {
            Some(ErrorCode::DeadObject)
        } else if v == -38 {
            Some(ErrorCode::InvalidOperation)
        } else if v == -61 {
            Some(ErrorCode::NotEnoughData)
        } else if v == -74 {
            Some(ErrorCode::UnknownTransaction)
        } else if v == -75 {
            Some(ErrorCode::BadIndex)
        } else if v == -110 {
            Some(ErrorCode::TimeOut)
        } else if v == -2147483641 {
            Some(ErrorCode::FdsNotAllowed)
        } else if v == -2147483646 {
            Some(ErrorCode::FailedTransaction)
        } else if v == -2147483647 {
            Some(ErrorCode::BadType)
        } else if v < 0 {
            Some(ErrorCode::Invalid)
        } else {
            None
        }
    }
}

impl Default for ErrorCode {
    fn default() -> (r: Self)
        ensures
            r == ErrorCode::Success,
    {
        ErrorCode::Success
    }
}

/// Maps a reply's status into the result space: success stays success,
/// every other status becomes the error of its name.
pub fn convert_nv_error_code(err: ErrorCode) -> (r: Result<(), ResultCode>)
    ensures
        r == err.result(),
        r is Ok <==> err == ErrorCode::Success,
{
    match err {
        ErrorCode::Success => Ok(()),
        ErrorCode::PermissionDenied => Err(ResultCode::ErrorCodePermissionDenied),
        ErrorCode::NameNotFound => Err(ResultCode::ErrorCodeNameNotFound),
        ErrorCode::WouldBlock => Err(ResultCode::ErrorCodeWouldBlock),
        ErrorCode::NoMemory => Err(ResultCode::ErrorCodeNoMemory),
        ErrorCode::AlreadyExists => Err(ResultCode::ErrorCodeAlreadyExists),
        ErrorCode::NoInit => Err(ResultCode::ErrorCodeNoInit),
        ErrorCode::BadValue => Err(ResultCode::ErrorCodeBadValue),
        ErrorCode::DeadObject => Err(ResultCode::ErrorCodeDeadObject),
        ErrorCode::InvalidOperation => Err(ResultCode::ErrorCodeInvalidOperation),
        ErrorCode::NotEnoughData => Err(ResultCode::ErrorCodeNotEnoughData),
        ErrorCode::UnknownTransaction => Err(ResultCode::ErrorCodeUnknownTransaction),
        ErrorCode::BadIndex => Err(ResultCode::ErrorCodeBadIndex),
        ErrorCode::TimeOut => Err(ResultCode::ErrorCodeTimeOut),
        ErrorCode::FdsNotAllowed => Err(ResultCode::ErrorCodeFdsNotAllowed),
        ErrorCode::FailedTransaction => Err(ResultCode::ErrorCodeFailedTransaction),
        ErrorCode::BadType => Err(ResultCode::ErrorCodeBadType),
        ErrorCode::Invalid => Err(ResultCode::ErrorCodeInvalid),
    }
}

/// The transactions of a graphics buffer producer, by their ordinals.
#[derive(Clone, Copy, PartialEq, Eq, Structural, Debug)]
pub enum ParcelTransactionId {
    RequestBuffer,
    SetBufferCount,
    DequeueBuffer,
    DetachBuffer,
    DetachNextBuffer,
    AttachBuffer,
    QueueBuffer,
    CancelBuffer,
    Query,
    Connect,
    Disconnect,
    SetSidebandStream,
    AllocateBuffers,
    SetPreallocatedBuffer,
}

impl ParcelTransactionId {
    /// The ordinal that stands for this transaction on the wire.
    pub open spec fn value(self) -> u32 {
        match self {
            ParcelTransactionId::RequestBuffer => 1,
            ParcelTransactionId::SetBufferCount => 2,
            ParcelTransactionId::DequeueBuffer => 3,
            ParcelTransactionId::DetachBuffer => 4,
            ParcelTransactionId::DetachNextBuffer => 5,
            ParcelTransactionId::AttachBuffer => 6,
            ParcelTransactionId::QueueBuffer => 7,
            ParcelTransactionId::CancelBuffer => 8,
            ParcelTransactionId::Query => 9,
            ParcelTransactionId::Connect => 10,
            ParcelTransactionId::Disconnect => 11,
            ParcelTransactionId::SetSidebandStream => 12,
            ParcelTransactionId::AllocateBuffers => 13,
            ParcelTransactionId::SetPreallocatedBuffer => 14,
        }
    }

    pub fn to_u32(self) -> (v: u32)
        ensures
            v == self.value(),
    {
        match self {
            ParcelTransactionId::RequestBuffer => 1,
            ParcelTransactionId::SetBufferCount => 2,
            ParcelTransactionId::DequeueBuffer => 3,
            ParcelTransactionId::DetachBuffer => 4,
            ParcelTransactionId::DetachNextBuffer => 5,
            ParcelTransactionId::AttachBuffer => 6,
            ParcelTransactionId::QueueBuffer => 7,
            ParcelTransactionId::CancelBuffer => 8,
            ParcelTransactionId::Query => 9,
            ParcelTransactionId::Connect => 10,
            ParcelTransactionId::Disconnect => 11,
            ParcelTransactionId::SetSidebandStream => 12,
            ParcelTransactionId::AllocateBuffers => 13,
            ParcelTransactionId::SetPreallocatedBuffer => 14,
        }
    }
}

/// Which of a binder's two reference counts an adjustment changes.
#[derive(Clone, Copy, PartialEq, Eq, Structural, Debug)]
pub enum RefcountType {
    Weak,
    Strong,
}

/// Which native handle of a binder is asked for.
#[derive(Clone, Copy, PartialEq, Eq, Structural, Debug)]
pub enum NativeHandleType {
    BufferEvent,
}

/// The driver that carries a binder's transactions to the display service.
/// Nothing is promised of what it answers: every caller is proved for
/// whatever comes back.
pub trait IHOSBinderDriver {
    /// Sends a request parcel and returns the reply parcel.
    fn transact_parcel(
        &self,
        binder_handle: i32,
        transaction_id: ParcelTransactionId,
        flags: u32,
        in_parcel: &ParcelPayload,
    ) -> Result<ParcelPayload, ResultCode>;

    /// Adds `add_value` to one of the binder's reference counts.
    fn adjust_refcount(&self, binder_handle: i32, add_value: i32, refcount_type: RefcountType) -> Result<
        (),
        ResultCode,
    >;

    /// Returns a copy of one of the binder's native handles.
    fn get_native_handle(&self, binder_handle: i32, handle_type: NativeHandleType) -> Result<
        u32,
        ResultCode,
    >;
}

/// Whether `request` is the finished parcel whose data is `data`.
pub open spec fn is_request(request: ParcelPayload, data: Seq<u8>) -> bool {
    request.header == finished_header(data.len() as int) && request.payload@ == data
}

/// Whether a request with this data fits a parcel.
pub open spec fn fits(data: Seq<u8>) -> bool {
    HEADER_SIZE + data.len() <= MAX_PARCEL_SIZE
}

/// The driver was handed the finished parcel with `data` for transaction
/// `id` on binder `handle`, with no flags, and answered `reply`.
pub open spec fn transacted<D: IHOSBinderDriver>(
    driver: &D,
    handle: i32,
    id: ParcelTransactionId,
    data: Seq<u8>,
    reply: Result<ParcelPayload, ResultCode>,
) -> bool {
    exists|request: ParcelPayload| #[trigger]
        is_request(request, data) && call_ensures(
            D::transact_parcel,
            (driver, handle, id, 0u32, &request),
            reply,
        )
}

/// What `response` is after a transaction that was answered `reply`: the
/// driver's error, or a parcel about to read the reply's data.
pub open spec fn loaded(
    reply: Result<ParcelPayload, ResultCode>,
    response: Result<Parcel, ResultCode>,
) -> bool {
    match reply {
        Ok(payload) => response matches Ok(parcel) && parcel.wf() && parcel.cursor()
            == Cursor::of_payload(payload),
        Err(e) => response matches Err(e2) && e2 == e,
    }
}

/// The status read at `c`, as a result.
pub open spec fn status_at(c: Cursor) -> Result<(), ResultCode> {
    if !c.can_read(4) {
        Err(ResultCode::ErrorCodeNotEnoughData)
    } else {
        match ErrorCode::of(c.next_i32()) {
            Some(code) => code.result(),
            None => Err(ResultCode::ErrorCodeBadType),
        }
    }
}

/// The queue report whose four words start at `c`.
pub open spec fn queue_buffer_output_at(c: Cursor) -> QueueBufferOutput {
    QueueBufferOutput {
        width: c.next_u32(),
        height: c.skip(4).next_u32(),
        transform_hint: c.skip(8).next_u32(),
        pending_buffer_count: c.skip(12).next_u32(),
    }
}

/// The word that stands for a flag on the wire.
pub open spec fn flag(b: bool) -> u32 {
    if b {
        1
    } else {
        0
    }
}

/// The data of a `connect` request: the interface token, no listener, the
/// API, and whether the producer is controlled by the application.
pub open spec fn connect_request(api: ConnectionApi, producer_controlled_by_app: bool) -> Seq<u8> {
    token(INTERFACE_TOKEN@) + u32_le(0) + u32_le(api.value()) + u32_le(
        flag(producer_controlled_by_app),
    )
}

/// What follows the header of a `disconnect` request.
pub open spec fn disconnect_request(api: ConnectionApi, mode: DisconnectMode) -> Seq<u8> {
    token(INTERFACE_TOKEN@) + u32_le(api.value()) + u32_le(mode.value())
}

/// What follows the header of a `set_preallocated_buffer` request: the slot,
/// a raised flag, and the buffer as a sized object.
pub open spec fn set_preallocated_buffer_request(slot: i32, buf: Seq<u8>) -> Seq<u8> {
    token(INTERFACE_TOKEN@) + u32_le(i32_bits(slot)) + u32_le(1) + sized(buf)
}

/// What follows the header of a `request_buffer` request.
pub open spec fn request_buffer_request(slot: i32) -> Seq<u8> {
    token(INTERFACE_TOKEN@) + u32_le(i32_bits(slot))
}

/// What follows the header of a `dequeue_buffer` request.
pub open spec fn dequeue_buffer_request(
    is_async: bool,
    width: u32,
    height: u32,
    get_frame_timestamps: bool,
    usage: GraphicsAllocatorUsage,
) -> Seq<u8> {
    token(INTERFACE_TOKEN@) + u32_le(flag(is_async)) + u32_le(width) + u32_le(height) + u32_le(
        flag(get_frame_timestamps),
    ) + u32_le(usage.bits)
}

/// What follows the header of a `queue_buffer` request: the slot, and the
/// input as a sized object.
pub open spec fn queue_buffer_request(slot: i32, qbi: Seq<u8>) -> Seq<u8> {
    token(INTERFACE_TOKEN@) + u32_le(i32_bits(slot)) + sized(qbi)
}

/// What a reply that carries a queue report and a status gives.
pub open spec fn queue_report_result(reply: Result<ParcelPayload, ResultCode>) -> Result<
    QueueBufferOutput,
    ResultCode,
> {
    match reply {
        Err(e) => Err(e),
        Ok(payload) => queue_report_at(Cursor::of_payload(payload)),
    }
}

/// What a reply that carries only a status gives.
pub open spec fn status_result(reply: Result<ParcelPayload, ResultCode>) -> Result<(), ResultCode> {
    match reply {
        Err(e) => Err(e),
        Ok(payload) => status_at(Cursor::of_payload(payload)),
    }
}

/// What is read at `c` where a flag word says whether a sized object
/// follows, and a status ends the reply: the flag and the object's bytes,
/// which are empty where the flag is down.
pub open spec fn optional_object_at(c: Cursor) -> Result<(bool, Seq<u8>), ResultCode> {
    if !c.can_read(4) {
        Err(ResultCode::ErrorCodeNotEnoughData)
    } else if c.next_u32() == 0 {
        match status_at(c.skip(4)) {
            Err(e) => Err(e),
            Ok(_) => Ok((false, Seq::empty())),
        }
    } else if !c.skip(4).can_read_sized() {
        Err(ResultCode::ErrorCodeNotEnoughData)
    } else {
        match status_at(c.skip(4).skip_sized()) {
            Err(e) => Err(e),
            Ok(_) => Ok((true, c.skip(4).next_sized())),
        }
    }
}

/// What a `request_buffer` reply gives: whether a buffer came, and its bytes.
pub open spec fn request_buffer_result(reply: Result<ParcelPayload, ResultCode>) -> Result<
    (bool, Seq<u8>),
    ResultCode,
> {
    match reply {
        Err(e) => Err(e),
        Ok(payload) => optional_object_at(Cursor::of_payload(payload)),
    }
}

/// What a `dequeue_buffer` reply gives: the slot, whether fences came, and their bytes.
pub open spec fn dequeue_buffer_result(reply: Result<ParcelPayload, ResultCode>) -> Result<
    (i32, bool, Seq<u8>),
    ResultCode,
> {
    match reply {
        Err(e) => Err(e),
        Ok(payload) => dequeued_at(Cursor::of_payload(payload)),
    }
}

/// A `request_buffer` outcome with the buffer taken by its bytes.
pub open spec fn buffer_view(r: Result<(bool, GraphicBuffer), ResultCode>) -> Result<
    (bool, Seq<u8>),
    ResultCode,
> {
    match r {
        Ok(found) => Ok((found.0, found.1.data@)),
        Err(e) => Err(e),
    }
}

/// A `dequeue_buffer` outcome with the fences taken by their bytes.
pub open spec fn fences_view(r: Result<(i32, bool, MultiFence), ResultCode>) -> Result<
    (i32, bool, Seq<u8>),
    ResultCode,
> {
    match r {
        Ok(found) => Ok((found.0, found.1, found.2.data@)),
        Err(e) => Err(e),
    }
}

/// Reads the reply's status and turns it into a result.
pub fn read_status(parcel: &mut Parcel) -> (r: Result<(), ResultCode>)
    requires
        old(parcel).wf(),
    ensures
        final(parcel).wf(),
        r == status_at(old(parcel).cursor()),
{
    let raw: i32 = match parcel.read_i32() {
        Ok(raw) => raw,
        Err(e) => {
            return Err(e);
        },
    };
    match ErrorCode::from_i32(raw) {
        Some(code) => convert_nv_error_code(code),
        None => Err(ResultCode::ErrorCodeBadType),
    }
}

/// Reads the four words of a queue report.
pub fn read_queue_buffer_output(parcel: &mut Parcel) -> (r: Result<QueueBufferOutput, ResultCode>)
    requires
        old(parcel).wf(),
    ensures
        final(parcel).wf(),
        old(parcel).cursor().can_read(16) ==> r == Ok::<QueueBufferOutput, ResultCode>(
            queue_buffer_output_at(old(parcel).cursor()),
        ) && final(parcel).cursor() == old(parcel).cursor().skip(16),
        !old(parcel).cursor().can_read(16) ==> r == Err::<QueueBufferOutput, ResultCode>(
            ResultCode::ErrorCodeNotEnoughData,
        ),
{
    let width: u32 = match parcel.read_u32() {
        Ok(v) => v,
        Err(e) => {
            return Err(e);
        },
    };
    let height: u32 = match parcel.read_u32() {
        Ok(v) => v,
        Err(e) => {
            return Err(e);
        },
    };
    let transform_hint: u32 = match parcel.read_u32() {
        Ok(v) => v,
        Err(e) => {
            return Err(e);
        },
    };
    let pending_buffer_count: u32 = match parcel.read_u32() {
        Ok(v) => v,
        Err(e) => {
            return Err(e);
        },
    };
    Ok(QueueBufferOutput { width, height, transform_hint, pending_buffer_count })
}

/// Reads a flag word, the sized object that follows where the flag is up,
/// and the status that ends the reply.
pub fn read_optional_object(parcel: &mut Parcel) -> (r: Result<(bool, Vec<u8>), ResultCode>)
    requires
        old(parcel).wf(),
    ensures
        final(parcel).wf(),
        match optional_object_at(old(parcel).cursor()) {
            Ok(found) => r matches Ok(got) && got.0 == found.0 && got.1@ == found.1,
            Err(e) => r matches Err(e2) && e2 == e,
        },
{
    let present: u32 = match parcel.read_u32() {
        Ok(v) => v,
        Err(e) => {
            return Err(e);
        },
    };
    let mut object: Vec<u8> = Vec::new();
    if present != 0 {
        object = match parcel.read_sized() {
            Ok(bytes) => bytes,
            Err(e) => {
                return Err(e);
            },
        };
    }
    match read_status(parcel) {
        Ok(_) => Ok((present != 0, object)),
        Err(e) => Err(e),
    }
}

/// Whether `r` is what framing a request with `data` must give: the
/// parcel that holds exactly `data`, or `ErrorCodeNoMemory` where `data`
/// is more than a parcel may hold.
pub open spec fn framed(r: Result<Parcel, ResultCode>, data: Seq<u8>) -> bool {
    if fits(data) {
        r matches Ok(parcel) && parcel.wf() && parcel.data() == data
    } else {
        r matches Err(e) && e == ResultCode::ErrorCodeNoMemory
    }
}

/// What a loaded reply that carries a queue report and a status gives.
pub open spec fn queue_report_at(c: Cursor) -> Result<QueueBufferOutput, ResultCode> {
    if !c.can_read(16) {
        Err(ResultCode::ErrorCodeNotEnoughData)
    } else {
        match status_at(c.skip(16)) {
            Err(e) => Err(e),
            Ok(_) => Ok(queue_buffer_output_at(c)),
        }
    }
}

/// What a loaded `dequeue_buffer` reply gives.
pub open spec fn dequeued_at(c: Cursor) -> Result<(i32, bool, Seq<u8>), ResultCode> {
    if !c.can_read(4) {
        Err(ResultCode::ErrorCodeNotEnoughData)
    } else {
        match optional_object_at(c.skip(4)) {
            Err(e) => Err(e),
            Ok(found) => Ok((c.next_i32(), found.0, found.1)),
        }
    }
}

/// A parcel that holds the interface token and nothing else.
fn frame_token() -> (r: Result<Parcel, ResultCode>)
    ensures
        framed(r, token(INTERFACE_TOKEN@)),
{
    let mut parcel = Parcel::new();
    match parcel.write_interface_token(INTERFACE_TOKEN) {
        Ok(_) => {
            assert(parcel.data() =~= token(INTERFACE_TOKEN@));
            Ok(parcel)
        },
        Err(e) => Err(e),
    }
}

/// Appends one word to a request being framed.
fn frame_u32(framed_so_far: Result<Parcel, ResultCode>, v: u32, Ghost(data): Ghost<Seq<u8>>) -> (r:
    Result<Parcel, ResultCode>)
    requires
        framed(framed_so_far, data),
    ensures
        framed(r, data + u32_le(v)),
{
    match framed_so_far {
        Ok(mut parcel) => match parcel.write_u32(v) {
            Ok(_) => Ok(parcel),
            Err(e) => Err(e),
        },
        Err(e) => Err(e),
    }
}

/// Appends one sized object to a request being framed.
fn frame_sized(framed_so_far: Result<Parcel, ResultCode>, bytes: &Vec<u8>, Ghost(data): Ghost<
    Seq<u8>,
>) -> (r: Result<Parcel, ResultCode>)
    requires
        framed(framed_so_far, data),
    ensures
        framed(r, data + sized(bytes@)),
{
    match framed_so_far {
        Ok(mut parcel) => match parcel.write_sized(bytes) {
            Ok(_) => Ok(parcel),
            Err(e) => Err(e),
        },
        Err(e) => Err(e),
    }
}

/// Frames a `connect` request.
pub fn frame_connect(api: ConnectionApi, producer_controlled_by_app: bool) -> (r: Result<
    Parcel,
    ResultCode,
>)
    ensures
        framed(r, connect_request(api, producer_controlled_by_app)),
{
    let ghost t = token(INTERFACE_TOKEN@);
    let parcel = frame_token();
    let producer_listener: u32 = 0;
    let parcel = frame_u32(parcel, producer_listener, Ghost(t));
    let parcel = frame_u32(parcel, api.to_u32(), Ghost(t + u32_le(0)));
    frame_u32(
        parcel,
        if producer_controlled_by_app { 1 } else { 0 },
        Ghost(t + u32_le(0) + u32_le(api.value())),
    )
}

/// Frames a `disconnect` request.
pub fn frame_disconnect(api: ConnectionApi, mode: DisconnectMode) -> (r: Result<Parcel, ResultCode>)
    ensures
        framed(r, disconnect_request(api, mode)),
{
    let ghost t = token(INTERFACE_TOKEN@);
    let parcel = frame_token();
    let parcel = frame_u32(parcel, api.to_u32(), Ghost(t));
    frame_u32(parcel, mode.to_u32(), Ghost(t + u32_le(api.value())))
}

/// Frames a `set_preallocated_buffer` request.
pub fn frame_set_preallocated_buffer(slot: i32, buf: &GraphicBuffer) -> (r: Result<Parcel, ResultCode>)
    ensures
        framed(r, set_preallocated_buffer_request(slot, buf.data@)),
{
    let ghost t = token(INTERFACE_TOKEN@);
    let parcel = frame_token();
    let parcel = frame_u32(parcel, bits_of_i32(slot), Ghost(t));
    let has_input: u32 = 1;
    let parcel = frame_u32(parcel, has_input, Ghost(t + u32_le(i32_bits(slot))));
    frame_sized(parcel, &buf.data, Ghost(t + u32_le(i32_bits(slot)) + u32_le(1)))
}

/// Frames a `request_buffer` request.
pub fn frame_request_buffer(slot: i32) -> (r: Result<Parcel, ResultCode>)
    ensures
        framed(r, request_buffer_request(slot)),
{
    let ghost t = token(INTERFACE_TOKEN@);
    let parcel = frame_token();
    frame_u32(parcel, bits_of_i32(slot), Ghost(t))
}

/// Frames a `dequeue_buffer` request.
pub fn frame_dequeue_buffer(
    is_async: bool,
    width: u32,
    height: u32,
    get_frame_timestamps: bool,
    usage: GraphicsAllocatorUsage,
) -> (r: Result<Parcel, ResultCode>)
    ensures
        framed(r, dequeue_buffer_request(is_async, width, height, get_frame_timestamps, usage)),
{
    let ghost t = token(INTERFACE_TOKEN@);
    let parcel = frame_token();
    let parcel = frame_u32(parcel, if is_async { 1 } else { 0 }, Ghost(t));
    let ghost t = t + u32_le(flag(is_async));
    let parcel = frame_u32(parcel, width, Ghost(t));
    let ghost t = t + u32_le(width);
    let parcel = frame_u32(parcel, height, Ghost(t));
    let ghost t = t + u32_le(height);
    let parcel = frame_u32(parcel, if get_frame_timestamps { 1 } else { 0 }, Ghost(t));
    let ghost t = t + u32_le(flag(get_frame_timestamps));
    frame_u32(parcel, usage.bits, Ghost(t))
}

/// Frames a `queue_buffer` request.
pub fn frame_queue_buffer(slot: i32, qbi: &QueueBufferInput) -> (r: Result<Parcel, ResultCode>)
    ensures
        framed(r, queue_buffer_request(slot, qbi.data@)),
{
    let ghost t = token(INTERFACE_TOKEN@);
    let parcel = frame_token();
    let parcel = frame_u32(parcel, bits_of_i32(slot), Ghost(t));
    frame_sized(parcel, &qbi.data, Ghost(t + u32_le(i32_bits(slot))))
}

/// Reads a queue report and the status after it.
pub fn read_queue_report(parcel: &mut Parcel) -> (r: Result<QueueBufferOutput, ResultCode>)
    requires
        old(parcel).wf(),
    ensures
        final(parcel).wf(),
        r == queue_report_at(old(parcel).cursor()),
{
    let qbo = match read_queue_buffer_output(parcel) {
        Ok(qbo) => qbo,
        Err(e) => {
            return Err(e);
        },
    };
    match read_status(parcel) {
        Ok(_) => Ok(qbo),
        Err(e) => Err(e),
    }
}

/// Reads a slot, then an optional object and the status.
pub fn read_dequeued(parcel: &mut Parcel) -> (r: Result<(i32, bool, Vec<u8>), ResultCode>)
    requires
        old(parcel).wf(),
    ensures
        final(parcel).wf(),
        match dequeued_at(old(parcel).cursor()) {
            Ok(found) => r matches Ok(got) && got.0 == found.0 && got.1 == found.1 && got.2@
                == found.2,
            Err(e) => r matches Err(e2) && e2 == e,
        },
{
    let slot: i32 = match parcel.read_i32() {
        Ok(slot) => slot,
        Err(e) => {
            return Err(e);
        },
    };
    match read_optional_object(parcel) {
        Ok(found) => Ok((slot, found.0, found.1)),
        Err(e) => Err(e),
    }
}

/// What a transaction's loaded reply gives where a queue report is expected.
fn finish_queue_report(response: Result<Parcel, ResultCode>) -> (r: Result<
    QueueBufferOutput,
    ResultCode,
>)
    requires
        response matches Ok(parcel) ==> parcel.wf(),
    ensures
        forall|reply: Result<ParcelPayload, ResultCode>| #[trigger]
            loaded(reply, response) ==> r == queue_report_result(reply),
        response matches Err(e) ==> r == Err::<QueueBufferOutput, ResultCode>(e),
{
    match response {
        Ok(mut parcel) => read_queue_report(&mut parcel),
        Err(e) => Err(e),
    }
}

/// What a transaction's loaded reply gives where only a status is expected.
fn finish_status(response: Result<Parcel, ResultCode>) -> (r: Result<(), ResultCode>)
    requires
        response matches Ok(parcel) ==> parcel.wf(),
    ensures
        forall|reply: Result<ParcelPayload, ResultCode>| #[trigger]
            loaded(reply, response) ==> r == status_result(reply),
        response matches Err(e) ==> r == Err::<(), ResultCode>(e),
{
    match response {
        Ok(mut parcel) => read_status(&mut parcel),
        Err(e) => Err(e),
    }
}

/// What a transaction's loaded reply gives for `request_buffer`.
fn finish_request_buffer(response: Result<Parcel, ResultCode>) -> (r: Result<
    (bool, GraphicBuffer),
    ResultCode,
>)
    requires
        response matches Ok(parcel) ==> parcel.wf(),
    ensures
        forall|reply: Result<ParcelPayload, ResultCode>| #[trigger]
            loaded(reply, response) ==> buffer_view(r) == request_buffer_result(reply),
        response matches Err(e) ==> buffer_view(r) == Err::<(bool, Seq<u8>), ResultCode>(e),
{
    match response {
        Ok(mut parcel) => match read_optional_object(&mut parcel) {
            Ok(found) => Ok((found.0, GraphicBuffer { data: found.1 })),
            Err(e) => Err(e),
        },
        Err(e) => Err(e),
    }
}

/// What a transaction's loaded reply gives for `dequeue_buffer`.
fn finish_dequeue_buffer(response: Result<Parcel, ResultCode>) -> (r: Result<
    (i32, bool, MultiFence),
    ResultCode,
>)
    requires
        response matches Ok(parcel) ==> parcel.wf(),
    ensures
        forall|reply: Result<ParcelPayload, ResultCode>| #[trigger]
            loaded(reply, response) ==> fences_view(r) == dequeue_buffer_result(reply),
        response matches Err(e) ==> fences_view(r) == Err::<(i32, bool, Seq<u8>), ResultCode>(e),
{
    match response {
        Ok(mut parcel) => match read_dequeued(&mut parcel) {
            Ok(found) => Ok((found.0, found.1, MultiFence { data: found.2 })),
            Err(e) => Err(e),
        },
        Err(e) => Err(e),
    }
}

/// A client of one graphics buffer producer, reached through a driver.
pub struct Binder<D: IHOSBinderDriver> {
    handle: i32,
    hos_binder_driver: D,
}

impl<D: IHOSBinderDriver> Binder<D> {
    /// The binder that this client speaks to.
    pub closed spec fn handle(&self) -> i32 {
        self.handle
    }

    /// The driver that carries this client's transactions.
    pub closed spec fn driver(&self) -> D {
        self.hos_binder_driver
    }

    /// A client of the binder `handle`, reached through `hos_binder_driver`.
    pub fn new(handle: i32, hos_binder_driver: D) -> (r: Result<Self, ResultCode>)
        ensures
            r matches Ok(binder) && binder.handle() == handle && binder.driver() == hos_binder_driver,
    {
        Ok(Self { handle, hos_binder_driver })
    }

    pub fn get_handle(&self) -> (h: i32)
        ensures
            h == self.handle(),
    {
        self.handle
    }

    pub fn get_hos_binder_driver(&self) -> (d: &D)
        ensures
            *d == self.driver(),
    {
        &self.hos_binder_driver
    }

    /// Starts a request: the interface token comes first.
    fn transact_parcel_begin(&self, parcel: &mut Parcel) -> (r: Result<(), ResultCode>)
        requires
            old(parcel).wf(),
        ensures
            old(parcel).has_room(token(INTERFACE_TOKEN@).len() as int) ==> r is Ok
                && final(parcel).appended(old(parcel), token(INTERFACE_TOKEN@)),
            !old(parcel).has_room(token(INTERFACE_TOKEN@).len() as int) ==> r == Err::<
                (),
                ResultCode,
            >(ResultCode::ErrorCodeNoMemory) && final(parcel).unchanged(old(parcel)),
    {
        parcel.write_interface_token(INTERFACE_TOKEN)
    }

    /// Ends a reply: its status decides the call's result.
    fn transact_parcel_check_err(&self, parcel: &mut Parcel) -> (r: Result<(), ResultCode>)
        requires
            old(parcel).wf(),
        ensures
            final(parcel).wf(),
            r == status_at(old(parcel).cursor()),
    {
        read_status(parcel)
    }

    /// Hands a finished request to the driver and loads what it answers.
    fn transact_parcel_impl(&self, transaction_id: ParcelTransactionId, payload: ParcelPayload) -> (r:
        Result<Parcel, ResultCode>)
        ensures
            exists|reply: Result<ParcelPayload, ResultCode>|
                call_ensures(
                    D::transact_parcel,
                    (&self.driver(), self.handle(), transaction_id, 0u32, &payload),
                    reply,
                ) && loaded(reply, r),
    {
        let reply = self.hos_binder_driver.transact_parcel(self.handle, transaction_id, 0, &payload);
        match reply {
            Ok(response_payload) => {
                let mut parcel = Parcel::new();
                parcel.load_from(response_payload);
                let r = Ok(parcel);
                assert(loaded(reply, r));
                r
            },
            Err(e) => {
                let r = Err(e);
                assert(loaded(reply, r));
                r
            },
        }
    }

    /// Finishes the request in `parcel`, transacts it, and loads the reply.
    /// Fails with `ErrorCodeNoMemory` before any transaction exactly when
    /// the request is larger than a parcel may be.
    fn transact_parcel(&self, transaction_id: ParcelTransactionId, parcel: &mut Parcel) -> (r: Result<
        Parcel,
        ResultCode,
    >)
        requires
            old(parcel).wf(),
        ensures
            final(parcel).unchanged(old(parcel)),
            !fits(old(parcel).data()) ==> (r matches Err(e) && e == ResultCode::ErrorCodeNoMemory),
            fits(old(parcel).data()) ==> exists|reply: Result<ParcelPayload, ResultCode>|
                transacted(&self.driver(), self.handle(), transaction_id, old(parcel).data(), reply)
                    && loaded(reply, r),
    {
        let payload = match parcel.end_write() {
            Ok(done) => done.0,
            Err(e) => {
                return Err(e);
            },
        };
        proof {
            assert(is_request(payload, old(parcel).data()));
        }
        self.transact_parcel_impl(transaction_id, payload)
    }

    /// Adds one to the binder's weak count, then one to its strong count.
    /// The strong count is touched only after the weak one was raised.
    pub fn increase_refcounts(&self) -> (r: Result<(), ResultCode>)
        ensures
            self.adjusted_both(1i32, r),
    {
        match self.hos_binder_driver.adjust_refcount(self.handle, 1, RefcountType::Weak) {
            Ok(_) => {},
            Err(e) => {
                return Err(e);
            },
        }
        self.hos_binder_driver.adjust_refcount(self.handle, 1, RefcountType::Strong)
    }

    /// Takes one from the binder's weak count, then one from its strong count.
    pub fn decrease_refcounts(&self) -> (r: Result<(), ResultCode>)
        ensures
            self.adjusted_both(-1i32, r),
    {
        match self.hos_binder_driver.adjust_refcount(self.handle, -1, RefcountType::Weak) {
            Ok(_) => {},
            Err(e) => {
                return Err(e);
            },
        }
        self.hos_binder_driver.adjust_refcount(self.handle, -1, RefcountType::Strong)
    }

    /// The driver was asked to change the weak count by `by`; where it
    /// refused, `r` is its error and the strong count was left alone; where it
    /// agreed, it was asked the same of the strong count and `r` is that answer.
    pub open spec fn adjusted_both(&self, by: i32, r: Result<(), ResultCode>) -> bool {
        exists|weak: Result<(), ResultCode>|
            #![trigger call_ensures(D::adjust_refcount, (&self.driver(), self.handle(), by, RefcountType::Weak), weak)]
            call_ensures(
                D::adjust_refcount,
                (&self.driver(), self.handle(), by, RefcountType::Weak),
                weak,
            ) && match weak {
                Err(e) => r == Err::<(), ResultCode>(e),
                Ok(_) => call_ensures(
                    D::adjust_refcount,
                    (&self.driver(), self.handle(), by, RefcountType::Strong),
                    r,
                ),
            }
    }

    /// Connects `api` to the buffer queue and returns the queue's report.
    /// The request is `connect_request`; the result is what
    /// `queue_report_result` makes of the driver's answer.
    pub fn connect(&self, api: ConnectionApi, producer_controlled_by_app: bool) -> (r: Result<
        QueueBufferOutput,
        ResultCode,
    >)
        ensures
            !fits(connect_request(api, producer_controlled_by_app)) ==> r == Err::<
                QueueBufferOutput,
                ResultCode,
            >(ResultCode::ErrorCodeNoMemory),
            fits(connect_request(api, producer_controlled_by_app)) ==> exists|
                reply: Result<ParcelPayload, ResultCode>,
            |
                #![trigger queue_report_result(reply)]
                transacted(
                    &self.driver(),
                    self.handle(),
                    ParcelTransactionId::Connect,
                    connect_request(api, producer_controlled_by_app),
                    reply,
                ) && r == queue_report_result(reply),
    {
        let mut parcel = match frame_connect(api, producer_controlled_by_app) {
            Ok(parcel) => parcel,
            Err(e) => {
                return Err(e);
            },
        };
        let response = self.transact_parcel(ParcelTransactionId::Connect, &mut parcel);
        let r = finish_queue_report(response);
        proof {
            let reply = choose|reply: Result<ParcelPayload, ResultCode>|
                transacted(
                    &self.driver(),
                    self.handle(),
                    ParcelTransactionId::Connect,
                    connect_request(api, producer_controlled_by_app),
                    reply,
                ) && loaded(reply, response);
            assert(r == queue_report_result(reply));
        }
        r
    }

    /// Disconnects `api` from the buffer queue.
    pub fn disconnect(&self, api: ConnectionApi, mode: DisconnectMode) -> (r: Result<(), ResultCode>)
        ensures
            !fits(disconnect_request(api, mode)) ==> r == Err::<(), ResultCode>(
                ResultCode::ErrorCodeNoMemory,
            ),
            fits(disconnect_request(api, mode)) ==> exists|reply: Result<ParcelPayload, ResultCode>|
                #![trigger status_result(reply)]
                transacted(
                    &self.driver(),
                    self.handle(),
                    ParcelTransactionId::Disconnect,
                    disconnect_request(api, mode),
                    reply,
                ) && r == status_result(reply),
    {
        let mut parcel = match frame_disconnect(api, mode) {
            Ok(parcel) => parcel,
            Err(e) => {
                return Err(e);
            },
        };
        let response = self.transact_parcel(ParcelTransactionId::Disconnect, &mut parcel);
        let r = finish_status(response);
        proof {
            let reply = choose|reply: Result<ParcelPayload, ResultCode>|
                transacted(
                    &self.driver(),
                    self.handle(),
                    ParcelTransactionId::Disconnect,
                    disconnect_request(api, mode),
                    reply,
                ) && loaded(reply, response);
            assert(r == status_result(reply));
        }
        r
    }

    /// Hands the buffer queue a buffer for `slot`.
    pub fn set_preallocated_buffer(&self, slot: i32, buf: GraphicBuffer) -> (r: Result<(), ResultCode>)
        ensures
            !fits(set_preallocated_buffer_request(slot, buf.data@)) ==> r == Err::<(), ResultCode>(
                ResultCode::ErrorCodeNoMemory,
            ),
            fits(set_preallocated_buffer_request(slot, buf.data@)) ==> exists|
                reply: Result<ParcelPayload, ResultCode>,
            |
                #![trigger status_result(reply)]
                transacted(
                    &self.driver(),
                    self.handle(),
                    ParcelTransactionId::SetPreallocatedBuffer,
                    set_preallocated_buffer_request(slot, buf.data@),
                    reply,
                ) && r == status_result(reply),
    {
        let mut parcel = match frame_set_preallocated_buffer(slot, &buf) {
            Ok(parcel) => parcel,
            Err(e) => {
                return Err(e);
            },
        };
        let response = self.transact_parcel(ParcelTransactionId::SetPreallocatedBuffer, &mut parcel);
        let r = finish_status(response);
        proof {
            let reply = choose|reply: Result<ParcelPayload, ResultCode>|
                transacted(
                    &self.driver(),
                    self.handle(),
                    ParcelTransactionId::SetPreallocatedBuffer,
                    set_preallocated_buffer_request(slot, buf.data@),
                    reply,
                ) && loaded(reply, response);
            assert(r == status_result(reply));
        }
        r
    }

    /// Asks for the buffer of `slot`. The reply says first whether a buffer
    /// follows; where none does, the buffer returned is empty.
    pub fn request_buffer(&self, slot: i32) -> (r: Result<(bool, GraphicBuffer), ResultCode>)
        ensures
            !fits(request_buffer_request(slot)) ==> buffer_view(r) == Err::<
                (bool, Seq<u8>),
                ResultCode,
            >(ResultCode::ErrorCodeNoMemory),
            fits(request_buffer_request(slot)) ==> exists|reply: Result<ParcelPayload, ResultCode>|
                #![trigger request_buffer_result(reply)]
                transacted(
                    &self.driver(),
                    self.handle(),
                    ParcelTransactionId::RequestBuffer,
                    request_buffer_request(slot),
                    reply,
                ) && buffer_view(r) == request_buffer_result(reply),
    {
        let mut parcel = match frame_request_buffer(slot) {
            Ok(parcel) => parcel,
            Err(e) => {
                return Err(e);
            },
        };
        let response = self.transact_parcel(ParcelTransactionId::RequestBuffer, &mut parcel);
        let r = finish_request_buffer(response);
        proof {
            let reply = choose|reply: Result<ParcelPayload, ResultCode>|
                transacted(
                    &self.driver(),
                    self.handle(),
                    ParcelTransactionId::RequestBuffer,
                    request_buffer_request(slot),
                    reply,
                ) && loaded(reply, response);
            assert(buffer_view(r) == request_buffer_result(reply));
        }
        r
    }

    /// Asks for a free buffer of the given size and usage. The reply names
    /// the slot, then says whether fences follow; where none do, the fences
    /// returned are empty.
    pub fn dequeue_buffer(
        &self,
        is_async: bool,
        width: u32,
        height: u32,
        get_frame_timestamps: bool,
        usage: GraphicsAllocatorUsage,
    ) -> (r: Result<(i32, bool, MultiFence), ResultCode>)
        ensures
            !fits(dequeue_buffer_request(is_async, width, height, get_frame_timestamps, usage))
                ==> fences_view(r) == Err::<(i32, bool, Seq<u8>), ResultCode>(
                ResultCode::ErrorCodeNoMemory,
            ),
            fits(dequeue_buffer_request(is_async, width, height, get_frame_timestamps, usage))
                ==> exists|reply: Result<ParcelPayload, ResultCode>|
                #![trigger dequeue_buffer_result(reply)]
                transacted(
                    &self.driver(),
                    self.handle(),
                    ParcelTransactionId::DequeueBuffer,
                    dequeue_buffer_request(is_async, width, height, get_frame_timestamps, usage),
                    reply,
                ) && fences_view(r) == dequeue_buffer_result(reply),
    {
        let mut parcel = match frame_dequeue_buffer(
            is_async,
            width,
            height,
            get_frame_timestamps,
            usage,
        ) {
            Ok(parcel) => parcel,
            Err(e) => {
                return Err(e);
            },
        };
        let response = self.transact_parcel(ParcelTransactionId::DequeueBuffer, &mut parcel);
        let r = finish_dequeue_buffer(response);
        proof {
            let reply = choose|reply: Result<ParcelPayload, ResultCode>|
                transacted(
                    &self.driver(),
                    self.handle(),
                    ParcelTransactionId::DequeueBuffer,
                    dequeue_buffer_request(is_async, width, height, get_frame_timestamps, usage),
                    reply,
                ) && loaded(reply, response);
            assert(fences_view(r) == dequeue_buffer_result(reply));
        }
        r
    }

    /// Queues the buffer of `slot` and returns the queue's report.
    pub fn queue_buffer(&self, slot: i32, qbi: QueueBufferInput) -> (r: Result<
        QueueBufferOutput,
        ResultCode,
    >)
        ensures
            !fits(queue_buffer_request(slot, qbi.data@)) ==> r == Err::<QueueBufferOutput, ResultCode>(
                ResultCode::ErrorCodeNoMemory,
            ),
            fits(queue_buffer_request(slot, qbi.data@)) ==> exists|
                reply: Result<ParcelPayload, ResultCode>,
            |
                #![trigger queue_report_result(reply)]
                transacted(
                    &self.driver(),
                    self.handle(),
                    ParcelTransactionId::QueueBuffer,
                    queue_buffer_request(slot, qbi.data@),
                    reply,
                ) && r == queue_report_result(reply),
    {
        let mut parcel = match frame_queue_buffer(slot, &qbi) {
            Ok(parcel) => parcel,
            Err(e) => {
                return Err(e);
            },
        };
        let response = self.transact_parcel(ParcelTransactionId::QueueBuffer, &mut parcel);
        let r = finish_queue_report(response);
        proof {
            let reply = choose|reply: Result<ParcelPayload, ResultCode>|
                transacted(
                    &self.driver(),
                    self.handle(),
                    ParcelTransactionId::QueueBuffer,
                    queue_buffer_request(slot, qbi.data@),
                    reply,
                ) && loaded(reply, response);
            assert(r == queue_report_result(reply));
        }
        r
    }

    /// Asks the driver for a copy of one of the binder's native handles.
    pub fn get_native_handle(&self, handle_type: NativeHandleType) -> (r: Result<u32, ResultCode>)
        ensures
            call_ensures(D::get_native_handle, (&self.driver(), self.handle(), handle_type), r),
    {
        self.hos_binder_driver.get_native_handle(self.handle, handle_type)
    }
}

} // verus!
