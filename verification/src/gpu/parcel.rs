//! Android-style parcels: a 16-byte header followed by 4-byte aligned,
//! little-endian data.

use vstd::prelude::*;
use vstd::string::*;
use crate::result::ResultCode;

verus! {

/// Size of the header that precedes a parcel's data.
pub const HEADER_SIZE: usize = 16;

/// Room that a new parcel has before it must grow.
pub const INITIAL_CAPACITY: usize = 0x400;

/// Largest parcel, header included: every offset in it must fit 32 bits.
pub const MAX_PARCEL_SIZE: usize = 0xFFFF_FFFF;

/// The four bytes of `v`, least significant first.
pub open spec fn u32_le(v: u32) -> Seq<u8> {
    seq![
        (v % 256) as u8,
        ((v / 256) % 256) as u8,
        ((v / 65536) % 256) as u8,
        (v / 16777216) as u8,
    ]
}

/// The value whose little-endian bytes are the first four of `b`.
pub open spec fn u32_from_le(b: Seq<u8>) -> u32 {
    (b[0] + b[1] * 256 + b[2] * 65536 + b[3] * 16777216) as u32
}

/// The eight bytes of `v`, least significant first.
pub open spec fn u64_le(v: u64) -> Seq<u8> {
    u32_le((v % 0x1_0000_0000) as u32) + u32_le((v / 0x1_0000_0000) as u32)
}

/// The value whose little-endian bytes are the first eight of `b`.
pub open spec fn u64_from_le(b: Seq<u8>) -> u64 {
    (u32_from_le(b.subrange(0, 4)) + u32_from_le(b.subrange(4, 8)) * 0x1_0000_0000) as u64
}

/// The two's-complement bit pattern of `v`.
pub open spec fn i32_bits(v: i32) -> u32 {
    if v >= 0 {
        v as u32
    } else {
        (v + 0x1_0000_0000) as u32
    }
}

/// The signed value with bit pattern `b`.
pub open spec fn i32_from_bits(b: u32) -> i32 {
    if b < 0x8000_0000 {
        b as i32
    } else {
        (b - 0x1_0000_0000) as i32
    }
}

/// The two's-complement bit pattern of `v`.
pub open spec fn i64_bits(v: i64) -> u64 {
    if v >= 0 {
        v as u64
    } else {
        (v + 0x1_0000_0000_0000_0000) as u64
    }
}

/// The signed value with bit pattern `b`.
pub open spec fn i64_from_bits(b: u64) -> i64 {
    if b < 0x8000_0000_0000_0000 {
        b as i64
    } else {
        (b - 0x1_0000_0000_0000_0000) as i64
    }
}

/// `len` rounded up to the next multiple of four.
pub open spec fn padded_len(len: int) -> int {
    (len + 3) / 4 * 4
}

/// `bytes` followed by the zero bytes that bring its length to a multiple of four.
pub open spec fn padded(bytes: Seq<u8>) -> Seq<u8> {
    bytes + Seq::new((padded_len(bytes.len() as int) - bytes.len()) as nat, |i: int| 0u8)
}

/// A sized object on the wire: its size, a zero word, then its padded bytes.
pub open spec fn sized(bytes: Seq<u8>) -> Seq<u8> {
    u32_le(bytes.len() as u32) + u32_le(0) + padded(bytes)
}

/// The UTF-16 code units of one character.
pub open spec fn utf16_units(c: char) -> Seq<u16> {
    if (c as u32) < 0x1_0000 {
        seq![(c as u32) as u16]
    } else {
        seq![
            (0xD800 + ((c as u32) - 0x1_0000) / 1024) as u16,
            (0xDC00 + ((c as u32) - 0x1_0000) % 1024) as u16,
        ]
    }
}

/// The UTF-16 code units of a string.
pub open spec fn utf16(chars: Seq<char>) -> Seq<u16>
    decreases chars.len(),
{
    if chars.len() == 0 {
        Seq::empty()
    } else {
        utf16(chars.drop_last()) + utf16_units(chars.last())
    }
}

/// The two bytes of `u`, least significant first.
pub open spec fn u16_le(u: u16) -> Seq<u8> {
    seq![(u % 256) as u8, (u / 256) as u8]
}

/// Code units as bytes, each least significant byte first.
pub open spec fn utf16_le(units: Seq<u16>) -> Seq<u8>
    decreases units.len(),
{
    if units.len() == 0 {
        Seq::empty()
    } else {
        utf16_le(units.drop_last()) + u16_le(units.last())
    }
}

/// An interface token on the wire: the count of code units, the units
/// themselves and a terminating zero unit padded to a word, then a zero
/// strict-mode word.
pub open spec fn token(chars: Seq<char>) -> Seq<u8> {
    u32_le(utf16(chars).len() as u32) + padded(utf16_le(utf16(chars)) + u16_le(0)) + u32_le(0)
}

/// A word comes back from its four bytes.
pub proof fn lemma_u32_round_trip(v: u32)
    ensures
        u32_le(v).len() == 4,
        u32_from_le(u32_le(v)) == v,
{
}

/// A double word comes back from its eight bytes.
pub proof fn lemma_u64_round_trip(v: u64)
    ensures
        u64_le(v).len() == 8,
        u64_from_le(u64_le(v)) == v,
{
    let lo = (v % 0x1_0000_0000) as u32;
    let hi = (v / 0x1_0000_0000) as u32;
    lemma_u32_round_trip(lo);
    lemma_u32_round_trip(hi);
    assert(u64_le(v).subrange(0, 4) =~= u32_le(lo));
    assert(u64_le(v).subrange(4, 8) =~= u32_le(hi));
}

/// A signed value comes back from its bit pattern.
pub proof fn lemma_i32_round_trip(v: i32)
    ensures
        i32_from_bits(i32_bits(v)) == v,
{
}

/// A signed 64-bit value comes back from its bit pattern.
pub proof fn lemma_i64_round_trip(v: i64)
    ensures
        i64_from_bits(i64_bits(v)) == v,
{
}

/// Padding adds fewer than four bytes and ends on a word.
pub proof fn lemma_padded_len(len: int)
    requires
        len >= 0,
    ensures
        len <= padded_len(len) < len + 4,
        padded_len(len) % 4 == 0,
{
}

/// Every code unit takes two bytes.
pub proof fn lemma_utf16_le_len(units: Seq<u16>)
    ensures
        utf16_le(units).len() == 2 * units.len(),
    decreases units.len(),
{
    if units.len() > 0 {
        lemma_utf16_le_len(units.drop_last());
    }
}

/// Every character takes one code unit or two.
pub proof fn lemma_utf16_len(chars: Seq<char>)
    ensures
        chars.len() <= utf16(chars).len() <= 2 * chars.len(),
    decreases chars.len(),
{
    if chars.len() > 0 {
        lemma_utf16_len(chars.drop_last());
    }
}

/// The header of a parcel: where its data and its objects lie, counted from
/// the start of the header.
#[derive(Clone, Copy, PartialEq, Eq, Structural, Debug)]
pub struct ParcelHeader {
    pub data_size: u32,
    pub data_offset: u32,
    pub objects_size: u32,
    pub objects_offset: u32,
}

impl ParcelHeader {
    /// The header's sixteen bytes on the wire.
    pub open spec fn bytes(&self) -> Seq<u8> {
        u32_le(self.data_size) + u32_le(self.data_offset) + u32_le(self.objects_size) + u32_le(
            self.objects_offset,
        )
    }
}

/// A finished parcel: its header and the bytes that follow it.
#[derive(Debug)]
pub struct ParcelPayload {
    pub header: ParcelHeader,
    pub payload: Vec<u8>,
}

impl ParcelPayload {
    /// The parcel as it travels: header bytes, then the payload.
    pub open spec fn wire(&self) -> Seq<u8> {
        self.header.bytes() + self.payload@
    }

    /// An empty parcel, as handed to the driver to be filled with a reply.
    pub fn new() -> (r: Self)
        ensures
            r.header == (ParcelHeader { data_size: 0, data_offset: 0, objects_size: 0, objects_offset: 0 }),
            r.payload@ == Seq::<u8>::empty(),
    {
        Self {
            header: ParcelHeader { data_size: 0, data_offset: 0, objects_size: 0, objects_offset: 0 },
            payload: Vec::new(),
        }
    }

    /// The parcel's bytes as they travel.
    pub fn to_bytes(&self) -> (r: Vec<u8>)
        ensures
            r@ == self.wire(),
    {
        let mut out: Vec<u8> = Vec::new();
        push_u32(&mut out, self.header.data_size);
        push_u32(&mut out, self.header.data_offset);
        push_u32(&mut out, self.header.objects_size);
        push_u32(&mut out, self.header.objects_offset);
        let mut i: usize = 0;
        while i < self.payload.len()
            invariant
                i <= self.payload.len(),
                out@ == self.header.bytes() + self.payload@.subrange(0, i as int),
            decreases self.payload.len() - i,
        {
            out.push(self.payload[i]);
            i += 1;
        }
        assert(self.payload@.subrange(0, i as int) =~= self.payload@);
        out
    }

    /// Reads a parcel from its bytes as they travel. `None` where the bytes
    /// are too few to hold a header.
    pub fn from_bytes(bytes: &Vec<u8>) -> (r: Option<Self>)
        ensures
            bytes@.len() < HEADER_SIZE ==> r is None,
            bytes@.len() >= HEADER_SIZE ==> (r matches Some(p) && {
                &&& p.header.data_size == u32_from_le(bytes@.subrange(0, 4))
                &&& p.header.data_offset == u32_from_le(bytes@.subrange(4, 8))
                &&& p.header.objects_size == u32_from_le(bytes@.subrange(8, 12))
                &&& p.header.objects_offset == u32_from_le(bytes@.subrange(12, 16))
                &&& p.payload@ == bytes@.subrange(16, bytes@.len() as int)
            }),
    {
        if bytes.len() < HEADER_SIZE {
            return None;
        }
        let header = ParcelHeader {
            data_size: get_u32(bytes, 0),
            data_offset: get_u32(bytes, 4),
            objects_size: get_u32(bytes, 8),
            objects_offset: get_u32(bytes, 12),
        };
        let payload = copy_range(bytes, HEADER_SIZE, bytes.len());
        Some(Self { header, payload })
    }
}

/// Appends the little-endian bytes of `v`.
pub fn push_u32(buf: &mut Vec<u8>, v: u32)
    ensures
        final(buf)@ == old(buf)@ + u32_le(v),
{
    buf.push((v % 256) as u8);
    buf.push(((v / 256) % 256) as u8);
    buf.push(((v / 65536) % 256) as u8);
    buf.push((v / 16777216) as u8);
    assert(buf@ =~= old(buf)@ + u32_le(v));
}

/// Reads the little-endian value at `at`.
pub fn get_u32(buf: &Vec<u8>, at: usize) -> (v: u32)
    requires
        at + 4 <= buf@.len(),
    ensures
        v == u32_from_le(buf@.subrange(at as int, at + 4)),
{
    let len: usize = buf.len();
    let b0: u32 = buf[at] as u32;
    let b1: u32 = buf[at + 1] as u32;
    let b2: u32 = buf[at + 2] as u32;
    let b3: u32 = buf[at + 3] as u32;
    b0 + b1 * 256 + b2 * 65536 + b3 * 16777216
}

/// Reads the little-endian 64-bit value at `at`.
pub fn get_u64(buf: &Vec<u8>, at: usize) -> (v: u64)
    requires
        at + 8 <= buf@.len(),
    ensures
        v == u64_from_le(buf@.subrange(at as int, at + 8)),
{
    let len: usize = buf.len();
    let lo: u64 = get_u32(buf, at) as u64;
    let hi: u64 = get_u32(buf, at + 4) as u64;
    proof {
        let b = buf@.subrange(at as int, at + 8);
        assert(b.subrange(0, 4) =~= buf@.subrange(at as int, at + 4));
        assert(b.subrange(4, 8) =~= buf@.subrange(at + 4, at + 8));
    }
    lo + hi * 0x1_0000_0000
}

/// Copies the bytes of `buf` from `from` up to `to`.
pub fn copy_range(buf: &Vec<u8>, from: usize, to: usize) -> (r: Vec<u8>)
    requires
        from <= to <= buf@.len(),
    ensures
        r@ == buf@.subrange(from as int, to as int),
{
    let mut out: Vec<u8> = Vec::new();
    let mut i: usize = from;
    while i < to
        invariant
            from <= i <= to <= buf@.len(),
            out@ == buf@.subrange(from as int, i as int),
        decreases to - i,
    {
        out.push(buf[i]);
        assert(out@ =~= buf@.subrange(from as int, i + 1));
        i += 1;
    }
    out
}

/// Appends `bytes`, then zero bytes up to a multiple of four.
fn push_padded(buf: &mut Vec<u8>, bytes: &Vec<u8>)
    ensures
        final(buf)@ == old(buf)@ + padded(bytes@),
{
    let mut i: usize = 0;
    while i < bytes.len()
        invariant
            i <= bytes.len(),
            buf@ == old(buf)@ + bytes@.subrange(0, i as int),
        decreases bytes.len() - i,
    {
        buf.push(bytes[i]);
        assert(buf@ =~= old(buf)@ + bytes@.subrange(0, i + 1));
        i += 1;
    }
    assert(bytes@.subrange(0, i as int) =~= bytes@);
    let rest: usize = (4 - bytes.len() % 4) % 4;
    assert(rest == padded_len(bytes@.len() as int) - bytes@.len());
    let mut k: usize = 0;
    while k < rest
        invariant
            k <= rest,
            buf@ == old(buf)@ + bytes@ + Seq::new(k as nat, |i: int| 0u8),
        decreases rest - k,
    {
        buf.push(0u8);
        assert(buf@ =~= old(buf)@ + bytes@ + Seq::new((k + 1) as nat, |i: int| 0u8));
        k += 1;
    }
    assert(buf@ =~= old(buf)@ + padded(bytes@));
}

/// The header of a finished parcel whose data is `data_len` bytes long: the
/// data follows the header at once, and no objects follow the data.
pub open spec fn finished_header(data_len: int) -> ParcelHeader {
    ParcelHeader {
        data_size: data_len as u32,
        data_offset: HEADER_SIZE as u32,
        objects_size: 0,
        objects_offset: (HEADER_SIZE + data_len) as u32,
    }
}

/// A reading position in a parcel image, as a value: what is read next is
/// a function of it.
pub struct Cursor {
    pub image: Seq<u8>,
    pub pos: int,
    pub limit: int,
}

impl Cursor {
    /// Where reading of a loaded payload starts and stops.
    pub open spec fn of_payload(payload: ParcelPayload) -> Cursor {
        Cursor {
            image: payload.wire(),
            pos: payload.header.data_offset as int,
            limit: if payload.header.data_offset + payload.header.data_size <= usize::MAX {
                payload.header.data_offset + payload.header.data_size
            } else {
                usize::MAX as int
            },
        }
    }

    /// Whether `n` more bytes can be read.
    pub open spec fn can_read(self, n: int) -> bool {
        &&& n >= 0
        &&& self.pos + n <= self.limit
        &&& self.pos + n <= self.image.len()
    }

    /// The cursor after `n` bytes were read.
    pub open spec fn skip(self, n: int) -> Cursor {
        Cursor { pos: self.pos + n, ..self }
    }

    /// The `n` bytes read next.
    pub open spec fn peek(self, n: int) -> Seq<u8> {
        self.image.subrange(self.pos, self.pos + n)
    }

    /// The 32-bit value read next.
    pub open spec fn next_u32(self) -> u32 {
        u32_from_le(self.peek(4))
    }

    /// The signed 32-bit value read next.
    pub open spec fn next_i32(self) -> i32 {
        i32_from_bits(self.next_u32())
    }

    /// The 64-bit value read next.
    pub open spec fn next_u64(self) -> u64 {
        u64_from_le(self.peek(8))
    }

    /// The signed 64-bit value read next.
    pub open spec fn next_i64(self) -> i64 {
        i64_from_bits(self.next_u64())
    }

    /// Whether a whole sized object can be read.
    pub open spec fn can_read_sized(self) -> bool {
        self.can_read(8) && self.can_read(8 + padded_len(self.next_u32() as int))
    }

    /// The bytes of the sized object read next.
    pub open spec fn next_sized(self) -> Seq<u8> {
        self.skip(8).peek(self.next_u32() as int)
    }

    /// The cursor after the sized object was read.
    pub open spec fn skip_sized(self) -> Cursor {
        self.skip(8 + padded_len(self.next_u32() as int))
    }
}

/// A parcel being written or read. Writing appends to the data that
/// follows the header; reading walks a loaded payload from its data offset
/// and never past the data size its header declares.
pub struct Parcel {
    image: Vec<u8>,
    read_head: usize,
    read_end: usize,
}

impl Parcel {
    /// The parcel as it travels: sixteen header bytes, then the data.
    pub closed spec fn image(&self) -> Seq<u8> {
        self.image@
    }

    /// Where the next read starts, counted from the start of the header.
    pub closed spec fn read_pos(&self) -> int {
        self.read_head as int
    }

    /// Where reading must stop, counted from the start of the header.
    pub closed spec fn read_limit(&self) -> int {
        self.read_end as int
    }

    /// The reading position as a value.
    pub open spec fn cursor(&self) -> Cursor {
        Cursor { image: self.image(), pos: self.read_pos(), limit: self.read_limit() }
    }

    /// The image always holds a header.
    pub open spec fn wf(&self) -> bool {
        self.image().len() >= HEADER_SIZE
    }

    /// The data written so far.
    pub open spec fn data(&self) -> Seq<u8> {
        self.image().subrange(HEADER_SIZE as int, self.image().len() as int)
    }

    /// Whether `n` more bytes can be appended without outgrowing a parcel.
    pub open spec fn has_room(&self, n: int) -> bool {
        self.image().len() + n <= MAX_PARCEL_SIZE
    }

    /// Whether `n` more bytes can be read.
    pub open spec fn can_read(&self, n: int) -> bool {
        self.cursor().can_read(n)
    }

    /// The `n` bytes that the next read starts with.
    pub open spec fn peek(&self, n: int) -> Seq<u8> {
        self.cursor().peek(n)
    }

    /// `self` is `before` with `enc` appended and nothing read.
    pub open spec fn appended(&self, before: &Self, enc: Seq<u8>) -> bool {
        &&& self.wf()
        &&& self.image() == before.image() + enc
        &&& self.data() == before.data() + enc
        &&& self.read_pos() == before.read_pos()
        &&& self.read_limit() == before.read_limit()
    }

    /// `self` is `before` with `n` more bytes read and nothing written.
    pub open spec fn advanced(&self, before: &Self, n: int) -> bool {
        &&& self.wf()
        &&& self.image() == before.image()
        &&& self.read_pos() == before.read_pos() + n
        &&& self.read_limit() == before.read_limit()
        &&& self.cursor() == before.cursor().skip(n)
    }

    /// `self` is `before`, untouched.
    pub open spec fn unchanged(&self, before: &Self) -> bool {
        &&& self.wf()
        &&& self.image() == before.image()
        &&& self.read_pos() == before.read_pos()
        &&& self.read_limit() == before.read_limit()
        &&& self.cursor() == before.cursor()
    }

    /// An empty parcel: a zeroed header, no data, nothing to read.
    pub fn new() -> (r: Self)
        ensures
            r.wf(),
            r.image().len() == HEADER_SIZE,
            r.data() == Seq::<u8>::empty(),
            r.read_pos() == HEADER_SIZE,
            r.read_limit() == HEADER_SIZE,
    {
        let mut image: Vec<u8> = Vec::with_capacity(INITIAL_CAPACITY);
        push_u32(&mut image, 0);
        push_u32(&mut image, 0);
        push_u32(&mut image, 0);
        push_u32(&mut image, 0);
        Self { image, read_head: HEADER_SIZE, read_end: HEADER_SIZE }
    }

    fn append(&mut self, enc: &Vec<u8>) -> (r: Result<(), ResultCode>)
        requires
            old(self).wf(),
        ensures
            old(self).has_room(enc@.len() as int) ==> r is Ok && final(self).appended(old(self), enc@),
            !old(self).has_room(enc@.len() as int) ==> r == Err::<(), ResultCode>(
                ResultCode::ErrorCodeNoMemory,
            ) && final(self).unchanged(old(self)),
    {
        if self.image.len() > MAX_PARCEL_SIZE || enc.len() > MAX_PARCEL_SIZE - self.image.len() {
            return Err(ResultCode::ErrorCodeNoMemory);
        }
        let mut i: usize = 0;
        while i < enc.len()
            invariant
                i <= enc.len(),
                self.image@ == old(self).image@ + enc@.subrange(0, i as int),
                self.read_head == old(self).read_head,
                self.read_end == old(self).read_end,
            decreases enc.len() - i,
        {
            self.image.push(enc[i]);
            assert(self.image@ =~= old(self).image@ + enc@.subrange(0, i + 1));
            i += 1;
        }
        assert(enc@.subrange(0, i as int) =~= enc@);
        assert(self.data() =~= old(self).data() + enc@);
        Ok(())
    }

    /// Appends a 32-bit value. Fails with `ErrorCodeNoMemory`, writing
    /// nothing, exactly when the parcel would outgrow its largest size.
    pub fn write_u32(&mut self, v: u32) -> (r: Result<(), ResultCode>)
        requires
            old(self).wf(),
        ensures
            old(self).has_room(4) ==> r is Ok && final(self).appended(old(self), u32_le(v)),
            !old(self).has_room(4) ==> r == Err::<(), ResultCode>(ResultCode::ErrorCodeNoMemory)
                && final(self).unchanged(old(self)),
    {
        let mut enc: Vec<u8> = Vec::new();
        push_u32(&mut enc, v);
        self.append(&enc)
    }

    /// Appends a signed 32-bit value as its two's-complement pattern.
    pub fn write_i32(&mut self, v: i32) -> (r: Result<(), ResultCode>)
        requires
            old(self).wf(),
        ensures
            old(self).has_room(4) ==> r is Ok && final(self).appended(
                old(self),
                u32_le(i32_bits(v)),
            ),
            !old(self).has_room(4) ==> r == Err::<(), ResultCode>(ResultCode::ErrorCodeNoMemory)
                && final(self).unchanged(old(self)),
    {
        self.write_u32(bits_of_i32(v))
    }

    /// Appends a 64-bit value.
    pub fn write_u64(&mut self, v: u64) -> (r: Result<(), ResultCode>)
        requires
            old(self).wf(),
        ensures
            old(self).has_room(8) ==> r is Ok && final(self).appended(old(self), u64_le(v)),
            !old(self).has_room(8) ==> r == Err::<(), ResultCode>(ResultCode::ErrorCodeNoMemory)
                && final(self).unchanged(old(self)),
    {
        let mut enc: Vec<u8> = Vec::new();
        push_u32(&mut enc, (v % 0x1_0000_0000) as u32);
        push_u32(&mut enc, (v / 0x1_0000_0000) as u32);
        self.append(&enc)
    }

    /// Appends a signed 64-bit value as its two's-complement pattern.
    pub fn write_i64(&mut self, v: i64) -> (r: Result<(), ResultCode>)
        requires
            old(self).wf(),
        ensures
            old(self).has_room(8) ==> r is Ok && final(self).appended(
                old(self),
                u64_le(i64_bits(v)),
            ),
            !old(self).has_room(8) ==> r == Err::<(), ResultCode>(ResultCode::ErrorCodeNoMemory)
                && final(self).unchanged(old(self)),
    {
        self.write_u64(bits_of_i64(v))
    }

    /// Appends raw bytes, padded with zeros to a multiple of four.
    pub fn write_bytes(&mut self, bytes: &Vec<u8>) -> (r: Result<(), ResultCode>)
        requires
            old(self).wf(),
        ensures
            old(self).has_room(padded_len(bytes@.len() as int)) ==> r is Ok && final(self).appended(
                old(self),
                padded(bytes@),
            ),
            !old(self).has_room(padded_len(bytes@.len() as int)) ==> r == Err::<(), ResultCode>(
                ResultCode::ErrorCodeNoMemory,
            ) && final(self).unchanged(old(self)),
    {
        if bytes.len() > MAX_PARCEL_SIZE {
            return Err(ResultCode::ErrorCodeNoMemory);
        }
        let mut enc: Vec<u8> = Vec::new();
        push_padded(&mut enc, bytes);
        assert(enc@ =~= padded(bytes@));
        self.append(&enc)
    }

    /// Appends a sized object: its byte count, a zero word, then its bytes
    /// padded to a multiple of four.
    pub fn write_sized(&mut self, bytes: &Vec<u8>) -> (r: Result<(), ResultCode>)
        requires
            old(self).wf(),
        ensures
            old(self).has_room(8 + padded_len(bytes@.len() as int)) ==> r is Ok
                && final(self).appended(old(self), sized(bytes@)),
            !old(self).has_room(8 + padded_len(bytes@.len() as int)) ==> r == Err::<(), ResultCode>(
                ResultCode::ErrorCodeNoMemory,
            ) && final(self).unchanged(old(self)),
    {
        if bytes.len() > MAX_PARCEL_SIZE - 8 {
            return Err(ResultCode::ErrorCodeNoMemory);
        }
        let mut enc: Vec<u8> = Vec::new();
        push_u32(&mut enc, bytes.len() as u32);
        push_u32(&mut enc, 0);
        push_padded(&mut enc, bytes);
        assert(enc@ =~= sized(bytes@));
        self.append(&enc)
    }

    /// Appends an interface token: the string as UTF-16, framed as `token` says.
    pub fn write_interface_token(&mut self, token_text: &str) -> (r: Result<(), ResultCode>)
        requires
            old(self).wf(),
        ensures
            old(self).has_room(token(token_text@).len() as int) ==> r is Ok && final(self).appended(
                old(self),
                token(token_text@),
            ),
            !old(self).has_room(token(token_text@).len() as int) ==> r == Err::<(), ResultCode>(
                ResultCode::ErrorCodeNoMemory,
            ) && final(self).unchanged(old(self)),
    {
        let count: usize = token_text.unicode_len();
        proof {
            lemma_utf16_len(token_text@);
            lemma_utf16_le_len(utf16(token_text@));
        }
        if count > MAX_PARCEL_SIZE / 2 {
            proof {
                lemma_padded_len((utf16_le(utf16(token_text@)).len() + 2) as int);
            }
            return Err(ResultCode::ErrorCodeNoMemory);
        }
        let mut units: Vec<u8> = Vec::new();
        let mut unit_count: usize = 0;
        let mut i: usize = 0;
        while i < count
            invariant
                i <= count,
                count == token_text@.len(),
                count <= MAX_PARCEL_SIZE / 2,
                unit_count == utf16(token_text@.subrange(0, i as int)).len(),
                unit_count <= 2 * i,
                units@ == utf16_le(utf16(token_text@.subrange(0, i as int))),
            decreases count - i,
        {
            let c: char = token_text.get_char(i);
            let code: u32 = c as u32;
            proof {
                let before = token_text@.subrange(0, i as int);
                let after = token_text@.subrange(0, i + 1);
                assert(after.drop_last() =~= before);
                assert(after.last() == c);
                lemma_utf16_le_push(utf16(before), utf16_units(c));
            }
            if code < 0x1_0000 {
                push_u16(&mut units, code as u16);
                unit_count += 1;
            } else {
                let rest: u32 = code - 0x1_0000;
                push_u16(&mut units, (0xD800 + rest / 1024) as u16);
                push_u16(&mut units, (0xDC00 + rest % 1024) as u16);
                unit_count += 2;
            }
            i += 1;
        }
        assert(token_text@.subrange(0, i as int) =~= token_text@);
        push_u16(&mut units, 0);
        let mut enc: Vec<u8> = Vec::new();
        push_u32(&mut enc, unit_count as u32);
        push_padded(&mut enc, &units);
        push_u32(&mut enc, 0);
        assert(enc@ =~= token(token_text@));
        self.append(&enc)
    }

    /// Finishes writing: fills in the header and hands out the payload with
    /// its total size in bytes, header included. Fails with
    /// `ErrorCodeNoMemory` exactly when the image is larger than a parcel may be.
    pub fn end_write(&mut self) -> (r: Result<(ParcelPayload, usize), ResultCode>)
        requires
            old(self).wf(),
        ensures
            final(self).unchanged(old(self)),
            old(self).has_room(0) ==> (r matches Ok(done) && {
                &&& done.0.payload@ == old(self).data()
                &&& done.0.header == finished_header(old(self).data().len() as int)
                &&& done.1 == HEADER_SIZE + old(self).data().len()
                &&& done.1 == done.0.header.data_size + done.0.header.objects_size + HEADER_SIZE
            }),
            !old(self).has_room(0) ==> (r matches Err(e) && e == ResultCode::ErrorCodeNoMemory),
    {
        let total: usize = self.image.len();
        if total > MAX_PARCEL_SIZE {
            return Err(ResultCode::ErrorCodeNoMemory);
        }
        let data_size: usize = total - HEADER_SIZE;
        let header = ParcelHeader {
            data_size: data_size as u32,
            data_offset: HEADER_SIZE as u32,
            objects_size: 0,
            objects_offset: total as u32,
        };
        let payload = copy_range(&self.image, HEADER_SIZE, total);
        Ok((ParcelPayload { header, payload }, total))
    }

    /// Takes over a payload for reading: reading starts at the header's
    /// data offset and stops where the header says the data ends.
    pub fn load_from(&mut self, payload: ParcelPayload)
        ensures
            final(self).wf(),
            final(self).image() == payload.wire(),
            final(self).read_pos() == payload.header.data_offset,
            final(self).read_limit() == if payload.header.data_offset + payload.header.data_size
                <= usize::MAX {
                payload.header.data_offset + payload.header.data_size
            } else {
                usize::MAX as int
            },
    {
        let image = payload.to_bytes();
        let start: usize = payload.header.data_offset as usize;
        let size: usize = payload.header.data_size as usize;
        let end: usize = if size <= usize::MAX - start {
            start + size
        } else {
            usize::MAX
        };
        self.image = image;
        self.read_head = start;
        self.read_end = end;
    }

    fn take(&mut self, n: usize) -> (r: Result<usize, ResultCode>)
        requires
            old(self).wf(),
        ensures
            old(self).can_read(n as int) ==> r == Ok::<usize, ResultCode>(old(self).read_head)
                && final(self).advanced(old(self), n as int),
            !old(self).can_read(n as int) ==> r == Err::<usize, ResultCode>(
                ResultCode::ErrorCodeNotEnoughData,
            ) && final(self).unchanged(old(self)),
            r is Ok ==> old(self).read_head + n <= old(self).image@.len(),
    {
        if self.read_head > self.read_end || n > self.read_end - self.read_head
            || self.read_head > self.image.len() || n > self.image.len() - self.read_head {
            return Err(ResultCode::ErrorCodeNotEnoughData);
        }
        let at: usize = self.read_head;
        self.read_head = at + n;
        Ok(at)
    }

    /// Reads a 32-bit value. Fails with `ErrorCodeNotEnoughData`, reading
    /// nothing, exactly when fewer than four bytes of data are left.
    pub fn read_u32(&mut self) -> (r: Result<u32, ResultCode>)
        requires
            old(self).wf(),
        ensures
            old(self).can_read(4) ==> r == Ok::<u32, ResultCode>(u32_from_le(old(self).peek(4)))
                && final(self).advanced(old(self), 4),
            !old(self).can_read(4) ==> r == Err::<u32, ResultCode>(
                ResultCode::ErrorCodeNotEnoughData,
            ) && final(self).unchanged(old(self)),
    {
        match self.take(4) {
            Ok(at) => Ok(get_u32(&self.image, at)),
            Err(e) => Err(e),
        }
    }

    /// Reads a signed 32-bit value.
    pub fn read_i32(&mut self) -> (r: Result<i32, ResultCode>)
        requires
            old(self).wf(),
        ensures
            old(self).can_read(4) ==> r == Ok::<i32, ResultCode>(
                i32_from_bits(u32_from_le(old(self).peek(4))),
            ) && final(self).advanced(old(self), 4),
            !old(self).can_read(4) ==> r == Err::<i32, ResultCode>(
                ResultCode::ErrorCodeNotEnoughData,
            ) && final(self).unchanged(old(self)),
    {
        match self.read_u32() {
            Ok(bits) => Ok(i32_of_bits(bits)),
            Err(e) => Err(e),
        }
    }

    /// Reads a 64-bit value.
    pub fn read_u64(&mut self) -> (r: Result<u64, ResultCode>)
        requires
            old(self).wf(),
        ensures
            old(self).can_read(8) ==> r == Ok::<u64, ResultCode>(u64_from_le(old(self).peek(8)))
                && final(self).advanced(old(self), 8),
            !old(self).can_read(8) ==> r == Err::<u64, ResultCode>(
                ResultCode::ErrorCodeNotEnoughData,
            ) && final(self).unchanged(old(self)),
    {
        match self.take(8) {
            Ok(at) => {
                let lo: u64 = get_u32(&self.image, at) as u64;
                let hi: u64 = get_u32(&self.image, at + 4) as u64;
                proof {
                    let b = old(self).peek(8);
                    assert(b.subrange(0, 4) =~= self.image@.subrange(at as int, at + 4));
                    assert(b.subrange(4, 8) =~= self.image@.subrange(at + 4, at + 8));
                }
                Ok(lo + hi * 0x1_0000_0000)
            },
            Err(e) => Err(e),
        }
    }

    /// Reads a signed 64-bit value.
    pub fn read_i64(&mut self) -> (r: Result<i64, ResultCode>)
        requires
            old(self).wf(),
        ensures
            old(self).can_read(8) ==> r == Ok::<i64, ResultCode>(
                i64_from_bits(u64_from_le(old(self).peek(8))),
            ) && final(self).advanced(old(self), 8),
            !old(self).can_read(8) ==> r == Err::<i64, ResultCode>(
                ResultCode::ErrorCodeNotEnoughData,
            ) && final(self).unchanged(old(self)),
    {
        match self.read_u64() {
            Ok(bits) => Ok(i64_of_bits(bits)),
            Err(e) => Err(e),
        }
    }

    /// Reads `n` raw bytes and skips the padding that follows them.
    pub fn read_bytes(&mut self, n: usize) -> (r: Result<Vec<u8>, ResultCode>)
        requires
            old(self).wf(),
        ensures
            old(self).can_read(padded_len(n as int)) ==> (r matches Ok(bytes)
                && bytes@ == old(self).peek(n as int))
                && final(self).advanced(old(self), padded_len(n as int)),
            !old(self).can_read(padded_len(n as int)) ==> (r matches Err(e) && e
                == ResultCode::ErrorCodeNotEnoughData) && final(self).unchanged(old(self)),
    {
        if n > usize::MAX - 3 {
            return Err(ResultCode::ErrorCodeNotEnoughData);
        }
        let padded_n: usize = (n + 3) / 4 * 4;
        match self.take(padded_n) {
            Ok(at) => Ok(copy_range(&self.image, at, at + n)),
            Err(e) => Err(e),
        }
    }

    /// Reads a sized object: its byte count, the zero word, then that many
    /// bytes and their padding. On failure nothing is read.
    pub fn read_sized(&mut self) -> (r: Result<Vec<u8>, ResultCode>)
        requires
            old(self).wf(),
        ensures
            old(self).can_read_sized() ==> (r matches Ok(bytes) && bytes@ == old(self).peek_sized())
                && final(self).advanced(old(self), 8 + padded_len(old(self).peek_size())),
            !old(self).can_read_sized() ==> (r matches Err(e) && e
                == ResultCode::ErrorCodeNotEnoughData) && final(self).unchanged(old(self)),
    {
        let start: usize = self.read_head;
        let size: u32 = match self.read_u32() {
            Ok(size) => size,
            Err(e) => {
                return Err(e);
            },
        };
        match self.take(4) {
            Ok(_) => {},
            Err(e) => {
                self.read_head = start;
                return Err(e);
            },
        }
        match self.read_bytes(size as usize) {
            Ok(bytes) => {
                proof {
                    let n = size as int;
                    assert(bytes@ =~= old(self).peek_sized());
                }
                Ok(bytes)
            },
            Err(e) => {
                self.read_head = start;
                Err(e)
            },
        }
    }

    /// The byte count that a sized object at the read position declares.
    pub open spec fn peek_size(&self) -> int {
        self.cursor().next_u32() as int
    }

    /// Whether a whole sized object can be read.
    pub open spec fn can_read_sized(&self) -> bool {
        self.cursor().can_read_sized()
    }

    /// The bytes of the sized object at the read position.
    pub open spec fn peek_sized(&self) -> Seq<u8> {
        self.cursor().next_sized()
    }
}

/// The two's-complement bit pattern of `v`.
pub fn bits_of_i32(v: i32) -> (b: u32)
    ensures
        b == i32_bits(v),
{
    if v >= 0 {
        v as u32
    } else {
        ((v as i64) + 0x1_0000_0000) as u32
    }
}

/// The signed value with bit pattern `b`.
pub fn i32_of_bits(b: u32) -> (v: i32)
    ensures
        v == i32_from_bits(b),
{
    if b < 0x8000_0000 {
        b as i32
    } else {
        ((b as i64) - 0x1_0000_0000) as i32
    }
}

/// The two's-complement bit pattern of `v`.
pub fn bits_of_i64(v: i64) -> (b: u64)
    ensures
        b == i64_bits(v),
{
    if v >= 0 {
        v as u64
    } else {
        ((v as i128) + 0x1_0000_0000_0000_0000) as u64
    }
}

/// The signed value with bit pattern `b`.
pub fn i64_of_bits(b: u64) -> (v: i64)
    ensures
        v == i64_from_bits(b),
{
    if b < 0x8000_0000_0000_0000 {
        b as i64
    } else {
        ((b as i128) - 0x1_0000_0000_0000_0000) as i64
    }
}

fn push_u16(buf: &mut Vec<u8>, u: u16)
    ensures
        final(buf)@ == old(buf)@ + u16_le(u),
{
    buf.push((u % 256) as u8);
    buf.push((u / 256) as u8);
    assert(buf@ =~= old(buf)@ + u16_le(u));
}

proof fn lemma_utf16_le_push(units: Seq<u16>, more: Seq<u16>)
    requires
        1 <= more.len() <= 2,
    ensures
        utf16_le(units + more) == if more.len() == 1 {
            utf16_le(units) + u16_le(more[0])
        } else {
            utf16_le(units) + u16_le(more[0]) + u16_le(more[1])
        },
{
    let all = units + more;
    assert(utf16_le(all) == utf16_le(all.drop_last()) + u16_le(all.last()));
    if more.len() == 1 {
        assert(all.drop_last() =~= units);
    } else {
        let mid = all.drop_last();
        assert(utf16_le(mid) == utf16_le(mid.drop_last()) + u16_le(mid.last()));
        assert(mid.drop_last() =~= units);
        assert(mid.last() == more[0]);
    }
}

/// One thing written to a parcel, as a value.
pub enum Item {
    U32(u32),
    I32(i32),
    U64(u64),
    I64(i64),
    /// Raw bytes, which travel padded.
    Bytes(Seq<u8>),
    /// A sized object.
    Sized(Seq<u8>),
    /// An interface token.
    Token(Seq<char>),
}

impl Item {
    /// The bytes that writing this item appends.
    pub open spec fn encoding(self) -> Seq<u8> {
        match self {
            Item::U32(v) => u32_le(v),
            Item::I32(v) => u32_le(i32_bits(v)),
            Item::U64(v) => u64_le(v),
            Item::I64(v) => u64_le(i64_bits(v)),
            Item::Bytes(bytes) => padded(bytes),
            Item::Sized(bytes) => sized(bytes),
            Item::Token(chars) => token(chars),
        }
    }

    /// Whether the item can be written at all: the size of a sized object
    /// must fit the word that carries it.
    pub open spec fn writable(self) -> bool {
        match self {
            Item::Sized(bytes) => bytes.len() <= u32::MAX,
            _ => true,
        }
    }

    /// Whether reading an item of this kind at `c` succeeds and gives back
    /// this very item. A token is read back as the bytes it was written as.
    pub open spec fn read_back_at(self, c: Cursor) -> bool {
        match self {
            Item::U32(v) => c.can_read(4) && c.next_u32() == v,
            Item::I32(v) => c.can_read(4) && c.next_i32() == v,
            Item::U64(v) => c.can_read(8) && c.next_u64() == v,
            Item::I64(v) => c.can_read(8) && c.next_i64() == v,
            Item::Bytes(bytes) => c.can_read(padded_len(bytes.len() as int)) && c.peek(bytes.len() as int)
                == bytes,
            Item::Sized(bytes) => c.can_read_sized() && c.next_sized() == bytes,
            Item::Token(chars) => c.can_read(token(chars).len() as int) && c.peek(token(chars).len() as int)
                == token(chars),
        }
    }
}

/// The bytes that writing `items` in order appends.
pub open spec fn encoding_of(items: Seq<Item>) -> Seq<u8>
    decreases items.len(),
{
    if items.len() == 0 {
        Seq::empty()
    } else {
        encoding_of(items.drop_last()) + items.last().encoding()
    }
}

/// The encoding of the `i`-th item lies in the encoding of all, right
/// after the encoding of the items before it.
pub proof fn lemma_encoding_at(items: Seq<Item>, i: int)
    requires
        0 <= i < items.len(),
    ensures
        encoding_of(items.take(i)).len() + items[i].encoding().len() <= encoding_of(items).len(),
        encoding_of(items).subrange(
            encoding_of(items.take(i)).len() as int,
            (encoding_of(items.take(i)).len() + items[i].encoding().len()) as int,
        ) == items[i].encoding(),
    decreases items.len(),
{
    let before = items.drop_last();
    let all = encoding_of(items);
    if i == items.len() - 1 {
        assert(items.take(i) =~= before);
        assert(all.subrange(encoding_of(before).len() as int, all.len() as int) =~= items[i].encoding());
    } else {
        lemma_encoding_at(before, i);
        assert(before.take(i) =~= items.take(i));
        assert(before[i] == items[i]);
        let from = encoding_of(items.take(i)).len() as int;
        let to = from + items[i].encoding().len();
        assert(all.subrange(from, to) =~= encoding_of(before).subrange(from, to));
    }
}

/// Zero padding never shortens.
pub proof fn lemma_padded(bytes: Seq<u8>)
    ensures
        padded(bytes).len() == padded_len(bytes.len() as int),
        padded(bytes).subrange(0, bytes.len() as int) == bytes,
{
    lemma_padded_len(bytes.len() as int);
    assert(padded(bytes).subrange(0, bytes.len() as int) =~= bytes);
}

/// Round trip: whatever sequence of items was written, once the parcel
/// is finished and loaded again, reading at the place of the `i`-th item
/// gives back that item, and the place after it is that of the next. The
/// parcel is as long as its header says: header, data and objects.
pub proof fn lemma_round_trip(items: Seq<Item>, i: int, payload: ParcelPayload)
    requires
        0 <= i < items.len(),
        forall|k: int| 0 <= k < items.len() ==> (#[trigger] items[k]).writable(),
        HEADER_SIZE + encoding_of(items).len() <= MAX_PARCEL_SIZE,
        payload.header == finished_header(encoding_of(items).len() as int),
        payload.payload@ == encoding_of(items),
    ensures
        items[i].read_back_at(
            Cursor::of_payload(payload).skip(encoding_of(items.take(i)).len() as int),
        ),
        encoding_of(items.take(i + 1)).len() == encoding_of(items.take(i)).len()
            + items[i].encoding().len(),
        payload.wire().len() == payload.header.data_size + payload.header.objects_size + HEADER_SIZE,
{
    let all = encoding_of(items);
    let start = Cursor::of_payload(payload);
    let from = encoding_of(items.take(i)).len() as int;
    let enc = items[i].encoding();
    let c = start.skip(from);
    lemma_encoding_at(items, i);
    assert(payload.header.bytes().len() == 16);
    assert(start.image.len() == 16 + all.len());
    assert(start.pos == 16);
    assert(start.limit == 16 + all.len());
    assert(c.peek(enc.len() as int) =~= enc) by {
        assert(c.image.subrange(c.pos, c.pos + enc.len()) =~= all.subrange(from, from + enc.len()));
    }
    assert(items.take(i + 1).drop_last() =~= items.take(i));
    assert(items.take(i + 1).last() == items[i]);
    assert(items[i].writable());
    match items[i] {
        Item::U32(v) => {
            lemma_u32_round_trip(v);
        },
        Item::I32(v) => {
            lemma_u32_round_trip(i32_bits(v));
            lemma_i32_round_trip(v);
        },
        Item::U64(v) => {
            lemma_u64_round_trip(v);
        },
        Item::I64(v) => {
            lemma_u64_round_trip(i64_bits(v));
            lemma_i64_round_trip(v);
        },
        Item::Bytes(bytes) => {
            lemma_padded(bytes);
            assert(c.peek(bytes.len() as int) =~= enc.subrange(0, bytes.len() as int));
        },
        Item::Sized(bytes) => {
            lemma_padded(bytes);
            lemma_u32_round_trip(bytes.len() as u32);
            assert(c.peek(4) =~= enc.subrange(0, 4));
            assert(enc.subrange(0, 4) =~= u32_le(bytes.len() as u32));
            assert(c.next_u32() == bytes.len());
            assert(c.skip(8).peek(bytes.len() as int) =~= enc.subrange(8, (8 + bytes.len()) as int));
            assert(enc.subrange(8, (8 + bytes.len()) as int) =~= padded(bytes).subrange(0,
                bytes.len() as int));
        },
        Item::Token(chars) => {},
    }
}

} // verus!
