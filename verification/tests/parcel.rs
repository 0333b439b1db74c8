use nx::gpu::binder::{frame_connect, INTERFACE_TOKEN};
use nx::gpu::parcel::{Parcel, ParcelHeader, ParcelPayload};
use nx::gpu::ConnectionApi;
use nx::result::ResultCode;

fn reloaded(parcel: &mut Parcel) -> Parcel {
    let (payload, _size) = parcel.end_write().unwrap();
    let mut loaded = Parcel::new();
    loaded.load_from(payload);
    loaded
}

#[test]
fn new_parcel_finishes_with_an_empty_payload() {
    let mut parcel = Parcel::new();
    let (payload, size) = parcel.end_write().unwrap();
    assert_eq!(size, 16);
    assert_eq!(
        payload.header,
        ParcelHeader { data_size: 0, data_offset: 16, objects_size: 0, objects_offset: 16 }
    );
    assert!(payload.payload.is_empty());
}

#[test]
fn scalars_are_written_little_endian() {
    let mut parcel = Parcel::new();
    parcel.write_u32(0x0403_0201).unwrap();
    parcel.write_i32(-2).unwrap();
    parcel.write_u64(0x0807_0605_0403_0201).unwrap();
    parcel.write_i64(-1).unwrap();
    let (payload, size) = parcel.end_write().unwrap();
    assert_eq!(size, 16 + 24);
    assert_eq!(
        payload.payload,
        vec![
            1, 2, 3, 4, 0xfe, 0xff, 0xff, 0xff, 1, 2, 3, 4, 5, 6, 7, 8, 0xff, 0xff, 0xff, 0xff, 0xff,
            0xff, 0xff, 0xff
        ]
    );
    assert_eq!(payload.header.data_size, 24);
    assert_eq!(payload.header.objects_offset, 40);
}

#[test]
fn interface_token_layout() {
    let mut parcel = Parcel::new();
    parcel.write_interface_token("AB").unwrap();
    let (payload, _) = parcel.end_write().unwrap();
    // two code units, "A", "B", a zero unit, padding to a word, a zero word
    assert_eq!(
        payload.payload,
        vec![2, 0, 0, 0, 0x41, 0, 0x42, 0, 0, 0, 0, 0, 0, 0, 0, 0]
    );
}

#[test]
fn interface_token_uses_surrogate_pairs() {
    let mut parcel = Parcel::new();
    parcel.write_interface_token("\u{1F600}").unwrap();
    let (payload, _) = parcel.end_write().unwrap();
    // U+1F600 is D83D DE00 in UTF-16
    assert_eq!(
        payload.payload,
        vec![2, 0, 0, 0, 0x3d, 0xd8, 0x00, 0xde, 0, 0, 0, 0, 0, 0, 0, 0]
    );
}

#[test]
fn token_and_three_words_round_trip() {
    let mut parcel = Parcel::new();
    parcel.write_interface_token("android.gui.IGraphicBufferProducer").unwrap();
    parcel.write_u32(1).unwrap();
    parcel.write_u32(0).unwrap();
    parcel.write_u32(1).unwrap();
    let (payload, size) = parcel.end_write().unwrap();
    // the token takes 78 bytes, 80 with its padding; three words follow
    assert_eq!(payload.header.data_size, 92);
    assert_eq!(payload.header.data_offset, 16);
    assert_eq!(payload.header.objects_size, 0);
    assert_eq!(payload.header.objects_offset, 16 + 92);
    assert_eq!(size, 16 + 92);
    assert_eq!(payload.payload.len(), 92);
    assert_eq!(
        size as u32,
        payload.header.data_size + payload.header.objects_size + 16
    );
    assert_eq!(&payload.payload[0..4], &[34, 0, 0, 0]);
    assert_eq!(&payload.payload[4..8], &[b'a', 0, b'n', 0]);
    assert_eq!(&payload.payload[80..92], &[1, 0, 0, 0, 0, 0, 0, 0, 1, 0, 0, 0]);

    let mut loaded = Parcel::new();
    loaded.load_from(payload);
    assert_eq!(loaded.read_bytes(78).unwrap().len(), 78);
    assert_eq!(loaded.read_u32(), Ok(1));
    assert_eq!(loaded.read_u32(), Ok(0));
    assert_eq!(loaded.read_u32(), Ok(1));
    assert_eq!(loaded.read_u32(), Err(ResultCode::ErrorCodeNotEnoughData));
}

#[test]
fn frame_connect_writes_token_and_three_words() {
    assert_eq!(INTERFACE_TOKEN, "android.gui.IGraphicBufferProducer");
    let mut by_hand = Parcel::new();
    by_hand.write_interface_token(INTERFACE_TOKEN).unwrap();
    by_hand.write_u32(0).unwrap();
    by_hand.write_u32(2).unwrap();
    by_hand.write_u32(1).unwrap();
    let expected = by_hand.end_write().unwrap().0;
    let mut framed = frame_connect(ConnectionApi::Cpu, true).unwrap();
    let (payload, size) = framed.end_write().unwrap();
    assert_eq!(size, 108);
    assert_eq!(payload.header, expected.header);
    assert_eq!(payload.payload, expected.payload);
}

#[test]
fn round_trip_of_every_kind() {
    let mut parcel = Parcel::new();
    parcel.write_u32(0xdead_beef).unwrap();
    parcel.write_i32(i32::MIN).unwrap();
    parcel.write_u64(u64::MAX).unwrap();
    parcel.write_i64(i64::MIN).unwrap();
    parcel.write_sized(&vec![1, 2, 3, 4, 5]).unwrap();
    parcel.write_bytes(&vec![9, 8, 7]).unwrap();
    parcel.write_i32(-22).unwrap();
    let mut loaded = reloaded(&mut parcel);
    assert_eq!(loaded.read_u32(), Ok(0xdead_beef));
    assert_eq!(loaded.read_i32(), Ok(i32::MIN));
    assert_eq!(loaded.read_u64(), Ok(u64::MAX));
    assert_eq!(loaded.read_i64(), Ok(i64::MIN));
    assert_eq!(loaded.read_sized(), Ok(vec![1, 2, 3, 4, 5]));
    assert_eq!(loaded.read_bytes(3), Ok(vec![9, 8, 7]));
    assert_eq!(loaded.read_i32(), Ok(-22));
    assert_eq!(loaded.read_i32(), Err(ResultCode::ErrorCodeNotEnoughData));
}

#[test]
fn sized_object_layout() {
    let mut parcel = Parcel::new();
    parcel.write_sized(&vec![0xaa, 0xbb, 0xcc]).unwrap();
    let (payload, _) = parcel.end_write().unwrap();
    assert_eq!(payload.payload, vec![3, 0, 0, 0, 0, 0, 0, 0, 0xaa, 0xbb, 0xcc, 0]);
}

#[test]
fn raw_bytes_are_padded_to_a_word() {
    let mut parcel = Parcel::new();
    parcel.write_bytes(&vec![1, 2, 3, 4, 5]).unwrap();
    parcel.write_bytes(&vec![]).unwrap();
    let (payload, _) = parcel.end_write().unwrap();
    assert_eq!(payload.payload, vec![1, 2, 3, 4, 5, 0, 0, 0]);
}

#[test]
fn read_fails_when_data_runs_out() {
    let mut parcel = Parcel::new();
    parcel.write_u32(5).unwrap();
    let mut loaded = reloaded(&mut parcel);
    assert_eq!(loaded.read_u64(), Err(ResultCode::ErrorCodeNotEnoughData));
    // a failed read consumes nothing
    assert_eq!(loaded.read_u32(), Ok(5));
    assert_eq!(loaded.read_u32(), Err(ResultCode::ErrorCodeNotEnoughData));
    assert_eq!(loaded.read_sized(), Err(ResultCode::ErrorCodeNotEnoughData));
    assert_eq!(loaded.read_bytes(1), Err(ResultCode::ErrorCodeNotEnoughData));
}

#[test]
fn read_stops_at_the_data_size_of_the_header() {
    let payload = ParcelPayload {
        header: ParcelHeader { data_size: 4, data_offset: 16, objects_size: 0, objects_offset: 20 },
        payload: vec![1, 0, 0, 0, 2, 0, 0, 0],
    };
    let mut parcel = Parcel::new();
    parcel.load_from(payload);
    assert_eq!(parcel.read_u32(), Ok(1));
    assert_eq!(parcel.read_u32(), Err(ResultCode::ErrorCodeNotEnoughData));
}

#[test]
fn read_starts_at_the_data_offset_of_the_header() {
    let payload = ParcelPayload {
        header: ParcelHeader { data_size: 4, data_offset: 20, objects_size: 0, objects_offset: 24 },
        payload: vec![1, 0, 0, 0, 2, 0, 0, 0],
    };
    let mut parcel = Parcel::new();
    parcel.load_from(payload);
    assert_eq!(parcel.read_u32(), Ok(2));
}

#[test]
fn sized_read_that_fails_reads_nothing() {
    let payload = ParcelPayload {
        header: ParcelHeader { data_size: 12, data_offset: 16, objects_size: 0, objects_offset: 28 },
        // claims eight bytes, has four
        payload: vec![8, 0, 0, 0, 0, 0, 0, 0, 1, 2, 3, 4],
    };
    let mut parcel = Parcel::new();
    parcel.load_from(payload);
    assert_eq!(parcel.read_sized(), Err(ResultCode::ErrorCodeNotEnoughData));
    assert_eq!(parcel.read_u32(), Ok(8));
}

#[test]
fn payload_to_and_from_bytes() {
    let payload = ParcelPayload {
        header: ParcelHeader { data_size: 4, data_offset: 16, objects_size: 0, objects_offset: 20 },
        payload: vec![7, 0, 0, 0],
    };
    let bytes = payload.to_bytes();
    assert_eq!(
        bytes,
        vec![4, 0, 0, 0, 16, 0, 0, 0, 0, 0, 0, 0, 20, 0, 0, 0, 7, 0, 0, 0]
    );
    let back = ParcelPayload::from_bytes(&bytes).unwrap();
    assert_eq!(back.header, payload.header);
    assert_eq!(back.payload, payload.payload);
    assert!(ParcelPayload::from_bytes(&vec![0; 15]).is_none());
}

#[test]
fn new_payload_is_empty_with_a_zeroed_header() {
    let payload = ParcelPayload::new();
    assert_eq!(payload.header.data_size, 0);
    assert_eq!(payload.header.data_offset, 0);
    assert_eq!(payload.header.objects_size, 0);
    assert_eq!(payload.header.objects_offset, 0);
    assert!(payload.payload.is_empty());
    assert_eq!(payload.to_bytes(), vec![0u8; 16]);
}
