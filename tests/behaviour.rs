use bitcursor::{
    BitBuf, BitCursor, BitView, Bits, BitsMut, BorrowBits, BorrowBitsMut, PackedBits, SeekError,
    SeekFrom,
};

fn bits_of<T: BorrowBits>(t: &T) -> Vec<bool> {
    (0..t.bit_len()).map(|i| t.bit_at(i)).collect()
}

fn bools(s: &[u8]) -> Vec<bool> {
    s.iter().map(|&b| b != 0).collect()
}

#[test]
fn advance_then_read_two_bytes() {
    let data = [0b11110000u8, 0b00001111];
    let mut bits = Bits::copy_from_slice(&bools(&[
        1, 1, 1, 1, 0, 0, 0, 0, 0, 0, 0, 0, 1, 1, 1, 1,
    ]));
    assert_eq!(bits.remaining(), 16);
    bits.advance(4);
    assert_eq!(bits.remaining(), 12);
    assert_eq!(
        bits.chunk().to_bools(),
        bools(&[0, 0, 0, 0, 0, 0, 0, 0, 1, 1, 1, 1])
    );

    let mut cursor = BitCursor::new(data.to_vec());
    let mut buf = [0u8; 2];
    assert_eq!(cursor.read(&mut buf[0..2]), 2);
    assert_eq!(buf, [0b11110000, 0b00001111]);
    assert_eq!(cursor.position(), 16);
}

#[test]
fn seek_end_then_read_two_bits() {
    let mut cursor = BitCursor::new(vec![0b11001100u8, 0b00110011]);
    assert_eq!(cursor.bit_seek(SeekFrom::End(-2)), Ok(14));
    let mut dest = vec![false; 4];
    assert_eq!(cursor.read_bits(&mut dest), 2);
    assert_eq!(dest, bools(&[1, 1, 0, 0]));
    assert_eq!(cursor.read_bits(&mut dest), 0);
    assert_eq!(cursor.position(), 16);
}

#[test]
fn round_trip_at_every_offset() {
    for offset in 0..8u64 {
        let mut cursor = BitCursor::new(vec![0u8; 4]);
        cursor.set_position(offset);
        assert_eq!(cursor.write(&[0xDE, 0xAD]), 2);
        assert_eq!(cursor.position(), offset + 16);
        cursor.set_position(offset);
        let mut back = [0u8; 2];
        assert_eq!(cursor.read(&mut back), 2);
        assert_eq!(back, [0xDE, 0xAD], "offset {offset}");
    }
}

#[test]
fn round_trip_bits_on_every_shape() {
    let pattern = bools(&[1, 0, 1, 1, 0, 0, 1, 0, 1, 1, 1]);
    for offset in 0..8u64 {
        let mut a = BitCursor::new(vec![0u8; 3]);
        let mut b = BitCursor::new(PackedBits::repeat(false, 24));
        let mut c = BitCursor::new(BitsMut::copy_from_slice(&[false; 24]));
        let mut d = BitCursor::new(vec![false; 24]);
        a.set_position(offset);
        b.set_position(offset);
        c.set_position(offset);
        d.set_position(offset);
        assert_eq!(a.write_bits(&pattern), 11);
        assert_eq!(b.write_bits(&pattern), 11);
        assert_eq!(c.write_bits(&pattern), 11);
        assert_eq!(d.write_bits(&pattern), 11);
        a.set_position(offset);
        b.set_position(offset);
        c.set_position(offset);
        d.set_position(offset);
        let mut out = vec![false; 11];
        assert_eq!(a.read_bits(&mut out), 11);
        assert_eq!(out, pattern);
        let mut out = vec![false; 11];
        assert_eq!(b.read_bits(&mut out), 11);
        assert_eq!(out, pattern);
        let mut out = vec![false; 11];
        assert_eq!(c.read_bits(&mut out), 11);
        assert_eq!(out, pattern);
        let mut out = vec![false; 11];
        assert_eq!(d.read_bits(&mut out), 11);
        assert_eq!(out, pattern);
    }
}

#[test]
fn byte_seeks_report_bytes() {
    let mut cursor = BitCursor::new(vec![0u8; 5]);
    assert_eq!(cursor.seek(SeekFrom::Start(3)), Ok(3));
    assert_eq!(cursor.position(), 24);
    assert_eq!(cursor.seek(SeekFrom::Current(0)), Ok(3));
    assert_eq!(cursor.seek(SeekFrom::End(0)), Ok(5));
    assert_eq!(cursor.position(), 40);
    assert_eq!(cursor.bit_seek(SeekFrom::Start(13)), Ok(13));
    assert_eq!(cursor.bit_seek(SeekFrom::Current(-6)), Ok(7));
    assert_eq!(cursor.seek(SeekFrom::Current(1)), Ok(1));
    assert_eq!(cursor.position(), 15);
}

#[test]
fn negative_seeks_are_refused() {
    let mut cursor = BitCursor::new(vec![0u8; 2]);
    cursor.set_position(5);
    assert_eq!(cursor.bit_seek(SeekFrom::Current(-6)), Err(SeekError::InvalidInput));
    assert_eq!(cursor.position(), 5);
    assert_eq!(cursor.bit_seek(SeekFrom::End(-17)), Err(SeekError::InvalidInput));
    assert_eq!(cursor.position(), 5);
    assert_eq!(cursor.seek(SeekFrom::End(-3)), Err(SeekError::InvalidInput));
    assert_eq!(cursor.position(), 5);
    assert_eq!(cursor.bit_seek(SeekFrom::End(-16)), Ok(0));
}

#[test]
fn overflowing_seeks_are_refused() {
    let mut cursor = BitCursor::new(vec![0u8; 2]);
    cursor.set_position(u64::MAX);
    assert_eq!(cursor.bit_seek(SeekFrom::Current(1)), Err(SeekError::InvalidInput));
    assert_eq!(cursor.position(), u64::MAX);
    assert_eq!(cursor.seek(SeekFrom::Start(u64::MAX / 4)), Err(SeekError::InvalidInput));
    assert_eq!(cursor.seek(SeekFrom::Current(i64::MAX / 4)), Err(SeekError::InvalidInput));
    assert_eq!(cursor.position(), u64::MAX);
}

#[test]
fn reading_past_the_end_gives_nothing() {
    let mut cursor = BitCursor::new(vec![0xFFu8; 2]);
    cursor.set_position(100);
    let mut buf = [7u8; 3];
    assert_eq!(cursor.read(&mut buf), 0);
    assert_eq!(buf, [7, 7, 7]);
    let mut dest = vec![false; 3];
    assert_eq!(cursor.read_bits(&mut dest), 0);
    assert_eq!(cursor.write(&[1, 2]), 0);
    assert_eq!(cursor.write_bits(&vec![true]), 0);
    assert_eq!(cursor.position(), 100);
    assert_eq!(cursor.into_inner(), vec![0xFF, 0xFF]);
}

#[test]
fn short_last_group_is_zero_padded() {
    let mut cursor = BitCursor::new(vec![0b10110111u8, 0b11111111]);
    cursor.set_position(11);
    let mut buf = [0u8; 4];
    assert_eq!(cursor.read(&mut buf), 1);
    assert_eq!(buf, [0b11111000, 0, 0, 0]);
    assert_eq!(cursor.position(), 19);
}

#[test]
fn read_stops_at_buffer_size() {
    let mut cursor = BitCursor::new(vec![1u8, 2, 3]);
    cursor.set_position(4);
    let mut buf = [0u8; 1];
    assert_eq!(cursor.read(&mut buf), 1);
    assert_eq!(buf, [0x10]);
    assert_eq!(cursor.position(), 12);
}

#[test]
fn write_bytes_only_whole_bytes_fit() {
    let mut cursor = BitCursor::new(vec![0u8; 2]);
    cursor.set_position(3);
    assert_eq!(cursor.write(&[0xFF, 0xFF]), 1);
    assert_eq!(cursor.position(), 11);
    assert_eq!(cursor.into_inner(), vec![0b00011111, 0b11100000]);
}

#[test]
fn write_bits_clips_to_room() {
    let mut cursor = BitCursor::new(vec![0u8; 1]);
    cursor.set_position(6);
    assert_eq!(cursor.write_bits(&vec![true; 5]), 2);
    assert_eq!(cursor.position(), 8);
    assert_eq!(cursor.get_ref(), &vec![0b00000011u8]);
}

#[test]
fn split_at_every_position_partitions() {
    let data = vec![0b10010110u8, 0b01101001];
    let whole = bits_of(&data);
    let mut cursor = BitCursor::new(data);
    for p in 0..=16u64 {
        cursor.set_position(p);
        let (before, after) = cursor.split();
        let mut joined = before.to_bools();
        joined.extend(after.to_bools());
        assert_eq!(joined, whole);
        assert_eq!(before.bit_len() as u64, p);
    }
}

#[test]
fn split_mut_halves_are_disjoint() {
    let mut cursor = BitCursor::new(vec![0u8; 2]);
    cursor.set_position(5);
    {
        let mut halves = cursor.split_mut();
        assert_eq!(halves.write_bits_before(&vec![true; 9]), 5);
        assert_eq!(halves.write_bits_after(&vec![true; 3]), 3);
    }
    assert_eq!(cursor.position(), 5);
    assert_eq!(cursor.into_inner(), vec![0b11111111, 0b00000000]);

    let mut cursor = BitCursor::new(vec![0xFFu8; 2]);
    cursor.set_position(12);
    {
        let mut halves = cursor.split_mut();
        assert_eq!(halves.write_bits_after(&vec![false; 10]), 4);
    }
    assert_eq!(cursor.into_inner(), vec![0xFF, 0xF0]);
}

#[test]
fn bits_mut_advance_and_write() {
    let mut buf = BitsMut::copy_from_slice(&bools(&[1, 0, 1, 0, 1]));
    buf.advance(2);
    assert_eq!(buf.remaining(), 3);
    assert_eq!(buf.chunk().to_bools(), bools(&[1, 0, 1]));
    buf.set_bit_at(1, true);
    assert_eq!(bits_of(&buf), bools(&[1, 1, 1]));
    buf.advance_mut(3);
    assert_eq!(buf.len(), 0);
}

#[test]
fn packed_bits_are_msb_first() {
    let packed = PackedBits::from_vec(vec![0b10000001, 0b01000000]);
    assert_eq!(
        bits_of(&packed),
        bools(&[1, 0, 0, 0, 0, 0, 0, 1, 0, 1, 0, 0, 0, 0, 0, 0])
    );
    let ones = PackedBits::repeat(true, 3);
    assert_eq!(bits_of(&ones), vec![true; 3]);
    let mut cursor = BitCursor::new(packed);
    cursor.set_position(2);
    let mut out = [0u8; 1];
    assert_eq!(cursor.read(&mut out), 1);
    assert_eq!(out, [0b00000101]);
}

#[test]
fn view_of_a_window() {
    let data = vec![0b11001010u8];
    let view = BitView::new(&data, 2, 4);
    assert_eq!(view.to_bools(), bools(&[0, 0, 1, 0]));
    let mut cursor = BitCursor::new(view);
    let mut out = vec![true; 6];
    assert_eq!(cursor.read_bits(&mut out), 4);
    assert_eq!(out, bools(&[0, 0, 1, 0, 1, 1]));
}

#[test]
fn accessors_keep_position() {
    let mut cursor = BitCursor::new(vec![1u8]);
    cursor.set_position(3);
    cursor.get_mut().push(2);
    assert_eq!(cursor.position(), 3);
    assert_eq!(cursor.get_ref(), &vec![1, 2]);
    let copy = cursor.clone();
    assert_eq!(copy, cursor);
    cursor.flush();
    assert_eq!(cursor.into_inner(), vec![1, 2]);
}
