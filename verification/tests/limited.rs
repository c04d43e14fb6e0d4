use tagen::error::ErrorKind;
use tagen::util::limited::{Cursor, Limited};

#[test]
fn limits_reads() {
    let data = vec![1, 2, 3];
    let mut l = Limited::new(Cursor::new(&data), 1);

    assert_eq!(l.pos(), 0);
    assert_eq!(l.limit(), 1);
    let mut buf = [42; 3];
    assert_eq!(l.read(&mut buf).unwrap(), 1);
    assert_eq!(buf, [1, 42, 42]);
    assert_eq!(l.pos(), 1);
    assert_eq!(l.get_ref().position(), 1);

    buf = [42; 3];
    assert_eq!(l.read(&mut buf).unwrap(), 0);
    assert_eq!(buf, [42, 42, 42]);
    assert_eq!(l.pos(), 1);
    assert_eq!(l.into_inner().position(), 1);
}

#[test]
fn read_exact_stops_at_the_budget() {
    let data = [1u8, 2, 3, 4, 5, 6];
    let mut l = Limited::new(Cursor::new(&data), 4);
    assert_eq!(l.max_available(), 4);
    let mut two = [0u8; 2];
    l.read_exact(&mut two).unwrap();
    assert_eq!(two, [1, 2]);
    assert_eq!(l.max_available(), 2);
    let mut three = [0u8; 3];
    assert_eq!(l.read_exact(&mut three).unwrap_err().kind(), ErrorKind::UnexpectedEof);
    assert_eq!(l.max_available(), 0);
    assert_eq!(l.into_inner().position(), 4);
}

#[test]
fn budget_larger_than_source() {
    let data = [9u8, 8];
    let mut l = Limited::new(Cursor::new(&data), u64::MAX);
    assert_eq!(l.available(), 2);
    assert_eq!(l.take_up_to(5), &[9, 8]);
    assert_eq!(l.available(), 0);
    assert_eq!(l.read_u8().unwrap_err().kind(), ErrorKind::UnexpectedEof);
}

#[test]
fn big_endian_reads() {
    let data = [0x12u8, 0x34, 0x56, 0x78, 0x9a, 0xbc, 0xde];
    let mut l = Limited::new(Cursor::new(&data), 7);
    assert_eq!(l.read_u16_be().unwrap(), 0x1234);
    assert_eq!(l.read_u32_be().unwrap(), 0x5678_9abc);
    assert_eq!(l.read_u8().unwrap(), 0xde);
    assert_eq!(l.pos(), 7);

    let data = [0x01u8, 0x02, 0x03, 0x04, 0x05, 0x06, 0x07, 0x08, 0x09];
    let mut l = Limited::new(Cursor::new(&data), 9);
    assert_eq!(l.read_u64_be().unwrap(), 0x0102_0304_0506_0708);
    assert_eq!(l.read_u64_be().unwrap_err().kind(), ErrorKind::UnexpectedEof);
}

#[test]
fn budget_can_be_cut_down_to_the_source() {
    let data = [1u8, 2, 3];
    let mut l = Limited::new(Cursor::new(&data), 100);
    assert_eq!(l.read_u8().unwrap(), 1);
    assert_eq!(l.max_available(), 99);
    l.limit_to_source();
    assert_eq!(l.max_available(), 2);
    assert_eq!(l.limit(), 3);
    assert_eq!(l.take_exact(2).unwrap(), &[2, 3]);
}

#[test]
fn cursor_reads() {
    let data = [1u8, 2, 3, 4, 5];
    let mut c = Cursor::new(&data);
    assert_eq!((c.len(), c.remaining_len(), c.position()), (5, 5, 0));
    assert_eq!(c.take_up_to(2), &[1, 2]);
    assert_eq!(c.take_exact(4).unwrap_err().kind(), ErrorKind::UnexpectedEof);
    assert_eq!(c.position(), 2);
    let mut buf = [0u8; 4];
    assert_eq!(c.read(&mut buf), 3);
    assert_eq!(buf, [3, 4, 5, 0]);
    c.set_position(9);
    assert_eq!(c.remaining_len(), 0);
    assert_eq!(c.take_up_to(1), &[] as &[u8]);
    assert_eq!(c.get_ref(), &data);
}

#[test]
fn limited_seek_relative() {
    let data = [0u8; 16];
    let mut l = Limited::new(Cursor::new(&data), 10);
    assert_eq!(l.seek_relative(4).unwrap(), 4);
    assert_eq!(l.seek_relative(-3).unwrap(), 1);
    assert_eq!(l.get_ref().position(), 1);
    assert_eq!(l.seek_relative(-2).unwrap_err().kind(), ErrorKind::InvalidInput);
    assert_eq!(l.seek_relative(10).unwrap_err().kind(), ErrorKind::InvalidInput);
    assert_eq!(l.seek_relative(i64::MIN).unwrap_err().kind(), ErrorKind::InvalidInput);
    assert_eq!(l.pos(), 1);
    assert_eq!(l.seek_relative(9).unwrap(), 10);
    assert_eq!(l.max_available(), 0);
}
