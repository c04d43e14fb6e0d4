use tagen::error::ErrorKind;
use tagen::util::bit_stream::BitReader;

#[test]
fn read_bool() {
    let mut rd = BitReader::new(&[0b1010_0000]);
    assert!(rd.read_bool(1).unwrap());
    assert!(!rd.read_bool(1).unwrap());
    assert!(rd.read_bool(2).unwrap());
    assert!(!rd.read_bool(4).unwrap());
}

#[test]
fn read_u8() {
    let mut rd = BitReader::new(&[0b1010_0101, 0b1010_1110, 0b1100_0101]);
    assert_eq!(rd.read_u8(0).unwrap(), 0);
    assert_eq!(rd.read_u8(8).unwrap(), 0b1010_0101);
    assert_eq!(rd.read_u8(3).unwrap(), 0b101);
    assert_eq!(rd.read_u8(8).unwrap(), 0b0_1110_110);
    assert_eq!(rd.read_u8(8).unwrap_err().kind(), ErrorKind::UnexpectedEof);
    assert_eq!(rd.read_u8(5).unwrap(), 0b0_0101);
    assert_eq!(rd.read_u8(0).unwrap(), 0);
}

#[test]
fn read_u32() {
    let mut rd = BitReader::new(&[0b1010_1010, 0b1010_1010, 0b1010_1010, 0b1010_1010,
        0b1010_1010, 0b1010_1010, 0b1010_1010, 0b1010_1010]);
    assert_eq!(rd.read_u32(0).unwrap(), 0);
    assert_eq!(rd.read_u32(31).unwrap(), 0b1010_1010__1010_1010__1010_1010__1010_101);
    assert_eq!(rd.read_u32(26).unwrap(), 0b0__1010_1010__1010_1010__1010_1010_1);
    assert_eq!(rd.read_u32(8).unwrap_err().kind(), ErrorKind::UnexpectedEof);
    assert_eq!(rd.read_u32(7).unwrap(), 0b010_1010);
    assert_eq!(rd.read_u32(0).unwrap(), 0);
}

#[test]
fn read_exact() {
    let mut rd = BitReader::new(&[1, 2, 3, 4, 5]);
    assert_eq!(rd.read_u32(3).unwrap(), 0);
    assert_eq!(rd.read_u32(5).unwrap(), 1);

    let mut b = [0; 10];
    rd.read_exact(&mut b[..3]).unwrap();
    assert_eq!(&b[..3], &[2, 3, 4]);

    assert_eq!(rd.read_u8(8).unwrap(), 5);
}

#[test]
fn read_u64_spans_nine_bytes() {
    let data = [0x01, 0x23, 0x45, 0x67, 0x89, 0xab, 0xcd, 0xef, 0xf0];
    let mut rd = BitReader::new(&data);
    assert_eq!(rd.read_u8(4).unwrap(), 0);
    assert_eq!(rd.read_u64(64).unwrap(), 0x1234_5678_9abc_deff);
    assert_eq!(rd.pos(), 68);
    assert_eq!(rd.read_u64(4).unwrap(), 0);
    assert_eq!(rd.read_u64(1).unwrap_err().kind(), ErrorKind::UnexpectedEof);
}

#[test]
fn split_reads_rebuild_the_joint_read() {
    let data = [0xde, 0xad, 0xbe, 0xef, 0x12, 0x34, 0x56, 0x78];
    for start in 0..8usize {
        for n in 0..=32usize {
            for m in 0..=24usize {
                let mut whole = BitReader::new(&data);
                whole.seek_relative(start as isize).unwrap();
                let joint = whole.read_u64(n + m).unwrap();
                let mut parts = BitReader::new(&data);
                parts.seek_relative(start as isize).unwrap();
                let hi = parts.read_u64(n).unwrap();
                let lo = parts.read_u64(m).unwrap();
                assert_eq!(joint, (hi << m) | lo);
                assert_eq!(whole.pos(), parts.pos());
            }
        }
    }
}

#[test]
fn bit_seek_relative() {
    let mut rd = BitReader::new(&[0xff, 0x00]);
    assert_eq!(rd.seek_relative(12).unwrap(), 12);
    assert_eq!(rd.read_u8(4).unwrap(), 0);
    assert_eq!(rd.seek_relative(-12).unwrap(), 4);
    assert_eq!(rd.read_u8(4).unwrap(), 0xf);
    assert_eq!(rd.seek_relative(-9).unwrap_err().kind(), ErrorKind::InvalidInput);
    assert_eq!(rd.pos(), 8);
    assert_eq!(rd.seek_relative(isize::MAX).unwrap(), 8 + isize::MAX as usize);
    assert_eq!(rd.seek_relative(isize::MAX).unwrap_err().kind(), ErrorKind::InvalidInput);
}
