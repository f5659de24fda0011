use chipmunk::{bcd, stretch_u16};

#[test]
fn bcd_works() {
    assert_eq!(bcd(104), [1, 0, 4]);
    assert_eq!(bcd(0xFA), [2, 5, 0])
}

#[test]
fn utils_bcd_works() {
    assert_eq!(bcd(104), [1, 0, 4]);
    assert_eq!(bcd(0xFA), [2, 5, 0])
}

#[test]
fn utils_simple() {
    let actual = stretch_u16(0x6278);
    assert_eq!(actual, [0x06 as u8, 0x02, 0x07, 0x08]);
}

#[test]
fn opcode_simple() {
    let actual = stretch_u16(0x6278);
    assert_eq!(actual, [0x06 as u8, 0x02, 0x07, 0x08]);
}

#[test]
fn bcd_boundaries() {
    assert_eq!(bcd(0), [0, 0, 0]);
    assert_eq!(bcd(9), [0, 0, 9]);
    assert_eq!(bcd(255), [2, 5, 5]);
}

#[test]
fn stretch_boundaries() {
    assert_eq!(stretch_u16(0x0000), [0, 0, 0, 0]);
    assert_eq!(stretch_u16(0xFFFF), [0xF, 0xF, 0xF, 0xF]);
    assert_eq!(stretch_u16(0x1234), [0x1, 0x2, 0x3, 0x4]);
}
