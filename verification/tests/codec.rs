use chipmunk::{decode, disassemble, encode, Disassembler, EmulatorError, OpCode, Reg};

#[test]
fn decode_is_deterministic() {
    let words = [0x00E0u16, 0x00EE, 0x1234, 0x6278, 0x8124, 0xD015, 0xF533, 0x0000, 0xFFFF];
    for w in words {
        assert_eq!(decode(w), decode(w));
    }
}

#[test]
fn decode_known_patterns() {
    assert_eq!(decode(0x00E0), Ok(OpCode::_00E0));
    assert_eq!(decode(0x00EE), Ok(OpCode::_00EE));
    assert_eq!(decode(0x1234), Ok(OpCode::_1NNN(0x234)));
    assert_eq!(decode(0x2ABC), Ok(OpCode::_2NNN(0xABC)));
    assert_eq!(decode(0x6278), Ok(OpCode::_6XNN { reg: Reg::V2, value: 0x78 }));
    assert_eq!(decode(0x3A55), Ok(OpCode::_3XNN { reg: Reg::VA, value: 0x55 }));
    assert_eq!(decode(0x5120), Ok(OpCode::_5XY0 { x: Reg::V1, y: Reg::V2 }));
    assert_eq!(decode(0x8124), Ok(OpCode::_8XY4 { x: Reg::V1, y: Reg::V2 }));
    assert_eq!(decode(0x8AB5), Ok(OpCode::_8XY5 { x: Reg::VA, y: Reg::VB }));
    assert_eq!(decode(0x9340), Ok(OpCode::_9XY0 { x: Reg::V3, y: Reg::V4 }));
    assert_eq!(decode(0xA123), Ok(OpCode::ANNN(0x123)));
    assert_eq!(decode(0xB123), Ok(OpCode::BNNN(0x123)));
    assert_eq!(decode(0xC4F0), Ok(OpCode::CXNN { reg: Reg::V4, value: 0xF0 }));
    assert_eq!(decode(0xD015), Ok(OpCode::DXYN { x: Reg::V0, y: Reg::V1, height: 5 }));
    assert_eq!(decode(0xE59E), Ok(OpCode::EX9E(Reg::V5)));
    assert_eq!(decode(0xE5A1), Ok(OpCode::EXA1(Reg::V5)));
    assert_eq!(decode(0xF507), Ok(OpCode::FX07(Reg::V5)));
    assert_eq!(decode(0xF50A), Ok(OpCode::FX0A(Reg::V5)));
    assert_eq!(decode(0xF515), Ok(OpCode::FX15(Reg::V5)));
    assert_eq!(decode(0xF518), Ok(OpCode::FX18(Reg::V5)));
    assert_eq!(decode(0xF51E), Ok(OpCode::FX1E(Reg::V5)));
    assert_eq!(decode(0xF529), Ok(OpCode::FX29(Reg::V5)));
    assert_eq!(decode(0xF533), Ok(OpCode::FX33(Reg::V5)));
    assert_eq!(decode(0xF555), Ok(OpCode::FX55(Reg::V5)));
    assert_eq!(decode(0xF565), Ok(OpCode::FX65(Reg::V5)));
}

#[test]
fn decode_rejects_unknown_words() {
    for w in [0x0000u16, 0x0123, 0x00E1, 0x5121, 0x812F, 0x8128, 0x9341, 0xE59F, 0xE5A0, 0xF500,
        0xF534, 0xFFFF]
    {
        assert_eq!(decode(w), Err(EmulatorError::UnknownOpCode(w)));
    }
}

#[test]
fn encode_decode_round_trip() {
    let ops = [
        OpCode::_00E0,
        OpCode::_00EE,
        OpCode::_1NNN(0xFFF),
        OpCode::_2NNN(0x204),
        OpCode::_3XNN { reg: Reg::V0, value: 0x00 },
        OpCode::_4XNN { reg: Reg::VF, value: 0xFF },
        OpCode::_5XY0 { x: Reg::V1, y: Reg::V2 },
        OpCode::_6XNN { reg: Reg::V2, value: 0x78 },
        OpCode::_7XNN { reg: Reg::V9, value: 0x10 },
        OpCode::_8XY0 { x: Reg::V1, y: Reg::V2 },
        OpCode::_8XY1 { x: Reg::V1, y: Reg::V2 },
        OpCode::_8XY2 { x: Reg::V1, y: Reg::V2 },
        OpCode::_8XY3 { x: Reg::V1, y: Reg::V2 },
        OpCode::_8XY4 { x: Reg::VE, y: Reg::VF },
        OpCode::_8XY5 { x: Reg::V1, y: Reg::V2 },
        OpCode::_8XY6 { x: Reg::V1, y: Reg::V2 },
        OpCode::_8XY7 { x: Reg::V1, y: Reg::V2 },
        OpCode::_8XYE { x: Reg::V1, y: Reg::V2 },
        OpCode::_9XY0 { x: Reg::V8, y: Reg::V7 },
        OpCode::ANNN(0x300),
        OpCode::BNNN(0x000),
        OpCode::CXNN { reg: Reg::V4, value: 0x0F },
        OpCode::DXYN { x: Reg::V0, y: Reg::V1, height: 0xF },
        OpCode::EX9E(Reg::V5),
        OpCode::EXA1(Reg::V6),
        OpCode::FX07(Reg::V7),
        OpCode::FX0A(Reg::V8),
        OpCode::FX15(Reg::V9),
        OpCode::FX18(Reg::VA),
        OpCode::FX1E(Reg::VB),
        OpCode::FX29(Reg::VC),
        OpCode::FX33(Reg::VD),
        OpCode::FX55(Reg::VE),
        OpCode::FX65(Reg::VF),
    ];
    for op in ops {
        assert_eq!(decode(encode(op)), Ok(op));
    }
}

#[test]
fn encode_known_patterns() {
    assert_eq!(encode(OpCode::_6XNN { reg: Reg::V2, value: 0x78 }), 0x6278);
    assert_eq!(encode(OpCode::_1NNN(0x234)), 0x1234);
    assert_eq!(encode(OpCode::DXYN { x: Reg::V0, y: Reg::V1, height: 5 }), 0xD015);
}

#[test]
fn disassemble_decodes_a_whole_image() {
    let rom = vec![0x00, 0xE0, 0x62, 0x78, 0xA3, 0x00, 0x12, 0x00];
    let ops = disassemble(rom).unwrap();
    assert_eq!(
        ops,
        vec![
            OpCode::_00E0,
            OpCode::_6XNN { reg: Reg::V2, value: 0x78 },
            OpCode::ANNN(0x300),
            OpCode::_1NNN(0x200),
        ]
    );
}

#[test]
fn disassemble_reports_the_first_unknown_word() {
    let rom = vec![0x00, 0xE0, 0x00, 0x01, 0x00, 0x02];
    assert_eq!(disassemble(rom), Err(EmulatorError::UnknownOpCode(0x0001)));
}

#[test]
fn disassembler_component_matches_free_function() {
    let rom = vec![0x00, 0xE0, 0x62, 0x78];
    assert_eq!(
        Disassembler::disassemble(rom.clone()),
        disassemble(rom)
    );
}
