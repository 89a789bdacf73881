use krankulator_core::disasm::{disassemble_around, disassemble_one, hex2_string, hex4_string, AddrMode, CpuRegs, OpcodeInfo};

fn table() -> Vec<OpcodeInfo> {
    let mut t: Vec<OpcodeInfo> = (0..256)
        .map(|_| OpcodeInfo { name: "NOP".to_string(), size: 1, mode: AddrMode::Other })
        .collect();
    t[0xA9] = OpcodeInfo { name: "LDA_imm".to_string(), size: 2, mode: AddrMode::Immediate };
    t[0xA5] = OpcodeInfo { name: "LDA_zp".to_string(), size: 2, mode: AddrMode::ZeroPage };
    t[0xB5] = OpcodeInfo { name: "LDA_zpx".to_string(), size: 2, mode: AddrMode::ZeroPageX };
    t[0xBD] = OpcodeInfo { name: "LDA_abx".to_string(), size: 3, mode: AddrMode::AbsoluteX };
    t[0xB1] = OpcodeInfo { name: "LDA_iny".to_string(), size: 2, mode: AddrMode::IndirectY };
    t[0x8D] = OpcodeInfo { name: "STA_abs".to_string(), size: 3, mode: AddrMode::Absolute };
    t[0x85] = OpcodeInfo { name: "STA_zp".to_string(), size: 2, mode: AddrMode::ZeroPage };
    t[0xAD] = OpcodeInfo { name: "LDA_abs".to_string(), size: 3, mode: AddrMode::Absolute };
    t[0xD0] = OpcodeInfo { name: "BNE".to_string(), size: 2, mode: AddrMode::Other };
    t[0x6C] = OpcodeInfo { name: "JMP_ind".to_string(), size: 3, mode: AddrMode::Other };
    t
}

#[test]
fn test_hex_strings() {
    assert_eq!(hex2_string(0x0A), "0A");
    assert_eq!(hex4_string(0xC0DE), "C0DE");
}

#[test]
fn test_disassemble_immediate_and_absolute() {
    let mut mem = vec![0u8; 0x10000];
    mem[0x8000] = 0xA9;
    mem[0x8001] = 0x42;
    mem[0x8002] = 0x8D;
    mem[0x8003] = 0x00;
    mem[0x8004] = 0x02;
    let t = table();
    let l = disassemble_one(0x8000, &mem, &t, None);
    assert_eq!(l.text, "LDA #$42");
    assert_eq!(l.bytes, [0xA9, 0x42, 0x00]);
    assert_eq!(l.byte_count, 2);
    assert_eq!(l.operand_detail, None);
    let l = disassemble_one(0x8002, &mem, &t, None);
    assert_eq!(l.text, "STA $0200");
    assert_eq!(l.bytes, [0x8D, 0x00, 0x02]);
}

#[test]
fn test_disassemble_branch_and_indirect_jump() {
    let mut mem = vec![0u8; 0x10000];
    mem[0x8010] = 0xD0;
    mem[0x8011] = 0xFC; // -4
    mem[0x8012] = 0x6C;
    mem[0x8013] = 0x34;
    mem[0x8014] = 0x12;
    let t = table();
    assert_eq!(disassemble_one(0x8010, &mem, &t, None).text, "BNE $800E");
    assert_eq!(disassemble_one(0x8012, &mem, &t, None).text, "JMP ($1234)");
    assert_eq!(disassemble_one(0x0000, &mem, &t, None).text, "NOP");
}

#[test]
fn test_operand_detail_with_registers() {
    let mut mem = vec![0u8; 0x10000];
    mem[0x0010] = 0xA5;
    mem[0x0011] = 0x20;
    mem[0x0020] = 0x77;
    mem[0x0012] = 0xB5;
    mem[0x0013] = 0xFF;
    mem[0x0004] = 0x99;
    mem[0x0014] = 0x85;
    mem[0x0015] = 0x30;
    mem[0x0016] = 0xAD;
    mem[0x0017] = 0x20;
    mem[0x0018] = 0x00;
    mem[0x0019] = 0xB1;
    mem[0x001A] = 0x40;
    mem[0x0040] = 0x00;
    mem[0x0041] = 0x03;
    mem[0x0305] = 0x5A;
    let t = table();
    let regs = CpuRegs { x: 5, y: 5 };
    assert_eq!(disassemble_one(0x0010, &mem, &t, Some(&regs)).operand_detail, Some("@ 0020 = 77".to_string()));
    // Zero page indexing wraps within the zero page.
    assert_eq!(disassemble_one(0x0012, &mem, &t, Some(&regs)).operand_detail, Some("@ 0004 = 99".to_string()));
    // Stores show where they write, not what is there.
    assert_eq!(disassemble_one(0x0014, &mem, &t, Some(&regs)).operand_detail, Some("@ 0030".to_string()));
    // Plain absolute operands show only the value.
    assert_eq!(disassemble_one(0x0016, &mem, &t, Some(&regs)).operand_detail, Some("= 77".to_string()));
    assert_eq!(disassemble_one(0x0019, &mem, &t, Some(&regs)).operand_detail, Some("@ 0305 = 5A".to_string()));
}

#[test]
fn test_disassemble_around_aligned() {
    let mut mem = vec![0u8; 0x10000];
    // NOPs everywhere, then LDA #$01 at $8000, STA $0200 at $8002, LDA #$02 at $8005.
    mem[0x8000] = 0xA9;
    mem[0x8001] = 0x01;
    mem[0x8002] = 0x8D;
    mem[0x8003] = 0x00;
    mem[0x8004] = 0x02;
    mem[0x8005] = 0xA9;
    mem[0x8006] = 0x02;
    let t = table();
    let (lines, idx) = disassemble_around(0x8005, 2, 2, &mem, &t, None);
    assert_eq!(idx, 2);
    assert_eq!(lines.len(), 5);
    assert_eq!(lines[0].addr, 0x8000);
    assert_eq!(lines[1].addr, 0x8002);
    assert_eq!(lines[2].text, "LDA #$02");
    assert_eq!(lines[3].addr, 0x8007);
    assert_eq!(lines[4].addr, 0x8008);
}

#[test]
fn test_disassemble_around_no_context() {
    let mem = vec![0u8; 0x10000];
    let t = table();
    let (lines, idx) = disassemble_around(0x0100, 0, 0, &mem, &t, None);
    assert_eq!(idx, 0);
    assert_eq!(lines.len(), 1);
    assert_eq!(lines[0].addr, 0x0100);
}
