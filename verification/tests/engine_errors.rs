use chip8_core::engine::ChipEmulator;
use chip8_core::error::ChipError;
use chip8_core::memory::ChipMemory;

fn machine_with(program: &[u8]) -> ChipEmulator {
    let mut emu = ChipEmulator::new(ChipMemory::new());
    emu.load_rom(program).unwrap();
    emu
}

#[test]
fn unknown_opcode_is_reported_and_leaves_the_machine_unchanged() {
    let mut emu = machine_with(&[0x80, 0x1F]);
    let r = emu.chip_clk();
    assert_eq!(r, Err(ChipError::UnknownOpcode { b0: 0x80, b1: 0x1F }));
    assert_eq!(emu.mem.pc, 0x200);
}

#[test]
fn unknown_system_and_key_and_misc_opcodes_are_reported() {
    let mut emu = machine_with(&[0x00, 0x00]);
    assert_eq!(
        emu.chip_clk(),
        Err(ChipError::UnknownOpcode { b0: 0x00, b1: 0x00 })
    );
    let mut emu = machine_with(&[0xE1, 0x55]);
    assert_eq!(
        emu.chip_clk(),
        Err(ChipError::UnknownOpcode { b0: 0xE1, b1: 0x55 })
    );
    let mut emu = machine_with(&[0xF1, 0x99]);
    assert_eq!(
        emu.chip_clk(),
        Err(ChipError::UnknownOpcode { b0: 0xF1, b1: 0x99 })
    );
}

#[test]
fn call_with_full_stack_overflows() {
    let mut emu = machine_with(&[0x23, 0x00]);
    emu.mem.stack_ptr = 32;
    assert_eq!(emu.chip_clk(), Err(ChipError::StackOverflow));
    assert_eq!(emu.mem.pc, 0x200);
    assert_eq!(emu.mem.stack_ptr, 32);
}

#[test]
fn return_with_empty_stack_underflows() {
    let mut emu = machine_with(&[0x00, 0xEE]);
    assert_eq!(emu.chip_clk(), Err(ChipError::StackUnderflow));
    assert_eq!(emu.mem.pc, 0x200);
}

#[test]
fn fetch_outside_memory_is_reported() {
    let mut emu = ChipEmulator::new(ChipMemory::new());
    emu.mem.pc = 4095;
    assert_eq!(emu.chip_clk(), Err(ChipError::MemoryOutOfBounds));
    assert_eq!(emu.mem.pc, 4095);
}

#[test]
fn register_dump_past_end_of_memory_is_reported() {
    let mut emu = machine_with(&[0xFF, 0x55]);
    emu.mem.i = 4090;
    assert_eq!(emu.chip_clk(), Err(ChipError::MemoryOutOfBounds));
    assert_eq!(emu.mem.pc, 0x200);
    assert_eq!(emu.mem.ram[4090], 0);
}

#[test]
fn decimal_decomposition_past_end_of_memory_is_reported() {
    let mut emu = machine_with(&[0xF1, 0x33]);
    emu.mem.i = 4094;
    assert_eq!(emu.chip_clk(), Err(ChipError::MemoryOutOfBounds));
}

#[test]
fn sprite_read_past_end_of_memory_is_reported() {
    let mut emu = machine_with(&[0xD1, 0x25]);
    emu.mem.registers[1] = 0;
    emu.mem.registers[2] = 0;
    emu.mem.i = 4094;
    assert_eq!(emu.chip_clk(), Err(ChipError::MemoryOutOfBounds));
    assert_eq!(emu.mem.registers[15], 0);
}

#[test]
fn oversized_rom_is_refused() {
    let mut emu = ChipEmulator::new(ChipMemory::new());
    let image = vec![0xABu8; 3585];
    assert_eq!(emu.load_rom(&image), Err(ChipError::RomTooLarge));
    assert_eq!(emu.mem.pc, 0);
    assert_eq!(emu.mem.ram[0x200], 0);
}

#[test]
fn rom_is_copied_into_program_space() {
    let mut emu = ChipEmulator::new(ChipMemory::new());
    emu.load_rom(&[0x12, 0x34, 0x56]).unwrap();
    assert_eq!(emu.mem.pc, 0x200);
    assert_eq!(emu.mem.ram[0x200], 0x12);
    assert_eq!(emu.mem.ram[0x201], 0x34);
    assert_eq!(emu.mem.ram[0x202], 0x56);
    assert_eq!(emu.mem.ram[0x203], 0);
}

#[test]
fn largest_rom_fits_exactly() {
    let mut emu = ChipEmulator::new(ChipMemory::new());
    let image = vec![0x77u8; 3584];
    emu.load_rom(&image).unwrap();
    assert_eq!(emu.mem.ram[0x200], 0x77);
    assert_eq!(emu.mem.ram[4095], 0x77);
}

#[test]
fn memory_starts_with_font_table_loaded() {
    let mem = ChipMemory::new();
    assert_eq!(mem.ram[0x50], 0xF0);
    assert_eq!(mem.ram[0x9F], 0x80);
    assert_eq!(mem.ram[0x4F], 0);
    assert_eq!(mem.ram[0xA0], 0);
    assert_eq!(mem.pc, 0);
    assert_eq!(mem.stack_ptr, 0);
}

#[test]
fn fetch_reads_bytes_and_advances() {
    let mut mem = ChipMemory::new();
    mem.ram[0x200] = 0xDE;
    mem.ram[0x201] = 0xAD;
    mem.pc = 0x200;
    let ins = mem.get_instruction().unwrap();
    assert_eq!(ins.val, [0xDE, 0xAD]);
    assert_eq!(mem.pc, 0x202);
}
