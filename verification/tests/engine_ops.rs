use chip8_core::engine::ChipEmulator;
use chip8_core::memory::ChipMemory;

fn machine_with(program: &[u8]) -> ChipEmulator {
    let mut emu = ChipEmulator::new(ChipMemory::new());
    emu.load_rom(program).unwrap();
    emu
}

#[test]
fn add_immediate_wraps_without_touching_flag() {
    let mut emu = machine_with(&[0x72, 0x02]);
    emu.mem.registers[2] = 255;
    emu.mem.registers[15] = 0x55;
    emu.chip_clk().unwrap();
    assert_eq!(emu.mem.registers[2], 1);
    assert_eq!(emu.mem.registers[15], 0x55);
    assert_eq!(emu.mem.pc, 0x202);
}

#[test]
fn add_registers_sets_flag_on_overflow() {
    let mut emu = machine_with(&[0x81, 0x24]);
    emu.mem.registers[1] = 250;
    emu.mem.registers[2] = 10;
    emu.chip_clk().unwrap();
    assert_eq!(emu.mem.registers[1], 4);
    assert_eq!(emu.mem.registers[15], 1);
}

#[test]
fn add_registers_clears_flag_without_overflow() {
    let mut emu = machine_with(&[0x81, 0x24]);
    emu.mem.registers[1] = 1;
    emu.mem.registers[2] = 1;
    emu.mem.registers[15] = 1;
    emu.chip_clk().unwrap();
    assert_eq!(emu.mem.registers[1], 2);
    assert_eq!(emu.mem.registers[15], 0);
}

#[test]
fn subtract_sets_flag_when_no_borrow() {
    let mut emu = machine_with(&[0x81, 0x25]);
    emu.mem.registers[1] = 5;
    emu.mem.registers[2] = 3;
    emu.chip_clk().unwrap();
    assert_eq!(emu.mem.registers[1], 2);
    assert_eq!(emu.mem.registers[15], 1);
}

#[test]
fn subtract_clears_flag_and_wraps_on_borrow() {
    let mut emu = machine_with(&[0x81, 0x25]);
    emu.mem.registers[1] = 3;
    emu.mem.registers[2] = 5;
    emu.mem.registers[15] = 1;
    emu.chip_clk().unwrap();
    assert_eq!(emu.mem.registers[1], 254);
    assert_eq!(emu.mem.registers[15], 0);
}

#[test]
fn reverse_subtract_flag_semantics() {
    let mut emu = machine_with(&[0x81, 0x27]);
    emu.mem.registers[1] = 3;
    emu.mem.registers[2] = 5;
    emu.chip_clk().unwrap();
    assert_eq!(emu.mem.registers[1], 2);
    assert_eq!(emu.mem.registers[15], 1);
}

#[test]
fn shift_right_copies_source_and_reports_low_bit() {
    let mut emu = machine_with(&[0x81, 0x26]);
    emu.mem.registers[1] = 0;
    emu.mem.registers[2] = 0b0000_0101;
    emu.chip_clk().unwrap();
    assert_eq!(emu.mem.registers[1], 0b0000_0010);
    assert_eq!(emu.mem.registers[15], 1);
}

#[test]
fn shift_left_copies_source_and_reports_high_bit() {
    let mut emu = machine_with(&[0x81, 0x2E]);
    emu.mem.registers[1] = 0;
    emu.mem.registers[2] = 0b1100_0000;
    emu.chip_clk().unwrap();
    assert_eq!(emu.mem.registers[1], 0b1000_0000);
    assert_eq!(emu.mem.registers[15], 1);
}

#[test]
fn bitwise_or_and_xor() {
    let mut emu = machine_with(&[0x81, 0x21, 0x83, 0x42, 0x85, 0x63]);
    emu.mem.registers[1] = 0b1010;
    emu.mem.registers[2] = 0b0101;
    emu.mem.registers[3] = 0b1100;
    emu.mem.registers[4] = 0b1010;
    emu.mem.registers[5] = 0b1111;
    emu.mem.registers[6] = 0b0110;
    emu.chip_clk().unwrap();
    emu.chip_clk().unwrap();
    emu.chip_clk().unwrap();
    assert_eq!(emu.mem.registers[1], 0b1111);
    assert_eq!(emu.mem.registers[3], 0b1000);
    assert_eq!(emu.mem.registers[5], 0b1001);
}

#[test]
fn skip_equal_advances_four_from_prefetch_pc() {
    let mut emu = machine_with(&[0x33, 0xAB]);
    emu.mem.registers[3] = 0xAB;
    emu.chip_clk().unwrap();
    assert_eq!(emu.mem.pc, 0x204);
}

#[test]
fn skip_equal_advances_two_when_unequal() {
    let mut emu = machine_with(&[0x33, 0xAB]);
    emu.mem.registers[3] = 0;
    emu.chip_clk().unwrap();
    assert_eq!(emu.mem.pc, 0x202);
}

#[test]
fn skip_not_equal_and_register_compares() {
    let mut emu = machine_with(&[0x43, 0xAB]);
    emu.mem.registers[3] = 0xAB;
    emu.chip_clk().unwrap();
    assert_eq!(emu.mem.pc, 0x202);

    let mut emu = machine_with(&[0x51, 0x20]);
    emu.mem.registers[1] = 7;
    emu.mem.registers[2] = 7;
    emu.chip_clk().unwrap();
    assert_eq!(emu.mem.pc, 0x204);

    let mut emu = machine_with(&[0x91, 0x20]);
    emu.mem.registers[1] = 7;
    emu.mem.registers[2] = 8;
    emu.chip_clk().unwrap();
    assert_eq!(emu.mem.pc, 0x204);
}

#[test]
fn call_then_return_round_trip() {
    let mut emu = machine_with(&[0x23, 0x00]);
    emu.mem.ram[0x300] = 0x00;
    emu.mem.ram[0x301] = 0xEE;
    emu.chip_clk().unwrap();
    assert_eq!(emu.mem.pc, 0x300);
    assert_eq!(emu.mem.stack_ptr, 1);
    emu.chip_clk().unwrap();
    assert_eq!(emu.mem.pc, 0x202);
    assert_eq!(emu.mem.stack_ptr, 0);
}

#[test]
fn jump_and_offset_jump_and_index_load() {
    let mut emu = machine_with(&[0x1A, 0xBC]);
    emu.chip_clk().unwrap();
    assert_eq!(emu.mem.pc, 0xABC);

    let mut emu = machine_with(&[0xBA, 0x00]);
    emu.mem.registers[0] = 0x21;
    emu.chip_clk().unwrap();
    assert_eq!(emu.mem.pc, 0xA21);

    let mut emu = machine_with(&[0xA1, 0x23]);
    emu.chip_clk().unwrap();
    assert_eq!(emu.mem.i, 0x123);
}

#[test]
fn load_immediate_and_copy() {
    let mut emu = machine_with(&[0x6B, 0x42, 0x8C, 0xB0]);
    emu.chip_clk().unwrap();
    emu.chip_clk().unwrap();
    assert_eq!(emu.mem.registers[0xB], 0x42);
    assert_eq!(emu.mem.registers[0xC], 0x42);
}

#[test]
fn random_is_masked_and_deterministic_per_seed() {
    let mut left = machine_with(&[0xC1, 0x0F]);
    let mut right = machine_with(&[0xC1, 0x0F]);
    left.rng.seed(99);
    right.rng.seed(99);
    left.chip_clk().unwrap();
    right.chip_clk().unwrap();
    assert_eq!(left.mem.registers[1], right.mem.registers[1]);
    assert!(left.mem.registers[1] <= 0x0F);
}

#[test]
fn font_lookup_points_into_font_table() {
    let mut emu = machine_with(&[0xF4, 0x29]);
    emu.mem.registers[4] = 0xA;
    emu.chip_clk().unwrap();
    assert_eq!(emu.mem.i, 80 + 50);
}

#[test]
fn timers_read_and_write_through_registers() {
    let mut emu = machine_with(&[0xF1, 0x15, 0xF2, 0x18, 0xF3, 0x07]);
    emu.mem.registers[1] = 9;
    emu.mem.registers[2] = 5;
    emu.chip_clk().unwrap();
    emu.chip_clk().unwrap();
    assert_eq!(emu.mem.timers.delay, 9);
    assert_eq!(emu.mem.timers.sound, 5);
    emu.chip_clk().unwrap();
    assert_eq!(emu.mem.registers[3], 9);
}

#[test]
fn index_add_wraps_at_sixteen_bits() {
    let mut emu = machine_with(&[0xF1, 0x1E]);
    emu.mem.i = 0xFFFF;
    emu.mem.registers[1] = 2;
    emu.chip_clk().unwrap();
    assert_eq!(emu.mem.i, 1);
}

#[test]
fn decimal_decomposition_writes_three_digits() {
    let mut emu = machine_with(&[0xF7, 0x33]);
    emu.mem.registers[7] = 123;
    emu.mem.i = 0x500;
    emu.chip_clk().unwrap();
    assert_eq!(emu.mem.ram[0x500], 1);
    assert_eq!(emu.mem.ram[0x501], 2);
    assert_eq!(emu.mem.ram[0x502], 3);
}

#[test]
fn register_dump_and_load_round_trip() {
    let mut emu = machine_with(&[0xF3, 0x55, 0xF3, 0x65]);
    emu.mem.i = 0x600;
    emu.mem.registers[0] = 10;
    emu.mem.registers[1] = 11;
    emu.mem.registers[2] = 12;
    emu.mem.registers[3] = 13;
    emu.mem.registers[4] = 99;
    emu.chip_clk().unwrap();
    assert_eq!(emu.mem.ram[0x600], 10);
    assert_eq!(emu.mem.ram[0x603], 13);
    assert_eq!(emu.mem.ram[0x604], 0);
    emu.mem.registers[0] = 0;
    emu.mem.registers[1] = 0;
    emu.mem.registers[2] = 0;
    emu.mem.registers[3] = 0;
    emu.chip_clk().unwrap();
    assert_eq!(emu.mem.registers[0], 10);
    assert_eq!(emu.mem.registers[1], 11);
    assert_eq!(emu.mem.registers[2], 12);
    assert_eq!(emu.mem.registers[3], 13);
    assert_eq!(emu.mem.registers[4], 99);
}

#[test]
fn key_skip_instructions() {
    let mut emu = machine_with(&[0xE1, 0x9E]);
    emu.mem.registers[1] = 4;
    emu.input[4] = true;
    emu.chip_clk().unwrap();
    assert_eq!(emu.mem.pc, 0x204);

    let mut emu = machine_with(&[0xE1, 0xA1]);
    emu.mem.registers[1] = 4;
    emu.input[4] = true;
    emu.chip_clk().unwrap();
    assert_eq!(emu.mem.pc, 0x202);
}

#[test]
fn wait_for_key_rewinds_until_a_key_is_pressed() {
    let mut emu = machine_with(&[0xF1, 0x0A]);
    emu.chip_clk().unwrap();
    assert_eq!(emu.mem.pc, 0x200);
    emu.input[0xB] = true;
    emu.chip_clk().unwrap();
    assert_eq!(emu.mem.pc, 0x202);
    assert_eq!(emu.mem.registers[1], 0xB);
}

#[test]
fn draw_same_sprite_twice_collides_and_clears() {
    let mut emu = machine_with(&[0xD1, 0x21, 0xD1, 0x21]);
    emu.mem.registers[1] = 5;
    emu.mem.registers[2] = 6;
    emu.mem.i = 0x400;
    emu.mem.ram[0x400] = 0x80;
    emu.chip_clk().unwrap();
    assert_eq!(emu.mem.registers[15], 0);
    assert!(emu.display.get_display_at_location(5, 6));
    emu.chip_clk().unwrap();
    assert_eq!(emu.mem.registers[15], 1);
    assert!(!emu.display.get_display_at_location(5, 6));
}

#[test]
fn draw_clips_at_display_edges() {
    let mut emu = machine_with(&[0xD1, 0x22]);
    emu.mem.registers[1] = 62;
    emu.mem.registers[2] = 31;
    emu.mem.i = 0x400;
    emu.mem.ram[0x400] = 0xFF;
    emu.mem.ram[0x401] = 0xFF;
    emu.chip_clk().unwrap();
    assert!(emu.display.get_display_at_location(62, 31));
    assert!(emu.display.get_display_at_location(63, 31));
    assert!(!emu.display.get_display_at_location(0, 31));
    assert_eq!(emu.mem.registers[15], 0);
}

#[test]
fn clear_display_switches_every_pixel_off() {
    let mut emu = machine_with(&[0xD1, 0x21, 0x00, 0xE0]);
    emu.mem.registers[1] = 0;
    emu.mem.registers[2] = 0;
    emu.mem.i = 0x400;
    emu.mem.ram[0x400] = 0x80;
    emu.chip_clk().unwrap();
    assert!(emu.display.get_display_at_location(0, 0));
    emu.chip_clk().unwrap();
    assert!(!emu.display.get_display_at_location(0, 0));
}

#[test]
fn draw_any_sprite_twice_restores_the_display() {
    let mut emu = machine_with(&[0xD1, 0x23, 0xD1, 0x23]);
    emu.mem.registers[1] = 10;
    emu.mem.registers[2] = 11;
    emu.mem.i = 0x400;
    emu.mem.ram[0x400] = 0xA5;
    emu.mem.ram[0x401] = 0x5A;
    emu.mem.ram[0x402] = 0xFF;
    emu.chip_clk().unwrap();
    assert_eq!(emu.mem.registers[15], 0);
    emu.chip_clk().unwrap();
    assert_eq!(emu.mem.registers[15], 1);
    for x in 0..64 {
        for y in 0..32 {
            assert!(!emu.display.get_display_at_location(x, y));
        }
    }
}

#[test]
fn draw_coordinates_wrap_into_the_grid() {
    let mut emu = machine_with(&[0xD1, 0x21]);
    emu.mem.registers[1] = 64 + 3;
    emu.mem.registers[2] = 32 + 2;
    emu.mem.i = 0x400;
    emu.mem.ram[0x400] = 0x80;
    emu.chip_clk().unwrap();
    assert!(emu.display.get_display_at_location(3, 2));
}
