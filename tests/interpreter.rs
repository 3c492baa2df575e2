use chip8::chip8::{Chip8, LoadError};
use chip8::machine::{Fault, FaultKind};

const NO_KEYS: [bool; 16] = [false; 16];

fn image(words: &[u16]) -> Vec<u8> {
    let mut bytes = Vec::new();
    for w in words {
        bytes.push((w >> 8) as u8);
        bytes.push((w & 0xff) as u8);
    }
    bytes
}

fn boot(words: &[u16]) -> Chip8 {
    Chip8::new(&image(words)).unwrap()
}

fn run(c: &mut Chip8, ticks: usize) {
    for _ in 0..ticks {
        c.tick(NO_KEYS, 0).unwrap();
    }
}

#[test]
fn load_places_glyphs_and_program() {
    let c = boot(&[0x1234]);
    assert_eq!(c.mem(0), 0xF0);
    assert_eq!(c.mem(5), 0x20);
    assert_eq!(c.mem(0x4F), 0x80);
    assert_eq!(c.mem(0x50), 0);
    assert_eq!(c.mem(0x200), 0x12);
    assert_eq!(c.mem(0x201), 0x34);
    assert_eq!(c.mem(0x202), 0);
    assert_eq!(c.pc(), 0x200);
    assert_eq!(c.sp(), 0);
    assert_eq!(c.index(), 0);
    for y in 0..32 {
        for x in 0..64 {
            assert!(!c.pixel(x, y));
        }
    }
}

#[test]
fn load_rejects_too_large_image() {
    assert!(matches!(Chip8::new(&vec![0u8; 4096 - 0x200 + 1]), Err(LoadError::ImageTooLarge)));
    let c = Chip8::new(&vec![7u8; 4096 - 0x200]).unwrap();
    assert_eq!(c.mem(4095), 7);
}

#[test]
fn add_byte_wraps_and_keeps_flag() {
    let mut c = boot(&[0x6F07, 0x6AFF, 0x7A02]);
    run(&mut c, 3);
    assert_eq!(c.reg(0xA), 1);
    assert_eq!(c.reg(0xF), 7);
    assert_eq!(c.pc(), 0x206);
}

#[test]
fn add_registers_sets_carry() {
    let mut c = boot(&[0x60F0, 0x6120, 0x8014, 0x6205, 0x6306, 0x8234]);
    run(&mut c, 3);
    assert_eq!(c.reg(0), 0x10);
    assert_eq!(c.reg(0xF), 1);
    run(&mut c, 3);
    assert_eq!(c.reg(2), 11);
    assert_eq!(c.reg(0xF), 0);
}

#[test]
fn sub_sets_flag_without_borrow() {
    let mut c = boot(&[0x6005, 0x6105, 0x8015, 0x6203, 0x6304, 0x8235]);
    run(&mut c, 3);
    assert_eq!(c.reg(0), 0);
    assert_eq!(c.reg(0xF), 1);
    run(&mut c, 3);
    assert_eq!(c.reg(2), 0xFF);
    assert_eq!(c.reg(0xF), 0);
}

#[test]
fn reverse_sub_sets_flag_without_borrow() {
    let mut c = boot(&[0x6003, 0x6108, 0x8017, 0x6209, 0x6304, 0x8237]);
    run(&mut c, 3);
    assert_eq!(c.reg(0), 5);
    assert_eq!(c.reg(0xF), 1);
    run(&mut c, 3);
    assert_eq!(c.reg(2), 0xFB);
    assert_eq!(c.reg(0xF), 0);
}

#[test]
fn logic_and_shifts() {
    let mut c = boot(&[0x60C3, 0x613C, 0x8010, 0x62F0, 0x8211, 0x6381, 0x8316, 0x6481, 0x841E, 0x650F, 0x8512, 0x66FF, 0x8613]);
    run(&mut c, 3);
    assert_eq!(c.reg(0), 0x3C);
    run(&mut c, 2);
    assert_eq!(c.reg(2), 0xFC);
    run(&mut c, 2);
    assert_eq!(c.reg(3), 0x40);
    assert_eq!(c.reg(0xF), 1);
    run(&mut c, 2);
    assert_eq!(c.reg(4), 0x02);
    assert_eq!(c.reg(0xF), 1);
    run(&mut c, 2);
    assert_eq!(c.reg(5), 0x0C);
    run(&mut c, 2);
    assert_eq!(c.reg(6), 0xC3);
}

#[test]
fn skips_on_register_comparisons() {
    let mut c = boot(&[0x6007, 0x3007, 0x0000, 0x4007, 0x5000, 0x0000, 0x9010]);
    run(&mut c, 2);
    assert_eq!(c.pc(), 0x206);
    run(&mut c, 1);
    assert_eq!(c.pc(), 0x208);
    run(&mut c, 1);
    assert_eq!(c.pc(), 0x20C);
    run(&mut c, 1);
    assert_eq!(c.pc(), 0x210);
}

#[test]
fn jumps() {
    let mut c = boot(&[0x1208, 0x0000, 0x0000, 0x0000, 0x6004, 0xB300]);
    run(&mut c, 1);
    assert_eq!(c.pc(), 0x208);
    run(&mut c, 2);
    assert_eq!(c.pc(), 0x304);
}

#[test]
fn call_then_return_restores_pc_and_sp() {
    let mut c = boot(&[0x2204, 0x0000, 0x00EE]);
    run(&mut c, 1);
    assert_eq!(c.pc(), 0x204);
    assert_eq!(c.sp(), 1);
    run(&mut c, 1);
    assert_eq!(c.pc(), 0x202);
    assert_eq!(c.sp(), 0);
}

#[test]
fn return_on_empty_stack_faults() {
    let mut c = boot(&[0x00EE]);
    let r = c.tick(NO_KEYS, 0);
    assert_eq!(r, Err(Fault { kind: FaultKind::StackUnderflow, pc: 0x200, instr: 0x00EE }));
    assert_eq!(c.pc(), 0x200);
}

#[test]
fn seventeenth_call_overflows() {
    let mut c = boot(&[0x2200]);
    run(&mut c, 16);
    assert_eq!(c.sp(), 16);
    let r = c.tick(NO_KEYS, 0);
    assert_eq!(r, Err(Fault { kind: FaultKind::StackOverflow, pc: 0x200, instr: 0x2200 }));
    assert_eq!(c.sp(), 16);
}

#[test]
fn unknown_words_fault() {
    for w in [0x0123u16, 0x5121, 0x9123, 0x8128, 0xE1FF, 0xF1FF, 0xF129 + 1] {
        let mut c = boot(&[w]);
        let r = c.tick(NO_KEYS, 0);
        assert_eq!(r, Err(Fault { kind: FaultKind::InvalidOpcode, pc: 0x200, instr: w }));
        assert_eq!(c.pc(), 0x200);
    }
}

#[test]
fn random_byte_is_masked() {
    let mut c = boot(&[0xC30F, 0xC400]);
    c.tick(NO_KEYS, 0xAB).unwrap();
    assert_eq!(c.reg(3), 0x0B);
    c.run_frame(NO_KEYS).unwrap();
    assert_eq!(c.reg(4), 0);
}

#[test]
fn bcd_of_157() {
    let mut c = boot(&[0x609D, 0xA300, 0xF033]);
    run(&mut c, 3);
    assert_eq!(c.mem(0x300), 1);
    assert_eq!(c.mem(0x301), 5);
    assert_eq!(c.mem(0x302), 7);
}

#[test]
fn bcd_scenario_at_address_zero() {
    let mut c = boot(&[0x6A05, 0xA000, 0xFA33]);
    run(&mut c, 3);
    assert_eq!(c.mem(0), 0);
    assert_eq!(c.mem(1), 0);
    assert_eq!(c.mem(2), 5);
}

#[test]
fn store_and_load_registers() {
    let mut c = boot(&[0x6011, 0x6122, 0x6233, 0xA300, 0xF255, 0x6000, 0x6100, 0x6200, 0xF165]);
    run(&mut c, 5);
    assert_eq!(c.mem(0x300), 0x11);
    assert_eq!(c.mem(0x301), 0x22);
    assert_eq!(c.mem(0x302), 0x33);
    assert_eq!(c.mem(0x303), 0);
    run(&mut c, 4);
    assert_eq!(c.reg(0), 0x11);
    assert_eq!(c.reg(1), 0x22);
    assert_eq!(c.reg(2), 0);
}

#[test]
fn store_wraps_at_end_of_memory() {
    let mut c = boot(&[0x60AA, 0x61BB, 0xAFFF, 0xF155]);
    run(&mut c, 4);
    assert_eq!(c.mem(0xFFF), 0xAA);
    assert_eq!(c.mem(0), 0xBB);
}

#[test]
fn index_register_instructions() {
    let mut c = boot(&[0xAFFE, 0x6005, 0xF01E, 0x600B, 0xF029]);
    run(&mut c, 3);
    assert_eq!(c.index(), 0x1003);
    run(&mut c, 2);
    assert_eq!(c.index(), 55);
}

#[test]
fn timers_count_down_and_stop_at_zero() {
    let mut c = boot(&[0x6002, 0xF015, 0xF018, 0x1206]);
    run(&mut c, 2);
    assert_eq!(c.delay_timer(), 1);
    run(&mut c, 1);
    assert_eq!(c.delay_timer(), 0);
    assert_eq!(c.sound_timer(), 1);
    run(&mut c, 1);
    assert_eq!(c.sound_timer(), 0);
    run(&mut c, 5);
    assert_eq!(c.delay_timer(), 0);
    assert_eq!(c.sound_timer(), 0);
}

#[test]
fn read_delay_timer() {
    let mut c = boot(&[0x6009, 0xF015, 0xF107]);
    run(&mut c, 3);
    assert_eq!(c.reg(1), 8);
}

#[test]
fn key_wait_blocks_until_pressed() {
    let mut c = boot(&[0xF50A, 0x6001]);
    for _ in 0..10 {
        c.tick(NO_KEYS, 0).unwrap();
        assert_eq!(c.pc(), 0x200);
    }
    let mut keys = NO_KEYS;
    keys[0xC] = true;
    keys[0xE] = true;
    c.tick(keys, 0).unwrap();
    assert_eq!(c.reg(5), 0xC);
    assert_eq!(c.pc(), 0x202);
}

#[test]
fn key_wait_accepts_key_zero() {
    let mut c = boot(&[0x6509, 0xF50A]);
    run(&mut c, 1);
    let mut keys = NO_KEYS;
    keys[0] = true;
    c.tick(keys, 0).unwrap();
    assert_eq!(c.reg(5), 0);
    assert_eq!(c.pc(), 0x204);
}

#[test]
fn key_skips() {
    let mut c = boot(&[0x6003, 0xE09E, 0x0000, 0xE0A1, 0xE09E]);
    let mut keys = NO_KEYS;
    keys[3] = true;
    c.tick(keys, 0).unwrap();
    c.tick(keys, 0).unwrap();
    assert_eq!(c.pc(), 0x206);
    c.tick(keys, 0).unwrap();
    assert_eq!(c.pc(), 0x208);
    c.tick(NO_KEYS, 0).unwrap();
    assert_eq!(c.pc(), 0x20A);
}

#[test]
fn clear_then_draw_single_pixel() {
    let mut c = boot(&[0x00E0, 0xA208, 0xD011, 0x1206, 0x8000]);
    run(&mut c, 3);
    assert!(c.pixel(0, 0));
    assert!(!c.pixel(1, 0));
    assert_eq!(c.reg(0xF), 0);
    let frame = c.tick(NO_KEYS, 0).unwrap();
    assert_eq!(frame.len(), 64 * 32);
    assert!(frame[0]);
    assert_eq!(frame.iter().filter(|p| **p).count(), 1);
}

#[test]
fn sprite_wraps_around_right_edge() {
    let mut c = boot(&[0x603F, 0x6100, 0xA20A, 0xD011, 0x1208, 0xFF00]);
    run(&mut c, 4);
    for x in [63, 0, 1, 2, 3, 4, 5, 6] {
        assert!(c.pixel(x, 0));
    }
    assert!(!c.pixel(7, 0));
    assert!(!c.pixel(62, 0));
    assert_eq!(c.reg(0xF), 0);
}

#[test]
fn sprite_wraps_around_bottom_edge() {
    let mut c = boot(&[0x6000, 0x611F, 0xA20A, 0xD012, 0x1208, 0x8080]);
    run(&mut c, 4);
    assert!(c.pixel(0, 31));
    assert!(c.pixel(0, 0));
    assert!(!c.pixel(0, 1));
}

#[test]
fn drawing_twice_restores_and_reports_collision() {
    let mut c = boot(&[0x6003, 0x6104, 0xF229, 0xA000, 0xD015, 0xD015]);
    run(&mut c, 5);
    assert_eq!(c.reg(0xF), 0);
    assert!(c.pixel(3, 4));
    assert!(c.pixel(6, 4));
    assert!(!c.pixel(7, 4));
    run(&mut c, 1);
    assert_eq!(c.reg(0xF), 1);
    for y in 0..32 {
        for x in 0..64 {
            assert!(!c.pixel(x, y));
        }
    }
}

#[test]
fn clear_blanks_framebuffer() {
    let mut c = boot(&[0xA000, 0xD005, 0x00E0]);
    run(&mut c, 2);
    assert!(c.pixel(0, 0));
    run(&mut c, 1);
    assert!(!c.pixel(0, 0));
}

#[test]
fn pc_wraps_fetch_at_end_of_memory() {
    let mut c = boot(&[0x1FFE]);
    run(&mut c, 1);
    assert_eq!(c.pc(), 0xFFE);
    let r = c.tick(NO_KEYS, 0);
    assert_eq!(r, Err(Fault { kind: FaultKind::InvalidOpcode, pc: 0xFFE, instr: 0x0000 }));
}
