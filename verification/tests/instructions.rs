use chip_8::cpu::Cpu;
use chip_8::error::Chip8Error;
use chip_8::machine::Status;

fn cpu() -> Cpu {
    Cpu::new(&[]).unwrap()
}

fn run(cpu: &mut Cpu, words: &[u16]) {
    for word in words {
        assert_eq!(cpu.execute(*word), Ok(Status::Completed));
    }
}

fn registers(cpu: &Cpu) -> Vec<u8> {
    (0..16).map(|x| cpu.register(x)).collect()
}

#[test]
fn jump_sets_pc_without_advancing() {
    let mut c = cpu();
    run(&mut c, &[0x1ABC]);
    assert_eq!(c.pc(), 0xABC);
    run(&mut c, &[0x1001]);
    assert_eq!(c.pc(), 0x001);
}

#[test]
fn call_pushes_the_next_address_and_return_pops_it() {
    let mut c = cpu();
    run(&mut c, &[0x2400]);
    assert_eq!((c.pc(), c.sp()), (0x400, 1));
    run(&mut c, &[0x2600]);
    assert_eq!((c.pc(), c.sp()), (0x600, 2));
    run(&mut c, &[0x00EE]);
    assert_eq!((c.pc(), c.sp()), (0x402, 1));
    run(&mut c, &[0x00EE]);
    assert_eq!((c.pc(), c.sp()), (0x202, 0));
    assert_eq!(c.execute(0x00EE), Err(Chip8Error::StackUnderflow));
    assert_eq!((c.pc(), c.sp()), (0x202, 0));
}

#[test]
fn seventeenth_nested_call_overflows_and_changes_nothing() {
    let mut c = cpu();
    for depth in 0..16u16 {
        run(&mut c, &[0x2300 + depth * 2]);
    }
    assert_eq!((c.pc(), c.sp()), (0x31E, 16));
    assert_eq!(c.execute(0x2ABC), Err(Chip8Error::StackOverflow));
    assert_eq!((c.pc(), c.sp()), (0x31E, 16));
    run(&mut c, &[0x00EE]);
    assert_eq!((c.pc(), c.sp()), (0x31E, 15));
}

#[test]
fn skip_if_equal_immediate() {
    let mut c = cpu();
    run(&mut c, &[0x6A42, 0x3A42]);
    assert_eq!(c.pc(), 0x206);
    run(&mut c, &[0x3A43]);
    assert_eq!(c.pc(), 0x208);
}

#[test]
fn skip_if_not_equal_immediate() {
    let mut c = cpu();
    run(&mut c, &[0x6A42, 0x4A42]);
    assert_eq!(c.pc(), 0x204);
    run(&mut c, &[0x4A43]);
    assert_eq!(c.pc(), 0x208);
}

#[test]
fn skip_if_registers_equal() {
    let mut c = cpu();
    run(&mut c, &[0x6107, 0x6207, 0x6308, 0x5120]);
    assert_eq!(c.pc(), 0x20A);
    run(&mut c, &[0x5130]);
    assert_eq!(c.pc(), 0x20C);
}

#[test]
fn skip_if_registers_not_equal() {
    let mut c = cpu();
    run(&mut c, &[0x6107, 0x6207, 0x6308, 0x9120]);
    assert_eq!(c.pc(), 0x208);
    run(&mut c, &[0x9130]);
    assert_eq!(c.pc(), 0x20C);
}

#[test]
fn register_skips_need_a_zero_low_nibble() {
    let mut c = cpu();
    for word in [0x5121u16, 0x512F, 0x9121, 0x912F, 0x5FF1] {
        assert_eq!(c.execute(word), Err(Chip8Error::UndefinedOpcode));
    }
    assert_eq!(c.pc(), 0x200);
}

#[test]
fn load_immediate_reaches_every_register() {
    let mut c = cpu();
    for x in 0..16u16 {
        run(&mut c, &[0x6000 | (x << 8) | (0xF0 + x)]);
    }
    assert_eq!(registers(&c), (0xF0..=0xFFu8).collect::<Vec<u8>>());
    assert_eq!(c.pc(), 0x220);
}

#[test]
fn add_immediate_wraps_and_leaves_the_flag_alone() {
    let mut c = cpu();
    run(&mut c, &[0x63F0, 0x7320]);
    assert_eq!(c.register(3), 0x10);
    assert_eq!(c.register(0xF), 0);
    run(&mut c, &[0x6F07, 0x73FF]);
    assert_eq!(c.register(3), 0x0F);
    assert_eq!(c.register(0xF), 7);
    assert_eq!(c.pc(), 0x208);
}

#[test]
fn copy_or_and_xor() {
    let mut c = cpu();
    run(&mut c, &[0x61CC, 0x62AA, 0x6F55, 0x8320]);
    assert_eq!(c.register(3), 0xAA);
    run(&mut c, &[0x8121]);
    assert_eq!(c.register(1), 0xEE);
    run(&mut c, &[0x61CC, 0x8122]);
    assert_eq!(c.register(1), 0x88);
    run(&mut c, &[0x61CC, 0x8123]);
    assert_eq!(c.register(1), 0x66);
    assert_eq!(c.register(2), 0xAA);
    assert_eq!(c.register(0xF), 0x55);
    assert_eq!(c.pc(), 0x212);
}

#[test]
fn add_registers_sets_carry() {
    let mut c = cpu();
    run(&mut c, &[0x61F0, 0x6220, 0x8124]);
    assert_eq!((c.register(1), c.register(0xF)), (0x10, 1));
    run(&mut c, &[0x8124]);
    assert_eq!((c.register(1), c.register(0xF)), (0x30, 0));
    run(&mut c, &[0x61FF, 0x6201, 0x8124]);
    assert_eq!((c.register(1), c.register(0xF)), (0x00, 1));
    run(&mut c, &[0x61FE, 0x8124]);
    assert_eq!((c.register(1), c.register(0xF)), (0xFF, 0));
}

#[test]
fn subtract_sets_flag_when_there_is_no_borrow() {
    let mut c = cpu();
    run(&mut c, &[0x6110, 0x6201, 0x8125]);
    assert_eq!((c.register(1), c.register(0xF)), (0x0F, 1));
    run(&mut c, &[0x6101, 0x6210, 0x8125]);
    assert_eq!((c.register(1), c.register(0xF)), (0xF1, 0));
    run(&mut c, &[0x6133, 0x6233, 0x8125]);
    assert_eq!((c.register(1), c.register(0xF)), (0x00, 1));
}

#[test]
fn reverse_subtract_sets_flag_when_there_is_no_borrow() {
    let mut c = cpu();
    run(&mut c, &[0x6101, 0x6210, 0x8127]);
    assert_eq!((c.register(1), c.register(0xF)), (0x0F, 1));
    run(&mut c, &[0x6110, 0x6201, 0x8127]);
    assert_eq!((c.register(1), c.register(0xF)), (0xF1, 0));
    run(&mut c, &[0x6133, 0x6233, 0x8127]);
    assert_eq!((c.register(1), c.register(0xF)), (0x00, 1));
    assert_eq!(c.register(2), 0x33);
}

#[test]
fn shift_right_puts_the_low_bit_in_the_flag() {
    let mut c = cpu();
    run(&mut c, &[0x6105, 0x62FF, 0x8126]);
    assert_eq!((c.register(1), c.register(0xF)), (0x02, 1));
    run(&mut c, &[0x8126]);
    assert_eq!((c.register(1), c.register(0xF)), (0x01, 0));
    assert_eq!(c.register(2), 0xFF);
}

#[test]
fn shift_left_puts_the_high_bit_in_the_flag() {
    let mut c = cpu();
    run(&mut c, &[0x61C1, 0x6200, 0x812E]);
    assert_eq!((c.register(1), c.register(0xF)), (0x82, 1));
    run(&mut c, &[0x6141, 0x812E]);
    assert_eq!((c.register(1), c.register(0xF)), (0x82, 0));
}

#[test]
fn flag_wins_when_the_target_is_vf() {
    let mut c = cpu();
    run(&mut c, &[0x6FF0, 0x6120, 0x8F14]);
    assert_eq!(c.register(0xF), 1);
    run(&mut c, &[0x6F10, 0x6101, 0x8F15]);
    assert_eq!(c.register(0xF), 1);
    run(&mut c, &[0x6F03, 0x8F16]);
    assert_eq!(c.register(0xF), 1);
    run(&mut c, &[0x6F02, 0x8F1E]);
    assert_eq!(c.register(0xF), 0);
}

#[test]
fn register_operations_without_a_meaning_are_undefined() {
    let mut c = cpu();
    for n in [0x8u16, 0x9, 0xA, 0xB, 0xC, 0xD, 0xF] {
        assert_eq!(c.execute(0x8120 | n), Err(Chip8Error::UndefinedOpcode));
    }
    assert_eq!(c.pc(), 0x200);
    assert_eq!(registers(&c), vec![0u8; 16]);
}

#[test]
fn set_index_loads_the_address() {
    let mut c = cpu();
    run(&mut c, &[0xAFFF]);
    assert_eq!((c.index(), c.pc()), (0xFFF, 0x202));
    run(&mut c, &[0xA000]);
    assert_eq!((c.index(), c.pc()), (0, 0x204));
}

#[test]
fn jump_with_offset_adds_v0() {
    let mut c = cpu();
    run(&mut c, &[0x6010, 0xB300]);
    assert_eq!(c.pc(), 0x310);
    run(&mut c, &[0x60FF, 0xBF00]);
    assert_eq!(c.pc(), 0xFFF);
}

#[test]
fn jump_with_offset_past_memory_is_refused() {
    let mut c = cpu();
    run(&mut c, &[0x60FF]);
    assert_eq!(c.execute(0xBF01), Err(Chip8Error::InvalidAddress));
    assert_eq!(c.pc(), 0x202);
    assert_eq!(c.register(0), 0xFF);
}

#[test]
fn randomize_draws_the_generator_sequence() {
    let mut c = cpu();
    run(&mut c, &[0xC0FF, 0xC1FF, 0xC2FF, 0xC3FF]);
    assert_eq!(&registers(&c)[..4], &[54, 190, 121, 67]);
    assert_eq!(c.pc(), 0x208);
}

#[test]
fn randomize_masks_with_kk() {
    let mut c = cpu();
    run(&mut c, &[0xC00F, 0xC1F0, 0xC200]);
    assert_eq!(&registers(&c)[..3], &[54 & 0x0F, 190 & 0xF0, 0]);
}

#[test]
fn reseed_restarts_the_sequence() {
    let mut c = cpu();
    run(&mut c, &[0xC0FF, 0xC1FF]);
    c.reseed(0);
    run(&mut c, &[0xC2FF]);
    assert_eq!(c.register(2), 54);
    c.reseed(0x3619);
    run(&mut c, &[0xC3FF]);
    assert_eq!(c.register(3), 190);
    c.reseed(0xFFFF);
    run(&mut c, &[0xC4FF]);
    assert_eq!(c.register(4), ((0xFFFFu32 * 25173 + 13849) % 65536 / 256) as u8);
    assert_eq!(c.register(4), 211);
}

#[test]
fn draw_reads_rows_at_i_and_reports_collision_in_vf() {
    let mut c = Cpu::new(&[0xF0, 0x90, 0x90, 0x90, 0xF0]).unwrap();
    run(&mut c, &[0xA200, 0x6105, 0x6203, 0xD125]);
    let pixels = c.display();
    let mut on = Vec::new();
    for k in 0..2048 {
        if pixels[k] {
            on.push((k % 64, k / 64));
        }
    }
    assert_eq!(
        on,
        vec![
            (5, 3), (6, 3), (7, 3), (8, 3),
            (5, 4), (8, 4),
            (5, 5), (8, 5),
            (5, 6), (8, 6),
            (5, 7), (6, 7), (7, 7), (8, 7),
        ]
    );
    assert_eq!(c.register(0xF), 0);
    assert_eq!(c.pc(), 0x208);
    run(&mut c, &[0xD125]);
    assert!(c.display().iter().all(|p| !*p));
    assert_eq!(c.register(0xF), 1);
    run(&mut c, &[0xD125]);
    assert_eq!(c.register(0xF), 0);
}

#[test]
fn draw_wraps_register_coordinates() {
    let mut c = Cpu::new(&[0x80]).unwrap();
    run(&mut c, &[0xA200, 0x61FF, 0x62FF, 0xD121]);
    let pixels = c.display();
    assert!(pixels[31 * 64 + 63]);
    assert_eq!(pixels.iter().filter(|p| **p).count(), 1);
}

#[test]
fn draw_of_zero_rows_draws_nothing_and_clears_vf() {
    let mut c = Cpu::new(&[0xFF]).unwrap();
    run(&mut c, &[0x6F09, 0xA200, 0xD010]);
    assert!(c.display().iter().all(|p| !*p));
    assert_eq!(c.register(0xF), 0);
    assert_eq!(c.pc(), 0x206);
}

#[test]
fn draw_up_to_the_last_byte_of_memory_succeeds() {
    let mut c = cpu();
    run(&mut c, &[0xAFFE, 0xD002]);
    assert_eq!(c.pc(), 0x204);
}

#[test]
fn draw_past_the_end_of_memory_fails_before_drawing() {
    let mut image = vec![0u8; 3584];
    image[3583] = 0xFF;
    let mut c = Cpu::new(&image).unwrap();
    run(&mut c, &[0xAFFF, 0x6F05]);
    assert_eq!(c.execute(0xD002), Err(Chip8Error::InvalidAddress));
    assert!(c.display().iter().all(|p| !*p));
    assert_eq!(c.register(0xF), 5);
    assert_eq!(c.pc(), 0x204);
}

#[test]
fn skip_if_key_pressed_and_not_pressed() {
    let mut c = cpu();
    run(&mut c, &[0x6107]);
    run(&mut c, &[0xE19E]);
    assert_eq!(c.pc(), 0x204);
    run(&mut c, &[0xE1A1]);
    assert_eq!(c.pc(), 0x208);
    assert_eq!(c.set_key(7, true), Ok(()));
    run(&mut c, &[0xE19E]);
    assert_eq!(c.pc(), 0x20C);
    run(&mut c, &[0xE1A1]);
    assert_eq!(c.pc(), 0x20E);
}

#[test]
fn key_skips_with_a_register_above_0xf_are_invalid_keys() {
    let mut c = cpu();
    run(&mut c, &[0x6110]);
    assert_eq!(c.execute(0xE19E), Err(Chip8Error::InvalidKey));
    assert_eq!(c.execute(0xE1A1), Err(Chip8Error::InvalidKey));
    assert_eq!(c.pc(), 0x202);
}

#[test]
fn key_instructions_with_other_low_bytes_are_undefined() {
    let mut c = cpu();
    for word in [0xE19Fu16, 0xE1A0, 0xE100, 0xE1FF] {
        assert_eq!(c.execute(word), Err(Chip8Error::UndefinedOpcode));
    }
    run(&mut c, &[0x61FF]);
    assert_eq!(c.execute(0xE100), Err(Chip8Error::UndefinedOpcode));
    assert_eq!(c.pc(), 0x202);
}

#[test]
fn read_delay_timer_into_register() {
    let mut c = cpu();
    run(&mut c, &[0x6177, 0xF115, 0xF207]);
    assert_eq!(c.register(2), 0x77);
    c.tick_timers();
    run(&mut c, &[0xF307]);
    assert_eq!(c.register(3), 0x76);
    assert_eq!(c.pc(), 0x208);
}

#[test]
fn set_sound_timer_from_register() {
    let mut c = cpu();
    run(&mut c, &[0x6109, 0xF118]);
    assert_eq!((c.sound_timer(), c.delay_timer()), (9, 0));
    assert_eq!(c.pc(), 0x204);
}

#[test]
fn wait_for_key_repeats_until_a_key_goes_down() {
    let mut c = Cpu::new(&[0xF5, 0x0A, 0x60, 0x01]).unwrap();
    assert_eq!(c.step(), Ok(Status::AwaitingKey));
    assert_eq!(c.pc(), 0x200);
    assert_eq!(c.step(), Ok(Status::AwaitingKey));
    assert_eq!(c.pc(), 0x200);
    assert_eq!(c.set_key(0xB, true), Ok(()));
    assert_eq!(c.step(), Ok(Status::Completed));
    assert_eq!(c.register(5), 0xB);
    assert_eq!(c.pc(), 0x202);
    assert_eq!(c.step(), Ok(Status::Completed));
    assert_eq!(c.register(0), 1);
}

#[test]
fn wait_for_key_ignores_a_key_that_was_already_down() {
    let mut c = cpu();
    assert_eq!(c.set_key(2, true), Ok(()));
    assert_eq!(c.execute(0xF30A), Ok(Status::AwaitingKey));
    assert_eq!(c.execute(0xF30A), Ok(Status::AwaitingKey));
    assert_eq!(c.set_key(2, true), Ok(()));
    assert_eq!(c.execute(0xF30A), Ok(Status::AwaitingKey));
    assert_eq!(c.set_key(2, false), Ok(()));
    assert_eq!(c.execute(0xF30A), Ok(Status::AwaitingKey));
    assert_eq!(c.set_key(2, true), Ok(()));
    assert_eq!(c.execute(0xF30A), Ok(Status::Completed));
    assert_eq!(c.register(3), 2);
    assert_eq!(c.pc(), 0x202);
}

#[test]
fn wait_for_key_takes_the_first_key_that_went_down() {
    let mut c = cpu();
    assert_eq!(c.execute(0xF00A), Ok(Status::AwaitingKey));
    assert_eq!(c.set_key(9, false), Ok(()));
    assert_eq!(c.set_key(0xC, true), Ok(()));
    assert_eq!(c.set_key(4, true), Ok(()));
    assert_eq!(c.set_key(0xC, false), Ok(()));
    assert_eq!(c.execute(0xF00A), Ok(Status::Completed));
    assert_eq!(c.register(0), 0xC);
}

#[test]
fn key_pressed_before_the_wait_begins_is_not_remembered() {
    let mut c = cpu();
    assert_eq!(c.set_key(1, true), Ok(()));
    assert_eq!(c.set_key(1, false), Ok(()));
    assert_eq!(c.execute(0xF00A), Ok(Status::AwaitingKey));
    assert_eq!(c.execute(0xF00A), Ok(Status::AwaitingKey));
    assert_eq!(c.pc(), 0x200);
}

#[test]
fn wait_for_key_can_be_used_again() {
    let mut c = cpu();
    assert_eq!(c.execute(0xF00A), Ok(Status::AwaitingKey));
    assert_eq!(c.set_key(1, true), Ok(()));
    assert_eq!(c.execute(0xF00A), Ok(Status::Completed));
    assert_eq!(c.execute(0xF10A), Ok(Status::AwaitingKey));
    assert_eq!(c.set_key(1, false), Ok(()));
    assert_eq!(c.execute(0xF10A), Ok(Status::AwaitingKey));
    assert_eq!(c.set_key(0xF, true), Ok(()));
    assert_eq!(c.execute(0xF10A), Ok(Status::Completed));
    assert_eq!((c.register(0), c.register(1)), (1, 0xF));
    assert_eq!(c.pc(), 0x204);
}

#[test]
fn add_to_index_wraps_at_sixteen_bits() {
    let mut c = cpu();
    run(&mut c, &[0xA123, 0x61FF, 0xF11E]);
    assert_eq!(c.index(), 0x222);
    assert_eq!(c.register(0xF), 0);
    for _ in 0..256 {
        run(&mut c, &[0xF11E]);
    }
    assert_eq!(c.index(), ((0x222u32 + 256 * 255) % 65536) as u16);
    assert_eq!(c.index(), 0x0122);
}

#[test]
fn sprite_address_is_five_bytes_per_digit() {
    let mut c = cpu();
    run(&mut c, &[0x6100, 0xF129]);
    assert_eq!(c.index(), 0);
    run(&mut c, &[0x610A, 0xF129]);
    assert_eq!(c.index(), 50);
    run(&mut c, &[0x610F, 0xF129]);
    assert_eq!(c.index(), 75);
    run(&mut c, &[0x61A7, 0xF129]);
    assert_eq!(c.index(), 35);
}

#[test]
fn store_bcd_writes_three_decimal_digits() {
    let mut c = cpu();
    run(&mut c, &[0x61FE, 0xA300, 0xF133]);
    assert_eq!((c.peek(0x300), c.peek(0x301), c.peek(0x302)), (Ok(2), Ok(5), Ok(4)));
    assert_eq!(c.peek(0x303), Ok(0));
    run(&mut c, &[0x6107, 0xF133]);
    assert_eq!((c.peek(0x300), c.peek(0x301), c.peek(0x302)), (Ok(0), Ok(0), Ok(7)));
    run(&mut c, &[0x6164, 0xF133]);
    assert_eq!((c.peek(0x300), c.peek(0x301), c.peek(0x302)), (Ok(1), Ok(0), Ok(0)));
    assert_eq!(c.index(), 0x300);
    assert_eq!(c.pc(), 0x20E);
}

#[test]
fn store_bcd_at_the_end_of_memory_writes_what_fits_and_fails() {
    let mut c = cpu();
    run(&mut c, &[0x61EA, 0xAFFE]);
    assert_eq!(c.execute(0xF133), Err(Chip8Error::InvalidAddress));
    assert_eq!((c.peek(0xFFE), c.peek(0xFFF)), (Ok(2), Ok(3)));
    assert_eq!(c.pc(), 0x204);
    run(&mut c, &[0xAFFD, 0xF133]);
    assert_eq!((c.peek(0xFFD), c.peek(0xFFE), c.peek(0xFFF)), (Ok(2), Ok(3), Ok(4)));
}

#[test]
fn store_registers_writes_v0_to_vx() {
    let mut c = cpu();
    run(&mut c, &[0x6011, 0x6122, 0x6233, 0x6344, 0xA400, 0xF255]);
    assert_eq!(
        (c.peek(0x400), c.peek(0x401), c.peek(0x402), c.peek(0x403)),
        (Ok(0x11), Ok(0x22), Ok(0x33), Ok(0))
    );
    assert_eq!(c.index(), 0x400);
    assert_eq!(c.pc(), 0x20C);
    run(&mut c, &[0xA500, 0xF055]);
    assert_eq!((c.peek(0x500), c.peek(0x501)), (Ok(0x11), Ok(0)));
}

#[test]
fn store_registers_at_the_end_of_memory_writes_what_fits_and_fails() {
    let mut c = cpu();
    run(&mut c, &[0x6011, 0x6122, 0x6233, 0xAFFE]);
    assert_eq!(c.execute(0xF255), Err(Chip8Error::InvalidAddress));
    assert_eq!((c.peek(0xFFD), c.peek(0xFFE), c.peek(0xFFF)), (Ok(0), Ok(0x11), Ok(0x22)));
    assert_eq!(c.pc(), 0x208);
}

#[test]
fn load_registers_reads_v0_to_vx() {
    let mut c = Cpu::new(&[9, 8, 7, 6]).unwrap();
    run(&mut c, &[0x63AA, 0xA200, 0xF265]);
    assert_eq!(&registers(&c)[..4], &[9, 8, 7, 0xAA]);
    assert_eq!(c.index(), 0x200);
    assert_eq!(c.pc(), 0x206);
}

#[test]
fn load_registers_at_the_end_of_memory_reads_what_fits_and_fails() {
    let mut image = vec![0u8; 3584];
    image[3582] = 0x5A;
    image[3583] = 0xA5;
    let mut c = Cpu::new(&image).unwrap();
    run(&mut c, &[0x62EE, 0x63DD, 0xAFFE]);
    assert_eq!(c.execute(0xF365), Err(Chip8Error::InvalidAddress));
    assert_eq!(&registers(&c)[..4], &[0x5A, 0xA5, 0xEE, 0xDD]);
    assert_eq!(c.pc(), 0x206);
}

#[test]
fn store_then_load_round_trips_all_registers() {
    let mut c = cpu();
    for x in 0..16u16 {
        run(&mut c, &[0x6000 | (x << 8) | (x * 3 + 1)]);
    }
    let saved = registers(&c);
    run(&mut c, &[0xA800, 0xFF55]);
    for x in 0..16u16 {
        run(&mut c, &[0x6000 | (x << 8)]);
    }
    assert_eq!(registers(&c), vec![0u8; 16]);
    run(&mut c, &[0xA800, 0xFF65]);
    assert_eq!(registers(&c), saved);
}

#[test]
fn block_transfers_with_the_index_past_memory_fail_at_once() {
    let mut c = cpu();
    run(&mut c, &[0xAFFF, 0x61FF]);
    for _ in 0..16 {
        run(&mut c, &[0xF11E]);
    }
    assert!(c.index() >= 0x1000);
    assert_eq!(c.execute(0xF055), Err(Chip8Error::InvalidAddress));
    assert_eq!(c.execute(0xF065), Err(Chip8Error::InvalidAddress));
    assert_eq!(c.execute(0xF033), Err(Chip8Error::InvalidAddress));
    assert_eq!(c.execute(0xD001), Err(Chip8Error::InvalidAddress));
    assert_eq!(c.execute(0xD000), Ok(Status::Completed));
}

#[test]
fn class_f_words_outside_the_table_are_undefined() {
    let mut c = cpu();
    let words = [0xF000u16, 0xF108, 0xF10B, 0xF116, 0xF11F, 0xF12A, 0xF134, 0xF156, 0xF166, 0xF1FF];
    for word in words {
        assert_eq!(c.execute(word), Err(Chip8Error::UndefinedOpcode));
    }
    assert_eq!(c.pc(), 0x200);
}

#[test]
fn class_0_words_other_than_clear_and_return_are_undefined() {
    let mut c = cpu();
    for word in [0x0000u16, 0x00E1, 0x00EF, 0x0123, 0x01E0, 0x0FFF] {
        assert_eq!(c.execute(word), Err(Chip8Error::UndefinedOpcode));
    }
    assert_eq!(c.pc(), 0x200);
}

#[test]
fn pc_wraps_at_sixteen_bits() {
    let mut c = cpu();
    for _ in 0..0x7F00u32 {
        run(&mut c, &[0x6000]);
    }
    assert_eq!(c.pc(), 0x0000);
    run(&mut c, &[0x3000]);
    assert_eq!(c.pc(), 0x0004);
}

#[test]
fn pc_stays_even_while_no_jump_targets_an_odd_address() {
    let mut c = cpu();
    let words = [
        0x6005u16, 0x3005, 0x4005, 0x5010, 0x9010, 0x2300, 0x7001, 0x00EE, 0xA208, 0xD011,
        0xB400, 0x1ABC, 0xF00A, 0xE09E, 0xF055, 0xC0FF, 0x00E0,
    ];
    for word in words {
        assert!(c.execute(word).is_ok());
        assert_eq!(c.pc() % 2, 0);
    }
}

#[test]
fn jump_to_an_odd_address_is_taken_as_written() {
    let mut c = cpu();
    run(&mut c, &[0x1201]);
    assert_eq!(c.pc(), 0x201);
    run(&mut c, &[0x6001]);
    assert_eq!(c.pc(), 0x203);
    run(&mut c, &[0x2405]);
    assert_eq!(c.pc(), 0x405);
    run(&mut c, &[0x00EE]);
    assert_eq!(c.pc(), 0x205);
}

#[test]
fn failed_instruction_leaves_pc_on_it() {
    let mut c = cpu();
    run(&mut c, &[0x6120, 0xAFFF, 0x60FF]);
    let pc = c.pc();
    let words = [0x00EEu16, 0xBFFF, 0xE19E, 0xF133, 0xF155, 0xF165, 0xD002, 0x8008, 0xFFFF];
    for word in words {
        assert!(c.execute(word).is_err());
        assert_eq!(c.pc(), pc);
    }
}
