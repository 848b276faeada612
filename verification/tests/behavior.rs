//! Tests of the fetch engine, loading, reset, the wait-for-key and
//! draw-twice behaviours, the rate limiter decision, and the emulation-loop
//! decisions.

use chip8::control::{
    emu_tick, process_ui_events, should_redraw, timers_tick, EmuToUiMsg, UiToEmuMsg,
};
use chip8::emu::{Emu, EmuFault, MAX_ROM_SIZE, PROGRAM_START};
use chip8::metro::Metronome;
use chip8::Mode;

#[test]
fn test_fetch_combines_big_endian() {
    let mut emu = Emu::new();
    emu.pc = 0x300;
    emu.ram[0x300] = 0xab;
    emu.ram[0x301] = 0xcd;
    emu.fetch_opcode();
    assert_eq!(0xabcd, emu.opcode);
}

#[test]
fn test_fetch_wraps_at_top_of_ram() {
    let mut emu = Emu::new();
    emu.pc = 0xfff;
    emu.ram[0xfff] = 0x12;
    emu.ram[0x000] = 0x34;
    emu.fetch_opcode();
    assert_eq!(0x1234, emu.opcode);
}

#[test]
fn test_unknown_opcode_reports_word_and_address() {
    let mut emu = Emu::new();
    emu.pc = 0x0aaa;
    emu.opcode = 0x5001;
    let r = emu.decode_and_execute_opcode();
    assert_eq!(
        r,
        Err(EmuFault::UnknownOpcode { opcode: 0x5001, addr: 0x0aaa })
    );
    assert_eq!(0x0aaa, emu.pc);
}

#[test]
fn test_unknown_opcode_zero_word() {
    let mut emu = Emu::new();
    emu.pc = 0x0200;
    emu.opcode = 0x0000;
    let r = emu.decode_and_execute_opcode();
    assert_eq!(
        r,
        Err(EmuFault::UnknownOpcode { opcode: 0x0000, addr: 0x0200 })
    );
}

#[test]
fn test_load_rom_too_large_is_refused() {
    let mut emu = Emu::new();
    let rom = vec![0u8; MAX_ROM_SIZE + 1];
    let r = emu.load_rom(rom);
    assert_eq!(r, Err(EmuFault::RomTooLarge { size: MAX_ROM_SIZE + 1 }));
    assert_eq!(0u8, emu.ram[PROGRAM_START]);
}

#[test]
fn test_load_rom_largest_size_fits() {
    let mut emu = Emu::new();
    let mut rom = vec![0u8; MAX_ROM_SIZE];
    rom[0] = 0x60;
    rom[MAX_ROM_SIZE - 1] = 0x77;
    assert_eq!(Ok(()), emu.load_rom(rom));
    assert_eq!(0x60, emu.ram[PROGRAM_START]);
    assert_eq!(0x77, emu.ram[4095]);
}

#[test]
fn test_execute_cycle_runs_instruction_at_pc() {
    let mut emu = Emu::new();
    let rom = vec![0x6a, 0x42]; // load 0x42 into v[10]
    emu.load_rom(rom).unwrap();
    emu.execute_cycle().unwrap();
    assert_eq!(0x42, emu.v[0x0a]);
    assert_eq!((PROGRAM_START + 2) as u16, emu.pc);
}

#[test]
fn test_reset_reproduces_initial_state() {
    let mut emu = Emu::new();
    let rom = vec![0x12, 0x34, 0x56];
    emu.load_rom(rom.clone()).unwrap();
    // scramble every kind of state
    emu.v[3] = 0x99;
    emu.ram[0x400] = 0xee;
    emu.mode = Mode::SUPER;
    emu.gfx[5][6] = true;
    emu.dt = 9;
    emu.st = 9;
    emu.sp = 3;
    emu.stack[0] = 0x123;
    emu.pc = 0x800;
    emu.draw = true;
    emu.reset();

    let mut fresh = Emu::new();
    fresh.load_rom(rom).unwrap();
    assert_eq!(fresh.v, emu.v);
    assert_eq!(fresh.ram, emu.ram);
    assert_eq!(fresh.mode, emu.mode);
    assert_eq!(fresh.gfx, emu.gfx);
    assert_eq!(fresh.dt, emu.dt);
    assert_eq!(fresh.st, emu.st);
    assert_eq!(fresh.sp, emu.sp);
    assert_eq!(fresh.stack, emu.stack);
    assert_eq!(fresh.pc, emu.pc);
    assert_eq!(fresh.draw, emu.draw);
    assert_eq!((PROGRAM_START) as u16, emu.pc);
    // fonts intact after reset
    assert_eq!(0xf0, emu.ram[0]);
    assert_eq!(0xff, emu.ram[80]);
    // rom reloaded
    assert_eq!(0x12, emu.ram[PROGRAM_START]);
    assert_eq!(0x34, emu.ram[PROGRAM_START + 1]);
    assert_eq!(0x56, emu.ram[PROGRAM_START + 2]);
}

#[test]
fn test_wait_for_key_stalls_across_repeated_executions() {
    let mut emu = Emu::new();
    emu.pc = 0x300;
    emu.opcode = 0xf20a;
    for _ in 0..5 {
        emu.decode_and_execute_opcode().unwrap();
        assert_eq!(0x300, emu.pc);
    }
    emu.keys[0x7] = true;
    emu.keys[0xb] = true;
    emu.decode_and_execute_opcode().unwrap();
    assert_eq!(0x302, emu.pc);
    assert_eq!(0x07, emu.v[2]); // the lowest-indexed pressed key
}

#[test]
fn test_draw_twice_restores_pixels_and_reports_collision() {
    let mut emu = Emu::new();
    emu.v[1] = 10;
    emu.v[2] = 12;
    emu.ram_idx = 0x300;
    emu.ram[0x300] = 0b1010_0101;
    emu.ram[0x301] = 0b0110_0110;
    emu.gfx[10][12] = true; // pre-set pixel under a sprite bit
    let before: Vec<Vec<bool>> = emu.gfx.clone();
    emu.opcode = 0xd122;
    emu.decode_and_execute_opcode().unwrap();
    emu.opcode = 0xd122;
    emu.decode_and_execute_opcode().unwrap();
    assert_eq!(before, emu.gfx);
    assert_eq!(0x01, emu.v[0x0f]);
}

#[test]
fn test_draw_sixteen_wide_sprite_reads_two_bytes_per_row() {
    let mut emu = Emu::new();
    emu.mode = Mode::SUPER;
    emu.v[1] = 20;
    emu.v[2] = 8;
    emu.ram_idx = 0x300;
    emu.ram[0x300] = 0b1000_0000; // row 0, left half
    emu.ram[0x301] = 0b0000_0001; // row 0, right half
    emu.ram[0x302] = 0b0100_0000; // row 1, left half
    emu.ram[0x303] = 0b1000_0000; // row 1, right half
    emu.opcode = 0xd120;
    emu.decode_and_execute_opcode().unwrap();
    // row 0: the left half comes from the even byte, the right half from
    // the odd byte
    assert_eq!(true, emu.gfx[20][8]);
    assert_eq!(false, emu.gfx[28][8]);
    assert_eq!(true, emu.gfx[35][8]);
    assert_eq!(false, emu.gfx[21][8]);
    // row 1 reads the next two bytes
    assert_eq!(true, emu.gfx[21][9]);
    assert_eq!(true, emu.gfx[28][9]);
    assert_eq!(false, emu.gfx[20][9]);
    assert_eq!(false, emu.gfx[35][9]);
}

#[test]
fn test_random_masked_by_zero_is_zero() {
    let mut emu = Emu::new();
    emu.pc = 0x300;
    emu.v[4] = 0xaa;
    emu.opcode = 0xc400;
    emu.decode_and_execute_opcode().unwrap();
    assert_eq!(0x00, emu.v[4]);
    assert_eq!(0x302, emu.pc);
}

#[test]
fn test_random_stays_within_mask() {
    let mut emu = Emu::new();
    emu.opcode = 0xc40f;
    emu.decode_and_execute_opcode().unwrap();
    assert_eq!(0x00, emu.v[4] & 0xf0);
}

#[test]
fn test_call_then_return_round_trip() {
    let mut emu = Emu::new();
    emu.pc = 0x456;
    emu.opcode = 0x2999;
    emu.decode_and_execute_opcode().unwrap();
    assert_eq!(0x999, emu.pc);
    assert_eq!(1, emu.sp);
    assert_eq!(0x456, emu.stack[0]);
    emu.opcode = 0x00ee;
    emu.decode_and_execute_opcode().unwrap();
    assert_eq!(0x458, emu.pc);
    assert_eq!(0, emu.sp);
}

#[test]
fn test_stack_pointer_wraps_on_pop_from_zero() {
    let mut emu = Emu::new();
    emu.sp = 0;
    emu.stack[15] = 0x0123;
    emu.opcode = 0x00ee;
    emu.decode_and_execute_opcode().unwrap();
    assert_eq!(15, emu.sp);
    assert_eq!(0x125, emu.pc);
}

#[test]
fn test_stack_pointer_wraps_on_push_from_fifteen() {
    let mut emu = Emu::new();
    emu.sp = 15;
    emu.pc = 0x200;
    emu.opcode = 0x2400;
    emu.decode_and_execute_opcode().unwrap();
    assert_eq!(0, emu.sp);
    assert_eq!(0x200, emu.stack[15]);
}

#[test]
fn test_update_timers_decrements_and_clamps() {
    let mut emu = Emu::new();
    emu.dt = 2;
    emu.st = 1;
    emu.update_timers();
    assert_eq!(1, emu.dt);
    assert_eq!(0, emu.st);
    emu.update_timers();
    assert_eq!(0, emu.dt);
    assert_eq!(0, emu.st);
}

#[test]
fn test_beeping_tracks_sound_timer() {
    let mut emu = Emu::new();
    assert_eq!(false, emu.beeping());
    emu.st = 3;
    assert_eq!(true, emu.beeping());
}

#[test]
fn test_metronome_period_from_rate() {
    let m = Metronome::new(500);
    assert_eq!(2_000_000, m.freq_ns);
    let m = Metronome::new(60);
    assert_eq!(16_666_666, m.freq_ns);
}

#[test]
fn test_metronome_fires_only_when_period_elapsed() {
    let mut m = Metronome::new(1000); // one-millisecond period
    m.ticked_at_ns = 5_000_000;
    assert_eq!(false, m.fire_if_due(5_500_000));
    assert_eq!(5_000_000, m.ticked_at_ns);
    assert_eq!(true, m.fire_if_due(6_000_000));
    assert_eq!(6_000_000, m.ticked_at_ns);
    // no catch-up: a very late poll fires exactly once
    assert_eq!(true, m.fire_if_due(100_000_000));
    assert_eq!(100_000_000, m.ticked_at_ns);
    assert_eq!(false, m.fire_if_due(100_000_001));
}

#[test]
fn test_metronome_ignores_clock_running_backwards() {
    let mut m = Metronome::new(1000);
    m.ticked_at_ns = 5_000_000;
    assert_eq!(false, m.fire_if_due(4_000_000));
    assert_eq!(5_000_000, m.ticked_at_ns);
}

#[test]
fn test_process_ui_events_applies_keys_and_pause() {
    let mut emu = Emu::new();
    let mut paused = false;
    let mut keys = vec![false; 16];
    keys[4] = true;
    assert_eq!(
        false,
        process_ui_events(&mut emu, Some(UiToEmuMsg::Keys(keys)), &mut paused)
    );
    assert_eq!(true, emu.keys[4]);
    assert_eq!(
        false,
        process_ui_events(&mut emu, Some(UiToEmuMsg::Paused(true)), &mut paused)
    );
    assert_eq!(true, paused);
    assert_eq!(false, process_ui_events(&mut emu, None, &mut paused));
    assert_eq!(
        true,
        process_ui_events(&mut emu, Some(UiToEmuMsg::Quit), &mut paused)
    );
}

#[test]
fn test_process_ui_events_reset_rebuilds_state() {
    let mut emu = Emu::new();
    let mut paused = false;
    emu.v[0] = 7;
    emu.pc = 0x900;
    assert_eq!(
        false,
        process_ui_events(&mut emu, Some(UiToEmuMsg::Reset), &mut paused)
    );
    assert_eq!(0, emu.v[0]);
    assert_eq!(PROGRAM_START as u16, emu.pc);
}

#[test]
fn test_emu_tick_emits_draw_event_and_clears_flag() {
    let mut emu = Emu::new();
    // plant a clear-screen instruction, which sets the redraw flag
    emu.ram[PROGRAM_START] = 0x00;
    emu.ram[PROGRAM_START + 1] = 0xe0;
    match emu_tick(&mut emu, true) {
        Ok(Some(EmuToUiMsg::Draw(mode, gfx))) => {
            assert_eq!(Mode::STANDARD, mode);
            assert_eq!(emu.gfx, gfx);
        },
        _ => panic!("expected a draw event"),
    }
    assert_eq!(false, emu.draw);
    // gate closed: nothing runs
    let pc = emu.pc;
    assert!(matches!(emu_tick(&mut emu, false), Ok(None)));
    assert_eq!(pc, emu.pc);
}

#[test]
fn test_timers_tick_reports_beep_transitions() {
    let mut emu = Emu::new();
    let mut beeping = false;
    emu.st = 3;
    match timers_tick(&mut emu, &mut beeping, true) {
        Some(EmuToUiMsg::Beeping(on)) => assert_eq!(true, on),
        _ => panic!("expected a beep-on event"),
    }
    assert_eq!(true, beeping);
    assert!(timers_tick(&mut emu, &mut beeping, true).is_none());
    match timers_tick(&mut emu, &mut beeping, true) {
        Some(EmuToUiMsg::Beeping(on)) => assert_eq!(false, on),
        _ => panic!("expected a beep-off event"),
    }
    assert_eq!(false, beeping);
}

#[test]
fn test_register_block_store_load_round_trip() {
    let mut emu = Emu::new();
    emu.ram_idx = 0x500;
    emu.v[0] = 0x11;
    emu.v[1] = 0x22;
    emu.v[2] = 0x33;
    emu.opcode = 0xf255;
    emu.decode_and_execute_opcode().unwrap();
    // wipe the registers, then load them back from RAM
    emu.v[0] = 0;
    emu.v[1] = 0;
    emu.v[2] = 0;
    emu.opcode = 0xf265;
    emu.decode_and_execute_opcode().unwrap();
    assert_eq!(0x11, emu.v[0]);
    assert_eq!(0x22, emu.v[1]);
    assert_eq!(0x33, emu.v[2]);
    assert_eq!(0x500, emu.ram_idx); // the index register is unmodified
}

#[test]
fn test_pc_masked_to_twelve_bits_on_skip() {
    let mut emu = Emu::new();
    emu.pc = 0xffe;
    emu.v[0x0a] = 0x23;
    emu.opcode = 0x3a23;
    emu.decode_and_execute_opcode().unwrap();
    assert_eq!(0x002, emu.pc);
    assert!(emu.pc <= 0xfff);
}

#[test]
fn test_should_redraw_suppressed_while_paused() {
    let mut m = Metronome::new(120);
    m.ticked_at_ns = 0; // far enough in the past that the metronome is due
    assert_eq!(false, should_redraw(&mut m, true));
}

#[test]
fn test_should_redraw_fires_when_due_and_unpaused() {
    let mut m = Metronome::new(120);
    m.ticked_at_ns = 0; // far enough in the past that the metronome is due
    assert_eq!(true, should_redraw(&mut m, false));
}
