use chip8::chip8::Chip8;
use chip8::stack::CallStack;
use chip8::timer::Timer;
use std::time::Duration;
use std::time::Instant;

fn wait(millis: u64) {
    let start = Instant::now();
    while start.elapsed() < Duration::from_millis(millis) {
        std::hint::spin_loop();
    }
}

#[test]
fn unarmed_timer_reads_zero() {
    let timer = Timer::new();
    assert!(!timer.is_armed());
    assert_eq!(timer.stored(), 0);
    assert_eq!(timer.read(), 0);
    assert_eq!(timer.remaining_after(0), 0);
    assert_eq!(timer.remaining_after(1_000_000), 0);
}

#[test]
fn armed_timer_loses_sixty_ticks_a_second() {
    let mut timer = Timer::new();
    timer.arm(60);
    assert!(timer.is_armed());
    assert_eq!(timer.stored(), 60);
    assert_eq!(timer.remaining_after(0), 60);
    assert_eq!(timer.remaining_after(16), 60);
    assert_eq!(timer.remaining_after(17), 59);
    assert_eq!(timer.remaining_after(500), 30);
    assert_eq!(timer.remaining_after(983), 2);
    assert_eq!(timer.remaining_after(984), 1);
    assert_eq!(timer.remaining_after(999), 1);
    assert_eq!(timer.remaining_after(1000), 0);
    assert_eq!(timer.remaining_after(1001), 0);
}

#[test]
fn timer_stays_at_zero_however_long() {
    let mut timer = Timer::new();
    timer.arm(255);
    assert_eq!(timer.remaining_after(4249), 1);
    assert_eq!(timer.remaining_after(4250), 0);
    assert_eq!(timer.remaining_after(4999), 0);
    assert_eq!(timer.remaining_after(5000), 0);
    // 256 ticks and more must not come round to a positive reading
    assert_eq!(timer.remaining_after(4267), 0);
    assert_eq!(timer.remaining_after(8500), 0);
    assert_eq!(timer.remaining_after(u128::MAX), 0);
}

#[test]
fn timer_armed_with_zero_reads_zero() {
    let mut timer = Timer::new();
    timer.arm(0);
    assert!(timer.is_armed());
    assert_eq!(timer.remaining_after(0), 0);
    assert_eq!(timer.read(), 0);
}

#[test]
fn timer_read_never_exceeds_what_was_stored() {
    let mut timer = Timer::new();
    timer.arm(200);
    let reading = timer.read();
    assert!(reading <= 200);
    assert!(reading >= 150);
}

#[test]
fn delay_timer_armed_to_sixty_is_zero_after_a_second() {
    let mut chip = Chip8::new();
    chip.v[1] = 60;
    chip.opcode = 0xF115;
    chip.process_opcode().unwrap();
    assert!(chip.delay_timer.is_armed());
    assert_eq!(chip.delay_timer.stored(), 60);
    assert!(chip.get_delay_timer() <= 60);
    assert!(!chip.sound_timer.is_armed());

    wait(1050);
    assert_eq!(chip.get_delay_timer(), 0);
    chip.v[2] = 0xEE;
    chip.opcode = 0xF207;
    chip.process_opcode().unwrap();
    assert_eq!(chip.v[2], 0);
}

#[test]
fn delay_timer_decays_with_time() {
    let mut chip = Chip8::new();
    chip.v[1] = 255;
    chip.opcode = 0xF115;
    chip.process_opcode().unwrap();
    wait(200);
    chip.opcode = 0xF207;
    chip.process_opcode().unwrap();
    // 200 ms are 12 ticks; leave room for a slow machine
    assert!(chip.v[2] <= 243);
    assert!(chip.v[2] >= 100);
}

#[test]
fn sound_timer_is_armed_by_its_own_instruction() {
    let mut chip = Chip8::new();
    chip.v[3] = 90;
    chip.opcode = 0xF318;
    chip.process_opcode().unwrap();
    assert!(chip.sound_timer.is_armed());
    assert_eq!(chip.sound_timer.stored(), 90);
    assert!(!chip.delay_timer.is_armed());
    let reading = chip.get_sound_timer();
    assert!(reading <= 90);
    assert!(reading >= 40);
    assert_eq!(chip.get_delay_timer(), 0);
}

#[test]
fn rearming_a_run_down_timer_starts_it_again() {
    let mut chip = Chip8::new();
    chip.v[1] = 1;
    chip.opcode = 0xF115;
    chip.process_opcode().unwrap();
    wait(40);
    assert_eq!(chip.get_delay_timer(), 0);
    chip.v[1] = 250;
    chip.process_opcode().unwrap();
    assert!(chip.get_delay_timer() >= 200);
}

#[test]
fn call_stack_is_last_in_first_out() {
    let mut stack = CallStack::new();
    assert_eq!(stack.depth(), 0);
    assert!(!stack.is_full());
    assert_eq!(stack.pop(), None);
    assert!(stack.push(0x202));
    assert!(stack.push(0x304));
    assert_eq!(stack.depth(), 2);
    assert_eq!(stack.top(), Some(0x304));
    assert_eq!(stack.get(0), Some(0x202));
    assert_eq!(stack.get(1), Some(0x304));
    assert_eq!(stack.get(2), None);
    assert_eq!(stack.pop(), Some(0x304));
    assert_eq!(stack.pop(), Some(0x202));
    assert_eq!(stack.pop(), None);
    assert_eq!(stack.depth(), 0);
}

#[test]
fn call_stack_holds_sixteen() {
    let mut stack = CallStack::new();
    for i in 0..16u16 {
        assert!(stack.push(i));
    }
    assert!(stack.is_full());
    assert!(!stack.push(99));
    assert_eq!(stack.depth(), 16);
    assert_eq!(stack.top(), Some(15));
    assert_eq!(stack.get(15), Some(15));
    assert_eq!(stack.get(16), None);
}

#[test]
fn only_a_set_instruction_rearms_a_timer() {
    let mut chip = Chip8::load(vec![0xF3, 0x0A]).unwrap();
    chip.v[1] = 255;
    chip.opcode = 0xF115;
    chip.process_opcode().unwrap();
    chip.opcode = 0xF118;
    chip.process_opcode().unwrap();
    wait(100);

    // a word that names no operation, a wait with no key down, a draw, a
    // program load and the glyph sheet leave both timers running
    chip.opcode = 0x8128;
    chip.process_opcode().unwrap();
    chip.pc = 0x200;
    chip.cycle().unwrap();
    assert_eq!(chip.pc, 0x200);
    chip.opcode = 0xD015;
    chip.process_opcode().unwrap();
    chip.load_instructions(&[1, 2, 3]).unwrap();
    chip.test_drawing().unwrap();
    assert!(chip.get_delay_timer() <= 249);
    assert!(chip.get_sound_timer() <= 249);
    assert_eq!(chip.delay_timer.stored(), 255);
    assert_eq!(chip.sound_timer.stored(), 255);
}

#[test]
fn elapsed_time_of_an_unarmed_timer_is_zero() {
    let mut timer = Timer::new();
    assert_eq!(timer.elapsed_millis(), 0);
    timer.arm(10);
    wait(30);
    assert!(timer.elapsed_millis() >= 30);
}
