use avr_core::panicking::{
    panic_bounds_check, panic_fmt, panic_start, register_address, BlinkPhase, PanicBlink, PanicRegister,
    PANIC_DELAY_DEBUG, PANIC_DELAY_RELEASE,
};
use avr_core::fmt::{ArgumentV1, Arguments};

#[test]
fn register_addresses() {
    assert_eq!(register_address(PanicRegister::Ddrc), 0x27);
    assert_eq!(register_address(PanicRegister::Portc), 0x28);
}

#[test]
fn delays() {
    assert_eq!(PANIC_DELAY_DEBUG, 20000);
    assert_eq!(PANIC_DELAY_RELEASE, 700000);
}

#[test]
fn blink_first_access_sets_direction() {
    let s = PanicBlink::start(2);
    assert_eq!(s.register(), PanicRegister::Ddrc);
    let (s, w) = s.step(0b1010_0000);
    assert_eq!(w, 0b1010_0011);
    assert_eq!(s.register(), PanicRegister::Portc);
}

#[test]
fn blink_cycle_with_delay_two() {
    // Simulate the two registers and record every write.
    let mut ddrc: u8 = 0x40;
    let mut portc: u8 = 0xff;
    let mut s = PanicBlink::start(2);
    let mut writes = Vec::new();
    for _ in 0..5 {
        let reg = s.register();
        let read = match reg { PanicRegister::Ddrc => ddrc, PanicRegister::Portc => portc };
        let (next, w) = s.step(read);
        match reg { PanicRegister::Ddrc => ddrc = w, PanicRegister::Portc => portc = w };
        writes.push((reg, w));
        s = next;
    }
    assert_eq!(writes, vec![
        (PanicRegister::Ddrc, 0x43),
        (PanicRegister::Portc, 0xfc),
        (PanicRegister::Portc, 0xfc),
        (PanicRegister::Portc, 0xff),
        (PanicRegister::Portc, 0xff),
    ]);
    assert_eq!(ddrc, 0x43);
    assert_eq!(portc, 0xff);
    // back at the start of the cycle
    assert_eq!(s, PanicBlink::start(2));
}

#[test]
fn blink_low_phase_keeps_other_bits() {
    let s = PanicBlink::start(1);
    let (s, _) = s.step(0);
    let (s, w) = s.step(0b0101_0111);
    assert_eq!(w, 0b0101_0100);
    let (_, w) = s.step(0b0101_0100);
    assert_eq!(w, 0b0101_0111);
}

#[test]
fn blink_zero_delay_only_sets_direction() {
    let s = PanicBlink::start(0);
    let (s, w) = s.step(0);
    assert_eq!(w, 3);
    assert_eq!(s, PanicBlink::start(0));
    let _ = BlinkPhase::SetDirection;
}

#[test]
fn bounds_check_location() {
    let (file, module, line) = panic_bounds_check(&("src/lib.rs", 10), 5, 3);
    assert_eq!(file, "...");
    assert_eq!(module, "...");
    assert_eq!(line, 0);
}

#[test]
fn panic_fmt_takes_location_apart() {
    let pieces = ["boom"];
    let args: [ArgumentV1; 0] = [];
    let a = Arguments::new_v1(&pieces, &args);
    let (msg, file, line) = panic_fmt(a, &("main.rs", 42));
    assert_eq!(file, "main.rs");
    assert_eq!(line, 42);
    assert_eq!(msg.estimated_capacity(), 4);
}

#[test]
fn panic_start_ignores_location() {
    let a = panic_start(&("a.rs", "m", 1), 3);
    let b = panic_start(&("b.rs", "n", 99), 3);
    assert_eq!(a, b);
    assert_eq!(a, PanicBlink::start(3));
}
