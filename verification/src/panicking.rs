//! Panic support.
//!
//! All panics end in the panic routine, which never returns: it drives the
//! two low pins of port C as outputs and blinks them forever, holding them
//! low for `delay` register writes and then high for `delay` writes. This
//! module decides every register access of that routine; the routine itself
//! performs the accesses.

use crate::fmt::Arguments;
use vstd::prelude::*;

verus! {

/// Number of writes per half period of the blink in debug builds.
pub const PANIC_DELAY_DEBUG: u32 = 20000u32;

/// Number of writes per half period of the blink in release builds.
pub const PANIC_DELAY_RELEASE: u32 = 700000u32;

/// The I/O registers that the panic routine drives.
#[derive(Copy, Clone, Debug, PartialEq, Eq, Structural)]
pub enum PanicRegister {
    /// Data direction register of port C.
    Ddrc,
    /// Output register of port C.
    Portc,
}

/// Memory address of a register.
pub open spec fn spec_register_address(reg: PanicRegister) -> usize {
    match reg {
        PanicRegister::Ddrc => 0x27,
        PanicRegister::Portc => 0x28,
    }
}

/// Memory address of a register.
pub fn register_address(reg: PanicRegister) -> (r: usize)
    ensures
        r == spec_register_address(reg),
{
    match reg {
        PanicRegister::Ddrc => 0x27,
        PanicRegister::Portc => 0x28,
    }
}

/// What the next access of the routine does.
#[derive(Copy, Clone, Debug, PartialEq, Eq, Structural)]
pub enum BlinkPhase {
    /// Make the two low pins of port C outputs.
    SetDirection,
    /// Drive the two low pins low.
    Low,
    /// Drive the two low pins high.
    High,
}

/// The state of the panic routine: the phase, how many writes of that phase
/// are done, and how many each half period takes.
#[derive(Copy, Clone, Debug, PartialEq, Eq, Structural)]
pub struct PanicBlink {
    phase: BlinkPhase,
    done: u32,
    delay: u32,
}

/// The abstract state of the panic routine.
pub struct BlinkView {
    pub phase: BlinkPhase,
    pub done: nat,
    pub delay: nat,
}

/// A reachable state: within a half period fewer writes are done than it
/// takes; before setting the direction none are.
pub open spec fn blink_wf(v: BlinkView) -> bool {
    match v.phase {
        BlinkPhase::SetDirection => v.done == 0,
        _ => v.done < v.delay,
    }
}

/// The state after one access, whatever value was read.
pub open spec fn next_blink(v: BlinkView) -> BlinkView {
    match v.phase {
        BlinkPhase::SetDirection => if v.delay == 0 {
            v
        } else {
            BlinkView { phase: BlinkPhase::Low, done: 0, delay: v.delay }
        },
        BlinkPhase::Low => if v.done + 1 == v.delay {
            BlinkView { phase: BlinkPhase::High, done: 0, delay: v.delay }
        } else {
            BlinkView { phase: BlinkPhase::Low, done: v.done + 1, delay: v.delay }
        },
        BlinkPhase::High => if v.done + 1 == v.delay {
            BlinkView { phase: BlinkPhase::SetDirection, done: 0, delay: v.delay }
        } else {
            BlinkView { phase: BlinkPhase::High, done: v.done + 1, delay: v.delay }
        },
    }
}

/// The value written back to the register, given the value read from it:
/// the two low bits set, or cleared in the low phase.
pub open spec fn blink_write(phase: BlinkPhase, read: u8) -> u8 {
    match phase {
        BlinkPhase::Low => read & 0xfc,
        _ => read | 0x03,
    }
}

/// The state after `n` accesses.
pub open spec fn blink_after(v: BlinkView, n: nat) -> BlinkView
    decreases n,
{
    if n == 0 {
        v
    } else {
        blink_after(next_blink(v), (n - 1) as nat)
    }
}

impl View for PanicBlink {
    type V = BlinkView;

    closed spec fn view(&self) -> BlinkView {
        BlinkView { phase: self.phase, done: self.done as nat, delay: self.delay as nat }
    }
}

impl PanicBlink {
    /// The routine before its first access.
    pub fn start(delay: u32) -> (r: PanicBlink)
        ensures
            r@ == (BlinkView { phase: BlinkPhase::SetDirection, done: 0, delay: delay as nat }),
            blink_wf(r@),
    {
        PanicBlink { phase: BlinkPhase::SetDirection, done: 0, delay }
    }

    /// The register of the next access.
    pub fn register(&self) -> (r: PanicRegister)
        ensures
            r == (if self@.phase == BlinkPhase::SetDirection {
                PanicRegister::Ddrc
            } else {
                PanicRegister::Portc
            }),
    {
        match self.phase {
            BlinkPhase::SetDirection => PanicRegister::Ddrc,
            _ => PanicRegister::Portc,
        }
    }

    /// One access: given the value read from the register, the value to
    /// write back and the next state.
    pub fn step(&self, read: u8) -> (r: (PanicBlink, u8))
        requires
            blink_wf(self@),
        ensures
            r.0@ == next_blink(self@),
            blink_wf(r.0@),
            r.1 == blink_write(self@.phase, read),
    {
        match self.phase {
            BlinkPhase::SetDirection => {
                let next = if self.delay == 0 {
                    *self
                } else {
                    PanicBlink { phase: BlinkPhase::Low, done: 0, delay: self.delay }
                };
                (next, read | 0x03)
            },
            BlinkPhase::Low => {
                let next = if self.done + 1 == self.delay {
                    PanicBlink { phase: BlinkPhase::High, done: 0, delay: self.delay }
                } else {
                    PanicBlink { phase: BlinkPhase::Low, done: self.done + 1, delay: self.delay }
                };
                (next, read & 0xfc)
            },
            BlinkPhase::High => {
                let next = if self.done + 1 == self.delay {
                    PanicBlink { phase: BlinkPhase::SetDirection, done: 0, delay: self.delay }
                } else {
                    PanicBlink { phase: BlinkPhase::High, done: self.done + 1, delay: self.delay }
                };
                (next, read | 0x03)
            },
        }
    }
}

/// The state a panic starts the routine in. The location is not used: every
/// panic starts alike.
pub fn panic_start(expr_file_line: &(&'static str, &'static str, u32), delay: u32) -> (r:
    PanicBlink)
    ensures
        r@ == (BlinkView { phase: BlinkPhase::SetDirection, done: 0, delay: delay as nat }),
        blink_wf(r@),
{
    PanicBlink::start(delay)
}

/// The location handed to the panic routine when an index is out of bounds:
/// the index, the length and the caller's location are not passed on.
pub fn panic_bounds_check(file_line: &(&'static str, u32), index: usize, len: usize) -> (r: (
    &'static str,
    &'static str,
    u32,
))
    ensures
        r.0@ == "..."@,
        r.1@ == "..."@,
        r.2 == 0,
{
    ("...", "...", 0)
}

/// What a formatted panic hands on to the panic implementation: the message
/// and the file and line taken apart.
pub fn panic_fmt<'a>(fmt: Arguments<'a>, file_line: &(&'static str, u32)) -> (r: (
    Arguments<'a>,
    &'static str,
    u32,
))
    ensures
        r.0 == fmt,
        r.1 == file_line.0,
        r.2 == file_line.1,
{
    let (file, line) = *file_line;
    (fmt, file, line)
}

/// Every write of the routine keeps the upper six bits of the register as
/// they were read, and leaves the two low bits both set, or both clear in
/// the low phase.
pub proof fn lemma_blink_write_low_pins(phase: BlinkPhase, read: u8)
    ensures
        blink_write(phase, read) & 0xfc == read & 0xfc,
        blink_write(phase, read) & 0x03 == (if phase == BlinkPhase::Low {
            0u8
        } else {
            3u8
        }),
{
    assert(read & 0xfc & 0xfc == read & 0xfc) by (bit_vector);
    assert((read | 0x03) & 0xfc == read & 0xfc) by (bit_vector);
    assert(read & 0xfc & 0x03 == 0) by (bit_vector);
    assert((read | 0x03) & 0x03 == 3) by (bit_vector);
}

/// Running `a` accesses and then `b` is running `a + b` accesses.
pub proof fn lemma_blink_after_add(v: BlinkView, a: nat, b: nat)
    ensures
        blink_after(blink_after(v, a), b) == blink_after(v, a + b),
    decreases a,
{
    if a > 0 {
        lemma_blink_after_add(next_blink(v), (a - 1) as nat, b);
    }
}

/// Within a half period the count of writes goes up by one per access.
proof fn lemma_half_period(phase: BlinkPhase, k: nat, j: nat, d: nat)
    requires
        phase != BlinkPhase::SetDirection,
        k + j < d,
    ensures
        blink_after(BlinkView { phase, done: k, delay: d }, j) == (BlinkView {
            phase,
            done: k + j,
            delay: d,
        }),
    decreases j,
{
    if j > 0 {
        lemma_half_period(phase, k + 1, (j - 1) as nat, d);
    }
}

/// With a positive delay the routine sets the direction, then drives the
/// pins low for `delay` writes and high for `delay` writes, and then starts
/// over: after `1 + 2 * delay` accesses it is back where it started.
pub proof fn lemma_blink_cycle(delay: nat)
    requires
        delay > 0,
    ensures
        ({
            let s0 = BlinkView { phase: BlinkPhase::SetDirection, done: 0, delay };
            &&& forall|j: nat|
                j < delay ==> #[trigger] blink_after(s0, 1 + j) == (BlinkView {
                    phase: BlinkPhase::Low,
                    done: j,
                    delay,
                })
            &&& forall|j: nat|
                j < delay ==> #[trigger] blink_after(s0, 1 + delay + j) == (BlinkView {
                    phase: BlinkPhase::High,
                    done: j,
                    delay,
                })
            &&& blink_after(s0, 1 + 2 * delay) == s0
        }),
{
    let s0 = BlinkView { phase: BlinkPhase::SetDirection, done: 0, delay };
    let low0 = BlinkView { phase: BlinkPhase::Low, done: 0, delay };
    let high0 = BlinkView { phase: BlinkPhase::High, done: 0, delay };
    let low_last = BlinkView { phase: BlinkPhase::Low, done: (delay - 1) as nat, delay };
    let high_last = BlinkView { phase: BlinkPhase::High, done: (delay - 1) as nat, delay };
    assert(blink_after(s0, 1) == low0) by {
        assert(blink_after(next_blink(s0), 0) == next_blink(s0));
    }
    assert forall|j: nat| j < delay implies #[trigger] blink_after(s0, 1 + j) == (BlinkView {
        phase: BlinkPhase::Low,
        done: j,
        delay,
    }) by {
        lemma_blink_after_add(s0, 1, j);
        lemma_half_period(BlinkPhase::Low, 0, j, delay);
    }
    // The last low write leads to the first high one.
    assert(blink_after(s0, 1 + delay) == high0) by {
        lemma_blink_after_add(s0, delay, 1);
        assert(blink_after(s0, (1 + (delay - 1)) as nat) == low_last);
        assert(blink_after(low_last, 1) == blink_after(next_blink(low_last), 0));
    }
    assert forall|j: nat| j < delay implies #[trigger] blink_after(s0, 1 + delay + j) == (
    BlinkView { phase: BlinkPhase::High, done: j, delay }) by {
        lemma_blink_after_add(s0, 1 + delay, j);
        lemma_half_period(BlinkPhase::High, 0, j, delay);
    }
    // The last high write leads back to the start.
    lemma_blink_after_add(s0, 2 * delay, 1);
    assert(blink_after(s0, (1 + delay + (delay - 1)) as nat) == high_last);
    assert(blink_after(high_last, 1) == blink_after(next_blink(high_last), 0));
}

} // verus!
