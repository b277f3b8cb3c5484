//! Fetch, decode and execute: one instruction at a time, or a bounded run.
use vstd::prelude::*;
use crate::cpu::{Cpu, high_byte, low_byte};

verus! {

/// Number of distinct physical addresses in real mode (twenty address bits).
pub const ADDRESS_SPACE: u32 = 0x10_0000;

/// Interrupt number of the video services.
pub const VIDEO_INTERRUPT: u8 = 0x10;

/// Video sub-function (selected by the accumulator's high byte) that prints
/// the accumulator's low byte.
pub const TELETYPE_OUTPUT: u8 = 0x0E;

/// What executing one instruction did, as seen from outside the processor.
#[derive(Clone, Copy, Debug, PartialEq, Eq, Structural)]
pub enum Event {
    /// Short jump; the instruction pointer now holds `target`.
    Jump { target: u16 },
    /// Teletype output of one character.
    Teletype { ch: u8 },
    /// Video interrupt with a sub-function that is not modelled.
    VideoUnhandled { function: u8 },
    /// Software interrupt with a number that is not modelled.
    InterruptUnhandled { number: u8 },
    /// The accumulator's low byte was set to `imm`.
    LoadLow { imm: u8 },
    /// The accumulator's high byte was set to `imm`.
    LoadHigh { imm: u8 },
    Nop,
    /// Halt: execution ends cleanly.
    Halt,
    /// An opcode outside the modelled set, found at `cs:ip`.
    UnknownOpcode { opcode: u8, cs: u16, ip: u16 },
    /// The instruction at `cs:ip` reaches past the end of memory.
    OutOfRange { cs: u16, ip: u16 },
}

impl Event {
    /// Whether the event ends execution.
    pub open spec fn spec_is_terminal(self) -> bool {
        match self {
            Event::Halt => true,
            Event::UnknownOpcode { .. } => true,
            Event::OutOfRange { .. } => true,
            _ => false,
        }
    }

    pub fn is_terminal(&self) -> (r: bool)
        ensures
            r == self.spec_is_terminal(),
    {
        match self {
            Event::Halt => true,
            Event::UnknownOpcode { .. } => true,
            Event::OutOfRange { .. } => true,
            _ => false,
        }
    }
}

/// Physical address of `cs:ip`: the segment shifted left four bits plus the
/// offset, wrapped to twenty bits.
pub open spec fn linear_address(cs: u16, ip: u16) -> int {
    (cs as int * 16 + ip as int) % (ADDRESS_SPACE as int)
}

/// An offset advanced by `n`, wrapping modulo 2^16.
pub open spec fn advance(ip: u16, n: int) -> u16 {
    ((ip as int + n) % 0x1_0000) as u16
}

/// A byte read as a two's-complement signed value.
pub open spec fn signed_byte(b: u8) -> int {
    if b < 128 {
        b as int
    } else {
        b as int - 256
    }
}

/// A register whose low byte is replaced by `b`.
pub open spec fn with_low_byte(x: u16, b: u8) -> u16 {
    (high_byte(x) as int * 256 + b as int) as u16
}

/// A register whose high byte is replaced by `b`.
pub open spec fn with_high_byte(x: u16, b: u8) -> u16 {
    (b as int * 256 + low_byte(x) as int) as u16
}

/// Number of bytes an opcode occupies together with its operands, for the
/// opcodes that continue execution.
pub open spec fn encoded_length(opcode: u8) -> int {
    if opcode == 0x90 {
        1
    } else {
        2
    }
}

/// What a software interrupt does, given its number and the accumulator.
pub open spec fn interrupt_event(number: u8, ax: u16) -> Event {
    if number != VIDEO_INTERRUPT {
        Event::InterruptUnhandled { number }
    } else if high_byte(ax) == TELETYPE_OUTPUT {
        Event::Teletype { ch: low_byte(ax) }
    } else {
        Event::VideoUnhandled { function: high_byte(ax) }
    }
}

/// The effect of executing the instruction at `c.cs:c.ip` in memory `mem`.
#[verifier::opaque]
pub open spec fn step(c: Cpu, mem: Seq<u8>) -> (Cpu, Event) {
    let a = linear_address(c.cs, c.ip);
    if a >= mem.len() {
        (c, Event::OutOfRange { cs: c.cs, ip: c.ip })
    } else {
        let opcode = mem[a];
        if opcode == 0xF4 {
            (c, Event::Halt)
        } else if opcode == 0x90 {
            (Cpu { ip: advance(c.ip, 1), ..c }, Event::Nop)
        } else if opcode != 0xEB && opcode != 0xCD && opcode != 0xB0 && opcode != 0xB4 {
            (c, Event::UnknownOpcode { opcode, cs: c.cs, ip: c.ip })
        } else if a + 1 >= mem.len() {
            (c, Event::OutOfRange { cs: c.cs, ip: c.ip })
        } else {
            let operand = mem[a + 1];
            if opcode == 0xEB {
                let target = advance(c.ip, 2 + signed_byte(operand));
                (Cpu { ip: target, ..c }, Event::Jump { target })
            } else if opcode == 0xCD {
                (Cpu { ip: advance(c.ip, 2), ..c }, interrupt_event(operand, c.ax))
            } else if opcode == 0xB0 {
                (
                    Cpu { ax: with_low_byte(c.ax, operand), ip: advance(c.ip, 2), ..c },
                    Event::LoadLow { imm: operand },
                )
            } else {
                (
                    Cpu { ax: with_high_byte(c.ax, operand), ip: advance(c.ip, 2), ..c },
                    Event::LoadHigh { imm: operand },
                )
            }
        }
    }
}

/// Physical address of `cs:ip`.
pub fn physical_address(cs: u16, ip: u16) -> (r: u32)
    ensures
        r as int == linear_address(cs, ip),
{
    let a: u32 = (cs as u32) * 16 + ip as u32;
    a % ADDRESS_SPACE
}

/// Executes the instruction at `cpu.cs:cpu.ip`.
///
/// Every memory read is bounds-checked: an instruction that does not fit in
/// `mem` yields [`Event::OutOfRange`] and leaves the processor unchanged.
pub fn execute_inst(cpu: &mut Cpu, mem: &[u8]) -> (r: Event)
    ensures
        (*final(cpu), r) == step(*old(cpu), mem@),
{
    reveal(step);
    let a = physical_address(cpu.cs, cpu.ip) as usize;
    if a >= mem.len() {
        return Event::OutOfRange { cs: cpu.cs, ip: cpu.ip };
    }
    let opcode = mem[a];
    if opcode == 0xF4 {
        return Event::Halt;
    }
    if opcode == 0x90 {
        cpu.ip = cpu.ip.wrapping_add(1);
        return Event::Nop;
    }
    if opcode != 0xEB && opcode != 0xCD && opcode != 0xB0 && opcode != 0xB4 {
        return Event::UnknownOpcode { opcode, cs: cpu.cs, ip: cpu.ip };
    }
    if a + 1 >= mem.len() {
        return Event::OutOfRange { cs: cpu.cs, ip: cpu.ip };
    }
    let operand = mem[a + 1];
    match opcode {
        0xEB => {
            // Sign-extend the relative offset to sixteen bits.
            let delta: u16 = if operand < 128 {
                operand as u16
            } else {
                operand as u16 + 0xFF00
            };
            let target = cpu.ip.wrapping_add(2).wrapping_add(delta);
            cpu.ip = target;
            Event::Jump { target }
        },
        0xCD => {
            let ah: u8 = (cpu.ax >> 8) as u8;
            let al: u8 = (cpu.ax & 0xFF) as u8;
            proof {
                let x = cpu.ax;
                assert(ah == x / 256 && al == x % 256) by (bit_vector)
                    requires
                        ah == (x >> 8) as u8,
                        al == (x & 0xFF) as u8,
                ;
            }
            let e = if operand != VIDEO_INTERRUPT {
                Event::InterruptUnhandled { number: operand }
            } else if ah == TELETYPE_OUTPUT {
                Event::Teletype { ch: al }
            } else {
                Event::VideoUnhandled { function: ah }
            };
            cpu.ip = cpu.ip.wrapping_add(2);
            e
        },
        0xB0 => {
            let old_ax = cpu.ax;
            let ax: u16 = (old_ax & 0xFF00) | operand as u16;
            proof {
                let w = operand as u16;
                assert(ax == (old_ax / 256) * 256 + w) by (bit_vector)
                    requires
                        ax == (old_ax & 0xFF00) | w,
                        w < 256,
                ;
            }
            cpu.ax = ax;
            cpu.ip = cpu.ip.wrapping_add(2);
            Event::LoadLow { imm: operand }
        },
        _ => {
            let old_ax = cpu.ax;
            let ax: u16 = (old_ax & 0x00FF) | ((operand as u16) << 8);
            proof {
                let w = operand as u16;
                assert(ax == w * 256 + old_ax % 256) by (bit_vector)
                    requires
                        ax == (old_ax & 0x00FF) | (w << 8),
                        w < 256,
                ;
            }
            cpu.ax = ax;
            cpu.ip = cpu.ip.wrapping_add(2);
            Event::LoadHigh { imm: operand }
        },
    }
}

/// Characters an event sends to the output stream.
pub open spec fn output_of(e: Event) -> Seq<u8> {
    match e {
        Event::Teletype { ch } => seq![ch],
        _ => Seq::empty(),
    }
}

/// At most `fuel` instructions from `c`, stopping after the first terminal
/// event: the final state, the characters output on the way, and the
/// terminal event if one was reached.
pub open spec fn run(c: Cpu, mem: Seq<u8>, fuel: nat) -> (Cpu, Seq<u8>, Option<Event>)
    decreases fuel,
{
    if fuel == 0 {
        (c, Seq::empty(), None)
    } else {
        let (next, e) = step(c, mem);
        if e.spec_is_terminal() {
            (next, output_of(e), Some(e))
        } else {
            let (last, out, stop) = run(next, mem, (fuel - 1) as nat);
            (last, output_of(e) + out, stop)
        }
    }
}

/// Runs at most `max_steps` instructions, appending each character of
/// teletype output to `output`.
///
/// Returns the terminal event (halt, unknown opcode, address out of range)
/// if one was reached, or `None` when the step budget ran out first.
pub fn execute_loop(cpu: &mut Cpu, mem: &[u8], max_steps: u64, output: &mut Vec<u8>) -> (r: Option<Event>)
    ensures
        *final(cpu) == run(*old(cpu), mem@, max_steps as nat).0,
        final(output)@ == old(output)@ + run(*old(cpu), mem@, max_steps as nat).1,
        r == run(*old(cpu), mem@, max_steps as nat).2,
{
    let ghost start = *cpu;
    let ghost out0 = output@;
    let mut i: u64 = 0;
    while i < max_steps
        invariant
            i <= max_steps,
            start == *old(cpu),
            out0 == old(output)@,
            ({
                let whole = run(start, mem@, max_steps as nat);
                let rest = run(*cpu, mem@, (max_steps - i) as nat);
                &&& whole.0 == rest.0
                &&& whole.2 == rest.2
                &&& out0 + whole.1 == output@ + rest.1
            }),
        decreases max_steps - i,
    {
        let ghost before = *cpu;
        let ghost out_before = output@;
        let e = execute_inst(cpu, mem);
        if let Event::Teletype { ch } = e {
            output.push(ch);
        }
        assert(output@ == out_before + output_of(e));
        let ghost rest = run(*cpu, mem@, (max_steps - i - 1) as nat);
        assert(run(before, mem@, (max_steps - i) as nat) == if e.spec_is_terminal() {
            (*cpu, output_of(e), Some(e))
        } else {
            (rest.0, output_of(e) + rest.1, rest.2)
        });
        if e.is_terminal() {
            return Some(e);
        }
        assert(out_before + (output_of(e) + rest.1) == output@ + rest.1);
        i = i + 1;
    }
    None
}

/// A short jump (0xEB) at offset `o` with signed displacement `d` moves the
/// offset to `(o + 2 + d) mod 65536`, and changes nothing else.
pub proof fn lemma_short_jump(c: Cpu, mem: Seq<u8>)
    requires
        linear_address(c.cs, c.ip) + 1 < mem.len(),
        mem[linear_address(c.cs, c.ip)] == 0xEB,
    ensures
        ({
            let d = signed_byte(mem[linear_address(c.cs, c.ip) + 1]);
            let target = ((c.ip as int + 2 + d) % 65536) as u16;
            step(c, mem) == (Cpu { ip: target, ..c }, Event::Jump { target })
        }),
{
    reveal(step);
}

/// Loading the accumulator's low byte (0xB0 `lo`) and then its high byte
/// (0xB4 `hi`) leaves the accumulator at `hi * 256 + lo`, whatever it held
/// before; only the accumulator and the offset change.
pub proof fn lemma_accumulator_loads(c: Cpu, mem: Seq<u8>, lo: u8, hi: u8)
    requires
        linear_address(c.cs, c.ip) + 1 < mem.len(),
        mem[linear_address(c.cs, c.ip)] == 0xB0,
        mem[linear_address(c.cs, c.ip) + 1] == lo,
        linear_address(c.cs, advance(c.ip, 2)) + 1 < mem.len(),
        mem[linear_address(c.cs, advance(c.ip, 2))] == 0xB4,
        mem[linear_address(c.cs, advance(c.ip, 2)) + 1] == hi,
    ensures
        step(step(c, mem).0, mem).0 == (Cpu { ax: (hi as int * 256 + lo as int) as u16, ip: advance(c.ip, 4), ..c }),
{
    reveal(step);
    let c1 = step(c, mem).0;
    let h = high_byte(c.ax) as int;
    let x = h * 256 + lo as int;
    assert(0 <= h < 256);
    assert(x / 256 == h && x % 256 == lo as int) by (nonlinear_arith)
        requires
            x == h * 256 + lo as int,
            0 <= h < 256,
            0 <= lo < 256,
    ;
    assert(c1.ax as int == x);
    assert(advance(advance(c.ip, 2), 2) == advance(c.ip, 4));
}

/// A run of `n` no-ops followed by a halt, without wrapping the offset,
/// stops cleanly after `n + 1` instructions with the offset advanced by
/// exactly `n` and nothing output.
pub proof fn lemma_nop_slide(c: Cpu, mem: Seq<u8>, n: nat)
    requires
        c.ip as int + n <= 0xFFFF,
        forall|k: int|
            0 <= k <= n ==> #[trigger] linear_address(c.cs, (c.ip as int + k) as u16) < mem.len(),
        forall|k: int| 0 <= k < n ==> mem[#[trigger] linear_address(c.cs, (c.ip as int + k) as u16)] == 0x90,
        mem[linear_address(c.cs, (c.ip as int + n) as u16)] == 0xF4,
    ensures
        run(c, mem, n + 1) == (Cpu { ip: (c.ip as int + n) as u16, ..c }, Seq::<u8>::empty(), Some(Event::Halt)),
    decreases n,
{
    reveal(step);
    if n == 0 {
        assert(run(c, mem, 1) == (c, Seq::<u8>::empty(), Some(Event::Halt)));
        assert(Cpu { ip: (c.ip as int + 0) as u16, ..c } == c);
    } else {
        assert(linear_address(c.cs, (c.ip as int + 0) as u16) == linear_address(c.cs, c.ip));
        let c1 = Cpu { ip: (c.ip as int + 1) as u16, ..c };
        assert(step(c, mem) == (c1, Event::Nop));
        assert forall|k: int| 0 <= k <= n - 1 implies #[trigger] linear_address(c1.cs, (c1.ip as int + k) as u16)
            == linear_address(c.cs, (c.ip as int + (k + 1)) as u16) by {}
        lemma_nop_slide(c1, mem, (n - 1) as nat);
        assert(Cpu { ip: (c1.ip as int + (n - 1)) as u16, ..c1 } == Cpu { ip: (c.ip as int + n) as u16, ..c });
        assert(Seq::<u8>::empty() + Seq::<u8>::empty() =~= Seq::<u8>::empty());
    }
}

} // verus!
