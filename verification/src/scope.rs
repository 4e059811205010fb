//! What an instruction stream puts on the wire: a probe that follows the pin
//! cycle by cycle and reports the pulses it sees.

use vstd::prelude::*;
use crate::ports::{level_of, pin_level};
use crate::util::instr::Instr;

verus! {

/// One bit on the wire: the pin goes high, then low, within a fixed span.
#[derive(Clone, Copy, Debug, PartialEq, Eq, Structural)]
pub struct Pulse {
    /// Cycles during which the pin was high.
    pub high: u64,
    /// Cycles from the start of the instruction that raised the pin to the
    /// end of the branch that closed the loop.
    pub period: u64,
}

/// What the probe reports.
#[derive(Clone, Copy, Debug, PartialEq, Eq, Structural)]
pub enum Mark {
    /// A pulse.
    Pulse(Pulse),
    /// The pin rested at one level for a wait of `micros` microseconds.
    Idle { high: bool, micros: u32 },
}

/// `a + c`, or the largest value where the sum does not fit.
pub open spec fn sat_add(a: u64, c: nat) -> u64 {
    if a + c > u64::MAX {
        u64::MAX
    } else {
        (a + c) as u64
    }
}

/// A probe on one pin of a port. It starts to count where an instruction
/// raises the pin, and reports a pulse where the bit loop is closed.
#[derive(Clone, Copy, Debug, PartialEq, Eq, Structural)]
pub struct Probe {
    /// The level of the pin.
    pub level: bool,
    /// Whether a pulse is being counted.
    pub active: bool,
    /// Cycles of the pulse being counted during which the pin was high.
    pub high: u64,
    /// Cycles of the pulse being counted.
    pub period: u64,
}

impl Probe {
    /// A probe that is not counting, on a pin at the given level.
    pub open spec fn idle(level: bool) -> Probe {
        Probe { level, active: false, high: 0, period: 0 }
    }

    /// The probe after `c` cycles with no change of the pin.
    pub open spec fn tick(self, c: nat) -> Probe {
        if self.active {
            Probe {
                level: self.level,
                active: true,
                high: if self.level {
                    sat_add(self.high, c)
                } else {
                    self.high
                },
                period: sat_add(self.period, c),
            }
        } else {
            self
        }
    }

    /// The pulse counted so far.
    pub open spec fn pulse(self) -> Pulse {
        Pulse { high: self.high, period: self.period }
    }

    /// The probe after the given instruction has run, watching pin `pin`.
    ///
    /// A store that raises the pin while nothing is counted starts a pulse,
    /// and its own cycle is the first of that pulse. The branch that closes
    /// the loop ends the pulse, and so does a wait. Any other instruction adds
    /// its cycles to the pulse being counted, and a store sets the level
    /// once it has run.
    pub open spec fn after(self, instr: Instr, pin: u8) -> Probe {
        match instr {
            Instr::Out(value) => {
                let level = pin_level(value, pin);
                if !self.active && !self.level && level {
                    Probe { level: true, active: true, high: 0, period: 1 }
                } else {
                    let ticked = self.tick(1);
                    Probe {
                        level,
                        active: ticked.active,
                        high: ticked.high,
                        period: ticked.period,
                    }
                }
            },
            Instr::BranchNotEqual => Probe::idle(self.level),
            Instr::DelayUs(_) => Probe::idle(self.level),
            _ => self.tick(instr.spec_cycles()),
        }
    }

    /// What the probe reports when the given instruction runs.
    pub open spec fn emits(self, instr: Instr) -> Seq<Mark> {
        match instr {
            Instr::BranchNotEqual => if self.active {
                seq![Mark::Pulse(self.tick(2).pulse())]
            } else {
                Seq::empty()
            },
            Instr::DelayUs(micros) => if self.active {
                seq![Mark::Pulse(self.pulse()), Mark::Idle { high: self.level, micros }]
            } else {
                seq![Mark::Idle { high: self.level, micros }]
            },
            _ => Seq::empty(),
        }
    }

    /// A probe that is not counting, on a pin at the given level.
    pub fn new(level: bool) -> (probe: Probe)
        ensures
            probe == Probe::idle(level),
    {
        Probe { level, active: false, high: 0, period: 0 }
    }

    /// Lets `c` cycles pass with no change of the pin.
    fn pass(&mut self, c: u8)
        ensures
            *final(self) == old(self).tick(c as nat),
    {
        if self.active {
            if self.level {
                self.high = self.high.saturating_add(c as u64);
            }
            self.period = self.period.saturating_add(c as u64);
        }
    }

    /// Follows one instruction on pin `pin` and appends to `marks` what the
    /// probe reports for it.
    pub fn step(&mut self, instr: &Instr, pin: u8, marks: &mut Vec<Mark>)
        ensures
            *final(self) == old(self).after(*instr, pin),
            final(marks)@ == old(marks)@ + old(self).emits(*instr),
    {
        match instr {
            Instr::Out(value) => {
                let level = level_of(*value, pin);
                if !self.active && !self.level && level {
                    self.level = true;
                    self.active = true;
                    self.high = 0;
                    self.period = 1;
                } else {
                    self.pass(1);
                    self.level = level;
                }
            },
            Instr::BranchNotEqual => {
                if self.active {
                    self.pass(2);
                    marks.push(Mark::Pulse(Pulse { high: self.high, period: self.period }));
                }
                self.active = false;
                self.high = 0;
                self.period = 0;
            },
            Instr::DelayUs(micros) => {
                if self.active {
                    marks.push(Mark::Pulse(Pulse { high: self.high, period: self.period }));
                }
                marks.push(Mark::Idle { high: self.level, micros: *micros });
                self.active = false;
                self.high = 0;
                self.period = 0;
            },
            _ => {
                self.pass(instr.cycles());
            },
        }
        proof {
            assert(marks@ =~= old(marks)@ + old(self).emits(*instr));
        }
    }
}

/// The probe after a whole sequence of instructions has run.
pub open spec fn probe_after(start: Probe, code: Seq<Instr>, pin: u8) -> Probe
    decreases code.len(),
{
    if code.len() == 0 {
        start
    } else {
        probe_after(start, code.drop_last(), pin).after(code.last(), pin)
    }
}

/// What the probe reports while a whole sequence of instructions runs.
pub open spec fn probe_marks(start: Probe, code: Seq<Instr>, pin: u8) -> Seq<Mark>
    decreases code.len(),
{
    if code.len() == 0 {
        Seq::empty()
    } else {
        probe_marks(start, code.drop_last(), pin) + probe_after(
            start,
            code.drop_last(),
            pin,
        ).emits(code.last())
    }
}

/// What a sequence of instructions puts on pin `pin` of a line that rests low.
pub open spec fn waveform(code: Seq<Instr>, pin: u8) -> Seq<Mark> {
    probe_marks(Probe::idle(false), code, pin)
}

/// Reports what `code` puts on pin `pin` of a line that rests low.
pub fn measure(code: &[Instr], pin: u8) -> (marks: Vec<Mark>)
    ensures
        marks@ == waveform(code@, pin),
{
    let mut probe = Probe::new(false);
    let mut marks: Vec<Mark> = Vec::new();
    let mut i: usize = 0;
    while i < code.len()
        invariant
            i <= code.len(),
            probe == probe_after(Probe::idle(false), code@.take(i as int), pin),
            marks@ == probe_marks(Probe::idle(false), code@.take(i as int), pin),
        decreases code.len() - i,
    {
        proof {
            let next = code@.take(i + 1);
            assert(next.drop_last() =~= code@.take(i as int));
            assert(next.last() == code@[i as int]);
        }
        probe.step(&code[i], pin, &mut marks);
        i = i + 1;
    }
    proof {
        assert(code@.take(code@.len() as int) =~= code@);
    }
    marks
}

} // verus!
