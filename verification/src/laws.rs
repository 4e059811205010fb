//! What holds of the driver as a whole: of the padding it computes, of the
//! pulses its instruction stream puts on the wire, of reading them back, and
//! of the critical section a frame runs in.

pub mod interrupts;
pub mod padding;
pub mod probe;
pub mod readback;
pub mod wire;
