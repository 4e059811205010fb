//! Building blocks shared by the driver.

pub mod const_str;
pub mod instr;
pub mod nop_block;
pub mod time;
