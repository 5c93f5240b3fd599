//! A small RV32I processor model: instruction decoding, the ALU, the
//! load/store unit, the pipeline hazard unit and a single-cycle CPU that
//! executes one instruction per step.
pub mod isa;
pub mod control;
pub mod cpu;
pub mod laws;
pub mod unit_laws;
pub mod step_laws;
