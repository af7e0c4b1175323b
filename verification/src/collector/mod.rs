//! Decision logic of the metric collectors: everything they compute from
//! what they read, kept apart from the reading itself.

pub mod cpu;
pub mod gpu;
pub mod gpu_process;
pub mod llm;
