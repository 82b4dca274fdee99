pub mod loader;
pub mod opcodes;
pub mod semantics;
pub mod value;
pub mod vmrun;
pub mod vmstack;
pub mod vmstate;
