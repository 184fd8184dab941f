pub mod layout;
pub mod decode;
pub mod state;
pub mod semantics;
pub mod helpers;
pub mod host;
pub mod translate;
pub mod correctness;
pub mod emitter;
pub mod jit;
pub mod chip8;
pub mod laws;
pub mod sim;
