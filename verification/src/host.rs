//! Host-facing conversion helpers: turning what a browser host reports into
//! the library's vocabulary, and the library's pixels into what it displays.

pub mod wasm;
