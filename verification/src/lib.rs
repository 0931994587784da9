//! WasmOS: a virtual operating system runtime for WebAssembly programs.
//!
//! The verified core holds the decision logic of every subsystem: the
//! virtual filesystem, the task scheduler, the network policy gate, the
//! GUI window registry, the syscall ABI rules and the error model.

pub mod outside;
pub mod os_error;
pub mod text;
pub mod ordered;
pub mod vfs;
pub mod runtime;
pub mod scheduler;
pub mod host;
pub mod network;
pub mod gui;
pub mod shell;
pub mod program_api;
pub mod guest_abi;
pub mod guest_support;
pub mod classic;
pub mod service;
