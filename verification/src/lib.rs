//! The core of a small single-core kernel, with its behaviour stated in
//! contracts and proved: the frame allocator and the heap bootstrap, the
//! cooperative task scheduler, the bridge from the keyboard interrupt to the
//! task that reads scancodes, the text-mode display and an in-memory file
//! system.
pub mod allocator;
pub mod fs;
pub mod interrupts;
pub mod memory;
pub mod queue;
pub mod runtime;
pub mod task;
pub mod vga_buffer;
