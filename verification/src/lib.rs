//! Verified core of the Vain kernel: allocators, page-table entries,
//! scheduling, IPC objects, capabilities and binary-format parsers.

pub mod bitmap;
pub mod paging;
pub mod page_walk;
pub mod ipc_message;
pub mod thread;
pub mod run_queue;
pub mod sched;
pub mod notification;
pub mod objects;
pub mod endpoint;
pub mod cap_table;
pub mod align;
pub mod heap;
pub mod user_heap;
pub mod bytes;
pub mod elf;
pub mod process;
pub mod acpi;
pub mod frame_alloc;
pub mod keyboard;
pub mod gdt;
pub mod idt;
pub mod serial;
pub mod framebuffer;
pub mod arch;
pub mod driver;
