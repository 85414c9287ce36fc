//! DeepX kernel core: the data structures, text formatting, scheduling and
//! paging rules of the DeepX kernel, with their contracts.
use vstd::prelude::*;

pub mod text;
pub mod ring_buffer;
pub mod utils;
pub mod process;
pub mod pmm;
pub mod paging;
pub mod logger;
pub mod idt;
pub mod timer;
pub mod apic;
pub mod bytes;
pub mod dxb;
pub mod boot;
pub mod rtc;
pub mod strs;
pub mod vfs;
pub mod shell;
pub mod mdump;
pub mod dispatch;
pub mod kernel_shell;
pub mod display;
pub mod input;
pub mod safe_console;
pub mod per_cpu;
pub mod systunnel;
pub mod acpi;
pub mod message;
pub mod cpu;
pub mod console;
pub mod panic_screen;
pub mod debug_panel;
pub mod page_walk;
pub mod gdt;
pub mod pic;
pub mod report;
pub mod user_mode;
pub mod cpuinfo;
pub mod meminfo;
pub mod keyboard;
pub mod reset;

verus! {

pub const KERNEL_VERSION: &'static str = "26m02-v0.0.7_Dev9";
pub const KERNEL_NAME: &'static str = "DeepX Kernel";
pub const KERNEL_MAJOR_VERSION_NAME: &'static str = "Proxima Deimos";

} // verus!
