pub mod boot_info;
pub mod console;
pub mod elf;
pub mod graphics;
pub mod interrupt;
pub mod kernel_lib;
pub mod loader;
pub mod memory_map;
pub mod pci;
