//! The ELF file header (64-bit class).
use vstd::prelude::*;

verus! {

/// The identification bytes at the start of an ELF file.
pub struct ElfIdent {
    ei_class: u8,
    ei_data: u8,
    ei_version: u8,
    ei_osabi: u8,
    ei_abi_version: u8,
    ei_nident: u8,
}

#[allow(non_camel_case_types)]
pub struct Elf64_Ehdr {
    e_ident: ElfIdent,
    e_type: u16,
    e_machine: u16,
    e_version: u32,
    e_entry: u64,
    e_phoff: u64,
    e_shoff: u64,
    e_flags: u32,
    e_ehsize: u16,
    e_phentsize: u16,
    e_phnum: u16,
    e_shentsize: u16,
    e_shnum: u16,
    e_shstrndx: u16,
}

} // verus!
