//! The first layout of the interrupt descriptor attribute bits.
use vstd::prelude::*;
use crate::kernel_lib::interrupt_framework::DescriptorType;

verus! {

#[derive(Debug, Copy, Clone)]
pub struct InterruptDescriptorBits {
    interrupt_stack_table: u16,
    reserved1: u16,
    type_: DescriptorType,
    reserved2: u16,
    descriptor_privilege_level: u8,
    present: bool,
}

union InterruptDescriptorAttribute {
    data: u16,
    bits: InterruptDescriptorBits,
}

} // verus!
