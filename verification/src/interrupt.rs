//! The interrupt descriptor table.
use vstd::prelude::*;
use crate::kernel_lib::interrupt_framework::InterruptDescriptor;

verus! {

#[allow(non_snake_case)]
pub struct InterrutpDescriptionTable {
    InterrutpDescriptionTable_body: Vec<InterruptDescriptor>,
}

} // verus!
