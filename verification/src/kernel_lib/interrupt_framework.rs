//! Interrupt descriptors of the x86-64 interrupt descriptor table.
use vstd::prelude::*;

verus! {

/// Bit `index` of `value` is set.
pub open spec fn bit_of(value: u16, index: u16) -> bool {
    (value >> index) & 1u16 == 1u16
}

/// `value` with bit `index` set to `bit` and every other bit kept.
pub open spec fn with_bit(value: u16, index: u16, bit: bool) -> u16 {
    if bit {
        value | (1u16 << index)
    } else {
        value & !(1u16 << index)
    }
}

/// The descriptor type word, with one accessor pair per flag bit.
#[derive(Debug, Copy, Clone)]
pub struct DescriptorType(u16);

impl DescriptorType {
    /// The 16 bits of the word.
    pub closed spec fn bits(self) -> u16 {
        self.0
    }

    fn bit(&self, index: u16) -> (b: bool)
        requires
            index < 16,
        ensures
            b == bit_of(self.bits(), index),
    {
        let value = self.0;
        let b = ((value >> index) & 1u16) != 0;
        assert(((value >> index) & 1u16 != 0) == ((value >> index) & 1u16 == 1u16)) by (bit_vector);
        b
    }

    fn set_bit(&mut self, index: u16, bit: bool)
        requires
            index < 16,
        ensures
            final(self).bits() == with_bit(old(self).bits(), index, bit),
            bit_of(final(self).bits(), index) == bit,
            forall|j: u16| j < 16 && j != index ==> bit_of(final(self).bits(), j) == bit_of(old(self).bits(), j),
    {
        let value = self.0;
        let mask: u16 = 1u16 << index;
        let new_value = if bit {
            value | mask
        } else {
            value & !mask
        };
        assert(bit_of(new_value, index) == bit && forall|j: u16| j < 16 && j != index ==> bit_of(new_value, j) == bit_of(value, j)) by (bit_vector)
            requires
                index < 16,
                mask == 1u16 << index,
                new_value == if bit { value | mask } else { value & !mask },
        ;
        self.0 = new_value;
    }

    pub fn kupper_8_bytes(&self) -> (b: bool)
        ensures
            b == bit_of(self.bits(), 0),
    {
        self.bit(0)
    }

    pub fn set_kupper8bytes(&mut self, value: bool)
        ensures
            final(self).bits() == with_bit(old(self).bits(), 0, value),
    {
        self.set_bit(0, value)
    }

    pub fn kidt(&self) -> (b: bool)
        ensures
            b == bit_of(self.bits(), 2),
    {
        self.bit(2)
    }

    pub fn set_kldt(&mut self, value: bool)
        ensures
            final(self).bits() == with_bit(old(self).bits(), 2, value),
    {
        self.set_bit(2, value)
    }

    pub fn ktssavailable(&self) -> (b: bool)
        ensures
            b == bit_of(self.bits(), 9),
    {
        self.bit(9)
    }

    pub fn set_ktssavailable(&mut self, value: bool)
        ensures
            final(self).bits() == with_bit(old(self).bits(), 9, value),
    {
        self.set_bit(9, value)
    }

    pub fn ktssbusy(&self) -> (b: bool)
        ensures
            b == bit_of(self.bits(), 11),
    {
        self.bit(11)
    }

    pub fn set_ktssbusy(&mut self, value: bool)
        ensures
            final(self).bits() == with_bit(old(self).bits(), 11, value),
    {
        self.set_bit(11, value)
    }

    pub fn kcall_gate(&self) -> (b: bool)
        ensures
            b == bit_of(self.bits(), 12),
    {
        self.bit(12)
    }

    pub fn set_kcallgate(&mut self, value: bool)
        ensures
            final(self).bits() == with_bit(old(self).bits(), 12, value),
    {
        self.set_bit(12, value)
    }

    pub fn kinterrupt_gate(&self) -> (b: bool)
        ensures
            b == bit_of(self.bits(), 14),
    {
        self.bit(14)
    }

    pub fn set_kinterruptgate(&mut self, value: bool)
        ensures
            final(self).bits() == with_bit(old(self).bits(), 14, value),
    {
        self.set_bit(14, value)
    }

    pub fn ktrap_gate(&self) -> (b: bool)
        ensures
            b == bit_of(self.bits(), 15),
    {
        self.bit(15)
    }

    pub fn set_ktrapgate(&mut self, value: bool)
        ensures
            final(self).bits() == with_bit(old(self).bits(), 15, value),
    {
        self.set_bit(15, value)
    }
}

/// Setting a flag bit and reading it back gives the value set; the other flag
/// bits keep their values.
pub proof fn lemma_flag_set_get(value: u16, index: u16, bit: bool, other: u16)
    requires
        index < 16,
        other < 16,
        other != index,
    ensures
        bit_of(with_bit(value, index, bit), index) == bit,
        bit_of(with_bit(value, index, bit), other) == bit_of(value, other),
{
    assert(bit_of(with_bit(value, index, bit), index) == bit && bit_of(with_bit(value, index, bit), other) == bit_of(value, other)) by (bit_vector)
        requires
            index < 16,
            other < 16,
            other != index,
    ;
}

#[derive(Debug, Copy, Clone)]
pub struct InterruptDescriptorBits {
    interrupt_stack_table: u16,
    reserved1: u16,
    desctype: DescriptorType,
    reserved2: u16,
    descriptor_privilege_level: u8,
    present: bool,
}

#[derive(Copy)]
union InterruptDescriptorAttribute {
    data: u16,
    bits: InterruptDescriptorBits,
}

impl Clone for InterruptDescriptorAttribute {
    fn clone(&self) -> Self {
        *self
    }
}

#[derive(Copy, Clone)]
pub struct InterruptDescriptor {
    offset_low: u16,
    segment_selector: u16,
    attr: InterruptDescriptorAttribute,
    offset_middle: u16,
    offset_high: u32,
    reserved: u32,
}

impl InterruptDescriptor {
    /// Fills a copy of the descriptor with the attribute, the handler offset
    /// split into its low, middle and high parts, and the segment selector.
    /// The descriptor is taken by value, so the caller's descriptor is left
    /// as it was.
    fn set_idt_entry(self, attr: InterruptDescriptorAttribute, offset: u64, segment_selector: u16) {
        let mut entry = self;
        entry.attr = attr;
        entry.offset_low = (offset as u16) & 0xffff;
        entry.offset_middle = ((offset >> 16u64) as u16) & 0xffff;
        entry.offset_high = (offset >> 32u64) as u32;
        entry.segment_selector = segment_selector;
    }
}

} // verus!
