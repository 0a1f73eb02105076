//! The interrupt descriptor table: 256 gate descriptors, each holding the
//! address of a handler split over three fields.
use vstd::prelude::*;

verus! {

/// Number of vectors in the table.
pub const IDT_ENTRIES: usize = 256;
/// The present bit of a descriptor's type attributes.
pub const PRESENT: u8 = 1 << 7;
/// Descriptor kind: interrupt gate.
pub const INTERRUPT_GATE: u8 = 0xE;

/// One gate descriptor, field for field as the CPU reads it.
#[derive(Clone, Copy, Debug, PartialEq, Eq, Structural)]
pub struct Entry {
    /// Bits 0 to 15 of the handler's address.
    pub offset_1: u16,
    /// The code segment selector that the handler runs in.
    pub selector: u16,
    /// Interrupt stack table slot plus one; zero for the current stack.
    pub ist: u8,
    pub type_attributes: u8,
    /// Bits 16 to 31 of the handler's address.
    pub offset_2: u16,
    /// Bits 32 to 63 of the handler's address.
    pub offset_3: u32,
    pub zero: u32,
}

/// The descriptor of a vector with no handler: every field zero.
pub open spec fn missing_entry() -> Entry {
    Entry {
        offset_1: 0,
        selector: 0,
        ist: 0,
        type_attributes: 0,
        offset_2: 0,
        offset_3: 0,
        zero: 0,
    }
}

/// The present interrupt gate that runs the handler at `addr` in the code
/// segment `selector`, on the current stack.
pub open spec fn gate_for(addr: u64, selector: u16) -> Entry {
    Entry {
        offset_1: addr as u16,
        selector,
        ist: 0,
        type_attributes: PRESENT | INTERRUPT_GATE,
        offset_2: (addr >> 16u64) as u16,
        offset_3: (addr >> 32u64) as u32,
        zero: 0,
    }
}

/// The handler address that a descriptor holds, put back together.
pub open spec fn handler_addr_of(e: Entry) -> u64 {
    (e.offset_1 as u64) | ((e.offset_2 as u64) << 16u64) | ((e.offset_3 as u64) << 32u64)
}

/// Whether the CPU takes the descriptor as present.
pub open spec fn is_present(e: Entry) -> bool {
    e.type_attributes & PRESENT != 0
}

impl Entry {
    /// The descriptor of a vector with no handler.
    pub fn missing() -> (e: Entry)
        ensures
            e == missing_entry(),
    {
        Entry {
            offset_1: 0,
            selector: 0,
            ist: 0,
            type_attributes: 0,
            offset_2: 0,
            offset_3: 0,
            zero: 0,
        }
    }

    /// Makes this a present interrupt gate for the handler at address
    /// `handler`, run in the code segment `code_selector`.
    pub fn set_handler(&mut self, handler: u64, code_selector: u16)
        ensures
            *final(self) == gate_for(handler, code_selector),
            handler_addr_of(*final(self)) == handler,
            is_present(*final(self)),
    {
        self.set_addr(handler, code_selector);
    }

    /// Makes this a present interrupt gate for the handler, taking an error
    /// code, at address `handler`, run in the code segment `code_selector`.
    pub fn set_handler_with_error_code(&mut self, handler: u64, code_selector: u16)
        ensures
            *final(self) == gate_for(handler, code_selector),
            handler_addr_of(*final(self)) == handler,
            is_present(*final(self)),
    {
        self.set_addr(handler, code_selector);
    }

    /// Has the handler run on interrupt stack table slot `slot`.
    pub fn set_stack_index(&mut self, slot: u8)
        requires
            slot < 255,
        ensures
            *final(self) == (Entry { ist: (slot + 1) as u8, ..*old(self) }),
    {
        self.ist = slot + 1;
    }

    /// The handler address that this descriptor holds.
    pub fn handler_addr(&self) -> (addr: u64)
        ensures
            addr == handler_addr_of(*self),
    {
        (self.offset_1 as u64) | ((self.offset_2 as u64) << 16u64) | ((self.offset_3 as u64)
            << 32u64)
    }

    fn set_addr(&mut self, addr: u64, code_selector: u16)
        ensures
            *final(self) == gate_for(addr, code_selector),
            handler_addr_of(*final(self)) == addr,
            is_present(*final(self)),
    {
        proof {
            lemma_gate_handler_addr(addr, code_selector);
        }
        self.offset_1 = addr as u16;
        self.offset_2 = (addr >> 16u64) as u16;
        self.offset_3 = (addr >> 32u64) as u32;

        self.selector = code_selector;
        self.ist = 0;
        self.type_attributes = PRESENT | INTERRUPT_GATE;
        self.zero = 0;
    }
}

/// The table of descriptors, one per vector.
pub struct InterruptDescriptorTable([Entry; IDT_ENTRIES]);

impl View for InterruptDescriptorTable {
    type V = Seq<Entry>;

    closed spec fn view(&self) -> Seq<Entry> {
        self.0@
    }
}

impl InterruptDescriptorTable {
    /// A table with no handler for any vector.
    pub fn new() -> (t: InterruptDescriptorTable)
        ensures
            t@.len() == 256,
            forall|i: int| 0 <= i < 256 ==> #[trigger] t@[i] == missing_entry(),
    {
        let missing = Entry::missing();
        InterruptDescriptorTable([missing; IDT_ENTRIES])
    }

    /// The descriptor of `vector`.
    pub fn index(&self, vector: usize) -> (e: &Entry)
        requires
            vector < IDT_ENTRIES,
        ensures
            *e == self@[vector as int],
    {
        &self.0[vector]
    }

    /// The descriptor of `vector`, to change it.
    pub fn index_mut(&mut self, vector: usize) -> (e: &mut Entry)
        requires
            vector < IDT_ENTRIES,
        ensures
            *e == old(self)@[vector as int],
            final(self)@ == old(self)@.update(vector as int, *final(e)),
    {
        &mut self.0[vector]
    }
}

/// A table always holds one descriptor per vector.
pub proof fn lemma_table_len(t: &InterruptDescriptorTable)
    ensures
        t@.len() == 256,
{
}

/// A gate gives back the handler address that it was made from, is present,
/// and has the interrupt gate type.
pub proof fn lemma_gate_handler_addr(addr: u64, selector: u16)
    ensures
        handler_addr_of(gate_for(addr, selector)) == addr,
        is_present(gate_for(addr, selector)),
        gate_for(addr, selector).type_attributes == 0x8E,
{
    assert(((addr as u16) as u64) | ((((addr >> 16u64) as u16) as u64) << 16u64) | ((((addr
        >> 32u64) as u32) as u64) << 32u64) == addr) by (bit_vector);
    assert((1u8 << 7u8) | 0xEu8 == 0x8Eu8) by (bit_vector);
    assert(0x8Eu8 & (1u8 << 7u8) != 0) by (bit_vector);
}

/// A gate holds the handler's address split as the CPU reads it: bits 0 to
/// 15 in `offset_1`, bits 16 to 31 in `offset_2`, bits 32 to 63 in
/// `offset_3`; and a descriptor's handler address is
/// `offset_1 + offset_2 * 2^16 + offset_3 * 2^32`.
pub proof fn lemma_gate_fields(addr: u64, selector: u16, e: Entry)
    ensures
        gate_for(addr, selector).offset_1 as int == addr as int % 0x1_0000,
        gate_for(addr, selector).offset_2 as int == (addr as int / 0x1_0000) % 0x1_0000,
        gate_for(addr, selector).offset_3 as int == addr as int / 0x1_0000_0000,
        gate_for(addr, selector).selector == selector,
        gate_for(addr, selector).ist == 0,
        gate_for(addr, selector).type_attributes == 0x8E,
        gate_for(addr, selector).zero == 0,
        handler_addr_of(e) as int == e.offset_1 as int + e.offset_2 as int * 0x1_0000
            + e.offset_3 as int * 0x1_0000_0000,
{
    assert((addr as u16) as u64 == addr % 0x1_0000) by (bit_vector);
    assert(((addr >> 16u64) as u16) as u64 == (addr / 0x1_0000) % 0x1_0000) by (bit_vector);
    assert(((addr >> 32u64) as u32) as u64 == addr / 0x1_0000_0000) by (bit_vector);
    assert((1u8 << 7u8) | 0xEu8 == 0x8Eu8) by (bit_vector);
    let o1 = e.offset_1;
    let o2 = e.offset_2;
    let o3 = e.offset_3;
    assert((o1 as u64) | ((o2 as u64) << 16u64) | ((o3 as u64) << 32u64) == (o1 as u64) + (o2
        as u64) * 0x1_0000u64 + (o3 as u64) * 0x1_0000_0000u64) by (bit_vector);
}

/// A missing descriptor is not present and holds no handler address.
pub proof fn lemma_missing_not_present()
    ensures
        !is_present(missing_entry()),
        handler_addr_of(missing_entry()) == 0,
{
    assert(0u8 & (1u8 << 7u8) == 0) by (bit_vector);
    assert((0u16 as u64) | ((0u16 as u64) << 16u64) | ((0u32 as u64) << 32u64) == 0) by (bit_vector);
}

/// Choosing an interrupt stack keeps the handler address, the selector and
/// whether the descriptor is present.
pub proof fn lemma_stack_index_keeps_gate(e: Entry, slot: u8)
    requires
        slot < 255,
    ensures
        handler_addr_of(Entry { ist: (slot + 1) as u8, ..e }) == handler_addr_of(e),
        is_present(Entry { ist: (slot + 1) as u8, ..e }) == is_present(e),
        (Entry { ist: (slot + 1) as u8, ..e }).selector == e.selector,
{
}

/// What the CPU pushes before it calls a handler.
#[derive(Debug)]
pub struct InterruptStackFrame {
    instruction_pointer: u64,
    code_segment: u64,
    cpu_flags: u64,
    stack_pointer: u64,
    stack_segment: u64,
}

} // verus!
