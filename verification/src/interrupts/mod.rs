//! Installing the kernel's exception handlers in the descriptor table.
use vstd::prelude::*;

pub mod idt;

pub use idt::InterruptStackFrame;

use idt::{gate_for, handler_addr_of, is_present, lemma_gate_handler_addr, Entry, InterruptDescriptorTable};

verus! {

/// The vector of the breakpoint exception (`int3`).
pub const BREAKPOINT: usize = 3;
/// The vector of the double fault exception.
pub const DOUBLE_FAULT: usize = 8;

/// Installs the breakpoint and double fault handlers, at addresses
/// `breakpoint` and `double_fault`, both run in the code segment
/// `code_selector`.
pub fn init_idt(
    idt: &mut InterruptDescriptorTable,
    breakpoint: u64,
    double_fault: u64,
    code_selector: u16,
)
    ensures
        final(idt)@ == old(idt)@.update(3, gate_for(breakpoint, code_selector)).update(
            8,
            gate_for(double_fault, code_selector),
        ),
{
    set_breakpoint_handler(idt, breakpoint, code_selector);
    set_double_fault_handler(idt, double_fault, code_selector);
}

/// Installs the handler at address `handler`, run in the code segment
/// `code_selector`, for the breakpoint exception; no other vector changes.
pub fn set_breakpoint_handler(idt: &mut InterruptDescriptorTable, handler: u64, code_selector: u16)
    ensures
        final(idt)@ == old(idt)@.update(3, gate_for(handler, code_selector)),
{
    idt.index_mut(BREAKPOINT).set_handler(handler, code_selector);
}

/// Installs the handler at address `handler`, run in the code segment
/// `code_selector`, for the double fault exception; no other vector changes.
pub fn set_double_fault_handler(
    idt: &mut InterruptDescriptorTable,
    handler: u64,
    code_selector: u16,
)
    ensures
        final(idt)@ == old(idt)@.update(8, gate_for(handler, code_selector)),
{
    idt.index_mut(DOUBLE_FAULT).set_handler_with_error_code(handler, code_selector);
}

/// After `init_idt`, the breakpoint and double fault vectors are present
/// gates that give back the installed handler addresses, and every other
/// vector is as it was.
pub proof fn lemma_init_idt_installs(
    before: Seq<Entry>,
    breakpoint: u64,
    double_fault: u64,
    code_selector: u16,
)
    requires
        before.len() == 256,
    ensures
        ({
            let after = before.update(3, gate_for(breakpoint, code_selector)).update(
                8,
                gate_for(double_fault, code_selector),
            );
            &&& after.len() == 256
            &&& is_present(after[3]) && handler_addr_of(after[3]) == breakpoint
            &&& is_present(after[8]) && handler_addr_of(after[8]) == double_fault
            &&& after[3].selector == code_selector && after[8].selector == code_selector
            &&& forall|v: int| 0 <= v < 256 && v != 3 && v != 8 ==> #[trigger] after[v] == before[v]
        }),
{
    lemma_gate_handler_addr(breakpoint, code_selector);
    lemma_gate_handler_addr(double_fault, code_selector);
}

} // verus!
