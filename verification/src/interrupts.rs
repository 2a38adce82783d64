use vstd::prelude::*;
use vstd::string::StringSliceAdditionalSpecFns;
use crate::decimal::{decimal_digits, decimal_value, lemma_decimal_digits, push_decimal};

verus! {

/// Type-and-attribute bit that marks a gate present.
pub const GATE_PRESENT: u8 = 0x80;

/// Descriptor privilege level 0 (kernel), in bits 5 and 6 of the type-and-attribute byte.
pub const GATE_DPL0: u8 = 0x00;

/// Gate type of a 64-bit interrupt gate.
pub const GATE_INTERRUPT: u8 = 0xE;

/// Gate type of a 64-bit trap gate.
pub const GATE_TRAP: u8 = 0xF;

/// Code segment selector of the kernel in the GDT.
pub const KERNEL_CS: u16 = 0x08;

/// Entries in the interrupt descriptor table, one per vector.
pub const IDT_ENTRIES: usize = 256;

/// Bytes of one entry as the processor reads it.
pub const IDT_ENTRY_SIZE: usize = 16;

/// Vector of the divide error exception.
pub const VECTOR_DIVIDE_ERROR: usize = 0;

/// Vector of the breakpoint exception.
pub const VECTOR_BREAKPOINT: usize = 3;

/// Vector of the general protection fault.
pub const VECTOR_GENERAL_PROTECTION: usize = 13;

/// Vector of the page fault.
pub const VECTOR_PAGE_FAULT: usize = 14;

/// Registers as an exception entry stub leaves them on the stack: the general purpose
/// registers it pushed, the error code (a zero where the processor pushes none), and the
/// frame that the processor pushed.
#[derive(Debug, Clone, Copy, PartialEq, Eq, Structural)]
pub struct ExceptionStackFrame {
    pub r15: u64,
    pub r14: u64,
    pub r13: u64,
    pub r12: u64,
    pub r11: u64,
    pub r10: u64,
    pub r9: u64,
    pub r8: u64,
    pub rbp: u64,
    pub rdi: u64,
    pub rsi: u64,
    pub rdx: u64,
    pub rcx: u64,
    pub rbx: u64,
    pub rax: u64,
    pub error_code: u64,
    pub rip: u64,
    pub cs: u64,
    pub rflags: u64,
    pub rsp: u64,
    pub ss: u64,
}

/// One 16-byte gate descriptor of the interrupt descriptor table, field by field.
#[derive(Debug, Clone, Copy, PartialEq, Eq, Structural)]
pub struct IdtEntry {
    /// Handler address bits 0 to 15.
    pub offset_low: u16,
    /// Code segment selector the handler runs in.
    pub selector: u16,
    /// Interrupt stack table index in bits 0 to 2.
    pub ist: u8,
    /// Present bit, privilege level and gate type.
    pub type_attr: u8,
    /// Handler address bits 16 to 31.
    pub offset_mid: u16,
    /// Handler address bits 32 to 63.
    pub offset_high: u32,
    pub _reserved: u32,
}

/// The entry of a vector that has no handler: all zero, so not present.
pub open spec fn missing_entry() -> IdtEntry {
    IdtEntry {
        offset_low: 0,
        selector: 0,
        ist: 0,
        type_attr: 0,
        offset_mid: 0,
        offset_high: 0,
        _reserved: 0,
    }
}

/// A present kernel gate of type `gate` whose handler is at `handler`, its address split
/// over the three offset fields.
pub open spec fn gate_entry(handler: u64, gate: u8) -> IdtEntry {
    IdtEntry {
        offset_low: (handler & 0xFFFF) as u16,
        selector: KERNEL_CS,
        ist: 0,
        type_attr: GATE_PRESENT | GATE_DPL0 | gate,
        offset_mid: ((handler >> 16u64) & 0xFFFF) as u16,
        offset_high: ((handler >> 32u64) & 0xFFFF_FFFF) as u32,
        _reserved: 0,
    }
}

/// The handler address that the processor assembles from the offset fields.
pub open spec fn handler_address(e: IdtEntry) -> u64 {
    ((e.offset_high as u64) << 32u64) | ((e.offset_mid as u64) << 16u64) | (e.offset_low as u64)
}

/// Whether the processor may deliver an interrupt through the entry `e`.
pub open spec fn is_present(e: IdtEntry) -> bool {
    e.type_attr & GATE_PRESENT == GATE_PRESENT
}

/// The entry for a handler is deliverable and gives back the handler address; its
/// attribute byte keeps the kind of gate in bits 0 to 3.
pub proof fn lemma_gate_entry_fields(handler: u64, gate: u8)
    ensures
        handler_address(gate_entry(handler, gate)) == handler,
        is_present(gate_entry(handler, gate)),
        gate_entry(handler, gate).type_attr & 0x0fu8 == gate & 0x0fu8,
        gate_entry(handler, gate).type_attr == (0x80u8 | gate),
        gate_entry(handler, gate).selector == 0x08,
        gate_entry(handler, gate).ist == 0,
        gate_entry(handler, gate)._reserved == 0,
        gate_entry(handler, gate).offset_low == handler % 0x1_0000,
        gate_entry(handler, gate).offset_mid == (handler / 0x1_0000) % 0x1_0000,
        gate_entry(handler, gate).offset_high == handler / 0x1_0000_0000,
{
    let a = handler;
    assert((a & 0xFFFF) as u16 == a % 0x1_0000) by (bit_vector);
    assert(((a >> 16u64) & 0xFFFF) as u16 == (a / 0x1_0000) % 0x1_0000) by (bit_vector);
    assert(((a >> 32u64) & 0xFFFF_FFFF) as u32 == a / 0x1_0000_0000) by (bit_vector);
    assert((0x80u8 | 0x00u8 | gate) == (0x80u8 | gate)) by (bit_vector);
    assert((((((a >> 32u64) & 0xFFFF_FFFF) as u32) as u64) << 32u64)
        | (((((a >> 16u64) & 0xFFFF) as u16) as u64) << 16u64)
        | (((a & 0xFFFF) as u16) as u64) == a) by (bit_vector);
    assert((0x80u8 | 0x00u8 | gate) & 0x80u8 == 0x80u8) by (bit_vector);
    assert((0x80u8 | 0x00u8 | gate) & 0x0fu8 == gate & 0x0fu8) by (bit_vector);
}

impl IdtEntry {
    /// The entry of a vector without a handler.
    pub fn missing() -> (e: IdtEntry)
        ensures
            e == missing_entry(),
            !is_present(e),
    {
        assert(0u8 & GATE_PRESENT == 0) by (bit_vector);
        IdtEntry {
            offset_low: 0,
            selector: 0,
            ist: 0,
            type_attr: 0,
            offset_mid: 0,
            offset_high: 0,
            _reserved: 0,
        }
    }

    /// A present kernel gate of type `gate` that runs the handler at `handler`; the
    /// processor finds the same address again in the offset fields.
    pub fn new(handler: u64, gate: u8) -> (e: IdtEntry)
        ensures
            e == gate_entry(handler, gate),
            handler_address(e) == handler,
            is_present(e),
            e.type_attr & 0x0fu8 == gate & 0x0fu8,
            e.type_attr == (0x80u8 | gate),
            e.selector == KERNEL_CS,
            e.ist == 0,
            e._reserved == 0,
    {
        proof {
            lemma_gate_entry_fields(handler, gate);
        }
        let addr = handler;
        IdtEntry {
            offset_low: (addr & 0xFFFF) as u16,
            selector: KERNEL_CS,
            ist: 0,
            type_attr: GATE_PRESENT | GATE_DPL0 | gate,
            offset_mid: ((addr >> 16u64) & 0xFFFF) as u16,
            offset_high: ((addr >> 32u64) & 0xFFFF_FFFF) as u32,
            _reserved: 0,
        }
    }

    /// A trap gate: the processor leaves interrupts enabled while the handler runs.
    pub fn new_trap(handler: u64) -> (e: IdtEntry)
        ensures
            e == gate_entry(handler, GATE_TRAP),
            handler_address(e) == handler,
            is_present(e),
            e.type_attr == 0x8f,
            e.selector == KERNEL_CS,
            e.ist == 0,
            e._reserved == 0,
    {
        proof {
            assert((0x80u8 | 0x0fu8) == 0x8fu8) by (bit_vector);
        }
        Self::new(handler, GATE_TRAP)
    }

    /// An interrupt gate: the processor disables interrupts while the handler runs.
    pub fn new_interrupt(handler: u64) -> (e: IdtEntry)
        ensures
            e == gate_entry(handler, GATE_INTERRUPT),
            handler_address(e) == handler,
            is_present(e),
            e.type_attr == 0x8e,
            e.selector == KERNEL_CS,
            e.ist == 0,
            e._reserved == 0,
    {
        proof {
            assert((0x80u8 | 0x0eu8) == 0x8eu8) by (bit_vector);
        }
        Self::new(handler, GATE_INTERRUPT)
    }
}

/// The interrupt descriptor table: one entry per vector.
pub struct Idt {
    pub entries: [IdtEntry; IDT_ENTRIES],
}

impl Idt {
    /// A table in which no vector has a handler.
    pub fn new() -> (t: Idt)
        ensures
            forall|i: int| 0 <= i < IDT_ENTRIES ==> #[trigger] t.entries@[i] == missing_entry(),
    {
        let missing = IdtEntry::missing();
        Idt { entries: [missing; IDT_ENTRIES] }
    }
}

/// What the `lidt` instruction loads: the size of the table less one, and its address.
#[derive(Debug, Clone, Copy, PartialEq, Eq, Structural)]
pub struct IdtDescriptor {
    pub limit: u16,
    pub base: u64,
}

/// The table after the exception handlers are installed: interrupt gates for the divide
/// error, the general protection fault and the page fault, a trap gate for the breakpoint,
/// every other vector as it was.
pub open spec fn with_exception_handlers(entries: Seq<IdtEntry>, de: u64, bp: u64, gp: u64, pf: u64) -> Seq<IdtEntry> {
    entries.update(VECTOR_DIVIDE_ERROR as int, gate_entry(de, GATE_INTERRUPT))
        .update(VECTOR_BREAKPOINT as int, gate_entry(bp, GATE_TRAP))
        .update(VECTOR_GENERAL_PROTECTION as int, gate_entry(gp, GATE_INTERRUPT))
        .update(VECTOR_PAGE_FAULT as int, gate_entry(pf, GATE_INTERRUPT))
}

/// In a table that had no handler, installing the exception handlers makes exactly the
/// divide error, breakpoint, general protection and page fault vectors present, each
/// leading to its handler, the breakpoint through a trap gate and the others through
/// interrupt gates.
pub proof fn lemma_exception_handlers_installed(entries: Seq<IdtEntry>, de: u64, bp: u64, gp: u64, pf: u64)
    requires
        entries.len() == IDT_ENTRIES,
        forall|i: int| 0 <= i < IDT_ENTRIES ==> #[trigger] entries[i] == missing_entry(),
    ensures
        ({
            let t = with_exception_handlers(entries, de, bp, gp, pf);
            &&& t.len() == IDT_ENTRIES
            &&& forall|i: int| 0 <= i < IDT_ENTRIES ==> (is_present(#[trigger] t[i]) <==> (i
                == VECTOR_DIVIDE_ERROR || i == VECTOR_BREAKPOINT || i == VECTOR_GENERAL_PROTECTION
                || i == VECTOR_PAGE_FAULT))
            &&& handler_address(t[VECTOR_DIVIDE_ERROR as int]) == de
            &&& handler_address(t[VECTOR_BREAKPOINT as int]) == bp
            &&& handler_address(t[VECTOR_GENERAL_PROTECTION as int]) == gp
            &&& handler_address(t[VECTOR_PAGE_FAULT as int]) == pf
            &&& t[VECTOR_DIVIDE_ERROR as int].type_attr & 0x0fu8 == GATE_INTERRUPT
            &&& t[VECTOR_BREAKPOINT as int].type_attr & 0x0fu8 == GATE_TRAP
            &&& t[VECTOR_GENERAL_PROTECTION as int].type_attr & 0x0fu8 == GATE_INTERRUPT
            &&& t[VECTOR_PAGE_FAULT as int].type_attr & 0x0fu8 == GATE_INTERRUPT
        }),
{
    lemma_gate_entry_fields(de, GATE_INTERRUPT);
    lemma_gate_entry_fields(bp, GATE_TRAP);
    lemma_gate_entry_fields(gp, GATE_INTERRUPT);
    lemma_gate_entry_fields(pf, GATE_INTERRUPT);
    assert(GATE_INTERRUPT & 0x0fu8 == GATE_INTERRUPT) by (bit_vector);
    assert(GATE_TRAP & 0x0fu8 == GATE_TRAP) by (bit_vector);
    assert(!is_present(missing_entry())) by {
        assert(0u8 & 0x80u8 == 0) by (bit_vector);
    }
}

/// Installs the handlers at `de`, `bp`, `gp` and `pf` for the divide error, breakpoint,
/// general protection and page fault exceptions in `idt`, and returns the descriptor that
/// loads the table when it lies at `base`.
pub fn init_idt(idt: &mut Idt, de: u64, bp: u64, gp: u64, pf: u64, base: u64) -> (d: IdtDescriptor)
    ensures
        final(idt).entries@ == with_exception_handlers(old(idt).entries@, de, bp, gp, pf),
        d.limit == IDT_ENTRIES * IDT_ENTRY_SIZE - 1,
        d.base == base,
{
    idt.entries[VECTOR_DIVIDE_ERROR] = IdtEntry::new_interrupt(de);
    idt.entries[VECTOR_BREAKPOINT] = IdtEntry::new_trap(bp);
    idt.entries[VECTOR_GENERAL_PROTECTION] = IdtEntry::new_interrupt(gp);
    idt.entries[VECTOR_PAGE_FAULT] = IdtEntry::new_interrupt(pf);
    IdtDescriptor { limit: (IDT_ENTRIES * IDT_ENTRY_SIZE - 1) as u16, base }
}

/// The exceptions that the kernel handles.
#[derive(Debug, Clone, Copy, PartialEq, Eq, Structural)]
pub enum ExceptionKind {
    /// Divide error (#DE).
    DivideError,
    /// Breakpoint (#BP).
    Breakpoint,
    /// General protection fault (#GP).
    GeneralProtection,
    /// Page fault (#PF) at the faulting address, which the processor leaves in CR2.
    PageFault { fault_address: u64 },
}

impl ExceptionKind {
    /// Whether execution goes on after the handler: only a breakpoint, a trap, returns;
    /// the handlers of the faults halt.
    pub fn resumes(self) -> (r: bool)
        ensures
            r == (self == ExceptionKind::Breakpoint),
    {
        match self {
            ExceptionKind::Breakpoint => true,
            _ => false,
        }
    }
}

/// `prefix` followed by the decimal numeral of `n`.
pub open spec fn labelled(prefix: &str, n: u64) -> Seq<u8> {
    prefix.spec_bytes() + decimal_digits(n as nat)
}

/// The lines that the handler of `kind` shows for `frame`. Each number is written in
/// decimal after its `0x` label.
pub open spec fn report_lines(kind: ExceptionKind, frame: ExceptionStackFrame) -> Seq<Seq<u8>> {
    match kind {
        ExceptionKind::DivideError => seq![
            "--- EXCEPTION: DIVIDE BY ZERO (#DE) ---".spec_bytes(),
            labelled("Instruction Pointer (RIP): 0x", frame.rip),
            labelled("Stack Pointer (RSP):       0x", frame.rsp),
            labelled("RAX: 0x", frame.rax) + labelled(" | RBX: 0x", frame.rbx),
        ],
        ExceptionKind::Breakpoint => seq![
            "--- BREAKPOINT (#BP) ---".spec_bytes(),
            labelled("Resuming execution after RIP: 0x", frame.rip),
        ],
        ExceptionKind::GeneralProtection => seq![
            "--- GENERAL PROTECTION FAULT (#GP) ---".spec_bytes(),
            labelled("Error Code:                0x", frame.error_code),
            labelled("Failing Instruction (RIP): 0x", frame.rip),
        ],
        ExceptionKind::PageFault { fault_address } => seq![
            "--- PAGE FAULT (#PF) ---".spec_bytes(),
            labelled("Faulting Memory Address:   0x", fault_address),
            labelled("Error Code Bits:           0x", frame.error_code),
            labelled("Failing Instruction (RIP): 0x", frame.rip),
        ],
    }
}

/// `line` is the text `label` followed by the decimal numeral of `value`, so that what
/// follows the label reads back as `value`.
pub open spec fn shows_number(line: Seq<u8>, label: &str, value: u64) -> bool {
    &&& line == label.spec_bytes() + decimal_digits(value as nat)
    &&& decimal_value(line.skip(label.spec_bytes().len() as int)) == value
}

proof fn lemma_shows_number(label: &str, value: u64)
    ensures
        shows_number(label.spec_bytes() + decimal_digits(value as nat), label, value),
{
    let l = label.spec_bytes();
    let d = decimal_digits(value as nat);
    assert((l + d).skip(l.len() as int) =~= d);
    lemma_decimal_digits(value as nat);
}

/// Each report is its header followed by lines that show, after their label, the very
/// register (or faulting address) that the label names: the divide error shows RIP, RSP,
/// then RAX and RBX; the breakpoint RIP; the general protection fault the error code,
/// then RIP; the page fault the faulting address, the error code, then RIP.
pub proof fn lemma_report_shows_named_registers(frame: ExceptionStackFrame, fault_address: u64)
    ensures
        ({
            let r = report_lines(ExceptionKind::DivideError, frame);
            let rax = "RAX: 0x".spec_bytes() + decimal_digits(frame.rax as nat);
            &&& r.len() == 4
            &&& r[0] == "--- EXCEPTION: DIVIDE BY ZERO (#DE) ---".spec_bytes()
            &&& shows_number(r[1], "Instruction Pointer (RIP): 0x", frame.rip)
            &&& shows_number(r[2], "Stack Pointer (RSP):       0x", frame.rsp)
            &&& shows_number(r[3].take(rax.len() as int), "RAX: 0x", frame.rax)
            &&& shows_number(r[3].skip(rax.len() as int), " | RBX: 0x", frame.rbx)
            &&& r[3] == rax + " | RBX: 0x".spec_bytes() + decimal_digits(frame.rbx as nat)
        }),
        ({
            let r = report_lines(ExceptionKind::Breakpoint, frame);
            &&& r.len() == 2
            &&& r[0] == "--- BREAKPOINT (#BP) ---".spec_bytes()
            &&& shows_number(r[1], "Resuming execution after RIP: 0x", frame.rip)
        }),
        ({
            let r = report_lines(ExceptionKind::GeneralProtection, frame);
            &&& r.len() == 3
            &&& r[0] == "--- GENERAL PROTECTION FAULT (#GP) ---".spec_bytes()
            &&& shows_number(r[1], "Error Code:                0x", frame.error_code)
            &&& shows_number(r[2], "Failing Instruction (RIP): 0x", frame.rip)
        }),
        ({
            let r = report_lines(ExceptionKind::PageFault { fault_address }, frame);
            &&& r.len() == 4
            &&& r[0] == "--- PAGE FAULT (#PF) ---".spec_bytes()
            &&& shows_number(r[1], "Faulting Memory Address:   0x", fault_address)
            &&& shows_number(r[2], "Error Code Bits:           0x", frame.error_code)
            &&& shows_number(r[3], "Failing Instruction (RIP): 0x", frame.rip)
        }),
{
    lemma_shows_number("Instruction Pointer (RIP): 0x", frame.rip);
    lemma_shows_number("Stack Pointer (RSP):       0x", frame.rsp);
    lemma_shows_number("RAX: 0x", frame.rax);
    lemma_shows_number(" | RBX: 0x", frame.rbx);
    lemma_shows_number("Resuming execution after RIP: 0x", frame.rip);
    lemma_shows_number("Error Code:                0x", frame.error_code);
    lemma_shows_number("Failing Instruction (RIP): 0x", frame.rip);
    lemma_shows_number("Faulting Memory Address:   0x", fault_address);
    lemma_shows_number("Error Code Bits:           0x", frame.error_code);
    let rax = "RAX: 0x".spec_bytes() + decimal_digits(frame.rax as nat);
    let rbx = " | RBX: 0x".spec_bytes() + decimal_digits(frame.rbx as nat);
    let r3 = report_lines(ExceptionKind::DivideError, frame)[3];
    assert(r3 == rax + rbx);
    assert(r3.take(rax.len() as int) =~= rax);
    assert(r3.skip(rax.len() as int) =~= rbx);
    assert(rax + " | RBX: 0x".spec_bytes() + decimal_digits(frame.rbx as nat) =~= rax + rbx);
}

/// Appends the bytes of `s` to `out`.
fn push_str(out: &mut Vec<u8>, s: &str)
    ensures
        final(out)@ == old(out)@ + s.spec_bytes(),
{
    let bytes = s.as_bytes();
    let ghost start = out@;
    let mut i: usize = 0;
    while i < bytes.len()
        invariant
            bytes@ == s.spec_bytes(),
            0 <= i <= bytes@.len(),
            out@ == start + bytes@.take(i as int),
        decreases bytes@.len() - i,
    {
        proof {
            assert(bytes@.take(i + 1) =~= bytes@.take(i as int).push(bytes@[i as int]));
        }
        out.push(bytes[i]);
        i += 1;
    }
    proof {
        assert(bytes@.take(i as int) =~= bytes@);
    }
}

/// A line of `label` followed by the decimal numeral of `n`.
fn labelled_line(label: &str, n: u64) -> (line: Vec<u8>)
    ensures
        line@ == labelled(label, n),
{
    let mut line: Vec<u8> = Vec::new();
    push_str(&mut line, label);
    push_decimal(&mut line, n);
    proof {
        assert(Seq::<u8>::empty() + label.spec_bytes() =~= label.spec_bytes());
    }
    line
}

/// A line of `text`.
fn text_line(text: &str) -> (line: Vec<u8>)
    ensures
        line@ == text.spec_bytes(),
{
    let mut line: Vec<u8> = Vec::new();
    push_str(&mut line, text);
    proof {
        assert(Seq::<u8>::empty() + text.spec_bytes() =~= text.spec_bytes());
    }
    line
}

/// The lines that the handler of `kind` shows for the registers in `frame`.
pub fn exception_report(kind: ExceptionKind, frame: &ExceptionStackFrame) -> (lines: Vec<Vec<u8>>)
    ensures
        lines@.len() == report_lines(kind, *frame).len(),
        forall|i: int| 0 <= i < lines@.len() ==> #[trigger] lines@[i]@ == report_lines(kind, *frame)[i],
{
    let mut lines: Vec<Vec<u8>> = Vec::new();
    match kind {
        ExceptionKind::DivideError => {
            lines.push(text_line("--- EXCEPTION: DIVIDE BY ZERO (#DE) ---"));
            lines.push(labelled_line("Instruction Pointer (RIP): 0x", frame.rip));
            lines.push(labelled_line("Stack Pointer (RSP):       0x", frame.rsp));
            let mut regs = labelled_line("RAX: 0x", frame.rax);
            push_str(&mut regs, " | RBX: 0x");
            push_decimal(&mut regs, frame.rbx);
            proof {
                assert(regs@ =~= labelled("RAX: 0x", frame.rax) + labelled(" | RBX: 0x", frame.rbx));
            }
            lines.push(regs);
        },
        ExceptionKind::Breakpoint => {
            lines.push(text_line("--- BREAKPOINT (#BP) ---"));
            lines.push(labelled_line("Resuming execution after RIP: 0x", frame.rip));
        },
        ExceptionKind::GeneralProtection => {
            lines.push(text_line("--- GENERAL PROTECTION FAULT (#GP) ---"));
            lines.push(labelled_line("Error Code:                0x", frame.error_code));
            lines.push(labelled_line("Failing Instruction (RIP): 0x", frame.rip));
        },
        ExceptionKind::PageFault { fault_address } => {
            lines.push(text_line("--- PAGE FAULT (#PF) ---"));
            lines.push(labelled_line("Faulting Memory Address:   0x", fault_address));
            lines.push(labelled_line("Error Code Bits:           0x", frame.error_code));
            lines.push(labelled_line("Failing Instruction (RIP): 0x", frame.rip));
        },
    }
    lines
}

} // verus!
