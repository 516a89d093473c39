//! Production assembly templates: drivers, interrupt handlers, locks, math
//! kernels and standalone programs.
use vstd::prelude::*;
use crate::text::{ascii_lower_text, chars_of, eq_str, is_ascii_text, to_lowercase, unicode_lowercase};
use crate::types::Arch;

verus! {

pub const UART_NAME: &'static str = "baremetal-uart";
pub const UART_DESCRIPTION: &'static str = "16550A UART Bare-Metal Serial Device Driver with Baud Divisor & FIFO";
pub const UART_CODE: &'static str = r#"; ==============================================================================
; Assemble Template: 16550A UART Serial Device Driver (Bare-Metal x86_64)
; ==============================================================================
default rel
bits 64

%define COM1_BASE 0x3F8
%define UART_DATA (COM1_BASE + 0)
%define UART_IER  (COM1_BASE + 1)
%define UART_FCR  (COM1_BASE + 2)
%define UART_LCR  (COM1_BASE + 3)
%define UART_MCR  (COM1_BASE + 4)
%define UART_LSR  (COM1_BASE + 5)

section .text
global uart_init
global uart_putc
global uart_puts
global uart_getc

; void uart_init(void)
uart_init:
    ; 1. Disable all interrupts
    mov dx, UART_IER
    xor al, al
    out dx, al

    ; 2. Enable DLAB (set baud rate divisor)
    mov dx, UART_LCR
    mov al, 0x80
    out dx, al

    ; 3. Set divisor to 3 (38400 baud) - Low byte: 0x03, High byte: 0x00
    mov dx, UART_DATA
    mov al, 0x03
    out dx, al
    mov dx, UART_IER
    xor al, al
    out dx, al

    ; 4. Set 8 bits, no parity, 1 stop bit (8N1) and clear DLAB
    mov dx, UART_LCR
    mov al, 0x03
    out dx, al

    ; 5. Enable FIFO, clear TX/RX queues, 14-byte threshold
    mov dx, UART_FCR
    mov al, 0xC7
    out dx, al

    ; 6. Set RTS/DSR set
    mov dx, UART_MCR
    mov al, 0x0B
    out dx, al
    ret

; void uart_putc(char c [cl / dil])
uart_putc:
    mov r8b, cl
.wait_tx:
    mov dx, UART_LSR
    in al, dx
    test al, 0x20           ; LSR bit 5: Empty Transmitter Holding Register
    pause
    jz .wait_tx

    mov dx, UART_DATA
    mov al, r8b
    out dx, al
    ret

; void uart_puts(const char* str [rcx / rdi])
uart_puts:
    mov r9, rcx
.loop:
    mov cl, byte [r9]
    test cl, cl
    jz .done
    push r9
    sub rsp, 40
    call uart_putc
    add rsp, 40
    pop r9
    inc r9
    jmp .loop
.done:
    ret

; char uart_getc(void) -> AL
uart_getc:
.wait_rx:
    mov dx, UART_LSR
    in al, dx
    test al, 0x01           ; LSR bit 0: Data Ready
    pause
    jz .wait_rx

    mov dx, UART_DATA
    in al, dx
    ret
"#;

pub const ISR_NAME: &'static str = "kernel-isr";
pub const ISR_DESCRIPTION: &'static str = "Production x86_64 Interrupt Service Routine (ISR) Frame with 16-Byte Align & IRETQ";
pub const ISR_CODE: &'static str = r#"; ==============================================================================
; Assemble Template: x86_64 Hardware Interrupt Service Routine (ISR)
; ==============================================================================
default rel
bits 64

extern kernel_interrupt_handler

section .text
global isr_hardware_entry

isr_hardware_entry:
    ; 1. CPU has automatically pushed SS, RSP, RFLAGS, CS, RIP (and error code if applicable)
    ; 2. Save all volatile and non-volatile general-purpose registers
    push rax
    push rbx
    push rcx
    push rdx
    push rsi
    push rdi
    push rbp
    push r8
    push r9
    push r10
    push r11
    push r12
    push r13
    push r14
    push r15

    ; 3. Align stack pointer to 16-byte boundary and pass stack frame pointer in RCX
    mov rcx, rsp            ; 1st argument: InterruptContext*
    mov rbp, rsp
    and rsp, -16            ; Ensure 16-byte alignment before C/Rust call
    sub rsp, 32             ; Windows x64 shadow space (if calling Windows kernel API)

    call kernel_interrupt_handler

    ; 4. Restore stack pointer and all registers
    mov rsp, rbp

    pop r15
    pop r14
    pop r13
    pop r12
    pop r11
    pop r10
    pop r9
    pop r8
    pop rbp
    pop rdi
    pop rsi
    pop rdx
    pop rcx
    pop rbx
    pop rax

    ; 5. Atomic return from interrupt handler (restores RIP, CS, RFLAGS, RSP, SS)
    iretq
"#;

pub const SPINLOCK_NAME: &'static str = "spinlock";
pub const SPINLOCK_DESCRIPTION: &'static str = "Hardware-Optimized Multi-Core Spinlock with PAUSE Backoff & Memory Barrier";
pub const SPINLOCK_CODE: &'static str = r#"; ==============================================================================
; Assemble Template: Atomic Spinlock with PAUSE Backoff
; ==============================================================================
default rel
bits 64

section .text
global spinlock_acquire
global spinlock_release

; void spinlock_acquire(volatile uint32_t* lock [rcx])
spinlock_acquire:
.try_acquire:
    ; Test-and-set bit 0 atomically using LOCK BTS (Bit Test and Set)
    lock bts dword [rcx], 0
    jnc .acquired           ; Carry flag is clear if lock was previously 0 (now locked)

.spin_wait:
    ; Busy-wait locally reading without locked bus transactions
    pause                   ; Hardware hint to CPU pipeline to avoid memory-order violation
    test dword [rcx], 1
    jnz .spin_wait
    jmp .try_acquire

.acquired:
    mfence                  ; Memory barrier: prevent subsequent memory reads/writes from reordering before lock
    ret

; void spinlock_release(volatile uint32_t* lock [rcx])
spinlock_release:
    sfence                  ; Memory barrier: flush all pending stores before unlocking
    mov dword [rcx], 0      ; Clear lock bit atomically
    ret
"#;

pub const BIGNUM_NAME: &'static str = "bignum-math";
pub const BIGNUM_DESCRIPTION: &'static str = "128-Bit Multi-Precision Integer Arithmetic Kernel (ADD/ADC, SUB/SBB, MUL)";
pub const BIGNUM_CODE: &'static str = r#"; ==============================================================================
; Assemble Template: 128-Bit Multi-Precision Arithmetic Kernel
; ==============================================================================
default rel
bits 64

section .text
global add_128
global sub_128
global mul_128

; uint64_t add_128(uint64_t a_lo [rcx], uint64_t a_hi [rdx], uint64_t b_lo [r8], uint64_t b_hi [r9], uint64_t* out_hi [stack])
; Returns low 64 bits in RAX, writes high 64 bits to *out_hi
add_128:
    mov rax, rcx
    add rax, r8             ; add low 64 bits (sets CF)
    adc rdx, r9             ; add high 64 bits with carry flag (CF)
    ; Store high bits if pointer supplied
    mov r10, [rsp + 40]
    test r10, r10
    jz .done
    mov [r10], rdx
.done:
    ret

; uint64_t sub_128(uint64_t a_lo [rcx], uint64_t a_hi [rdx], uint64_t b_lo [r8], uint64_t b_hi [r9], uint64_t* out_hi [stack])
sub_128:
    mov rax, rcx
    sub rax, r8             ; subtract low 64 bits (sets CF borrow)
    sbb rdx, r9             ; subtract high 64 bits with borrow flag
    mov r10, [rsp + 40]
    test r10, r10
    jz .done
    mov [r10], rdx
.done:
    ret

; void mul_64_to_128(uint64_t a [rcx], uint64_t b [rdx], uint64_t* out_lo [r8], uint64_t* out_hi [r9])
mul_64_to_128:
    mov rax, rcx
    mul rdx                 ; RDX:RAX = 128-bit unsigned product
    mov [r8], rax
    mov [r9], rdx
    ret
"#;

pub const CLI_NAME: &'static str = "standalone-cli";
pub const CLI_DESCRIPTION: &'static str = "Zero-CRT Standalone Windows x64 Console Application with Standard I/O";
pub const CLI_CODE: &'static str = r#"; ==============================================================================
; Assemble Template: Zero-CRT Standalone Windows x64 Console App
; ==============================================================================
default rel
bits 64

extern GetStdHandle
extern WriteFile
extern ExitProcess

%define STD_OUTPUT_HANDLE -11

section .data
msg: db "Hello, World from Assemble zero-CRT binary!", 10
msg_len equ $ - msg

section .bss
bytes_written: resd 1

section .text
global main

main:
    sub rsp, 40             ; Shadow space (32 bytes) + 8-byte alignment

    ; 1. Get stdout handle
    mov ecx, STD_OUTPUT_HANDLE
    call GetStdHandle
    mov rbx, rax

    ; 2. Write greeting message
    mov rcx, rbx
    lea rdx, [rel msg]
    mov r8d, msg_len
    lea r9, [rel bytes_written]
    mov qword [rsp + 32], 0
    call WriteFile

    ; 3. Exit process cleanly
    xor ecx, ecx
    call ExitProcess

    add rsp, 40
    ret
"#;

/// A template with its code.
#[derive(Debug, Clone)]
pub struct TemplateInfo {
    pub name: &'static str,
    pub description: &'static str,
    pub arch: Arch,
    pub code: &'static str,
}

/// The mathematical content of a template.
pub struct Template {
    pub name: Seq<char>,
    pub description: Seq<char>,
    pub arch: Arch,
    pub code: Seq<char>,
}

impl View for TemplateInfo {
    type V = Template;

    open spec fn view(&self) -> Template {
        Template { name: self.name@, description: self.description@, arch: self.arch, code: self.code@ }
    }
}

/// The template a lower-case name or alias selects.
pub open spec fn template_named(l: Seq<char>) -> Option<Template> {
    if l == "uart"@ || l == "baremetal-uart"@ || l == "16550"@ {
        Some(Template { name: UART_NAME@, description: UART_DESCRIPTION@, arch: Arch::X86_64, code: UART_CODE@ })
    } else if l == "isr"@ || l == "kernel-isr"@ || l == "interrupt"@ {
        Some(Template { name: ISR_NAME@, description: ISR_DESCRIPTION@, arch: Arch::X86_64, code: ISR_CODE@ })
    } else if l == "spinlock"@ || l == "lock"@ || l == "mutex"@ {
        Some(Template { name: SPINLOCK_NAME@, description: SPINLOCK_DESCRIPTION@, arch: Arch::X86_64, code: SPINLOCK_CODE@ })
    } else if l == "bignum"@ || l == "bignum-math"@ || l == "128bit"@ {
        Some(Template { name: BIGNUM_NAME@, description: BIGNUM_DESCRIPTION@, arch: Arch::X86_64, code: BIGNUM_CODE@ })
    } else if l == "cli"@ || l == "standalone-cli"@ || l == "windows-cli"@ {
        Some(Template { name: CLI_NAME@, description: CLI_DESCRIPTION@, arch: Arch::X86_64, code: CLI_CODE@ })
    } else {
        None
    }
}

/// The template a name or alias selects, in any case.
pub fn get_template(name: &str) -> (t: Option<TemplateInfo>)
    ensures
        match t {
            Some(info) => template_named(unicode_lowercase(name@)) == Some(info@),
            None => template_named(unicode_lowercase(name@)) is None,
        },
        is_ascii_text(name@) ==> match t {
            Some(info) => template_named(ascii_lower_text(name@)) == Some(info@),
            None => template_named(ascii_lower_text(name@)) is None,
        },
{
    let l = to_lowercase(&chars_of(name));
    if eq_str(&l, "uart") || eq_str(&l, "baremetal-uart") || eq_str(&l, "16550") {
        Some(TemplateInfo { name: UART_NAME, description: UART_DESCRIPTION, arch: Arch::X86_64, code: UART_CODE })
    } else if eq_str(&l, "isr") || eq_str(&l, "kernel-isr") || eq_str(&l, "interrupt") {
        Some(TemplateInfo { name: ISR_NAME, description: ISR_DESCRIPTION, arch: Arch::X86_64, code: ISR_CODE })
    } else if eq_str(&l, "spinlock") || eq_str(&l, "lock") || eq_str(&l, "mutex") {
        Some(TemplateInfo { name: SPINLOCK_NAME, description: SPINLOCK_DESCRIPTION, arch: Arch::X86_64, code: SPINLOCK_CODE })
    } else if eq_str(&l, "bignum") || eq_str(&l, "bignum-math") || eq_str(&l, "128bit") {
        Some(TemplateInfo { name: BIGNUM_NAME, description: BIGNUM_DESCRIPTION, arch: Arch::X86_64, code: BIGNUM_CODE })
    } else if eq_str(&l, "cli") || eq_str(&l, "standalone-cli") || eq_str(&l, "windows-cli") {
        Some(TemplateInfo { name: CLI_NAME, description: CLI_DESCRIPTION, arch: Arch::X86_64, code: CLI_CODE })
    } else {
        None
    }
}

/// One line of the template list.
#[derive(Debug, Clone)]
pub struct TemplateSummary {
    pub name: &'static str,
    pub description: &'static str,
    pub arch: &'static str,
    pub category: &'static str,
}

/// The mathematical content of a list line.
pub struct Summary {
    pub name: Seq<char>,
    pub description: Seq<char>,
    pub arch: Seq<char>,
    pub category: Seq<char>,
}

impl View for TemplateSummary {
    type V = Summary;

    open spec fn view(&self) -> Summary {
        Summary { name: self.name@, description: self.description@, arch: self.arch@, category: self.category@ }
    }
}

/// The list of templates, in the order shown.
pub open spec fn template_list() -> Seq<Summary> {
    seq![
        Summary { name: "baremetal-uart"@, description: "16550A UART Serial Device Driver with Baud Divisor & FIFO"@, arch: "x86_64"@, category: "Driver / Embedded"@ },
        Summary { name: "kernel-isr"@, description: "Production x86_64 Interrupt Service Routine (ISR) Frame with IRETQ"@, arch: "x86_64"@, category: "Kernel / OS"@ },
        Summary { name: "spinlock"@, description: "Hardware-Optimized Multi-Core Spinlock with PAUSE Backoff & Memory Barrier"@, arch: "x86_64"@, category: "Concurrency / Sync"@ },
        Summary { name: "bignum-math"@, description: "128-Bit Multi-Precision Integer Arithmetic Kernel (ADD/ADC, SUB/SBB, MUL)"@, arch: "x86_64"@, category: "Cryptography / Math"@ },
        Summary { name: "standalone-cli"@, description: "Zero-CRT Standalone Windows x64 Console Application with Standard I/O"@, arch: "x86_64"@, category: "User Applications"@ },
    ]
}

pub fn list_templates() -> (v: Vec<TemplateSummary>)
    ensures
        v@.map_values(|t: TemplateSummary| t@) == template_list(),
{
    let mut v: Vec<TemplateSummary> = Vec::new();
    v.push(TemplateSummary { name: "baremetal-uart", description: "16550A UART Serial Device Driver with Baud Divisor & FIFO", arch: "x86_64", category: "Driver / Embedded" });
    v.push(TemplateSummary { name: "kernel-isr", description: "Production x86_64 Interrupt Service Routine (ISR) Frame with IRETQ", arch: "x86_64", category: "Kernel / OS" });
    v.push(TemplateSummary { name: "spinlock", description: "Hardware-Optimized Multi-Core Spinlock with PAUSE Backoff & Memory Barrier", arch: "x86_64", category: "Concurrency / Sync" });
    v.push(TemplateSummary { name: "bignum-math", description: "128-Bit Multi-Precision Integer Arithmetic Kernel (ADD/ADC, SUB/SBB, MUL)", arch: "x86_64", category: "Cryptography / Math" });
    v.push(TemplateSummary { name: "standalone-cli", description: "Zero-CRT Standalone Windows x64 Console Application with Standard I/O", arch: "x86_64", category: "User Applications" });
    proof {
        assert(v@.map_values(|t: TemplateSummary| t@) =~= template_list());
    }
    v
}


/// Every template the catalogue lists can be fetched by its listed name, and
/// the template fetched carries that name and architecture.
/// The listed names are ASCII and already lower-case, so the lookup of
/// `get_template`, which lower-cases first, goes to the same entry.
pub proof fn law_listed_templates_resolve(i: int)
    requires
        0 <= i < template_list().len(),
    ensures
        is_ascii_text(template_list()[i].name),
        ascii_lower_text(template_list()[i].name) == template_list()[i].name,
        template_named(template_list()[i].name) is Some,
        template_named(template_list()[i].name)->0.name == template_list()[i].name,
        template_list()[i].arch == "x86_64"@,
        template_named(template_list()[i].name)->0.arch == Arch::X86_64,
{
    let n = template_list()[i].name;
    reveal_strlit("baremetal-uart");
    reveal_strlit("kernel-isr");
    reveal_strlit("spinlock");
    reveal_strlit("bignum-math");
    reveal_strlit("standalone-cli");
    assert(is_ascii_text(n)) by {
        assert(forall|j: int| 0 <= j < n.len() ==> (#[trigger] n[j] as u32) < 128);
    }
    assert(ascii_lower_text(n) =~= n);
    reveal_strlit("baremetal-uart");
    reveal_strlit("kernel-isr");
    reveal_strlit("spinlock");
    reveal_strlit("bignum-math");
    reveal_strlit("standalone-cli");
    reveal_strlit("uart");
    reveal_strlit("16550");
    reveal_strlit("isr");
    reveal_strlit("interrupt");
    reveal_strlit("lock");
    reveal_strlit("mutex");
    reveal_strlit("bignum");
    reveal_strlit("128bit");
    reveal_strlit("cli");
    reveal_strlit("windows-cli");
}

} // verus!
