use assemble::safety::{execution_block_message, SafetyGuardrails};
use assemble::util::{bytes_hex, clean_input, parse_hex_bytes, parse_reg_kv};

#[test]
fn reg_kv_forms() {
    assert_eq!(parse_reg_kv(" RAX = 42 ").unwrap(), ("rax".to_string(), 42));
    assert_eq!(parse_reg_kv("rbx=0x10").unwrap(), ("rbx".to_string(), 16));
    assert_eq!(parse_reg_kv("rcx=0XfF").unwrap(), ("rcx".to_string(), 255));
    assert_eq!(parse_reg_kv("rax").unwrap_err(), "Expected REG=VAL format (e.g. rax=42)");
    assert_eq!(parse_reg_kv("a=1=2").unwrap_err(), "Expected REG=VAL format (e.g. rax=42)");
    assert_eq!(parse_reg_kv("rax=12z").unwrap_err(), "invalid digit found in string");
    assert_eq!(parse_reg_kv("rax=").unwrap_err(), "cannot parse integer from empty string");
    assert_eq!(parse_reg_kv("rax=18446744073709551616").unwrap_err(), "number too large to fit in target type");
}

#[test]
fn hex_bytes_parse_and_print() {
    assert_eq!(parse_hex_bytes("48 31 c0 C3"), vec![0x48, 0x31, 0xC0, 0xC3]);
    assert_eq!(parse_hex_bytes("0x4, g8 3"), vec![0x04, 0x83]);
    assert_eq!(parse_hex_bytes("abc"), vec![0xAB]);
    assert!(parse_hex_bytes("").is_empty());
    assert_eq!(bytes_hex(&[0x0a, 0xff, 0x00]), "0a ff 00");
    assert_eq!(bytes_hex(&[]), "");
}

#[test]
fn input_cleaning() {
    assert_eq!(clean_input("\u{feff}\u{feff}mov rax, 1\\nret", false), "mov rax, 1\nret");
    assert_eq!(clean_input("mov rax, 1\\nret", true), "mov rax, 1\\nret");
    assert_eq!(clean_input("a\\\\nb", false), "a\\\nb");
}

#[test]
fn block_message_for_unsafe_code() {
    let g = SafetyGuardrails::new();
    let bad = g.audit("hlt");
    assert_eq!(
        execution_block_message(&bad).unwrap(),
        format!("Execution blocked by Safety Guardrail: {}", bad.summary)
    );
    assert!(execution_block_message(&g.audit("ret")).is_none());
}
