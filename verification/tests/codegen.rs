use urllb::codegen::{generate, DEFAULT_CODE_LENGTH};

#[test]
fn generated_code_has_five_symbols() {
    assert_eq!(DEFAULT_CODE_LENGTH, 5);
    for _ in 0..200 {
        let code = generate();
        assert_eq!(code.chars().count(), 5);
        assert_eq!(code.len(), 5);
        assert!(code.chars().all(|c| c.is_ascii_alphanumeric() || c == '_' || c == '-'));
    }
}

#[test]
fn generated_codes_vary() {
    let first = generate();
    let mut different = false;
    for _ in 0..20 {
        if generate() != first {
            different = true;
        }
    }
    assert!(different);
}
