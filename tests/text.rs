use xero_toolkit::text::{
    decimal_string, error_text, exit_code_text, failed_at_text, final_text, header_text,
    output_text, signed_decimal_string,
};

#[test]
fn decimal_rendering() {
    assert_eq!(decimal_string(0), "0");
    assert_eq!(decimal_string(7), "7");
    assert_eq!(decimal_string(42), "42");
    assert_eq!(decimal_string(1000), "1000");
    assert_eq!(signed_decimal_string(-7), "-7");
    assert_eq!(signed_decimal_string(127), "127");
    assert_eq!(signed_decimal_string(i32::MIN), "-2147483648");
}

#[test]
fn message_rendering() {
    assert_eq!(failed_at_text(1, 1), "Operation failed at step 1 of 1");
    assert_eq!(failed_at_text(12, 30), "Operation failed at step 12 of 30");
    assert_eq!(header_text(2, 3, "Build"), "\n=== Step 2/3: Build ===\n");
    assert_eq!(final_text(true, "Done"), "\n\u{2713} Done\n");
    assert_eq!(final_text(false, "Oops"), "\n\u{2717} Oops\n");
    assert_eq!(output_text("hi"), "hi\n");
    assert_eq!(exit_code_text(1), "\u{2717} Command failed with exit code: 1\n");
    assert_eq!(error_text("Failed to start command: ", "no such file"), "\u{2717} Failed to start command: no such file\n");
}
