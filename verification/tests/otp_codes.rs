use notification_worker::otp::{
    handle_otp, issue_otp, otp_code, otp_key, OtpRecord, OTP_CODE_SPACE, OTP_CODE_WIDTH,
    OTP_TTL_SECONDS,
};

fn is_six_digits(code: &str) -> bool {
    code.len() == 6 && code.bytes().all(|b| b.is_ascii_digit())
}

#[test]
fn the_constants_are_those_of_the_protocol() {
    assert_eq!(OTP_TTL_SECONDS, 300);
    assert_eq!(OTP_CODE_SPACE, 1_000_000);
    assert_eq!(OTP_CODE_WIDTH, 6);
}

#[test]
fn code_of_a_small_draw_is_padded_with_zeros() {
    assert_eq!(otp_code(0), "000000");
    assert_eq!(otp_code(7), "000007");
    assert_eq!(otp_code(42), "000042");
    assert_eq!(otp_code(123_456), "123456");
    assert_eq!(otp_code(999_999), "999999");
}

#[test]
fn code_of_a_large_draw_is_reduced_modulo_a_million() {
    assert_eq!(otp_code(1_000_000), "000000");
    assert_eq!(otp_code(1_000_042), "000042");
    assert_eq!(otp_code(u32::MAX), "967295");
}

#[test]
fn code_agrees_with_std_formatting() {
    let mut draw: u32 = 0;
    loop {
        assert_eq!(otp_code(draw), format!("{:06}", draw % 1_000_000));
        match draw.checked_add(9_999_991) {
            Some(next) => draw = next,
            None => break,
        }
    }
}

#[test]
fn key_is_the_prefix_and_the_user_id() {
    assert_eq!(otp_key(42), "otp:42");
    assert_eq!(otp_key(0), "otp:0");
    assert_eq!(otp_key(7), "otp:7");
    assert_eq!(otp_key(i32::MAX), "otp:2147483647");
}

#[test]
fn key_of_a_negative_user_id_keeps_the_sign() {
    assert_eq!(otp_key(-5), "otp:-5");
    assert_eq!(otp_key(i32::MIN), "otp:-2147483648");
}

#[test]
fn issued_record_holds_user_and_code() {
    let record = issue_otp(42, 1_234_567);
    assert_eq!(record, OtpRecord { user_id: 42, code: "234567".to_string() });
}

#[test]
fn store_write_of_a_record_sets_the_code_for_five_minutes() {
    let write = issue_otp(42, 5).store_write();
    assert_eq!(write.key, "otp:42");
    assert_eq!(write.value, b"000005".to_vec());
    assert_eq!(write.expiry_seconds, Some(300));
}

#[test]
fn handle_otp_gives_six_digits_every_time() {
    let mut i = 0;
    while i < 2_000 {
        let record = handle_otp(9);
        assert_eq!(record.user_id, 9);
        assert!(is_six_digits(&record.code), "not six digits: {:?}", record.code);
        i += 1;
    }
}

#[test]
fn handle_otp_does_not_always_give_the_same_code() {
    let first = handle_otp(1).code;
    let mut differs = false;
    let mut i = 0;
    while i < 200 {
        if handle_otp(1).code != first {
            differs = true;
        }
        i += 1;
    }
    assert!(differs);
}

#[test]
fn a_new_code_for_a_user_is_written_to_the_same_key() {
    let first = issue_otp(5, 111_111).store_write();
    let second = issue_otp(5, 222_222).store_write();
    assert_eq!(first.key, second.key);
    assert_ne!(first.value, second.value);
    assert_ne!(issue_otp(6, 111_111).store_write().key, first.key);
}
