//! One-time codes: six decimal digits per user, kept in the key-value store
//! for five minutes.
//!
//! A code is a short-lived shared secret. Nothing keeps two users, or two
//! requests of one user, from drawing the same code, and a new code for a
//! user replaces the one before.

use vstd::prelude::*;
use vstd::string::*;
use crate::decimal::{
    all_digits,
    ascii_bytes,
    decimal_i32,
    lemma_digits_are_ascii,
    lemma_signed_decimal_injective,
    lemma_zero_padded_shape,
    signed_decimal,
    zero_padded,
    zero_padded_u64,
};
use crate::store::{archive_key_text, store_after, StoreModel, StoreWrite, StoreWriteView};

verus! {

/// Seconds for which the store keeps a code.
pub const OTP_TTL_SECONDS: u64 = 300;

/// Number of distinct codes: a code is a number in `0..OTP_CODE_SPACE`.
pub const OTP_CODE_SPACE: u32 = 1_000_000;

/// Number of digits in a code.
pub const OTP_CODE_WIDTH: usize = 6;

/// A code issued to a user.
#[derive(Clone, Debug, PartialEq, Eq)]
pub struct OtpRecord {
    /// The user the code is for.
    pub user_id: i32,
    /// The code: six decimal digits, zeros on the left.
    pub code: String,
}

/// The mathematical content of an `OtpRecord`.
pub struct OtpRecordView {
    pub user_id: i32,
    pub code: Seq<char>,
}

impl View for OtpRecord {
    type V = OtpRecordView;

    open spec fn view(&self) -> OtpRecordView {
        OtpRecordView { user_id: self.user_id, code: self.code@ }
    }
}

/// The text `otp:`, which starts every code key.
pub open spec fn otp_prefix() -> Seq<char> {
    "otp:"@
}

/// The key under which the code of `user_id` is stored: `otp:` and the user
/// id in decimal.
pub open spec fn otp_key_text(user_id: i32) -> Seq<char> {
    otp_prefix() + signed_decimal(user_id as int)
}

/// The code that the random number `draw` gives: `draw` reduced to the code
/// space, as six digits.
pub open spec fn otp_code_text(draw: u32) -> Seq<char> {
    zero_padded((draw % OTP_CODE_SPACE) as nat, OTP_CODE_WIDTH as nat)
}

/// `code` is a text of exactly six decimal digits.
pub open spec fn is_otp_code(code: Seq<char>) -> bool {
    code.len() == OTP_CODE_WIDTH && all_digits(code)
}

/// The record issued to `user_id` when the random number is `draw`.
pub open spec fn otp_record_of(user_id: i32, draw: u32) -> OtpRecordView {
    OtpRecordView { user_id, code: otp_code_text(draw) }
}

/// The write that stores a record: the code's bytes under the user's key,
/// expiring after `OTP_TTL_SECONDS`.
pub open spec fn otp_write_of(record: OtpRecordView) -> StoreWriteView {
    StoreWriteView {
        key: otp_key_text(record.user_id),
        value: vstd::utf8::encode_utf8(record.code),
        expiry_seconds: Some(OTP_TTL_SECONDS),
    }
}

/// A source of random numbers: calls `rand::random::<u32>()`, which draws
/// from the thread-local generator. Nothing is claimed of the number drawn;
/// any `u32` may come back, and two calls need not agree. The generator
/// panics if the operating system cannot seed it.
#[verifier::external_body]
fn random_u32() -> (draw: u32) {
    rand::random::<u32>()
}

/// Builds the store key of a user's code.
pub fn otp_key(user_id: i32) -> (key: String)
    ensures
        key@ == otp_key_text(user_id),
{
    let mut key = String::from_str("otp:");
    let digits = decimal_i32(user_id);
    key.append(digits.as_str());
    key
}

/// Turns a random number into a code: the number modulo one million, padded
/// with zeros on the left to six digits.
pub fn otp_code(draw: u32) -> (code: String)
    ensures
        code@ == otp_code_text(draw),
        is_otp_code(code@),
{
    proof {
        lemma_zero_padded_shape((draw % OTP_CODE_SPACE) as nat, OTP_CODE_WIDTH as nat);
    }
    let reduced: u32 = draw % OTP_CODE_SPACE;
    zero_padded_u64(reduced as u64, OTP_CODE_WIDTH)
}

/// Issues the code that the random number `draw` gives to `user_id`.
pub fn issue_otp(user_id: i32, draw: u32) -> (record: OtpRecord)
    ensures
        record@ == otp_record_of(user_id, draw),
        is_otp_code(record.code@),
{
    OtpRecord { user_id, code: otp_code(draw) }
}

/// Issues a fresh code to `user_id`: draws a random number and turns it into
/// a code. Which code comes out is up to the draw; it is always one of the
/// million six-digit codes.
pub fn handle_otp(user_id: i32) -> (record: OtpRecord)
    ensures
        exists|draw: u32| record@ == otp_record_of(user_id, draw),
        is_otp_code(record.code@),
{
    let draw = random_u32();
    let record = issue_otp(user_id, draw);
    assert(record@ == otp_record_of(user_id, draw));
    record
}

impl OtpRecord {
    /// Describes the write that stores this record: the code under
    /// `otp:<user_id>`, for `OTP_TTL_SECONDS` seconds.
    pub fn store_write(&self) -> (write: StoreWrite)
        ensures
            write@ == otp_write_of(self@),
    {
        StoreWrite {
            key: otp_key(self.user_id),
            value: self.code.as_str().as_bytes_vec(),
            expiry_seconds: Some(OTP_TTL_SECONDS),
        }
    }
}

/// A six-digit code is stored as six bytes, the ASCII digits themselves.
pub proof fn lemma_code_bytes(code: Seq<char>)
    requires
        is_otp_code(code),
    ensures
        vstd::utf8::encode_utf8(code) == ascii_bytes(code),
        vstd::utf8::encode_utf8(code).len() == OTP_CODE_WIDTH,
{
    lemma_digits_are_ascii(code);
    vstd::utf8::is_ascii_chars_encode_utf8(code);
    assert(vstd::utf8::encode_utf8(code) =~= ascii_bytes(code));
}

/// Every random number gives a code of exactly six decimal digits.
pub proof fn lemma_code_is_six_digits(draw: u32)
    ensures
        is_otp_code(otp_code_text(draw)),
{
    lemma_zero_padded_shape((draw % OTP_CODE_SPACE) as nat, OTP_CODE_WIDTH as nat);
}

/// Two users share a code key only if they are the same user.
pub proof fn lemma_otp_key_injective(a: i32, b: i32)
    requires
        otp_key_text(a) == otp_key_text(b),
    ensures
        a == b,
{
    let ka = otp_key_text(a);
    let kb = otp_key_text(b);
    let n = otp_prefix().len() as int;
    assert(signed_decimal(a as int) =~= ka.subrange(n, ka.len() as int));
    assert(signed_decimal(b as int) =~= kb.subrange(n, kb.len() as int));
    lemma_signed_decimal_injective(a as int, b as int);
}

/// The archive of a payload and the code of a user never share a key, so
/// neither write can replace the other.
pub proof fn lemma_keys_differ(user_id: i32, delivery_tag: u64)
    ensures
        archive_key_text(delivery_tag) != otp_key_text(user_id),
{
    reveal_strlit("notification:");
    reveal_strlit("otp:");
    assert(archive_key_text(delivery_tag)[0] == 'n');
    assert(otp_key_text(user_id)[0] == 'o');
}

/// After the write of a record, the store holds under `otp:<user_id>` the six
/// digits of the code, expiring after 300 seconds, whatever the key held
/// before.
pub proof fn lemma_otp_is_stored(store: StoreModel, user_id: i32, draw: u32)
    ensures
        ({
            let record = otp_record_of(user_id, draw);
            let after = store_after(store, otp_write_of(record));
            &&& after.dom().contains(otp_key_text(user_id))
            &&& after[otp_key_text(user_id)].value == ascii_bytes(record.code)
            &&& after[otp_key_text(user_id)].value.len() == 6
            &&& is_otp_code(record.code)
            &&& after[otp_key_text(user_id)].expiry_seconds == Some(300u64)
        }),
{
    lemma_code_is_six_digits(draw);
    lemma_code_bytes(otp_code_text(draw));
}

} // verus!
