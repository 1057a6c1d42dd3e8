//! What differs from call to call: identifiers and the time.

use vstd::prelude::*;

verus! {

/// A digit of a number to the base sixteen, in lower case.
pub open spec fn hex_digit(c: char) -> bool {
    '0' <= c <= '9' || 'a' <= c <= 'f'
}

/// The digits of a random (version 4) UUID: thirty-two of them, the version and the variant in
/// their places.
pub open spec fn uuid_digits(s: Seq<char>) -> bool {
    &&& s.len() == 32
    &&& forall|i: int| 0 <= i < s.len() ==> hex_digit(#[trigger] s[i])
    &&& s[12] == '4'
    &&& s[16] == '8' || s[16] == '9' || s[16] == 'a' || s[16] == 'b'
}

/// An identifier with that prefix.
pub open spec fn identifier(s: Seq<char>, prefix: Seq<char>) -> bool {
    exists|digits: Seq<char>| #[trigger] uuid_digits(digits) && s == prefix + "_"@ + digits
}

/// `Uuid::new_v4` of `uuid` in its simple form. The digits are random but for those that name the
/// version and the variant; that no two calls agree is not claimed.
#[verifier::external_body]
fn random_digits() -> (r: String)
    ensures
        uuid_digits(r@),
{
    uuid::Uuid::new_v4().simple().to_string()
}

/// A new identifier with that prefix.
pub fn new_id(prefix: &str) -> (r: String)
    ensures
        identifier(r@, prefix@),
{
    let digits = random_digits();
    let mut id = prefix.to_owned();
    id.append("_");
    id.append(digits.as_str());
    id
}

/// A point in time.
#[verifier::external_type_specification]
#[verifier::external_body]
pub struct ExSystemTime(std::time::SystemTime);

/// That the clock stands before the time it is measured from.
#[verifier::external_type_specification]
#[verifier::external_body]
pub struct ExSystemTimeError(std::time::SystemTimeError);

/// `SystemTime::now` of std: what the clock of the machine says. Nothing is claimed of it.
pub assume_specification[ std::time::SystemTime::now ]() -> std::time::SystemTime
;

/// How long a point in time comes after the start of 1970; `None` where it comes before.
pub uninterp spec fn since_epoch(t: std::time::SystemTime) -> Option<std::time::Duration>;

/// The whole seconds of a span of time.
pub uninterp spec fn whole_seconds(d: std::time::Duration) -> u64;

/// `SystemTime::duration_since` of std, from its `UNIX_EPOCH`: the span since the start of 1970,
/// refused where it is negative.
#[verifier::external_body]
fn duration_since_epoch(t: &std::time::SystemTime) -> (r: Result<
    std::time::Duration,
    std::time::SystemTimeError,
>)
    ensures
        match r {
            Ok(d) => since_epoch(*t) == Some(d),
            Err(_) => since_epoch(*t) is None,
        },
{
    t.duration_since(std::time::UNIX_EPOCH)
}

/// `Duration::as_secs` of std: the whole seconds.
pub assume_specification[ std::time::Duration::as_secs ](d: &std::time::Duration) -> (r: u64)
    ensures
        r == whole_seconds(*d),
;

/// A point in time in whole seconds since the start of 1970; zero where it comes before.
pub open spec fn unix_time(t: std::time::SystemTime) -> i64 {
    match since_epoch(t) {
        Some(d) => whole_seconds(d) as i64,
        None => 0,
    }
}

/// Counts the whole seconds from the start of 1970 to a point in time.
pub fn timestamp(t: std::time::SystemTime) -> (r: i64)
    ensures
        r == unix_time(t),
{
    match duration_since_epoch(&t) {
        Ok(d) => d.as_secs() as i64,
        Err(_) => 0,
    }
}

/// The time now, in seconds since the start of 1970. What the clock says is not stated.
pub fn now_secs() -> (r: i64)
    ensures
        exists|t: std::time::SystemTime| r == #[trigger] unix_time(t),
{
    timestamp(std::time::SystemTime::now())
}

} // verus!
