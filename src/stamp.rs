use vstd::prelude::*;
use crate::model::Timestamp;

verus! {

/// A lowercase hexadecimal digit.
pub open spec fn is_lower_hex(c: char) -> bool {
    ('0' <= c && c <= '9') || ('a' <= c && c <= 'f')
}

/// The hyphenated lowercase text of a version-7 UUID: hex digits in groups of
/// 8-4-4-4-12, the version digit `7` opening the third group and a variant
/// digit of `8`, `9`, `a` or `b` opening the fourth.
pub open spec fn uuid_v7_text(s: Seq<char>) -> bool {
    &&& s.len() == 36
    &&& forall|i: int|
        0 <= i < 36 ==> if i == 8 || i == 13 || i == 18 || i == 23 {
            #[trigger] s[i] == '-'
        } else {
            is_lower_hex(s[i])
        }
    &&& s[14] == '7'
    &&& (s[19] == '8' || s[19] == '9' || s[19] == 'a' || s[19] == 'b')
}

/// An instant that the system clock can give: at or after the epoch, with
/// fewer than a second's nanoseconds.
pub open spec fn clock_stamp(t: Timestamp) -> bool {
    t.secs >= 0 && t.nanos < 1_000_000_000
}

/// Relies on chrono's `Utc::now`, read as whole seconds (`timestamp`) and the
/// nanoseconds past them (`timestamp_subsec_nanos`). `Utc::now` builds the
/// instant from the system time's distance to the epoch, so both parts are
/// non-negative and the nanoseconds stay below one second.
#[verifier::external_body]
pub(crate) fn now_utc() -> (r: Timestamp)
    ensures
        clock_stamp(r),
{
    let now = chrono::Utc::now();
    Timestamp { secs: now.timestamp(), nanos: now.timestamp_subsec_nanos() }
}

/// Relies on uuid's `Uuid::now_v7` and its `Display`, which writes the
/// hyphenated lowercase form: a fresh time-ordered version-7 identifier.
#[verifier::external_body]
pub(crate) fn new_external_reference() -> (r: String)
    ensures
        uuid_v7_text(r@),
{
    uuid::Uuid::now_v7().to_string()
}

} // verus!
