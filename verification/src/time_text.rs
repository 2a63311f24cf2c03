//! Rendering instants as RFC 3339 text.
//!
//! The calendar arithmetic behind the text is chrono's; the split of a
//! nanosecond instant into whole seconds and a subsecond part is computed
//! and verified here.

use vstd::prelude::*;

use crate::model::{secs_of, subsec_of};

verus! {

/// The RFC 3339 rendering, in UTC, of the instant `secs` seconds and
/// `nsecs` nanoseconds after the epoch. The text depends on those two
/// numbers alone; what it looks like only chrono knows.
pub uninterp spec fn rfc3339_of(secs: int, nsecs: int) -> Seq<char>;

/// Relies on chrono's `DateTime::<Utc>::from_timestamp` and
/// `DateTime::to_rfc3339`: the rendering is a function of the seconds and
/// nanoseconds alone, and `from_timestamp` returns `Some` for every second
/// count within a few hundred years of the epoch (its own range is about
/// ±262,000 years) when the nanosecond part is below 10^9.
#[verifier::external_body]
fn format_rfc3339(secs: i64, nsecs: u32) -> (r: String)
    requires
        -9_300_000_000 <= secs <= 9_300_000_000,
        nsecs < 1_000_000_000,
    ensures
        r@ == rfc3339_of(secs as int, nsecs as int),
{
    chrono::DateTime::<chrono::Utc>::from_timestamp(secs, nsecs).unwrap().to_rfc3339()
}

/// Splits a nanosecond instant into whole seconds (rounded toward minus
/// infinity) and a nonnegative subsecond part.
fn split_instant(ns: i64) -> (r: (i64, u32))
    ensures
        r.0 == secs_of(ns as int),
        r.1 == subsec_of(ns as int),
        -9_223_372_037 <= r.0 <= 9_223_372_036,
{
    if ns >= 0 {
        let q: u64 = (ns as u64) / 1_000_000_000;
        let m: u64 = (ns as u64) % 1_000_000_000;
        proof {
            vstd::arithmetic::div_mod::lemma_fundamental_div_mod(ns as int, 1_000_000_000);
            vstd::arithmetic::div_mod::lemma_fundamental_div_mod_converse(
                ns as int,
                1_000_000_000,
                q as int,
                m as int,
            );
        }
        (q as i64, m as u32)
    } else {
        let mag: u64 = (-(ns as i128)) as u64;
        let q: u64 = mag / 1_000_000_000;
        let m: u64 = mag % 1_000_000_000;
        proof {
            vstd::arithmetic::div_mod::lemma_fundamental_div_mod(mag as int, 1_000_000_000);
        }
        if m == 0 {
            proof {
                vstd::arithmetic::div_mod::lemma_fundamental_div_mod_converse(
                    ns as int,
                    1_000_000_000,
                    -(q as int),
                    0,
                );
            }
            (-(q as i64), 0)
        } else {
            proof {
                vstd::arithmetic::div_mod::lemma_fundamental_div_mod_converse(
                    ns as int,
                    1_000_000_000,
                    -(q as int) - 1,
                    1_000_000_000 - (m as int),
                );
            }
            (-(q as i64) - 1, (1_000_000_000 - m) as u32)
        }
    }
}

/// Renders a nanosecond instant as the RFC 3339 text of its UTC moment.
pub fn instant_to_rfc3339(ns: i64) -> (r: String)
    ensures
        r@ == rfc3339_of(secs_of(ns as int), subsec_of(ns as int)),
{
    let (secs, nsecs) = split_instant(ns);
    format_rfc3339(secs, nsecs)
}

} // verus!
