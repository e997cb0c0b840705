//! Mailing-list members, and how raw receiver records become members.
//!
//! The membership source hands back raw records of an email address, an
//! activation timestamp and a deactivation flag. Ingestion keeps the active
//! records whose timestamp names a representable day, normalizes the email
//! and turns the timestamp into the enrollment date.

use vstd::prelude::*;
use crate::date::{Date, DAY_MIN, DAY_MAX};
use crate::text::{normalize_email, normalized};

verus! {

/// A recipient: a normalized email address and the enrollment date.
#[derive(Debug, Clone)]
pub struct Member {
    pub email: String,
    pub added_at: Date,
}

impl Member {
    /// The enrollment date lies in the supported range.
    pub open spec fn wf(self) -> bool {
        self.added_at.wf()
    }

    /// The member as plain values: normalized email and enrollment day.
    pub open spec fn view_pair(self) -> (Seq<char>, int) {
        (self.email@, self.added_at.days as int)
    }
}

/// A raw receiver record as the membership source reports it: an email
/// address, the activation time in seconds since 1970-01-01 00:00:00 UTC,
/// and a deactivation time that is zero for active members.
#[derive(Debug, Clone)]
pub struct RawReceiver {
    pub email: String,
    pub activated: i64,
    pub deactivated: i64,
}

/// The calendar day (as a day number) on which a timestamp falls.
pub open spec fn day_of_timestamp(ts: int) -> int {
    ts / 86400
}

/// A raw record that ingestion keeps: active, with a representable day.
pub open spec fn keeps(r: RawReceiver) -> bool {
    r.deactivated == 0 && DAY_MIN <= day_of_timestamp(r.activated as int) <= DAY_MAX
}

/// What ingestion makes of a record sequence: for every kept record, in
/// order, the normalized email and the enrollment day.
pub open spec fn ingested(rs: Seq<RawReceiver>) -> Seq<(Seq<char>, int)>
    decreases rs.len(),
{
    if rs.len() == 0 {
        Seq::empty()
    } else {
        ingested(rs.drop_last()) + (if keeps(rs.last()) {
            seq![(normalized(rs.last().email@), day_of_timestamp(rs.last().activated as int))]
        } else {
            Seq::empty()
        })
    }
}

/// The floor of `ts / 86400`.
fn floor_day(ts: i64) -> (r: i64)
    ensures
        r == day_of_timestamp(ts as int),
{
    let q = ts / 86400;
    let rem = ts % 86400;
    if rem != 0 && ts < 0 {
        q - 1
    } else {
        q
    }
}

/// Turns raw receiver records into members: drops deactivated records and
/// records whose timestamp falls outside the supported calendar range,
/// normalizes each email, and dates each member at the day of its
/// activation timestamp. Order is kept.
pub fn receivers_to_members(rs: &Vec<RawReceiver>) -> (r: Vec<Member>)
    ensures
        r@.map_values(|m: Member| m.view_pair()) == ingested(rs@),
        forall|i: int| 0 <= i < r@.len() ==> (#[trigger] r@[i]).wf(),
{
    let mut out: Vec<Member> = Vec::new();
    let mut i: usize = 0;
    while i < rs.len()
        invariant
            0 <= i <= rs@.len(),
            out@.map_values(|m: Member| m.view_pair()) =~= ingested(rs@.take(i as int)),
            forall|j: int| 0 <= j < out@.len() ==> (#[trigger] out@[j]).wf(),
        decreases rs@.len() - i,
    {
        let rec = &rs[i];
        if rec.deactivated == 0 {
            let day = floor_day(rec.activated);
            match Date::from_day(day) {
                Some(d) => {
                    let m = Member { email: normalize_email(rec.email.as_str()), added_at: d };
                    out.push(m);
                },
                None => {},
            }
        }
        i = i + 1;
        proof {
            assert(rs@.take(i as int).drop_last() =~= rs@.take(i - 1));
            assert(rs@.take(i as int).last() == rs@[i - 1]);
            assert(out@.map_values(|m: Member| m.view_pair()) =~= ingested(rs@.take(i as int)));
        }
    }
    proof {
        assert(rs@.take(rs@.len() as int) =~= rs@);
    }
    out
}

/// An access token that expires within two days is renewed before use.
pub fn token_needs_refresh(expires_in_secs: u64) -> (r: bool)
    ensures
        r == (expires_in_secs < 172800),
{
    expires_in_secs < 172800
}

} // verus!
