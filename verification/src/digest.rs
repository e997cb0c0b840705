//! The end-of-run digest: one summary message per run.
//!
//! The digest names the run's day and whether it succeeded, and its body
//! gives the count of sent messages or the terminating error.

use vstd::prelude::*;
use crate::date::{Date, date_seq};
use crate::text::dec_rep;

verus! {

/// The digest's subject line for a run day and outcome.
pub open spec fn spec_digest_subject(days: int, ok: bool) -> Seq<char> {
    "Velohaven Mailer am "@ + date_seq(days) + ": "@ + (if ok {
        "Erfolg"@
    } else {
        "Fehler"@
    })
}

/// The digest's body: the count sent, or the error's description.
pub open spec fn spec_digest_body(outcome: Result<u64, String>) -> Seq<char> {
    match outcome {
        Ok(count) => "Erfolg: Es wurden heute "@ + dec_rep(count as nat) + " Emails versendet."@,
        Err(e) => "Fehler: "@ + e@,
    }
}

/// The digest's subject line: the run's day and whether it succeeded.
pub fn digest_subject(today: &Date, ok: bool) -> (r: String)
    requires
        today.wf(),
    ensures
        r@ == spec_digest_subject(today.days as int, ok),
{
    let mut out = String::new();
    out.append("Velohaven Mailer am ");
    let day = today.to_string();
    out.append(day.as_str());
    out.append(": ");
    if ok {
        out.append("Erfolg");
    } else {
        out.append("Fehler");
    }
    proof {
        assert(out@ =~= spec_digest_subject(today.days as int, ok));
    }
    out
}

/// The digest's body: how many messages the run sent, or what ended it.
pub fn digest_body(outcome: &Result<u64, String>) -> (r: String)
    ensures
        r@ == spec_digest_body(*outcome),
{
    let mut out = String::new();
    match outcome {
        Ok(count) => {
            out.append("Erfolg: Es wurden heute ");
            crate::text::push_dec(&mut out, *count);
            out.append(" Emails versendet.");
        },
        Err(e) => {
            out.append("Fehler: ");
            out.append(e.as_str());
        },
    }
    proof {
        assert(out@ =~= spec_digest_body(*outcome));
    }
    out
}

} // verus!
