//! The dispatch planner: which messages a run sends, and where.
//!
//! For every member in order, the plan skips opted-out members, picks the
//! destination — the global override address when one is set, else the
//! member's own address if it parses as a mailbox — and lists one send per
//! due template, in catalog order. Executing the sends (and counting their
//! successes) happens outside the library; the plan itself decides whom,
//! what and where.

use vstd::prelude::*;
use core::str::FromStr;
use crate::catalog::{NextcloudData, Template, contains_email, is_opted_out};
use crate::members::Member;
use crate::resolver::{Mode, RunContext, due_indices, lemma_due_indices_exact, resolve};

verus! {

/// One message the run owes: destination, subject and body, with the member
/// and template it is for.
#[derive(Debug, Clone)]
pub struct PlannedSend {
    pub to: String,
    pub subject: String,
    pub body: String,
    pub member_email: String,
    pub template_name: String,
}

/// Why a dispatch plan cannot be made at all.
#[derive(Debug, Clone, PartialEq, Eq, Structural)]
pub enum DispatchError {
    /// The configured override address is no valid mailbox.
    InvalidOverride,
}

/// Whether lettre parses the text as a mailbox; a function of the text
/// alone.
pub uninterp spec fn mailbox_ok(s: Seq<char>) -> bool;

/// Relies on lettre's `Mailbox: FromStr`: whether an address parses is
/// decided by the address text alone.
#[verifier::external_body]
fn mailbox_valid(s: &String) -> (r: bool)
    ensures
        r == mailbox_ok(s@),
{
    lettre::message::Mailbox::from_str(s.as_str()).is_ok()
}

/// The planned send as plain values: destination, subject, body, member
/// email, template name.
pub open spec fn send_view(p: PlannedSend) -> (Seq<char>, Seq<char>, Seq<char>, Seq<char>, Seq<
    char,
>) {
    (p.to@, p.subject@, p.body@, p.member_email@, p.template_name@)
}

/// The destination of a member's messages: the override when set, else the
/// member's own address.
pub open spec fn dest_of(m: Member, ow: Option<String>) -> Seq<char> {
    match ow {
        Some(o) => o@,
        None => m.email@,
    }
}

/// Whether the plan skips the member whole: opted out, or no override and
/// an address that is no mailbox.
pub open spec fn skips_member(m: Member, unsub: Seq<String>, ow: Option<String>) -> bool {
    contains_email(unsub, m.email@) || (ow is None && !mailbox_ok(m.email@))
}

/// The sends one member is owed, in catalog order.
pub open spec fn sends_for(
    m: Member,
    c: Seq<Template>,
    unsub: Seq<String>,
    ctx: RunContext,
    ow: Option<String>,
) -> Seq<(Seq<char>, Seq<char>, Seq<char>, Seq<char>, Seq<char>)> {
    if skips_member(m, unsub, ow) {
        Seq::empty()
    } else {
        due_indices(c, m, ctx).map_values(
            |j: int| (dest_of(m, ow), c[j].subject@, c[j].body@, m.email@, c[j].name@),
        )
    }
}

/// The whole run's sends: every member's, in member order.
pub open spec fn spec_dispatch(
    ms: Seq<Member>,
    c: Seq<Template>,
    unsub: Seq<String>,
    ctx: RunContext,
    ow: Option<String>,
) -> Seq<(Seq<char>, Seq<char>, Seq<char>, Seq<char>, Seq<char>)>
    decreases ms.len(),
{
    if ms.len() == 0 {
        Seq::empty()
    } else {
        spec_dispatch(ms.drop_last(), c, unsub, ctx, ow) + sends_for(ms.last(), c, unsub, ctx, ow)
    }
}

/// Plans the run's sends. Fails exactly when the override address is set
/// and is no valid mailbox; otherwise the plan lists, member by member,
/// every due send with its destination. A catch-up run is planned only for
/// a template the catalog holds; callers refuse an unknown name first (see
/// [`crate::resolver::find_template`]).
pub fn plan_sends(
    members: &Vec<Member>,
    data: &NextcloudData,
    ctx: &RunContext,
    to_overwrite: &Option<String>,
) -> (r: Result<Vec<PlannedSend>, DispatchError>)
    requires
        ctx.wf(),
        forall|i: int| 0 <= i < members@.len() ==> (#[trigger] members@[i]).wf(),
        ctx.mode matches Mode::CatchUp(name) ==> exists|j: int|
            0 <= j < data.templates@.len() && (#[trigger] data.templates@[j]).name@ == name@,
    ensures
        r is Err <==> (to_overwrite is Some && !mailbox_ok(to_overwrite->0@)),
        r is Err ==> r->Err_0 == DispatchError::InvalidOverride,
        r is Ok ==> r->Ok_0@.map_values(|p: PlannedSend| send_view(p)) == spec_dispatch(
            members@,
            data.templates@,
            data.unsubscribed@,
            *ctx,
            *to_overwrite,
        ),
{
    if let Some(o) = to_overwrite {
        if !mailbox_valid(o) {
            return Err(DispatchError::InvalidOverride);
        }
    }
    let mut out: Vec<PlannedSend> = Vec::new();
    let mut i: usize = 0;
    while i < members.len()
        invariant
            0 <= i <= members@.len(),
            ctx.wf(),
            forall|k: int| 0 <= k < members@.len() ==> (#[trigger] members@[k]).wf(),
            out@.map_values(|p: PlannedSend| send_view(p)) =~= spec_dispatch(
                members@.take(i as int),
                data.templates@,
                data.unsubscribed@,
                *ctx,
                *to_overwrite,
            ),
        decreases members@.len() - i,
    {
        let m = &members[i];
        let ghost pre = out@;
        if !is_opted_out(&data.unsubscribed, &m.email) {
            let dest: Option<String> = match to_overwrite {
                Some(o) => Some(o.clone()),
                None => {
                    if mailbox_valid(&m.email) {
                        Some(m.email.clone())
                    } else {
                        None
                    }
                },
            };
            if let Some(to) = dest {
                let due = resolve(m, &data.templates, ctx);
                proof {
                    lemma_due_indices_exact(data.templates@, *m, *ctx);
                }
                let mut j: usize = 0;
                while j < due.len()
                    invariant
                        0 <= j <= due@.len(),
                        due@.map_values(|k: usize| k as int) == due_indices(
                            data.templates@,
                            *m,
                            *ctx,
                        ),
                        forall|k: int|
                            0 <= k < due_indices(data.templates@, *m, *ctx).len() ==> 0
                                <= #[trigger] due_indices(data.templates@, *m, *ctx)[k]
                                < data.templates@.len(),
                        !skips_member(*m, data.unsubscribed@, *to_overwrite),
                        to@ == dest_of(*m, *to_overwrite),
                        out@.map_values(|p: PlannedSend| send_view(p)) =~= pre.map_values(
                            |p: PlannedSend| send_view(p),
                        ) + sends_for(
                            *m,
                            data.templates@,
                            data.unsubscribed@,
                            *ctx,
                            *to_overwrite,
                        ).take(j as int),
                    decreases due@.len() - j,
                {
                    proof {
                        let dd = due_indices(data.templates@, *m, *ctx);
                        assert(due@.map_values(|k: usize| k as int)[j as int] == dd[j as int]);
                        assert(due@[j as int] as int == dd[j as int]);
                        assert(0 <= dd[j as int] < data.templates@.len());
                    }
                    let t = due[j];
                    let tpl = &data.templates[t];
                    let ghost out_before = out@;
                    out.push(
                        PlannedSend {
                            to: to.clone(),
                            subject: tpl.subject.clone(),
                            body: tpl.body.clone(),
                            member_email: m.email.clone(),
                            template_name: tpl.name.clone(),
                        },
                    );
                    proof {
                        let dd = due_indices(data.templates@, *m, *ctx);
                        let sf = sends_for(
                            *m,
                            data.templates@,
                            data.unsubscribed@,
                            *ctx,
                            *to_overwrite,
                        );
                        assert(sf[j as int] == (
                            dest_of(*m, *to_overwrite),
                            data.templates@[dd[j as int]].subject@,
                            data.templates@[dd[j as int]].body@,
                            m.email@,
                            data.templates@[dd[j as int]].name@,
                        ));
                        assert(send_view(out@.last()) == sf[j as int]);
                        assert(out@ == out_before.push(out@.last()));
                        out_before.lemma_push_map_commute(
                            |p: PlannedSend| send_view(p),
                            out@.last(),
                        );
                        assert(out@.map_values(|p: PlannedSend| send_view(p)) == out_before
                            .map_values(|p: PlannedSend| send_view(p)).push(
                            send_view(out@.last()),
                        ));
                        assert(sf.take(j + 1) =~= sf.take(j as int).push(sf[j as int]));
                        assert(out@.map_values(|p: PlannedSend| send_view(p)) =~= pre.map_values(
                            |p: PlannedSend| send_view(p),
                        ) + sf.take(j + 1));
                    }
                    j = j + 1;
                }
                proof {
                    assert(sends_for(
                        *m,
                        data.templates@,
                        data.unsubscribed@,
                        *ctx,
                        *to_overwrite,
                    ).take(due@.len() as int) =~= sends_for(
                        *m,
                        data.templates@,
                        data.unsubscribed@,
                        *ctx,
                        *to_overwrite,
                    ));
                }
            }
        }
        i = i + 1;
        proof {
            assert(members@.take(i as int).drop_last() =~= members@.take(i - 1));
            assert(members@.take(i as int).last() == members@[i - 1]);
            assert(out@.map_values(|p: PlannedSend| send_view(p)) =~= spec_dispatch(
                members@.take(i as int),
                data.templates@,
                data.unsubscribed@,
                *ctx,
                *to_overwrite,
            ));
        }
    }
    proof {
        assert(members@.take(members@.len() as int) =~= members@);
    }
    Ok(out)
}

/// Opt-out exclusion: an address on the opt-out list receives nothing — no
/// planned send is for a member with that address, whatever the resolver
/// would have found due.
pub proof fn lemma_optout_excluded(
    ms: Seq<Member>,
    c: Seq<Template>,
    unsub: Seq<String>,
    ctx: RunContext,
    ow: Option<String>,
    e: Seq<char>,
)
    requires
        contains_email(unsub, e),
    ensures
        forall|k: int|
            0 <= k < spec_dispatch(ms, c, unsub, ctx, ow).len() ==> (#[trigger] spec_dispatch(
                ms,
                c,
                unsub,
                ctx,
                ow,
            )[k]).3 != e,
    decreases ms.len(),
{
    if ms.len() > 0 {
        lemma_optout_excluded(ms.drop_last(), c, unsub, ctx, ow, e);
        let pre = spec_dispatch(ms.drop_last(), c, unsub, ctx, ow);
        let sf = sends_for(ms.last(), c, unsub, ctx, ow);
        assert forall|k: int| 0 <= k < spec_dispatch(ms, c, unsub, ctx, ow).len() implies (
        #[trigger] spec_dispatch(ms, c, unsub, ctx, ow)[k]).3 != e by {
            if k >= pre.len() {
                assert(sf[k - pre.len()].3 == ms.last().email@);
                assert(ms.last().email@ != e);
            }
        }
    }
}

/// Override destination: with a global override set, every planned send of
/// the whole run is addressed to the override, whoever the member is.
pub proof fn lemma_override_destination(
    ms: Seq<Member>,
    c: Seq<Template>,
    unsub: Seq<String>,
    ctx: RunContext,
    o: String,
)
    ensures
        forall|k: int|
            0 <= k < spec_dispatch(ms, c, unsub, ctx, Some(o)).len() ==> (#[trigger] spec_dispatch(
                ms,
                c,
                unsub,
                ctx,
                Some(o),
            )[k]).0 == o@,
    decreases ms.len(),
{
    if ms.len() > 0 {
        lemma_override_destination(ms.drop_last(), c, unsub, ctx, o);
        let pre = spec_dispatch(ms.drop_last(), c, unsub, ctx, Some(o));
        let sf = sends_for(ms.last(), c, unsub, ctx, Some(o));
        assert forall|k: int| 0 <= k < spec_dispatch(ms, c, unsub, ctx, Some(o)).len() implies (
        #[trigger] spec_dispatch(ms, c, unsub, ctx, Some(o))[k]).0 == o@ by {
            if k >= pre.len() {
                assert(sf[k - pre.len()].0 == dest_of(ms.last(), Some(o)));
            }
        }
    }
}

} // verus!
