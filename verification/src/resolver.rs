//! The due-message resolver: which templates a member is owed on a day.
//!
//! A member's effective start is their enrollment date, clamped below by the
//! run's floor date. A template is due in normal mode exactly on the day
//! `effective start + offset`; in catch-up mode the one named template is
//! due on that day and every day after it. Resolution is a pure function of
//! member, catalog and context, and does not assume the catalog sorted.

use vstd::prelude::*;
use crate::catalog::Template;
use crate::date::Date;
use crate::members::Member;
use crate::text::string_eq;

verus! {

/// How a run treats due dates.
#[derive(Debug, Clone)]
pub enum Mode {
    /// A template is due only on its exact due day.
    Normal,
    /// Only the named template is evaluated; it is due on its due day and
    /// on every later day. Used for manual backfill runs.
    CatchUp(String),
}

/// The run's fixed decision inputs.
#[derive(Debug, Clone)]
pub struct RunContext {
    /// The reference day the run decides for.
    pub today: Date,
    /// The earliest effective enrollment date: an operator's bound on how
    /// far back sending can reach.
    pub min_enrollment_floor: Date,
    pub mode: Mode,
}

impl RunContext {
    /// Both dates lie in the supported range.
    pub open spec fn wf(self) -> bool {
        self.today.wf() && self.min_enrollment_floor.wf()
    }
}

/// The member's enrollment day, clamped below by the run's floor.
pub open spec fn effective_start(m: Member, ctx: RunContext) -> int {
    if m.added_at.days >= ctx.min_enrollment_floor.days {
        m.added_at.days as int
    } else {
        ctx.min_enrollment_floor.days as int
    }
}

/// The day a template falls due for a member.
pub open spec fn due_day(m: Member, ctx: RunContext, t: Template) -> int {
    effective_start(m, ctx) + t.duration.spec_days()
}

/// Whether a template is due for a member under the run's context.
pub open spec fn is_due(t: Template, m: Member, ctx: RunContext) -> bool {
    match ctx.mode {
        Mode::Normal => ctx.today.days == due_day(m, ctx, t),
        Mode::CatchUp(name) => t.name@ == name@ && ctx.today.days >= due_day(m, ctx, t),
    }
}

/// The catalog positions of the member's due templates, in catalog order.
pub open spec fn due_indices(c: Seq<Template>, m: Member, ctx: RunContext) -> Seq<int>
    decreases c.len(),
{
    if c.len() == 0 {
        Seq::empty()
    } else {
        due_indices(c.drop_last(), m, ctx) + (if is_due(c.last(), m, ctx) {
            seq![c.len() - 1]
        } else {
            Seq::empty()
        })
    }
}

fn check_due(t: &Template, m: &Member, ctx: &RunContext) -> (r: bool)
    requires
        m.wf(),
        ctx.wf(),
    ensures
        r == is_due(*t, *m, *ctx),
{
    let start: i64 = if m.added_at.days >= ctx.min_enrollment_floor.days {
        m.added_at.days
    } else {
        ctx.min_enrollment_floor.days
    };
    let off: u64 = t.duration.days();
    proof {
        assert(off as int <= u64::MAX as int / 86400) by (nonlinear_arith)
            requires
                off as int == t.duration.secs as int / 86400,
                0 <= t.duration.secs as int <= u64::MAX as int,
        ;
    }
    let due: i64 = start + (off as i64);
    match &ctx.mode {
        Mode::Normal => ctx.today.days == due,
        Mode::CatchUp(name) => string_eq(&t.name, name) && ctx.today.days >= due,
    }
}

/// Resolves the member's due templates: the catalog positions, in catalog
/// order, of exactly the templates that are due under the context.
pub fn resolve(m: &Member, catalog: &Vec<Template>, ctx: &RunContext) -> (r: Vec<usize>)
    requires
        m.wf(),
        ctx.wf(),
    ensures
        r@.map_values(|i: usize| i as int) == due_indices(catalog@, *m, *ctx),
{
    let mut out: Vec<usize> = Vec::new();
    let mut i: usize = 0;
    while i < catalog.len()
        invariant
            0 <= i <= catalog@.len(),
            m.wf(),
            ctx.wf(),
            out@.map_values(|k: usize| k as int) =~= due_indices(catalog@.take(i as int), *m, *ctx),
        decreases catalog@.len() - i,
    {
        if check_due(&catalog[i], m, ctx) {
            out.push(i);
        }
        i = i + 1;
        proof {
            assert(catalog@.take(i as int).drop_last() =~= catalog@.take(i - 1));
            assert(catalog@.take(i as int).last() == catalog@[i - 1]);
            assert(out@.map_values(|k: usize| k as int) =~= due_indices(
                catalog@.take(i as int),
                *m,
                *ctx,
            ));
        }
    }
    proof {
        assert(catalog@.take(catalog@.len() as int) =~= catalog@);
    }
    out
}

/// The resolved positions name exactly the due templates: every listed
/// position is a due template, every due template's position is listed, and
/// the positions rise strictly, so each due template appears once, in
/// catalog order.
pub proof fn lemma_due_indices_exact(c: Seq<Template>, m: Member, ctx: RunContext)
    ensures
        forall|k: int|
            0 <= k < due_indices(c, m, ctx).len() ==> {
                &&& 0 <= #[trigger] due_indices(c, m, ctx)[k] < c.len()
                &&& is_due(c[due_indices(c, m, ctx)[k]], m, ctx)
            },
        forall|j: int| 0 <= j < c.len() && is_due(#[trigger] c[j], m, ctx) ==> due_indices(
            c,
            m,
            ctx,
        ).contains(j),
        forall|k1: int, k2: int|
            0 <= k1 < k2 < due_indices(c, m, ctx).len() ==> #[trigger] due_indices(c, m, ctx)[k1]
                < #[trigger] due_indices(c, m, ctx)[k2],
    decreases c.len(),
{
    if c.len() > 0 {
        lemma_due_indices_exact(c.drop_last(), m, ctx);
        let prev = due_indices(c.drop_last(), m, ctx);
        assert forall|j: int| 0 <= j < c.len() && is_due(#[trigger] c[j], m, ctx) implies
            due_indices(c, m, ctx).contains(j) by {
            if j < c.len() - 1 {
                assert(c.drop_last()[j] == c[j]);
                assert(prev.contains(j));
                let w = choose|w: int| 0 <= w < prev.len() && prev[w] == j;
                assert(due_indices(c, m, ctx)[w] == j);
            } else {
                assert(due_indices(c, m, ctx).last() == j);
            }
        }
        assert forall|k: int| 0 <= k < due_indices(c, m, ctx).len() implies {
            &&& 0 <= #[trigger] due_indices(c, m, ctx)[k] < c.len()
            &&& is_due(c[due_indices(c, m, ctx)[k]], m, ctx)
        } by {
            if k < prev.len() {
                assert(due_indices(c, m, ctx)[k] == prev[k]);
                assert(c.drop_last()[prev[k]] == c[prev[k]]);
            }
        }
    }
}

/// In normal mode a resolved template's due day is the run's day itself: a
/// missed day is never caught up.
pub proof fn lemma_normal_exact(c: Seq<Template>, m: Member, ctx: RunContext, j: int)
    requires
        ctx.mode is Normal,
        due_indices(c, m, ctx).contains(j),
    ensures
        0 <= j < c.len(),
        ctx.today.days == due_day(m, ctx, c[j]),
{
    lemma_due_indices_exact(c, m, ctx);
    let k = choose|k: int|
        0 <= k < due_indices(c, m, ctx).len() && due_indices(c, m, ctx)[k] == j;
    assert(is_due(c[j], m, ctx));
}

/// Resolution is a pure function of its inputs: `resolve` promises its
/// result equal to `due_indices`, so two calls on identical inputs return
/// identical position sequences.
pub proof fn lemma_resolve_idempotent(
    c: Seq<Template>,
    m: Member,
    ctx: RunContext,
    r1: Seq<int>,
    r2: Seq<int>,
)
    requires
        r1 == due_indices(c, m, ctx),
        r2 == due_indices(c, m, ctx),
    ensures
        r1 == r2,
{
}

/// Catch-up is monotone: a template due in catch-up mode on one day stays
/// due on every later day, for the same member and floor.
pub proof fn lemma_catchup_monotone(t: Template, m: Member, ctx1: RunContext, ctx2: RunContext)
    requires
        ctx1.mode is CatchUp,
        ctx2.mode == ctx1.mode,
        ctx2.min_enrollment_floor == ctx1.min_enrollment_floor,
        ctx2.today.days >= ctx1.today.days,
        is_due(t, m, ctx1),
    ensures
        is_due(t, m, ctx2),
{
}

/// Position of the first template with the given name; `None` exactly when
/// no template has it. Catch-up runs are refused without their template.
pub fn find_template(catalog: &Vec<Template>, name: &String) -> (r: Option<usize>)
    ensures
        r is Some <==> exists|j: int|
            0 <= j < catalog@.len() && (#[trigger] catalog@[j]).name@ == name@,
        r is Some ==> {
            &&& 0 <= r->Some_0 < catalog@.len()
            &&& catalog@[r->Some_0 as int].name@ == name@
            &&& forall|k: int| 0 <= k < r->Some_0 ==> (#[trigger] catalog@[k]).name@ != name@
        },
{
    let mut i: usize = 0;
    while i < catalog.len()
        invariant
            0 <= i <= catalog@.len(),
            forall|k: int| 0 <= k < i ==> (#[trigger] catalog@[k]).name@ != name@,
        decreases catalog@.len() - i,
    {
        if string_eq(&catalog[i].name, name) {
            return Some(i);
        }
        i = i + 1;
    }
    None
}

} // verus!
