//! The template catalog builder and the opt-out list.
//!
//! The template source lists files by href. A file named
//! `<duration-token>-<subject>[-...].html` (percent-encoded) yields one
//! template: the token gives the offset, the second dash-separated field the
//! subject. A malformed listing entry is skipped with a recorded error and
//! never aborts the batch. Bodies are fetched only for entries that parse,
//! one call per valid entry, outside the library.

use vstd::prelude::*;
use url_encor::Encoder;
use crate::duration::{Duration, ParseError, spec_parse, parse};
use crate::text::{trim, trimmed, normalize_email, normalized, string_eq};

verus! {

/// A message template: an offset from the enrollment date, and the mail's
/// subject and body. The name is the decoded file name it came from.
#[derive(Debug, Clone)]
pub struct Template {
    pub body: String,
    pub name: String,
    pub subject: String,
    pub duration: Duration,
}

/// A listing entry that parsed: a template waiting for its body.
#[derive(Debug, Clone)]
pub struct PlannedTemplate {
    pub name: String,
    pub subject: String,
    pub duration: Duration,
}

/// What the template source yields for a run: the opt-out set and the
/// catalog, in listing order.
#[derive(Debug)]
pub struct NextcloudData {
    pub unsubscribed: Vec<String>,
    pub templates: Vec<Template>,
}

/// Why a listing entry was skipped.
#[derive(Debug, Clone, PartialEq, Eq, Structural)]
pub enum NameError {
    /// The text before the first dash is no duration token.
    BadDuration(ParseError),
    /// The name has no dash, so no subject field.
    NoSubject,
}

/// A skipped listing entry, for the run's error report.
#[derive(Debug, Clone)]
pub enum CatalogError {
    /// The href does not name an `.html` file.
    UnrecognizedFile { href: String },
    /// The decoded file name does not parse.
    Invalid { name: String, err: NameError },
}

impl Template {
    /// The planned template with its fetched body.
    pub fn of(plan: PlannedTemplate, body: String) -> (t: Template)
        ensures
            t.name@ == plan.name@,
            t.subject@ == plan.subject@,
            t.duration == plan.duration,
            t.body@ == body@,
    {
        Template { body, name: plan.name, subject: plan.subject, duration: plan.duration }
    }
}

/// What `url_encor` decodes the percent-encoded text to; the result depends
/// on the characters alone.
pub uninterp spec fn url_decoded(s: Seq<char>) -> Seq<char>;

/// Relies on `url_encor::Encoder::url_decode`: percent-decodes the text, a
/// pure function of it.
#[verifier::external_body]
fn url_decode(s: &String) -> (r: String)
    ensures
        r@ == url_decoded(s@),
{
    s.url_decode()
}

/// Index of the first occurrence of `c`, or the length if `c` is absent.
pub open spec fn first_at(s: Seq<char>, c: char) -> nat
    decreases s.len(),
{
    if s.len() > 0 && s[0] != c {
        1 + first_at(s.drop_first(), c)
    } else {
        0
    }
}

proof fn lemma_first_at(s: Seq<char>, c: char, i: int)
    requires
        0 <= i <= s.len(),
        forall|k: int| 0 <= k < i ==> s[k] != c,
        i < s.len() ==> s[i] == c,
    ensures
        first_at(s, c) == i,
    decreases i,
{
    if i > 0 {
        lemma_first_at(s.drop_first(), c, i - 1);
    }
}

/// Index of the first occurrence of `c` at or after `from`, or the length.
fn find_from(s: &str, from: usize, c: char) -> (r: usize)
    requires
        from <= s@.len(),
    ensures
        from <= r <= s@.len(),
        forall|k: int| from <= k < r ==> s@[k] != c,
        r < s@.len() ==> s@[r as int] == c,
{
    let n = s.unicode_len();
    let mut i: usize = from;
    while i < n && s.get_char(i) != c
        invariant
            from <= i <= n == s@.len(),
            forall|k: int| from <= k < i ==> s@[k] != c,
        decreases n - i,
    {
        i = i + 1;
    }
    i
}

/// The segment of the text after its last `/`; the whole text when it has
/// none.
pub open spec fn last_segment(s: Seq<char>) -> Seq<char>
    decreases s.len(),
{
    if s.len() == 0 {
        s
    } else if s.last() == '/' {
        Seq::empty()
    } else {
        last_segment(s.drop_last()).push(s.last())
    }
}

proof fn lemma_last_segment(s: Seq<char>, j: int)
    requires
        0 <= j <= s.len(),
        forall|k: int| j <= k < s.len() ==> s[k] != '/',
        j > 0 ==> s[j - 1] == '/',
    ensures
        last_segment(s) == s.skip(j),
    decreases s.len() - j,
{
    if j == s.len() {
        assert(s.skip(j) =~= Seq::<char>::empty());
    } else {
        lemma_last_segment(s.drop_last(), j);
        assert(s.drop_last().skip(j).push(s.last()) =~= s.skip(j));
    }
}

/// The decoded-ready file name of a listing href: the last path segment
/// without its `.html` ending; `None` when the segment has no such ending.
pub open spec fn spec_strip_href(href: Seq<char>) -> Option<Seq<char>> {
    let seg = last_segment(href);
    if seg.len() >= 5 && seg.skip(seg.len() - 5) =~= seq!['.', 'h', 't', 'm', 'l'] {
        Some(seg.take(seg.len() - 5))
    } else {
        None
    }
}

/// The file name a listing href names, per [`spec_strip_href`].
pub fn strip_href(href: &str) -> (r: Option<String>)
    ensures
        r is Some <==> spec_strip_href(href@) is Some,
        r is Some ==> r->Some_0@ == spec_strip_href(href@)->Some_0,
{
    let n = href.unicode_len();
    let mut j: usize = n;
    while j > 0 && href.get_char(j - 1) != '/'
        invariant
            0 <= j <= n == href@.len(),
            forall|k: int| j <= k < n ==> href@[k] != '/',
        decreases j,
    {
        j = j - 1;
    }
    proof {
        lemma_last_segment(href@, j as int);
    }
    let seg_len = n - j;
    if seg_len >= 5 && href.get_char(n - 5) == '.' && href.get_char(n - 4) == 'h' && href.get_char(
        n - 3,
    ) == 't' && href.get_char(n - 2) == 'm' && href.get_char(n - 1) == 'l' {
        proof {
            assert(href@.skip(j as int).skip(seg_len - 5) =~= seq!['.', 'h', 't', 'm', 'l']);
            assert(href@.skip(j as int).take(seg_len - 5) =~= href@.subrange(
                j as int,
                n - 5 as int,
            ));
        }
        Some(href.substring_char(j, n - 5).to_owned())
    } else {
        proof {
            if href@.skip(j as int).len() >= 5 {
                assert(!(href@.skip(j as int).skip(seg_len - 5) =~= seq![
                    '.',
                    'h',
                    't',
                    'm',
                    'l',
                ]));
            }
        }
        None
    }
}

/// What parsing a decoded template file name yields: the offset duration
/// (from the text before the first dash) and the trimmed subject (the text
/// between the first and second dash).
pub open spec fn spec_parse_name(name: Seq<char>) -> Result<(u64, Seq<char>), NameError> {
    let k1 = first_at(name, '-');
    match spec_parse(name.take(k1 as int)) {
        Err(e) => Err(NameError::BadDuration(e)),
        Ok(d) => {
            if k1 == name.len() {
                Err(NameError::NoSubject)
            } else {
                let rest = name.skip(k1 as int + 1);
                let k2 = first_at(rest, '-');
                Ok((d.secs, trimmed(rest.take(k2 as int))))
            }
        },
    }
}

/// Parses a decoded template file name, per [`spec_parse_name`].
pub fn parse_template_name(name: &str) -> (r: Result<(Duration, String), NameError>)
    ensures
        r is Ok <==> spec_parse_name(name@) is Ok,
        r is Ok ==> {
            &&& r->Ok_0.0.secs == spec_parse_name(name@)->Ok_0.0
            &&& r->Ok_0.1@ == spec_parse_name(name@)->Ok_0.1
        },
        r is Err ==> r->Err_0 == spec_parse_name(name@)->Err_0,
{
    let n = name.unicode_len();
    let k1 = find_from(name, 0, '-');
    proof {
        lemma_first_at(name@, '-', k1 as int);
    }
    let token = name.substring_char(0, k1);
    proof {
        assert(name@.subrange(0, k1 as int) =~= name@.take(k1 as int));
    }
    let d = match parse(token) {
        Err(e) => {
            return Err(NameError::BadDuration(e));
        },
        Ok(d) => d,
    };
    if k1 == n {
        return Err(NameError::NoSubject);
    }
    let k2 = find_from(name, k1 + 1, '-');
    proof {
        let rest = name@.skip(k1 + 1);
        assert forall|k: int| 0 <= k < k2 - (k1 + 1) implies rest[k] != '-' by {
            assert(rest[k] == name@[k + k1 + 1]);
        }
        lemma_first_at(rest, '-', k2 - (k1 + 1));
        assert(rest.take(k2 - (k1 + 1)) =~= name@.subrange(k1 + 1, k2 as int));
    }
    let subject = trim(name.substring_char(k1 + 1, k2));
    Ok((d, subject))
}

/// What a single listing entry becomes.
pub enum EntryOutcome {
    /// A template: decoded name, offset seconds, trimmed subject.
    Plan { name: Seq<char>, secs: u64, subject: Seq<char> },
    /// Skipped: the href names no `.html` file.
    UnrecognizedFile,
    /// Skipped: the decoded name does not parse.
    Invalid { name: Seq<char>, err: NameError },
}

/// The outcome of one listing entry.
pub open spec fn entry_outcome(href: Seq<char>) -> EntryOutcome {
    match spec_strip_href(href) {
        None => EntryOutcome::UnrecognizedFile,
        Some(raw) => {
            let name = url_decoded(raw);
            match spec_parse_name(name) {
                Err(e) => EntryOutcome::Invalid { name, err: e },
                Ok(p) => EntryOutcome::Plan { name, secs: p.0, subject: p.1 },
            }
        },
    }
}

/// The planned templates of a listing, in listing order.
pub open spec fn spec_plans(hrefs: Seq<String>) -> Seq<(Seq<char>, u64, Seq<char>)>
    decreases hrefs.len(),
{
    if hrefs.len() == 0 {
        Seq::empty()
    } else {
        spec_plans(hrefs.drop_last()) + (match entry_outcome(hrefs.last()@) {
            EntryOutcome::Plan { name, secs, subject } => seq![(name, secs, subject)],
            _ => Seq::empty(),
        })
    }
}

/// The recorded errors of a listing, in listing order.
pub open spec fn spec_errs(hrefs: Seq<String>) -> Seq<EntryOutcome>
    decreases hrefs.len(),
{
    if hrefs.len() == 0 {
        Seq::empty()
    } else {
        spec_errs(hrefs.drop_last()) + (match entry_outcome(hrefs.last()@) {
            EntryOutcome::Plan { .. } => Seq::empty(),
            e => seq![e],
        })
    }
}

/// The planned template as plain values: name, offset seconds, subject.
pub open spec fn plan_view(p: PlannedTemplate) -> (Seq<char>, u64, Seq<char>) {
    (p.name@, p.duration.secs, p.subject@)
}

/// The recorded error as an entry outcome.
pub open spec fn err_view(e: CatalogError) -> EntryOutcome {
    match e {
        CatalogError::UnrecognizedFile { .. } => EntryOutcome::UnrecognizedFile,
        CatalogError::Invalid { name, err } => EntryOutcome::Invalid { name: name@, err },
    }
}

/// Every listing entry lands in exactly one bucket: it is planned or it is
/// one recorded error, so one bad entry never costs more than itself.
pub proof fn lemma_catalog_isolation(hrefs: Seq<String>)
    ensures
        spec_plans(hrefs).len() + spec_errs(hrefs).len() == hrefs.len(),
    decreases hrefs.len(),
{
    if hrefs.len() > 0 {
        lemma_catalog_isolation(hrefs.drop_last());
    }
}

/// Builds the catalog plan of a listing: one planned template per entry
/// that parses, one recorded error per entry that does not, both in listing
/// order. A malformed entry never fails the batch.
pub fn plan_templates(hrefs: &Vec<String>) -> (r: (Vec<PlannedTemplate>, Vec<CatalogError>))
    ensures
        r.0@.map_values(|p: PlannedTemplate| plan_view(p)) == spec_plans(hrefs@),
        r.1@.map_values(|e: CatalogError| err_view(e)) == spec_errs(hrefs@),
{
    let mut plans: Vec<PlannedTemplate> = Vec::new();
    let mut errs: Vec<CatalogError> = Vec::new();
    let mut i: usize = 0;
    while i < hrefs.len()
        invariant
            0 <= i <= hrefs@.len(),
            plans@.map_values(|p: PlannedTemplate| plan_view(p)) =~= spec_plans(
                hrefs@.take(i as int),
            ),
            errs@.map_values(|e: CatalogError| err_view(e)) =~= spec_errs(hrefs@.take(i as int)),
        decreases hrefs@.len() - i,
    {
        let href = &hrefs[i];
        match strip_href(href.as_str()) {
            None => {
                errs.push(CatalogError::UnrecognizedFile { href: href.clone() });
            },
            Some(raw) => {
                let name = url_decode(&raw);
                match parse_template_name(name.as_str()) {
                    Err(e) => {
                        errs.push(CatalogError::Invalid { name, err: e });
                    },
                    Ok((d, subject)) => {
                        plans.push(PlannedTemplate { name, subject, duration: d });
                    },
                }
            },
        }
        i = i + 1;
        proof {
            assert(hrefs@.take(i as int).drop_last() =~= hrefs@.take(i - 1));
            assert(hrefs@.take(i as int).last() == hrefs@[i - 1]);
            assert(plans@.map_values(|p: PlannedTemplate| plan_view(p)) =~= spec_plans(
                hrefs@.take(i as int),
            ));
            assert(errs@.map_values(|e: CatalogError| err_view(e)) =~= spec_errs(
                hrefs@.take(i as int),
            ));
        }
    }
    proof {
        assert(hrefs@.take(hrefs@.len() as int) =~= hrefs@);
    }
    (plans, errs)
}

/// The lines of a text, split at `'\n'`.
pub open spec fn lines(s: Seq<char>) -> Seq<Seq<char>>
    decreases s.len(),
{
    if s.len() == 0 {
        Seq::empty()
    } else {
        let k = first_at(s, '\n');
        if k >= s.len() {
            seq![s]
        } else {
            seq![s.take(k as int)] + lines(s.skip(k as int + 1))
        }
    }
}

/// The normalized non-empty entries of a line list.
pub open spec fn optout_filter(ls: Seq<Seq<char>>) -> Seq<Seq<char>>
    decreases ls.len(),
{
    if ls.len() == 0 {
        Seq::empty()
    } else {
        (if normalized(ls[0]).len() > 0 {
            seq![normalized(ls[0])]
        } else {
            Seq::<Seq<char>>::empty()
        }) + optout_filter(ls.drop_first())
    }
}

/// The opt-out entries of the fetched opt-out text: one normalized email
/// per non-blank line, in file order.
pub open spec fn optout_entries(s: Seq<char>) -> Seq<Seq<char>> {
    optout_filter(lines(s))
}

/// Parses the opt-out text: every non-blank line, trimmed and lowered, in
/// file order.
pub fn parse_optouts(text: &str) -> (r: Vec<String>)
    ensures
        r@.map_values(|s: String| s@) == optout_entries(text@),
    decreases text@.len(),
{
    let n = text.unicode_len();
    let mut out: Vec<String> = Vec::new();
    if n == 0 {
        return out;
    }
    let k = find_from(text, 0, '\n');
    proof {
        lemma_first_at(text@, '\n', k as int);
    }
    if k == n {
        let e = normalize_email(text);
        if e.as_str().unicode_len() > 0 {
            out.push(e);
        }
        proof {
            assert(lines(text@) =~= seq![text@]);
            assert(lines(text@).drop_first() =~= Seq::<Seq<char>>::empty());
            assert(optout_filter(Seq::<Seq<char>>::empty()) == Seq::<Seq<char>>::empty());
            assert(optout_filter(lines(text@).drop_first()) == Seq::<Seq<char>>::empty());
            assert(out@.map_values(|s: String| s@) =~= optout_entries(text@));
        }
        out
    } else {
        let line = text.substring_char(0, k);
        proof {
            assert(line@ =~= text@.take(k as int));
        }
        let e = normalize_email(line);
        if e.as_str().unicode_len() > 0 {
            out.push(e);
        }
        let rest = text.substring_char(k + 1, n);
        proof {
            assert(rest@ =~= text@.skip(k + 1));
        }
        let mut tail = parse_optouts(rest);
        out.append(&mut tail);
        proof {
            assert(lines(text@).drop_first() =~= lines(text@.skip(k + 1)));
            assert(out@.map_values(|s: String| s@) =~= optout_entries(text@));
        }
        out
    }
}

/// True when one of the opt-out entries is this email address.
pub open spec fn contains_email(v: Seq<String>, e: Seq<char>) -> bool {
    exists|i: int| 0 <= i < v.len() && v[i]@ == e
}

/// Whether the email address stands in the opt-out list.
pub fn is_opted_out(optouts: &Vec<String>, email: &String) -> (r: bool)
    ensures
        r == contains_email(optouts@, email@),
{
    let mut i: usize = 0;
    while i < optouts.len()
        invariant
            0 <= i <= optouts@.len(),
            forall|k: int| 0 <= k < i ==> (#[trigger] optouts@[k])@ != email@,
        decreases optouts@.len() - i,
    {
        if string_eq(&optouts[i], email) {
            return true;
        }
        i = i + 1;
    }
    false
}

} // verus!
