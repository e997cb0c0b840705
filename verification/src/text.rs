//! Small text helpers: whitespace trimming, lowercasing for email
//! normalization, and decimal formatting.
//!
//! Email addresses are compared case-insensitively throughout the library;
//! [`normalize_email`] — trim, then Unicode lowercase — is the one
//! normalization every component uses.

use vstd::prelude::*;

verus! {

/// Relies on `String::push`: appends the given character at the end.
pub assume_specification[ String::push ](s: &mut String, c: char)
    ensures
        final(s)@ == old(s)@.push(c),
;

/// Whether two strings hold the same text.
pub fn string_eq(a: &String, b: &String) -> (r: bool)
    ensures
        r == (a@ == b@),
{
    a.eq(b)
}

/// Whitespace, per Unicode's `White_Space` property (what `str::trim`
/// trims).
pub open spec fn is_space(c: char) -> bool {
    ||| 0x9 <= c as u32 <= 0xD
    ||| c == ' '
    ||| c as u32 == 0x85
    ||| c as u32 == 0xA0
    ||| c as u32 == 0x1680
    ||| 0x2000 <= c as u32 <= 0x200A
    ||| c as u32 == 0x2028
    ||| c as u32 == 0x2029
    ||| c as u32 == 0x202F
    ||| c as u32 == 0x205F
    ||| c as u32 == 0x3000
}

/// The sequence without its leading whitespace.
pub open spec fn trim_front(s: Seq<char>) -> Seq<char>
    decreases s.len(),
{
    if s.len() > 0 && is_space(s[0]) {
        trim_front(s.drop_first())
    } else {
        s
    }
}

/// The sequence without its trailing whitespace.
pub open spec fn trim_back(s: Seq<char>) -> Seq<char>
    decreases s.len(),
{
    if s.len() > 0 && is_space(s.last()) {
        trim_back(s.drop_last())
    } else {
        s
    }
}

/// The sequence without leading and trailing whitespace.
pub open spec fn trimmed(s: Seq<char>) -> Seq<char> {
    trim_back(trim_front(s))
}

/// What `str::to_lowercase` makes of the text; a function of the
/// characters alone.
pub uninterp spec fn lower_of(s: Seq<char>) -> Seq<char>;

/// Relies on `str::to_lowercase`: the Unicode lowercase of the text, a pure
/// function of it. An empty text stays empty.
#[verifier::external_body]
fn to_lowercase(s: &str) -> (r: String)
    ensures
        r@ == lower_of(s@),
        s@.len() == 0 ==> r@.len() == 0,
{
    s.to_lowercase()
}

/// A normalized email address: trimmed, then lowered.
pub open spec fn normalized(s: Seq<char>) -> Seq<char> {
    lower_of(trimmed(s))
}

proof fn lemma_trim_front_is_skip(s: Seq<char>, i: int)
    requires
        0 <= i <= s.len(),
        forall|k: int| 0 <= k < i ==> is_space(s[k]),
        i < s.len() ==> !is_space(s[i]),
    ensures
        trim_front(s) == s.skip(i),
    decreases i,
{
    if i == 0 {
        assert(s.skip(0) =~= s);
    } else {
        lemma_trim_front_is_skip(s.drop_first(), i - 1);
        assert(s.drop_first().skip(i - 1) =~= s.skip(i));
    }
}

proof fn lemma_trim_back_is_take(s: Seq<char>, j: int)
    requires
        0 <= j <= s.len(),
        forall|k: int| j <= k < s.len() ==> is_space(s[k]),
        j > 0 ==> !is_space(s[j - 1]),
    ensures
        trim_back(s) == s.take(j),
    decreases s.len() - j,
{
    if j == s.len() {
        if s.len() > 0 && is_space(s.last()) {
            assert(false);
        }
        assert(s.take(j) =~= s);
    } else {
        lemma_trim_back_is_take(s.drop_last(), j);
        assert(s.drop_last().take(j) =~= s.take(j));
    }
}

fn is_space_exec(c: char) -> (r: bool)
    ensures
        r == is_space(c),
{
    let u = c as u32;
    (0x9 <= u && u <= 0xD) || u == 0x20 || u == 0x85 || u == 0xA0 || u == 0x1680 || (0x2000 <= u
        && u <= 0x200A) || u == 0x2028 || u == 0x2029 || u == 0x202F || u == 0x205F || u == 0x3000
}

/// Bounds of the whitespace-trimmed middle of `s`: the trimmed text is
/// `s@.subrange(i, j)`.
fn trim_bounds(s: &str) -> (r: (usize, usize))
    ensures
        0 <= r.0 <= r.1 <= s@.len(),
        trimmed(s@) == s@.subrange(r.0 as int, r.1 as int),
{
    let n = s.unicode_len();
    let mut i: usize = 0;
    while i < n && is_space_exec(s.get_char(i))
        invariant
            0 <= i <= n == s@.len(),
            forall|k: int| 0 <= k < i ==> is_space(s@[k]),
        decreases n - i,
    {
        i = i + 1;
    }
    let mut j: usize = n;
    while j > i && is_space_exec(s.get_char(j - 1))
        invariant
            i <= j <= n == s@.len(),
            forall|k: int| j <= k < n ==> is_space(s@[k]),
        decreases j,
    {
        j = j - 1;
    }
    proof {
        lemma_trim_front_is_skip(s@, i as int);
        lemma_trim_back_is_take(s@.skip(i as int), j - i);
        assert(s@.skip(i as int).take(j - i) =~= s@.subrange(i as int, j as int));
    }
    (i, j)
}

/// The text without leading and trailing whitespace.
pub fn trim(s: &str) -> (r: String)
    ensures
        r@ == trimmed(s@),
{
    let (i, j) = trim_bounds(s);
    let sub = s.substring_char(i, j);
    sub.to_owned()
}

/// The email address trimmed and lowered: the normal form under which
/// addresses are compared and opt-outs are recorded.
pub fn normalize_email(s: &str) -> (r: String)
    ensures
        r@ == normalized(s@),
{
    let (i, j) = trim_bounds(s);
    let sub = s.substring_char(i, j);
    to_lowercase(sub)
}

/// Trimming is idempotent: a trimmed text trims to itself, so the trimming
/// half of the normal form never moves a value further.
pub proof fn lemma_trimmed_idempotent(s: Seq<char>)
    ensures
        trimmed(trimmed(s)) == trimmed(s),
{
    let ft = trim_front(s);
    let t = trimmed(s);
    lemma_trim_front_no_lead(s);
    lemma_trim_back_no_trail(ft);
    if t.len() > 0 {
        lemma_trim_back_head(ft);
        assert(!is_space(t[0]));
        assert(trim_front(t) == t);
        assert(trim_back(t) == t);
    }
}

/// The front-trimmed text does not start with whitespace.
proof fn lemma_trim_front_no_lead(s: Seq<char>)
    ensures
        trim_front(s).len() > 0 ==> !is_space(trim_front(s)[0]),
    decreases s.len(),
{
    if s.len() > 0 && is_space(s[0]) {
        lemma_trim_front_no_lead(s.drop_first());
    }
}

/// The back-trimmed text does not end with whitespace.
proof fn lemma_trim_back_no_trail(s: Seq<char>)
    ensures
        trim_back(s).len() > 0 ==> !is_space(trim_back(s).last()),
    decreases s.len(),
{
    if s.len() > 0 && is_space(s.last()) {
        lemma_trim_back_no_trail(s.drop_last());
    }
}

/// Back-trimming keeps the first character.
proof fn lemma_trim_back_head(s: Seq<char>)
    ensures
        trim_back(s).len() > 0 ==> trim_back(s)[0] == s[0],
    decreases s.len(),
{
    if s.len() > 0 && is_space(s.last()) {
        lemma_trim_back_head(s.drop_last());
    }
}

/// The decimal digit character of a value below ten.
pub open spec fn digit_of(d: int) -> char {
    seq!['0', '1', '2', '3', '4', '5', '6', '7', '8', '9'][d]
}

/// The decimal representation of a number, most significant digit first.
pub open spec fn dec_rep(n: nat) -> Seq<char>
    decreases n,
{
    if n < 10 {
        seq![digit_of(n as int)]
    } else {
        dec_rep(n / 10).push(digit_of((n % 10) as int))
    }
}

fn digit_char(d: u64) -> (r: char)
    requires
        d < 10,
    ensures
        r == digit_of(d as int),
{
    match d {
        0 => '0',
        1 => '1',
        2 => '2',
        3 => '3',
        4 => '4',
        5 => '5',
        6 => '6',
        7 => '7',
        8 => '8',
        _ => '9',
    }
}

/// Appends the decimal representation of `n`.
pub fn push_dec(out: &mut String, n: u64)
    ensures
        final(out)@ == old(out)@ + dec_rep(n as nat),
    decreases n,
{
    if n >= 10 {
        push_dec(out, n / 10);
    }
    out.push(digit_char(n % 10));
    proof {
        assert(final(out)@ =~= old(out)@ + dec_rep(n as nat));
    }
}

/// The decimal representation padded with leading zeroes to `w` characters;
/// a longer representation is kept whole.
pub open spec fn dec_pad(n: nat, w: nat) -> Seq<char> {
    let rep = dec_rep(n);
    if rep.len() >= w {
        rep
    } else {
        Seq::new((w - rep.len()) as nat, |i: int| '0') + rep
    }
}

/// A number below `pow(10, k)` has at most `k` decimal digits.
proof fn lemma_dec_rep_len(n: nat, k: nat)
    requires
        k >= 1,
        n < vstd::arithmetic::power::pow(10, k),
    ensures
        dec_rep(n).len() <= k,
    decreases n,
{
    if n >= 10 {
        let p = vstd::arithmetic::power::pow(10, (k - 1) as nat);
        vstd::arithmetic::power::lemma_pow1(10);
        vstd::arithmetic::power::lemma_pow_adds(10, 1, (k - 1) as nat);
        assert(vstd::arithmetic::power::pow(10, k) == 10 * p);
        vstd::arithmetic::power::lemma_pow_positive(10, (k - 1) as nat);
        assert(k >= 2);
        assert(n / 10 < p) by (nonlinear_arith)
            requires
                n < 10 * p,
                p > 0,
        ;
        lemma_dec_rep_len(n / 10, (k - 1) as nat);
    }
}

/// Number of decimal digits of `n`.
fn dec_len(n: u64) -> (r: usize)
    ensures
        r == dec_rep(n as nat).len(),
        r <= 20,
    decreases n,
{
    proof {
        reveal_with_fuel(vstd::arithmetic::power::pow, 21);
        assert(vstd::arithmetic::power::pow(10, 20) == 100000000000000000000);
        lemma_dec_rep_len(n as nat, 20);
    }
    if n < 10 {
        1
    } else {
        let rest = dec_len(n / 10);
        assert(dec_rep(n as nat).len() == dec_rep(n as nat / 10).len() + 1);
        rest + 1
    }
}

/// Appends the decimal representation of `n`, zero-padded to `w` characters.
pub fn push_dec_pad(out: &mut String, n: u64, w: usize)
    ensures
        final(out)@ == old(out)@ + dec_pad(n as nat, w as nat),
    decreases n,
{
    let len = dec_len(n);
    let mut z: usize = 0;
    let ghost zeroes: Seq<char> = if len >= w {
        Seq::empty()
    } else {
        Seq::new((w - len) as nat, |i: int| '0')
    };
    while z + len < w
        invariant
            out@ =~= old(out)@ + zeroes.take(z as int),
            z <= zeroes.len(),
            len == dec_rep(n as nat).len(),
            zeroes == (if len >= w {
                Seq::<char>::empty()
            } else {
                Seq::new((w - len) as nat, |i: int| '0')
            }),
        decreases w - z,
    {
        out.push('0');
        z = z + 1;
        proof {
            assert(out@ =~= old(out)@ + zeroes.take(z as int));
        }
    }
    proof {
        assert(zeroes.take(z as int) =~= zeroes);
    }
    push_dec(out, n);
    proof {
        assert(final(out)@ =~= old(out)@ + dec_pad(n as nat, w as nat));
    }
}

} // verus!
