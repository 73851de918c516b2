use vstd::prelude::*;
use vstd::string::*;

use crate::errors::OpError;

verus! {

/// Relies on std's `String::push`: appends the given character to the end
/// of the string.
pub assume_specification[ String::push ](s: &mut String, ch: char)
    ensures
        final(s)@ == old(s)@.push(ch),
;

/// A semantic version: three numeric components, always fully specified.
/// Its string form is exactly `"{major}.{minor}.{patch}"`.
#[derive(Clone, Copy, Debug, PartialEq, Eq, Structural)]
pub struct Version {
    pub major: u64,
    pub minor: u64,
    pub patch: u64,
}

/// `c` is a decimal digit.
pub open spec fn is_digit(c: char) -> bool {
    48 <= c as int && c as int <= 57
}

/// Numeric value of the digit `c`.
pub open spec fn digit_val(c: char) -> nat {
    (c as int - 48) as nat
}

/// Nonempty run of decimal digits.
pub open spec fn is_digit_seq(s: Seq<char>) -> bool {
    s.len() > 0 && forall|i: int| 0 <= i < s.len() ==> is_digit(#[trigger] s[i])
}

/// Value of a digit run read in base ten.
pub open spec fn digit_seq_val(s: Seq<char>) -> nat
    decreases s.len(),
{
    if s.len() == 0 {
        0
    } else {
        digit_seq_val(s.drop_last()) * 10 + digit_val(s.last())
    }
}

/// No dot anywhere in `s`.
pub open spec fn no_dot(s: Seq<char>) -> bool {
    forall|i: int| 0 <= i < s.len() ==> #[trigger] s[i] != '.'
}

/// `s` is `a` `'.'` `b` `'.'` `c` with each part a nonempty digit run.
pub open spec fn parses_to(s: Seq<char>, a: Seq<char>, b: Seq<char>, c: Seq<char>) -> bool {
    s == a + seq!['.'] + b + seq!['.'] + c && is_digit_seq(a) && is_digit_seq(b) && is_digit_seq(c)
}

/// `s` is a well-formed `"<uint>.<uint>.<uint>"` string.
pub open spec fn is_version_string(s: Seq<char>) -> bool {
    exists|abc: (Seq<char>, Seq<char>, Seq<char>)| parses_to(s, abc.0, abc.1, abc.2)
}

/// The three digit runs of a well-formed version string.
pub open spec fn version_parts(s: Seq<char>) -> (Seq<char>, Seq<char>, Seq<char>) {
    choose|abc: (Seq<char>, Seq<char>, Seq<char>)| parses_to(s, abc.0, abc.1, abc.2)
}

/// Mathematical value of the first component of a version string.
pub open spec fn spec_major(s: Seq<char>) -> nat {
    digit_seq_val(version_parts(s).0)
}

/// Mathematical value of the second component of a version string.
pub open spec fn spec_minor(s: Seq<char>) -> nat {
    digit_seq_val(version_parts(s).1)
}

/// Mathematical value of the third component of a version string.
pub open spec fn spec_patch(s: Seq<char>) -> nat {
    digit_seq_val(version_parts(s).2)
}

/// Every component value of the version string `s` fits the machine word.
pub open spec fn fits_u64(s: Seq<char>) -> bool {
    spec_major(s) <= u64::MAX && spec_minor(s) <= u64::MAX && spec_patch(s) <= u64::MAX
}

proof fn lemma_digit_seq_no_dot(s: Seq<char>)
    requires
        is_digit_seq(s),
    ensures
        no_dot(s),
{
    assert forall|i: int| 0 <= i < s.len() implies #[trigger] s[i] != '.' by {
        assert(is_digit(s[i]));
    }
}

proof fn lemma_split_unique(a: Seq<char>, r: Seq<char>, a2: Seq<char>, r2: Seq<char>)
    requires
        a + seq!['.'] + r == a2 + seq!['.'] + r2,
        no_dot(a),
        no_dot(a2),
    ensures
        a == a2,
        r == r2,
{
    let s = a + seq!['.'] + r;
    assert(s.len() == a.len() + 1 + r.len());
    assert(s.len() == a2.len() + 1 + r2.len());
    if a.len() < a2.len() {
        assert(s[a.len() as int] == '.');
        assert(s[a.len() as int] == a2[a.len() as int]);
        assert(false);
    }
    if a2.len() < a.len() {
        assert(s[a2.len() as int] == '.');
        assert(s[a2.len() as int] == a[a2.len() as int]);
        assert(false);
    }
    assert forall|i: int| 0 <= i < a.len() implies a[i] == a2[i] by {
        assert(s[i] == a[i]);
        assert(s[i] == a2[i]);
    }
    assert(a =~= a2);
    assert forall|i: int| 0 <= i < r.len() implies r[i] == r2[i] by {
        assert(s[a.len() + 1 + i] == r[i]);
        assert(s[a2.len() + 1 + i] == r2[i]);
    }
    assert(r =~= r2);
}

/// A string decomposes in at most one way into three dot-free parts
/// separated by single dots.
proof fn lemma_splits_unique(
    s: Seq<char>,
    a: Seq<char>,
    b: Seq<char>,
    c: Seq<char>,
    a2: Seq<char>,
    b2: Seq<char>,
    c2: Seq<char>,
)
    requires
        s == a + seq!['.'] + b + seq!['.'] + c,
        s == a2 + seq!['.'] + b2 + seq!['.'] + c2,
        no_dot(a),
        no_dot(b),
        no_dot(c),
        no_dot(a2),
        no_dot(b2),
        no_dot(c2),
    ensures
        a == a2,
        b == b2,
        c == c2,
{
    let r = b + seq!['.'] + c;
    let r2 = b2 + seq!['.'] + c2;
    assert(a + seq!['.'] + r =~= s);
    assert(a2 + seq!['.'] + r2 =~= s);
    lemma_split_unique(a, r, a2, r2);
    lemma_split_unique(b, c, b2, c2);
}

/// A well-formed version string has exactly one decomposition, so the
/// component values `spec_major`, `spec_minor`, `spec_patch` are those of
/// any decomposition at hand.
pub proof fn lemma_parts_unique(s: Seq<char>, a: Seq<char>, b: Seq<char>, c: Seq<char>)
    requires
        parses_to(s, a, b, c),
    ensures
        is_version_string(s),
        spec_major(s) == digit_seq_val(a),
        spec_minor(s) == digit_seq_val(b),
        spec_patch(s) == digit_seq_val(c),
{
    let abc = (a, b, c);
    assert(parses_to(s, abc.0, abc.1, abc.2));
    assert(is_version_string(s));
    let w = version_parts(s);
    assert(parses_to(s, w.0, w.1, w.2));
    lemma_digit_seq_no_dot(a);
    lemma_digit_seq_no_dot(b);
    lemma_digit_seq_no_dot(c);
    lemma_digit_seq_no_dot(w.0);
    lemma_digit_seq_no_dot(w.1);
    lemma_digit_seq_no_dot(w.2);
    lemma_splits_unique(s, w.0, w.1, w.2, a, b, c);
}

/// The decimal digit with value `d`.
pub open spec fn digit_char(d: nat) -> char
    recommends
        d < 10,
{
    if d == 0 {
        '0'
    } else if d == 1 {
        '1'
    } else if d == 2 {
        '2'
    } else if d == 3 {
        '3'
    } else if d == 4 {
        '4'
    } else if d == 5 {
        '5'
    } else if d == 6 {
        '6'
    } else if d == 7 {
        '7'
    } else if d == 8 {
        '8'
    } else {
        '9'
    }
}

/// Shortest decimal rendering of `n`: no leading zero except for zero
/// itself.
pub open spec fn digits_of(n: nat) -> Seq<char>
    decreases n,
{
    if n < 10 {
        seq![digit_char(n)]
    } else {
        digits_of(n / 10).push(digit_char(n % 10))
    }
}

/// The decimal rendering of `n` is a digit run whose value is `n`.
pub proof fn lemma_digits_of_digit_seq(n: nat)
    ensures
        is_digit_seq(digits_of(n)),
        digit_seq_val(digits_of(n)) == n,
    decreases n,
{
    if n < 10 {
        let s = seq![digit_char(n)];
        assert(is_digit(digit_char(n)));
        assert(s.drop_last() =~= Seq::<char>::empty());
        assert(digit_seq_val(Seq::<char>::empty()) == 0);
        assert(digit_seq_val(s) == digit_val(digit_char(n)));
        assert(digit_val(digit_char(n)) == n);
    } else {
        lemma_digits_of_digit_seq(n / 10);
        let p = digits_of(n / 10);
        let s = p.push(digit_char(n % 10));
        assert(s.drop_last() =~= p);
        assert(s.last() == digit_char(n % 10));
        assert(digit_seq_val(s) == digit_seq_val(p) * 10 + digit_val(digit_char(n % 10)));
        assert(digit_val(digit_char(n % 10)) == n % 10);
        assert(n / 10 * 10 + n % 10 == n);
        assert forall|i: int| 0 <= i < s.len() implies is_digit(#[trigger] s[i]) by {
            if i < p.len() {
                assert(s[i] == p[i]);
            } else {
                assert(s[i] == digit_char(n % 10));
            }
        }
    }
}

/// String form of `v`: the three components rendered in decimal and
/// joined by dots.
pub open spec fn spec_render(v: Version) -> Seq<char> {
    digits_of(v.major as nat) + seq!['.'] + digits_of(v.minor as nat) + seq!['.'] + digits_of(
        v.patch as nat,
    )
}

/// The version value a well-formed string denotes.
pub open spec fn spec_version_of(s: Seq<char>) -> Version
    recommends
        is_version_string(s),
        fits_u64(s),
{
    Version {
        major: spec_major(s) as u64,
        minor: spec_minor(s) as u64,
        patch: spec_patch(s) as u64,
    }
}

/// Rendering a version and parsing the result yields exactly the
/// components that went in: parsing is a left inverse of rendering, so
/// parse-render-parse round trips.
pub proof fn lemma_parse_of_render(v: Version)
    ensures
        is_version_string(spec_render(v)),
        spec_major(spec_render(v)) == v.major as nat,
        spec_minor(spec_render(v)) == v.minor as nat,
        spec_patch(spec_render(v)) == v.patch as nat,
        fits_u64(spec_render(v)),
{
    lemma_digits_of_digit_seq(v.major as nat);
    lemma_digits_of_digit_seq(v.minor as nat);
    lemma_digits_of_digit_seq(v.patch as nat);
    assert(parses_to(
        spec_render(v),
        digits_of(v.major as nat),
        digits_of(v.minor as nat),
        digits_of(v.patch as nat),
    ));
    lemma_parts_unique(
        spec_render(v),
        digits_of(v.major as nat),
        digits_of(v.minor as nat),
        digits_of(v.patch as nat),
    );
}

/// For any well-formed version string whose components fit the machine
/// word: parsing it, rendering the value, and parsing again gives back
/// the value of the first parse.
pub proof fn lemma_parse_render_round_trip(s: Seq<char>)
    requires
        is_version_string(s),
        fits_u64(s),
    ensures
        is_version_string(spec_render(spec_version_of(s))),
        fits_u64(spec_render(spec_version_of(s))),
        spec_version_of(spec_render(spec_version_of(s))) == spec_version_of(s),
{
    lemma_parse_of_render(spec_version_of(s));
}

impl Version {
    /// Increment the first component; the two lower components are reset
    /// to zero whatever they held.
    pub fn bump_major(&mut self)
        requires
            old(self).major < u64::MAX,
        ensures
            final(self).major == old(self).major + 1,
            final(self).minor == 0,
            final(self).patch == 0,
    {
        self.major = self.major + 1;
        self.minor = 0;
        self.patch = 0;
    }

    /// Increment the second component; the first is unchanged and the
    /// third is reset to zero.
    pub fn bump_minor(&mut self)
        requires
            old(self).minor < u64::MAX,
        ensures
            final(self).major == old(self).major,
            final(self).minor == old(self).minor + 1,
            final(self).patch == 0,
    {
        self.minor = self.minor + 1;
        self.patch = 0;
    }

    /// Render this version as `"{major}.{minor}.{patch}"`, each component
    /// in shortest decimal form; the exact inverse of `parse` on every
    /// value `parse` or a bump can produce.
    pub fn render(&self) -> (r: String)
        ensures
            r@ == spec_render(*self),
    {
        let mut s = render_u64(self.major);
        s.push('.');
        let mid = render_u64(self.minor);
        s.append(mid.as_str());
        s.push('.');
        let last = render_u64(self.patch);
        s.append(last.as_str());
        proof {
            assert(s@ =~= spec_render(*self));
        }
        s
    }

    /// Increment the third component; the first two are unchanged.
    pub fn bump_patch(&mut self)
        requires
            old(self).patch < u64::MAX,
        ensures
            final(self).major == old(self).major,
            final(self).minor == old(self).minor,
            final(self).patch == old(self).patch + 1,
    {
        self.patch = self.patch + 1;
    }
}

fn render_u64_into(n: u64, out: &mut String)
    ensures
        final(out)@ == old(out)@ + digits_of(n as nat),
    decreases n,
{
    let d: u8 = (n % 10) as u8;
    let c: char = (48 + d) as char;
    proof {
        assert(c == digit_char((n % 10) as nat));
    }
    if n < 10 {
        out.push(c);
        proof {
            assert(digits_of(n as nat) == seq![digit_char(n as nat)]);
            assert(final(out)@ =~= old(out)@ + digits_of(n as nat));
        }
    } else {
        render_u64_into(n / 10, out);
        out.push(c);
        proof {
            assert(digits_of(n as nat) == digits_of(n as nat / 10).push(
                digit_char(n as nat % 10),
            ));
            assert(final(out)@ =~= old(out)@ + digits_of(n as nat));
        }
    }
}

/// Shortest decimal rendering of `n`.
pub fn render_u64(n: u64) -> (r: String)
    ensures
        r@ == digits_of(n as nat),
{
    let mut s = String::new();
    render_u64_into(n, &mut s);
    proof {
        assert(s@ =~= digits_of(n as nat));
    }
    s
}

proof fn lemma_val_prefix_mono(t: Seq<char>, k: int)
    requires
        0 <= k <= t.len(),
    ensures
        digit_seq_val(t) >= digit_seq_val(t.subrange(0, k)),
    decreases t.len() - k,
{
    if k == t.len() {
        assert(t.subrange(0, k) =~= t);
    } else {
        lemma_val_prefix_mono(t, k + 1);
        let p = t.subrange(0, k);
        let q = t.subrange(0, k + 1);
        assert(q.drop_last() =~= p);
        assert(q.last() == t[k]);
        assert(digit_seq_val(q) == digit_seq_val(p) * 10 + digit_val(t[k]));
        assert(digit_seq_val(p) * 10 >= digit_seq_val(p)) by (nonlinear_arith);
    }
}

fn parse_component(s: &str, from: usize, to: usize) -> (r: Option<u64>)
    requires
        from <= to,
        to <= s@.len(),
    ensures
        r is Some <==> is_digit_seq(s@.subrange(from as int, to as int)) && digit_seq_val(
            s@.subrange(from as int, to as int),
        ) <= u64::MAX,
        r is Some ==> r->0 as nat == digit_seq_val(s@.subrange(from as int, to as int)),
{
    let ghost seg = s@.subrange(from as int, to as int);
    if from == to {
        return None;
    }
    let mut acc: u64 = 0;
    let mut j: usize = from;
    while j < to
        invariant
            from <= j <= to,
            to <= s@.len(),
            seg == s@.subrange(from as int, to as int),
            forall|k: int| from <= k < j ==> is_digit(#[trigger] s@[k]),
            acc as nat == digit_seq_val(s@.subrange(from as int, j as int)),
        decreases to - j,
    {
        let c: char = s.get_char(j);
        let cu: u32 = c as u32;
        if cu < 48 || cu > 57 {
            proof {
                assert(seg[j - from] == s@[j as int]);
                assert(!is_digit(s@[j as int]));
            }
            return None;
        }
        let d: u64 = (cu - 48) as u64;
        let ghost pre = s@.subrange(from as int, j as int);
        let ghost ext = s@.subrange(from as int, j + 1 as int);
        proof {
            assert(ext.drop_last() =~= pre);
            assert(ext.last() == s@[j as int]);
            assert(digit_val(s@[j as int]) == d as nat);
            assert(digit_seq_val(ext) == acc as nat * 10 + d as nat);
        }
        let step = match acc.checked_mul(10) {
            Some(m) => m.checked_add(d),
            None => None,
        };
        match step {
            Some(x) => {
                acc = x;
            },
            None => {
                proof {
                    if is_digit_seq(seg) {
                        lemma_val_prefix_mono(seg, j + 1 - from as int);
                        assert(seg.subrange(0, j + 1 - from as int) =~= ext);
                        assert(digit_seq_val(seg) >= digit_seq_val(ext));
                    }
                }
                return None;
            },
        }
        j = j + 1;
    }
    proof {
        assert(seg.len() > 0);
        assert forall|k: int| 0 <= k < seg.len() implies is_digit(#[trigger] seg[k]) by {
            assert(seg[k] == s@[from + k]);
        }
        assert(is_digit_seq(seg));
    }
    Some(acc)
}

/// No dot in `s` at any index of `[lo, hi)`.
pub open spec fn no_dot_range(s: Seq<char>, lo: int, hi: int) -> bool {
    forall|k: int| lo <= k < hi ==> #[trigger] s[k] != '.'
}

spec fn scan_inv(s: Seq<char>, i: int, d1: Option<usize>, d2: Option<usize>, d3: Option<
    usize,
>) -> bool {
    match (d1, d2, d3) {
        (Option::None, Option::None, Option::None) => no_dot_range(s, 0, i),
        (Option::Some(p1), Option::None, Option::None) => {
            &&& p1 < i
            &&& s[p1 as int] == '.'
            &&& no_dot_range(s, 0, p1 as int)
            &&& no_dot_range(s, p1 + 1, i)
        },
        (Option::Some(p1), Option::Some(p2), Option::None) => {
            &&& p1 < p2 < i
            &&& s[p1 as int] == '.'
            &&& s[p2 as int] == '.'
            &&& no_dot_range(s, 0, p1 as int)
            &&& no_dot_range(s, p1 + 1, p2 as int)
            &&& no_dot_range(s, p2 + 1, i)
        },
        (Option::Some(p1), Option::Some(p2), Option::Some(p3)) => {
            &&& p1 < p2 < p3 < i
            &&& s[p1 as int] == '.'
            &&& s[p2 as int] == '.'
            &&& s[p3 as int] == '.'
        },
        _ => false,
    }
}

proof fn lemma_dot_position(s: Seq<char>, a: Seq<char>, b: Seq<char>, c: Seq<char>, k: int)
    requires
        s == a + seq!['.'] + b + seq!['.'] + c,
        no_dot(a),
        no_dot(b),
        no_dot(c),
        0 <= k < s.len(),
        s[k] == '.',
    ensures
        k == a.len() || k == a.len() + 1 + b.len(),
{
    if k < a.len() {
        assert(s[k] == a[k]);
        assert(false);
    } else if k == a.len() {
    } else if k < a.len() + 1 + b.len() {
        assert(s[k] == b[k - a.len() - 1]);
        assert(false);
    } else if k == a.len() + 1 + b.len() {
    } else {
        assert(s[k] == c[k - a.len() - 2 - b.len()]);
        assert(false);
    }
}

/// Parse a string of the exact form `"<uint>.<uint>.<uint>"`; anything
/// else, and any component beyond the machine word, is rejected.
pub fn parse(s: &str) -> (r: Result<Version, OpError>)
    ensures
        r is Ok <==> is_version_string(s@) && fits_u64(s@),
        r is Ok ==> {
            &&& (r->Ok_0).major as nat == spec_major(s@)
            &&& (r->Ok_0).minor as nat == spec_minor(s@)
            &&& (r->Ok_0).patch as nat == spec_patch(s@)
        },
        r is Err ==> r->Err_0 == OpError::ParseError,
{
    let n: usize = s.unicode_len();
    let mut d1: Option<usize> = None;
    let mut d2: Option<usize> = None;
    let mut d3: Option<usize> = None;
    let mut i: usize = 0;
    while i < n
        invariant
            i <= n,
            n == s@.len(),
            scan_inv(s@, i as int, d1, d2, d3),
        decreases n - i,
    {
        let c: char = s.get_char(i);
        if c == '.' {
            if d1.is_none() {
                d1 = Some(i);
            } else if d2.is_none() {
                d2 = Some(i);
            } else if d3.is_none() {
                d3 = Some(i);
            }
        }
        i = i + 1;
    }
    match (d1, d2, d3) {
        (Some(p1), Some(p2), None) => {
            let ghost a = s@.subrange(0, p1 as int);
            let ghost b = s@.subrange(p1 + 1, p2 as int);
            let ghost c = s@.subrange(p2 + 1, n as int);
            proof {
                assert(s@ =~= a + seq!['.'] + b + seq!['.'] + c);
                assert(no_dot(a));
                assert(no_dot(b));
                assert(no_dot(c));
            }
            let va = parse_component(s, 0, p1);
            let vb = parse_component(s, p1 + 1, p2);
            let vc = parse_component(s, p2 + 1, n);
            match (va, vb, vc) {
                (Some(x), Some(y), Some(z)) => {
                    proof {
                        assert(parses_to(s@, a, b, c));
                        lemma_parts_unique(s@, a, b, c);
                    }
                    Ok(Version { major: x, minor: y, patch: z })
                },
                _ => {
                    proof {
                        if is_version_string(s@) && fits_u64(s@) {
                            let w = version_parts(s@);
                            assert(parses_to(s@, w.0, w.1, w.2));
                            lemma_parts_unique(s@, w.0, w.1, w.2);
                            lemma_digit_seq_no_dot(w.0);
                            lemma_digit_seq_no_dot(w.1);
                            lemma_digit_seq_no_dot(w.2);
                            lemma_splits_unique(s@, a, b, c, w.0, w.1, w.2);
                            assert(false);
                        }
                    }
                    Err(OpError::ParseError)
                },
            }
        },
        _ => {
            proof {
                if is_version_string(s@) {
                    let w = version_parts(s@);
                    assert(parses_to(s@, w.0, w.1, w.2));
                    lemma_digit_seq_no_dot(w.0);
                    lemma_digit_seq_no_dot(w.1);
                    lemma_digit_seq_no_dot(w.2);
                    let l1: int = w.0.len() as int;
                    let l2: int = w.0.len() + 1 + w.1.len() as int;
                    assert(s@[l1] == '.');
                    assert(s@[l2] == '.');
                    assert(l1 < l2);
                    match (d1, d2, d3) {
                        (Option::None, Option::None, Option::None) => {
                            assert(false);
                        },
                        (Option::Some(p1), Option::None, Option::None) => {
                            assert(l1 == p1 as int);
                            assert(l2 == p1 as int);
                            assert(false);
                        },
                        (Option::Some(p1), Option::Some(p2), Option::Some(p3)) => {
                            lemma_dot_position(s@, w.0, w.1, w.2, p1 as int);
                            lemma_dot_position(s@, w.0, w.1, w.2, p2 as int);
                            lemma_dot_position(s@, w.0, w.1, w.2, p3 as int);
                            assert(false);
                        },
                        _ => {
                            assert(false);
                        },
                    }
                }
            }
            Err(OpError::ParseError)
        },
    }
}

} // verus!
