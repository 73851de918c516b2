use vstd::prelude::*;
use vstd::string::*;

use crate::errors::OpError;
use crate::version::{
    Version, parse, spec_render, is_version_string, fits_u64, spec_major, spec_minor, spec_patch,
};

verus! {

/// The eleven characters that open a version assignment: the key, the
/// spaced equals sign, and the opening quote.
pub open spec fn version_key() -> Seq<char> {
    seq!['v', 'e', 'r', 's', 'i', 'o', 'n', ' ', '=', ' ', '"']
}

/// A version assignment opens at index `i` of `s`: at a line start, the
/// literal `version = "` followed by the quoted value.
pub open spec fn version_line_at(s: Seq<char>, i: int) -> bool {
    &&& 0 <= i
    &&& i + 11 <= s.len()
    &&& (i == 0 || s[i - 1] == '\n')
    &&& s.subrange(i, i + 11) == version_key()
}

/// `i` is the earliest version assignment in `s`.
pub open spec fn first_version_line(s: Seq<char>, i: int) -> bool {
    version_line_at(s, i) && forall|j: int| 0 <= j < i ==> !version_line_at(s, j)
}

/// Some version assignment occurs in `s`.
pub open spec fn has_version_line(s: Seq<char>) -> bool {
    exists|j: int| version_line_at(s, j)
}

/// `q` is the first quote of `s` at or after `lo`.
pub open spec fn quote_at(s: Seq<char>, lo: int, q: int) -> bool {
    lo <= q < s.len() && s[q] == '"' && forall|k: int| lo <= k < q ==> #[trigger] s[k] != '"'
}

/// The quoted value of a version assignment at `j` closes at `q`.
pub open spec fn value_quote(s: Seq<char>, j: int, q: int) -> bool {
    quote_at(s, j + 11, q)
}

/// The quoted value of a version assignment at `j`, closed at `q`, is a
/// well-formed version whose components fit the machine word.
pub open spec fn value_ok(s: Seq<char>, j: int, q: int) -> bool {
    is_version_string(s.subrange(j + 11, q)) && fits_u64(s.subrange(j + 11, q))
}

/// No quote in `s` at any index of `[lo, hi)`.
pub open spec fn no_quote_range(s: Seq<char>, lo: int, hi: int) -> bool {
    forall|k: int| lo <= k < hi ==> #[trigger] s[k] != '"'
}

proof fn lemma_first_vline_unique(s: Seq<char>, v: int, j: int)
    requires
        version_line_at(s, v),
        forall|j2: int| 0 <= j2 < v ==> !version_line_at(s, j2),
        first_version_line(s, j),
    ensures
        j == v,
{
    if j < v {
        assert(!version_line_at(s, j));
    }
    if v < j {
        assert(!version_line_at(s, v));
    }
}

/// The open project manifest: its full text, the located version value,
/// and that value parsed. The write path touches only the value between
/// `vstart` and `vend`.
pub struct CargoToml {
    pub text: String,
    pub vstart: usize,
    pub vend: usize,
    pub version: Version,
}

impl CargoToml {
    /// The raw text of the version field value.
    pub open spec fn field(self) -> Seq<char> {
        self.text@.subrange(self.vstart as int, self.vend as int)
    }

    /// Well-formed: `vstart..vend` delimits the quoted value of the first
    /// version assignment of the text, and `version` is its parse.
    pub open spec fn wf(self) -> bool {
        &&& 11 <= self.vstart <= self.vend < self.text@.len()
        &&& first_version_line(self.text@, self.vstart - 11)
        &&& quote_at(self.text@, self.vstart as int, self.vend as int)
        &&& is_version_string(self.field())
        &&& fits_u64(self.field())
        &&& self.version.major as nat == spec_major(self.field())
        &&& self.version.minor as nat == spec_minor(self.field())
        &&& self.version.patch as nat == spec_patch(self.field())
    }

    /// The parsed version held by the manifest; read-only.
    pub fn current_version(&self) -> (r: Version)
        requires
            self.wf(),
        ensures
            r == self.version,
            r.major as nat == spec_major(self.field()),
            r.minor as nat == spec_minor(self.field()),
            r.patch as nat == spec_patch(self.field()),
    {
        self.version
    }

    /// The version field exactly as the manifest spells it; read-only.
    pub fn version_field_text(&self) -> (r: String)
        requires
            self.wf(),
        ensures
            r@ == self.field(),
    {
        self.text.as_str().substring_char(self.vstart, self.vend).to_owned()
    }

    /// Rewrite the version value in place: the result is the manifest
    /// text with only the characters between the quotes replaced by the
    /// rendering of `v`; every other character is preserved exactly.
    pub fn write_version(&self, v: &Version) -> (r: String)
        requires
            self.wf(),
        ensures
            r@ == self.text@.subrange(0, self.vstart as int) + spec_render(*v)
                + self.text@.subrange(self.vend as int, self.text@.len() as int),
    {
        let n: usize = self.text.as_str().unicode_len();
        let pre = self.text.as_str().substring_char(0, self.vstart);
        let mut out = pre.to_owned();
        let mid = v.render();
        out.append(mid.as_str());
        let suf = self.text.as_str().substring_char(self.vend, n);
        out.append(suf);
        out
    }
}

fn match_key(s: &str, i: usize) -> (r: bool)
    requires
        i + 11 <= s@.len(),
        i + 11 <= usize::MAX,
    ensures
        r <==> s@.subrange(i as int, i + 11) == version_key(),
{
    let r = s.get_char(i) == 'v' && s.get_char(i + 1) == 'e' && s.get_char(i + 2) == 'r'
        && s.get_char(i + 3) == 's' && s.get_char(i + 4) == 'i' && s.get_char(i + 5) == 'o'
        && s.get_char(i + 6) == 'n' && s.get_char(i + 7) == ' ' && s.get_char(i + 8) == '='
        && s.get_char(i + 9) == ' ' && s.get_char(i + 10) == '"';
    proof {
        let sub = s@.subrange(i as int, i + 11);
        if r {
            assert(sub =~= version_key());
        }
        if sub == version_key() {
            assert(s@[i as int] == sub[0]);
            assert(s@[i + 1] == sub[1]);
            assert(s@[i + 2] == sub[2]);
            assert(s@[i + 3] == sub[3]);
            assert(s@[i + 4] == sub[4]);
            assert(s@[i + 5] == sub[5]);
            assert(s@[i + 6] == sub[6]);
            assert(s@[i + 7] == sub[7]);
            assert(s@[i + 8] == sub[8]);
            assert(s@[i + 9] == sub[9]);
            assert(s@[i + 10] == sub[10]);
        }
    }
    r
}

/// Locate the first version assignment of the text, parse its quoted
/// value, and return the open manifest. Fails with `MissingVersionField`
/// when no assignment occurs, `ManifestParseError` when the value's
/// closing quote is absent, and `ParseError` when the value is not a
/// well-formed version.
pub fn from_text(text: String) -> (r: Result<CargoToml, OpError>)
    ensures
        r matches Ok(m) ==> m.wf() && m.text@ == text@,
        r matches Err(e) ==> (e == OpError::MissingVersionField || e == OpError::ManifestParseError
            || e == OpError::ParseError),
        (r matches Err(e) && e == OpError::MissingVersionField) <==> !has_version_line(text@),
        (r matches Err(e) && e == OpError::ManifestParseError) <==> (exists|j: int|
            #[trigger] first_version_line(text@, j) && no_quote_range(
                text@,
                j + 11,
                text@.len() as int,
            )),
        (r matches Err(e) && e == OpError::ParseError) <==> (exists|j: int, q: int|
            first_version_line(text@, j) && #[trigger] value_quote(text@, j, q) && !value_ok(
                text@,
                j,
                q,
            )),
{
    let n: usize = text.as_str().unicode_len();
    if n < 11 {
        proof {
            assert(forall|j: int| !version_line_at(text@, j));
        }
        return Err(OpError::MissingVersionField);
    }
    let mut found: Option<usize> = None;
    let mut i: usize = 0;
    while found.is_none() && i <= n - 11
        invariant
            n == text@.len(),
            11 <= n,
            i <= n,
            found matches Some(v) ==> version_line_at(text@, v as int) && (forall|j: int|
                0 <= j < v ==> !version_line_at(text@, j)),
            found is None ==> forall|j: int| 0 <= j < i ==> !version_line_at(text@, j),
        decreases n - i + (if found is None {
            1int
        } else {
            0int
        }),
    {
        let line_start = i == 0 || text.as_str().get_char(i - 1) == '\n';
        if line_start && match_key(text.as_str(), i) {
            found = Some(i);
        }
        i = i + 1;
    }
    let v: usize = match found {
        Some(v) => v,
        None => {
            proof {
                assert forall|j: int| !version_line_at(text@, j) by {
                    if 0 <= j < i {
                        assert(!version_line_at(text@, j));
                    }
                }
            }
            return Err(OpError::MissingVersionField);
        },
    };
    let vstart: usize = v + 11;
    let mut k: usize = vstart;
    let mut quote: Option<usize> = None;
    while quote.is_none() && k < n
        invariant
            n == text@.len(),
            vstart <= k <= n,
            version_line_at(text@, v as int),
            forall|j: int| 0 <= j < v ==> !version_line_at(text@, j),
            vstart == v + 11,
            quote matches Some(q) ==> quote_at(text@, vstart as int, q as int),
            quote is None ==> no_quote_range(text@, vstart as int, k as int),
        decreases n - k + (if quote is None {
            1int
        } else {
            0int
        }),
    {
        if text.as_str().get_char(k) == '"' {
            quote = Some(k);
        }
        k = k + 1;
    }
    let q: usize = match quote {
        Some(q) => q,
        None => {
            proof {
                assert(first_version_line(text@, v as int));
                assert(no_quote_range(text@, v + 11, text@.len() as int));
                assert forall|j: int, q2: int|
                    !(first_version_line(text@, j) && #[trigger] value_quote(text@, j, q2)
                        && !value_ok(text@, j, q2)) by {
                    if first_version_line(text@, j) {
                        lemma_first_vline_unique(text@, v as int, j);
                    }
                }
            }
            return Err(OpError::ManifestParseError);
        },
    };
    let value = text.as_str().substring_char(vstart, q);
    match parse(value) {
        Ok(ver) => {
            let m = CargoToml { text, vstart, vend: q, version: ver };
            proof {
                assert(m.field() == text@.subrange(v + 11, q as int));
                assert(m.wf());
                assert forall|j: int|
                    !(#[trigger] first_version_line(text@, j) && no_quote_range(
                        text@,
                        j + 11,
                        text@.len() as int,
                    )) by {
                    if first_version_line(text@, j) {
                        lemma_first_vline_unique(text@, v as int, j);
                    }
                }
                assert forall|j: int, q2: int|
                    !(first_version_line(text@, j) && #[trigger] value_quote(text@, j, q2)
                        && !value_ok(text@, j, q2)) by {
                    if first_version_line(text@, j) && value_quote(text@, j, q2) {
                        lemma_first_vline_unique(text@, v as int, j);
                        if q2 < q {
                            assert(text@[q2] != '"');
                        }
                        if (q as int) < q2 {
                            assert(text@[q as int] != '"');
                        }
                    }
                }
            }
            Ok(m)
        },
        Err(_) => {
            proof {
                assert(first_version_line(text@, v as int));
                assert(value_quote(text@, v as int, q as int));
                assert(value@ == text@.subrange(v + 11, q as int));
                assert(!value_ok(text@, v as int, q as int));
                assert forall|j: int|
                    !(#[trigger] first_version_line(text@, j) && no_quote_range(
                        text@,
                        j + 11,
                        text@.len() as int,
                    )) by {
                    if first_version_line(text@, j) {
                        lemma_first_vline_unique(text@, v as int, j);
                        assert(text@[q as int] == '"');
                    }
                }
            }
            Err(OpError::ParseError)
        },
    }
}

} // verus!
