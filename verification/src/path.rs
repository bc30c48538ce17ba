//! Slash-normalized path accumulation.
//!
//! A [`Path`] collects URL path segments one `append` at a time.  Joining is
//! normalized: exactly one `/` separates the trimmed forms of the two sides,
//! while a leading slash on the very first segment and a trailing slash on the
//! last segment are preserved.

use vstd::prelude::*;
use vstd::string::StrSliceExecFns;
use vstd::string::StringExecFns;

verus! {

/// True when every character of `s` is a `/`.
pub open spec fn all_slashes(s: Seq<char>) -> bool {
    forall|i: int| 0 <= i < s.len() ==> s[i] == '/'
}

/// `p` without its trailing run of `/` characters.
pub open spec fn trim_trailing_slashes(p: Seq<char>) -> Seq<char>
    decreases p.len(),
{
    if p.len() > 0 && p.last() == '/' {
        trim_trailing_slashes(p.drop_last())
    } else {
        p
    }
}

/// `s` without its leading run of `/` characters.
pub open spec fn trim_leading_slashes(s: Seq<char>) -> Seq<char>
    decreases s.len(),
{
    if s.len() > 0 && s[0] == '/' {
        trim_leading_slashes(s.drop_first())
    } else {
        s
    }
}

/// The path obtained by appending segment `s` to the accumulated path `p`:
/// `s` itself when `p` is empty, otherwise the trimmed sides with exactly one
/// `/` between them.
pub open spec fn join(p: Seq<char>, s: Seq<char>) -> Seq<char> {
    if p.len() == 0 {
        s
    } else {
        trim_trailing_slashes(p) + seq!['/'] + trim_leading_slashes(s)
    }
}

proof fn lemma_trim_trailing_concat_all_slashes(p: Seq<char>, q: Seq<char>)
    requires
        all_slashes(q),
    ensures
        trim_trailing_slashes(p + q) == trim_trailing_slashes(p),
    decreases q.len(),
{
    if q.len() == 0 {
        assert(p + q =~= p);
    } else {
        assert((p + q).last() == q.last());
        assert((p + q).drop_last() =~= p + q.drop_last());
        lemma_trim_trailing_concat_all_slashes(p, q.drop_last());
    }
}

proof fn lemma_trim_trailing_concat(p: Seq<char>, q: Seq<char>)
    requires
        !all_slashes(q),
    ensures
        trim_trailing_slashes(p + q) == p + trim_trailing_slashes(q),
    decreases q.len(),
{
    assert((p + q).last() == q.last());
    if q.last() == '/' {
        assert((p + q).drop_last() =~= p + q.drop_last());
        assert(!all_slashes(q.drop_last())) by {
            let k = choose|k: int| 0 <= k < q.len() && q[k] != '/';
            assert(q.drop_last()[k] != '/');
        }
        lemma_trim_trailing_concat(p, q.drop_last());
    } else {
        assert(trim_trailing_slashes(p + q) == p + q);
    }
}

proof fn lemma_trim_leading_concat_all_slashes(p: Seq<char>, q: Seq<char>)
    requires
        all_slashes(p),
    ensures
        trim_leading_slashes(p + q) == trim_leading_slashes(q),
    decreases p.len(),
{
    if p.len() == 0 {
        assert(p + q =~= q);
    } else {
        assert((p + q)[0] == p[0]);
        assert((p + q).drop_first() =~= p.drop_first() + q);
        lemma_trim_leading_concat_all_slashes(p.drop_first(), q);
    }
}

proof fn lemma_trim_leading_concat(p: Seq<char>, q: Seq<char>)
    requires
        !all_slashes(p),
    ensures
        trim_leading_slashes(p + q) == trim_leading_slashes(p) + q,
    decreases p.len(),
{
    assert((p + q)[0] == p[0]);
    if p[0] == '/' {
        assert((p + q).drop_first() =~= p.drop_first() + q);
        assert(!all_slashes(p.drop_first())) by {
            let k = choose|k: int| 0 <= k < p.len() && p[k] != '/';
            assert(p.drop_first()[k - 1] != '/');
        }
        lemma_trim_leading_concat(p.drop_first(), q);
    } else {
        assert(trim_leading_slashes(p + q) == p + q);
    }
}

proof fn lemma_trim_trailing_all_slashes(p: Seq<char>)
    requires
        all_slashes(p),
    ensures
        trim_trailing_slashes(p) == Seq::<char>::empty(),
    decreases p.len(),
{
    if p.len() == 0 {
        assert(p =~= Seq::<char>::empty());
    } else {
        lemma_trim_trailing_all_slashes(p.drop_last());
    }
}

proof fn lemma_trim_leading_all_slashes(p: Seq<char>)
    requires
        all_slashes(p),
    ensures
        trim_leading_slashes(p) == Seq::<char>::empty(),
    decreases p.len(),
{
    if p.len() == 0 {
        assert(p =~= Seq::<char>::empty());
    } else {
        lemma_trim_leading_all_slashes(p.drop_first());
    }
}

proof fn lemma_trim_trailing_props(p: Seq<char>)
    ensures
        trim_trailing_slashes(p).len() > 0 ==> trim_trailing_slashes(p).last() != '/',
        trim_trailing_slashes(p).len() > 0 ==> trim_trailing_slashes(p)[0] == p[0],
        !all_slashes(p) ==> trim_trailing_slashes(p).len() > 0 && !all_slashes(
            trim_trailing_slashes(p),
        ),
    decreases p.len(),
{
    if p.len() > 0 && p.last() == '/' {
        lemma_trim_trailing_props(p.drop_last());
        if !all_slashes(p) {
            assert(!all_slashes(p.drop_last())) by {
                let k = choose|k: int| 0 <= k < p.len() && p[k] != '/';
                assert(p.drop_last()[k] != '/');
            }
        }
    } else {
        if p.len() > 0 && !all_slashes(p) {
            assert(trim_trailing_slashes(p) == p);
        }
    }
}

proof fn lemma_trim_leading_props(p: Seq<char>)
    ensures
        trim_leading_slashes(p).len() > 0 ==> trim_leading_slashes(p)[0] != '/',
        trim_leading_slashes(p).len() > 0 ==> trim_leading_slashes(p).last() == p.last(),
        !all_slashes(p) ==> trim_leading_slashes(p).len() > 0 && !all_slashes(
            trim_leading_slashes(p),
        ),
    decreases p.len(),
{
    if p.len() > 0 && p[0] == '/' {
        lemma_trim_leading_props(p.drop_first());
        if !all_slashes(p) {
            assert(!all_slashes(p.drop_first())) by {
                let k = choose|k: int| 0 <= k < p.len() && p[k] != '/';
                assert(p.drop_first()[k - 1] != '/');
            }
        }
        assert(p.drop_first().len() > 0 ==> p.drop_first().last() == p.last());
    }
}

proof fn lemma_trim_trailing_idempotent(p: Seq<char>)
    ensures
        trim_trailing_slashes(trim_trailing_slashes(p)) == trim_trailing_slashes(p),
{
    lemma_trim_trailing_props(p);
}

proof fn lemma_trim_leading_idempotent(p: Seq<char>)
    ensures
        trim_leading_slashes(trim_leading_slashes(p)) == trim_leading_slashes(p),
{
    lemma_trim_leading_props(p);
}

proof fn lemma_trim_commute(p: Seq<char>)
    ensures
        trim_trailing_slashes(trim_leading_slashes(p)) == trim_leading_slashes(
            trim_trailing_slashes(p),
        ),
    decreases p.len(),
{
    if p.len() == 0 {
    } else if p[0] == '/' {
        if all_slashes(p) {
            lemma_trim_leading_all_slashes(p);
            lemma_trim_trailing_all_slashes(p);
        } else {
            let rest = p.drop_first();
            assert(!all_slashes(rest)) by {
                let k = choose|k: int| 0 <= k < p.len() && p[k] != '/';
                assert(rest[k - 1] != '/');
            }
            lemma_trim_commute(rest);
            assert(p =~= seq![p[0]] + rest);
            lemma_trim_trailing_concat(seq![p[0]], rest);
            assert(trim_trailing_slashes(p) == seq![p[0]] + trim_trailing_slashes(rest));
            assert(all_slashes(seq![p[0]]));
            lemma_trim_leading_concat_all_slashes(seq![p[0]], trim_trailing_slashes(rest));
        }
    } else {
        // `p` starts with a non-slash character, so it survives both trims.
        assert(trim_leading_slashes(p) == p);
        assert(!all_slashes(p));
        lemma_trim_trailing_props(p);
        lemma_trim_leading_props(trim_trailing_slashes(p));
        assert(trim_trailing_slashes(p)[0] == p[0]);
        assert(trim_leading_slashes(trim_trailing_slashes(p)) == trim_trailing_slashes(p));
    }
}

/// Joining is associative: appending segments one at a time and appending an
/// already-joined pair yield the same composed path, for any three segments.
pub proof fn lemma_join_associative(a: Seq<char>, b: Seq<char>, c: Seq<char>)
    ensures
        join(join(a, b), c) == join(a, join(b, c)),
{
    if a.len() == 0 {
    } else {
        let j1 = join(a, b);
        assert(j1.len() > 0);
        if all_slashes(b) {
            // The middle segment contributes nothing but slashes.
            lemma_trim_leading_all_slashes(b);
            assert(all_slashes(seq!['/'] + trim_leading_slashes(b)));
            lemma_trim_trailing_concat_all_slashes(
                trim_trailing_slashes(a),
                seq!['/'] + trim_leading_slashes(b),
            );
            assert(trim_trailing_slashes(a) + (seq!['/'] + trim_leading_slashes(b)) =~= j1);
            lemma_trim_trailing_idempotent(a);
            assert(trim_trailing_slashes(j1) == trim_trailing_slashes(a));
            if b.len() == 0 {
            } else {
                lemma_trim_trailing_all_slashes(b);
                let j2 = join(b, c);
                assert(j2 =~= seq!['/'] + trim_leading_slashes(c));
                assert(j2.len() > 0);
                assert(all_slashes(seq!['/']));
                lemma_trim_leading_concat_all_slashes(seq!['/'], trim_leading_slashes(c));
                lemma_trim_leading_idempotent(c);
                assert(trim_leading_slashes(j2) == trim_leading_slashes(c));
            }
        } else {
            let tlb = trim_leading_slashes(b);
            let ttb = trim_trailing_slashes(b);
            lemma_trim_leading_props(b);
            lemma_trim_trailing_props(b);
            // Left side: trim the trailing slashes of `join(a, b)`.
            assert(trim_trailing_slashes(a) + seq!['/'] + tlb =~= trim_trailing_slashes(a) + (
            seq!['/'] + tlb));
            assert(!all_slashes(seq!['/'] + tlb)) by {
                let k = choose|k: int| 0 <= k < tlb.len() && tlb[k] != '/';
                assert((seq!['/'] + tlb)[k + 1] != '/');
            }
            lemma_trim_trailing_concat(trim_trailing_slashes(a), seq!['/'] + tlb);
            lemma_trim_trailing_concat(seq!['/'], tlb);
            assert(trim_trailing_slashes(j1) == trim_trailing_slashes(a) + (seq!['/']
                + trim_trailing_slashes(tlb)));
            // Right side: trim the leading slashes of `join(b, c)`.
            assert(b.len() > 0);
            let j2 = join(b, c);
            assert(j2 =~= ttb + (seq!['/'] + trim_leading_slashes(c)));
            lemma_trim_leading_concat(ttb, seq!['/'] + trim_leading_slashes(c));
            assert(trim_leading_slashes(j2) == trim_leading_slashes(ttb) + (seq!['/']
                + trim_leading_slashes(c)));
            lemma_trim_commute(b);
            assert(join(j1, c) =~= trim_trailing_slashes(a) + (seq!['/'] + trim_trailing_slashes(
                tlb,
            )) + seq!['/'] + trim_leading_slashes(c));
            assert(join(a, j2) =~= trim_trailing_slashes(a) + seq!['/'] + (trim_leading_slashes(ttb)
                + (seq!['/'] + trim_leading_slashes(c))));
            assert(join(join(a, b), c) =~= join(a, join(b, c)));
        }
    }
}

/// A leading slash on the accumulated path survives every further join: the
/// composed path still starts with `/`.
pub proof fn lemma_join_preserves_leading_slash(p: Seq<char>, s: Seq<char>)
    requires
        p.len() > 0,
        p[0] == '/',
    ensures
        join(p, s).len() > 0,
        join(p, s)[0] == '/',
{
    lemma_trim_trailing_props(p);
    if trim_trailing_slashes(p).len() == 0 {
        assert(join(p, s)[0] == (seq!['/'] + trim_leading_slashes(s))[0]);
    } else {
        assert(join(p, s)[0] == trim_trailing_slashes(p)[0]);
    }
}

/// A trailing slash on the last joined segment survives the join: the
/// composed path still ends with `/`.
pub proof fn lemma_join_preserves_trailing_slash(p: Seq<char>, s: Seq<char>)
    requires
        s.len() > 0,
        s.last() == '/',
    ensures
        join(p, s).len() > 0,
        join(p, s).last() == '/',
{
    if p.len() == 0 {
    } else {
        lemma_trim_leading_props(s);
        let j = join(p, s);
        if trim_leading_slashes(s).len() == 0 {
            assert(j.last() == (trim_trailing_slashes(p) + seq!['/']).last());
        } else {
            assert(j.last() == trim_leading_slashes(s).last());
        }
    }
}

/// A slash-normalized path built by successively joining segments.
pub struct Path {
    text: String,
}

impl View for Path {
    type V = Seq<char>;

    closed spec fn view(&self) -> Seq<char> {
        self.text@
    }
}

impl Clone for Path {
    fn clone(&self) -> (r: Self)
        ensures
            r@ == self@,
    {
        Path { text: self.text.clone() }
    }
}

impl Path {
    /// The empty accumulator.
    pub fn new() -> (p: Path)
        ensures
            p@ == Seq::<char>::empty(),
    {
        Path { text: String::new() }
    }

    /// An accumulator that starts out holding `segment` verbatim.
    pub fn prefix(segment: &str) -> (p: Path)
        ensures
            p@ == segment@,
    {
        Path { text: segment.to_owned() }
    }

    /// Join `segment` onto the accumulated path, normalizing the slashes
    /// between the two sides.
    pub fn append(self, segment: &str) -> (r: Path)
        ensures
            r@ == join(self@, segment@),
    {
        if self.text.as_str().is_empty() {
            Path { text: segment.to_owned() }
        } else {
            let cur: &str = self.text.as_str();
            let n: usize = cur.unicode_len();
            proof {
                assert(cur@.subrange(0, n as int) =~= cur@);
            }
            let mut i: usize = n;
            while i > 0 && cur.get_char(i - 1) == '/'
                invariant
                    i <= n,
                    n == cur@.len(),
                    trim_trailing_slashes(cur@) == trim_trailing_slashes(
                        cur@.subrange(0, i as int),
                    ),
                decreases i,
            {
                proof {
                    assert(cur@.subrange(0, i as int).drop_last() =~= cur@.subrange(
                        0,
                        i as int - 1,
                    ));
                }
                i = i - 1;
            }
            let stem: &str = cur.substring_char(0, i);
            proof {
                if i > 0 {
                    assert(cur@.subrange(0, i as int).last() == cur@[i as int - 1]);
                }
                assert(trim_trailing_slashes(cur@.subrange(0, i as int)) == cur@.subrange(
                    0,
                    i as int,
                ));
            }
            let m: usize = segment.unicode_len();
            proof {
                assert(segment@.subrange(0, m as int) =~= segment@);
            }
            let mut j: usize = 0;
            while j < m && segment.get_char(j) == '/'
                invariant
                    j <= m,
                    m == segment@.len(),
                    trim_leading_slashes(segment@) == trim_leading_slashes(
                        segment@.subrange(j as int, m as int),
                    ),
                decreases m - j,
            {
                proof {
                    assert(segment@.subrange(j as int, m as int).drop_first()
                        =~= segment@.subrange(j as int + 1, m as int));
                }
                j = j + 1;
            }
            let tail: &str = segment.substring_char(j, m);
            proof {
                assert(trim_leading_slashes(segment@.subrange(j as int, m as int))
                    == segment@.subrange(j as int, m as int));
            }
            let mut out: String = stem.to_owned();
            out.append("/");
            out.append(tail);
            proof {
                reveal_strlit("/");
                assert(out@ =~= trim_trailing_slashes(self@) + seq!['/'] + trim_leading_slashes(
                    segment@,
                ));
            }
            Path { text: out }
        }
    }

    /// The accumulated path as a string.
    pub fn to_string(&self) -> (s: String)
        ensures
            s@ == self@,
    {
        self.text.clone()
    }
}

} // verus!
