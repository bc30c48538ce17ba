//! Path resolution for file-serving endpoints.
//!
//! An endpoint that serves a directory receives a requested sub-path and must
//! resolve it against the canonical base directory it serves: `.` segments
//! are skipped, `..` segments step up one level, and any other segment
//! descends.  A request whose resolved path steps outside the base directory
//! must be rejected.  This module holds that decision; reading the file
//! itself is the surrounding application's affair.

use vstd::prelude::*;

verus! {

/// The segment that names the current directory.
pub open spec fn cur_token() -> Seq<char> {
    seq!['.']
}

/// The segment that names the parent directory.
pub open spec fn parent_token() -> Seq<char> {
    seq!['.', '.']
}

/// The views of a sequence of owned path segments.
pub open spec fn string_views(s: Seq<String>) -> Seq<Seq<char>> {
    s.map_values(|x: String| x@)
}

/// One resolution step: `.` keeps the path, `..` steps up one level (staying
/// put at the filesystem root), anything else descends.
pub open spec fn apply_segment(stack: Seq<Seq<char>>, seg: Seq<char>) -> Seq<Seq<char>> {
    if seg == cur_token() {
        stack
    } else if seg == parent_token() {
        if stack.len() > 0 {
            stack.drop_last()
        } else {
            stack
        }
    } else {
        stack.push(seg)
    }
}

/// The path that the requested segments resolve to, starting from the base
/// directory.
pub open spec fn resolved_path(base: Seq<Seq<char>>, segs: Seq<Seq<char>>) -> Seq<Seq<char>>
    decreases segs.len(),
{
    if segs.len() == 0 {
        base
    } else {
        apply_segment(resolved_path(base, segs.drop_last()), segs.last())
    }
}

/// Whether `pre` is a leading run of `full`, segment for segment.
pub open spec fn is_prefix_of(pre: Seq<Seq<char>>, full: Seq<Seq<char>>) -> bool {
    pre.len() <= full.len() && pre == full.subrange(0, pre.len() as int)
}

/// Whether the requested segments resolve to a path outside the base
/// directory: a directory-traversal attempt.
pub open spec fn escapes(base: Seq<Seq<char>>, segs: Seq<Seq<char>>) -> bool {
    !is_prefix_of(base, resolved_path(base, segs))
}

/// Whether `pre` is a leading run of `full`.
fn is_prefix(pre: &Vec<String>, full: &Vec<String>) -> (r: bool)
    ensures
        r == is_prefix_of(string_views(pre@), string_views(full@)),
{
    if pre.len() > full.len() {
        return false;
    }
    let mut t: usize = 0;
    while t < pre.len()
        invariant
            t <= pre@.len(),
            pre@.len() <= full@.len(),
            forall|j: int| 0 <= j < t ==> string_views(pre@)[j] == string_views(full@)[j],
        decreases pre@.len() - t,
    {
        let same: bool = pre[t].eq(&full[t]);
        if !same {
            proof {
                assert(string_views(pre@)[t as int] != string_views(full@)[t as int]);
                assert(string_views(pre@) != string_views(full@).subrange(
                    0,
                    pre@.len() as int,
                )) by {
                    assert(string_views(full@).subrange(0, pre@.len() as int)[t as int]
                        == string_views(full@)[t as int]);
                }
            }
            return false;
        }
        t = t + 1;
    }
    proof {
        assert(string_views(pre@) =~= string_views(full@).subrange(0, pre@.len() as int));
    }
    true
}

/// Resolve the requested sub-path segments against the canonical base
/// directory, the way a directory-serving endpoint must: `.` is skipped,
/// `..` steps up, anything else descends.  Returns the resolved path and
/// whether the request escapes the base directory and so must be rejected.
pub fn resolve_request(base: &Vec<String>, request: &Vec<String>) -> (r: (Vec<String>, bool))
    ensures
        string_views(r.0@) == resolved_path(string_views(base@), string_views(request@)),
        r.1 == escapes(string_views(base@), string_views(request@)),
{
    let cur: String = ".".to_owned();
    let parent: String = "..".to_owned();
    proof {
        reveal_strlit(".");
        reveal_strlit("..");
        assert(cur@ =~= cur_token());
        assert(parent@ =~= parent_token());
    }
    let mut stack: Vec<String> = Vec::new();
    let mut i: usize = 0;
    while i < base.len()
        invariant
            i <= base@.len(),
            stack@ == base@.subrange(0, i as int),
        decreases base@.len() - i,
    {
        stack.push(base[i].clone());
        proof {
            assert(base@.subrange(0, i as int + 1) =~= base@.subrange(0, i as int).push(
                base@[i as int],
            ));
        }
        i = i + 1;
    }
    proof {
        assert(base@.subrange(0, base@.len() as int) =~= base@);
        assert(string_views(request@).subrange(0, 0) =~= Seq::<Seq<char>>::empty());
        assert(resolved_path(string_views(base@), string_views(request@).subrange(0, 0))
            == string_views(base@));
    }
    let mut k: usize = 0;
    while k < request.len()
        invariant
            k <= request@.len(),
            cur@ == cur_token(),
            parent@ == parent_token(),
            string_views(stack@) == resolved_path(
                string_views(base@),
                string_views(request@).subrange(0, k as int),
            ),
        decreases request@.len() - k,
    {
        let seg: &String = &request[k];
        let ghost before = string_views(stack@);
        if seg.eq(&cur) {
        } else if seg.eq(&parent) {
            if stack.len() > 0 {
                let _ = stack.pop();
                proof {
                    assert(string_views(stack@) =~= before.drop_last());
                }
            }
        } else {
            stack.push(seg.clone());
            proof {
                assert(string_views(stack@) =~= before.push(seg@));
            }
        }
        proof {
            let rv = string_views(request@);
            assert(rv.subrange(0, k as int + 1).drop_last() =~= rv.subrange(0, k as int));
            assert(rv.subrange(0, k as int + 1).last() == seg@);
            assert(string_views(stack@) =~= apply_segment(before, seg@));
        }
        k = k + 1;
    }
    proof {
        assert(string_views(request@).subrange(0, request@.len() as int) =~= string_views(
            request@,
        ));
    }
    let inside: bool = is_prefix(base, &stack);
    (stack, !inside)
}

} // verus!
