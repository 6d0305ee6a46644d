//! Sandboxed resolution of a requested path against the served root.
//!
//! A requested path must be absolute and may consist only of plain name
//! segments; parent-directory and current-directory references are refused
//! segment by segment, so the candidate path handed back is always a
//! descendant of the root. The resolver never touches the filesystem:
//! whether the candidate exists is the caller's concern.

use vstd::prelude::*;

verus! {

/// Path separator byte (`'/'`).
pub const SLASH: u8 = 47;

/// Dot byte (`'.'`), the building block of `.` and `..` segments.
pub const DOT: u8 = 46;

/// Why a requested path was refused.
#[derive(Clone, Copy, Debug, PartialEq, Eq, Structural)]
pub enum ResolveError {
    /// The requested path did not start with a separator.
    PathNotAbsolute,
    /// A segment was a parent- or current-directory reference.
    IllegalPathComponent,
}

/// A one-byte segment holding a single dot: a current-directory reference.
pub open spec fn is_cur_dir(seg: Seq<u8>) -> bool {
    seg.len() == 1 && seg[0] == DOT
}

/// A two-byte segment of two dots: a parent-directory reference.
pub open spec fn is_parent_dir(seg: Seq<u8>) -> bool {
    seg.len() == 2 && seg[0] == DOT && seg[1] == DOT
}

/// A segment that may be appended under the root: nonempty, free of
/// separators, and not a directory reference.
pub open spec fn is_plain_segment(seg: Seq<u8>) -> bool {
    &&& seg.len() > 0
    &&& !is_cur_dir(seg)
    &&& !is_parent_dir(seg)
    &&& forall|i: int| 0 <= i < seg.len() ==> seg[i] != SLASH
}

/// The segments of `s`, split on every separator. Empty segments (from
/// doubled or trailing separators) are kept here and skipped when joining.
pub open spec fn split_segments(s: Seq<u8>) -> Seq<Seq<u8>>
    decreases s.len(),
{
    if s.len() == 0 {
        seq![Seq::<u8>::empty()]
    } else if s[0] == SLASH {
        seq![Seq::<u8>::empty()] + split_segments(s.skip(1))
    } else {
        let rest = split_segments(s.skip(1));
        seq![seq![s[0]] + rest[0]] + rest.skip(1)
    }
}

/// No segment is a directory reference.
pub open spec fn all_segments_legal(segs: Seq<Seq<u8>>) -> bool {
    forall|i: int| 0 <= i < segs.len() ==> !is_cur_dir(#[trigger] segs[i]) && !is_parent_dir(segs[i])
}

/// The bytes appended under the root: one separator before each nonempty
/// segment, in order; empty segments contribute nothing.
pub open spec fn rendered(segs: Seq<Seq<u8>>) -> Seq<u8>
    decreases segs.len(),
{
    if segs.len() == 0 {
        Seq::<u8>::empty()
    } else if segs[0].len() == 0 {
        rendered(segs.skip(1))
    } else {
        seq![SLASH] + segs[0] + rendered(segs.skip(1))
    }
}

/// What resolving an absolute path comes to: refuse any directory
/// reference among the segments, otherwise join the plain segments,
/// in order, under the root.
pub open spec fn segments_outcome(root: Seq<u8>, segs: Seq<Seq<u8>>) -> Result<Seq<u8>, ResolveError> {
    if all_segments_legal(segs) {
        Ok(root + rendered(segs))
    } else {
        Err(ResolveError::IllegalPathComponent)
    }
}

/// The resolver's result on `root` and a requested `path`: a path that is
/// not absolute is refused outright; otherwise the outcome of its segments.
pub open spec fn spec_resolve(root: Seq<u8>, path: Seq<u8>) -> Result<Seq<u8>, ResolveError> {
    if path.len() == 0 || path[0] != SLASH {
        Err(ResolveError::PathNotAbsolute)
    } else {
        segments_outcome(root, split_segments(path.skip(1)))
    }
}

/// A parent-directory traversal pattern at position `j` of `p`: a separator
/// followed by two dots that end the path or are followed by a separator.
pub open spec fn dotdot_at(p: Seq<u8>, j: int) -> bool {
    &&& 0 <= j
    &&& j + 2 < p.len()
    &&& p[j] == SLASH
    &&& p[j + 1] == DOT
    &&& p[j + 2] == DOT
    &&& (j + 3 == p.len() || p[j + 3] == SLASH)
}

/// A segment free of separator bytes.
pub open spec fn seg_slash_free(seg: Seq<u8>) -> bool {
    forall|k: int| 0 <= k < seg.len() ==> seg[k] != SLASH
}

/// Every segment that splitting produces is free of separators.
proof fn lemma_split_segments_slash_free(s: Seq<u8>)
    ensures
        forall|i: int|
            0 <= i < split_segments(s).len() ==> seg_slash_free(#[trigger] split_segments(s)[i]),
    decreases s.len(),
{
    let segs = split_segments(s);
    if s.len() == 0 {
        assert(seg_slash_free(segs[0]));
    } else if s[0] == SLASH {
        lemma_split_segments_slash_free(s.skip(1));
        let rest = split_segments(s.skip(1));
        assert(seg_slash_free(segs[0]));
        assert(forall|i: int| 1 <= i < segs.len() ==> segs[i] == rest[i - 1]);
    } else {
        lemma_split_segments_slash_free(s.skip(1));
        let rest = split_segments(s.skip(1));
        assert(seg_slash_free(rest[0]));
        assert(seg_slash_free(segs[0])) by {
            assert(segs[0] == seq![s[0]] + rest[0]);
            assert(segs[0][0] == s[0]);
            assert(forall|k: int| 1 <= k < segs[0].len() ==> segs[0][k] == rest[0][k - 1]);
        }
        assert(forall|i: int| 1 <= i < segs.len() ==> segs[i] == rest.skip(1)[i - 1]);
    }
}

/// A nonempty join under the root starts with a separator.
proof fn lemma_rendered_starts_with_slash(segs: Seq<Seq<u8>>)
    ensures
        rendered(segs).len() > 0 ==> rendered(segs)[0] == SLASH,
    decreases segs.len(),
{
    if segs.len() > 0 {
        lemma_rendered_starts_with_slash(segs.skip(1));
    }
}

/// The join of legal, separator-free segments holds no parent-directory
/// traversal pattern anywhere.
proof fn lemma_rendered_no_dotdot(segs: Seq<Seq<u8>>)
    requires
        forall|i: int|
            0 <= i < segs.len() ==> !is_cur_dir(#[trigger] segs[i]) && !is_parent_dir(segs[i])
                && seg_slash_free(segs[i]),
    ensures
        forall|j: int| !dotdot_at(rendered(segs), j),
    decreases segs.len(),
{
    if segs.len() == 0 {
        assert(rendered(segs).len() == 0);
    } else if segs[0].len() == 0 {
        assert(forall|i: int|
            0 <= i < segs.skip(1).len() ==> segs.skip(1)[i] == segs[i + 1]);
        lemma_rendered_no_dotdot(segs.skip(1));
        assert(rendered(segs) == rendered(segs.skip(1)));
        assert forall|j: int| !dotdot_at(rendered(segs), j) by {
            assert(!dotdot_at(rendered(segs.skip(1)), j));
        }
    } else {
        let s0 = segs[0];
        let tail = rendered(segs.skip(1));
        let p = rendered(segs);
        assert(forall|i: int|
            0 <= i < segs.skip(1).len() ==> segs.skip(1)[i] == segs[i + 1]);
        lemma_rendered_no_dotdot(segs.skip(1));
        lemma_rendered_starts_with_slash(segs.skip(1));
        let h = 1 + s0.len() as int;
        assert(p =~= seq![SLASH] + s0 + tail);
        assert forall|j: int| !dotdot_at(p, j) by {
            if 0 <= j && j + 2 < p.len() {
                if j == 0 {
                    // A pattern here would make the first segment ".", ".."
                    // or "..x", which legality and separator-freedom refuse.
                    if p[1] == DOT && p[2] == DOT {
                        assert(s0[0] == DOT);
                        if s0.len() == 1 {
                            // p[2] is the first byte of the tail: a separator.
                            assert(p[2] == tail[0]);
                        } else {
                            assert(s0[1] == DOT);
                            if s0.len() == 2 {
                                assert(is_parent_dir(s0));
                            } else {
                                assert(p[3] == s0[2]);
                                assert(s0[2] != SLASH);
                                assert(j + 3 < p.len());
                            }
                        }
                    }
                } else if j < h {
                    assert(p[j] == s0[j - 1]);
                    assert(p[j] != SLASH);
                } else {
                    // The pattern would sit entirely inside the tail.
                    assert(p.len() == h + tail.len());
                    assert(forall|k: int| 0 <= k < tail.len() ==> p[h + k] == tail[k]);
                    assert(!dotdot_at(tail, j - h));
                }
            }
        }
    }
}

/// Law: a requested path that is not absolute is always refused with
/// `PathNotAbsolute`, whatever the root.
pub proof fn lemma_relative_rejected(root: Seq<u8>, path: Seq<u8>)
    requires
        path.len() == 0 || path[0] != SLASH,
    ensures
        spec_resolve(root, path) == Err::<Seq<u8>, ResolveError>(ResolveError::PathNotAbsolute),
{
}

/// Law: an absolute requested path with a parent-directory reference among
/// its segments is always refused with `IllegalPathComponent`.
pub proof fn lemma_parent_dir_rejected(root: Seq<u8>, path: Seq<u8>)
    requires
        path.len() > 0,
        path[0] == SLASH,
        exists|i: int|
            0 <= i < split_segments(path.skip(1)).len() && is_parent_dir(
                #[trigger] split_segments(path.skip(1))[i],
            ),
    ensures
        spec_resolve(root, path) == Err::<Seq<u8>, ResolveError>(ResolveError::IllegalPathComponent),
{
    let segs = split_segments(path.skip(1));
    let i = choose|i: int| 0 <= i < segs.len() && is_parent_dir(#[trigger] segs[i]);
    assert(!all_segments_legal(segs));
}

/// Law: whatever the resolver accepts lies within the root: the result
/// starts with the root, continues with a separator if anything follows,
/// and holds no parent-directory traversal pattern after the root.
pub proof fn lemma_resolve_stays_within_root(root: Seq<u8>, path: Seq<u8>, resolved: Seq<u8>)
    requires
        spec_resolve(root, path) == Ok::<Seq<u8>, ResolveError>(resolved),
    ensures
        root.len() <= resolved.len(),
        resolved.take(root.len() as int) == root,
        resolved.len() > root.len() ==> resolved[root.len() as int] == SLASH,
        forall|j: int| j >= root.len() ==> !dotdot_at(resolved, j),
{
    let segs = split_segments(path.skip(1));
    let suffix = rendered(segs);
    assert(resolved == root + suffix);
    assert(resolved.take(root.len() as int) =~= root);
    lemma_split_segments_slash_free(path.skip(1));
    lemma_rendered_starts_with_slash(segs);
    lemma_rendered_no_dotdot(segs);
    assert(forall|k: int| 0 <= k < suffix.len() ==> resolved[root.len() + k] == suffix[k]);
    assert forall|j: int| j >= root.len() implies !dotdot_at(resolved, j) by {
        if j + 2 < resolved.len() {
            assert(!dotdot_at(suffix, j - root.len()));
        }
    }
}

/// Law: an absolute requested path all of whose segments are plain names
/// resolves to exactly the root followed by those segments, each after one
/// separator, in order.
pub proof fn lemma_plain_path_resolved(root: Seq<u8>, path: Seq<u8>)
    requires
        path.len() > 0,
        path[0] == SLASH,
        forall|i: int|
            0 <= i < split_segments(path.skip(1)).len() ==> is_plain_segment(
                #[trigger] split_segments(path.skip(1))[i],
            ),
    ensures
        spec_resolve(root, path) == Ok::<Seq<u8>, ResolveError>(
            root + rendered(split_segments(path.skip(1))),
        ),
{
    let segs = split_segments(path.skip(1));
    assert(all_segments_legal(segs));
}

/// Law: resolution is a pure function of the root and the path; any two
/// results obtained for the same inputs are equal.
pub proof fn lemma_resolve_idempotent(
    root: Seq<u8>,
    path: Seq<u8>,
    r1: Result<Seq<u8>, ResolveError>,
    r2: Result<Seq<u8>, ResolveError>,
)
    requires
        r1 == spec_resolve(root, path),
        r2 == spec_resolve(root, path),
    ensures
        r1 == r2,
{
}

/// One finished segment, folded onto the accumulated candidate path:
/// empty segments are skipped, directory references refused, and a plain
/// segment goes after one separator.
pub open spec fn append_segment(acc: Seq<u8>, seg: Seq<u8>) -> Result<Seq<u8>, ResolveError> {
    if seg.len() == 0 {
        Ok(acc)
    } else if is_cur_dir(seg) || is_parent_dir(seg) {
        Err(ResolveError::IllegalPathComponent)
    } else {
        Ok(acc + seq![SLASH] + seg)
    }
}

/// A single left-to-right pass over the remaining path bytes: `seg` is the
/// segment read so far, `rest` what is still to come.
pub open spec fn scan_segments(acc: Seq<u8>, seg: Seq<u8>, rest: Seq<u8>) -> Result<Seq<u8>, ResolveError>
    decreases rest.len(),
{
    if rest.len() == 0 {
        append_segment(acc, seg)
    } else if rest[0] == SLASH {
        match append_segment(acc, seg) {
            Ok(acc2) => scan_segments(acc2, Seq::<u8>::empty(), rest.skip(1)),
            Err(e) => Err(e),
        }
    } else {
        scan_segments(acc, seg.push(rest[0]), rest.skip(1))
    }
}

/// Splitting a separator-free sequence yields that sequence alone.
proof fn lemma_split_no_slash(s: Seq<u8>)
    requires
        forall|i: int| 0 <= i < s.len() ==> s[i] != SLASH,
    ensures
        split_segments(s) =~~= seq![s],
    decreases s.len(),
{
    if s.len() == 0 {
        assert(s =~= Seq::<u8>::empty());
    } else {
        lemma_split_no_slash(s.skip(1));
        assert(seq![s[0]] + s.skip(1) =~= s);
        assert(split_segments(s).skip(1) =~~= Seq::<Seq<u8>>::empty());
    }
}

/// A separator after a separator-free prefix `a` splits off exactly `a`.
proof fn lemma_split_prepend(a: Seq<u8>, b: Seq<u8>)
    requires
        forall|i: int| 0 <= i < a.len() ==> a[i] != SLASH,
    ensures
        split_segments(a + seq![SLASH] + b) =~~= seq![a] + split_segments(b),
    decreases a.len(),
{
    let s = a + seq![SLASH] + b;
    if a.len() == 0 {
        assert(s =~= seq![SLASH] + b);
        assert(s[0] == SLASH);
        assert(s.skip(1) =~= b);
    } else {
        assert(s[0] == a[0]);
        assert(s.skip(1) =~= a.skip(1) + seq![SLASH] + b);
        lemma_split_prepend(a.skip(1), b);
        let rest = split_segments(s.skip(1));
        assert(rest[0] == a.skip(1));
        assert(seq![s[0]] + rest[0] =~= a);
        assert(rest.skip(1) =~~= split_segments(b));
    }
}

/// The scan agrees with the split-based outcome, for any segment read so
/// far that is free of separators.
proof fn lemma_scan_characterization(acc: Seq<u8>, seg: Seq<u8>, rest: Seq<u8>)
    requires
        forall|i: int| 0 <= i < seg.len() ==> seg[i] != SLASH,
    ensures
        scan_segments(acc, seg, rest) == segments_outcome(acc, split_segments(seg + rest)),
    decreases rest.len(),
{
    if rest.len() == 0 {
        assert(seg + rest =~= seg);
        lemma_split_no_slash(seg);
        let segs = seq![seg];
        if seg.len() == 0 {
            assert(all_segments_legal(segs));
            assert(segs.skip(1) =~~= Seq::<Seq<u8>>::empty());
            assert(rendered(segs.skip(1)) =~= Seq::<u8>::empty());
            assert(rendered(segs) =~= Seq::<u8>::empty());
            assert(acc + rendered(segs) =~= acc);
        } else if is_cur_dir(seg) || is_parent_dir(seg) {
            assert(!all_segments_legal(segs));
        } else {
            assert(all_segments_legal(segs));
            assert(rendered(segs.skip(1)) =~= Seq::<u8>::empty());
            assert(rendered(segs) =~= seq![SLASH] + seg);
            assert(acc + rendered(segs) =~= acc + seq![SLASH] + seg);
        }
    } else if rest[0] == SLASH {
        assert(seg + rest =~= seg + seq![SLASH] + rest.skip(1));
        lemma_split_prepend(seg, rest.skip(1));
        let tail_segs = split_segments(rest.skip(1));
        let segs = seq![seg] + tail_segs;
        assert(split_segments(seg + rest) =~~= segs);
        if is_cur_dir(seg) || is_parent_dir(seg) {
            assert(!all_segments_legal(segs)) by {
                assert(segs[0] == seg);
            }
        } else {
            lemma_scan_characterization(
                if seg.len() == 0 { acc } else { acc + seq![SLASH] + seg },
                Seq::<u8>::empty(),
                rest.skip(1),
            );
            assert(Seq::<u8>::empty() + rest.skip(1) =~= rest.skip(1));
            assert(segs.skip(1) =~~= tail_segs);
            assert(all_segments_legal(segs) <==> all_segments_legal(tail_segs)) by {
                assert(segs[0] == seg);
                assert(forall|i: int| 0 <= i < tail_segs.len() ==> #[trigger] tail_segs[i] == segs[i + 1]);
            }
            if all_segments_legal(tail_segs) {
                if seg.len() == 0 {
                    assert(rendered(segs) == rendered(tail_segs));
                    assert(acc + rendered(segs) == acc + rendered(tail_segs));
                } else {
                    assert(rendered(segs) == seq![SLASH] + seg + rendered(tail_segs));
                    assert(acc + rendered(segs) =~= (acc + seq![SLASH] + seg) + rendered(tail_segs));
                }
            }
        }
    } else {
        assert(seg.push(rest[0]) + rest.skip(1) =~= seg + rest);
        lemma_scan_characterization(acc, seg.push(rest[0]), rest.skip(1));
    }
}

/// Folds one finished segment onto the candidate path, exactly as
/// [`append_segment`] says.
fn push_segment(acc: &mut Vec<u8>, seg: &Vec<u8>) -> (r: Result<(), ResolveError>)
    ensures
        match r {
            Ok(()) => append_segment(old(acc)@, seg@) == Ok::<Seq<u8>, ResolveError>(final(acc)@),
            Err(e) => append_segment(old(acc)@, seg@) == Err::<Seq<u8>, ResolveError>(e)
                && final(acc)@ == old(acc)@,
        },
{
    if seg.len() == 0 {
        return Ok(());
    }
    if seg.len() == 1 && seg[0] == DOT {
        return Err(ResolveError::IllegalPathComponent);
    }
    if seg.len() == 2 && seg[0] == DOT && seg[1] == DOT {
        return Err(ResolveError::IllegalPathComponent);
    }
    acc.push(SLASH);
    acc.extend_from_slice(seg.as_slice());
    proof {
        assert(acc@ =~= old(acc)@ + seq![SLASH] + seg@);
    }
    Ok(())
}

/// Resolves a requested `path` against the served `root`, returning the
/// candidate filesystem path or the reason the request is refused.
///
/// The path must be absolute (start with a separator); its segments are
/// checked one by one, and any current- or parent-directory reference
/// refuses the whole request. Empty segments, from doubled or trailing
/// separators, are skipped. On success the result is exactly `root`
/// followed by one separator before each plain segment, in order.
pub fn resolve(root: &[u8], path: &[u8]) -> (r: Result<Vec<u8>, ResolveError>)
    ensures
        match r {
            Ok(v) => spec_resolve(root@, path@) == Ok::<Seq<u8>, ResolveError>(v@),
            Err(e) => spec_resolve(root@, path@) == Err::<Seq<u8>, ResolveError>(e),
        },
{
    if path.len() == 0 || path[0] != SLASH {
        return Err(ResolveError::PathNotAbsolute);
    }
    proof {
        lemma_scan_characterization(root@, Seq::<u8>::empty(), path@.skip(1));
        assert(Seq::<u8>::empty() + path@.skip(1) =~= path@.skip(1));
    }
    let mut acc: Vec<u8> = vstd::slice::slice_to_vec(root);
    let mut seg: Vec<u8> = Vec::new();
    let mut i: usize = 1;
    while i < path.len()
        invariant
            1 <= i <= path@.len(),
            scan_segments(acc@, seg@, path@.skip(i as int)) == spec_resolve(root@, path@),
        decreases path@.len() - i,
    {
        let b = path[i];
        proof {
            assert(path@.skip(i as int)[0] == path@[i as int]);
            assert(path@.skip(i as int).skip(1) =~= path@.skip(i as int + 1));
        }
        if b == SLASH {
            match push_segment(&mut acc, &seg) {
                Ok(()) => {}
                Err(e) => {
                    proof {
                        assert(append_segment(acc@, seg@) == Err::<Seq<u8>, ResolveError>(e));
                        assert(scan_segments(acc@, seg@, path@.skip(i as int)) == Err::<
                            Seq<u8>,
                            ResolveError,
                        >(e));
                    }
                    return Err(e);
                }
            }
            seg.clear();
        } else {
            seg.push(b);
            proof {
                assert(seg@ =~= seg@.drop_last().push(b));
            }
        }
        i = i + 1;
    }
    proof {
        assert(path@.skip(i as int) =~= Seq::<u8>::empty());
    }
    match push_segment(&mut acc, &seg) {
        Ok(()) => Ok(acc),
        Err(e) => Err(e),
    }
}

} // verus!
