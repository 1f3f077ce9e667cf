//! Request-path resolution: joining the URL path of a request onto the root
//! directory. The request path is split on `/`; empty, `.` and `..` segments
//! are stripped, so the resolved target can never escape the root.

use vstd::prelude::*;

verus! {

/// A path segment survives normalization when it is neither empty nor the
/// current-directory segment `.` nor the parent-directory segment `..`.
pub open spec fn keep_segment(s: Seq<char>) -> bool {
    s.len() > 0 && !(s.len() == 1 && s[0] == '.') && !(s.len() == 2 && s[0] == '.' && s[1]
        == '.')
}

/// The `/`-separated segments of a request path, empty segments included.
/// Splitting the empty string gives one empty segment, and every trailing
/// slash opens a further empty segment.
pub open spec fn raw_segments(s: Seq<char>) -> Seq<Seq<char>>
    decreases s.len(),
{
    if s.len() == 0 {
        seq![Seq::<char>::empty()]
    } else if s.last() == '/' {
        raw_segments(s.drop_last()).push(Seq::<char>::empty())
    } else {
        let r = raw_segments(s.drop_last());
        r.update(r.len() - 1, r.last().push(s.last()))
    }
}

/// The segments that survive normalization, in order.
pub open spec fn kept_segments(segs: Seq<Seq<char>>) -> Seq<Seq<char>>
    decreases segs.len(),
{
    if segs.len() == 0 {
        Seq::<Seq<char>>::empty()
    } else if keep_segment(segs.last()) {
        kept_segments(segs.drop_last()).push(segs.last())
    } else {
        kept_segments(segs.drop_last())
    }
}

/// The root followed by `/` and a segment, for each segment in order.
pub open spec fn joined(root: Seq<char>, segs: Seq<Seq<char>>) -> Seq<char>
    decreases segs.len(),
{
    if segs.len() == 0 {
        root
    } else {
        joined(root, segs.drop_last()) + "/"@ + segs.last()
    }
}

/// The filesystem path that a request path resolves to under `root`.
pub open spec fn target_path_spec(root: Seq<char>, req: Seq<char>) -> Seq<char> {
    joined(root, kept_segments(raw_segments(req)))
}

proof fn lemma_raw_segments_nonempty(s: Seq<char>)
    ensures
        raw_segments(s).len() >= 1,
    decreases s.len(),
{
    if s.len() != 0 {
        lemma_raw_segments_nonempty(s.drop_last());
    }
}

/// Whether this segment survives normalization.
fn segment_kept(seg: &str) -> (b: bool)
    ensures
        b == keep_segment(seg@),
{
    let len = seg.unicode_len();
    if len == 0 {
        false
    } else if len == 1 {
        !(seg.get_char(0) == '.')
    } else if len == 2 {
        !(seg.get_char(0) == '.' && seg.get_char(1) == '.')
    } else {
        true
    }
}

/// Join one raw segment onto the path under construction, unless
/// normalization strips it.
fn append_kept(out: &mut String, seg: &str)
    ensures
        keep_segment(seg@) ==> final(out)@ == old(out)@ + "/"@ + seg@,
        !keep_segment(seg@) ==> final(out)@ == old(out)@,
{
    if segment_kept(seg) {
        out.append("/");
        out.append(seg);
    }
}

/// Resolve a request path against the root directory: split the request on
/// `/`, strip empty, `.` and `..` segments, and join what is left onto the
/// root in order.
pub fn target_path(root: &str, request_path: &str) -> (t: String)
    ensures
        t@ == target_path_spec(root@, request_path@),
{
    let n = request_path.unicode_len();
    let mut out: String = root.to_owned();
    let mut start: usize = 0;
    let mut i: usize = 0;
    proof {
        assert(request_path@.subrange(0, 0) =~= Seq::<char>::empty());
    }
    while i < n
        invariant
            n == request_path@.len(),
            start <= i <= n,
            raw_segments(request_path@.subrange(0, i as int)).len() >= 1,
            raw_segments(request_path@.subrange(0, i as int)).last() == request_path@.subrange(
                start as int,
                i as int,
            ),
            out@ == joined(
                root@,
                kept_segments(raw_segments(request_path@.subrange(0, i as int)).drop_last()),
            ),
        decreases n - i,
    {
        let ghost pre = request_path@.subrange(0, i as int);
        let ghost post = request_path@.subrange(0, i as int + 1);
        proof {
            assert(post =~= pre.push(request_path@[i as int]));
        }
        let c = request_path.get_char(i);
        if c == '/' {
            let seg = request_path.substring_char(start, i);
            proof {
                let r = raw_segments(pre);
                assert(post.drop_last() =~= pre);
                assert(raw_segments(post) == r.push(Seq::<char>::empty()));
                assert(r.push(Seq::<char>::empty()).drop_last() =~= r);
                assert(kept_segments(r) == if keep_segment(r.last()) {
                    kept_segments(r.drop_last()).push(r.last())
                } else {
                    kept_segments(r.drop_last())
                });
                let k = kept_segments(r.drop_last());
                if keep_segment(r.last()) {
                    assert(k.push(r.last()).drop_last() =~= k);
                    assert(joined(root@, k.push(r.last())) == joined(root@, k) + "/"@
                        + r.last());
                }
                assert(post.subrange(i as int + 1, i as int + 1) =~= Seq::<char>::empty());
            }
            append_kept(&mut out, seg);
            start = i + 1;
        } else {
            proof {
                let r = raw_segments(pre);
                assert(post.drop_last() =~= pre);
                assert(raw_segments(post) == r.update(r.len() - 1, r.last().push(c)));
                assert(raw_segments(post).drop_last() =~= r.drop_last());
                assert(raw_segments(post).last() == r.last().push(c));
                assert(request_path@.subrange(start as int, i as int).push(request_path@[i as int])
                    =~= request_path@.subrange(start as int, i as int + 1));
            }
        }
        i = i + 1;
    }
    let seg = request_path.substring_char(start, n);
    proof {
        assert(request_path@.subrange(0, n as int) =~= request_path@);
        let r = raw_segments(request_path@);
        let k = kept_segments(r.drop_last());
        assert(kept_segments(r) == if keep_segment(r.last()) {
            k.push(r.last())
        } else {
            k
        });
        if keep_segment(r.last()) {
            assert(k.push(r.last()).drop_last() =~= k);
            assert(joined(root@, k.push(r.last())) == joined(root@, k) + "/"@ + r.last());
        }
    }
    append_kept(&mut out, seg);
    out
}

/// Every segment that normalization keeps is a real name: nonempty and
/// neither `.` nor `..`.
pub proof fn lemma_kept_segments_are_kept(segs: Seq<Seq<char>>)
    ensures
        forall|i: int|
            0 <= i < kept_segments(segs).len() ==> keep_segment(
                #[trigger] kept_segments(segs)[i],
            ),
    decreases segs.len(),
{
    if segs.len() > 0 {
        lemma_kept_segments_are_kept(segs.drop_last());
        let k = kept_segments(segs.drop_last());
        if keep_segment(segs.last()) {
            assert forall|i: int| 0 <= i < kept_segments(segs).len() implies keep_segment(
                kept_segments(segs)[i],
            ) by {
                if i < k.len() {
                    assert(kept_segments(segs)[i] == k[i]);
                } else {
                    assert(kept_segments(segs)[i] == segs.last());
                }
            }
        }
    }
}

/// The resolved path begins with the root directory, whatever the request
/// was.
pub proof fn lemma_joined_extends_root(root: Seq<char>, segs: Seq<Seq<char>>)
    ensures
        joined(root, segs).len() >= root.len(),
        joined(root, segs).subrange(0, root.len() as int) == root,
    decreases segs.len(),
{
    if segs.len() == 0 {
        assert(joined(root, segs).subrange(0, root.len() as int) =~= root);
    } else {
        lemma_joined_extends_root(root, segs.drop_last());
        assert(joined(root, segs).subrange(0, root.len() as int) =~= root);
    }
}

/// Path traversal is defended: every filesystem access stays confined under
/// the root. The resolved target begins with the root directory, and only
/// kept segments — never `..`, `.` or an empty name — are joined onto it.
pub proof fn lemma_target_confined(root: Seq<char>, req: Seq<char>)
    ensures
        target_path_spec(root, req).len() >= root.len(),
        target_path_spec(root, req).subrange(0, root.len() as int) == root,
        target_path_spec(root, req) == joined(root, kept_segments(raw_segments(req))),
        forall|i: int|
            0 <= i < kept_segments(raw_segments(req)).len() ==> keep_segment(
                #[trigger] kept_segments(raw_segments(req))[i],
            ),
{
    lemma_joined_extends_root(root, kept_segments(raw_segments(req)));
    lemma_kept_segments_are_kept(raw_segments(req));
}

} // verus!
