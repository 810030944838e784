//! The final-segment ("file name") view of slash-separated logical paths.
//!
//! Tar entries may carry the sought file at any directory depth, so the walk
//! matches on the final path segment alone: the bytes after the last `/`,
//! with trailing separators ignored, and no name at all for an empty path.

use vstd::prelude::*;
use vstd::utf8::{decode_utf8, valid_utf8};

verus! {

/// The `/` separator byte.
pub const SLASH: u8 = 47;

/// `p` with every trailing `/` removed.
pub open spec fn strip_trailing_slashes(p: Seq<u8>) -> Seq<u8>
    decreases p.len(),
{
    if p.len() > 0 && p[p.len() - 1] == SLASH {
        strip_trailing_slashes(p.drop_last())
    } else {
        p
    }
}

/// The bytes of `p` after its last `/`; all of `p` if it has none.
pub open spec fn segment_after_last_slash(p: Seq<u8>) -> Seq<u8>
    decreases p.len(),
{
    if p.len() == 0 {
        p
    } else if p[p.len() - 1] == SLASH {
        Seq::empty()
    } else {
        segment_after_last_slash(p.drop_last()).push(p[p.len() - 1])
    }
}

/// The final path segment of `p`: trailing separators are ignored, and a
/// path with nothing before them has no file name.
pub open spec fn spec_file_name(p: Seq<u8>) -> Option<Seq<u8>> {
    if strip_trailing_slashes(p).len() == 0 {
        None
    } else {
        Some(segment_after_last_slash(strip_trailing_slashes(p)))
    }
}

/// The slash-separated components of `path` from position `from` on:
/// everything between consecutive `/` characters, kept verbatim — empty
/// components included, and no normalization of `.` or `..`.
pub open spec fn components_from(path: Seq<char>, from: int) -> Seq<Seq<char>>
    decreases path.len() - from,
{
    if from < 0 || from >= path.len() {
        seq![Seq::<char>::empty()]
    } else if path[from] == '/' {
        seq![Seq::<char>::empty()] + components_from(path, from + 1)
    } else {
        let rest = components_from(path, from + 1);
        seq![seq![path[from]] + rest[0]] + rest.drop_first()
    }
}

/// A path always has at least one component.
pub proof fn lemma_components_len(path: Seq<char>, from: int)
    ensures
        components_from(path, from).len() >= 1,
    decreases path.len() - from,
{
    if 0 <= from < path.len() && path[from] != '/' {
        lemma_components_len(path, from + 1);
    }
}

/// Over a stretch with no separator, the first component is that stretch
/// joined onto whatever the first component after it is.
pub proof fn lemma_components_segment(path: Seq<char>, from: int, k: int)
    requires
        0 <= from <= k <= path.len(),
        forall|j: int| from <= j < k ==> path[j] != '/',
    ensures
        components_from(path, from) == seq![
            path.subrange(from, k) + components_from(path, k)[0],
        ] + components_from(path, k).drop_first(),
    decreases k - from,
{
    if from < k {
        lemma_components_segment(path, from + 1, k);
        lemma_components_len(path, k);
        assert(seq![path[from]] + (path.subrange(from + 1, k) + components_from(path, k)[0])
            =~= path.subrange(from, k) + components_from(path, k)[0]);
    } else {
        lemma_components_len(path, from);
        assert(path.subrange(from, from) + components_from(path, from)[0] =~= components_from(
            path,
            from,
        )[0]);
        assert(seq![components_from(path, from)[0]] + components_from(path, from).drop_first()
            =~= components_from(path, from));
    }
}

/// Whether the byte string `name` reads, as UTF-8, as exactly `target`.
pub open spec fn utf8_name_is(name: Seq<u8>, target: Seq<char>) -> bool {
    valid_utf8(name) && decode_utf8(name) == target
}

/// Whether the final path segment of `path` reads, as UTF-8, as `target`.
pub open spec fn file_name_is(path: Seq<u8>, target: Seq<char>) -> bool {
    match spec_file_name(path) {
        Some(seg) => utf8_name_is(seg, target),
        None => false,
    }
}

/// The final path segment of `path`, as [`spec_file_name`] describes it.
pub fn file_name_of(path: &[u8]) -> (r: Option<Vec<u8>>)
    ensures
        match r {
            Some(seg) => spec_file_name(path@) == Some(seg@),
            None => spec_file_name(path@) == None::<Seq<u8>>,
        },
{
    let mut end: usize = path.len();
    proof {
        assert(path@.subrange(0, end as int) =~= path@);
    }
    while end > 0 && path[end - 1] == SLASH
        invariant
            end <= path.len(),
            strip_trailing_slashes(path@) == strip_trailing_slashes(path@.subrange(0, end as int)),
        decreases end,
    {
        proof {
            assert(path@.subrange(0, end as int).drop_last() =~= path@.subrange(0, end - 1));
        }
        end = end - 1;
    }
    proof {
        assert(path@.subrange(0, path@.len() as int) =~= path@);
        assert(strip_trailing_slashes(path@) =~= path@.subrange(0, end as int));
    }
    if end == 0 {
        return None;
    }
    let mut start: usize = end;
    while start > 0 && path[start - 1] != SLASH
        invariant
            start <= end <= path.len(),
            segment_after_last_slash(path@.subrange(0, end as int)) == segment_after_last_slash(
                path@.subrange(0, start as int),
            ) + path@.subrange(start as int, end as int),
        decreases start,
    {
        proof {
            assert(path@.subrange(0, start as int).drop_last() =~= path@.subrange(
                0,
                start - 1,
            ));
            assert(segment_after_last_slash(path@.subrange(0, start - 1)).push(
                path@[start - 1],
            ) + path@.subrange(start as int, end as int) =~= segment_after_last_slash(
                path@.subrange(0, start - 1),
            ) + path@.subrange(start - 1, end as int));
        }
        start = start - 1;
    }
    proof {
        if start == 0 {
            assert(segment_after_last_slash(path@.subrange(0, 0)) + path@.subrange(
                0,
                end as int,
            ) =~= path@.subrange(0, end as int));
        } else {
            assert(segment_after_last_slash(path@.subrange(0, start as int)) + path@.subrange(
                start as int,
                end as int,
            ) =~= path@.subrange(start as int, end as int));
        }
    }
    let mut seg: Vec<u8> = Vec::new();
    let mut k: usize = start;
    while k < end
        invariant
            start <= k <= end <= path.len(),
            seg@ == path@.subrange(start as int, k as int),
        decreases end - k,
    {
        seg.push(path[k]);
        proof {
            assert(path@.subrange(start as int, k as int).push(path@[k as int]) =~= path@.subrange(
                start as int,
                k + 1,
            ));
        }
        k = k + 1;
    }
    Some(seg)
}

} // verus!
