//! Walking a tar stream for a named file.
//!
//! The tar wire format is strictly sequential: entries become valid one
//! after another, and there is no random access or rewinding.  The walk
//! yields each entry in storage order and matches on the final path
//! segment alone — vendor releases nest the sought file at varying
//! directory depths.  The first match wins and the walk stops there; a
//! later entry with the same file name is never reached.
//!
//! Reading the wire format itself is delegated to the `tar` crate behind
//! the trusted items below; everything around them is verified.

use vstd::prelude::*;

use crate::errors::{ExtractError, Stage};
use crate::paths::{file_name_is, file_name_of};
use crate::text::utf8_to_string;

verus! {

/// The `(logical path, content)` pairs that the `tar` crate yields for the
/// stream `bytes`, in storage order, up to the first point it cannot parse
/// (or the stream's end marker).
pub uninterp spec fn tar_entries(bytes: Seq<u8>) -> Seq<(Seq<u8>, Seq<u8>)>;

/// Whether the walk of stream `bytes` ends at the end marker rather than
/// at a point the `tar` crate reports an error for.
pub uninterp spec fn tar_clean(bytes: Seq<u8>) -> bool;

/// What remains to be walked of an open tar stream.
pub uninterp spec fn tar_rest(w: TarWalk) -> Seq<(Seq<u8>, Seq<u8>)>;

/// Whether what remains to be walked ends at the end marker.
pub uninterp spec fn tar_rest_clean(w: TarWalk) -> bool;

/// A forward-only walk over the entries of a tar stream.
///
/// Wraps the `tar` crate's archive reader, which Verus cannot look into;
/// the walk's contracts speak of it through [`tar_rest`] and
/// [`tar_rest_clean`].
#[verifier::external_body]
pub struct TarWalk {
    data: Vec<u8>,
    pos: usize,
}

/// What one step of the walk found.
pub enum TarProbe {
    /// The next entry: its logical path as stored, and its content.
    Entry(Vec<u8>, Vec<u8>),
    /// The stream's clean end: no more entries.
    End,
    /// A point the stream cannot be parsed past.
    Malformed,
}

/// Relies on `tar::Archive::new`: building a reader performs no parsing,
/// so the whole entry sequence of `bytes` is still ahead of the walk.  The
/// entry count is bounded by the byte count, as every stored entry
/// occupies at least one byte (a header block alone is 512).
#[verifier::external_body]
fn tar_open(bytes: &[u8]) -> (w: TarWalk)
    ensures
        tar_rest(w) == tar_entries(bytes@),
        tar_rest_clean(w) == tar_clean(bytes@),
        tar_rest(w).len() <= bytes@.len(),
{
    TarWalk { data: bytes.to_vec(), pos: 0 }
}

/// Relies on `tar::Archive::entries`: the iterator yields the stream's
/// entries in storage order, ends after the last one, and yields an error
/// exactly at the first point it cannot parse past; `Entry::path_bytes` is
/// the entry's logical path, and its content is read to its end.
#[verifier::external_body]
fn tar_next(w: &mut TarWalk) -> (r: TarProbe)
    ensures
        tar_rest(*old(w)).len() > 0 ==> {
            &&& r matches TarProbe::Entry(path, content) && path@ == tar_rest(*old(w))[0].0
                && content@ == tar_rest(*old(w))[0].1
            &&& tar_rest(*final(w)) == tar_rest(*old(w)).drop_first()
            &&& tar_rest_clean(*final(w)) == tar_rest_clean(*old(w))
        },
        tar_rest(*old(w)).len() == 0 && tar_rest_clean(*old(w)) ==> r matches TarProbe::End,
        tar_rest(*old(w)).len() == 0 && !tar_rest_clean(*old(w)) ==> r matches TarProbe::Malformed,
{
    let mut archive = tar::Archive::new(w.data.as_slice());
    let entries = match archive.entries() { Ok(e) => e, Err(_) => return TarProbe::Malformed };
    let mut rest = entries.skip(w.pos);
    match rest.next() {
        None => TarProbe::End,
        Some(Err(_)) => TarProbe::Malformed,
        Some(Ok(mut entry)) => {
            let path = entry.path_bytes().into_owned();
            let mut content = Vec::new();
            match std::io::Read::read_to_end(&mut entry, &mut content) {
                Ok(_) => { w.pos += 1; TarProbe::Entry(path, content) },
                Err(_) => TarProbe::Malformed,
            }
        },
    }
}

/// The index of the first entry whose final path segment reads, as UTF-8,
/// as `target`; `None` if no entry's does.
pub open spec fn first_name_match(entries: Seq<(Seq<u8>, Seq<u8>)>, target: Seq<char>) -> Option<
    int,
>
    decreases entries.len(),
{
    if entries.len() == 0 {
        None
    } else if file_name_is(entries[0].0, target) {
        Some(0)
    } else {
        match first_name_match(entries.drop_first(), target) {
            None => None,
            Some(i) => Some(i + 1),
        }
    }
}

/// What walking the stream `bytes` for a file named `target` must yield:
/// the content of the first entry whose file name matches, a not-found
/// failure naming `target` once the stream ends, or a malformed-stream
/// failure if the stream cannot be parsed up to a match.
pub open spec fn spec_find_tar_file(bytes: Seq<u8>, target: Seq<char>) -> Result<
    Seq<u8>,
    crate::errors::ErrorModel,
> {
    match first_name_match(tar_entries(bytes), target) {
        Some(i) => Ok(tar_entries(bytes)[i].1),
        None => if tar_clean(bytes) {
            Err(
                crate::errors::ErrorModel::NotFound {
                    stage: Stage::Tar,
                    sought: target,
                    scanned: tar_entries(bytes).len(),
                },
            )
        } else {
            Err(crate::errors::ErrorModel::MalformedInput { stage: Stage::Tar })
        },
    }
}

/// Walks the tar stream `bytes` and returns the content of the first entry
/// whose file name is `target`.
pub fn find_tar_file(bytes: &[u8], target: &str) -> (r: Result<Vec<u8>, ExtractError>)
    ensures
        match r {
            Ok(content) => spec_find_tar_file(bytes@, target@) == Ok::<
                _,
                crate::errors::ErrorModel,
            >(content@),
            Err(e) => spec_find_tar_file(bytes@, target@) == Err::<Seq<u8>, _>(e@),
        },
{
    let target_text: String = target.to_owned();
    let byte_count: usize = bytes.len();
    let mut walk = tar_open(bytes);
    let ghost all = tar_entries(bytes@);
    proof {
        assert(all.skip(0) =~= all);
    }
    let mut i: usize = 0;
    loop
        invariant
            all == tar_entries(bytes@),
            target_text@ == target@,
            bytes@.len() == byte_count,
            i <= all.len(),
            all.len() <= bytes@.len(),
            tar_rest(walk) == all.skip(i as int),
            tar_rest_clean(walk) == tar_clean(bytes@),
            forall|j: int| 0 <= j < i ==> !file_name_is(all[j].0, target@),
        decreases all.len() - i,
    {
        match tar_next(&mut walk) {
            TarProbe::Entry(path, content) => {
                proof {
                    assert(all.skip(i as int)[0] == all[i as int]);
                    assert(all.skip(i as int).drop_first() =~= all.skip(i + 1));
                }
                let matched: bool = match file_name_of(path.as_slice()) {
                    Some(seg) => match utf8_to_string(seg.as_slice()) {
                        Some(text) => text == target_text,
                        None => false,
                    },
                    None => false,
                };
                if matched {
                    proof {
                        lemma_first_name_found(all, target@, i as int);
                    }
                    return Ok(content);
                }
                proof {
                    assert(!file_name_is(all[i as int].0, target@));
                }
                i = i + 1;
            },
            TarProbe::End => {
                proof {
                    lemma_first_name_none(all, target@, i as int);
                }
                return Err(
                    ExtractError::NotFound {
                        stage: Stage::Tar,
                        sought: target.to_owned(),
                        scanned: i,
                    },
                );
            },
            TarProbe::Malformed => {
                proof {
                    lemma_first_name_none(all, target@, i as int);
                }
                return Err(ExtractError::MalformedInput { stage: Stage::Tar });
            },
        }
    }
}

/// If no entry before `i` matches, the first match over all entries is the
/// first match over the entries from `i` on, shifted by `i`.
proof fn lemma_first_name_skip(entries: Seq<(Seq<u8>, Seq<u8>)>, target: Seq<char>, i: int)
    requires
        0 <= i <= entries.len(),
        forall|j: int| 0 <= j < i ==> !file_name_is(entries[j].0, target),
    ensures
        first_name_match(entries, target) == match first_name_match(entries.skip(i), target) {
            None => None::<int>,
            Some(k) => Some(k + i),
        },
    decreases i,
{
    if i > 0 {
        assert(entries.drop_first() =~= entries.skip(1));
        assert(entries.skip(1).skip(i - 1) =~= entries.skip(i));
        assert forall|j: int| 0 <= j < i - 1 implies !file_name_is(
            entries.skip(1)[j].0,
            target,
        ) by {
            assert(entries.skip(1)[j] == entries[j + 1]);
        }
        lemma_first_name_skip(entries.skip(1), target, i - 1);
    } else {
        assert(entries.skip(0) =~= entries);
    }
}

/// A matching entry at `i`, with none before it, is the first match.
proof fn lemma_first_name_found(entries: Seq<(Seq<u8>, Seq<u8>)>, target: Seq<char>, i: int)
    requires
        0 <= i < entries.len(),
        file_name_is(entries[i].0, target),
        forall|j: int| 0 <= j < i ==> !file_name_is(entries[j].0, target),
    ensures
        first_name_match(entries, target) == Some(i),
{
    lemma_first_name_skip(entries, target, i);
    assert(entries.skip(i)[0] == entries[i]);
}

/// If the entries up to `i` are all there are and none matches, there is no
/// first match at all.
proof fn lemma_first_name_none(entries: Seq<(Seq<u8>, Seq<u8>)>, target: Seq<char>, i: int)
    requires
        0 <= i <= entries.len(),
        entries.skip(i).len() == 0,
        forall|j: int| 0 <= j < i ==> !file_name_is(entries[j].0, target),
    ensures
        first_name_match(entries, target) == None::<int>,
{
    lemma_first_name_skip(entries, target, i);
}

} // verus!
