//! Scanning a Unix archive container for a named member.
//!
//! The container stores entries strictly in sequence, so the scan inspects
//! one entry at a time, in storage order, and stops at the first entry whose
//! identifier matches the sought member name.  A header that cannot be
//! parsed invalidates trust in every later offset, so the scan fails there
//! instead of skipping; entries that merely do not match are passed over.
//!
//! Reading the wire format itself is delegated to the `ar` crate behind the
//! trusted items below; everything around them is verified.

use vstd::prelude::*;
use vstd::utf8::{decode_utf8, valid_utf8};

use crate::errors::{ExtractError, Stage};
use crate::paths::utf8_name_is;
use crate::text::utf8_to_string;

verus! {

/// The `(identifier, content)` pairs that the `ar` crate yields for the
/// container `bytes`, in storage order, up to the first header it cannot
/// parse or that the scan refuses (see [`refused_entry_index`]), or the
/// end of the container.
pub uninterp spec fn ar_entries(bytes: Seq<u8>) -> Seq<(Seq<u8>, Seq<u8>)>;

/// Whether the scan of container `bytes` ends at a clean end-of-archive
/// rather than at a header the `ar` crate cannot parse or that the scan
/// refuses.
pub uninterp spec fn ar_clean(bytes: Seq<u8>) -> bool;

/// What remains to be scanned of an open container.
pub uninterp spec fn ar_rest(s: ArScan) -> Seq<(Seq<u8>, Seq<u8>)>;

/// Whether what remains to be scanned ends at a clean end-of-archive.
pub uninterp spec fn ar_rest_clean(s: ArScan) -> bool;

/// A sequential scan over the entries of a Unix archive container.
///
/// Wraps the `ar` crate's archive reader, which Verus cannot look into; the
/// scan's contracts speak of it through [`ar_rest`] and [`ar_rest_clean`].
/// `refused` is the entry position, if any, at which the scan stops short
/// rather than hand the crate a header it could panic on (see
/// [`refused_entry_index`]); `taken` counts the entries yielded so far.
#[verifier::external_body]
pub struct ArScan {
    inner: ar::Archive<std::io::Cursor<Vec<u8>>>,
    taken: usize,
    refused: Option<usize>,
}

/// Ten to the `n`th, for bounding a decimal field's value by its width.
spec fn pow10(n: nat) -> nat
    decreases n,
{
    if n == 0 {
        1
    } else {
        10 * pow10((n - 1) as nat)
    }
}

/// The value of the decimal field `bytes[lo..hi]` as the `ar` crate reads
/// one: trailing ASCII blanks ignored, an optional leading `+`, then
/// decimal digits.  `None` where that reading fails or cannot be
/// mirrored exactly — the guard then stops the scan at this header, which
/// is also where the crate itself stops with an error.
fn field_number(bytes: &[u8], lo: usize, hi: usize) -> (r: Option<u64>)
    requires
        lo <= hi <= bytes@.len(),
        hi - lo <= 13,
{
    let mut end: usize = hi;
    while end > lo && (bytes[end - 1] == 32 || (bytes[end - 1] >= 9 && bytes[end - 1] <= 13))
        invariant
            lo <= end <= hi <= bytes@.len(),
        decreases end,
    {
        end = end - 1;
    }
    let mut i: usize = lo;
    if i < end && bytes[i] == 43 {
        i = i + 1;
    }
    if i == end {
        return None;
    }
    let ghost start = i as int;
    let mut v: u64 = 0;
    while i < end
        invariant
            lo <= start <= i <= end <= bytes@.len(),
            end - start <= 13,
            v < pow10((i - start) as nat),
        decreases end - i,
    {
        let b = bytes[i];
        if b < 48 || b > 57 {
            return None;
        }
        proof {
            lemma_pow10_le((i - start) as nat, 12);
            assert(pow10(13) == 10 * pow10(12));
            lemma_pow10_value();
        }
        v = v * 10 + ((b - 48) as u64);
        i = i + 1;
    }
    Some(v)
}

/// `pow10` grows with its argument.
proof fn lemma_pow10_le(a: nat, b: nat)
    requires
        a <= b,
    ensures
        pow10(a) <= pow10(b),
    decreases b,
{
    if a < b {
        lemma_pow10_le(a, (b - 1) as nat);
    }
}

/// The widest field the guard reads has thirteen digits, whose values stay
/// far below `u64::MAX`.
proof fn lemma_pow10_value()
    ensures
        pow10(12) == 1000000000000,
{
    reveal_with_fuel(pow10, 14);
}

/// The position — counted in entries yielded — at which the scan must stop
/// short of the `ar` crate, or `None` if the crate reaches a clean end or
/// an ordinary parse error first.
///
/// The crate's header parser resolves a GNU name-table reference (an
/// identifier `/N`) by indexing into the name table it has read so far,
/// and panics when `N` lies past that table's end.  This guard walks the
/// same header sequence — same global header check, same size fields, same
/// padding bytes, same skipping of the `/` and `//` special members — and
/// flags the first GNU name-table reference at all, the first BSD extended
/// identifier (`#1/N`), and the first size field it cannot mirror, each of
/// which the scan then reports as a malformed container rather than reach.
/// Containers that use those naming extensions are thus refused, not
/// resolved; Debian-style packages name their members inline and are
/// unaffected.
fn refused_entry_index(bytes: &[u8]) -> (r: Option<usize>)
{
    let len: usize = bytes.len();
    if len < 8 {
        return None;
    }
    if !(bytes[0] == 33 && bytes[1] == 60 && bytes[2] == 97 && bytes[3] == 114 && bytes[4] == 99
        && bytes[5] == 104 && bytes[6] == 62 && bytes[7] == 10) {
        return None;
    }
    let mut pos: usize = 8;
    let mut yielded: usize = 0;
    let mut gnu: bool = false;
    let mut bsd: bool = false;
    let mut pad: bool = false;
    loop
        invariant
            8 <= pos <= len,
            len == bytes@.len(),
            yielded <= pos,
        decreases len - pos,
    {
        if pad {
            if pos >= len {
                return None;
            }
            if bytes[pos] != 10 {
                return Some(yielded);
            }
            pos = pos + 1;
            pad = false;
        }
        if pos >= len {
            return None;
        }
        if len - pos < 60 {
            return Some(yielded);
        }
        let mut id_end: usize = pos + 16;
        while id_end > pos && bytes[id_end - 1] == 32
            invariant
                pos <= id_end <= pos + 16,
                pos + 60 <= len == bytes@.len(),
            decreases id_end,
        {
            id_end = id_end - 1;
        }
        let size: u64 = match field_number(bytes, pos + 48, pos + 58) {
            Some(v) => v,
            None => return Some(yielded),
        };
        let id_len: usize = id_end - pos;
        let room: usize = len - pos - 60;
        if !bsd && id_len >= 1 && bytes[pos] == 47 {
            gnu = true;
            let special: bool = id_len == 1 || (id_len == 2 && bytes[pos + 1] == 47);
            if !special {
                return Some(yielded);
            }
            if size > room as u64 {
                if id_len == 2 {
                    // a truncated name table is a read error for the crate
                    return Some(yielded);
                }
                // skipping the symbol table tolerates the end of input
                return None;
            }
            pad = size % 2 == 1;
            pos = pos + 60 + (size as usize);
        } else {
            if !bsd && id_len >= 1 && bytes[id_end - 1] == 47 {
                gnu = true;
            }
            if !gnu && id_len >= 3 && bytes[pos] == 35 && bytes[pos + 1] == 49 && bytes[pos + 2]
                == 47 {
                bsd = true;
                return Some(yielded);
            }
            if size > room as u64 {
                // truncated content is consumed to the end of input, after
                // which the crate sees a clean end
                return None;
            }
            yielded = yielded + 1;
            pad = size % 2 == 1;
            pos = pos + 60 + (size as usize);
        }
    }
}

/// What one step of the scan found.
pub enum ArProbe {
    /// The next entry: its identifier and its content bytes.
    Entry(Vec<u8>, Vec<u8>),
    /// The container's clean end-of-archive: no entry matched.
    End,
    /// A header that could not be parsed; later offsets cannot be trusted.
    Malformed,
}

/// Relies on `ar::Archive::new`: opening a reader performs no parsing, so
/// the whole entry sequence of `bytes` is still ahead of the scan.  The
/// entry count is bounded by the byte count, as every stored entry occupies
/// at least one byte (its header alone is 60 bytes).  The guard position
/// stored beside the reader comes from [`refused_entry_index`], so the scan
/// as a whole is a deterministic, panic-free function of `bytes`.
#[verifier::external_body]
fn ar_open(bytes: &[u8]) -> (s: ArScan)
    ensures
        ar_rest(s) == ar_entries(bytes@),
        ar_rest_clean(s) == ar_clean(bytes@),
        ar_rest(s).len() <= bytes@.len(),
{
    let refused = refused_entry_index(bytes);
    ArScan { inner: ar::Archive::new(std::io::Cursor::new(bytes.to_vec())), taken: 0, refused }
}

/// Relies on `ar::Archive::next_entry`: it yields the next entry of the
/// container in storage order, `None` at the end-of-archive, and an error
/// exactly where a header cannot be parsed; the entry's content is then read
/// to its end.  At the position [`refused_entry_index`] flagged — a header
/// the crate's parser could panic on — the scan stops with a malformed
/// probe instead of calling the crate.
#[verifier::external_body]
fn ar_next(s: &mut ArScan) -> (r: ArProbe)
    ensures
        ar_rest(*old(s)).len() > 0 ==> {
            &&& r matches ArProbe::Entry(name, content) && name@ == ar_rest(*old(s))[0].0
                && content@ == ar_rest(*old(s))[0].1
            &&& ar_rest(*final(s)) == ar_rest(*old(s)).drop_first()
            &&& ar_rest_clean(*final(s)) == ar_rest_clean(*old(s))
        },
        ar_rest(*old(s)).len() == 0 && ar_rest_clean(*old(s)) ==> r matches ArProbe::End,
        ar_rest(*old(s)).len() == 0 && !ar_rest_clean(*old(s)) ==> r matches ArProbe::Malformed,
{
    if s.refused == Some(s.taken) {
        return ArProbe::Malformed;
    }
    match s.inner.next_entry() {
        None => ArProbe::End,
        Some(Err(_)) => ArProbe::Malformed,
        Some(Ok(mut entry)) => {
            let name = entry.header().identifier().to_vec();
            let mut content = Vec::new();
            match std::io::Read::read_to_end(&mut entry, &mut content) {
                Ok(_) => { s.taken += 1; ArProbe::Entry(name, content) },
                Err(_) => ArProbe::Malformed,
            }
        },
    }
}

/// The index of the first entry whose identifier reads, as UTF-8, as
/// `member`; `None` if no entry does.
pub open spec fn first_member_match(entries: Seq<(Seq<u8>, Seq<u8>)>, member: Seq<char>) -> Option<
    int,
>
    decreases entries.len(),
{
    if entries.len() == 0 {
        None
    } else if utf8_name_is(entries[0].0, member) {
        Some(0)
    } else {
        match first_member_match(entries.drop_first(), member) {
            None => None,
            Some(i) => Some(i + 1),
        }
    }
}

/// What locating `member` in the container `bytes` must yield: the content
/// of the first matching entry, a not-found failure naming `member` once the
/// entries are exhausted, or a malformed-container failure if a header
/// cannot be parsed before any entry matches.
pub open spec fn spec_find_member(bytes: Seq<u8>, member: Seq<char>) -> Result<
    Seq<u8>,
    crate::errors::ErrorModel,
> {
    match first_member_match(ar_entries(bytes), member) {
        Some(i) => Ok(ar_entries(bytes)[i].1),
        None => if ar_clean(bytes) {
            Err(
                crate::errors::ErrorModel::NotFound {
                    stage: Stage::Container,
                    sought: member,
                    scanned: ar_entries(bytes).len(),
                },
            )
        } else {
            Err(crate::errors::ErrorModel::MalformedInput { stage: Stage::Container })
        },
    }
}

/// Scans the container `bytes` in storage order for the member named
/// `member` and returns that entry's content bytes.
pub fn find_member(bytes: &[u8], member: &str) -> (r: Result<Vec<u8>, ExtractError>)
    ensures
        match r {
            Ok(content) => spec_find_member(bytes@, member@) == Ok::<_, crate::errors::ErrorModel>(
                content@,
            ),
            Err(e) => spec_find_member(bytes@, member@) == Err::<Seq<u8>, _>(e@),
        },
{
    let member_text: String = member.to_owned();
    let byte_count: usize = bytes.len();
    let mut scan = ar_open(bytes);
    let ghost all = ar_entries(bytes@);
    proof {
        assert(all.skip(0) =~= all);
    }
    let mut i: usize = 0;
    loop
        invariant
            all == ar_entries(bytes@),
            i <= all.len(),
            all.len() <= bytes@.len(),
            bytes@.len() == byte_count,
            member_text@ == member@,
            ar_rest(scan) == all.skip(i as int),
            ar_rest_clean(scan) == ar_clean(bytes@),
            forall|j: int| 0 <= j < i ==> !utf8_name_is(all[j].0, member@),
        decreases all.len() - i,
    {
        match ar_next(&mut scan) {
            ArProbe::Entry(name, content) => {
                proof {
                    assert(all.skip(i as int)[0] == all[i as int]);
                    assert(all.skip(i as int).drop_first() =~= all.skip(i + 1));
                }
                let matched: bool = match utf8_to_string(name.as_slice()) {
                    Some(text) => text == member_text,
                    None => false,
                };
                if matched {
                    proof {
                        lemma_first_match_found(all, member@, i as int);
                    }
                    return Ok(content);
                }
                proof {
                    assert(!utf8_name_is(all[i as int].0, member@));
                }
                i = i + 1;
            },
            ArProbe::End => {
                proof {
                    lemma_first_match_none(all, member@, i as int);
                }
                return Err(
                    ExtractError::NotFound {
                        stage: Stage::Container,
                        sought: member.to_owned(),
                        scanned: i,
                    },
                );
            },
            ArProbe::Malformed => {
                proof {
                    lemma_first_match_none(all, member@, i as int);
                }
                return Err(ExtractError::MalformedInput { stage: Stage::Container });
            },
        }
    }
}

/// If no entry before `i` matches, the first match over all entries is the
/// first match over the entries from `i` on, shifted by `i`.
proof fn lemma_first_match_skip(entries: Seq<(Seq<u8>, Seq<u8>)>, member: Seq<char>, i: int)
    requires
        0 <= i <= entries.len(),
        forall|j: int| 0 <= j < i ==> !utf8_name_is(entries[j].0, member),
    ensures
        first_member_match(entries, member) == match first_member_match(
            entries.skip(i),
            member,
        ) {
            None => None::<int>,
            Some(k) => Some(k + i),
        },
    decreases i,
{
    if i > 0 {
        assert(entries.drop_first() =~= entries.skip(1));
        assert(entries.skip(1).skip(i - 1) =~= entries.skip(i));
        assert forall|j: int| 0 <= j < i - 1 implies !utf8_name_is(
            entries.skip(1)[j].0,
            member,
        ) by {
            assert(entries.skip(1)[j] == entries[j + 1]);
        }
        lemma_first_match_skip(entries.skip(1), member, i - 1);
    } else {
        assert(entries.skip(0) =~= entries);
    }
}

/// A matching entry at `i`, with none before it, is the first match.
proof fn lemma_first_match_found(entries: Seq<(Seq<u8>, Seq<u8>)>, member: Seq<char>, i: int)
    requires
        0 <= i < entries.len(),
        utf8_name_is(entries[i].0, member),
        forall|j: int| 0 <= j < i ==> !utf8_name_is(entries[j].0, member),
    ensures
        first_member_match(entries, member) == Some(i),
{
    lemma_first_match_skip(entries, member, i);
    assert(entries.skip(i)[0] == entries[i]);
}

/// If the entries up to `i` are all there are and none matches, there is no
/// first match at all.
proof fn lemma_first_match_none(entries: Seq<(Seq<u8>, Seq<u8>)>, member: Seq<char>, i: int)
    requires
        0 <= i <= entries.len(),
        entries.skip(i).len() == 0,
        forall|j: int| 0 <= j < i ==> !utf8_name_is(entries[j].0, member),
    ensures
        first_member_match(entries, member) == None::<int>,
{
    lemma_first_match_skip(entries, member, i);
}

} // verus!
