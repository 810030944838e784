//! Reading one file out of an application bundle.
//!
//! A bundle stores a leading header/index — a JSON tree mapping names to
//! nested directories and to file records with a byte offset and length —
//! followed by a concatenated content blob.  The index is parsed once; a
//! lookup then walks the tree one path component at a time, by exact name,
//! with no normalization of separators or dot segments, and the file's
//! bytes are cut out of the blob here, with every offset checked against
//! the bundle's length first.
//!
//! Only the JSON parse is delegated to the `asar` crate, behind the
//! trusted items below; the component walk, the offset arithmetic and the
//! slicing are verified.  Symbolic links in the index are not followed,
//! and a file marked as unpacked — stored beside the bundle rather than in
//! it — reads as empty, as no outside storage is consulted.

use vstd::prelude::*;

use crate::errors::{ExtractError, Stage};
use crate::paths::{components_from, lemma_components_len, lemma_components_segment};
use vstd::string::StrSliceExecFns;

verus! {

/// The declared shadow of the `asar` crate's index-tree node.
#[verifier::external_type_specification]
#[verifier::external_body]
pub struct ExAsarHeader(asar::Header);

/// The files a parsed index node holds, keyed by the exact list of names
/// leading down to each: a file node itself holds the empty list; a
/// directory holds each child's entries behind that child's name; a link
/// holds none.  Each file's value is its byte offset into the content
/// blob, its byte length, and whether it is stored unpacked.
pub uninterp spec fn header_files(h: asar::Header) -> Map<Seq<Seq<char>>, (nat, nat, bool)>;

/// What the `asar` crate's index parse makes of the bundle `bytes`: the
/// root node's files, or nothing if the leading header or its JSON cannot
/// be parsed.
pub uninterp spec fn asar_index(bytes: Seq<u8>) -> Option<Map<Seq<Seq<char>>, (nat, nat, bool)>>;

/// The little-endian 32-bit value at byte `i` of `bytes`.
pub open spec fn le32_at(bytes: Seq<u8>, i: int) -> nat {
    if 0 <= i && i + 4 <= bytes.len() {
        (bytes[i] + bytes[i + 1] * 0x100 + bytes[i + 2] * 0x10000 + bytes[i + 3]
            * 0x1000000) as nat
    } else {
        0
    }
}

/// Where the bundle's content blob begins: eight bytes past the header
/// size that the bundle's second little-endian word states.
pub open spec fn asar_content_base(bytes: Seq<u8>) -> nat {
    le32_at(bytes, 4) + 8
}

/// The map the lookup walks into after one component step.
pub open spec fn sub_index(
    m: Map<Seq<Seq<char>>, (nat, nat, bool)>,
    name: Seq<char>,
) -> Map<Seq<Seq<char>>, (nat, nat, bool)> {
    Map::new(
        |p: Seq<Seq<char>>| m.contains_key(p.insert(0, name)),
        |p: Seq<Seq<char>>| m[p.insert(0, name)],
    )
}

/// Whether `m` holds `info` as a file at its own root.
pub open spec fn file_at_root(m: Map<Seq<Seq<char>>, (nat, nat, bool)>, info: (
    nat,
    nat,
    bool,
)) -> bool {
    m.contains_key(Seq::empty()) && m[Seq::empty()] == info
}

/// Relies on `asar::Header::read`: it reads the bundle's four-word
/// prelude, takes the JSON index from it, and returns the parsed tree with
/// the content blob's base offset — the stated header size plus eight —
/// failing exactly when the prelude is short or the JSON does not parse.
/// The parse is a function of `bytes` alone.
#[verifier::external_body]
fn asar_read_header(bytes: &[u8]) -> (r: Option<(asar::Header, usize)>)
    ensures
        r matches Some(_) <==> asar_index(bytes@) matches Some(_),
        r matches Some(p) ==> asar_index(bytes@) == Some(header_files(p.0)),
        r matches Some(p) ==> p.1 as nat == asar_content_base(bytes@),
{
    match asar::Header::read(&mut &bytes[..]) {
        Ok(p) => Some(p),
        Err(_) => None,
    }
}

/// Relies on the index tree's shape: a directory node maps child names to
/// child nodes, and looking a name up in it is an exact map lookup; file
/// and link nodes have no children.
#[verifier::external_body]
fn asar_child<'a>(h: &'a asar::Header, name: &str) -> (r: Option<&'a asar::Header>)
    ensures
        r matches Some(c) ==> header_files(*c) == sub_index(header_files(*h), name@),
        match r { Some(_) => true, None => sub_index(header_files(*h), name@) == Map::<Seq<Seq<char>>, (nat, nat, bool)>::empty() },
{
    match h {
        asar::Header::Directory { files } => files.get(name),
        _ => None,
    }
}

/// Relies on the index tree's shape: a file node carries its offset into
/// the content blob, its size, and whether it is stored unpacked; other
/// nodes carry no file of their own.
#[verifier::external_body]
fn asar_file_info(h: &asar::Header) -> (r: Option<(usize, usize, bool)>)
    ensures
        r matches Some(info) ==> file_at_root(header_files(*h), (info.0 as nat, info.1 as nat, info.2)),
        match r { Some(_) => true, None => !header_files(*h).contains_key(Seq::<Seq<char>>::empty()) },
{
    match h {
        asar::Header::File(f) => match f.location() {
            asar::header::FileLocation::Offset { offset } => Some((offset, f.size(), false)),
            asar::header::FileLocation::Unpacked { .. } => Some((0, f.size(), true)),
        },
        _ => None,
    }
}

/// What reading `path` out of the bundle `bytes` must yield: the bytes the
/// index locates for that exact component path, cut from the content blob;
/// a not-found failure naming `path` if the index has no file there; a
/// malformed-bundle failure if the index does not parse or locates the
/// file past the bundle's end.  The lookup consults no entry count, so a
/// not-found failure reports none.
pub open spec fn spec_read_bundle_file(bytes: Seq<u8>, path: Seq<char>) -> Result<
    Seq<u8>,
    crate::errors::ErrorModel,
> {
    match asar_index(bytes) {
        None => Err(crate::errors::ErrorModel::MalformedInput { stage: Stage::Bundle }),
        Some(m) => {
            let comps = components_from(path, 0);
            if m.contains_key(comps) {
                let info = m[comps];
                if info.2 {
                    Ok(Seq::empty())
                } else if asar_content_base(bytes) + info.0 + info.1 <= bytes.len() {
                    Ok(
                        bytes.subrange(
                            (asar_content_base(bytes) + info.0) as int,
                            (asar_content_base(bytes) + info.0 + info.1) as int,
                        ),
                    )
                } else {
                    Err(crate::errors::ErrorModel::MalformedInput { stage: Stage::Bundle })
                }
            } else {
                Err(
                    crate::errors::ErrorModel::NotFound {
                        stage: Stage::Bundle,
                        sought: path,
                        scanned: 0,
                    },
                )
            }
        },
    }
}

/// Parses the bundle `bytes` and returns the content of the file its index
/// locates under the logical path `path`.
pub fn read_bundle_file(bytes: &[u8], path: &str) -> (r: Result<Vec<u8>, ExtractError>)
    ensures
        match r {
            Ok(content) => spec_read_bundle_file(bytes@, path@) == Ok::<
                _,
                crate::errors::ErrorModel,
            >(content@),
            Err(e) => spec_read_bundle_file(bytes@, path@) == Err::<Seq<u8>, _>(e@),
        },
{
    let parsed = asar_read_header(bytes);
    let (root, base) = match parsed {
        Some(p) => p,
        None => {
            return Err(ExtractError::MalformedInput { stage: Stage::Bundle });
        },
    };
    let ghost m = asar_index(bytes@)->Some_0;
    let ghost full = components_from(path@, 0);
    let n: usize = path.unicode_len();
    let mut pos: usize = 0;
    let mut node: &asar::Header = &root;
    let ghost mut done: Seq<Seq<char>> = Seq::empty();
    proof {
        assert forall|rest: Seq<Seq<char>>| #[trigger]
            header_files(*node).contains_key(rest) == m.contains_key(done + rest) by {
            assert(done + rest =~= rest);
        }
        assert forall|rest: Seq<Seq<char>>|
            header_files(*node).contains_key(rest) implies #[trigger] header_files(*node)[rest]
            == m[done + rest] by {
            assert(done + rest =~= rest);
        }
    }
    loop
        invariant
            pos <= n,
            n == path@.len(),
            asar_index(bytes@) == Some(m),
            base as nat == asar_content_base(bytes@),
            full == components_from(path@, 0),
            full == done + components_from(path@, pos as int),
            forall|rest: Seq<Seq<char>>| #[trigger]
                header_files(*node).contains_key(rest) == m.contains_key(done + rest),
            forall|rest: Seq<Seq<char>>|
                header_files(*node).contains_key(rest) ==> #[trigger] header_files(*node)[rest]
                    == m[done + rest],
        decreases n - pos,
    {
        let mut k: usize = pos;
        while k < n && path.get_char(k) != '/'
            invariant
                pos <= k <= n,
                n == path@.len(),
                forall|j: int| pos <= j < k ==> path@[j] != '/',
            decreases n - k,
        {
            k = k + 1;
        }
        let comp: &str = path.substring_char(pos, k);
        proof {
            lemma_components_segment(path@, pos as int, k as int);
            lemma_components_len(path@, k as int);
            assert(path@.subrange(pos as int, k as int) == comp@);
            if k < n {
                assert(components_from(path@, k as int) == seq![Seq::<char>::empty()]
                    + components_from(path@, k + 1));
                assert((seq![Seq::<char>::empty()] + components_from(path@, k + 1))[0]
                    =~= Seq::<char>::empty());
                assert((seq![Seq::<char>::empty()] + components_from(path@, k + 1)).drop_first()
                    =~= components_from(path@, k + 1));
                assert(comp@ + Seq::<char>::empty() =~= comp@);
                assert(components_from(path@, pos as int) =~= seq![comp@] + components_from(
                    path@,
                    k + 1,
                ));
            } else {
                assert(components_from(path@, k as int) == seq![Seq::<char>::empty()]);
                assert(seq![Seq::<char>::empty()].drop_first() =~= Seq::<Seq<char>>::empty());
                assert(comp@ + Seq::<char>::empty() =~= comp@);
                assert(seq![comp@] + Seq::<Seq<char>>::empty() =~= seq![comp@]);
                assert(components_from(path@, pos as int) =~= seq![comp@]);
            }
        }
        match asar_child(node, comp) {
            Some(child) => {
                proof {
                    assert forall|rest: Seq<Seq<char>>| #[trigger]
                        header_files(*child).contains_key(rest) == m.contains_key(
                        done.push(comp@) + rest,
                    ) by {
                        assert(header_files(*child).contains_key(rest)
                            == sub_index(header_files(*node), comp@).contains_key(rest));
                        assert(rest.insert(0, comp@) =~= seq![comp@] + rest);
                        assert(done + (seq![comp@] + rest) =~= done.push(comp@) + rest);
                    }
                    assert forall|rest: Seq<Seq<char>>|
                        header_files(*child).contains_key(rest) implies #[trigger] header_files(
                        *child,
                    )[rest] == m[done.push(comp@) + rest] by {
                        assert(rest.insert(0, comp@) =~= seq![comp@] + rest);
                        assert(done + (seq![comp@] + rest) =~= done.push(comp@) + rest);
                    }
                }
                node = child;
                proof {
                    if k < n {
                        assert(done + (seq![comp@] + components_from(path@, k + 1))
                            =~= done.push(comp@) + components_from(path@, k + 1));
                        assert(full == done.push(comp@) + components_from(path@, k + 1));
                    } else {
                        assert(done + seq![comp@] =~= done.push(comp@));
                        assert(full == done.push(comp@));
                    }
                    done = done.push(comp@);
                }
                if k < n {
                    pos = k + 1;
                } else {
                    proof {
                        assert(full =~= done);
                    }
                    match asar_file_info(node) {
                        Some((offset, size, unpacked)) => {
                            proof {
                                assert(header_files(*node).contains_key(Seq::empty()));
                                assert(done + Seq::<Seq<char>>::empty() =~= done);
                                assert(m.contains_key(full));
                                assert(m[full] == (offset as nat, size as nat, unpacked));
                            }
                            if unpacked {
                                return Ok(Vec::new());
                            }
                            let blen: usize = bytes.len();
                            if base > blen || offset > blen - base || size > blen - base - offset {
                                return Err(
                                    ExtractError::MalformedInput { stage: Stage::Bundle },
                                );
                            }
                            return Ok(slice_range_to_vec(bytes, base + offset, size));
                        },
                        None => {
                            proof {
                                assert(!header_files(*node).contains_key(Seq::empty()));
                                assert(done + Seq::<Seq<char>>::empty() =~= done);
                                assert(!m.contains_key(full));
                            }
                            return Err(
                                ExtractError::NotFound {
                                    stage: Stage::Bundle,
                                    sought: path.to_owned(),
                                    scanned: 0,
                                },
                            );
                        },
                    }
                }
            },
            None => {
                proof {
                    let tail = components_from(path@, k + 1);
                    if k < n {
                        assert(!sub_index(header_files(*node), comp@).contains_key(tail));
                        assert(!header_files(*node).contains_key(tail.insert(0, comp@)));
                        assert(tail.insert(0, comp@) =~= seq![comp@] + tail);
                        assert(!m.contains_key(done + (seq![comp@] + tail)));
                        assert(done + (seq![comp@] + tail) =~= full);
                    } else {
                        assert(!sub_index(header_files(*node), comp@).contains_key(
                            Seq::<Seq<char>>::empty(),
                        ));
                        assert(Seq::<Seq<char>>::empty().insert(0, comp@) =~= seq![comp@]);
                        assert(!header_files(*node).contains_key(seq![comp@]));
                        assert(!m.contains_key(done + seq![comp@]));
                        assert(done + seq![comp@] =~= full);
                    }
                    assert(!m.contains_key(full));
                }
                return Err(
                    ExtractError::NotFound {
                        stage: Stage::Bundle,
                        sought: path.to_owned(),
                        scanned: 0,
                    },
                );
            },
        }
    }
}

/// `count` bytes of `bytes` from `start` on, as their own vector.
fn slice_range_to_vec(bytes: &[u8], start: usize, count: usize) -> (v: Vec<u8>)
    requires
        start + count <= bytes@.len(),
    ensures
        v@ == bytes@.subrange(start as int, start as int + count as int),
{
    let len: usize = bytes.len();
    let mut v: Vec<u8> = Vec::new();
    let mut i: usize = 0;
    while i < count
        invariant
            i <= count,
            start + count <= len,
            len == bytes@.len(),
            v@ == bytes@.subrange(start as int, start as int + i as int),
        decreases count - i,
    {
        v.push(bytes[start + i]);
        proof {
            assert(bytes@.subrange(start as int, start as int + i as int).push(
                bytes@[start + i],
            ) =~= bytes@.subrange(start as int, start as int + i + 1));
        }
        i = i + 1;
    }
    v
}

} // verus!
