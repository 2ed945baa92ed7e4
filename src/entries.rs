//! Which archive entries survive into the install-only archive, and under
//! which path.
use vstd::prelude::*;
use vstd::utf8::{decode_utf8, valid_utf8};
use crate::header::sealed;

verus! {

/// `python/install/`, the directory that holds the runnable installation.
pub open spec fn install_prefix() -> Seq<u8> {
    seq![112u8, 121, 116, 104, 111, 110, 47, 105, 110, 115, 116, 97, 108, 108, 47]
}

/// `python/`, the directory the installation is moved to.
pub open spec fn root_prefix() -> Seq<u8> {
    seq![112u8, 121, 116, 104, 111, 110, 47]
}

/// The path begins with `python/install/`, compared byte for byte.
pub open spec fn is_install_path(path: Seq<u8>) -> bool {
    path.len() >= install_prefix().len() && path.subrange(0, install_prefix().len() as int)
        == install_prefix()
}

/// `python/install/<rest>` becomes `python/<rest>`; any other path is dropped.
pub open spec fn rerooted(path: Seq<u8>) -> Option<Seq<u8>> {
    if is_install_path(path) {
        Some(root_prefix() + path.subrange(install_prefix().len() as int, path.len() as int))
    } else {
        None
    }
}

/// Returns `Some(python/<rest>)` for a path `python/install/<rest>`, and
/// `None` for any other path.
pub fn install_only_path(path: &[u8]) -> (r: Option<Vec<u8>>)
    ensures
        r.is_some() == is_install_path(path@),
        r.is_some() ==> Some(r.unwrap()@) == rerooted(path@),
{
    let prefix: [u8; 15] = [
        112u8, 121, 116, 104, 111, 110, 47, 105, 110, 115, 116, 97, 108, 108, 47,
    ];
    assert(prefix@ =~= install_prefix());
    if path.len() < 15 {
        return None;
    }
    let mut i: usize = 0;
    while i < 15
        invariant
            prefix@ == install_prefix(),
            path@.len() >= 15,
            0 <= i <= 15,
            forall|j: int| 0 <= j < i ==> path@[j] == prefix@[j],
        decreases 15 - i,
    {
        if path[i] != prefix[i] {
            assert(path@.subrange(0, 15)[i as int] != install_prefix()[i as int]);
            return None;
        }
        i = i + 1;
    }
    assert(path@.subrange(0, 15) =~= install_prefix());
    let mut out: Vec<u8> = vec![112u8, 121, 116, 104, 111, 110, 47];
    assert(out@ =~= root_prefix());
    let mut k: usize = 15;
    while k < path.len()
        invariant
            15 <= k <= path@.len(),
            out@ == root_prefix() + path@.subrange(15, k as int),
        decreases path@.len() - k,
    {
        out.push(path[k]);
        k = k + 1;
        assert(out@ =~= root_prefix() + path@.subrange(15, k as int));
    }
    Some(out)
}

/// An entry as read from the source archive: its path, its 512-byte header
/// block and its body.
pub struct SourceEntry {
    pub path: Seq<u8>,
    pub header: Seq<u8>,
    pub body: Seq<u8>,
}

/// An entry read from a tar archive.
pub struct ArchiveEntry {
    pub path: Vec<u8>,
    pub header: Vec<u8>,
    pub body: Vec<u8>,
}

impl View for ArchiveEntry {
    type V = SourceEntry;

    open spec fn view(&self) -> SourceEntry {
        SourceEntry { path: self.path@, header: self.header@, body: self.body@ }
    }
}

/// The views of a sequence of entries.
pub open spec fn entry_views(s: Seq<ArchiveEntry>) -> Seq<SourceEntry> {
    s.map_values(|e: ArchiveEntry| e@)
}

/// An entry as written to the install-only archive.
pub struct OutputEntry {
    pub path: Seq<u8>,
    pub header: Seq<u8>,
    pub body: Seq<u8>,
}

/// What tar's `Header::set_path` makes of header block `h` given path `p`,
/// or `None` where tar refuses the path (too long for the header's fields,
/// or holding a `..` component).
pub uninterp spec fn header_with_path(h: Seq<u8>, p: Seq<char>) -> Option<Seq<u8>>;

/// The block carries the ustar magic `ustar\0` and version `00`.
pub open spec fn is_ustar(h: Seq<u8>) -> bool {
    &&& h.len() == 512
    &&& h.subrange(257, 263) == seq![117u8, 115, 116, 97, 114, 0]
    &&& h.subrange(263, 265) == seq![48u8, 48]
}

/// `h` with the ustar prefix field (bytes 345..500) emptied, so that the
/// path written next is not read behind an old prefix; other headers are
/// kept as they are.
pub open spec fn prefix_cleared(h: Seq<u8>) -> Seq<u8> {
    if is_ustar(h) {
        h.subrange(0, 345) + Seq::new(155, |i: int| 0u8) + h.subrange(500, 512)
    } else {
        h
    }
}

/// The new path of entry `e` as text, if it is retained.
pub open spec fn new_path_text(e: SourceEntry) -> Seq<char> {
    decode_utf8(rerooted(e.path)->Some_0)
}

/// The header written for a retained entry `e`, before its checksum is set.
pub open spec fn renamed_header(e: SourceEntry) -> Option<Seq<u8>> {
    header_with_path(prefix_cleared(e.header), new_path_text(e))
}

/// `e` is dropped, or its new path is UTF-8 text that tar accepts.
pub open spec fn entry_convertible(e: SourceEntry) -> bool {
    is_install_path(e.path) ==> valid_utf8(rerooted(e.path)->Some_0) && renamed_header(e) is Some
}

/// Every entry of `s` can be converted.
pub open spec fn all_convertible(s: Seq<SourceEntry>) -> bool {
    forall|i: int| 0 <= i < s.len() ==> entry_convertible(#[trigger] s[i])
}

/// `out` agrees with `src` in every header field but the name, the ustar
/// prefix and the checksum: mode, owner, size, time, type, link name and
/// device numbers are kept.
pub open spec fn fields_kept(src: Seq<u8>, out: Seq<u8>) -> bool {
    &&& out.len() == 512
    &&& forall|i: int|
        100 <= i < 512 && !(148 <= i < 156) && !(345 <= i < 500) ==> #[trigger] out[i] == src[i]
}

/// The entry that `e` becomes in the install-only archive, if any: its path
/// rerooted, its header the one tar makes for that path with the checksum
/// recomputed, and its body unchanged.
pub open spec fn output_entry(e: SourceEntry) -> Option<OutputEntry> {
    match rerooted(e.path) {
        Some(p) => Some(OutputEntry { path: p, header: sealed(renamed_header(e)->Some_0), body: e.body }),
        None => None,
    }
}

/// The entries of the install-only archive made from the source entries `s`,
/// in order.
pub open spec fn install_only_entries(s: Seq<SourceEntry>) -> Seq<OutputEntry>
    decreases s.len(),
{
    if s.len() == 0 {
        Seq::empty()
    } else {
        let front = install_only_entries(s.drop_last());
        match output_entry(s.last()) {
            Some(o) => front.push(o),
            None => front,
        }
    }
}

/// The source entries that lie under `python/install/`, in order.
pub open spec fn install_entries(s: Seq<SourceEntry>) -> Seq<SourceEntry> {
    s.filter(|e: SourceEntry| is_install_path(e.path))
}

/// The conversion distributes over concatenation: the entries made from
/// `a + b` are those made from `a` followed by those made from `b`, so the
/// relative order of retained entries is kept.
pub proof fn lemma_order_preserved(a: Seq<SourceEntry>, b: Seq<SourceEntry>)
    ensures
        install_only_entries(a + b) == install_only_entries(a) + install_only_entries(b),
    decreases b.len(),
{
    if b.len() == 0 {
        assert(a + b =~= a);
        assert(install_only_entries(b) =~= Seq::<OutputEntry>::empty());
        assert(install_only_entries(a) + install_only_entries(b) =~= install_only_entries(a));
    } else {
        lemma_order_preserved(a, b.drop_last());
        assert((a + b).drop_last() =~= a + b.drop_last());
        assert((a + b).last() == b.last());
        match output_entry(b.last()) {
            Some(o) => {
                assert(install_only_entries(a) + install_only_entries(b) =~= (install_only_entries(a)
                    + install_only_entries(b.drop_last())).push(o));
            },
            None => {},
        }
    }
}

proof fn lemma_single(e: SourceEntry)
    ensures
        install_only_entries(seq![e]) == match output_entry(e) {
            Some(o) => seq![o],
            None => Seq::<OutputEntry>::empty(),
        },
{
    assert(seq![e].drop_last() =~= Seq::<SourceEntry>::empty());
    assert(seq![e].last() == e);
    assert(install_only_entries(Seq::<SourceEntry>::empty()) == Seq::<OutputEntry>::empty());
    match output_entry(e) {
        Some(o) => {
            assert(Seq::<OutputEntry>::empty().push(o) =~= seq![o]);
        },
        None => {},
    }
}

/// An entry outside `python/install/` contributes nothing: removing it from
/// anywhere in the source leaves the install-only archive unchanged.
pub proof fn lemma_others_dropped(a: Seq<SourceEntry>, e: SourceEntry, b: Seq<SourceEntry>)
    requires
        !is_install_path(e.path),
    ensures
        install_only_entries(a + seq![e] + b) == install_only_entries(a + b),
{
    lemma_order_preserved(a + seq![e], b);
    lemma_order_preserved(a, seq![e]);
    lemma_order_preserved(a, b);
    lemma_single(e);
    assert(install_only_entries(a) + install_only_entries(seq![e]) =~= install_only_entries(a));
}

/// An entry at `python/install/<rest>` gives exactly one entry, at
/// `python/<rest>`, with the same body.
pub proof fn lemma_install_entry_renamed(e: SourceEntry)
    requires
        is_install_path(e.path),
    ensures
        install_only_entries(seq![e]).len() == 1,
        install_only_entries(seq![e])[0].path == root_prefix() + e.path.subrange(
            install_prefix().len() as int,
            e.path.len() as int,
        ),
        install_only_entries(seq![e])[0].body == e.body,
{
    lemma_single(e);
}

/// Reading the install-only entries back and putting `install/` back after
/// `python/` gives exactly the source entries under `python/install/`: the
/// same paths and the same bodies, in the same order.
pub proof fn lemma_round_trip(s: Seq<SourceEntry>)
    ensures
        install_only_entries(s).len() == install_entries(s).len(),
        forall|i: int|
            0 <= i < install_only_entries(s).len() ==> {
                &&& install_prefix() + (#[trigger] install_only_entries(s)[i]).path.subrange(
                    root_prefix().len() as int,
                    install_only_entries(s)[i].path.len() as int,
                ) == install_entries(s)[i].path
                &&& install_only_entries(s)[i].body == install_entries(s)[i].body
            },
    decreases s.len(),
{
    if s.len() > 0 {
        lemma_round_trip(s.drop_last());
        let e = s.last();
        let front = install_only_entries(s.drop_last());
        let ffront = install_entries(s.drop_last());
        reveal_with_fuel(Seq::filter, 1);
        assert(install_entries(s) == if is_install_path(e.path) {
            ffront.push(e)
        } else {
            ffront
        });
        match output_entry(e) {
            Some(o) => {
                let n = install_prefix().len() as int;
                assert(o.path.subrange(root_prefix().len() as int, o.path.len() as int) =~= e.path.subrange(
                    n,
                    e.path.len() as int,
                ));
                assert(install_prefix() + e.path.subrange(n, e.path.len() as int) =~= e.path) by {
                    assert(e.path.subrange(0, n) == install_prefix());
                }
            },
            None => {},
        }
    }
}

/// How both sequences grow by one source entry.
pub proof fn lemma_step(s: Seq<SourceEntry>)
    requires
        s.len() > 0,
    ensures
        install_entries(s) == if is_install_path(s.last().path) {
            install_entries(s.drop_last()).push(s.last())
        } else {
            install_entries(s.drop_last())
        },
        install_only_entries(s) == match output_entry(s.last()) {
            Some(o) => install_only_entries(s.drop_last()).push(o),
            None => install_only_entries(s.drop_last()),
        },
{
    reveal_with_fuel(Seq::filter, 1);
}

/// Emptying the ustar prefix leaves every byte outside it as it was.
pub proof fn lemma_prefix_cleared(h: Seq<u8>)
    requires
        h.len() == 512,
    ensures
        prefix_cleared(h).len() == 512,
        forall|i: int| 0 <= i < 512 && !(345 <= i < 500) ==> #[trigger] prefix_cleared(h)[i] == h[i],
{
}

/// Empties the ustar prefix field of a header block, if it is a ustar header.
pub fn clear_ustar_prefix(h: &mut Vec<u8>)
    requires
        old(h)@.len() == 512,
    ensures
        final(h)@ == prefix_cleared(old(h)@),
{
    let ghost h0 = h@;
    let magic: [u8; 8] = [117u8, 115, 116, 97, 114, 0, 48, 48];
    let mut k: usize = 0;
    while k < 8
        invariant
            h@ == h0,
            h0.len() == 512,
            magic@ == seq![117u8, 115, 116, 97, 114, 0, 48, 48],
            0 <= k <= 8,
            forall|j: int| 0 <= j < k ==> h0[257 + j] == magic@[j],
        decreases 8 - k,
    {
        if h[257 + k] != magic[k] {
            proof {
                if k < 6 {
                    assert(h0.subrange(257, 263)[k as int] != seq![117u8, 115, 116, 97, 114, 0][k as int]);
                } else {
                    assert(h0.subrange(263, 265)[k - 6] != seq![48u8, 48][k - 6]);
                }
            }
            return;
        }
        k = k + 1;
    }
    assert(h0.subrange(257, 263) =~= seq![117u8, 115, 116, 97, 114, 0]);
    assert(h0.subrange(263, 265) =~= seq![48u8, 48]);
    let mut i: usize = 345;
    while i < 500
        invariant
            345 <= i <= 500,
            h@.len() == 512,
            h0.len() == 512,
            forall|j: int| 0 <= j < 512 && !(345 <= j < i) ==> h@[j] == h0[j],
            forall|j: int| 345 <= j < i ==> h@[j] == 0u8,
        decreases 500 - i,
    {
        h.set(i, 0);
        i = i + 1;
    }
    assert(h@ =~= prefix_cleared(h0));
}

} // verus!
