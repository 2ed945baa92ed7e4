//! Which build variants are released for each target triple.
use vstd::prelude::*;

verus! {

#[verifier::external_type_specification]
#[verifier::external_body]
pub struct ExVersionReq(semver::VersionReq);

/// `text` is a version requirement that semver accepts.
pub uninterp spec fn version_req_parses(text: Seq<char>) -> bool;

/// Relies on semver::VersionReq::parse: the requirement that `text` writes,
/// if it is one.
#[verifier::external_body]
fn parse_version_req(text: &str) -> (r: Option<semver::VersionReq>)
    ensures
        r is Some <==> version_req_parses(text@),
{
    semver::VersionReq::parse(text).ok()
}

/// Describes a release for a given target triple.
pub struct TripleRelease {
    /// Build suffixes to release.
    pub suffixes: Vec<String>,
    /// Build suffix to use for the `install_only` artifact.
    pub install_only_suffix: String,
    /// Minimum Python version this triple is released for.
    pub python_version_requirement: Option<semver::VersionReq>,
}

/// What a `TripleRelease` says, as plain values.
pub struct ReleaseView {
    pub suffixes: Seq<Seq<char>>,
    pub install_only_suffix: Seq<char>,
    pub has_version_requirement: bool,
}

/// The texts of a sequence of strings.
pub open spec fn texts(s: Seq<String>) -> Seq<Seq<char>> {
    s.map_values(|x: String| x@)
}

impl View for TripleRelease {
    type V = ReleaseView;

    open spec fn view(&self) -> ReleaseView {
        ReleaseView {
            suffixes: texts(self.suffixes@),
            install_only_suffix: self.install_only_suffix@,
            has_version_requirement: self.python_version_requirement is Some,
        }
    }
}

impl TripleRelease {
    /// The install-only suffix is one of the released suffixes.
    pub open spec fn wf(&self) -> bool {
        texts(self.suffixes@).contains(self.install_only_suffix@)
    }
}

/// Why the registry could not be built.
#[derive(Debug, Clone, Copy, PartialEq, Eq, Structural)]
pub enum RegistryError {
    /// A triple was registered twice.
    DuplicateTriple,
    /// A version requirement did not parse.
    VersionRequirement,
}

struct RegistryEntry {
    triple: String,
    release: TripleRelease,
}

/// Releases keyed by target triple; each triple appears once.
pub struct Registry {
    entries: Vec<RegistryEntry>,
}

/// The triples of a table, in order.
pub open spec fn table_triples(t: Seq<(Seq<char>, ReleaseView)>) -> Seq<Seq<char>> {
    t.map_values(|p: (Seq<char>, ReleaseView)| p.0)
}

/// The release a table holds for `triple`, if any.
pub open spec fn release_in(t: Seq<(Seq<char>, ReleaseView)>, triple: Seq<char>) -> Option<ReleaseView>
    decreases t.len(),
{
    if t.len() == 0 {
        None
    } else if t.last().0 == triple {
        Some(t.last().1)
    } else {
        release_in(t.drop_last(), triple)
    }
}

impl View for Registry {
    type V = Seq<(Seq<char>, ReleaseView)>;

    closed spec fn view(&self) -> Seq<(Seq<char>, ReleaseView)> {
        self.entries@.map_values(|e: RegistryEntry| (e.triple@, e.release@))
    }
}

/// The two texts are equal.
fn same_text(a: &str, b: &str) -> (r: bool)
    ensures
        r == (a@ == b@),
{
    let n = a.unicode_len();
    if n != b.unicode_len() {
        return false;
    }
    let mut i: usize = 0;
    while i < n
        invariant
            n == a@.len(),
            n == b@.len(),
            0 <= i <= n,
            forall|j: int| 0 <= j < i ==> a@[j] == b@[j],
        decreases n - i,
    {
        if a.get_char(i) != b.get_char(i) {
            return false;
        }
        i = i + 1;
    }
    assert(a@ =~= b@);
    true
}

impl Registry {
    /// Every triple appears once.
    pub closed spec fn wf(&self) -> bool {
        forall|i: int, j: int|
            0 <= i < j < self.entries@.len() ==> #[trigger] self.entries@[i].triple@
                != #[trigger] self.entries@[j].triple@
    }

    /// A registry with no releases.
    pub fn new() -> (r: Registry)
        ensures
            r.wf(),
            r@ == Seq::<(Seq<char>, ReleaseView)>::empty(),
    {
        let r = Registry { entries: Vec::new() };
        assert(r@ =~= Seq::<(Seq<char>, ReleaseView)>::empty());
        r
    }

    /// Registers `release` for `triple`. Registering a triple a second time
    /// is refused and leaves the registry unchanged.
    pub fn insert(&mut self, triple: &str, release: TripleRelease) -> (r: Result<(), RegistryError>)
        requires
            old(self).wf(),
        ensures
            final(self).wf(),
            r is Err <==> table_triples(old(self)@).contains(triple@),
            r is Err ==> r->Err_0 == RegistryError::DuplicateTriple && final(self)@ == old(self)@,
            r is Ok ==> final(self)@ == old(self)@.push((triple@, release@)),
    {
        let mut i: usize = 0;
        while i < self.entries.len()
            invariant
                self.wf(),
                *self == *old(self),
                0 <= i <= self.entries@.len(),
                forall|j: int| 0 <= j < i ==> #[trigger] self.entries@[j].triple@ != triple@,
            decreases self.entries@.len() - i,
        {
            if same_text(self.entries[i].triple.as_str(), triple) {
                proof {
                    assert(table_triples(self@)[i as int] == triple@);
                }
                return Err(RegistryError::DuplicateTriple);
            }
            i = i + 1;
        }
        proof {
            if table_triples(self@).contains(triple@) {
                let k = choose|k: int| 0 <= k < table_triples(self@).len() && table_triples(self@)[k] == triple@;
                assert(self.entries@[k].triple@ == triple@);
            }
        }
        let ghost before = self@;
        self.entries.push(RegistryEntry { triple: String::from_str(triple), release });
        assert(self@ =~= before.push((triple@, release@)));
        Ok(())
    }

    /// The release registered for `triple`, if any.
    pub fn lookup(&self, triple: &str) -> (r: Option<&TripleRelease>)
        requires
            self.wf(),
        ensures
            r is Some <==> table_triples(self@).contains(triple@),
            r is Some ==> release_in(self@, triple@) == Some(r->Some_0@),
            r is None ==> release_in(self@, triple@) is None,
    {
        let mut i: usize = self.entries.len();
        assert(self@.subrange(0, i as int) =~= self@);
        while i > 0
            invariant
                i <= self.entries@.len(),
                forall|j: int| i <= j < self.entries@.len() ==> #[trigger] self.entries@[j].triple@ != triple@,
                release_in(self@, triple@) == release_in(self@.subrange(0, i as int), triple@),
            decreases i,
        {
            assert(self@.subrange(0, i as int).drop_last() =~= self@.subrange(0, i - 1));
            if same_text(self.entries[i - 1].triple.as_str(), triple) {
                assert(table_triples(self@)[i - 1] == triple@);
                return Some(&self.entries[i - 1].release);
            }
            i = i - 1;
        }
        assert(!table_triples(self@).contains(triple@)) by {
            if table_triples(self@).contains(triple@) {
                let k = choose|k: int| 0 <= k < table_triples(self@).len() && table_triples(self@)[k] == triple@;
                assert(self.entries@[k].triple@ == triple@);
            }
        }
        None
    }
}


/// The suffixes built where profile-guided optimisation is available.
pub open spec fn pgo_suffixes() -> Seq<Seq<char>> {
    seq!["debug"@, "lto"@, "pgo"@, "pgo+lto"@]
}

/// The suffixes built where it is not.
pub open spec fn no_pgo_suffixes() -> Seq<Seq<char>> {
    seq!["debug"@, "lto"@, "noopt"@]
}

/// The suffix sets of the table: with and without profile-guided
/// optimisation, and the single Windows builds.
pub open spec fn suffix_set(kind: u8) -> Seq<Seq<char>> {
    if kind == 0 {
        pgo_suffixes()
    } else if kind == 1 {
        no_pgo_suffixes()
    } else if kind == 2 {
        seq!["pgo"@]
    } else {
        seq!["noopt"@]
    }
}

/// A release of `suffixes` whose install-only archive comes from `install`,
/// with or without a version requirement.
pub open spec fn release_view(suffixes: Seq<Seq<char>>, install: Seq<char>, versioned: bool) -> ReleaseView {
    ReleaseView { suffixes, install_only_suffix: install, has_version_requirement: versioned }
}

/// Every supported triple with its release, in registration order; the
/// versioned ones require Python 3.9 or later.
pub open spec fn release_table() -> Seq<(Seq<char>, ReleaseView)> {
    seq![
        ("aarch64-apple-darwin"@, release_view(pgo_suffixes(), "pgo+lto"@, false)),
        ("x86_64-apple-darwin"@, release_view(pgo_suffixes(), "pgo+lto"@, false)),
        ("i686-pc-windows-msvc-shared"@, release_view(seq!["pgo"@], "pgo"@, false)),
        ("i686-pc-windows-msvc-static"@, release_view(seq!["noopt"@], "noopt"@, false)),
        ("x86_64-pc-windows-msvc-shared"@, release_view(seq!["pgo"@], "pgo"@, false)),
        ("x86_64-pc-windows-msvc-static"@, release_view(seq!["noopt"@], "noopt"@, false)),
        ("aarch64-unknown-linux-gnu"@, release_view(no_pgo_suffixes(), "lto"@, true)),
        ("i686-unknown-linux-gnu"@, release_view(pgo_suffixes(), "pgo+lto"@, false)),
        ("x86_64-unknown-linux-gnu"@, release_view(pgo_suffixes(), "pgo+lto"@, false)),
        ("x86_64_v2-unknown-linux-gnu"@, release_view(pgo_suffixes(), "pgo+lto"@, true)),
        ("x86_64_v3-unknown-linux-gnu"@, release_view(pgo_suffixes(), "pgo+lto"@, true)),
        ("x86_64_v4-unknown-linux-gnu"@, release_view(no_pgo_suffixes(), "lto"@, true)),
        ("x86_64-unknown-linux-musl"@, release_view(no_pgo_suffixes(), "lto"@, false)),
        ("x86_64_v2-unknown-linux-musl"@, release_view(no_pgo_suffixes(), "lto"@, true)),
        ("x86_64_v3-unknown-linux-musl"@, release_view(no_pgo_suffixes(), "lto"@, true)),
        ("x86_64_v4-unknown-linux-musl"@, release_view(no_pgo_suffixes(), "lto"@, true)),
    ]
}

/// A release of `suffixes` whose install-only archive comes from
/// `install_only_suffix`, requiring `min_python` when one is given.
fn release(suffixes: &[&str], install_only_suffix: &str, min_python: Option<&str>) -> (r: Result<
    TripleRelease,
    RegistryError,
>)
    ensures
        r is Ok ==> r->Ok_0@ == release_view(
            suffixes@.map_values(|s: &str| s@),
            install_only_suffix@,
            min_python is Some,
        ),
        r is Err <==> min_python is Some && !version_req_parses(min_python->Some_0@),
        r is Err ==> r->Err_0 == RegistryError::VersionRequirement,
{
    let mut list: Vec<String> = Vec::new();
    let mut i: usize = 0;
    while i < suffixes.len()
        invariant
            0 <= i <= suffixes@.len(),
            texts(list@) =~= suffixes@.subrange(0, i as int).map_values(|s: &str| s@),
        decreases suffixes@.len() - i,
    {
        let ghost before = list@;
        let item = String::from_str(suffixes[i]);
        list.push(item);
        assert(list@ == before.push(item));
        assert(texts(list@) =~= texts(before).push(suffixes@[i as int]@));
        assert(suffixes@.subrange(0, i + 1).map_values(|s: &str| s@) =~= suffixes@.subrange(
            0,
            i as int,
        ).map_values(|s: &str| s@).push(suffixes@[i as int]@));
        i = i + 1;
    }
    assert(suffixes@.subrange(0, suffixes@.len() as int) =~= suffixes@);
    let python_version_requirement = match min_python {
        Some(text) => match parse_version_req(text) {
            Some(req) => Some(req),
            None => {
                return Err(RegistryError::VersionRequirement);
            },
        },
        None => None,
    };
    Ok(
        TripleRelease {
            suffixes: list,
            install_only_suffix: String::from_str(install_only_suffix),
            python_version_requirement,
        },
    )
}

/// Registers the release of `suffixes` for `triple`.
fn register(
    h: &mut Registry,
    triple: &str,
    suffixes: &[&str],
    install_only_suffix: &str,
    min_python: Option<&str>,
) -> (r: Result<(), RegistryError>)
    requires
        old(h).wf(),
    ensures
        final(h).wf(),
        r is Ok ==> final(h)@ == old(h)@.push(
            (
                triple@,
                release_view(suffixes@.map_values(|s: &str| s@), install_only_suffix@, min_python is Some),
            ),
        ),
        r is Err ==> final(h)@ == old(h)@,
        r is Ok && min_python is Some ==> version_req_parses(min_python->Some_0@),
        r is Err && r->Err_0 == RegistryError::VersionRequirement ==> min_python is Some
            && !version_req_parses(min_python->Some_0@),
        r is Err ==> (r->Err_0 == RegistryError::DuplicateTriple && table_triples(old(h)@).contains(triple@))
            || r->Err_0 == RegistryError::VersionRequirement,
{
    let release = match release(suffixes, install_only_suffix, min_python) {
        Ok(rel) => rel,
        Err(e) => {
            return Err(e);
        },
    };
    h.insert(triple, release)
}

/// No triple appears twice in the table.
pub open spec fn triples_distinct(t: Seq<(Seq<char>, ReleaseView)>) -> bool {
    forall|i: int, j: int| 0 <= i < j < t.len() ==> #[trigger] t[i].0 != #[trigger] t[j].0
}

/// Its length, its ninth character and its last character: enough to tell
/// the table's triples apart.
pub open spec fn triple_key(s: Seq<char>) -> (int, char, char) {
    (s.len() as int, s[8], s[s.len() - 1])
}

/// The table names each triple once.
pub proof fn lemma_table_triples_distinct()
    ensures
        triples_distinct(release_table()),
{
    reveal_strlit("aarch64-apple-darwin");
    reveal_strlit("x86_64-apple-darwin");
    reveal_strlit("i686-pc-windows-msvc-shared");
    reveal_strlit("i686-pc-windows-msvc-static");
    reveal_strlit("x86_64-pc-windows-msvc-shared");
    reveal_strlit("x86_64-pc-windows-msvc-static");
    reveal_strlit("aarch64-unknown-linux-gnu");
    reveal_strlit("i686-unknown-linux-gnu");
    reveal_strlit("x86_64-unknown-linux-gnu");
    reveal_strlit("x86_64_v2-unknown-linux-gnu");
    reveal_strlit("x86_64_v3-unknown-linux-gnu");
    reveal_strlit("x86_64_v4-unknown-linux-gnu");
    reveal_strlit("x86_64-unknown-linux-musl");
    reveal_strlit("x86_64_v2-unknown-linux-musl");
    reveal_strlit("x86_64_v3-unknown-linux-musl");
    reveal_strlit("x86_64_v4-unknown-linux-musl");
    let t = release_table();
    let keys: Seq<(int, char, char)> = seq![(20, 'a', 'n'), (19, 'p', 'n'), (27, 'w', 'd'), (27, 'w', 'c'), (29, 'c', 'd'), (29, 'c', 'c'), (25, 'u', 'u'), (22, 'n', 'u'), (24, 'n', 'u'), (27, '2', 'u'), (27, '3', 'u'), (27, '4', 'u'), (25, 'n', 'l'), (28, '2', 'l'), (28, '3', 'l'), (28, '4', 'l')];
    assert forall|n: int| 0 <= n < t.len() implies #[trigger] triple_key(t[n].0) == keys[n] by {}
    assert forall|i: int, j: int| 0 <= i < j < t.len() implies #[trigger] t[i].0 != #[trigger] t[j].0 by {
        assert(triple_key(t[i].0) == keys[i]);
        assert(triple_key(t[j].0) == keys[j]);
        assert(keys[i] != keys[j]);
    }
}

/// In every release of the table, the install-only suffix is one of the
/// released suffixes.
pub proof fn lemma_install_only_suffix_released()
    ensures
        forall|i: int|
            0 <= i < release_table().len() ==> (#[trigger] release_table()[i]).1.suffixes.contains(
                release_table()[i].1.install_only_suffix,
            ),
{
    let t = release_table();
    let at: Seq<int> = seq![3, 3, 0, 0, 0, 0, 1, 3, 3, 3, 3, 1, 1, 1, 1, 1];
    assert forall|i: int| 0 <= i < t.len() implies (#[trigger] t[i]).1.suffixes.contains(
        t[i].1.install_only_suffix,
    ) by {
        assert(t[i].1.suffixes[at[i]] == t[i].1.install_only_suffix);
    }
}

proof fn lemma_repeated_triple(prefix: Seq<(Seq<char>, ReleaseView)>, n: int)
    requires
        0 <= n < release_table().len(),
        prefix == release_table().subrange(0, n),
        table_triples(prefix).contains(release_table()[n].0),
    ensures
        !triples_distinct(release_table()),
{
    let k = choose|k: int| 0 <= k < table_triples(prefix).len() && table_triples(prefix)[k] == release_table()[n].0;
    assert(release_table()[k].0 == release_table()[n].0);
}

/// The registry of every supported triple. Succeeds exactly when semver
/// accepts the requirement `>=3.9`.
pub fn release_triples() -> (r: Result<Registry, RegistryError>)
    ensures
        r is Ok ==> r->Ok_0.wf() && r->Ok_0@ == release_table(),
        r is Ok <==> version_req_parses(">=3.9"@),
        r is Err ==> r->Err_0 == RegistryError::VersionRequirement,
{
    let pgo: [&str; 4] = ["debug", "lto", "pgo", "pgo+lto"];
    let no_pgo: [&str; 3] = ["debug", "lto", "noopt"];
    let win_pgo: [&str; 1] = ["pgo"];
    let win_noopt: [&str; 1] = ["noopt"];
    assert(pgo@.map_values(|s: &str| s@) =~= suffix_set(0));
    assert(no_pgo@.map_values(|s: &str| s@) =~= suffix_set(1));
    assert(win_pgo@.map_values(|s: &str| s@) =~= suffix_set(2));
    assert(win_noopt@.map_values(|s: &str| s@) =~= suffix_set(3));
    let triples: [&str; 16] = [
        "aarch64-apple-darwin",
        "x86_64-apple-darwin",
        "i686-pc-windows-msvc-shared",
        "i686-pc-windows-msvc-static",
        "x86_64-pc-windows-msvc-shared",
        "x86_64-pc-windows-msvc-static",
        "aarch64-unknown-linux-gnu",
        "i686-unknown-linux-gnu",
        "x86_64-unknown-linux-gnu",
        "x86_64_v2-unknown-linux-gnu",
        "x86_64_v3-unknown-linux-gnu",
        "x86_64_v4-unknown-linux-gnu",
        "x86_64-unknown-linux-musl",
        "x86_64_v2-unknown-linux-musl",
        "x86_64_v3-unknown-linux-musl",
        "x86_64_v4-unknown-linux-musl",
    ];
    let kinds: [u8; 16] = [
        0,
        0,
        2,
        3,
        2,
        3,
        1,
        0,
        0,
        0,
        0,
        1,
        1,
        1,
        1,
        1,
    ];
    let installs: [&str; 16] = [
        "pgo+lto",
        "pgo+lto",
        "pgo",
        "noopt",
        "pgo",
        "noopt",
        "lto",
        "pgo+lto",
        "pgo+lto",
        "pgo+lto",
        "pgo+lto",
        "lto",
        "lto",
        "lto",
        "lto",
        "lto",
    ];
    let versioned: [bool; 16] = [
        false,
        false,
        false,
        false,
        false,
        false,
        true,
        false,
        false,
        true,
        true,
        true,
        false,
        true,
        true,
        true,
    ];
    assert forall|n: int| 0 <= n < 16 implies #[trigger] release_table()[n] == (
        triples@[n]@,
        release_view(suffix_set(kinds@[n]), installs@[n]@, versioned@[n]),
    ) by {}
    let mut h = Registry::new();
    assert(h@ =~= release_table().subrange(0, 0));
    let mut n: usize = 0;
    while n < 16
        invariant
            0 <= n <= 16,
            h.wf(),
            h@ == release_table().subrange(0, n as int),
            pgo@.map_values(|s: &str| s@) == suffix_set(0),
            no_pgo@.map_values(|s: &str| s@) == suffix_set(1),
            win_pgo@.map_values(|s: &str| s@) == suffix_set(2),
            win_noopt@.map_values(|s: &str| s@) == suffix_set(3),
            forall|m: int| 0 <= m < 16 ==> kinds@[m] < 4,
            versioned@[6],
            forall|m: int|
                0 <= m < 16 ==> #[trigger] release_table()[m] == (
                    triples@[m]@,
                    release_view(suffix_set(kinds@[m]), installs@[m]@, versioned@[m]),
                ),
            n > 6 ==> version_req_parses(">=3.9"@),
        decreases 16 - n,
    {
        let kind = kinds[n];
        let suffixes: &[&str] = if kind == 0 {
            &pgo
        } else if kind == 1 {
            &no_pgo
        } else if kind == 2 {
            &win_pgo
        } else {
            &win_noopt
        };
        let min_python = if versioned[n] {
            Some(">=3.9")
        } else {
            None
        };
        if let Err(e) = register(&mut h, triples[n], suffixes, installs[n], min_python) {
            proof {
                if e == RegistryError::DuplicateTriple {
                    lemma_repeated_triple(h@, n as int);
                    lemma_table_triples_distinct();
                }
            }
            return Err(e);
        }
        assert(h@ =~= release_table().subrange(0, n + 1));
        n = n + 1;
    }
    assert(release_table().subrange(0, 16) =~= release_table());
    Ok(h)
}

} // verus!
