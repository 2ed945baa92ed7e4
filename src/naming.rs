//! The name of the install-only archive derived from the full archive's name.
use vstd::prelude::*;

verus! {

/// Why no install-only name could be derived.
#[derive(Debug, Clone, Copy, PartialEq, Eq, Structural)]
pub enum FileNameError {
    /// The name has fewer than two `-`-separated fields.
    Malformed,
}

/// The position of the last `c` in `s[0..end]`, or -1 if there is none.
pub open spec fn last_index_before(s: Seq<char>, c: char, end: int) -> int
    decreases end,
{
    if end <= 0 {
        -1
    } else if s[end - 1] == c {
        end - 1
    } else {
        last_index_before(s, c, end - 1)
    }
}

/// `s` with its second-to-last `-`-separated field replaced by `install_only`.
pub open spec fn with_install_only_field(s: Seq<char>) -> Seq<char> {
    let last = last_index_before(s, '-', s.len() as int);
    let prev = last_index_before(s, '-', last);
    s.subrange(0, prev + 1) + "install_only"@ + s.subrange(last, s.len() as int)
}

/// `s` with a trailing `.tar.zst` replaced by `.tar.gz`; other names are kept.
pub open spec fn with_gz_extension(s: Seq<char>) -> Seq<char> {
    let n = ".tar.zst"@.len();
    if s.len() >= n && s.subrange(s.len() - n, s.len() as int) == ".tar.zst"@ {
        s.subrange(0, s.len() - n) + ".tar.gz"@
    } else {
        s
    }
}

/// The install-only name for a full archive named `s`, which must hold a `-`.
pub open spec fn install_only_name(s: Seq<char>) -> Seq<char> {
    with_gz_extension(with_install_only_field(s))
}

proof fn lemma_last_index_bounds(s: Seq<char>, c: char, end: int)
    requires
        0 <= end <= s.len(),
    ensures
        -1 <= last_index_before(s, c, end) < end,
        last_index_before(s, c, end) >= 0 ==> s[last_index_before(s, c, end)] == c,
    decreases end,
{
    if end > 0 && s[end - 1] != c {
        lemma_last_index_bounds(s, c, end - 1);
    }
}

proof fn lemma_last_index_is(s: Seq<char>, c: char, end: int, k: int)
    requires
        0 <= k < end <= s.len(),
        s[k] == c,
        forall|j: int| k < j < end ==> s[j] != c,
    ensures
        last_index_before(s, c, end) == k,
    decreases end,
{
    if end - 1 != k {
        lemma_last_index_is(s, c, end - 1, k);
    }
}

/// The second-to-last field is replaced and the fields around it are kept:
/// `<a>-<f>-<b>` becomes `<a>-install_only-<b>` when neither `f` nor `b`
/// holds a `-`.
pub proof fn lemma_second_to_last_field_replaced(a: Seq<char>, f: Seq<char>, b: Seq<char>)
    requires
        !f.contains('-'),
        !b.contains('-'),
    ensures
        with_install_only_field(a + seq!['-'] + f + seq!['-'] + b) == a + seq!['-'] + "install_only"@
            + seq!['-'] + b,
{
    let s = a + seq!['-'] + f + seq!['-'] + b;
    let last = (a.len() + 1 + f.len()) as int;
    let prev = a.len() as int;
    assert forall|j: int| last < j < s.len() implies s[j] != '-' by {
        assert(s[j] == b[j - last - 1]);
    }
    lemma_last_index_is(s, '-', s.len() as int, last);
    assert forall|j: int| prev < j < last implies s[j] != '-' by {
        assert(s[j] == f[j - prev - 1]);
    }
    lemma_last_index_is(s, '-', last, prev);
    assert(s.subrange(0, prev + 1) =~= a + seq!['-']);
    assert(s.subrange(last, s.len() as int) =~= seq!['-'] + b);
    assert(with_install_only_field(s) =~= a + seq!['-'] + "install_only"@ + seq!['-'] + b);
}

/// A trailing `.tar.zst` is swapped for `.tar.gz`, and nothing else changes.
pub proof fn lemma_extension_swapped(s: Seq<char>)
    ensures
        with_gz_extension(s + ".tar.zst"@) == s + ".tar.gz"@,
{
    let t = s + ".tar.zst"@;
    let n = ".tar.zst"@.len();
    assert(t.subrange(t.len() - n, t.len() as int) =~= ".tar.zst"@);
    assert(t.subrange(0, t.len() - n) =~= s);
}

/// The position of the last `c` in `s[0..end]`, if any.
fn find_last(s: &str, len: usize, c: char, end: usize) -> (r: Option<usize>)
    requires
        len == s@.len(),
        end <= len,
    ensures
        r is None ==> last_index_before(s@, c, end as int) == -1,
        r is Some ==> r->Some_0 as int == last_index_before(s@, c, end as int),
        r is Some ==> r->Some_0 < end,
{
    let mut k: usize = end;
    while k > 0
        invariant
            len == s@.len(),
            k <= end <= len,
            last_index_before(s@, c, end as int) == last_index_before(s@, c, k as int),
        decreases k,
    {
        if s.get_char(k - 1) == c {
            return Some(k - 1);
        }
        k = k - 1;
    }
    None
}

/// Derives the install-only archive name from a full archive name: the
/// second-to-last `-`-separated field becomes `install_only` and a trailing
/// `.tar.zst` becomes `.tar.gz`.
pub fn install_only_file_name(name: &str) -> (r: Result<String, FileNameError>)
    ensures
        r is Err <==> last_index_before(name@, '-', name@.len() as int) == -1,
        r is Ok ==> r->Ok_0@ == install_only_name(name@),
{
    let len = name.unicode_len();
    let last = match find_last(name, len, '-', len) {
        Some(k) => k,
        None => {
            return Err(FileNameError::Malformed);
        },
    };
    proof {
        lemma_last_index_bounds(name@, '-', len as int);
    }
    let start: usize = match find_last(name, len, '-', last) {
        Some(k) => k + 1,
        None => 0,
    };
    proof {
        lemma_last_index_bounds(name@, '-', last as int);
    }
    let head = String::from_str(name.substring_char(0, start));
    let replaced = head.concat("install_only").concat(name.substring_char(last, len));
    assert(replaced@ =~= with_install_only_field(name@));
    let suffix = ".tar.zst";
    proof {
        reveal_strlit(".tar.zst");
    }
    let rlen = replaced.as_str().unicode_len();
    if rlen < 8 {
        assert(with_gz_extension(replaced@) == replaced@);
        return Ok(replaced);
    }
    let mut i: usize = 0;
    while i < 8
        invariant
            rlen == replaced@.len(),
            rlen >= 8,
            replaced@ == with_install_only_field(name@),
            last_index_before(name@, '-', name@.len() as int) != -1,
            suffix@ == ".tar.zst"@,
            suffix@.len() == 8,
            0 <= i <= 8,
            forall|j: int| 0 <= j < i ==> replaced@[rlen - 8 + j] == suffix@[j],
        decreases 8 - i,
    {
        if replaced.as_str().get_char(rlen - 8 + i) != suffix.get_char(i) {
            assert(replaced@.subrange(rlen - 8, rlen as int)[i as int] != ".tar.zst"@[i as int]);
            return Ok(replaced);
        }
        i = i + 1;
    }
    assert(replaced@.subrange(rlen - 8, rlen as int) =~= ".tar.zst"@);
    let stem = String::from_str(replaced.as_str().substring_char(0, rlen - 8));
    Ok(stem.concat(".tar.gz"))
}

} // verus!
