//! Selection of the two files of a test pair out of a file set, by the
//! substring tokens in their names.

use vstd::prelude::*;

verus! {

/// A file handed in by the unverified caller: its name and its contents,
/// both as plain bytes.
#[derive(Debug)]
pub struct NamedFile {
    pub name: Vec<u8>,
    pub data: Vec<u8>,
}

/// Whether `tok` occurs as a contiguous substring of `hay`.
pub open spec fn contains_tok(hay: Seq<u8>, tok: Seq<u8>) -> bool {
    exists|s: int| 0 <= s <= hay.len() - tok.len() && #[trigger] hay.subrange(s, s + tok.len()) == tok
}

/// Substring search by direct comparison at every offset.
pub fn contains_bytes(hay: &Vec<u8>, tok: &Vec<u8>) -> (r: bool)
    ensures
        r == contains_tok(hay@, tok@),
{
    let m = tok.len();
    let n = hay.len();
    if m > n {
        proof {
            assert(!contains_tok(hay@, tok@));
        }
        return false;
    }
    if m == 0 {
        proof {
            assert(hay@.subrange(0, 0 + tok@.len() as int) =~= tok@);
        }
        return true;
    }
    let mut s: usize = 0;
    while s <= n - m
        invariant
            m == tok@.len(),
            n == hay@.len(),
            1 <= m <= n,
            s <= n - m + 1,
            forall|t: int|
                0 <= t < s ==> #[trigger] hay@.subrange(t, t + m) != tok@,
        decreases n - s,
    {
        let mut k: usize = 0;
        let mut mismatch = false;
        while k < m
            invariant
                k <= m,
                m == tok@.len(),
                n == hay@.len(),
                s <= n - m,
                !mismatch ==> forall|j: int| 0 <= j < k ==> hay@[s + j] == tok@[j],
                mismatch ==> hay@.subrange(s as int, s + m) != tok@,
            decreases m - k,
        {
            if hay[s + k] != tok[k] {
                proof {
                    assert(hay@.subrange(s as int, s + m)[k as int] != tok@[k as int]);
                }
                mismatch = true;
                k = m;
            } else {
                k = k + 1;
            }
        }
        if !mismatch {
            proof {
                assert(hay@.subrange(s as int, s + m) =~= tok@);
            }
            return true;
        }
        s = s + 1;
    }
    proof {
        assert forall|t: int| 0 <= t <= hay@.len() - tok@.len() implies #[trigger] hay@.subrange(
            t,
            t + tok@.len(),
        ) != tok@ by {}
    }
    false
}

/// Whether the name of `f` holds either of the two tokens.
pub open spec fn file_matches(f: NamedFile, a: Seq<u8>, b: Seq<u8>) -> bool {
    contains_tok(f.name@, a) || contains_tok(f.name@, b)
}

/// Number of matching files among the first `k`.
pub open spec fn cnt_matches(files: Seq<NamedFile>, a: Seq<u8>, b: Seq<u8>, k: int) -> int
    decreases k,
{
    if k <= 0 {
        0
    } else {
        cnt_matches(files, a, b, k - 1) + if file_matches(files[k - 1], a, b) {
            1int
        } else {
            0int
        }
    }
}

/// Whether `i` and `j` are the first two indices of matching files.
pub open spec fn is_first_two(
    files: Seq<NamedFile>,
    a: Seq<u8>,
    b: Seq<u8>,
    i: int,
    j: int,
) -> bool {
    &&& 0 <= i < j < files.len()
    &&& file_matches(files[i], a, b)
    &&& file_matches(files[j], a, b)
    &&& forall|t: int| 0 <= t < i ==> !file_matches(files[t], a, b)
    &&& forall|t: int| i < t < j ==> !file_matches(files[t], a, b)
}

/// Picks the first two files whose name holds either token, in file-set
/// order; `None` when fewer than two match.
pub fn select_pair(files: &Vec<NamedFile>, tok_a: &Vec<u8>, tok_b: &Vec<u8>) -> (r: Option<
    (usize, usize),
>)
    ensures
        r is Some <==> cnt_matches(files@, tok_a@, tok_b@, files@.len() as int) >= 2,
        r matches Some(p) ==> is_first_two(files@, tok_a@, tok_b@, p.0 as int, p.1 as int),
{
    let n = files.len();
    let mut first: Option<usize> = None;
    let mut second: Option<usize> = None;
    let mut k: usize = 0;
    while k < n
        invariant
            k <= n,
            n == files@.len(),
            cnt_matches(files@, tok_a@, tok_b@, k as int) >= 0,
            first is None <==> cnt_matches(files@, tok_a@, tok_b@, k as int) == 0,
            second is Some <==> cnt_matches(files@, tok_a@, tok_b@, k as int) >= 2,
            first is None ==> second is None,
            first is None ==> forall|t: int| 0 <= t < k ==> !file_matches(files@[t], tok_a@, tok_b@),
            second is None ==> (first matches Some(i) ==> forall|t: int|
                i < t < k ==> !file_matches(files@[t], tok_a@, tok_b@)),
            first matches Some(i) ==> {
                &&& (i as int) < k
                &&& file_matches(files@[i as int], tok_a@, tok_b@)
                &&& forall|t: int| 0 <= t < i ==> !file_matches(files@[t], tok_a@, tok_b@)
            },
            cnt_matches(files@, tok_a@, tok_b@, k as int) == 1 ==> (first matches Some(i)
                ==> forall|t: int| i < t < k ==> !file_matches(files@[t], tok_a@, tok_b@)),
            second matches Some(j) ==> (first matches Some(i) ==> {
                &&& (i as int) < (j as int) < k
                &&& file_matches(files@[j as int], tok_a@, tok_b@)
                &&& forall|t: int| i < t < j ==> !file_matches(files@[t], tok_a@, tok_b@)
            }),
        decreases n - k,
    {
        let f = &files[k];
        let m = contains_bytes(&f.name, tok_a) || contains_bytes(&f.name, tok_b);
        if m {
            if first.is_none() {
                first = Some(k);
            } else if second.is_none() {
                second = Some(k);
            }
        }
        k = k + 1;
    }
    match (first, second) {
        (Some(i), Some(j)) => Some((i, j)),
        _ => None,
    }
}


/// The first two matching indices are unique.
pub proof fn lemma_first_two_unique(
    files: Seq<NamedFile>,
    a: Seq<u8>,
    b: Seq<u8>,
    i1: int,
    j1: int,
    i2: int,
    j2: int,
)
    requires
        is_first_two(files, a, b, i1, j1),
        is_first_two(files, a, b, i2, j2),
    ensures
        i1 == i2,
        j1 == j2,
{
    assert(!(i1 < i2) && !(i2 < i1));
    assert(!(j1 < j2) && !(j2 < j1));
}

/// The pair of indices that `select_pair` picks, as a spec-level value:
/// the unique first two matching indices, when at least two files match.
pub open spec fn first_two_of(files: Seq<NamedFile>, a: Seq<u8>, b: Seq<u8>) -> (int, int) {
    choose|p: (int, int)| is_first_two(files, a, b, p.0, p.1)
}

} // verus!
