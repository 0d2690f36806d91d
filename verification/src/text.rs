use vstd::prelude::*;

verus! {

/// ASCII case folding of a single character: the letters `A`..`Z` (code
/// points 65..90) fold to `a`..`z`; every other character is unchanged.
pub open spec fn lower_char(c: char) -> char {
    if 65 <= c as u32 && c as u32 <= 90 {
        (((c as u32) + 32) as u8) as char
    } else {
        c
    }
}

/// ASCII case folding of a whole character sequence.
pub open spec fn lower(s: Seq<char>) -> Seq<char> {
    s.map_values(|c: char| lower_char(c))
}

/// `needle` occurs contiguously somewhere inside `hay`.
pub open spec fn is_substring_of(needle: Seq<char>, hay: Seq<char>) -> bool {
    exists|i: int|
        0 <= i && i + needle.len() <= hay.len() && #[trigger] hay.subrange(i, i + needle.len())
            == needle
}

/// Index of the last `/` in `s`, or `-1` if `s` holds none.
pub open spec fn last_slash(s: Seq<char>) -> int
    decreases s.len(),
{
    if s.len() == 0 {
        -1
    } else if s.last() == '/' {
        s.len() - 1
    } else {
        last_slash(s.drop_last())
    }
}

/// The final path segment of `s`: everything after the last `/`, or all of
/// `s` when it holds no `/`. A trailing `/` leaves an empty segment.
pub open spec fn base_name(s: Seq<char>) -> Seq<char> {
    s.subrange(last_slash(s) + 1, s.len() as int)
}

pub proof fn lemma_last_slash_bounds(s: Seq<char>)
    ensures
        -1 <= last_slash(s) < s.len() || (s.len() == 0 && last_slash(s) == -1),
    decreases s.len(),
{
    if s.len() > 0 && s.last() != '/' {
        lemma_last_slash_bounds(s.drop_last());
    }
}

fn lower_char_exec(c: char) -> (r: char)
    ensures
        r == lower_char(c),
{
    let u: u32 = c as u32;
    if 65 <= u && u <= 90 {
        ((u + 32) as u8) as char
    } else {
        c
    }
}

/// Folds `s` to lower case, character by character, into a vector.
pub fn to_lower_chars(s: &str) -> (r: Vec<char>)
    ensures
        r@ == lower(s@),
{
    let n: usize = s.unicode_len();
    let mut r: Vec<char> = Vec::new();
    let mut i: usize = 0;
    while i < n
        invariant
            i <= n,
            n == s@.len(),
            r@ =~= lower(s@).take(i as int),
        decreases n - i,
    {
        let c = s.get_char(i);
        r.push(lower_char_exec(c));
        i = i + 1;
    }
    proof {
        assert(r@ =~= lower(s@));
    }
    r
}

/// Does `needle` stand at position `at` of `hay`?
fn match_at(hay: &Vec<char>, needle: &str, at: usize) -> (b: bool)
    requires
        at + needle@.len() <= hay@.len(),
    ensures
        b == (hay@.subrange(at as int, at + needle@.len()) == needle@),
{
    let m: usize = needle.unicode_len();
    let hlen: usize = hay.len();
    let mut j: usize = 0;
    while j < m
        invariant
            j <= m,
            m == needle@.len(),
            hlen == hay@.len(),
            at + m <= hlen,
            forall|k: int| 0 <= k < j ==> hay@[at + k] == needle@[k],
        decreases m - j,
    {
        let hc = hay[at + j];
        let nc = needle.get_char(j);
        if hc != nc {
            proof {
                assert(hay@.subrange(at as int, at + m as int)[j as int] != needle@[j as int]);
            }
            return false;
        }
        j = j + 1;
    }
    proof {
        assert(hay@.subrange(at as int, at + m as int) =~= needle@);
    }
    true
}

/// Substring search: does `needle` occur anywhere inside `hay`?
pub fn contains_chars(hay: &Vec<char>, needle: &str) -> (b: bool)
    ensures
        b == is_substring_of(needle@, hay@),
{
    let n: usize = hay.len();
    let m: usize = needle.unicode_len();
    if m == 0 {
        proof {
            assert(0 <= 0int && 0 + needle@.len() <= hay@.len() && hay@.subrange(
                0,
                0 + needle@.len() as int,
            ) =~= needle@);
        }
        return true;
    }
    if m > n {
        return false;
    }
    let mut i: usize = 0;
    while i <= n - m
        invariant
            1 <= m <= n,
            n == hay@.len(),
            m == needle@.len(),
            i <= n - m + 1,
            forall|k: int| 0 <= k < i ==> #[trigger] hay@.subrange(k, k + m as int) != needle@,
        decreases n - i,
    {
        if match_at(hay, needle, i) {
            proof {
                assert(0 <= i as int && i as int + needle@.len() <= hay@.len()
                    && hay@.subrange(i as int, i as int + needle@.len()) == needle@);
            }
            return true;
        }
        i = i + 1;
    }
    false
}

/// Are the characters of `v` exactly those of `s`?
pub fn chars_eq_str(v: &Vec<char>, s: &str) -> (b: bool)
    ensures
        b == (v@ == s@),
{
    let n: usize = v.len();
    if n != s.unicode_len() {
        return false;
    }
    let mut j: usize = 0;
    while j < n
        invariant
            j <= n,
            n == v@.len(),
            n == s@.len(),
            forall|k: int| 0 <= k < j ==> v@[k] == s@[k],
        decreases n - j,
    {
        let vc = v[j];
        let sc = s.get_char(j);
        if vc != sc {
            return false;
        }
        j = j + 1;
    }
    proof {
        assert(v@ =~= s@);
    }
    true
}

/// Are two string slices equal, character for character?
pub fn str_eq(a: &str, b: &str) -> (r: bool)
    ensures
        r == (a@ == b@),
{
    let n: usize = a.unicode_len();
    if n != b.unicode_len() {
        return false;
    }
    let mut j: usize = 0;
    while j < n
        invariant
            j <= n,
            n == a@.len(),
            n == b@.len(),
            forall|k: int| 0 <= k < j ==> a@[k] == b@[k],
        decreases n - j,
    {
        let ac = a.get_char(j);
        let bc = b.get_char(j);
        if ac != bc {
            return false;
        }
        j = j + 1;
    }
    proof {
        assert(a@ =~= b@);
    }
    true
}

/// Copies the characters of `s` into a vector, unchanged.
pub fn str_chars(s: &str) -> (r: Vec<char>)
    ensures
        r@ == s@,
{
    let n: usize = s.unicode_len();
    let mut r: Vec<char> = Vec::new();
    let mut i: usize = 0;
    while i < n
        invariant
            i <= n,
            n == s@.len(),
            r@ =~= s@.take(i as int),
        decreases n - i,
    {
        r.push(s.get_char(i));
        i = i + 1;
    }
    proof {
        assert(r@ =~= s@);
    }
    r
}

/// Index just past the last `/` of `v`; `0` when `v` holds no `/`.
pub fn base_start(v: &Vec<char>) -> (r: usize)
    ensures
        r == last_slash(v@) + 1,
        r <= v@.len(),
{
    proof {
        lemma_last_slash_bounds(v@);
        assert(v@.take(v@.len() as int) =~= v@);
    }
    let mut i: usize = v.len();
    while i > 0
        invariant
            i <= v@.len(),
            last_slash(v@) == last_slash(v@.take(i as int)),
        decreases i,
    {
        if v[i - 1] == '/' {
            proof {
                assert(v@.take(i as int).last() == '/');
                assert(last_slash(v@.take(i as int)) == i - 1);
            }
            return i;
        }
        proof {
            assert(v@.take(i as int).last() != '/');
            assert(v@.take(i as int).drop_last() =~= v@.take(i as int - 1));
            assert(last_slash(v@.take(i as int)) == last_slash(v@.take(i as int - 1)));
        }
        i = i - 1;
    }
    proof {
        assert(v@.take(0) =~= Seq::<char>::empty());
    }
    0
}

/// Copies the characters of `v` from `start` onward into a fresh vector.
pub fn tail_from(v: &Vec<char>, start: usize) -> (r: Vec<char>)
    requires
        start <= v@.len(),
    ensures
        r@ == v@.subrange(start as int, v@.len() as int),
{
    let n: usize = v.len();
    let mut r: Vec<char> = Vec::new();
    let mut i: usize = start;
    while i < n
        invariant
            start <= i <= n,
            n == v@.len(),
            r@ =~= v@.subrange(start as int, i as int),
        decreases n - i,
    {
        r.push(v[i]);
        i = i + 1;
    }
    proof {
        assert(r@ =~= v@.subrange(start as int, n as int));
    }
    r
}

} // verus!
