use vstd::prelude::*;
use vstd::string::StrSliceExecFns;

verus! {

// Character-level text utilities shared by the marker protocol and the hotkey
// parser: whitespace tests, ASCII case folding, substring search and trimming,
// each with a spec-level definition that the public contracts are stated over.

/// The Unicode white-space characters, the set `str::trim` strips.
pub open spec fn is_ws_char(c: char) -> bool {
    let n = c as u32;
    (9 <= n && n <= 13) || n == 32 || n == 0x85 || n == 0xA0 || n == 0x1680
        || (0x2000 <= n && n <= 0x200A) || n == 0x2028 || n == 0x2029
        || n == 0x202F || n == 0x205F || n == 0x3000
}

pub fn is_ws(c: char) -> (b: bool)
    ensures
        b == is_ws_char(c),
{
    let n = c as u32;
    (9 <= n && n <= 13) || n == 32 || n == 0x85 || n == 0xA0 || n == 0x1680
        || (0x2000 <= n && n <= 0x200A) || n == 0x2028 || n == 0x2029
        || n == 0x202F || n == 0x205F || n == 0x3000
}

/// ASCII lower-casing of one character; everything but `A`..`Z` is untouched.
pub open spec fn lower_char(c: char) -> char {
    if 65 <= c as u32 && c as u32 <= 90 {
        ((c as u32) + 32) as char
    } else {
        c
    }
}

/// ASCII lower-casing of a character sequence.
pub open spec fn spec_lower(s: Seq<char>) -> Seq<char> {
    s.map_values(|c: char| lower_char(c))
}

pub fn to_lower(c: char) -> (r: char)
    ensures
        r == lower_char(c),
{
    let n = c as u32;
    if 65 <= n && n <= 90 {
        ((n + 32) as u8) as char
    } else {
        c
    }
}

/// The sequences differ at most in ASCII letter case.
pub open spec fn case_eq(a: Seq<char>, b: Seq<char>) -> bool {
    a.len() == b.len() && forall|i: int| 0 <= i < a.len() ==> lower_char(a[i]) == lower_char(b[i])
}

/// Characters that fold to the same letter agree on everything the tokenizer
/// looks at: being a separator and being white space.
pub proof fn lemma_lower_char_classes(a: char, b: char)
    requires
        lower_char(a) == lower_char(b),
    ensures
        (a == '+') == (b == '+'),
        is_ws_char(a) == is_ws_char(b),
{
    if a as u32 == b as u32 {
        assert(a == b);
    }
}

proof fn lemma_trim_start_case(t1: Seq<char>, t2: Seq<char>)
    requires
        case_eq(t1, t2),
    ensures
        case_eq(spec_trim_start(t1), spec_trim_start(t2)),
    decreases t1.len(),
{
    if t1.len() == 0 {
    } else {
        lemma_lower_char_classes(t1[0], t2[0]);
        if is_ws_char(t1[0]) {
            let r1 = t1.subrange(1, t1.len() as int);
            let r2 = t2.subrange(1, t2.len() as int);
            assert forall|i: int| 0 <= i < r1.len() implies lower_char(r1[i]) == lower_char(
                r2[i],
            ) by {
                assert(r1[i] == t1[i + 1]);
                assert(r2[i] == t2[i + 1]);
            }
            lemma_trim_start_case(r1, r2);
        }
    }
}

proof fn lemma_trim_end_case(t1: Seq<char>, t2: Seq<char>)
    requires
        case_eq(t1, t2),
    ensures
        case_eq(spec_trim_end(t1), spec_trim_end(t2)),
    decreases t1.len(),
{
    if t1.len() == 0 {
    } else {
        lemma_lower_char_classes(t1[t1.len() - 1], t2[t2.len() - 1]);
        if is_ws_char(t1[t1.len() - 1]) {
            let r1 = t1.subrange(0, t1.len() - 1);
            let r2 = t2.subrange(0, t2.len() - 1);
            assert forall|i: int| 0 <= i < r1.len() implies lower_char(r1[i]) == lower_char(
                r2[i],
            ) by {
                assert(r1[i] == t1[i]);
                assert(r2[i] == t2[i]);
            }
            lemma_trim_end_case(r1, r2);
        }
    }
}

/// Trimming respects case equivalence.
pub proof fn lemma_trim_case(t1: Seq<char>, t2: Seq<char>)
    requires
        case_eq(t1, t2),
    ensures
        case_eq(spec_trim(t1), spec_trim(t2)),
{
    lemma_trim_start_case(t1, t2);
    lemma_trim_end_case(spec_trim_start(t1), spec_trim_start(t2));
}

/// Case-equivalent sequences fold to the same lower-case sequence.
pub proof fn lemma_lower_case_eq(t1: Seq<char>, t2: Seq<char>)
    requires
        case_eq(t1, t2),
    ensures
        spec_lower(t1) == spec_lower(t2),
{
    assert(spec_lower(t1) =~= spec_lower(t2));
}

/// `needle` occurs in `hay` starting at index `i`.
pub open spec fn occurs_at(hay: Seq<char>, needle: Seq<char>, i: int) -> bool {
    0 <= i && i + needle.len() <= hay.len() && hay.subrange(i, i + needle.len()) == needle
}

/// Index of the first occurrence of `needle` in `hay` at or after `from`.
pub open spec fn spec_find_from(hay: Seq<char>, needle: Seq<char>, from: nat) -> Option<nat>
    decreases hay.len() - from,
{
    if from + needle.len() > hay.len() {
        None
    } else if occurs_at(hay, needle, from as int) {
        Some(from)
    } else if from < hay.len() {
        spec_find_from(hay, needle, from + 1)
    } else {
        None
    }
}

pub open spec fn spec_find(hay: Seq<char>, needle: Seq<char>) -> Option<nat> {
    spec_find_from(hay, needle, 0)
}

/// `spec_find_from` returns exactly the first occurrence at or after `from`,
/// and `None` exactly when there is none.
pub proof fn lemma_find_from_spec(hay: Seq<char>, needle: Seq<char>, from: nat)
    requires
        from <= hay.len(),
    ensures
        match spec_find_from(hay, needle, from) {
            Some(i) => from <= i && occurs_at(hay, needle, i as int) && (forall|j: int|
                from <= j < i ==> !occurs_at(hay, needle, j)),
            None => forall|j: int| from <= j ==> !occurs_at(hay, needle, j),
        },
    decreases hay.len() - from,
{
    if from + needle.len() > hay.len() {
        assert forall|j: int| from <= j implies !occurs_at(hay, needle, j) by {}
    } else if occurs_at(hay, needle, from as int) {
    } else if from < hay.len() {
        lemma_find_from_spec(hay, needle, from + 1);
    } else {
        assert forall|j: int| from <= j implies !occurs_at(hay, needle, j) by {}
    }
}

/// Leading white space removed.
pub open spec fn spec_trim_start(s: Seq<char>) -> Seq<char>
    decreases s.len(),
{
    if s.len() > 0 && is_ws_char(s[0]) {
        spec_trim_start(s.subrange(1, s.len() as int))
    } else {
        s
    }
}

/// Trailing white space removed.
pub open spec fn spec_trim_end(s: Seq<char>) -> Seq<char>
    decreases s.len(),
{
    if s.len() > 0 && is_ws_char(s[s.len() - 1]) {
        spec_trim_end(s.subrange(0, s.len() - 1))
    } else {
        s
    }
}

/// Leading and trailing white space removed, as `str::trim` does.
pub open spec fn spec_trim(s: Seq<char>) -> Seq<char> {
    spec_trim_end(spec_trim_start(s))
}

proof fn lemma_trim_start_skip(s: Seq<char>, k: nat)
    requires
        k <= s.len(),
        forall|j: int| 0 <= j < k ==> is_ws_char(s[j]),
    ensures
        spec_trim_start(s) == spec_trim_start(s.subrange(k as int, s.len() as int)),
    decreases k,
{
    if k == 0 {
        assert(s.subrange(0, s.len() as int) =~= s);
    } else {
        let t = s.subrange(1, s.len() as int);
        lemma_trim_start_skip(t, (k - 1) as nat);
        assert(t.subrange(k - 1, t.len() as int) =~= s.subrange(k as int, s.len() as int));
    }
}

proof fn lemma_trim_end_skip(s: Seq<char>, k: nat)
    requires
        k <= s.len(),
        forall|j: int| s.len() - k <= j < s.len() ==> is_ws_char(s[j]),
    ensures
        spec_trim_end(s) == spec_trim_end(s.subrange(0, s.len() - k)),
    decreases k,
{
    if k == 0 {
        assert(s.subrange(0, s.len() as int) =~= s);
    } else {
        let t = s.subrange(0, s.len() - 1);
        lemma_trim_end_skip(t, (k - 1) as nat);
        assert(t.subrange(0, t.len() - (k - 1)) =~= s.subrange(0, s.len() - k));
    }
}

/// Collect the characters of a string into a vector.
pub fn str_chars(s: &str) -> (r: Vec<char>)
    ensures
        r@ == s@,
{
    let n = s.unicode_len();
    let mut r: Vec<char> = Vec::new();
    let mut i: usize = 0;
    while i < n
        invariant
            i <= n,
            n == s@.len(),
            r@ == s@.subrange(0, i as int),
        decreases n - i,
    {
        r.push(s.get_char(i));
        i = i + 1;
        assert(r@ =~= s@.subrange(0, i as int));
    }
    assert(s@.subrange(0, n as int) =~= s@);
    r
}

/// Is the string empty or all white space?
pub fn is_blank(s: &str) -> (b: bool)
    ensures
        b == (spec_trim(s@).len() == 0),
{
    let v = str_chars(s);
    let (a, b) = trim_range(&v, 0, v.len());
    proof {
        assert(v@.subrange(0, v@.len() as int) =~= v@);
    }
    a == b
}

/// Relies on std's `FromIterator` impl for `String`: collecting characters
/// yields the string of exactly those characters, in order.
#[verifier::external_body]
pub fn chars_to_string(v: &Vec<char>) -> (r: String)
    ensures
        r@ == v@,
{
    v.iter().collect()
}

/// First occurrence of `needle` in `hay` at or after `from`.
pub fn find_from(hay: &Vec<char>, needle: &Vec<char>, from: usize) -> (r: Option<usize>)
    requires
        from <= hay@.len(),
    ensures
        match r {
            Some(i) => spec_find_from(hay@, needle@, from as nat) == Some(i as nat),
            None => spec_find_from(hay@, needle@, from as nat) is None,
        },
{
    let nlen = needle.len();
    let hlen = hay.len();
    if nlen > hlen {
        proof {
            lemma_find_from_spec(hay@, needle@, from as nat);
        }
        return None;
    }
    if nlen == 0 {
        proof {
            assert(hay@.subrange(from as int, from as int) =~= needle@);
            assert(occurs_at(hay@, needle@, from as int));
        }
        return Some(from);
    }
    let mut i: usize = from;
    while i <= hlen - nlen
        invariant
            from <= i,
            i <= hlen,
            1 <= nlen,
            nlen == needle@.len(),
            hlen == hay@.len(),
            nlen <= hlen,
            forall|j: int| from <= j < i ==> !occurs_at(hay@, needle@, j),
        decreases hlen - i,
    {
        let mut k: usize = 0;
        let mut matched: bool = true;
        while k < nlen
            invariant
                k <= nlen,
                nlen == needle@.len(),
                hlen == hay@.len(),
                i + nlen <= hlen,
                matched ==> forall|m: int| 0 <= m < k ==> hay@[i + m] == needle@[m],
                !matched ==> !occurs_at(hay@, needle@, i as int),
            decreases nlen - k,
        {
            if hay[i + k] != needle[k] {
                matched = false;
                proof {
                    assert(hay@.subrange(i as int, i + nlen as int)[k as int] == hay@[i + k]);
                    assert(hay@.subrange(i as int, i + nlen as int) != needle@);
                    assert(!occurs_at(hay@, needle@, i as int));
                }
                k = nlen;
            } else {
                k = k + 1;
            }
        }
        if matched {
            proof {
                assert(hay@.subrange(i as int, i + nlen as int) =~= needle@);
                assert(occurs_at(hay@, needle@, i as int));
                lemma_find_from_spec(hay@, needle@, from as nat);
                match spec_find_from(hay@, needle@, from as nat) {
                    Some(x) => {
                        assert(!(x < i));
                        assert(!(x > i)) by {
                            if x > i {
                                assert(!occurs_at(hay@, needle@, i as int));
                            }
                        }
                    },
                    None => {
                        assert(!occurs_at(hay@, needle@, i as int));
                    },
                }
            }
            return Some(i);
        }
        i = i + 1;
    }
    proof {
        assert forall|j: int| from <= j implies !occurs_at(hay@, needle@, j) by {
            if j + needle@.len() <= hay@.len() {
                assert(j < i);
            }
        }
        lemma_find_from_spec(hay@, needle@, from as nat);
    }
    None
}

/// Shrink `[lo, hi)` to the indices that remain after trimming white space
/// from both ends of `v[lo..hi]`.
pub fn trim_range(v: &Vec<char>, lo: usize, hi: usize) -> (r: (usize, usize))
    requires
        lo <= hi,
        hi <= v@.len(),
    ensures
        lo <= r.0 && r.0 <= r.1 && r.1 <= hi,
        v@.subrange(r.0 as int, r.1 as int) == spec_trim(v@.subrange(lo as int, hi as int)),
{
    let ghost s = v@.subrange(lo as int, hi as int);
    let mut a: usize = lo;
    while a < hi && is_ws(v[a])
        invariant
            lo <= a && a <= hi,
            hi <= v@.len(),
            forall|j: int| lo <= j < a ==> is_ws_char(v@[j]),
        decreases hi - a,
    {
        a = a + 1;
    }
    proof {
        assert forall|j: int| 0 <= j < a - lo implies is_ws_char(s[j]) by {
            assert(s[j] == v@[lo + j]);
        }
        lemma_trim_start_skip(s, (a - lo) as nat);
        assert(s.subrange(a - lo, s.len() as int) =~= v@.subrange(a as int, hi as int));
    }
    if a == hi {
        proof {
            assert(v@.subrange(a as int, hi as int) =~= Seq::<char>::empty());
            assert(spec_trim_start(s).len() == 0);
            assert(v@.subrange(hi as int, hi as int) =~= spec_trim(s));
        }
        return (hi, hi);
    }
    // v[a] is not white space, so trimming from the end stops at or after a + 1.
    let ghost t = v@.subrange(a as int, hi as int);
    assert(spec_trim_start(s) == t);
    assert(!is_ws_char(t[0]));
    let mut b: usize = hi;
    while b > a + 1 && is_ws(v[b - 1])
        invariant
            a + 1 <= b && b <= hi,
            hi <= v@.len(),
            forall|j: int| b <= j < hi ==> is_ws_char(v@[j]),
        decreases b,
    {
        b = b - 1;
    }
    proof {
        assert forall|j: int| t.len() - (hi - b) <= j < t.len() implies is_ws_char(t[j]) by {
            assert(t[j] == v@[a + j]);
        }
        lemma_trim_end_skip(t, (hi - b) as nat);
        assert(t.subrange(0, t.len() - (hi - b)) =~= v@.subrange(a as int, b as int));
        if !(b == a + 1 && is_ws_char(v@[b - 1])) {
            // b stopped at a non-white-space character (or at hi).
            let u = v@.subrange(a as int, b as int);
            assert(u.len() > 0 && !is_ws_char(u[u.len() - 1]));
            assert(spec_trim_end(u) == u);
        } else {
            // Everything after t[0] was white space and t[0] is not.
            let u = v@.subrange(a as int, b as int);
            assert(u.len() == 1);
            assert(u[0] == t[0]);
            assert(spec_trim_end(u) == u);
        }
    }
    (a, b)
}

} // verus!
