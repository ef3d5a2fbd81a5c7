//! Small string and character-sequence routines used across the crate:
//! substring search, splitting, lexicographic comparison and decimal rendering.
use vstd::prelude::*;

verus! {

/// `pat` occurs in `s` starting at index `i`.
pub open spec fn occurs_at(s: Seq<char>, pat: Seq<char>, i: int) -> bool {
    0 <= i && i + pat.len() <= s.len() && s.subrange(i, i + pat.len()) == pat
}

/// `pat` occurs somewhere in `s`.
pub open spec fn contains_seq(s: Seq<char>, pat: Seq<char>) -> bool {
    exists|i: int| occurs_at(s, pat, i)
}

/// `c` occurs somewhere in `s`.
pub open spec fn has_char(s: Seq<char>, c: char) -> bool {
    exists|i: int| 0 <= i < s.len() && s[i] == c
}

/// Index of the first occurrence of `c` in `s`, if any.
pub open spec fn first_index_of(s: Seq<char>, c: char) -> Option<int> {
    if has_char(s, c) {
        Some(choose|i: int| 0 <= i < s.len() && s[i] == c && forall|j: int| 0 <= j < i ==> s[j] != c)
    } else {
        None
    }
}

proof fn lemma_first_occurrence(s: Seq<char>, c: char, w: int)
    requires
        0 <= w < s.len(),
        s[w] == c,
    ensures
        exists|i: int| 0 <= i <= w && s[i] == c && forall|j: int| 0 <= j < i ==> #[trigger] s[j] != c,
    decreases w,
{
    if exists|j: int| 0 <= j < w && s[j] == c {
        let j = choose|j: int| 0 <= j < w && s[j] == c;
        lemma_first_occurrence(s, c, j);
    } else {
        assert(forall|j: int| 0 <= j < w ==> #[trigger] s[j] != c);
    }
}

/// When `c` occurs in `s`, its first occurrence exists: the index that
/// `first_index_of` picks holds `c`, and no earlier index does.
pub proof fn lemma_first_index_of(s: Seq<char>, c: char)
    ensures
        first_index_of(s, c) matches Some(i) ==> 0 <= i < s.len() && s[i] == c
            && forall|j: int| 0 <= j < i ==> s[j] != c,
        first_index_of(s, c) is None <==> !has_char(s, c),
{
    if has_char(s, c) {
        let w = choose|w: int| 0 <= w < s.len() && s[w] == c;
        lemma_first_occurrence(s, c, w);
    }
}

/// Strict lexicographic order on character sequences (the order of `str` comparison).
pub open spec fn seq_lt(a: Seq<char>, b: Seq<char>) -> bool
    decreases a.len(),
{
    if b.len() == 0 {
        false
    } else if a.len() == 0 {
        true
    } else if a[0] != b[0] {
        (a[0] as u32) < (b[0] as u32)
    } else {
        seq_lt(a.drop_first(), b.drop_first())
    }
}

/// Decimal digit character for `d < 10`.
pub open spec fn digit_char(d: nat) -> char {
    ((d + 48) as u32) as char
}

/// Decimal rendering of a natural number, without leading zeros.
pub open spec fn decimal(n: nat) -> Seq<char>
    decreases n,
{
    if n < 10 {
        seq![digit_char(n)]
    } else {
        decimal(n / 10).push(digit_char(n % 10))
    }
}

/// Appends one character to a `String` (`String::push`).
#[verifier::external_body]
pub fn push_char(s: &mut String, c: char)
    ensures
        final(s)@ == old(s)@.push(c),
{
    s.push(c);
}

/// Copies the characters of `s` into a vector.
pub fn chars_of(s: &str) -> (v: Vec<char>)
    ensures
        v@ == s@,
{
    let n = s.unicode_len();
    let mut v: Vec<char> = Vec::new();
    let mut i: usize = 0;
    while i < n
        invariant
            n == s@.len(),
            i <= n,
            v@ == s@.take(i as int),
        decreases n - i,
    {
        let c = s.get_char(i);
        v.push(c);
        i = i + 1;
        assert(v@ =~= s@.take(i as int));
    }
    assert(v@ =~= s@);
    v
}

/// Builds a `String` holding the characters `v[from..to]`.
pub fn string_of(v: &Vec<char>, from: usize, to: usize) -> (s: String)
    requires
        from <= to <= v@.len(),
    ensures
        s@ == v@.subrange(from as int, to as int),
{
    let mut s = String::new();
    let mut i: usize = from;
    while i < to
        invariant
            from <= i <= to <= v@.len(),
            s@ == v@.subrange(from as int, i as int),
        decreases to - i,
    {
        push_char(&mut s, v[i]);
        i = i + 1;
        assert(s@ =~= v@.subrange(from as int, i as int));
    }
    s
}

/// Concatenation of two strings.
pub fn concat(a: &str, b: &str) -> (s: String)
    ensures
        s@ == a@ + b@,
{
    let mut s = String::from_str(a);
    s.append(b);
    s
}

/// Whether `c` occurs in `v`.
pub fn vec_has_char(v: &Vec<char>, c: char) -> (r: bool)
    ensures
        r == has_char(v@, c),
{
    let mut i: usize = 0;
    while i < v.len()
        invariant
            i <= v@.len(),
            forall|j: int| 0 <= j < i ==> v@[j] != c,
        decreases v.len() - i,
    {
        if v[i] == c {
            return true;
        }
        i = i + 1;
    }
    false
}

/// Index of the first occurrence of `c` in `v`.
pub fn vec_index_of(v: &Vec<char>, c: char) -> (r: Option<usize>)
    ensures
        match r {
            Some(i) => {
                &&& i < v@.len()
                &&& v@[i as int] == c
                &&& forall|j: int| 0 <= j < i ==> v@[j] != c
                &&& first_index_of(v@, c) == Some(i as int)
            },
            None => first_index_of(v@, c) is None,
        },
{
    let mut i: usize = 0;
    while i < v.len()
        invariant
            i <= v@.len(),
            forall|j: int| 0 <= j < i ==> v@[j] != c,
        decreases v.len() - i,
    {
        if v[i] == c {
            proof {
                assert(has_char(v@, c));
                let k = choose|k: int| 0 <= k < v@.len() && v@[k] == c && forall|j: int| 0 <= j < k ==> v@[j] != c;
                if k < i {
                } else if k > i {
                    assert(v@[i as int] == c);
                }
                assert(k == i);
            }
            return Some(i);
        }
        i = i + 1;
    }
    None
}

/// Whether `pat` occurs at position `i` of `v`.
fn vec_occurs_at(v: &Vec<char>, pat: &Vec<char>, i: usize) -> (r: bool)
    requires
        i + pat@.len() <= v@.len(),
    ensures
        r == occurs_at(v@, pat@, i as int),
{
    let vl = v.len();
    let mut j: usize = 0;
    while j < pat.len()
        invariant
            vl == v@.len(),
            i + pat@.len() <= v@.len(),
            j <= pat@.len(),
            forall|k: int| 0 <= k < j ==> v@[i + k] == pat@[k],
        decreases pat.len() - j,
    {
        assert(i + j < v@.len());
        if v[i + j] != pat[j] {
            assert(v@.subrange(i as int, i + pat@.len())[j as int] != pat@[j as int]);
            return false;
        }
        j = j + 1;
    }
    assert(v@.subrange(i as int, i + pat@.len()) =~= pat@);
    true
}

/// Whether `pat` occurs anywhere in `v`.
pub fn vec_contains(v: &Vec<char>, pat: &Vec<char>) -> (r: bool)
    ensures
        r == contains_seq(v@, pat@),
{
    if pat.len() == 0 {
        assert(v@.subrange(0, 0) =~= pat@);
        assert(occurs_at(v@, pat@, 0));
        return true;
    }
    if pat.len() > v.len() {
        return false;
    }
    let last = v.len() - pat.len();
    let mut i: usize = 0;
    while i <= last
        invariant
            last + pat@.len() == v@.len(),
            v@.len() <= usize::MAX,
            pat@.len() > 0,
            i <= last + 1,
            forall|k: int| 0 <= k < i ==> !occurs_at(v@, pat@, k),
        decreases last + 1 - i,
    {
        if vec_occurs_at(v, pat, i) {
            return true;
        }
        i = i + 1;
    }
    assert forall|k: int| !occurs_at(v@, pat@, k) by {
        if 0 <= k && k + pat@.len() <= v@.len() {
            assert(k < i);
        }
    }
    false
}

/// Whether two character vectors are equal.
pub fn vec_eq(a: &Vec<char>, b: &Vec<char>) -> (r: bool)
    ensures
        r == (a@ == b@),
{
    if a.len() != b.len() {
        return false;
    }
    let mut i: usize = 0;
    while i < a.len()
        invariant
            a@.len() == b@.len(),
            i <= a@.len(),
            forall|k: int| 0 <= k < i ==> a@[k] == b@[k],
        decreases a.len() - i,
    {
        if a[i] != b[i] {
            return false;
        }
        i = i + 1;
    }
    assert(a@ =~= b@);
    true
}

/// Whether two strings are equal.
pub fn str_eq(a: &str, b: &str) -> (r: bool)
    ensures
        r == (a@ == b@),
{
    let va = chars_of(a);
    let vb = chars_of(b);
    vec_eq(&va, &vb)
}

proof fn lemma_seq_lt_suffix(a: Seq<char>, b: Seq<char>, i: int)
    requires
        0 <= i <= a.len(),
        i <= b.len(),
        a.take(i) == b.take(i),
    ensures
        seq_lt(a, b) == seq_lt(a.skip(i), b.skip(i)),
    decreases i,
{
    if i > 0 {
        assert(a[0] == a.take(i)[0]);
        assert(b[0] == b.take(i)[0]);
        assert(a.drop_first().take(i - 1) =~= a.take(i).drop_first());
        assert(b.drop_first().take(i - 1) =~= b.take(i).drop_first());
        lemma_seq_lt_suffix(a.drop_first(), b.drop_first(), i - 1);
        assert(a.drop_first().skip(i - 1) =~= a.skip(i));
        assert(b.drop_first().skip(i - 1) =~= b.skip(i));
    } else {
        assert(a.skip(0) =~= a);
        assert(b.skip(0) =~= b);
    }
}

/// Strict lexicographic comparison of two character vectors.
pub fn vec_lt(a: &Vec<char>, b: &Vec<char>) -> (r: bool)
    ensures
        r == seq_lt(a@, b@),
{
    let mut i: usize = 0;
    while i < a.len() && i < b.len()
        invariant
            i <= a@.len(),
            i <= b@.len(),
            a@.take(i as int) == b@.take(i as int),
        decreases a.len() - i,
    {
        if a[i] != b[i] {
            proof {
                lemma_seq_lt_suffix(a@, b@, i as int);
                assert(a@.skip(i as int)[0] == a@[i as int]);
                assert(b@.skip(i as int)[0] == b@[i as int]);
            }
            return (a[i] as u32) < (b[i] as u32);
        }
        assert(a@.take(i + 1) =~= a@.take(i as int).push(a@[i as int]));
        assert(b@.take(i + 1) =~= b@.take(i as int).push(b@[i as int]));
        i = i + 1;
    }
    proof {
        lemma_seq_lt_suffix(a@, b@, i as int);
    }
    i < b.len()
}

/// Decimal rendering of `n`.
pub fn usize_to_string(n: usize) -> (s: String)
    ensures
        s@ == decimal(n as nat),
{
    // digits collected least significant first
    let mut digits: Vec<char> = Vec::new();
    let mut m: usize = n;
    let ghost mut rest: Seq<char> = Seq::empty();
    loop
        invariant_except_break
            m <= n,
            decimal(n as nat) == decimal(m as nat) + rest,
        invariant
            digits@ == rest.reverse(),
        ensures
            decimal(n as nat) == rest,
            digits@ == rest.reverse(),
        decreases m,
    {
        let d = m % 10;
        let c = ((d as u8) + 48u8) as char;
        assert(c == digit_char(d as nat));
        if m < 10 {
            digits.push(c);
            proof {
                assert(decimal(m as nat) == seq![c]);
                assert(decimal(n as nat) =~= seq![c] + rest);
                assert(digits@ =~= (seq![c] + rest).reverse());
                rest = seq![c] + rest;
            }
            break;
        }
        digits.push(c);
        proof {
            assert(decimal(m as nat) == decimal((m / 10) as nat).push(c));
            assert(decimal(n as nat) =~= decimal((m / 10) as nat) + (seq![c] + rest));
            assert(digits@ =~= (seq![c] + rest).reverse());
            rest = seq![c] + rest;
        }
        m = m / 10;
    }
    let mut s = String::new();
    let mut k: usize = digits.len();
    while k > 0
        invariant
            k <= digits@.len(),
            digits@ == rest.reverse(),
            rest == decimal(n as nat),
            s@ == rest.take(digits@.len() - k),
        decreases k,
    {
        k = k - 1;
        push_char(&mut s, digits[k]);
        proof {
            assert(digits@[k as int] == rest[digits@.len() - 1 - k]);
            assert(s@ =~= rest.take(digits@.len() - k));
        }
    }
    assert(s@ =~= rest);
    s
}

} // verus!
