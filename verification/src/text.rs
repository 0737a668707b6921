//! Text primitives on `String`/`str`, specified over `Seq<char>`.
use vstd::prelude::*;

verus! {

broadcast use vstd::string::group_string_axioms;

// ---------------------------------------------------------------------------
// Specifications
// ---------------------------------------------------------------------------

/// Unicode `White_Space` property (the characters for which std's
/// `char::is_whitespace` holds).
pub open spec fn is_white_space(c: char) -> bool {
    ||| ('\u{9}' <= c && c <= '\u{d}')
    ||| c == ' '
    ||| c == '\u{85}'
    ||| c == '\u{a0}'
    ||| c == '\u{1680}'
    ||| ('\u{2000}' <= c && c <= '\u{200a}')
    ||| c == '\u{2028}'
    ||| c == '\u{2029}'
    ||| c == '\u{202f}'
    ||| c == '\u{205f}'
    ||| c == '\u{3000}'
}

/// `s` with its leading white space removed.
pub open spec fn trim_front(s: Seq<char>) -> Seq<char>
    decreases s.len(),
{
    if s.len() > 0 && is_white_space(s[0]) {
        trim_front(s.drop_first())
    } else {
        s
    }
}

/// `s` with its trailing white space removed.
pub open spec fn trim_back(s: Seq<char>) -> Seq<char>
    decreases s.len(),
{
    if s.len() > 0 && is_white_space(s.last()) {
        trim_back(s.drop_last())
    } else {
        s
    }
}

/// `s` with leading and trailing white space removed.
pub open spec fn trimmed(s: Seq<char>) -> Seq<char> {
    trim_back(trim_front(s))
}

/// `p` is a prefix of `s`.
pub open spec fn starts_with(s: Seq<char>, p: Seq<char>) -> bool {
    p.len() <= s.len() && s.take(p.len() as int) == p
}

/// `p` is a suffix of `s`.
pub open spec fn ends_with(s: Seq<char>, p: Seq<char>) -> bool {
    p.len() <= s.len() && s.skip(s.len() - p.len()) == p
}

/// `p` occurs in `s` at position `i`.
pub open spec fn occurs_at(s: Seq<char>, p: Seq<char>, i: int) -> bool {
    0 <= i && i + p.len() <= s.len() && s.subrange(i, i + p.len()) == p
}

/// `p` occurs somewhere in `s`.
pub open spec fn contains(s: Seq<char>, p: Seq<char>) -> bool {
    exists|i: int| occurs_at(s, p, i)
}

/// Every non-overlapping occurrence of `p` in `s`, found from left to right,
/// replaced by `r`. An empty `p` matches before every character and at the end.
pub open spec fn replaced(s: Seq<char>, p: Seq<char>, r: Seq<char>) -> Seq<char>
    decreases s.len(),
{
    if p.len() == 0 {
        if s.len() == 0 {
            r
        } else {
            r + seq![s[0]] + replaced(s.drop_first(), p, r)
        }
    } else if s.len() < p.len() {
        s
    } else if s.take(p.len() as int) == p {
        r + replaced(s.skip(p.len() as int), p, r)
    } else {
        seq![s[0]] + replaced(s.drop_first(), p, r)
    }
}

/// The concatenation of all the pieces, in order.
pub open spec fn concat_all(pieces: Seq<Seq<char>>) -> Seq<char>
    decreases pieces.len(),
{
    if pieces.len() == 0 {
        Seq::empty()
    } else {
        concat_all(pieces.drop_last()) + pieces.last()
    }
}

// ---------------------------------------------------------------------------
// Lemmas
// ---------------------------------------------------------------------------

proof fn lemma_trim_front_skip(s: Seq<char>, i: int)
    requires
        0 <= i <= s.len(),
        forall|k: int| 0 <= k < i ==> is_white_space(#[trigger] s[k]),
    ensures
        trim_front(s) == trim_front(s.skip(i)),
    decreases i,
{
    if i > 0 {
        assert(s.drop_first().skip(i - 1) =~= s.skip(i));
        lemma_trim_front_skip(s.drop_first(), i - 1);
    } else {
        assert(s.skip(0) =~= s);
    }
}

proof fn lemma_trim_back_take(s: Seq<char>, j: int)
    requires
        0 <= j <= s.len(),
        forall|k: int| j <= k < s.len() ==> is_white_space(#[trigger] s[k]),
    ensures
        trim_back(s) == trim_back(s.take(j)),
    decreases s.len() - j,
{
    if j < s.len() {
        assert(s.drop_last().take(j) =~= s.take(j));
        lemma_trim_back_take(s.drop_last(), j);
    } else {
        assert(s.take(j) =~= s);
    }
}

/// Trimming removes exactly a white-space prefix and a white-space suffix.
proof fn lemma_trim_front_shape(s: Seq<char>)
    ensures
        trim_front(s).len() <= s.len(),
        trim_front(s) == s.skip(s.len() - trim_front(s).len()),
        forall|k: int| 0 <= k < s.len() - trim_front(s).len() ==> is_white_space(#[trigger] s[k]),
        trim_front(s).len() > 0 ==> !is_white_space(trim_front(s)[0]),
    decreases s.len(),
{
    if s.len() > 0 && is_white_space(s[0]) {
        lemma_trim_front_shape(s.drop_first());
        let t = trim_front(s.drop_first());
        assert(s.drop_first().skip(s.drop_first().len() - t.len()) =~= s.skip(s.len() - t.len()));
        assert forall|k: int| 0 <= k < s.len() - t.len() implies is_white_space(#[trigger] s[k]) by {
            if k > 0 {
                assert(s[k] == s.drop_first()[k - 1]);
            }
        }
    } else {
        assert(s.skip(0) =~= s);
    }
}

proof fn lemma_trim_back_shape(s: Seq<char>)
    ensures
        trim_back(s).len() <= s.len(),
        trim_back(s) == s.take(trim_back(s).len() as int),
        forall|k: int| trim_back(s).len() <= k < s.len() ==> is_white_space(#[trigger] s[k]),
        trim_back(s).len() > 0 ==> !is_white_space(trim_back(s).last()),
    decreases s.len(),
{
    if s.len() > 0 && is_white_space(s.last()) {
        lemma_trim_back_shape(s.drop_last());
        let t = trim_back(s.drop_last());
        assert(s.drop_last().take(t.len() as int) =~= s.take(t.len() as int));
        assert forall|k: int| t.len() <= k < s.len() implies is_white_space(#[trigger] s[k]) by {
            if k < s.len() - 1 {
                assert(s[k] == s.drop_last()[k]);
            }
        }
    } else {
        assert(s.take(s.len() as int) =~= s);
    }
}

proof fn lemma_trim_front_fixed(s: Seq<char>)
    requires
        s.len() > 0 ==> !is_white_space(s[0]),
    ensures
        trim_front(s) == s,
{
}

proof fn lemma_trim_back_fixed(s: Seq<char>)
    requires
        s.len() > 0 ==> !is_white_space(s.last()),
    ensures
        trim_back(s) == s,
{
}

/// What `trimmed` produces: no white space at either end, and it is a
/// contiguous piece of the input.
pub proof fn lemma_trimmed_ends(s: Seq<char>)
    ensures
        trimmed(s).len() > 0 ==> !is_white_space(trimmed(s)[0]),
        trimmed(s).len() > 0 ==> !is_white_space(trimmed(s).last()),
        trimmed(s).len() <= s.len(),
{
    let f = trim_front(s);
    lemma_trim_front_shape(s);
    lemma_trim_back_shape(f);
    let t = trim_back(f);
    if t.len() > 0 {
        assert(t[0] == f[0]);
    }
}

/// Trimming removes a white-space prefix and a white-space suffix and keeps
/// the part between them.
pub proof fn lemma_trimmed_shape(s: Seq<char>)
    ensures
        exists|i: int, j: int|
            0 <= i <= j <= s.len() && trimmed(s) == s.subrange(i, j) && (forall|k: int|
                0 <= k < i ==> is_white_space(#[trigger] s[k])) && (forall|k: int|
                j <= k < s.len() ==> is_white_space(#[trigger] s[k])),
{
    let f = trim_front(s);
    lemma_trim_front_shape(s);
    lemma_trim_back_shape(f);
    let i = s.len() - f.len();
    let t = trim_back(f);
    let j = i + t.len();
    assert(t =~= s.subrange(i, j));
    assert forall|k: int| j <= k < s.len() implies is_white_space(#[trigger] s[k]) by {
        assert(s[k] == f[k - i]);
    }
}

/// Trimming twice is the same as trimming once.
pub proof fn lemma_trimmed_idempotent(s: Seq<char>)
    ensures
        trimmed(trimmed(s)) == trimmed(s),
{
    let t = trimmed(s);
    lemma_trimmed_ends(s);
    lemma_trim_front_fixed(t);
    lemma_trim_back_fixed(t);
}

/// Replacing a pattern by itself changes nothing.
pub proof fn lemma_replaced_self(s: Seq<char>, p: Seq<char>)
    ensures
        replaced(s, p, p) == s,
    decreases s.len(),
{
    if p.len() == 0 {
        if s.len() > 0 {
            lemma_replaced_self(s.drop_first(), p);
            assert(seq![s[0]] + s.drop_first() =~= s);
            assert(p + seq![s[0]] + s.drop_first() =~= s);
        }
    } else if s.len() < p.len() {
    } else if s.take(p.len() as int) == p {
        lemma_replaced_self(s.skip(p.len() as int), p);
        assert(s.take(p.len() as int) + s.skip(p.len() as int) =~= s);
    } else {
        lemma_replaced_self(s.drop_first(), p);
        assert(seq![s[0]] + s.drop_first() =~= s);
    }
}

/// Where a non-empty pattern does not occur, replacing it changes nothing.
pub proof fn lemma_replaced_absent(s: Seq<char>, p: Seq<char>, r: Seq<char>)
    requires
        p.len() > 0,
        !contains(s, p),
    ensures
        replaced(s, p, r) == s,
    decreases s.len(),
{
    if s.len() < p.len() {
    } else {
        assert(s.take(p.len() as int) =~= s.subrange(0, p.len() as int));
        assert(!occurs_at(s, p, 0));
        assert(!contains(s.drop_first(), p)) by {
            assert forall|i: int| !occurs_at(s.drop_first(), p, i) by {
                if occurs_at(s.drop_first(), p, i) {
                    assert(s.drop_first().subrange(i, i + p.len()) =~= s.subrange(i + 1, i + 1 + p.len()));
                    assert(occurs_at(s, p, i + 1));
                }
            }
        }
        lemma_replaced_absent(s.drop_first(), p, r);
        assert(seq![s[0]] + s.drop_first() =~= s);
    }
}

/// Replacement works from the first occurrence: the text before it is kept,
/// the occurrence becomes `r`, and the rest is replaced in the same way.
pub proof fn lemma_replaced_first_occurrence(s: Seq<char>, p: Seq<char>, r: Seq<char>, i: int)
    requires
        p.len() > 0,
        occurs_at(s, p, i),
        forall|j: int| 0 <= j < i ==> !occurs_at(s, p, j),
    ensures
        replaced(s, p, r) == s.take(i) + r + replaced(s.skip(i + p.len()), p, r),
    decreases i,
{
    assert(s.take(p.len() as int) =~= s.subrange(0, p.len() as int));
    if i == 0 {
        assert(s.take(0) =~= Seq::<char>::empty());
        assert(s.take(0) + r =~= r);
    } else {
        assert(!occurs_at(s, p, 0));
        let t = s.drop_first();
        assert forall|j: int| 0 <= j < i - 1 implies !occurs_at(t, p, j) by {
            if occurs_at(t, p, j) {
                assert(t.subrange(j, j + p.len()) =~= s.subrange(j + 1, j + 1 + p.len()));
                assert(occurs_at(s, p, j + 1));
            }
        }
        assert(t.subrange(i - 1, i - 1 + p.len()) =~= s.subrange(i, i + p.len()));
        lemma_replaced_first_occurrence(t, p, r, i - 1);
        assert(t.skip(i - 1 + p.len()) =~= s.skip(i + p.len()));
        assert(seq![s[0]] + t.take(i - 1) =~= s.take(i));
        let rest = replaced(s.skip(i + p.len()), p, r);
        assert(seq![s[0]] + (t.take(i - 1) + r + rest) =~= s.take(i) + r + rest);
    }
}

/// Replacing a single character by text that does not hold it leaves no
/// occurrence of that character.
pub proof fn lemma_replaced_char_gone(s: Seq<char>, c: char, r: Seq<char>)
    requires
        forall|k: int| 0 <= k < r.len() ==> r[k] != c,
    ensures
        forall|k: int| 0 <= k < replaced(s, seq![c], r).len() ==> replaced(s, seq![c], r)[k] != c,
        !contains(replaced(s, seq![c], r), seq![c]),
    decreases s.len(),
{
    let x = replaced(s, seq![c], r);
    if s.len() == 0 {
    } else {
        lemma_replaced_char_gone(s.drop_first(), c, r);
        let rest = replaced(s.drop_first(), seq![c], r);
        assert(s.skip(1) =~= s.drop_first());
        if s.take(1) == seq![c] {
            assert(x == r + rest);
            assert forall|k: int| 0 <= k < x.len() implies x[k] != c by {
                if k >= r.len() {
                    assert(x[k] == rest[k - r.len()]);
                }
            }
        } else {
            assert(s[0] != c) by {
                if s[0] == c {
                    assert(s.take(1) =~= seq![c]);
                }
            }
            assert(x == seq![s[0]] + rest);
            assert forall|k: int| 0 <= k < x.len() implies x[k] != c by {
                if k >= 1 {
                    assert(x[k] == rest[k - 1]);
                }
            }
        }
    }
    assert forall|i: int| !occurs_at(x, seq![c], i) by {
        if occurs_at(x, seq![c], i) {
            assert(x.subrange(i, i + 1)[0] == x[i]);
        }
    }
}

// ---------------------------------------------------------------------------
// Executable functions
// ---------------------------------------------------------------------------

/// Appends one character to a `String` (std's `String::push`).
#[verifier::external_body]
fn push_char(s: &mut String, c: char)
    ensures
        final(s)@ == old(s)@.push(c),
{
    s.push(c)
}

/// The characters of `s`, in order.
pub fn chars_of(s: &str) -> (v: Vec<char>)
    ensures
        v@ == s@,
{
    let mut v: Vec<char> = Vec::new();
    for c in it: s.chars()
        invariant
            it.seq() == s@,
            v@ == it.seq().take(it.index() as int),
    {
        v.push(c);
    }
    v
}

/// A `String` holding exactly the characters of `v`.
pub fn string_of(v: &[char]) -> (s: String)
    ensures
        s@ == v@,
{
    let mut s = String::new();
    let mut i: usize = 0;
    while i < v.len()
        invariant
            i <= v.len(),
            s@ == v@.take(i as int),
        decreases v.len() - i,
    {
        push_char(&mut s, v[i]);
        i += 1;
        assert(s@ =~= v@.take(i as int));
    }
    assert(v@.take(v.len() as int) =~= v@);
    s
}

/// Whether `c` has the Unicode `White_Space` property.
pub fn is_whitespace(c: char) -> (b: bool)
    ensures
        b == is_white_space(c),
{
    ('\u{9}' <= c && c <= '\u{d}') || c == ' ' || c == '\u{85}' || c == '\u{a0}' || c == '\u{1680}'
        || ('\u{2000}' <= c && c <= '\u{200a}') || c == '\u{2028}' || c == '\u{2029}' || c
        == '\u{202f}' || c == '\u{205f}' || c == '\u{3000}'
}

/// `s` with leading and trailing white space removed.
pub fn trim(s: &str) -> (t: String)
    ensures
        t@ == trimmed(s@),
{
    let v = chars_of(s);
    let n = v.len();
    let mut i: usize = 0;
    while i < n && is_whitespace(v[i])
        invariant
            n == v@.len(),
            i <= n,
            forall|k: int| 0 <= k < i ==> is_white_space(#[trigger] v@[k]),
        decreases n - i,
    {
        i += 1;
    }
    let mut j: usize = n;
    while j > i && is_whitespace(v[j - 1])
        invariant
            n == v@.len(),
            i <= j <= n,
            forall|k: int| j <= k < n ==> is_white_space(#[trigger] v@[k]),
        decreases j,
    {
        j -= 1;
    }
    let ghost f = v@.skip(i as int);
    proof {
        lemma_trim_front_skip(v@, i as int);
        if i < n {
            lemma_trim_front_fixed(f);
        }
        assert(trim_front(v@) == f);
        lemma_trim_back_take(f, (j - i) as int);
        assert forall|k: int| (j - i) <= k < f.len() implies is_white_space(#[trigger] f[k]) by {
            assert(f[k] == v@[k + i]);
        }
        let g = f.take((j - i) as int);
        assert(g =~= v@.subrange(i as int, j as int));
        if j > i {
            assert(g.last() == v@[j - 1]);
            lemma_trim_back_fixed(g);
        }
    }
    let mut out: Vec<char> = Vec::new();
    let mut k: usize = i;
    while k < j
        invariant
            n == v@.len(),
            i <= k <= j <= n,
            out@ == v@.subrange(i as int, k as int),
        decreases j - k,
    {
        out.push(v[k]);
        k += 1;
        assert(out@ =~= v@.subrange(i as int, k as int));
    }
    string_of(&out)
}


/// Whether `p` occurs in `s` at position `i`.
fn occurs_at_exec(s: &Vec<char>, p: &Vec<char>, i: usize) -> (b: bool)
    ensures
        b == occurs_at(s@, p@, i as int),
{
    if i > s.len() || p.len() > s.len() - i {
        return false;
    }
    let sl = s.len();
    let mut j: usize = 0;
    while j < p.len()
        invariant
            sl == s@.len(),
            i + p@.len() <= s@.len(),
            j <= p@.len(),
            forall|k: int| 0 <= k < j ==> s@[i + k] == p@[k],
        decreases p.len() - j,
    {
        if s[i + j] != p[j] {
            assert(s@.subrange(i as int, i + p@.len())[j as int] != p@[j as int]);
            return false;
        }
        j += 1;
    }
    assert(s@.subrange(i as int, i + p@.len()) =~= p@);
    true
}

/// Whether `s` begins with `p` (std's `str::starts_with`).
pub fn has_prefix(s: &str, p: &str) -> (b: bool)
    ensures
        b == starts_with(s@, p@),
{
    let sv = chars_of(s);
    let pv = chars_of(p);
    let b = occurs_at_exec(&sv, &pv, 0);
    proof {
        if p@.len() <= s@.len() {
            assert(s@.take(p@.len() as int) =~= s@.subrange(0, p@.len() as int));
        }
    }
    b
}

/// Whether `s` ends with `p` (std's `str::ends_with`).
pub fn has_suffix(s: &str, p: &str) -> (b: bool)
    ensures
        b == ends_with(s@, p@),
{
    let sv = chars_of(s);
    let pv = chars_of(p);
    if pv.len() > sv.len() {
        return false;
    }
    let b = occurs_at_exec(&sv, &pv, sv.len() - pv.len());
    proof {
        assert(s@.skip(s@.len() - p@.len()) =~= s@.subrange(s@.len() - p@.len(), s@.len() as int));
    }
    b
}

/// Whether `p` occurs anywhere in `s` (std's `str::contains`).
pub fn has_substring(s: &str, p: &str) -> (b: bool)
    ensures
        b == contains(s@, p@),
{
    let sv = chars_of(s);
    let pv = chars_of(p);
    let mut i: usize = 0;
    while i < sv.len()
        invariant
            sv@ == s@,
            pv@ == p@,
            i <= sv@.len(),
            forall|k: int| 0 <= k < i ==> !occurs_at(s@, p@, k),
        decreases sv.len() - i,
    {
        if occurs_at_exec(&sv, &pv, i) {
            return true;
        }
        i += 1;
    }
    if occurs_at_exec(&sv, &pv, i) {
        return true;
    }
    assert forall|k: int| !occurs_at(s@, p@, k) by {
        if 0 <= k < i {
        }
    }
    false
}

/// Every non-overlapping occurrence of `from` in `s`, from left to right,
/// replaced by `to` (std's `str::replace`).
pub fn replace_all(s: &str, from: &str, to: &str) -> (r: String)
    ensures
        r@ == replaced(s@, from@, to@),
{
    let sv = chars_of(s);
    let pv = chars_of(from);
    let n = sv.len();
    let m = pv.len();
    let mut out = String::new();
    let mut i: usize = 0;
    proof {
        assert(sv@.skip(0) =~= sv@);
    }
    if m == 0 {
        while i < n
            invariant
                sv@ == s@,
                pv@ == from@,
                m == pv@.len(),
                m == 0,
                n == sv@.len(),
                i <= n,
                out@ + replaced(s@.skip(i as int), from@, to@) == replaced(s@, from@, to@),
            decreases n - i,
        {
            let ghost rest = s@.skip(i as int);
            out.append(to);
            push_char(&mut out, sv[i]);
            proof {
                assert(rest.drop_first() =~= s@.skip(i + 1));
                assert(rest[0] == sv@[i as int]);
                assert(out@ + replaced(s@.skip(i + 1), from@, to@) =~= replaced(s@, from@, to@));
            }
            i += 1;
        }
        out.append(to);
        proof {
            assert(s@.skip(i as int) =~= Seq::<char>::empty());
        }
    } else {
        while i < n
            invariant
                sv@ == s@,
                pv@ == from@,
                m == pv@.len(),
                m > 0,
                n == sv@.len(),
                i <= n,
                out@ + replaced(s@.skip(i as int), from@, to@) == replaced(s@, from@, to@),
            decreases n - i,
        {
            let ghost rest = s@.skip(i as int);
            if occurs_at_exec(&sv, &pv, i) {
                out.append(to);
                proof {
                    assert(rest.take(m as int) =~= s@.subrange(i as int, i + m));
                    assert(rest.skip(m as int) =~= s@.skip(i + m));
                    assert(out@ + replaced(s@.skip(i + m), from@, to@) =~= replaced(s@, from@, to@));
                }
                i += m;
            } else {
                push_char(&mut out, sv[i]);
                proof {
                    assert(rest.drop_first() =~= s@.skip(i + 1));
                    assert(rest[0] == sv@[i as int]);
                    if rest.len() >= m {
                        assert(rest.take(m as int) =~= s@.subrange(i as int, i + m));
                    } else {
                        assert(rest =~= seq![rest[0]] + rest.drop_first());
                    }
                    assert(out@ + replaced(s@.skip(i + 1), from@, to@) =~= replaced(s@, from@, to@));
                }
                i += 1;
            }
        }
        proof {
            assert(s@.skip(i as int) =~= Seq::<char>::empty());
        }
    }
    proof {
        assert(out@ =~= replaced(s@, from@, to@));
    }
    out
}

/// The concatenation of all the strings, in order (std's `join("")`).
pub fn concat_strings(pieces: &Vec<String>) -> (r: String)
    ensures
        r@ == concat_all(pieces.deep_view()),
{
    let mut out = String::new();
    let mut i: usize = 0;
    while i < pieces.len()
        invariant
            i <= pieces@.len(),
            out@ == concat_all(pieces.deep_view().take(i as int)),
        decreases pieces.len() - i,
    {
        out.append(pieces[i].as_str());
        proof {
            assert(pieces.deep_view().take(i + 1).drop_last() =~= pieces.deep_view().take(i as int));
        }
        i += 1;
    }
    proof {
        assert(pieces.deep_view().take(pieces@.len() as int) =~= pieces.deep_view());
    }
    out
}

} // verus!
