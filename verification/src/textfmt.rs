//! Verified text helpers shared by the library: substring search, prefix
//! tests, string equality, decimal rendering and path-component extraction.

use vstd::prelude::*;

verus! {

/// `needle` occurs in `hay` starting at index `k`.
pub open spec fn contains_at(hay: Seq<char>, needle: Seq<char>, k: int) -> bool {
    0 <= k && k + needle.len() <= hay.len() && hay.subrange(k, k + needle.len()) == needle
}

/// `needle` occurs somewhere in `hay`.
pub open spec fn contains_seq(hay: Seq<char>, needle: Seq<char>) -> bool {
    exists|k: int| contains_at(hay, needle, k)
}

/// `p` is a prefix of `s`.
pub open spec fn starts_with_seq(s: Seq<char>, p: Seq<char>) -> bool {
    p.len() <= s.len() && s.subrange(0, p.len() as int) == p
}

/// Every text occurs in itself.
pub proof fn lemma_contains_self(x: Seq<char>)
    ensures
        contains_seq(x, x),
{
    assert(x.subrange(0, x.len() as int) =~= x);
    assert(contains_at(x, x, 0));
}

/// An occurrence survives appending text on the right.
pub proof fn lemma_contains_concat_left(a: Seq<char>, b: Seq<char>, x: Seq<char>)
    requires
        contains_seq(a, x),
    ensures
        contains_seq(a + b, x),
{
    let k = choose|k: int| contains_at(a, x, k);
    assert((a + b).subrange(k, k + x.len()) =~= a.subrange(k, k + x.len()));
    assert(contains_at(a + b, x, k));
}

/// An occurrence survives prepending text on the left.
pub proof fn lemma_contains_concat_right(a: Seq<char>, b: Seq<char>, x: Seq<char>)
    requires
        contains_seq(b, x),
    ensures
        contains_seq(a + b, x),
{
    let k = choose|k: int| contains_at(b, x, k);
    assert((a + b).subrange(a.len() + k, a.len() + k + x.len()) =~= b.subrange(k, k + x.len()));
    assert(contains_at(a + b, x, a.len() + k));
}

/// Compares two string slices by their character sequences.
pub fn str_eq(a: &str, b: &str) -> (r: bool)
    ensures
        r == (a@ == b@),
{
    let la = a.unicode_len();
    let lb = b.unicode_len();
    if la != lb {
        return false;
    }
    let mut i: usize = 0;
    while i < la
        invariant
            la == a@.len(),
            la == b@.len(),
            0 <= i <= la,
            forall|j: int| 0 <= j < i ==> a@[j] == b@[j],
        decreases la - i,
    {
        if a.get_char(i) != b.get_char(i) {
            return false;
        }
        i += 1;
    }
    proof {
        assert(a@ =~= b@);
    }
    true
}

/// Tests whether `p` is a prefix of `s`.
pub fn starts_with_str(s: &str, p: &str) -> (r: bool)
    ensures
        r == starts_with_seq(s@, p@),
{
    let ls = s.unicode_len();
    let lp = p.unicode_len();
    if lp > ls {
        return false;
    }
    let mut i: usize = 0;
    while i < lp
        invariant
            ls == s@.len(),
            lp == p@.len(),
            lp <= ls,
            0 <= i <= lp,
            forall|j: int| 0 <= j < i ==> s@[j] == p@[j],
        decreases lp - i,
    {
        if s.get_char(i) != p.get_char(i) {
            proof {
                assert(s@.subrange(0, p@.len() as int)[i as int] == s@[i as int]);
            }
            return false;
        }
        i += 1;
    }
    proof {
        assert(s@.subrange(0, p@.len() as int) =~= p@);
    }
    true
}

/// Tests whether `needle` occurs in `hay` starting at index `k`.
fn occurs_at(hay: &str, needle: &str, k: usize) -> (r: bool)
    requires
        k + needle@.len() <= hay@.len(),
    ensures
        r == contains_at(hay@, needle@, k as int),
{
    let lh = hay.unicode_len();
    let ln = needle.unicode_len();
    let mut j: usize = 0;
    while j < ln
        invariant
            lh == hay@.len(),
            ln == needle@.len(),
            k + ln <= lh,
            0 <= j <= ln,
            forall|q: int| 0 <= q < j ==> hay@[k + q] == needle@[q],
        decreases ln - j,
    {
        if hay.get_char(k + j) != needle.get_char(j) {
            proof {
                assert(hay@.subrange(k as int, k + ln)[j as int] == hay@[k + j]);
            }
            return false;
        }
        j += 1;
    }
    proof {
        assert(hay@.subrange(k as int, k + ln) =~= needle@);
    }
    true
}

/// Tests whether `needle` occurs in `hay`.
pub fn contains_str(hay: &str, needle: &str) -> (r: bool)
    ensures
        r == contains_seq(hay@, needle@),
{
    let lh = hay.unicode_len();
    let ln = needle.unicode_len();
    if ln > lh {
        return false;
    }
    if ln == 0 {
        proof {
            assert(hay@.subrange(0, 0) =~= needle@);
            assert(contains_at(hay@, needle@, 0));
        }
        return true;
    }
    let mut k: usize = 0;
    while k <= lh - ln
        invariant
            lh == hay@.len(),
            ln == needle@.len(),
            1 <= ln <= lh,
            0 <= k <= lh - ln + 1,
            forall|q: int| 0 <= q < k ==> !contains_at(hay@, needle@, q),
        decreases lh - ln - k + 1,
    {
        if occurs_at(hay, needle, k) {
            return true;
        }
        k += 1;
    }
    proof {
        assert forall|q: int| !contains_at(hay@, needle@, q) by {
            if 0 <= q && q + needle@.len() <= hay@.len() {
                assert(q < k);
            }
        }
    }
    false
}

/// The character that writes the decimal digit `d`.
pub open spec fn digit_char(d: nat) -> char {
    if d == 0 {
        '0'
    } else if d == 1 {
        '1'
    } else if d == 2 {
        '2'
    } else if d == 3 {
        '3'
    } else if d == 4 {
        '4'
    } else if d == 5 {
        '5'
    } else if d == 6 {
        '6'
    } else if d == 7 {
        '7'
    } else if d == 8 {
        '8'
    } else {
        '9'
    }
}

/// The decimal writing of `n`, most significant digit first.
pub open spec fn dec_rep(n: nat) -> Seq<char>
    decreases n,
{
    if n < 10 {
        seq![digit_char(n)]
    } else {
        dec_rep(n / 10).push(digit_char(n % 10))
    }
}

fn digit_str(d: usize) -> (r: &'static str)
    requires
        d < 10,
    ensures
        r@ == seq![digit_char(d as nat)],
{
    if d == 0 {
        proof { reveal_strlit("0"); }
        proof { assert("0"@ =~= seq![digit_char(0)]); }
        "0"
    } else if d == 1 {
        proof { reveal_strlit("1"); }
        proof { assert("1"@ =~= seq![digit_char(1)]); }
        "1"
    } else if d == 2 {
        proof { reveal_strlit("2"); }
        proof { assert("2"@ =~= seq![digit_char(2)]); }
        "2"
    } else if d == 3 {
        proof { reveal_strlit("3"); }
        proof { assert("3"@ =~= seq![digit_char(3)]); }
        "3"
    } else if d == 4 {
        proof { reveal_strlit("4"); }
        proof { assert("4"@ =~= seq![digit_char(4)]); }
        "4"
    } else if d == 5 {
        proof { reveal_strlit("5"); }
        proof { assert("5"@ =~= seq![digit_char(5)]); }
        "5"
    } else if d == 6 {
        proof { reveal_strlit("6"); }
        proof { assert("6"@ =~= seq![digit_char(6)]); }
        "6"
    } else if d == 7 {
        proof { reveal_strlit("7"); }
        proof { assert("7"@ =~= seq![digit_char(7)]); }
        "7"
    } else if d == 8 {
        proof { reveal_strlit("8"); }
        proof { assert("8"@ =~= seq![digit_char(8)]); }
        "8"
    } else {
        proof { reveal_strlit("9"); }
        proof { assert("9"@ =~= seq![digit_char(9)]); }
        "9"
    }
}

/// Writes `n` in decimal.
pub fn usize_to_string(n: usize) -> (r: String)
    ensures
        r@ == dec_rep(n as nat),
    decreases n,
{
    if n < 10 {
        String::from_str(digit_str(n))
    } else {
        let mut s = usize_to_string(n / 10);
        s.append(digit_str(n % 10));
        proof {
            assert(s@ =~= dec_rep(n as nat));
        }
        s
    }
}

/// Concatenates two string slices.
pub fn concat2(a: &str, b: &str) -> (r: String)
    ensures
        r@ == a@ + b@,
{
    let mut s = String::from_str(a);
    s.append(b);
    s
}

/// Concatenates three string slices.
pub fn concat3(a: &str, b: &str, c: &str) -> (r: String)
    ensures
        r@ == a@ + b@ + c@,
{
    let mut s = String::from_str(a);
    s.append(b);
    s.append(c);
    s
}

/// The path with trailing `/` separators removed.
pub open spec fn strip_trailing_slashes(p: Seq<char>) -> Seq<char>
    decreases p.len(),
{
    if p.len() > 0 && p.last() == '/' {
        strip_trailing_slashes(p.drop_last())
    } else {
        p
    }
}

/// The small form of an ASCII character; every other character is kept.
pub open spec fn lower_char(c: char) -> char {
    if 65 <= c as u32 && c as u32 <= 90 {
        (((c as u32) + 32) as u8) as char
    } else {
        c
    }
}

/// The text with each ASCII letter made small.
pub open spec fn lower_seq(s: Seq<char>) -> Seq<char> {
    s.map_values(|c: char| lower_char(c))
}

fn lower_char_exec(c: char) -> (r: char)
    ensures
        r == lower_char(c),
{
    let u = c as u32;
    if 65 <= u && u <= 90 {
        ((u + 32) as u8) as char
    } else {
        c
    }
}

/// Compares two string slices without regard to ASCII case.
pub fn str_eq_ignore_ascii_case(a: &str, b: &str) -> (r: bool)
    ensures
        r == (lower_seq(a@) == lower_seq(b@)),
{
    let la = a.unicode_len();
    let lb = b.unicode_len();
    if la != lb {
        proof {
            assert(lower_seq(a@).len() != lower_seq(b@).len());
        }
        return false;
    }
    let mut i: usize = 0;
    while i < la
        invariant
            la == a@.len(),
            la == b@.len(),
            0 <= i <= la,
            forall|j: int| 0 <= j < i ==> lower_seq(a@)[j] == lower_seq(b@)[j],
        decreases la - i,
    {
        if lower_char_exec(a.get_char(i)) != lower_char_exec(b.get_char(i)) {
            proof {
                assert(lower_seq(a@)[i as int] == lower_char(a@[i as int]));
                assert(lower_seq(b@)[i as int] == lower_char(b@[i as int]));
            }
            return false;
        }
        i += 1;
    }
    proof {
        assert(lower_seq(a@) =~= lower_seq(b@));
    }
    true
}

/// The views of a sequence of strings.
pub open spec fn strs_view(s: Seq<String>) -> Seq<Seq<char>> {
    s.map_values(|x: String| x@)
}

/// Tests whether `s` is one of the strings of `v`.
pub fn mem_str(v: &Vec<String>, s: &str) -> (r: bool)
    ensures
        r == strs_view(v@).contains(s@),
{
    let n = v.len();
    let mut i: usize = 0;
    while i < n
        invariant
            n == v@.len(),
            0 <= i <= n,
            forall|j: int| 0 <= j < i ==> strs_view(v@)[j] != s@,
        decreases n - i,
    {
        if str_eq(v[i].as_str(), s) {
            assert(strs_view(v@)[i as int] == s@);
            return true;
        }
        i += 1;
    }
    false
}

/// The extension of a file name: what follows the last `.`, provided that
/// `.` is not the name's first character. A name without a `.` past its
/// first character has no extension.
pub open spec fn ext_of(name: Seq<char>) -> Option<Seq<char>>
    decreases name.len(),
{
    if name.len() <= 1 {
        None
    } else if name.last() == '.' {
        Some(Seq::empty())
    } else {
        match ext_of(name.drop_last()) {
            Some(e) => Some(e.push(name.last())),
            None => None,
        }
    }
}

proof fn lemma_ext_of_some(s: Seq<char>, p: int)
    requires
        0 <= p < s.len(),
        s[p] == '.',
        forall|q: int| p < q < s.len() ==> s[q] != '.',
    ensures
        p >= 1 ==> ext_of(s) == Some(s.subrange(p + 1, s.len() as int)),
        p == 0 ==> ext_of(s) is None,
    decreases s.len(),
{
    if p == s.len() - 1 {
        if p >= 1 {
            assert(s.subrange(p + 1, s.len() as int) =~= Seq::empty());
        }
    } else {
        let h = s.drop_last();
        assert(forall|q: int| p < q < h.len() ==> h[q] == s[q] && s[q] != '.');
        lemma_ext_of_some(h, p);
        assert(s[s.len() - 1] != '.');
        if p >= 1 {
            assert(h.subrange(p + 1, h.len() as int).push(s.last()) =~= s.subrange(
                p + 1,
                s.len() as int,
            ));
        }
    }
}

proof fn lemma_ext_of_none(s: Seq<char>)
    requires
        forall|q: int| 1 <= q < s.len() ==> s[q] != '.',
    ensures
        ext_of(s) is None,
    decreases s.len(),
{
    if s.len() > 1 {
        let h = s.drop_last();
        assert(forall|q: int| 1 <= q < h.len() ==> h[q] == s[q] && s[q] != '.');
        lemma_ext_of_none(h);
        assert(s[s.len() - 1] != '.');
    }
}

/// The extension of a file name, if it has one.
pub fn extension_of(name: &str) -> (r: Option<String>)
    ensures
        match r {
            Some(e) => ext_of(name@) == Some(e@),
            None => ext_of(name@) is None,
        },
{
    let ln = name.unicode_len();
    let mut last_dot: usize = 0;
    let mut found = false;
    let mut i: usize = 0;
    while i < ln
        invariant
            ln == name@.len(),
            0 <= i <= ln,
            found ==> last_dot < i && name@[last_dot as int] == '.',
            found ==> forall|q: int| last_dot < q < i ==> name@[q] != '.',
            !found ==> forall|q: int| 0 <= q < i ==> name@[q] != '.',
        decreases ln - i,
    {
        if name.get_char(i) == '.' {
            last_dot = i;
            found = true;
        }
        i += 1;
    }
    if found && last_dot >= 1 {
        proof {
            lemma_ext_of_some(name@, last_dot as int);
        }
        Some(name.substring_char(last_dot + 1, ln).to_owned())
    } else {
        proof {
            if found {
                lemma_ext_of_some(name@, last_dot as int);
            } else {
                lemma_ext_of_none(name@);
            }
        }
        None
    }
}

/// The trailing run of characters of `q` that are not `/` separators.
pub open spec fn last_component(q: Seq<char>) -> Seq<char>
    decreases q.len(),
{
    if q.len() == 0 || q.last() == '/' {
        Seq::empty()
    } else {
        last_component(q.drop_last()).push(q.last())
    }
}

/// The final component of a path: what follows the last `/` separator,
/// after trailing separators are removed.
pub open spec fn base_name_of(p: Seq<char>) -> Seq<char> {
    last_component(strip_trailing_slashes(p))
}

proof fn lemma_strip_trailing(s: Seq<char>, e: int)
    requires
        0 <= e <= s.len(),
        forall|q: int| e <= q < s.len() ==> s[q] == '/',
        e > 0 ==> s[e - 1] != '/',
    ensures
        strip_trailing_slashes(s) == s.subrange(0, e),
    decreases s.len(),
{
    if e == s.len() {
        assert(s.subrange(0, e) =~= s);
    } else {
        assert(s.last() == '/');
        let h = s.drop_last();
        assert(forall|q: int| e <= q < h.len() ==> h[q] == s[q] && s[q] == '/');
        lemma_strip_trailing(h, e);
        assert(h.subrange(0, e) =~= s.subrange(0, e));
    }
}

proof fn lemma_last_component_at(t: Seq<char>, b: int)
    requires
        0 <= b <= t.len(),
        forall|q: int| b <= q < t.len() ==> t[q] != '/',
        b > 0 ==> t[b - 1] == '/',
    ensures
        last_component(t) == t.subrange(b, t.len() as int),
    decreases t.len(),
{
    if b == t.len() {
        assert(t.subrange(b, t.len() as int) =~= Seq::empty());
        if t.len() > 0 {
            assert(t.last() == '/');
        }
    } else {
        assert(t.last() != '/');
        let h = t.drop_last();
        assert(forall|q: int| b <= q < h.len() ==> h[q] == t[q] && t[q] != '/');
        lemma_last_component_at(h, b);
        assert(h.subrange(b, h.len() as int).push(t.last()) =~= t.subrange(b, t.len() as int));
    }
}

/// The textual parent of a path: what precedes the final component, without
/// the separator between them (but a leading `/` alone is kept).
pub open spec fn parent_of(p: Seq<char>) -> Seq<char> {
    let q = strip_trailing_slashes(p);
    let b = q.len() - last_component(q).len();
    if b == 0 {
        Seq::empty()
    } else if b == 1 {
        q.subrange(0, 1)
    } else {
        q.subrange(0, b - 1)
    }
}

/// Returns the textual parent of a path: what precedes the final component,
/// without the separator between them (but a leading `/` alone is kept).
pub fn parent_dir(p: &str) -> (r: String)
    ensures
        r@ == parent_of(p@),
{
    let lp = p.unicode_len();
    let mut e = lp;
    while e > 0 && p.get_char(e - 1) == '/'
        invariant
            lp == p@.len(),
            0 <= e <= lp,
            forall|q: int| e <= q < lp ==> p@[q] == '/',
        decreases e,
    {
        e -= 1;
    }
    let mut b = e;
    while b > 0 && p.get_char(b - 1) != '/'
        invariant
            lp == p@.len(),
            0 <= b <= e <= lp,
            forall|q: int| b <= q < e ==> p@[q] != '/',
        decreases b,
    {
        b -= 1;
    }
    proof {
        lemma_strip_trailing(p@, e as int);
        let t = p@.subrange(0, e as int);
        assert(forall|q: int| b <= q < t.len() ==> t[q] == p@[q] && p@[q] != '/');
        lemma_last_component_at(t, b as int);
        assert(t.subrange(b as int, t.len() as int) =~= p@.subrange(b as int, e as int));
    }
    if b == 0 {
        String::new()
    } else if b == 1 {
        proof {
            assert(p@.subrange(0, e as int).subrange(0, 1) =~= p@.subrange(0, 1));
        }
        p.substring_char(0, 1).to_owned()
    } else {
        proof {
            assert(p@.subrange(0, e as int).subrange(0, b - 1) =~= p@.subrange(0, b - 1));
        }
        p.substring_char(0, b - 1).to_owned()
    }
}

/// Returns the final component of a path: what follows the last `/`
/// separator, after trailing separators are removed.
pub fn base_name(p: &str) -> (r: String)
    ensures
        r@ == base_name_of(p@),
{
    let lp = p.unicode_len();
    let mut e = lp;
    while e > 0 && p.get_char(e - 1) == '/'
        invariant
            lp == p@.len(),
            0 <= e <= lp,
            forall|q: int| e <= q < lp ==> p@[q] == '/',
        decreases e,
    {
        e -= 1;
    }
    let mut b = e;
    while b > 0 && p.get_char(b - 1) != '/'
        invariant
            lp == p@.len(),
            0 <= b <= e <= lp,
            forall|q: int| b <= q < e ==> p@[q] != '/',
        decreases b,
    {
        b -= 1;
    }
    proof {
        lemma_strip_trailing(p@, e as int);
        let t = p@.subrange(0, e as int);
        assert(forall|q: int| b <= q < t.len() ==> t[q] == p@[q] && p@[q] != '/');
        lemma_last_component_at(t, b as int);
        assert(t.subrange(b as int, t.len() as int) =~= p@.subrange(b as int, e as int));
    }
    p.substring_char(b, e).to_owned()
}

} // verus!
