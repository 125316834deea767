//! The secret scanner: finds credential-shaped key/value assignments in
//! configuration text, line by line.
//!
//! A line yields a candidate when it holds, at its leftmost possible
//! position, an optional `export` keyword followed by an identifier of
//! capital letters and underscores that contains a credential keyword, an
//! `=` sign, and a value that may be quoted. The candidate becomes a secret
//! when its key passes the allow/deny keyword test. Lines whose left-trimmed
//! text starts with `#` or `//` are comments and never yield a secret.

use vstd::prelude::*;

use crate::textfmt::{contains_seq, contains_str, dec_rep, ext_of, strs_view};

verus! {

/// A character an identifier may hold: a capital letter or an underscore.
pub open spec fn is_id_char(c: char) -> bool {
    c == '_' || (65 <= c as u32 && c as u32 <= 90)
}

/// A whitespace character (the Unicode white-space set, which left-trimming
/// and the space after `export` go by).
pub open spec fn is_space_char(c: char) -> bool {
    ||| (9 <= c as u32 && c as u32 <= 13)
    ||| c as u32 == 32
    ||| c as u32 == 0x85
    ||| c as u32 == 0xA0
    ||| c as u32 == 0x1680
    ||| (0x2000 <= c as u32 && c as u32 <= 0x200A)
    ||| c as u32 == 0x2028
    ||| c as u32 == 0x2029
    ||| c as u32 == 0x202F
    ||| c as u32 == 0x205F
    ||| c as u32 == 0x3000
}

/// A single or double quote.
pub open spec fn is_quote_char(c: char) -> bool {
    c == '\'' || c == '"'
}

/// A character a value may hold: anything but a quote or whitespace.
pub open spec fn is_value_char(c: char) -> bool {
    !is_quote_char(c) && !is_space_char(c)
}

/// The end of the run of identifier characters that starts at `j`.
pub open spec fn id_run_end(s: Seq<char>, j: int) -> int
    decreases s.len() - j
        when 0 <= j <= s.len()
{
    if j < s.len() && is_id_char(s[j]) {
        id_run_end(s, j + 1)
    } else {
        j
    }
}

/// The end of the run of whitespace characters that starts at `j`.
pub open spec fn space_run_end(s: Seq<char>, j: int) -> int
    decreases s.len() - j
        when 0 <= j <= s.len()
{
    if j < s.len() && is_space_char(s[j]) {
        space_run_end(s, j + 1)
    } else {
        j
    }
}

/// The end of the run of value characters that starts at `j`.
pub open spec fn value_run_end(s: Seq<char>, j: int) -> int
    decreases s.len() - j
        when 0 <= j <= s.len()
{
    if j < s.len() && is_value_char(s[j]) {
        value_run_end(s, j + 1)
    } else {
        j
    }
}

/// A candidate key holds one of the credential keywords.
pub open spec fn has_keyword(key: Seq<char>) -> bool {
    ||| contains_seq(key, "TOKEN"@)
    ||| contains_seq(key, "KEY"@)
    ||| contains_seq(key, "SECRET"@)
    ||| contains_seq(key, "PASSWORD"@)
    ||| contains_seq(key, "PASS"@)
    ||| contains_seq(key, "AUTH"@)
}

/// The value captured from position `p` on: an optionally quoted, non-empty
/// run of value characters. `None` when no value starts there.
pub open spec fn value_at(s: Seq<char>, p: int) -> Option<Seq<char>>
    recommends
        0 <= p,
{
    if p < s.len() && is_quote_char(s[p]) {
        if p + 1 < s.len() && is_value_char(s[p + 1]) {
            Some(s.subrange(p + 1, value_run_end(s, p + 1)))
        } else {
            None
        }
    } else if p < s.len() && is_value_char(s[p]) {
        Some(s.subrange(p, value_run_end(s, p)))
    } else {
        None
    }
}

/// The key/value pair captured when an assignment starts at `j`: a non-empty
/// identifier run holding a credential keyword, then `=`, then a value.
pub open spec fn key_value_at(s: Seq<char>, j: int) -> Option<(Seq<char>, Seq<char>)>
    recommends
        0 <= j <= s.len(),
{
    let e = id_run_end(s, j);
    if 0 <= j && e < s.len() && s[e] == '=' && has_keyword(s.subrange(j, e)) {
        match value_at(s, e + 1) {
            Some(v) => Some((s.subrange(j, e), v)),
            None => None,
        }
    } else {
        None
    }
}

/// The word `export` followed by a whitespace character stands at `i`.
pub open spec fn export_at(s: Seq<char>, i: int) -> bool {
    0 <= i && i + 7 <= s.len() && s.subrange(i, i + 6) == "export"@ && is_space_char(s[i + 6])
}

/// The key/value pair captured by a match attempt at position `i`: the
/// assignment may be preceded by `export` and whitespace.
pub open spec fn match_at(s: Seq<char>, i: int) -> Option<(Seq<char>, Seq<char>)>
    recommends
        0 <= i <= s.len(),
{
    if export_at(s, i) {
        key_value_at(s, space_run_end(s, i + 6))
    } else {
        key_value_at(s, i)
    }
}

/// The leftmost match at or after position `i`.
pub open spec fn match_from(s: Seq<char>, i: int) -> Option<(Seq<char>, Seq<char>)>
    decreases s.len() - i
        when 0 <= i <= s.len()
{
    if i >= s.len() {
        None
    } else {
        match match_at(s, i) {
            Some(kv) => Some(kv),
            None => match_from(s, i + 1),
        }
    }
}

/// The leftmost key/value assignment captured in the line, if any.
pub open spec fn first_match(s: Seq<char>) -> Option<(Seq<char>, Seq<char>)> {
    match_from(s, 0)
}

/// The line's left-trimmed text starts with `#` or `//`.
pub open spec fn is_comment_line(s: Seq<char>) -> bool {
    let t = space_run_end(s, 0);
    (t < s.len() && s[t] == '#') || (t + 2 <= s.len() && s[t] == '/' && s[t + 1] == '/')
}

/// The capital form of an ASCII character; every other character is kept.
pub open spec fn upper_char(c: char) -> char {
    if 97 <= c as u32 && c as u32 <= 122 {
        (((c as u32) - 32) as u8) as char
    } else {
        c
    }
}

/// The text with each ASCII letter capitalised.
pub open spec fn upper_seq(s: Seq<char>) -> Seq<char> {
    s.map_values(|c: char| upper_char(c))
}

/// The capitalised key holds a credential keyword.
pub open spec fn has_allow_keyword(key: Seq<char>) -> bool {
    has_keyword(upper_seq(key))
}

/// The capitalised key holds a substring that marks a non-secret.
pub open spec fn has_deny_keyword(key: Seq<char>) -> bool {
    ||| contains_seq(upper_seq(key), "PUBLIC_KEY"@)
    ||| contains_seq(upper_seq(key), "SSH_KEY_PATH"@)
    ||| contains_seq(upper_seq(key), "KEY_FILE"@)
    ||| contains_seq(upper_seq(key), "KEYMAP"@)
}

/// A key names a likely secret: it holds a credential keyword and none of
/// the deny substrings. Both tests are substring tests on the capitalised
/// key, and the deny test wins unconditionally.
pub open spec fn likely_secret(key: Seq<char>) -> bool {
    has_allow_keyword(key) && !has_deny_keyword(key)
}

/// The secret a line yields, if any: no comment line yields one; any other
/// line yields its leftmost captured assignment, provided the key is a
/// likely secret.
pub open spec fn line_secret(s: Seq<char>) -> Option<(Seq<char>, Seq<char>)> {
    if is_comment_line(s) {
        None
    } else {
        match first_match(s) {
            Some((k, v)) => if likely_secret(k) {
                Some((k, v))
            } else {
                None
            },
            None => None,
        }
    }
}

/// A comment line never yields a secret, whatever assignment it holds.
pub proof fn lemma_comment_suppression(s: Seq<char>)
    requires
        is_comment_line(s),
    ensures
        line_secret(s) is None,
{
}

fn id_char(c: char) -> (r: bool)
    ensures
        r == is_id_char(c),
{
    let u = c as u32;
    c == '_' || (65 <= u && u <= 90)
}

fn space_char(c: char) -> (r: bool)
    ensures
        r == is_space_char(c),
{
    let u = c as u32;
    (9 <= u && u <= 13) || u == 32 || u == 0x85 || u == 0xA0 || u == 0x1680 || (0x2000 <= u && u
        <= 0x200A) || u == 0x2028 || u == 0x2029 || u == 0x202F || u == 0x205F || u == 0x3000
}

fn value_char(c: char) -> (r: bool)
    ensures
        r == is_value_char(c),
{
    let u = c as u32;
    !(c == '\'' || c == '"') && !space_char(c)
}

fn id_run_end_exec(s: &str, j: usize, ls: usize) -> (r: usize)
    requires
        ls == s@.len(),
        j <= ls,
    ensures
        r == id_run_end(s@, j as int),
        j <= r <= ls,
{
    let mut k = j;
    while k < ls && id_char(s.get_char(k))
        invariant
            ls == s@.len(),
            j <= k <= ls,
            id_run_end(s@, j as int) == id_run_end(s@, k as int),
        decreases ls - k,
    {
        k += 1;
    }
    k
}

pub fn space_run_end_exec(s: &str, j: usize, ls: usize) -> (r: usize)
    requires
        ls == s@.len(),
        j <= ls,
    ensures
        r == space_run_end(s@, j as int),
        j <= r <= ls,
{
    let mut k = j;
    while k < ls && space_char(s.get_char(k))
        invariant
            ls == s@.len(),
            j <= k <= ls,
            space_run_end(s@, j as int) == space_run_end(s@, k as int),
        decreases ls - k,
    {
        k += 1;
    }
    k
}

fn value_run_end_exec(s: &str, j: usize, ls: usize) -> (r: usize)
    requires
        ls == s@.len(),
        j <= ls,
    ensures
        r == value_run_end(s@, j as int),
        j <= r <= ls,
{
    let mut k = j;
    while k < ls && value_char(s.get_char(k))
        invariant
            ls == s@.len(),
            j <= k <= ls,
            value_run_end(s@, j as int) == value_run_end(s@, k as int),
        decreases ls - k,
    {
        k += 1;
    }
    k
}

fn has_keyword_exec(key: &str) -> (r: bool)
    ensures
        r == has_keyword(key@),
{
    contains_str(key, "TOKEN") || contains_str(key, "KEY") || contains_str(key, "SECRET")
        || contains_str(key, "PASSWORD") || contains_str(key, "PASS") || contains_str(
        key,
        "AUTH",
    )
}

fn value_at_exec(s: &str, p: usize, ls: usize) -> (r: Option<String>)
    requires
        ls == s@.len(),
        p <= ls,
    ensures
        match r {
            Some(v) => value_at(s@, p as int) == Some(v@),
            None => value_at(s@, p as int) is None,
        },
{
    if p < ls {
        let c = s.get_char(p);
        if !value_char(c) && (c == '\'' || c == '"') {
            if p + 1 < ls && value_char(s.get_char(p + 1)) {
                let e = value_run_end_exec(s, p + 1, ls);
                Some(s.substring_char(p + 1, e).to_owned())
            } else {
                None
            }
        } else if value_char(c) {
            let e = value_run_end_exec(s, p, ls);
            Some(s.substring_char(p, e).to_owned())
        } else {
            None
        }
    } else {
        None
    }
}

fn key_value_at_exec(s: &str, j: usize, ls: usize) -> (r: Option<(String, String)>)
    requires
        ls == s@.len(),
        j <= ls,
    ensures
        match r {
            Some(kv) => key_value_at(s@, j as int) == Some((kv.0@, kv.1@)),
            None => key_value_at(s@, j as int) is None,
        },
{
    let e = id_run_end_exec(s, j, ls);
    if e < ls && s.get_char(e) == '=' {
        let key = s.substring_char(j, e);
        if has_keyword_exec(key) {
            match value_at_exec(s, e + 1, ls) {
                Some(v) => Some((key.to_owned(), v)),
                None => None,
            }
        } else {
            None
        }
    } else {
        None
    }
}

fn export_at_exec(s: &str, i: usize, ls: usize) -> (r: bool)
    requires
        ls == s@.len(),
        i <= ls,
    ensures
        r == export_at(s@, i as int),
{
    proof {
        reveal_strlit("export");
    }
    if ls >= 7 && i <= ls - 7 {
        let r = s.get_char(i) == 'e' && s.get_char(i + 1) == 'x' && s.get_char(i + 2) == 'p'
            && s.get_char(i + 3) == 'o' && s.get_char(i + 4) == 'r' && s.get_char(i + 5) == 't'
            && space_char(s.get_char(i + 6));
        proof {
            if r {
                assert(s@.subrange(i as int, i + 6) =~= "export"@);
            } else {
                if s@.subrange(i as int, i + 6) == "export"@ {
                    assert(s@[i as int] == s@.subrange(i as int, i + 6)[0]);
                    assert(s@[i + 1] == s@.subrange(i as int, i + 6)[1]);
                    assert(s@[i + 2] == s@.subrange(i as int, i + 6)[2]);
                    assert(s@[i + 3] == s@.subrange(i as int, i + 6)[3]);
                    assert(s@[i + 4] == s@.subrange(i as int, i + 6)[4]);
                    assert(s@[i + 5] == s@.subrange(i as int, i + 6)[5]);
                }
            }
        }
        r
    } else {
        false
    }
}

fn match_at_exec(s: &str, i: usize, ls: usize) -> (r: Option<(String, String)>)
    requires
        ls == s@.len(),
        i <= ls,
    ensures
        match r {
            Some(kv) => match_at(s@, i as int) == Some((kv.0@, kv.1@)),
            None => match_at(s@, i as int) is None,
        },
{
    if export_at_exec(s, i, ls) {
        let j = space_run_end_exec(s, i + 6, ls);
        key_value_at_exec(s, j, ls)
    } else {
        key_value_at_exec(s, i, ls)
    }
}

/// Finds the leftmost captured assignment in one line.
pub fn line_match(s: &str) -> (r: Option<(String, String)>)
    ensures
        match r {
            Some(kv) => first_match(s@) == Some((kv.0@, kv.1@)),
            None => first_match(s@) is None,
        },
{
    let ls = s.unicode_len();
    let mut i: usize = 0;
    while i < ls
        invariant
            ls == s@.len(),
            0 <= i <= ls,
            match_from(s@, 0) == match_from(s@, i as int),
        decreases ls - i,
    {
        let m = match_at_exec(s, i, ls);
        if m.is_some() {
            return m;
        }
        i += 1;
    }
    None
}

fn is_comment_exec(s: &str, ls: usize) -> (r: bool)
    requires
        ls == s@.len(),
    ensures
        r == is_comment_line(s@),
{
    let t = space_run_end_exec(s, 0, ls);
    (t < ls && s.get_char(t) == '#') || (ls >= 2 && t <= ls - 2 && s.get_char(t) == '/'
        && s.get_char(t + 1) == '/')
}

fn upper_char_exec(c: char) -> (r: char)
    ensures
        r == upper_char(c),
{
    let u = c as u32;
    if 97 <= u && u <= 122 {
        ((u - 32) as u8) as char
    } else {
        c
    }
}

/// Tests whether `needle` (which holds no small letters) occurs in the
/// capitalised form of `hay`.
fn contains_upper_at(hay: &str, needle: &str, k: usize) -> (r: bool)
    requires
        k + needle@.len() <= hay@.len(),
    ensures
        r == crate::textfmt::contains_at(upper_seq(hay@), needle@, k as int),
{
    let lh = hay.unicode_len();
    let ln = needle.unicode_len();
    let mut j: usize = 0;
    while j < ln
        invariant
            lh == hay@.len(),
            ln == needle@.len(),
            k + ln <= lh,
            0 <= j <= ln,
            forall|q: int| 0 <= q < j ==> upper_seq(hay@)[k + q] == needle@[q],
        decreases ln - j,
    {
        if upper_char_exec(hay.get_char(k + j)) != needle.get_char(j) {
            proof {
                assert(upper_seq(hay@).subrange(k as int, k + ln)[j as int] == upper_seq(
                    hay@,
                )[k + j]);
            }
            return false;
        }
        j += 1;
    }
    proof {
        assert(upper_seq(hay@).subrange(k as int, k + ln) =~= needle@);
    }
    true
}

/// Tests whether `needle` occurs in the capitalised form of `hay`.
fn contains_upper(hay: &str, needle: &str) -> (r: bool)
    ensures
        r == contains_seq(upper_seq(hay@), needle@),
{
    let lh = hay.unicode_len();
    let ln = needle.unicode_len();
    if ln > lh {
        return false;
    }
    if ln == 0 {
        proof {
            assert(upper_seq(hay@).subrange(0, 0) =~= needle@);
            assert(crate::textfmt::contains_at(upper_seq(hay@), needle@, 0));
        }
        return true;
    }
    let mut k: usize = 0;
    while k <= lh - ln
        invariant
            lh == hay@.len(),
            ln == needle@.len(),
            1 <= ln <= lh,
            0 <= k <= lh - ln + 1,
            forall|q: int| 0 <= q < k ==> !crate::textfmt::contains_at(upper_seq(hay@), needle@, q),
        decreases lh - ln - k + 1,
    {
        if contains_upper_at(hay, needle, k) {
            return true;
        }
        k += 1;
    }
    proof {
        assert forall|q: int| !crate::textfmt::contains_at(upper_seq(hay@), needle@, q) by {
            if 0 <= q && q + needle@.len() <= upper_seq(hay@).len() {
                assert(q < k);
            }
        }
    }
    false
}

/// Determines if a key name is likely to be a secret: its capitalised form
/// must hold one of the credential keywords and none of the deny substrings.
pub fn is_likely_secret(key: &str) -> (r: bool)
    ensures
        r == likely_secret(key@),
{
    let has_allow = contains_upper(key, "TOKEN") || contains_upper(key, "KEY") || contains_upper(
        key,
        "SECRET",
    ) || contains_upper(key, "PASSWORD") || contains_upper(key, "PASS") || contains_upper(
        key,
        "AUTH",
    );
    if !has_allow {
        return false;
    }
    let has_deny = contains_upper(key, "PUBLIC_KEY") || contains_upper(key, "SSH_KEY_PATH")
        || contains_upper(key, "KEY_FILE") || contains_upper(key, "KEYMAP");
    !has_deny
}

/// A key holding a deny substring is never a likely secret, even when it
/// also holds a credential keyword.
pub proof fn lemma_deny_wins(key: Seq<char>)
    requires
        has_deny_keyword(key),
    ensures
        !likely_secret(key),
{
}

/// A credential-shaped key/value pair found in a configuration file.
#[derive(Debug, Clone, PartialEq)]
pub struct Secret {
    /// The assigned identifier.
    pub key: String,
    /// The assigned value, without quotes.
    pub value: String,
    /// The name of the file the assignment was found in.
    pub file: String,
    /// The 1-indexed line the assignment was found on.
    pub line_number: usize,
}

/// The mathematical shape of a found secret.
pub struct SpecSecret {
    /// The assigned identifier.
    pub key: Seq<char>,
    /// The assigned value.
    pub value: Seq<char>,
    /// The name of the file it was found in.
    pub file: Seq<char>,
    /// The 1-indexed line it was found on.
    pub line_number: nat,
}

/// The mathematical shape of one found secret.
pub open spec fn secret_view(s: Secret) -> SpecSecret {
    SpecSecret { key: s.key@, value: s.value@, file: s.file@, line_number: s.line_number as nat }
}

/// The mathematical shape of a sequence of found secrets.
pub open spec fn secrets_view(s: Seq<Secret>) -> Seq<SpecSecret> {
    s.map_values(|x: Secret| secret_view(x))
}

/// The position of the first line feed of `s`, or its length if none.
pub open spec fn line_break(s: Seq<char>) -> nat
    decreases s.len(),
{
    if s.len() == 0 {
        0
    } else if s[0] == '\n' {
        0
    } else {
        1 + line_break(s.drop_first())
    }
}

/// The text with one trailing carriage return removed.
pub open spec fn strip_cr(t: Seq<char>) -> Seq<char> {
    if t.len() > 0 && t.last() == '\r' {
        t.drop_last()
    } else {
        t
    }
}

/// The lines of a text: split at line feeds, with a carriage return before a
/// line feed removed; a final line ending is optional.
pub open spec fn spec_lines(s: Seq<char>) -> Seq<Seq<char>>
    decreases s.len(),
{
    if s.len() == 0 {
        Seq::empty()
    } else {
        let nl = line_break(s) as int;
        if nl >= s.len() {
            seq![s]
        } else {
            seq![strip_cr(s.subrange(0, nl))] + spec_lines(s.subrange(nl + 1, s.len() as int))
        }
    }
}

proof fn lemma_line_break_at(s: Seq<char>, k: int)
    requires
        0 <= k <= s.len(),
        forall|q: int| 0 <= q < k ==> s[q] != '\n',
        k < s.len() ==> s[k] == '\n',
    ensures
        line_break(s) == k,
    decreases k,
{
    if s.len() == 0 {
    } else if k == 0 {
    } else {
        let t = s.drop_first();
        assert(forall|q: int| 0 <= q < k - 1 ==> t[q] == s[q + 1] && s[q + 1] != '\n');
        assert(k - 1 < t.len() ==> t[k - 1] == s[k]);
        lemma_line_break_at(t, k - 1);
    }
}

/// Splits a text into its lines.
pub fn split_lines(content: &str) -> (r: Vec<String>)
    ensures
        strs_view(r@) == spec_lines(content@),
{
    let lc = content.unicode_len();
    let mut out: Vec<String> = Vec::new();
    let mut pos: usize = 0;
    proof {
        assert(content@.subrange(0, lc as int) =~= content@);
        assert(strs_view(out@) + spec_lines(content@) =~= spec_lines(content@));
    }
    while pos < lc
        invariant
            lc == content@.len(),
            0 <= pos <= lc,
            spec_lines(content@) == strs_view(out@) + spec_lines(
                content@.subrange(pos as int, lc as int),
            ),
        decreases lc - pos,
    {
        let ghost prev = out@;
        let ghost suffix = content@.subrange(pos as int, lc as int);
        let mut k = pos;
        while k < lc && content.get_char(k) != '\n'
            invariant
                lc == content@.len(),
                pos <= k <= lc,
                forall|q: int| pos <= q < k ==> content@[q] != '\n',
            decreases lc - k,
        {
            k += 1;
        }
        proof {
            assert(forall|q: int|
                0 <= q < k - pos ==> suffix[q] == content@[pos + q] && content@[pos + q] != '\n');
            if k < lc {
                assert(suffix[k - pos] == content@[k as int]);
            }
            lemma_line_break_at(suffix, k - pos);
        }
        let line = if k < lc && k > pos && content.get_char(k - 1) == '\r' {
            content.substring_char(pos, k - 1)
        } else {
            content.substring_char(pos, k)
        };
        out.push(line.to_owned());
        proof {
            assert(strs_view(out@) =~= strs_view(prev) + seq![line@]);
            if k < lc {
                let seg = suffix.subrange(0, k - pos);
                assert(seg =~= content@.subrange(pos as int, k as int));
                if k > pos && content@[k - 1] == '\r' {
                    assert(seg.last() == content@[k - 1]);
                    assert(seg.drop_last() =~= content@.subrange(pos as int, k - 1));
                    assert(line@ == strip_cr(seg));
                } else {
                    assert(line@ == strip_cr(seg));
                }
                assert(suffix.subrange(k - pos + 1, suffix.len() as int) =~= content@.subrange(
                    k + 1,
                    lc as int,
                ));
                assert(spec_lines(suffix) == seq![strip_cr(seg)] + spec_lines(
                    content@.subrange(k + 1, lc as int),
                ));
                assert(strs_view(out@) + spec_lines(content@.subrange(k + 1, lc as int))
                    =~= strs_view(prev) + spec_lines(suffix));
            } else {
                assert(spec_lines(suffix) == seq![suffix]);
                assert(line@ == suffix);
                assert(spec_lines(content@.subrange(lc as int, lc as int)) == Seq::<
                    Seq<char>,
                >::empty());
                assert(strs_view(out@) + spec_lines(content@.subrange(lc as int, lc as int))
                    =~= strs_view(prev) + spec_lines(suffix));
            }
        }
        pos = if k < lc {
            k + 1
        } else {
            lc
        };
    }
    proof {
        assert(spec_lines(content@.subrange(lc as int, lc as int)) == Seq::<Seq<char>>::empty());
        assert(strs_view(out@) + Seq::<Seq<char>>::empty() =~= strs_view(out@));
    }
    out
}

/// The secrets a sequence of lines yields, in line order, with 1-indexed
/// line numbers.
pub open spec fn scan_lines(ls: Seq<Seq<char>>, file: Seq<char>) -> Seq<SpecSecret>
    decreases ls.len(),
{
    if ls.len() == 0 {
        Seq::empty()
    } else {
        scan_lines(ls.drop_last(), file) + match line_secret(ls.last()) {
            Some(kv) => seq![
                SpecSecret {
                    key: kv.0,
                    value: kv.1,
                    file: file,
                    line_number: ls.len(),
                },
            ],
            None => Seq::empty(),
        }
    }
}

/// Scans a configuration text for secrets, line by line; `file_name` is
/// recorded in each found secret.
pub fn scan_content(content: &str, file_name: &str) -> (r: Vec<Secret>)
    ensures
        secrets_view(r@) == scan_lines(spec_lines(content@), file_name@),
{
    let lines = split_lines(content);
    let n = lines.len();
    let mut out: Vec<Secret> = Vec::new();
    let mut i: usize = 0;
    proof {
        assert(strs_view(lines@).take(0) =~= Seq::<Seq<char>>::empty());
        assert(secrets_view(out@) =~= scan_lines(strs_view(lines@).take(0), file_name@));
    }
    while i < n
        invariant
            n == lines@.len(),
            0 <= i <= n,
            strs_view(lines@) == spec_lines(content@),
            secrets_view(out@) == scan_lines(strs_view(lines@).take(i as int), file_name@),
        decreases n - i,
    {
        let ghost prev = out@;
        match scan_line(lines[i].as_str()) {
            Some((k, v)) => {
                out.push(Secret {
                    key: k,
                    value: v,
                    file: file_name.to_owned(),
                    line_number: i + 1,
                });
            },
            None => {},
        }
        proof {
            let t1 = strs_view(lines@).take(i + 1);
            assert(t1.drop_last() =~= strs_view(lines@).take(i as int));
            assert(t1.last() == strs_view(lines@)[i as int]);
            assert(strs_view(lines@)[i as int] == lines@[i as int]@);
            match line_secret(lines@[i as int]@) {
                Some(kv) => {
                    assert(secrets_view(out@) =~= secrets_view(prev) + seq![
                        SpecSecret {
                            key: kv.0,
                            value: kv.1,
                            file: file_name@,
                            line_number: (i + 1) as nat,
                        },
                    ]);
                },
                None => {
                    assert(secrets_view(out@) =~= secrets_view(prev));
                },
            }
            assert(secrets_view(out@) =~= scan_lines(t1, file_name@));
        }
        i += 1;
    }
    proof {
        assert(strs_view(lines@).take(n as int) =~= strs_view(lines@));
    }
    out
}

/// A file is scanned when its extension is one of the configuration
/// extensions, or when it has no extension and its name starts with a dot.
pub open spec fn spec_should_scan(name: Seq<char>) -> bool {
    match ext_of(name) {
        Some(e) => {
            ||| e == "sh"@
            ||| e == "bash"@
            ||| e == "zsh"@
            ||| e == "fish"@
            ||| e == "rc"@
            ||| e == "conf"@
            ||| e == "config"@
            ||| e == "toml"@
            ||| e == "yaml"@
            ||| e == "yml"@
            ||| e == "json"@
            ||| e == "env"@
        },
        None => name.len() > 0 && name[0] == '.',
    }
}

/// Decides whether a directory scan reads the file of this name.
pub fn should_scan_file(name: &str) -> (r: bool)
    ensures
        r == spec_should_scan(name@),
{
    match crate::textfmt::extension_of(name) {
        Some(e) => {
            let e = e.as_str();
            crate::textfmt::str_eq(e, "sh") || crate::textfmt::str_eq(e, "bash")
                || crate::textfmt::str_eq(e, "zsh") || crate::textfmt::str_eq(e, "fish")
                || crate::textfmt::str_eq(e, "rc") || crate::textfmt::str_eq(e, "conf")
                || crate::textfmt::str_eq(e, "config") || crate::textfmt::str_eq(e, "toml")
                || crate::textfmt::str_eq(e, "yaml") || crate::textfmt::str_eq(e, "yml")
                || crate::textfmt::str_eq(e, "json") || crate::textfmt::str_eq(e, "env")
        },
        None => {
            if name.unicode_len() > 0 {
                name.get_char(0) == '.'
            } else {
                false
            }
        },
    }
}

/// A key of `s` was already assigned at an earlier position than `i`.
pub open spec fn key_seen_before(s: Seq<SpecSecret>, i: int) -> bool {
    exists|j: int| 0 <= j < i && s[j].key == s[i].key
}

/// The secrets of `s` with later duplicate keys removed: of each key, the
/// first occurrence wins.
pub open spec fn dedup_keys(s: Seq<SpecSecret>) -> Seq<SpecSecret>
    decreases s.len(),
{
    if s.len() == 0 {
        Seq::empty()
    } else {
        dedup_keys(s.drop_last()) + if key_seen_before(s, s.len() - 1) {
            Seq::empty()
        } else {
            seq![s.last()]
        }
    }
}

/// A key occurs in `s` exactly when it occurs among the retained secrets.
proof fn lemma_dedup_keys_complete(s: Seq<SpecSecret>, k: Seq<char>)
    ensures
        (exists|j: int| 0 <= j < s.len() && s[j].key == k) <==> (exists|m: int|
            0 <= m < dedup_keys(s).len() && dedup_keys(s)[m].key == k),
    decreases s.len(),
{
    if s.len() > 0 {
        let h = s.drop_last();
        lemma_dedup_keys_complete(h, k);
        let d = dedup_keys(s);
        let dh = dedup_keys(h);
        if exists|j: int| 0 <= j < s.len() && s[j].key == k {
            let j = choose|j: int| 0 <= j < s.len() && s[j].key == k;
            if j < s.len() - 1 {
                assert(h[j].key == k);
                let m = choose|m: int| 0 <= m < dh.len() && dh[m].key == k;
                assert(d[m].key == k);
            } else {
                if key_seen_before(s, s.len() - 1) {
                    let j2 = choose|j2: int|
                        0 <= j2 < s.len() - 1 && #[trigger] s[j2].key == s[s.len() - 1].key;
                    assert(h[j2].key == k);
                    let m = choose|m: int| 0 <= m < dh.len() && dh[m].key == k;
                    assert(d[m].key == k);
                } else {
                    assert(d[d.len() - 1].key == k);
                }
            }
        }
        if exists|m: int| 0 <= m < d.len() && d[m].key == k {
            let m = choose|m: int| 0 <= m < d.len() && d[m].key == k;
            if m < dh.len() {
                assert(dh[m].key == k);
                let j = choose|j: int| 0 <= j < h.len() && h[j].key == k;
                assert(s[j].key == k);
            } else {
                assert(s[s.len() - 1].key == k);
            }
        }
    }
}

/// A prefix of `s` sees the same earlier keys as `s` itself.
proof fn lemma_key_seen_prefix(s: Seq<SpecSecret>, j: int)
    requires
        0 <= j < s.len() - 1,
    ensures
        key_seen_before(s.drop_last(), j) == key_seen_before(s, j),
{
    let h = s.drop_last();
    assert(forall|q: int| 0 <= q <= j ==> h[q] == s[q]);
    if key_seen_before(h, j) {
        let q = choose|q: int| 0 <= q < j && h[q].key == h[j].key;
        assert(s[q].key == s[j].key);
    }
    if key_seen_before(s, j) {
        let q = choose|q: int| 0 <= q < j && s[q].key == s[j].key;
        assert(h[q].key == h[j].key);
    }
}

/// Every retained secret is an original secret whose key was never
/// assigned earlier.
proof fn lemma_dedup_elements_first(s: Seq<SpecSecret>)
    ensures
        forall|m: int| 0 <= m < dedup_keys(s).len() ==> exists|j: int|
            0 <= j < s.len() && #[trigger] dedup_keys(s)[m] == s[j] && !key_seen_before(s, j),
    decreases s.len(),
{
    if s.len() > 0 {
        let h = s.drop_last();
        lemma_dedup_elements_first(h);
        let d = dedup_keys(s);
        let dh = dedup_keys(h);
        assert forall|m: int| 0 <= m < d.len() implies exists|j: int|
            0 <= j < s.len() && #[trigger] d[m] == s[j] && !key_seen_before(s, j) by {
            if m < dh.len() {
                assert(d[m] == dh[m]);
                let j = choose|j: int|
                    0 <= j < h.len() && #[trigger] dh[m] == h[j] && !key_seen_before(h, j);
                lemma_key_seen_prefix(s, j);
                assert(d[m] == s[j] && !key_seen_before(s, j));
            } else {
                assert(!key_seen_before(s, s.len() - 1));
                assert(d[m] == s[s.len() - 1]);
            }
        }
    }
}

/// Every key that occurs keeps a representative among the retained secrets.
proof fn lemma_dedup_keys_kept(s: Seq<SpecSecret>)
    ensures
        forall|j: int| 0 <= j < s.len() ==> exists|m: int|
            0 <= m < dedup_keys(s).len() && dedup_keys(s)[m].key == #[trigger] s[j].key,
    decreases s.len(),
{
    if s.len() > 0 {
        let h = s.drop_last();
        lemma_dedup_keys_kept(h);
        let d = dedup_keys(s);
        let dh = dedup_keys(h);
        assert forall|j: int| 0 <= j < s.len() implies exists|m: int|
            0 <= m < d.len() && d[m].key == #[trigger] s[j].key by {
            if j < s.len() - 1 {
                assert(h[j].key == s[j].key);
                let m = choose|m: int| 0 <= m < dh.len() && #[trigger] dh[m].key == h[j].key;
                assert(d[m].key == s[j].key);
            } else {
                if key_seen_before(s, j) {
                    let q = choose|q: int|
                        0 <= q < j && #[trigger] s[q].key == s[s.len() - 1].key;
                    assert(h[q].key == s[j].key);
                    let m = choose|m: int| 0 <= m < dh.len() && #[trigger] dh[m].key == h[q].key;
                    assert(d[m].key == s[j].key);
                } else {
                    assert(d[d.len() - 1].key == s[j].key);
                }
            }
        }
    }
}

/// Some retained secret carries the key `k`.
pub open spec fn key_kept(s: Seq<SpecSecret>, k: Seq<char>) -> bool {
    exists|m: int| 0 <= m < dedup_keys(s).len() && #[trigger] dedup_keys(s)[m].key == k
}

/// First occurrence wins: every retained secret is an original secret whose
/// key was never assigned earlier, and every key keeps a representative.
pub proof fn lemma_dedup_first_wins(s: Seq<SpecSecret>)
    ensures
        forall|m: int| 0 <= m < dedup_keys(s).len() ==> exists|j: int|
            0 <= j < s.len() && #[trigger] dedup_keys(s)[m] == s[j] && !key_seen_before(s, j),
        forall|j: int| 0 <= j < s.len() ==> #[trigger] key_kept(s, s[j].key),
{
    lemma_dedup_elements_first(s);
    assert forall|j: int| 0 <= j < s.len() implies #[trigger] key_kept(s, s[j].key) by {
        lemma_dedup_keys_complete(s, s[j].key);
        assert(exists|j2: int| 0 <= j2 < s.len() && s[j2].key == s[j].key) by {
            assert(0 <= j < s.len() && s[j].key == s[j].key);
        }
    }
}

/// The comment block that opens an extracted-secrets file.
pub open spec fn env_header() -> Seq<char> {
    "# Extracted secrets - DO NOT COMMIT THIS FILE\n# Add this file to .gitignore\n\n"@
}

/// One `KEY=value` line per secret, in order.
pub open spec fn env_lines(s: Seq<SpecSecret>) -> Seq<char>
    decreases s.len(),
{
    if s.len() == 0 {
        Seq::empty()
    } else {
        env_lines(s.drop_last()) + s.last().key + "="@ + s.last().value + "\n"@
    }
}

/// Renders the extracted-secrets file: a header comment block, then one
/// `KEY=value` line per secret, deduplicated by key with the first
/// occurrence winning.
pub fn extract_to_env_content(secrets: &Vec<Secret>) -> (r: String)
    ensures
        r@ == env_header() + env_lines(dedup_keys(secrets_view(secrets@))),
{
    let ghost sv = secrets_view(secrets@);
    let mut out = String::from_str(
        "# Extracted secrets - DO NOT COMMIT THIS FILE\n# Add this file to .gitignore\n\n",
    );
    let mut seen: Vec<String> = Vec::new();
    let n = secrets.len();
    let mut i: usize = 0;
    proof {
        assert(sv.take(0) =~= Seq::empty());
        assert(out@ =~= env_header() + env_lines(dedup_keys(sv.take(0))));
        assert(strs_view(seen@) =~= dedup_keys(sv.take(0)).map_values(
            |x: SpecSecret| x.key,
        ));
    }
    while i < n
        invariant
            n == secrets@.len(),
            sv == secrets_view(secrets@),
            0 <= i <= n,
            out@ == env_header() + env_lines(dedup_keys(sv.take(i as int))),
            strs_view(seen@) == dedup_keys(sv.take(i as int)).map_values(
                |x: SpecSecret| x.key,
            ),
        decreases n - i,
    {
        let ghost prev_out = out@;
        let ghost prev_seen = seen@;
        let ghost t0 = sv.take(i as int);
        let ghost t1 = sv.take(i + 1);
        proof {
            assert(t1.drop_last() =~= t0);
            assert(t1.last() == sv[i as int]);
            assert(sv[i as int] == secret_view(secrets@[i as int]));
        }
        let sec = &secrets[i];
        let ghost keyv = sec.key@;
        let fresh = !crate::textfmt::mem_str(&seen, sec.key.as_str());
        proof {
            let d0 = dedup_keys(t0);
            let km = d0.map_values(|x: SpecSecret| x.key);
            lemma_dedup_keys_complete(t0, keyv);
            if strs_view(prev_seen).contains(keyv) {
                let m = choose|m: int|
                    0 <= m < strs_view(prev_seen).len() && strs_view(prev_seen)[m] == keyv;
                assert(km[m] == keyv);
                assert(d0[m].key == keyv);
                let j = choose|j: int| 0 <= j < t0.len() && #[trigger] t0[j].key == keyv;
                assert(t1[j].key == t1[i as int].key);
                assert(key_seen_before(t1, i as int));
            } else {
                if key_seen_before(t1, i as int) {
                    let j = choose|j: int| 0 <= j < i && #[trigger] t1[j].key == t1[i as int].key;
                    assert(t0[j].key == keyv);
                    let m = choose|m: int| 0 <= m < d0.len() && #[trigger] d0[m].key == keyv;
                    assert(km[m] == keyv);
                    assert(strs_view(prev_seen)[m] == keyv);
                    assert(false);
                }
            }
            assert(fresh == !key_seen_before(t1, i as int));
        }
        if fresh {
            out.append(sec.key.as_str());
            out.append("=");
            out.append(sec.value.as_str());
            out.append("\n");
            seen.push(sec.key.clone());
            proof {
                assert(dedup_keys(t1) =~= dedup_keys(t0) + seq![t1.last()]);
                assert(env_lines(dedup_keys(t1)) =~= env_lines(dedup_keys(t0)) + t1.last().key
                    + "="@ + t1.last().value + "\n"@) by {
                    assert((dedup_keys(t0) + seq![t1.last()]).drop_last() =~= dedup_keys(t0));
                }
                assert(out@ =~= env_header() + env_lines(dedup_keys(t1)));
                assert(strs_view(seen@) =~= strs_view(prev_seen) + seq![keyv]);
                assert(dedup_keys(t1).map_values(|x: SpecSecret| x.key) =~= dedup_keys(
                    t0,
                ).map_values(|x: SpecSecret| x.key) + seq![t1.last().key]);
                assert(strs_view(seen@) =~= dedup_keys(t1).map_values(|x: SpecSecret| x.key));
            }
        } else {
            proof {
                assert(dedup_keys(t1) =~= dedup_keys(t0));
                assert(out@ =~= env_header() + env_lines(dedup_keys(t1)));
                assert(strs_view(seen@) =~= dedup_keys(t1).map_values(|x: SpecSecret| x.key));
            }
        }
        i += 1;
    }
    proof {
        assert(sv.take(n as int) =~= sv);
    }
    out
}

/// A file name of `s` already occurs at an earlier position than `i`.
pub open spec fn file_seen_before(s: Seq<SpecSecret>, i: int) -> bool {
    exists|j: int| 0 <= j < i && s[j].file == s[i].file
}

/// The file names occurring in `s`, each once, in first-seen order.
pub open spec fn distinct_files(s: Seq<SpecSecret>) -> Seq<Seq<char>>
    decreases s.len(),
{
    if s.len() == 0 {
        Seq::empty()
    } else {
        distinct_files(s.drop_last()) + if file_seen_before(s, s.len() - 1) {
            Seq::empty()
        } else {
            seq![s.last().file]
        }
    }
}

/// A file name occurs in `s` exactly when it occurs among the distinct
/// file names.
proof fn lemma_distinct_files_complete(s: Seq<SpecSecret>, f: Seq<char>)
    ensures
        (exists|j: int| 0 <= j < s.len() && s[j].file == f) <==> distinct_files(s).contains(f),
    decreases s.len(),
{
    if s.len() > 0 {
        let h = s.drop_last();
        lemma_distinct_files_complete(h, f);
        let d = distinct_files(s);
        let dh = distinct_files(h);
        if exists|j: int| 0 <= j < s.len() && s[j].file == f {
            let j = choose|j: int| 0 <= j < s.len() && s[j].file == f;
            if j < s.len() - 1 {
                assert(h[j].file == f);
                let m = choose|m: int| 0 <= m < dh.len() && dh[m] == f;
                assert(d[m] == f);
            } else {
                if file_seen_before(s, s.len() - 1) {
                    let j2 = choose|j2: int|
                        0 <= j2 < s.len() - 1 && #[trigger] s[j2].file == s[s.len() - 1].file;
                    assert(h[j2].file == f);
                    let m = choose|m: int| 0 <= m < dh.len() && dh[m] == f;
                    assert(d[m] == f);
                } else {
                    assert(d[d.len() - 1] == f);
                }
            }
        }
        if d.contains(f) {
            let m = choose|m: int| 0 <= m < d.len() && d[m] == f;
            if m < dh.len() {
                assert(dh[m] == f);
                let j = choose|j: int| 0 <= j < h.len() && h[j].file == f;
                assert(s[j].file == f);
            } else {
                assert(s[s.len() - 1].file == f);
            }
        }
    }
}

/// The listing lines of the secrets of one file, in order.
pub open spec fn file_lines(s: Seq<SpecSecret>, f: Seq<char>) -> Seq<char>
    decreases s.len(),
{
    if s.len() == 0 {
        Seq::empty()
    } else {
        file_lines(s.drop_last(), f) + if s.last().file == f {
            "  Line "@ + dec_rep(s.last().line_number) + ": "@ + s.last().key + "\n"@
        } else {
            Seq::empty()
        }
    }
}

/// The per-file sections of the summary, in file order.
pub open spec fn file_sections(files: Seq<Seq<char>>, s: Seq<SpecSecret>) -> Seq<char>
    decreases files.len(),
{
    if files.len() == 0 {
        Seq::empty()
    } else {
        file_sections(files.drop_last(), s) + files.last() + ":\n"@ + file_lines(
            s,
            files.last(),
        ) + "\n"@
    }
}

/// The full summary: the number of secrets and files, then per file the
/// `line: key` listing of its secrets. Files appear in first-seen order.
pub open spec fn spec_summary(s: Seq<SpecSecret>) -> Seq<char> {
    "Found "@ + dec_rep(s.len()) + " secret(s) across "@ + dec_rep(distinct_files(s).len())
        + " file(s):\n\n"@ + file_sections(distinct_files(s), s)
}

/// Generates a summary report of found secrets, grouped by source file in
/// first-seen order.
pub fn summarize_secrets(secrets: &Vec<Secret>) -> (r: String)
    ensures
        r@ == spec_summary(secrets_view(secrets@)),
{
    let ghost sv = secrets_view(secrets@);
    let n = secrets.len();
    let mut files: Vec<String> = Vec::new();
    let mut i: usize = 0;
    proof {
        assert(sv.take(0) =~= Seq::empty());
        assert(strs_view(files@) =~= distinct_files(sv.take(0)));
    }
    while i < n
        invariant
            n == secrets@.len(),
            sv == secrets_view(secrets@),
            0 <= i <= n,
            strs_view(files@) == distinct_files(sv.take(i as int)),
        decreases n - i,
    {
        let ghost prev_files = files@;
        let ghost t0 = sv.take(i as int);
        let ghost t1 = sv.take(i + 1);
        proof {
            assert(t1.drop_last() =~= t0);
            assert(t1.last() == sv[i as int]);
            assert(sv[i as int] == secret_view(secrets@[i as int]));
        }
        let sec = &secrets[i];
        let ghost fv = sec.file@;
        let fresh = !crate::textfmt::mem_str(&files, sec.file.as_str());
        proof {
            lemma_distinct_files_complete(t0, fv);
            if strs_view(prev_files).contains(fv) {
                let j = choose|j: int| 0 <= j < t0.len() && #[trigger] t0[j].file == fv;
                assert(t1[j].file == t1[i as int].file);
                assert(file_seen_before(t1, i as int));
            } else {
                if file_seen_before(t1, i as int) {
                    let j = choose|j: int|
                        0 <= j < i && #[trigger] t1[j].file == t1[i as int].file;
                    assert(t0[j].file == fv);
                    assert(distinct_files(t0).contains(fv));
                    assert(false);
                }
            }
            assert(fresh == !file_seen_before(t1, i as int));
        }
        if fresh {
            files.push(sec.file.clone());
        }
        proof {
            if fresh {
                assert(strs_view(files@) =~= strs_view(prev_files) + seq![fv]);
                assert(strs_view(files@) =~= distinct_files(t1));
            } else {
                assert(strs_view(files@) =~= distinct_files(t1));
            }
        }
        i += 1;
    }
    proof {
        assert(sv.take(n as int) =~= sv);
    }
    let mut out = String::from_str("Found ");
    out.append(crate::textfmt::usize_to_string(n).as_str());
    out.append(" secret(s) across ");
    out.append(crate::textfmt::usize_to_string(files.len()).as_str());
    out.append(" file(s):\n\n");
    let ghost prefix = out@;
    proof {
        assert(file_sections(strs_view(files@).take(0), sv) == Seq::<char>::empty());
        assert(out@ =~= prefix + file_sections(strs_view(files@).take(0), sv));
    }
    let nf = files.len();
    let mut k: usize = 0;
    while k < nf
        invariant
            nf == files@.len(),
            sv == secrets_view(secrets@),
            n == secrets@.len(),
            0 <= k <= nf,
            out@ == prefix + file_sections(strs_view(files@).take(k as int), sv),
        decreases nf - k,
    {
        let ghost fv = files@[k as int]@;
        let ghost sect0 = out@;
        out.append(files[k].as_str());
        out.append(":\n");
        let mut j: usize = 0;
        let ghost inner0 = out@;
        proof {
            assert(file_lines(sv.take(0), fv) == Seq::<char>::empty());
            assert(out@ =~= inner0 + file_lines(sv.take(0), fv));
        }
        while j < n
            invariant
                n == secrets@.len(),
                sv == secrets_view(secrets@),
                nf == files@.len(),
                0 <= k < nf,
                fv == files@[k as int]@,
                0 <= j <= n,
                out@ == inner0 + file_lines(sv.take(j as int), fv),
            decreases n - j,
        {
            let ghost prev_out = out@;
            let ghost u0 = sv.take(j as int);
            let ghost u1 = sv.take(j + 1);
            proof {
                assert(u1.drop_last() =~= u0);
                assert(u1.last() == sv[j as int]);
                assert(sv[j as int] == secret_view(secrets@[j as int]));
            }
            let sec = &secrets[j];
            if crate::textfmt::str_eq(sec.file.as_str(), files[k].as_str()) {
                out.append("  Line ");
                out.append(crate::textfmt::usize_to_string(sec.line_number).as_str());
                out.append(": ");
                out.append(sec.key.as_str());
                out.append("\n");
            }
            proof {
                assert(out@ =~= inner0 + file_lines(u1, fv));
            }
            j += 1;
        }
        out.append("\n");
        proof {
            assert(sv.take(n as int) =~= sv);
            let ft1 = strs_view(files@).take(k + 1);
            assert(ft1.drop_last() =~= strs_view(files@).take(k as int));
            assert(ft1.last() == strs_view(files@)[k as int]);
            assert(out@ =~= prefix + file_sections(ft1, sv));
        }
        k += 1;
    }
    proof {
        assert(strs_view(files@).take(nf as int) =~= strs_view(files@));
        assert(out@ =~= spec_summary(sv));
    }
    out
}

/// The secret one line yields, if any.
pub fn scan_line(s: &str) -> (r: Option<(String, String)>)
    ensures
        match r {
            Some(kv) => line_secret(s@) == Some((kv.0@, kv.1@)),
            None => line_secret(s@) is None,
        },
{
    let ls = s.unicode_len();
    if is_comment_exec(s, ls) {
        return None;
    }
    match line_match(s) {
        Some((k, v)) => {
            if is_likely_secret(k.as_str()) {
                Some((k, v))
            } else {
                None
            }
        },
        None => None,
    }
}

} // verus!
