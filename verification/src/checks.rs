//! Health-check results and reports: the structured outcomes that the
//! doctor-style commands collect, count and render.

use vstd::prelude::*;

use crate::textfmt::{
    contains_seq, dec_rep, lemma_contains_concat_left, lemma_contains_concat_right,
    lemma_contains_self,
};

verus! {

/// A text without the ANSI escape character. Texts rendered with a terminal
/// style keep such a text intact within them.
pub open spec fn esc_free(s: Seq<char>) -> bool {
    forall|i: int| 0 <= i < s.len() ==> s[i] != '\u{1b}'
}

/// Relies on colored::Colorize::green and ColoredString's Display: the text
/// is rendered within an ANSI style prefix and reset suffix, or unchanged
/// when coloring is off; a text without escape characters appears unchanged
/// within the result either way.
#[verifier::external_body]
fn paint_green(s: &str) -> (r: String)
    ensures
        esc_free(s@) ==> contains_seq(r@, s@),
{
    format!("{}", colored::Colorize::green(s))
}

/// Relies on colored::Colorize::yellow, as `paint_green` relies on `green`.
#[verifier::external_body]
fn paint_yellow(s: &str) -> (r: String)
    ensures
        esc_free(s@) ==> contains_seq(r@, s@),
{
    format!("{}", colored::Colorize::yellow(s))
}

/// Relies on colored::Colorize::red, as `paint_green` relies on `green`.
#[verifier::external_body]
fn paint_red(s: &str) -> (r: String)
    ensures
        esc_free(s@) ==> contains_seq(r@, s@),
{
    format!("{}", colored::Colorize::red(s))
}

/// Relies on colored::Colorize::bold, as `paint_green` relies on `green`.
#[verifier::external_body]
fn paint_bold(s: &str) -> (r: String)
    ensures
        esc_free(s@) ==> contains_seq(r@, s@),
{
    format!("{}", colored::Colorize::bold(s))
}

/// Relies on colored::Colorize::dimmed, as `paint_green` relies on `green`.
#[verifier::external_body]
fn paint_dimmed(s: &str) -> (r: String)
    ensures
        esc_free(s@) ==> contains_seq(r@, s@),
{
    format!("{}", colored::Colorize::dimmed(s))
}

/// Relies on colored::Colorize::bold and ColoredString::underline: both only
/// set style bits, and the text is rendered once within them.
#[verifier::external_body]
fn paint_bold_underline(s: &str) -> (r: String)
    ensures
        esc_free(s@) ==> contains_seq(r@, s@),
{
    format!("{}", colored::Colorize::underline(colored::Colorize::bold(s)))
}

/// Result of a validation check.
#[derive(Debug, Clone, PartialEq, Eq)]
pub enum CheckResult {
    /// Check passed successfully.
    Pass { name: String, message: String },
    /// Check passed with warnings.
    Warn { name: String, message: String, suggestion: Option<String> },
    /// Check failed with errors.
    Error { name: String, message: String, suggestion: Option<String> },
}

/// The view of an optional borrowed string.
pub open spec fn opt_str_view(o: Option<&str>) -> Option<Seq<char>> {
    match o {
        Some(s) => Some(s@),
        None => None,
    }
}

impl CheckResult {
    /// The check's name.
    pub open spec fn spec_name(&self) -> Seq<char> {
        match self {
            CheckResult::Pass { name, .. } => name@,
            CheckResult::Warn { name, .. } => name@,
            CheckResult::Error { name, .. } => name@,
        }
    }

    /// The check's message.
    pub open spec fn spec_message(&self) -> Seq<char> {
        match self {
            CheckResult::Pass { message, .. } => message@,
            CheckResult::Warn { message, .. } => message@,
            CheckResult::Error { message, .. } => message@,
        }
    }

    /// The check's suggestion, if it carries one.
    pub open spec fn spec_suggestion(&self) -> Option<Seq<char>> {
        match self {
            CheckResult::Pass { .. } => None,
            CheckResult::Warn { suggestion, .. } => match suggestion {
                Some(s) => Some(s@),
                None => None,
            },
            CheckResult::Error { suggestion, .. } => match suggestion {
                Some(s) => Some(s@),
                None => None,
            },
        }
    }

    /// Creates a passing check result.
    pub fn pass(name: &str, message: &str) -> (r: Self)
        ensures
            r is Pass,
            r.spec_name() == name@,
            r.spec_message() == message@,
            r.spec_suggestion() is None,
    {
        CheckResult::Pass { name: name.to_owned(), message: message.to_owned() }
    }

    /// Creates a warning check result.
    pub fn warn(name: &str, message: &str, suggestion: Option<&str>) -> (r: Self)
        ensures
            r is Warn,
            r.spec_name() == name@,
            r.spec_message() == message@,
            r.spec_suggestion() == opt_str_view(suggestion),
    {
        CheckResult::Warn {
            name: name.to_owned(),
            message: message.to_owned(),
            suggestion: match suggestion {
                Some(s) => Some(s.to_owned()),
                None => None,
            },
        }
    }

    /// Creates an error check result.
    pub fn error(name: &str, message: &str, suggestion: Option<&str>) -> (r: Self)
        ensures
            r is Error,
            r.spec_name() == name@,
            r.spec_message() == message@,
            r.spec_suggestion() == opt_str_view(suggestion),
    {
        CheckResult::Error {
            name: name.to_owned(),
            message: message.to_owned(),
            suggestion: match suggestion {
                Some(s) => Some(s.to_owned()),
                None => None,
            },
        }
    }

    /// Returns true if this is a passing check.
    pub fn is_pass(&self) -> (r: bool)
        ensures
            r == (self is Pass),
    {
        matches!(self, CheckResult::Pass { .. })
    }

    /// Returns true if this is a warning.
    pub fn is_warn(&self) -> (r: bool)
        ensures
            r == (self is Warn),
    {
        matches!(self, CheckResult::Warn { .. })
    }

    /// Returns true if this is an error.
    pub fn is_error(&self) -> (r: bool)
        ensures
            r == (self is Error),
    {
        matches!(self, CheckResult::Error { .. })
    }

    /// Returns the check name.
    pub fn name(&self) -> (r: &str)
        ensures
            r@ == self.spec_name(),
    {
        match self {
            CheckResult::Pass { name, .. } => name.as_str(),
            CheckResult::Warn { name, .. } => name.as_str(),
            CheckResult::Error { name, .. } => name.as_str(),
        }
    }

    /// Returns the message.
    pub fn message(&self) -> (r: &str)
        ensures
            r@ == self.spec_message(),
    {
        match self {
            CheckResult::Pass { message, .. } => message.as_str(),
            CheckResult::Warn { message, .. } => message.as_str(),
            CheckResult::Error { message, .. } => message.as_str(),
        }
    }

    /// Returns the suggestion if available.
    pub fn suggestion(&self) -> (r: Option<&str>)
        ensures
            opt_str_view(r) == self.spec_suggestion(),
    {
        match self {
            CheckResult::Pass { .. } => None,
            CheckResult::Warn { suggestion, .. } => match suggestion {
                Some(s) => Some(s.as_str()),
                None => None,
            },
            CheckResult::Error { suggestion, .. } => match suggestion {
                Some(s) => Some(s.as_str()),
                None => None,
            },
        }
    }

    /// Formats this check result with a status mark and colors. The name,
    /// the message and the suggestion appear within the output (the painted
    /// pieces provided they hold no escape character).
    pub fn format_colored(&self) -> (r: String)
        ensures
            contains_seq(r@, self.spec_message()),
            esc_free(self.spec_name()) ==> contains_seq(r@, self.spec_name()),
            match self.spec_suggestion() {
                Some(f) => esc_free(f) ==> contains_seq(r@, f),
                None => true,
            },
    {
        let (mark, suggestion) = match self {
            CheckResult::Pass { .. } => (paint_green("\u{2713}"), None),
            CheckResult::Warn { suggestion, .. } => (
                paint_yellow("\u{26a0}"),
                match suggestion {
                    Some(s) => Some(s.as_str()),
                    None => None,
                },
            ),
            CheckResult::Error { suggestion, .. } => (
                paint_red("\u{2717}"),
                match suggestion {
                    Some(s) => Some(s.as_str()),
                    None => None,
                },
            ),
        };
        let bold_name = paint_bold(self.name());
        let mut out = String::from_str("  ");
        out.append(mark.as_str());
        out.append(" ");
        out.append(bold_name.as_str());
        let ghost head = out@;
        out.append(" - ");
        out.append(self.message());
        proof {
            if esc_free(self.spec_name()) {
                lemma_contains_concat_right("  "@ + mark@ + " "@, bold_name@, self.spec_name());
                lemma_contains_concat_left(head, " - "@, self.spec_name());
                lemma_contains_concat_left(head + " - "@, self.spec_message(), self.spec_name());
            }
            lemma_contains_self(self.spec_message());
            lemma_contains_concat_right(head + " - "@, self.spec_message(), self.spec_message());
        }
        let ghost body = out@;
        match suggestion {
            Some(fix) => {
                let dim_fix = paint_dimmed(fix);
                let bold_fix_label = paint_bold("Fix");
                out.append("\n    ");
                out.append(bold_fix_label.as_str());
                out.append(": ");
                let ghost mid = out@;
                out.append(dim_fix.as_str());
                proof {
                    lemma_contains_concat_left(body, "\n    "@ + bold_fix_label@ + ": "@
                        + dim_fix@, self.spec_message());
                    assert(out@ =~= body + ("\n    "@ + bold_fix_label@ + ": "@ + dim_fix@));
                    if esc_free(self.spec_name()) {
                        lemma_contains_concat_left(body, "\n    "@ + bold_fix_label@ + ": "@
                            + dim_fix@, self.spec_name());
                    }
                    if esc_free(fix@) {
                        lemma_contains_concat_right(mid, dim_fix@, fix@);
                    }
                }
                out
            },
            None => out,
        }
    }
}

/// Report containing multiple check results.
#[derive(Debug, Clone)]
pub struct CheckReport {
    /// The collected check results, in the order they were added.
    pub checks: Vec<CheckResult>,
}

/// How many of the checks are passes.
pub open spec fn count_pass(s: Seq<CheckResult>) -> nat
    decreases s.len(),
{
    if s.len() == 0 {
        0
    } else {
        count_pass(s.drop_last()) + if s.last() is Pass {
            1nat
        } else {
            0nat
        }
    }
}

/// How many of the checks are warnings.
pub open spec fn count_warn(s: Seq<CheckResult>) -> nat
    decreases s.len(),
{
    if s.len() == 0 {
        0
    } else {
        count_warn(s.drop_last()) + if s.last() is Warn {
            1nat
        } else {
            0nat
        }
    }
}

/// How many of the checks are errors.
pub open spec fn count_error(s: Seq<CheckResult>) -> nat
    decreases s.len(),
{
    if s.len() == 0 {
        0
    } else {
        count_error(s.drop_last()) + if s.last() is Error {
            1nat
        } else {
            0nat
        }
    }
}

/// Every count is bounded by the number of checks.
proof fn lemma_counts_bounded(s: Seq<CheckResult>)
    ensures
        count_pass(s) <= s.len(),
        count_warn(s) <= s.len(),
        count_error(s) <= s.len(),
    decreases s.len(),
{
    if s.len() > 0 {
        lemma_counts_bounded(s.drop_last());
    }
}

impl CheckReport {
    /// Creates a new empty report.
    pub fn new() -> (r: Self)
        ensures
            r.checks@.len() == 0,
    {
        CheckReport { checks: Vec::new() }
    }

    /// Adds a check result to the report.
    pub fn add(&mut self, result: CheckResult)
        ensures
            final(self).checks@ == old(self).checks@.push(result),
    {
        self.checks.push(result);
    }

    /// Returns the number of passing checks.
    pub fn pass_count(&self) -> (r: usize)
        ensures
            r == count_pass(self.checks@),
    {
        let n = self.checks.len();
        let mut c: usize = 0;
        let mut i: usize = 0;
        proof {
            assert(self.checks@.take(0) =~= Seq::empty());
        }
        while i < n
            invariant
                n == self.checks@.len(),
                0 <= i <= n,
                c == count_pass(self.checks@.take(i as int)),
                c <= i,
            decreases n - i,
        {
            proof {
                let t1 = self.checks@.take(i + 1);
                assert(t1.drop_last() =~= self.checks@.take(i as int));
                assert(t1.last() == self.checks@[i as int]);
            }
            if self.checks[i].is_pass() {
                c += 1;
            }
            i += 1;
        }
        proof {
            assert(self.checks@.take(n as int) =~= self.checks@);
        }
        c
    }

    /// Returns the number of warnings.
    pub fn warn_count(&self) -> (r: usize)
        ensures
            r == count_warn(self.checks@),
    {
        let n = self.checks.len();
        let mut c: usize = 0;
        let mut i: usize = 0;
        proof {
            assert(self.checks@.take(0) =~= Seq::empty());
        }
        while i < n
            invariant
                n == self.checks@.len(),
                0 <= i <= n,
                c == count_warn(self.checks@.take(i as int)),
                c <= i,
            decreases n - i,
        {
            proof {
                let t1 = self.checks@.take(i + 1);
                assert(t1.drop_last() =~= self.checks@.take(i as int));
                assert(t1.last() == self.checks@[i as int]);
            }
            if self.checks[i].is_warn() {
                c += 1;
            }
            i += 1;
        }
        proof {
            assert(self.checks@.take(n as int) =~= self.checks@);
        }
        c
    }

    /// Returns the number of errors.
    pub fn error_count(&self) -> (r: usize)
        ensures
            r == count_error(self.checks@),
    {
        let n = self.checks.len();
        let mut c: usize = 0;
        let mut i: usize = 0;
        proof {
            assert(self.checks@.take(0) =~= Seq::empty());
        }
        while i < n
            invariant
                n == self.checks@.len(),
                0 <= i <= n,
                c == count_error(self.checks@.take(i as int)),
                c <= i,
            decreases n - i,
        {
            proof {
                let t1 = self.checks@.take(i + 1);
                assert(t1.drop_last() =~= self.checks@.take(i as int));
                assert(t1.last() == self.checks@[i as int]);
            }
            if self.checks[i].is_error() {
                c += 1;
            }
            i += 1;
        }
        proof {
            assert(self.checks@.take(n as int) =~= self.checks@);
        }
        c
    }

    /// Returns true if all checks passed: no warnings and no errors.
    pub fn is_clean(&self) -> (r: bool)
        ensures
            r == (count_warn(self.checks@) == 0 && count_error(self.checks@) == 0),
    {
        self.warn_count() == 0 && self.error_count() == 0
    }

    /// Returns true if there are any errors.
    pub fn has_errors(&self) -> (r: bool)
        ensures
            r == (count_error(self.checks@) > 0),
    {
        self.error_count() > 0
    }

    /// Returns the total number of checks.
    pub fn total(&self) -> (r: usize)
        ensures
            r == self.checks@.len(),
    {
        self.checks.len()
    }

    /// Returns a simple summary line with the three counts.
    pub fn summary(&self) -> (r: String)
        ensures
            r@ == "Passed: "@ + dec_rep(count_pass(self.checks@)) + ", Warnings: "@ + dec_rep(
                count_warn(self.checks@),
            ) + ", Errors: "@ + dec_rep(count_error(self.checks@)),
    {
        proof {
            lemma_counts_bounded(self.checks@);
        }
        let mut s = String::from_str("Passed: ");
        s.append(crate::textfmt::usize_to_string(self.pass_count()).as_str());
        s.append(", Warnings: ");
        s.append(crate::textfmt::usize_to_string(self.warn_count()).as_str());
        s.append(", Errors: ");
        s.append(crate::textfmt::usize_to_string(self.error_count()).as_str());
        s
    }
}

/// The position of the first `:` of `s`, or its length if none.
pub open spec fn colon_break(s: Seq<char>) -> nat
    decreases s.len(),
{
    if s.len() == 0 {
        0
    } else if s[0] == ':' {
        0
    } else {
        1 + colon_break(s.drop_first())
    }
}

/// The category of a check name: what precedes its first `:`, or the whole
/// name if it has none.
pub open spec fn spec_category(name: Seq<char>) -> Seq<char> {
    name.take(colon_break(name) as int)
}

proof fn lemma_colon_break_at(s: Seq<char>, k: int)
    requires
        0 <= k <= s.len(),
        forall|q: int| 0 <= q < k ==> s[q] != ':',
        k < s.len() ==> s[k] == ':',
    ensures
        colon_break(s) == k,
    decreases k,
{
    if s.len() == 0 {
    } else if k == 0 {
    } else {
        let t = s.drop_first();
        assert(forall|q: int| 0 <= q < k - 1 ==> t[q] == s[q + 1] && s[q + 1] != ':');
        assert(k - 1 < t.len() ==> t[k - 1] == s[k]);
        lemma_colon_break_at(t, k - 1);
    }
}

/// Returns the category of a check name.
fn category_of(name: &str) -> (r: String)
    ensures
        r@ == spec_category(name@),
{
    let ln = name.unicode_len();
    let mut k: usize = 0;
    while k < ln && name.get_char(k) != ':'
        invariant
            ln == name@.len(),
            0 <= k <= ln,
            forall|q: int| 0 <= q < k ==> name@[q] != ':',
        decreases ln - k,
    {
        k += 1;
    }
    proof {
        lemma_colon_break_at(name@, k as int);
        assert(name@.subrange(0, k as int) =~= name@.take(k as int));
    }
    name.substring_char(0, k).to_owned()
}

/// A check whose category equals that of an earlier check.
pub open spec fn cat_seen_before(s: Seq<CheckResult>, i: int) -> bool {
    exists|j: int|
        0 <= j < i && spec_category(s[j].spec_name()) == spec_category(s[i].spec_name())
}

/// The categories of the checks, each once, in first-seen order.
pub open spec fn distinct_cats(s: Seq<CheckResult>) -> Seq<Seq<char>>
    decreases s.len(),
{
    if s.len() == 0 {
        Seq::empty()
    } else {
        distinct_cats(s.drop_last()) + if cat_seen_before(s, s.len() - 1) {
            Seq::empty()
        } else {
            seq![spec_category(s.last().spec_name())]
        }
    }
}

/// A category occurs among the checks exactly when it occurs among the
/// distinct categories.
proof fn lemma_distinct_cats_complete(s: Seq<CheckResult>, c: Seq<char>)
    ensures
        (exists|j: int| 0 <= j < s.len() && spec_category(#[trigger] s[j].spec_name()) == c)
            <==> distinct_cats(s).contains(c),
    decreases s.len(),
{
    if s.len() > 0 {
        let h = s.drop_last();
        lemma_distinct_cats_complete(h, c);
        let d = distinct_cats(s);
        let dh = distinct_cats(h);
        if exists|j: int| 0 <= j < s.len() && spec_category(#[trigger] s[j].spec_name()) == c {
            let j = choose|j: int|
                0 <= j < s.len() && spec_category(#[trigger] s[j].spec_name()) == c;
            if j < s.len() - 1 {
                assert(spec_category(h[j].spec_name()) == c);
                let m = choose|m: int| 0 <= m < dh.len() && dh[m] == c;
                assert(d[m] == c);
            } else {
                if cat_seen_before(s, s.len() - 1) {
                    let j2 = choose|j2: int|
                        0 <= j2 < s.len() - 1 && spec_category(#[trigger] s[j2].spec_name())
                            == spec_category(s[s.len() - 1].spec_name());
                    assert(spec_category(h[j2].spec_name()) == c);
                    let m = choose|m: int| 0 <= m < dh.len() && dh[m] == c;
                    assert(d[m] == c);
                } else {
                    assert(d[d.len() - 1] == c);
                }
            }
        }
        if d.contains(c) {
            let m = choose|m: int| 0 <= m < d.len() && d[m] == c;
            if m < dh.len() {
                assert(dh[m] == c);
                let j = choose|j: int|
                    0 <= j < h.len() && spec_category(#[trigger] h[j].spec_name()) == c;
                assert(spec_category(s[j].spec_name()) == c);
            } else {
                assert(spec_category(s[s.len() - 1].spec_name()) == c);
            }
        }
    }
}

impl CheckReport {
    /// Formats the report with colors: the checks grouped by the category
    /// prefix of their names (in first-seen order), then a summary of the
    /// counts. Every check's message appears within the output; the exact
    /// rendering depends on the terminal coloring.
    pub fn format_colored(&self) -> (r: String)
        ensures
            forall|i: int|
                0 <= i < self.checks@.len() ==> contains_seq(
                    r@,
                    #[trigger] self.checks@[i].spec_message(),
                ),
    {
        let ghost cs = self.checks@;
        let n = self.checks.len();
        let mut cats: Vec<String> = Vec::new();
        let mut i: usize = 0;
        proof {
            assert(cs.take(0) =~= Seq::empty());
            assert(crate::textfmt::strs_view(cats@) =~= distinct_cats(cs.take(0)));
        }
        while i < n
            invariant
                n == cs.len(),
                cs == self.checks@,
                0 <= i <= n,
                crate::textfmt::strs_view(cats@) == distinct_cats(cs.take(i as int)),
            decreases n - i,
        {
            let ghost prev_cats = cats@;
            let ghost t0 = cs.take(i as int);
            let ghost t1 = cs.take(i + 1);
            proof {
                assert(t1.drop_last() =~= t0);
                assert(t1.last() == cs[i as int]);
            }
            let c = category_of(self.checks[i].name());
            let ghost cv = c@;
            let fresh = !crate::textfmt::mem_str(&cats, c.as_str());
            proof {
                lemma_distinct_cats_complete(t0, cv);
                if crate::textfmt::strs_view(prev_cats).contains(cv) {
                    let j = choose|j: int|
                        0 <= j < t0.len() && spec_category(#[trigger] t0[j].spec_name()) == cv;
                    assert(spec_category(t1[j].spec_name()) == spec_category(
                        t1[i as int].spec_name(),
                    ));
                    assert(cat_seen_before(t1, i as int));
                } else {
                    if cat_seen_before(t1, i as int) {
                        let j = choose|j: int|
                            0 <= j < i && spec_category(#[trigger] t1[j].spec_name())
                                == spec_category(t1[i as int].spec_name());
                        assert(spec_category(t0[j].spec_name()) == cv);
                        assert(distinct_cats(t0).contains(cv));
                        assert(false);
                    }
                }
                assert(fresh == !cat_seen_before(t1, i as int));
            }
            if fresh {
                cats.push(c);
            }
            proof {
                if fresh {
                    assert(crate::textfmt::strs_view(cats@) =~= crate::textfmt::strs_view(
                        prev_cats,
                    ) + seq![cv]);
                }
                assert(crate::textfmt::strs_view(cats@) =~= distinct_cats(t1));
            }
            i += 1;
        }
        proof {
            assert(cs.take(n as int) =~= cs);
        }
        let nf = cats.len();
        let mut out = String::new();
        let mut k: usize = 0;
        while k < nf
            invariant
                n == cs.len(),
                cs == self.checks@,
                nf == cats@.len(),
                crate::textfmt::strs_view(cats@) == distinct_cats(cs),
                0 <= k <= nf,
                forall|i2: int|
                    0 <= i2 < n && (exists|m: int|
                        0 <= m < k && crate::textfmt::strs_view(cats@)[m] == spec_category(
                            #[trigger] cs[i2].spec_name(),
                        )) ==> contains_seq(out@, cs[i2].spec_message()),
            decreases nf - k,
        {
            let ghost catv = cats@[k as int]@;
            let mut sect = String::from_str("\n");
            let painted = paint_bold_underline(cats[k].as_str());
            sect.append(painted.as_str());
            sect.append("\n");
            let mut j: usize = 0;
            while j < n
                invariant
                    n == cs.len(),
                    cs == self.checks@,
                    nf == cats@.len(),
                    0 <= k < nf,
                    catv == cats@[k as int]@,
                    0 <= j <= n,
                    forall|i2: int|
                        0 <= i2 < j && spec_category(#[trigger] cs[i2].spec_name()) == catv
                            ==> contains_seq(sect@, cs[i2].spec_message()),
                decreases n - j,
            {
                let cj = category_of(self.checks[j].name());
                if crate::textfmt::str_eq(cj.as_str(), cats[k].as_str()) {
                    let f = self.checks[j].format_colored();
                    let ghost s0 = sect@;
                    sect.append(f.as_str());
                    proof {
                        assert forall|i2: int|
                            0 <= i2 <= j && spec_category(#[trigger] cs[i2].spec_name()) == catv
                                implies contains_seq(sect@, cs[i2].spec_message()) by {
                            if i2 < j {
                                crate::textfmt::lemma_contains_concat_left(
                                    s0,
                                    f@,
                                    cs[i2].spec_message(),
                                );
                            } else {
                                crate::textfmt::lemma_contains_concat_right(
                                    s0,
                                    f@,
                                    cs[i2].spec_message(),
                                );
                            }
                        }
                    }
                    let ghost s1 = sect@;
                    sect.append("\n");
                    proof {
                        assert forall|i2: int|
                            0 <= i2 <= j && spec_category(#[trigger] cs[i2].spec_name()) == catv
                                implies contains_seq(sect@, cs[i2].spec_message()) by {
                            crate::textfmt::lemma_contains_concat_left(
                                s1,
                                "\n"@,
                                cs[i2].spec_message(),
                            );
                        }
                    }
                }
                j += 1;
            }
            let ghost o0 = out@;
            out.append(sect.as_str());
            proof {
                assert forall|i2: int|
                    0 <= i2 < n && (exists|m: int|
                        0 <= m < k + 1 && crate::textfmt::strs_view(cats@)[m] == spec_category(
                            #[trigger] cs[i2].spec_name(),
                        )) implies contains_seq(out@, cs[i2].spec_message()) by {
                    let m = choose|m: int|
                        0 <= m < k + 1 && crate::textfmt::strs_view(cats@)[m] == spec_category(
                            cs[i2].spec_name(),
                        );
                    if m < k {
                        crate::textfmt::lemma_contains_concat_left(
                            o0,
                            sect@,
                            cs[i2].spec_message(),
                        );
                    } else {
                        assert(spec_category(cs[i2].spec_name()) == catv);
                        crate::textfmt::lemma_contains_concat_right(
                            o0,
                            sect@,
                            cs[i2].spec_message(),
                        );
                    }
                }
            }
            k += 1;
        }
        proof {
            lemma_counts_bounded(cs);
        }
        let mut sum = String::from_str("\n");
        let painted_summary = paint_bold_underline("Summary");
        sum.append(painted_summary.as_str());
        sum.append("\n  ");
        let green_mark = paint_green("\u{2713}");
        sum.append(green_mark.as_str());
        sum.append(" ");
        sum.append(crate::textfmt::usize_to_string(self.pass_count()).as_str());
        sum.append(" passed\n");
        let warns = self.warn_count();
        if warns > 0 {
            sum.append("  ");
            let yellow_mark = paint_yellow("\u{26a0}");
            sum.append(yellow_mark.as_str());
            sum.append(" ");
            sum.append(crate::textfmt::usize_to_string(warns).as_str());
            sum.append(" warnings\n");
        }
        let errors = self.error_count();
        if errors > 0 {
            sum.append("  ");
            let red_mark = paint_red("\u{2717}");
            sum.append(red_mark.as_str());
            sum.append(" ");
            sum.append(crate::textfmt::usize_to_string(errors).as_str());
            sum.append(" errors\n");
        }
        sum.append("  Total: ");
        sum.append(crate::textfmt::usize_to_string(self.total()).as_str());
        sum.append(" checks\n");
        let ghost o1 = out@;
        out.append(sum.as_str());
        proof {
            assert forall|i2: int| 0 <= i2 < n implies contains_seq(
                out@,
                #[trigger] cs[i2].spec_message(),
            ) by {
                lemma_distinct_cats_complete(cs, spec_category(cs[i2].spec_name()));
                assert(distinct_cats(cs).contains(spec_category(cs[i2].spec_name())));
                let m = choose|m: int|
                    0 <= m < distinct_cats(cs).len() && distinct_cats(cs)[m] == spec_category(
                        cs[i2].spec_name(),
                    );
                assert(crate::textfmt::strs_view(cats@)[m] == spec_category(cs[i2].spec_name()));
                assert(contains_seq(o1, cs[i2].spec_message()));
                crate::textfmt::lemma_contains_concat_left(o1, sum@, cs[i2].spec_message());
            }
        }
        out
    }
}

impl Default for CheckReport {
    /// An empty report.
    fn default() -> (r: Self)
        ensures
            r.checks@.len() == 0,
    {
        CheckReport::new()
    }
}

} // verus!
