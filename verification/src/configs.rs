//! Configuration-file checks: syntax validation of TOML, JSON and YAML
//! documents through the standard parser libraries, and a scan for
//! hardcoded home-directory paths. Reading the files is the caller's work.

use vstd::prelude::*;

use crate::checks::CheckResult;
use crate::secrets::{space_run_end, spec_lines, split_lines};
use crate::textfmt::{concat3, dec_rep, ext_of, starts_with_seq, usize_to_string};

verus! {

/// The text parses as a TOML document. What exactly the TOML grammar admits
/// is the parser library's affair; the name stands for its verdict.
pub uninterp spec fn toml_ok(s: Seq<char>) -> bool;

/// The text parses as a JSON document; the name stands for the parser
/// library's verdict.
pub uninterp spec fn json_ok(s: Seq<char>) -> bool;

/// The text parses as a YAML document; the name stands for the parser
/// library's verdict.
pub uninterp spec fn yaml_ok(s: Seq<char>) -> bool;

/// Relies on toml::from_str::<toml::Value>: parsing succeeds or fails on the
/// text alone; on failure the parser's message is returned.
#[verifier::external_body]
fn toml_error(content: &str) -> (r: Option<String>)
    ensures
        (r is None) == toml_ok(content@),
{
    match toml::from_str::<toml::Value>(content) {
        Ok(_) => None,
        Err(e) => Some(e.to_string()),
    }
}

/// Relies on serde_json::from_str::<serde_json::Value>: parsing succeeds or
/// fails on the text alone; on failure the parser's message is returned.
#[verifier::external_body]
fn json_error(content: &str) -> (r: Option<String>)
    ensures
        (r is None) == json_ok(content@),
{
    match serde_json::from_str::<serde_json::Value>(content) {
        Ok(_) => None,
        Err(e) => Some(e.to_string()),
    }
}

/// Relies on serde_yaml::from_str::<serde_yaml::Value>: parsing succeeds or
/// fails on the text alone; on failure the parser's message is returned.
#[verifier::external_body]
fn yaml_error(content: &str) -> (r: Option<String>)
    ensures
        (r is None) == yaml_ok(content@),
{
    match serde_yaml::from_str::<serde_yaml::Value>(content) {
        Ok(_) => None,
        Err(e) => Some(e.to_string()),
    }
}

/// The name of a configuration check.
pub open spec fn config_check_name(file_name: Seq<char>) -> Seq<char> {
    "Config:"@ + file_name
}

fn config_name(file_name: &str) -> (r: String)
    ensures
        r@ == config_check_name(file_name@),
{
    let r = crate::textfmt::concat2("Config:", file_name);
    r
}

/// Validates TOML syntax: a pass exactly when the text parses, an error
/// carrying the parser's message otherwise.
pub fn validate_toml(file_name: &str, content: &str) -> (r: CheckResult)
    ensures
        r.spec_name() == config_check_name(file_name@),
        (r is Pass) == toml_ok(content@),
        toml_ok(content@) ==> r.spec_message() == "Valid TOML syntax"@,
        !toml_ok(content@) ==> r is Error && starts_with_seq(
            r.spec_message(),
            "Invalid TOML syntax: "@,
        ),
{
    let name = config_name(file_name);
    match toml_error(content) {
        None => CheckResult::pass(name.as_str(), "Valid TOML syntax"),
        Some(e) => {
            let msg = crate::textfmt::concat2("Invalid TOML syntax: ", e.as_str());
            proof {
                assert(("Invalid TOML syntax: "@ + e@).subrange(
                    0,
                    "Invalid TOML syntax: "@.len() as int,
                ) =~= "Invalid TOML syntax: "@);
            }
            CheckResult::error(name.as_str(), msg.as_str(), Some("Fix the TOML syntax errors"))
        },
    }
}

/// Validates JSON syntax: a pass exactly when the text parses, an error
/// carrying the parser's message otherwise.
pub fn validate_json(file_name: &str, content: &str) -> (r: CheckResult)
    ensures
        r.spec_name() == config_check_name(file_name@),
        (r is Pass) == json_ok(content@),
        json_ok(content@) ==> r.spec_message() == "Valid JSON syntax"@,
        !json_ok(content@) ==> r is Error && starts_with_seq(
            r.spec_message(),
            "Invalid JSON syntax: "@,
        ),
{
    let name = config_name(file_name);
    match json_error(content) {
        None => CheckResult::pass(name.as_str(), "Valid JSON syntax"),
        Some(e) => {
            let msg = crate::textfmt::concat2("Invalid JSON syntax: ", e.as_str());
            proof {
                assert(("Invalid JSON syntax: "@ + e@).subrange(
                    0,
                    "Invalid JSON syntax: "@.len() as int,
                ) =~= "Invalid JSON syntax: "@);
            }
            CheckResult::error(name.as_str(), msg.as_str(), Some("Fix the JSON syntax errors"))
        },
    }
}

/// Validates YAML syntax: a pass exactly when the text parses, an error
/// carrying the parser's message otherwise.
pub fn validate_yaml(file_name: &str, content: &str) -> (r: CheckResult)
    ensures
        r.spec_name() == config_check_name(file_name@),
        (r is Pass) == yaml_ok(content@),
        yaml_ok(content@) ==> r.spec_message() == "Valid YAML syntax"@,
        !yaml_ok(content@) ==> r is Error && starts_with_seq(
            r.spec_message(),
            "Invalid YAML syntax: "@,
        ),
{
    let name = config_name(file_name);
    match yaml_error(content) {
        None => CheckResult::pass(name.as_str(), "Valid YAML syntax"),
        Some(e) => {
            let msg = crate::textfmt::concat2("Invalid YAML syntax: ", e.as_str());
            proof {
                assert(("Invalid YAML syntax: "@ + e@).subrange(
                    0,
                    "Invalid YAML syntax: "@.len() as int,
                ) =~= "Invalid YAML syntax: "@);
            }
            CheckResult::error(name.as_str(), msg.as_str(), Some("Fix the YAML syntax errors"))
        },
    }
}

/// Which validation a configuration file gets, by its extension: the three
/// known formats are parsed; any other extension, or none, is skipped.
pub fn validate_config(file_name: &str, content: &str) -> (r: CheckResult)
    ensures
        r.spec_name() == config_check_name(file_name@),
        match ext_of(file_name@) {
            Some(e) => {
                if e == "toml"@ {
                    (r is Pass) == toml_ok(content@)
                } else if e == "json"@ {
                    (r is Pass) == json_ok(content@)
                } else if e == "yaml"@ || e == "yml"@ {
                    (r is Pass) == yaml_ok(content@)
                } else {
                    r is Pass && starts_with_seq(
                        r.spec_message(),
                        "Skipped validation for ."@,
                    )
                }
            },
            None => r is Pass && r.spec_message() == "No extension, skipping validation"@,
        },
{
    match crate::textfmt::extension_of(file_name) {
        Some(e) => {
            if crate::textfmt::str_eq(e.as_str(), "toml") {
                validate_toml(file_name, content)
            } else if crate::textfmt::str_eq(e.as_str(), "json") {
                validate_json(file_name, content)
            } else if crate::textfmt::str_eq(e.as_str(), "yaml") || crate::textfmt::str_eq(
                e.as_str(),
                "yml",
            ) {
                validate_yaml(file_name, content)
            } else {
                let name = config_name(file_name);
                let mut msg = String::from_str("Skipped validation for .");
                let ghost head = msg@;
                msg.append(e.as_str());
                msg.append(" file");
                proof {
                    assert((head + e@ + " file"@).subrange(0, head.len() as int) =~= head);
                }
                CheckResult::pass(name.as_str(), msg.as_str())
            }
        },
        None => {
            let name = config_name(file_name);
            CheckResult::pass(name.as_str(), "No extension, skipping validation")
        },
    }
}

/// An ASCII letter, digit, underscore or hyphen: what a user name may hold.
pub open spec fn is_user_char(c: char) -> bool {
    ||| (65 <= c as u32 && c as u32 <= 90)
    ||| (97 <= c as u32 && c as u32 <= 122)
    ||| (48 <= c as u32 && c as u32 <= 57)
    ||| c == '_'
    ||| c == '-'
}

/// A hardcoded home path stands at `i`: `/Users/` or `/home/` followed by at
/// least one user-name character.
pub open spec fn home_path_at(s: Seq<char>, i: int) -> bool {
    ||| (0 <= i && i + 8 <= s.len() && s[i] == '/' && s[i + 1] == 'U' && s[i + 2] == 's' && s[i
        + 3] == 'e' && s[i + 4] == 'r' && s[i + 5] == 's' && s[i + 6] == '/' && is_user_char(
        s[i + 7],
    ))
    ||| (0 <= i && i + 7 <= s.len() && s[i] == '/' && s[i + 1] == 'h' && s[i + 2] == 'o' && s[i
        + 3] == 'm' && s[i + 4] == 'e' && s[i + 5] == '/' && is_user_char(s[i + 6]))
}

/// The line holds a hardcoded home path.
pub open spec fn has_home_path(s: Seq<char>) -> bool {
    exists|i: int| home_path_at(s, i)
}

fn user_char(c: char) -> (r: bool)
    ensures
        r == is_user_char(c),
{
    let u = c as u32;
    (65 <= u && u <= 90) || (97 <= u && u <= 122) || (48 <= u && u <= 57) || c == '_' || c == '-'
}

fn home_path_at_exec(s: &str, i: usize, ls: usize) -> (r: bool)
    requires
        ls == s@.len(),
        i < ls,
    ensures
        r == home_path_at(s@, i as int),
{
    if s.get_char(i) != '/' {
        return false;
    }
    let users = ls >= 8 && i <= ls - 8 && s.get_char(i + 1) == 'U' && s.get_char(i + 2) == 's'
        && s.get_char(i + 3) == 'e' && s.get_char(i + 4) == 'r' && s.get_char(i + 5) == 's'
        && s.get_char(i + 6) == '/' && user_char(s.get_char(i + 7));
    let home = ls >= 7 && i <= ls - 7 && s.get_char(i + 1) == 'h' && s.get_char(i + 2) == 'o'
        && s.get_char(i + 3) == 'm' && s.get_char(i + 4) == 'e' && s.get_char(i + 5) == '/'
        && user_char(s.get_char(i + 6));
    users || home
}

fn has_home_path_exec(s: &str) -> (r: bool)
    ensures
        r == has_home_path(s@),
{
    let ls = s.unicode_len();
    let mut i: usize = 0;
    while i < ls
        invariant
            ls == s@.len(),
            0 <= i <= ls,
            forall|q: int| 0 <= q < i ==> !home_path_at(s@, q),
        decreases ls - i,
    {
        if home_path_at_exec(s, i, ls) {
            return true;
        }
        i += 1;
    }
    proof {
        assert forall|q: int| !home_path_at(s@, q) by {
            if 0 <= q < s@.len() {
                assert(q < i);
            }
        }
    }
    false
}

/// The line's left-trimmed text starts with `#`.
pub open spec fn is_hash_comment(s: Seq<char>) -> bool {
    let t = space_run_end(s, 0);
    t < s.len() && s[t] == '#'
}

/// How many lines hold a hardcoded home path, comment lines not counted.
pub open spec fn count_home_path_lines(ls: Seq<Seq<char>>) -> nat
    decreases ls.len(),
{
    if ls.len() == 0 {
        0
    } else {
        count_home_path_lines(ls.drop_last()) + if !is_hash_comment(ls.last()) && has_home_path(
            ls.last(),
        ) {
            1nat
        } else {
            0nat
        }
    }
}

/// Scans one file's text for hardcoded home-directory paths: a pass when no
/// line (outside `#` comments) holds one, a warning counting them
/// otherwise.
pub fn scan_file(file_name: &str, content: &str) -> (r: CheckResult)
    ensures
        r.spec_name() == "Paths:"@ + file_name@,
        (r is Pass) == (count_home_path_lines(spec_lines(content@)) == 0),
        count_home_path_lines(spec_lines(content@)) == 0 ==> r.spec_message()
            == "No hardcoded paths found"@,
        count_home_path_lines(spec_lines(content@)) > 0 ==> r is Warn && r.spec_message()
            == "Found "@ + dec_rep(count_home_path_lines(spec_lines(content@)))
            + " hardcoded path(s)"@,
{
    let name = {
        let r = crate::textfmt::concat2("Paths:", file_name);
        r
    };
    let lines = split_lines(content);
    let n = lines.len();
    let ghost lv = crate::textfmt::strs_view(lines@);
    let mut issues: usize = 0;
    let mut i: usize = 0;
    proof {
        assert(lv.take(0) =~= Seq::<Seq<char>>::empty());
    }
    while i < n
        invariant
            n == lines@.len(),
            lv == crate::textfmt::strs_view(lines@),
            0 <= i <= n,
            issues == count_home_path_lines(lv.take(i as int)),
            issues <= i,
        decreases n - i,
    {
        proof {
            let t1 = lv.take(i + 1);
            assert(t1.drop_last() =~= lv.take(i as int));
            assert(t1.last() == lv[i as int]);
            assert(lv[i as int] == lines@[i as int]@);
        }
        let line = lines[i].as_str();
        let lls = line.unicode_len();
        let t = crate::secrets::space_run_end_exec(line, 0, lls);
        let comment = t < lls && line.get_char(t) == '#';
        if !comment && has_home_path_exec(line) {
            issues += 1;
        }
        i += 1;
    }
    proof {
        assert(lv.take(n as int) =~= lv);
    }
    if issues == 0 {
        CheckResult::pass(name.as_str(), "No hardcoded paths found")
    } else {
        let mut msg = String::from_str("Found ");
        msg.append(usize_to_string(issues).as_str());
        msg.append(" hardcoded path(s)");
        CheckResult::warn(
            name.as_str(),
            msg.as_str(),
            Some("Use $HOME or ~ instead of absolute paths"),
        )
    }
}

} // verus!
