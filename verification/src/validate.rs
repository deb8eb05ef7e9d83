//! Path whitelist check, configuration lookup and the shared-secret check.
//!
//! The configuration source is a `KEY=VALUE` text store, one pair per line;
//! the caller hands its full text in. Lookup selects the last line containing
//! the key and takes everything after the line's first `=`; a missing key or
//! a line without `=` degrades to the empty value, which then simply fails
//! the equality check against any supplied header. The request header is
//! matched by case-sensitive substring containment of its name, later
//! entries shadowing earlier ones.

use vstd::prelude::*;
use vstd::string::*;

use crate::text::{
    contains_seq, contains_sub, find_first, last_match, last_match_value, split_on, split_once_str,
    split_str, str_eq,
};

verus! {

/// A path is valid exactly when it is one of `/`, `/ping`, `/metric`.
pub open spec fn spec_valid_path(path: Seq<char>) -> bool {
    path == "/"@ || path == "/ping"@ || path == "/metric"@
}

/// Whitelist check of the request path: no wildcard or prefix matching.
pub fn is_valid_path(path: &String) -> (r: bool)
    ensures
        r == spec_valid_path(path@),
{
    if str_eq(path.as_str(), "/") {
        true
    } else if str_eq(path.as_str(), "/ping") {
        true
    } else if str_eq(path.as_str(), "/metric") {
        true
    } else {
        false
    }
}

/// The last line containing `key` as a substring, if any.
pub open spec fn last_containing(lines: Seq<Seq<char>>, key: Seq<char>) -> Option<Seq<char>>
    decreases lines.len(),
{
    if lines.len() == 0 {
        None
    } else if contains_seq(lines.last(), key) {
        Some(lines.last())
    } else {
        last_containing(lines.drop_last(), key)
    }
}

/// Value looked up in the configuration text: everything after the first `=`
/// of the last newline-delimited line containing `key`, or the empty string
/// when no line contains `key` or the selected line has no `=`.
pub open spec fn env_value(contents: Seq<char>, key: Seq<char>) -> Seq<char> {
    match last_containing(split_on(contents, "\n"@), key) {
        None => Seq::empty(),
        Some(line) => {
            let i = find_first(line, "="@);
            if i < 0 {
                Seq::empty()
            } else {
                line.skip(i + 1)
            }
        },
    }
}

/// Reads the value of `key` out of the configuration text.
#[verifier::loop_isolation(false)]
pub fn get_key_value_pair_from_env(file_contents: &str, key: &str) -> (r: String)
    ensures
        r@ == env_value(file_contents@, key@),
{
    proof {
        reveal_strlit("\n");
        reveal_strlit("=");
    }
    let lines = split_str(file_contents, "\n");
    let mut sel: Option<String> = None;
    let mut i: usize = 0;
    while i < lines.len()
        invariant
            0 <= i <= lines.len(),
            match sel {
                None => last_containing(lines.deep_view().take(i as int), key@) is None,
                Some(l) => last_containing(lines.deep_view().take(i as int), key@) == Some(l@),
            },
        decreases lines.len() - i,
    {
        proof {
            let dv = lines.deep_view();
            assert(dv.take(i + 1).drop_last() =~= dv.take(i as int));
            assert(dv.take(i + 1).last() == dv[i as int]);
            assert(dv[i as int] == lines[i as int]@);
        }
        if contains_sub(lines[i].as_str(), key) {
            sel = Some(lines[i].clone());
        }
        i += 1;
    }
    proof {
        assert(lines.deep_view().take(lines.len() as int) =~= lines.deep_view());
    }
    match sel {
        None => String::new(),
        Some(line) => {
            match split_once_str(line.as_str(), "=") {
                None => String::new(),
                Some(p) => p.1,
            }
        },
    }
}

/// Value of the request header whose name contains `key` as a substring, the
/// last such header winning, if any.
pub open spec fn header_value(headers: Seq<(Seq<char>, Seq<char>)>, key: Seq<char>) -> Option<
    Seq<char>,
> {
    match last_match(headers, key) {
        None => None,
        Some(p) => Some(p.1),
    }
}

/// The request carries the configured secret: the header matched by the
/// `x-ulysses-key` substring rule exists and its value equals `secret`
/// exactly. A missing header never validates, whatever the secret.
pub fn has_valid_ulysses_key(secret: &str, headers: &Vec<(String, String)>) -> (r: bool)
    ensures
        r == (header_value(headers.deep_view(), "x-ulysses-key"@) == Some(secret@)),
{
    match last_match_value(headers, "x-ulysses-key") {
        None => false,
        Some(v) => str_eq(v.as_str(), secret),
    }
}

} // verus!
