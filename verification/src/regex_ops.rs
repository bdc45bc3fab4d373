//! Regular-expression operations, provided by the `regex` crate.
//!
//! What a pattern matches is named, not restated: each operation's result is
//! tied to the pattern and text it is given through the names below.
use vstd::prelude::*;
use crate::text::{views, opt_view};

verus! {

/// Whether `pattern` is accepted by `regex::Regex::new`.
pub uninterp spec fn regex_compiles(pattern: Seq<char>) -> bool;

/// The message of the error `regex::Regex::new` reports for `pattern`.
pub uninterp spec fn regex_error_message(pattern: Seq<char>) -> Seq<char>;

/// `Regex::is_match(text)` for the compiled `pattern`.
pub uninterp spec fn regex_finds(pattern: Seq<char>, text: Seq<char>) -> bool;

/// `Regex::captures_iter(text)` for the compiled `pattern`: for each successive
/// match, the text of each group named in `groups` (`None` where the group did
/// not take part in the match or does not exist).
pub uninterp spec fn regex_captures(
    pattern: Seq<char>,
    text: Seq<char>,
    groups: Seq<Seq<char>>,
) -> Seq<Seq<Option<Seq<char>>>>;

/// `Regex::capture_names()` for the compiled `pattern`: the names of its named
/// groups.
pub uninterp spec fn regex_group_names(pattern: Seq<char>) -> Seq<Seq<char>>;

/// `Regex::replace_all(text, replacement)` for the compiled `pattern`.
pub uninterp spec fn regex_replaced(
    pattern: Seq<char>,
    text: Seq<char>,
    replacement: Seq<char>,
) -> Seq<char>;

/// `is_match` where the pattern compiles, and no match where it does not.
pub open spec fn finds(pattern: Seq<char>, text: Seq<char>) -> bool {
    regex_compiles(pattern) && regex_finds(pattern, text)
}

/// Captures of `groups` for each match, or none where the pattern does not
/// compile.
pub open spec fn captures(pattern: Seq<char>, text: Seq<char>, groups: Seq<Seq<char>>) -> Seq<
    Seq<Option<Seq<char>>>,
> {
    if regex_compiles(pattern) {
        regex_captures(pattern, text, groups)
    } else {
        seq![]
    }
}

/// `replace_all`, or the text unchanged where the pattern does not compile.
pub open spec fn replaced(pattern: Seq<char>, text: Seq<char>, replacement: Seq<char>) -> Seq<
    char,
> {
    if regex_compiles(pattern) {
        regex_replaced(pattern, text, replacement)
    } else {
        text
    }
}

/// The views of a table of captures.
pub open spec fn captures_view(v: Seq<Vec<Option<String>>>) -> Seq<Seq<Option<Seq<char>>>> {
    v.map_values(|m: Vec<Option<String>>| m@.map_values(|o: Option<String>| opt_view(o)))
}

/// Compiles `pattern` and tests whether it matches somewhere in `text`
/// (`Regex::new` then `Regex::is_match`). `None` where the pattern does not
/// compile.
#[verifier::external_body]
fn regex_is_match(pattern: &str, text: &str) -> (r: Option<bool>)
    ensures
        r is Some <==> regex_compiles(pattern@),
        r matches Some(b) ==> b == regex_finds(pattern@, text@),
{
    match regex::Regex::new(pattern) {
        Ok(re) => Some(re.is_match(text)),
        Err(_) => None,
    }
}

/// Whether `pattern` compiles and matches somewhere in `text`.
pub fn regex_matches(pattern: &str, text: &str) -> (r: bool)
    ensures
        r == finds(pattern@, text@),
{
    match regex_is_match(pattern, text) {
        Some(b) => b,
        None => false,
    }
}

/// Compiles `pattern` and collects, for every match of `Regex::captures_iter`,
/// the text of each group named in `groups`. `None` where the pattern does not
/// compile.
#[verifier::external_body]
fn regex_captures_iter(pattern: &str, text: &str, groups: &[&str]) -> (r: Option<
    Vec<Vec<Option<String>>>,
>)
    ensures
        r is Some <==> regex_compiles(pattern@),
        r matches Some(v) ==> captures_view(v@) == regex_captures(
            pattern@,
            text@,
            groups@.map_values(|g: &str| g@),
        ),
        r matches Some(v) ==> forall|i: int| 0 <= i < v@.len() ==> (#[trigger] v@[i]).len()
            == groups@.len(),
{
    let re = regex::Regex::new(pattern).ok()?;
    Some(
        re.captures_iter(text).map(|caps| {
            groups.iter().map(|g| caps.name(g).map(|m| m.as_str().to_string())).collect()
        }).collect(),
    )
}

/// The captures of `groups` for each match of `pattern` in `text`; empty where
/// the pattern does not compile.
pub fn regex_capture_table(pattern: &str, text: &str, groups: &[&str]) -> (r: Vec<
    Vec<Option<String>>,
>)
    ensures
        captures_view(r@) == captures(pattern@, text@, groups@.map_values(|g: &str| g@)),
        forall|i: int| 0 <= i < r@.len() ==> (#[trigger] r@[i]).len() == groups@.len(),
{
    match regex_captures_iter(pattern, text, groups) {
        Some(v) => v,
        None => {
            let v: Vec<Vec<Option<String>>> = Vec::new();
            assert(captures_view(v@) =~= seq![]);
            v
        },
    }
}

/// Compiles `pattern` and lists its named groups (`Regex::capture_names`);
/// on a compile error, the error's message.
#[verifier::external_body]
pub fn regex_named_groups(pattern: &str) -> (r: Result<Vec<String>, String>)
    ensures
        r is Ok <==> regex_compiles(pattern@),
        r matches Ok(v) ==> views(v@) == regex_group_names(pattern@),
        r matches Err(e) ==> e@ == regex_error_message(pattern@),
{
    match regex::Regex::new(pattern) {
        Ok(re) => Ok(re.capture_names().flatten().map(|n| n.to_string()).collect()),
        Err(error) => Err(error.to_string()),
    }
}

/// Compiles `pattern` and replaces every match in `text` with `replacement`
/// (`Regex::replace_all`). `None` where the pattern does not compile.
#[verifier::external_body]
fn regex_replace_all(pattern: &str, text: &str, replacement: &str) -> (r: Option<String>)
    ensures
        r is Some <==> regex_compiles(pattern@),
        r matches Some(s) ==> s@ == regex_replaced(pattern@, text@, replacement@),
{
    let re = regex::Regex::new(pattern).ok()?;
    Some(re.replace_all(text, replacement).to_string())
}

/// `replace_all`; the text unchanged where the pattern does not compile.
pub fn regex_replace(pattern: &str, text: &str, replacement: &str) -> (r: String)
    ensures
        r@ == replaced(pattern@, text@, replacement@),
{
    match regex_replace_all(pattern, text, replacement) {
        Some(s) => s,
        None => crate::text::owned(text),
    }
}

} // verus!
