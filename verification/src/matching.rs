use vstd::prelude::*;

verus! {

/// What compiling `pattern` with the `regex` crate gives: `None` for a valid
/// pattern, the error's text otherwise (`regex::Regex::new`).
pub uninterp spec fn regex_compile(pattern: Seq<char>) -> Option<Seq<char>>;

/// The groups of every successive match of `pattern` in `text`, group 0
/// being the whole match (`regex::Regex::captures_iter`).
pub uninterp spec fn regex_all_groups(pattern: Seq<char>, text: Seq<char>) -> Seq<
    Seq<Option<Seq<char>>>,
>;

/// The groups of the leftmost-first match of `pattern` in `text`, if any
/// (`regex::Regex::captures`).
pub uninterp spec fn regex_first_groups(pattern: Seq<char>, text: Seq<char>) -> Option<
    Seq<Option<Seq<char>>>,
>;

/// The name of each group of `pattern`, group 0 first
/// (`regex::Regex::capture_names`).
pub uninterp spec fn regex_group_names(pattern: Seq<char>) -> Seq<Option<Seq<char>>>;

/// The view of an optional string.
pub open spec fn opt_view(o: Option<String>) -> Option<Seq<char>> {
    match o {
        Some(s) => Some(s@),
        None => None,
    }
}

/// The view of the groups of one match.
pub open spec fn groups_view(g: Seq<Option<String>>) -> Seq<Option<Seq<char>>> {
    g.map_values(|o: Option<String>| opt_view(o))
}

/// The view of the groups of several matches.
pub open spec fn matches_view(m: Seq<Vec<Option<String>>>) -> Seq<Seq<Option<Seq<char>>>> {
    m.map_values(|g: Vec<Option<String>>| groups_view(g@))
}

/// Compiles `pattern` with `regex::Regex::new` and gives back the error's
/// text when it is not a valid pattern. The contract ties the outcome to
/// `regex_compile`; what makes a pattern valid is the `regex` crate's
/// syntax and is not stated here.
#[verifier::external_body]
pub fn pattern_error(pattern: &str) -> (r: Option<String>)
    ensures
        opt_view(r) == regex_compile(pattern@),
{
    match regex::Regex::new(pattern) {
        Ok(_) => None,
        Err(e) => Some(e.to_string()),
    }
}

/// All successive matches of a valid `pattern` in `text`
/// (`regex::Regex::captures_iter`), each as its groups; group 0 of a match
/// always holds, as the `regex` documentation says, the whole match.
#[verifier::external_body]
pub fn all_groups(pattern: &str, text: &str) -> (r: Vec<Vec<Option<String>>>)
    requires
        regex_compile(pattern@) is None,
    ensures
        matches_view(r@) == regex_all_groups(pattern@, text@),
        forall|i: int|
            0 <= i < r@.len() ==> #[trigger] r@[i]@.len() > 0 && r@[i]@[0] is Some,
{
    let re = regex::Regex::new(pattern).unwrap();
    re.captures_iter(text).map(|c| c.iter().map(|m| m.map(|m| m.as_str().to_string())).collect()).collect()
}

/// The leftmost-first match of a valid `pattern` in `text`
/// (`regex::Regex::captures`), as its groups.
#[verifier::external_body]
pub fn first_groups(pattern: &str, text: &str) -> (r: Option<Vec<Option<String>>>)
    requires
        regex_compile(pattern@) is None,
    ensures
        match r {
            Some(g) => regex_first_groups(pattern@, text@) == Some(groups_view(g@)),
            None => regex_first_groups(pattern@, text@) is None,
        },
{
    let re = regex::Regex::new(pattern).unwrap();
    re.captures(text).map(|c| c.iter().map(|m| m.map(|m| m.as_str().to_string())).collect())
}

/// The names of the groups of a valid `pattern`
/// (`regex::Regex::capture_names`), group 0 first.
#[verifier::external_body]
pub fn group_names(pattern: &str) -> (r: Vec<Option<String>>)
    requires
        regex_compile(pattern@) is None,
    ensures
        groups_view(r@) == regex_group_names(pattern@),
{
    let re = regex::Regex::new(pattern).unwrap();
    re.capture_names().map(|n| n.map(|n| n.to_string())).collect()
}

} // verus!
