use vstd::prelude::*;

verus! {

/// What the regex crate yields for `pattern` and `haystack`: the text of capture group
/// `group` in the leftmost-first match (`Regex::new(pattern)?.captures(haystack)?.get(group)`),
/// or the message of the error that compiling `pattern` gives.
pub uninterp spec fn regex_capture(pattern: Seq<char>, haystack: Seq<char>, group: usize) -> Result<
    Option<Seq<char>>,
    Seq<char>,
>;

/// The regex crate's `Regex::new(pattern)`, then `captures(haystack)` and `get(group)`: the
/// text that group `group` captured in the leftmost-first match, `None` where there is no
/// match or the group took no part in it, or the message of a pattern that does not
/// compile. Regular-expression matching takes pages to state, so the result is named by
/// `regex_capture`.
#[verifier::external_body]
pub(crate) fn regex_capture_group(pattern: &str, haystack: &str, group: usize) -> (res: Result<
    Option<String>,
    String,
>)
    ensures
        match res {
            Ok(Some(t)) => regex_capture(pattern@, haystack@, group) == Ok::<
                Option<Seq<char>>,
                Seq<char>,
            >(Some(t@)),
            Ok(None) => regex_capture(pattern@, haystack@, group) == Ok::<
                Option<Seq<char>>,
                Seq<char>,
            >(None),
            Err(e) => regex_capture(pattern@, haystack@, group) == Err::<
                Option<Seq<char>>,
                Seq<char>,
            >(e@),
        },
{
    let re = regex::Regex::new(pattern).map_err(|e| e.to_string())?;
    Ok(re.captures(haystack).and_then(|c| c.get(group)).map(|m| m.as_str().to_string()))
}

} // verus!
