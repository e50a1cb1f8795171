//! Field normalisation: the clean-up applied to each piece of a directory entry.
use crate::text::{
    after_label, contains, find_char, has_infix, position_of, split, split_on, strip_label, trim,
    trim_end, trim_end_bracket, trimmed, trimmed_end, trimmed_end_bracket, views,
};
use vstd::prelude::*;

verus! {

/// Street, city, and a state code run together with its zip code.
pub const ADDRESS_PATTERN: &'static str =
    r"(?P<addr>[\w|\W]+),\s(?P<city>[\w|\W]+),\s(?P<state>[A-Z]{2})(?P<zip>\d+|\d+\-\d+)";

/// The rewrite of an `ADDRESS_PATTERN` match: street and city joined by a space,
/// state and zip separated by one.
pub const ADDRESS_REPLACEMENT: &'static str = "$addr $city, $state $zip";

/// The token that marks the recognition line of a contact block.
pub const RECOGNITION_TOKEN: &'static str = "Recognition";

/// The label in front of the recognition status.
pub const RECOGNITION_LABEL: &'static str = "Recognition Status: ";

/// The label in front of the website address.
pub const WEBSITE_LABEL: &'static str = "Website:";

/// What `regex::Regex::new(pattern)` followed by `replace_all(haystack, replacement)`
/// yields; `None` where the pattern does not compile.
pub uninterp spec fn regex_replace_all(
    pattern: Seq<char>,
    haystack: Seq<char>,
    replacement: Seq<char>,
) -> Option<Seq<char>>;

/// Relies on `regex::Regex::new`, which compiles `pattern` or returns an error, and on
/// `regex::Regex::replace_all`, which replaces every match in `haystack` by `replacement`
/// with its `$name` groups expanded. Both results depend on the arguments alone.
#[verifier::external_body]
fn replace_all(pattern: &str, haystack: &str, replacement: &str) -> (r: Option<String>)
    ensures
        match r {
            Some(s) => regex_replace_all(pattern@, haystack@, replacement@) == Some(s@),
            None => regex_replace_all(pattern@, haystack@, replacement@) is None,
        },
{
    match regex::Regex::new(pattern) {
        Ok(re) => Some(re.replace_all(haystack, replacement).into_owned()),
        Err(_) => None,
    }
}

/// The name part of a heading: what precedes the first `[`, without trailing whitespace.
pub open spec fn name_part(heading: Seq<char>) -> Seq<char> {
    match find_char(heading, '[') {
        Some(i) => trim_end(heading.subrange(0, i)),
        None => trim_end(heading),
    }
}

/// The region part of a heading: what follows the first `[`, without trailing
/// whitespace and `]`; empty where there is no `[`.
pub open spec fn region_part(heading: Seq<char>) -> Seq<char> {
    match find_char(heading, '[') {
        Some(i) => trim_end_bracket(heading.subrange(i + 1, heading.len() as int)),
        None => Seq::empty(),
    }
}

/// Splits a heading into the nation's name and its bracketed region qualifier.
pub fn strip_region_qualifier(heading: &str) -> (r: (String, String))
    ensures
        r.0@ == name_part(heading@),
        r.1@ == region_part(heading@),
{
    match position_of(heading, '[') {
        Some(i) => {
            let n = heading.unicode_len();
            let left = heading.substring_char(0, i);
            let right = heading.substring_char(i + 1, n);
            (trimmed_end(left), trimmed_end_bracket(right))
        },
        None => (trimmed_end(heading), String::new()),
    }
}

/// The first of `lines` that contains `token`.
pub open spec fn first_containing(lines: Seq<Seq<char>>, token: Seq<char>) -> Option<Seq<char>>
    decreases lines.len(),
{
    if lines.len() == 0 {
        None
    } else if has_infix(lines[0], token) {
        Some(lines[0])
    } else {
        first_containing(lines.drop_first(), token)
    }
}

/// The recognition status of a contact block: the first line that mentions
/// `Recognition`, trimmed, less its label; empty where there is none.
pub open spec fn recognition_of(contact: Seq<char>) -> Seq<char> {
    match first_containing(split_on(contact, '\n'), RECOGNITION_TOKEN@) {
        Some(line) => after_label(trim(line), RECOGNITION_LABEL@),
        None => Seq::empty(),
    }
}

/// Reads the recognition status out of a contact block.
pub fn extract_recognition(contact: &str) -> (r: String)
    ensures
        r@ == recognition_of(contact@),
{
    let lines = split(contact, '\n');
    let ghost ls = views(lines@);
    let mut k: usize = 0;
    assert(ls.subrange(0, ls.len() as int) =~= ls);
    while k < lines.len()
        invariant
            k <= lines@.len(),
            ls == views(lines@),
            ls == split_on(contact@, '\n'),
            first_containing(ls, RECOGNITION_TOKEN@) == first_containing(
                ls.subrange(k as int, ls.len() as int),
                RECOGNITION_TOKEN@,
            ),
        decreases lines@.len() - k,
    {
        assert(ls.subrange(k as int, ls.len() as int).drop_first() =~= ls.subrange(
            k + 1,
            ls.len() as int,
        ));
        assert(ls.subrange(k as int, ls.len() as int)[0] == lines@[k as int]@);
        if contains(lines[k].as_str(), RECOGNITION_TOKEN) {
            assert(first_containing(ls.subrange(k as int, ls.len() as int), RECOGNITION_TOKEN@)
                == Some(lines@[k as int]@));
            let line = trimmed(lines[k].as_str());
            return strip_label(line.as_str(), RECOGNITION_LABEL);
        }
        k = k + 1;
    }
    String::new()
}

/// An address with `ADDRESS_PATTERN` rewritten; unchanged where the pattern
/// cannot be compiled.
pub open spec fn address_rewrite(address: Seq<char>) -> Seq<char> {
    match regex_replace_all(ADDRESS_PATTERN@, address, ADDRESS_REPLACEMENT@) {
        Some(s) => s,
        None => address,
    }
}

/// Rewrites `<street>, <city>, <ST><zip>` into `<street> <city>, <ST> <zip>`.
pub fn reformat_address(address: &str) -> (r: String)
    ensures
        r@ == address_rewrite(address@),
{
    match replace_all(ADDRESS_PATTERN, address, ADDRESS_REPLACEMENT) {
        Some(s) => s,
        None => address.to_owned(),
    }
}

/// The website named by the website lines joined with spaces: what follows the
/// `Website:` label, trimmed; empty where the label is absent.
pub open spec fn website_of(joined: Seq<char>) -> Seq<char> {
    trim(after_label(joined, WEBSITE_LABEL@))
}

/// Reads the website address out of the joined website lines.
pub fn extract_website(joined: &str) -> (r: String)
    ensures
        r@ == website_of(joined@),
{
    let rest = strip_label(joined, WEBSITE_LABEL);
    trimmed(rest.as_str())
}

} // verus!
