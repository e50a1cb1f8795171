//! The query engine: filters over a table of records and statistics on it.
use crate::args::WebsiteFilter;
use crate::record::Nation;
use crate::text::{contains, ends_with, has_infix, has_prefix, has_suffix, same_text, starts_with};
use vstd::prelude::*;

verus! {

/// Recognition status counted by the statistics.
pub const FEDERAL: &'static str = "Federal";

/// Whether a website belongs to class `f`.
pub open spec fn website_matches(website: Seq<char>, f: WebsiteFilter) -> bool {
    match f {
        WebsiteFilter::DotGov => has_suffix(website, ".gov"@),
        WebsiteFilter::DotCom => has_suffix(website, ".com"@),
        WebsiteFilter::DotNet => has_suffix(website, ".net"@),
        WebsiteFilter::DotOrg => has_suffix(website, ".org"@),
        WebsiteFilter::Http => has_prefix(website, "http:"@),
        WebsiteFilter::Https => has_prefix(website, "https:"@),
    }
}

impl WebsiteFilter {
    /// Whether `website` belongs to this class.
    pub fn matches(&self, website: &str) -> (r: bool)
        ensures
            r == website_matches(website@, *self),
    {
        match self {
            WebsiteFilter::DotGov => ends_with(website, ".gov"),
            WebsiteFilter::DotCom => ends_with(website, ".com"),
            WebsiteFilter::DotNet => ends_with(website, ".net"),
            WebsiteFilter::DotOrg => ends_with(website, ".org"),
            WebsiteFilter::Http => starts_with(website, "http:"),
            WebsiteFilter::Https => starts_with(website, "https:"),
        }
    }
}

/// The view of an optional string.
pub open spec fn opt_view(o: Option<String>) -> Option<Seq<char>> {
    match o {
        Some(s) => Some(s@),
        None => None,
    }
}

/// Whether a record passes the name, state and website-class filters; an absent
/// filter passes every record.
pub open spec fn keeps(
    n: Nation,
    filter: Option<WebsiteFilter>,
    state: Option<Seq<char>>,
    name: Option<Seq<char>>,
) -> bool {
    &&& match name {
        Some(s) => has_infix(n.nation@, s),
        None => true,
    }
    &&& match state {
        Some(s) => has_infix(n.address@, s),
        None => true,
    }
    &&& match filter {
        Some(f) => website_matches(n.website@, f),
        None => true,
    }
}

/// The records of `table` that pass the filters, in table order.
pub open spec fn filtered(
    table: Seq<Nation>,
    filter: Option<WebsiteFilter>,
    state: Option<Seq<char>>,
    name: Option<Seq<char>>,
) -> Seq<Nation> {
    table.filter(|n: Nation| keeps(n, filter, state, name))
}

fn keeps_nation(
    n: &Nation,
    filter: &Option<WebsiteFilter>,
    state: &Option<String>,
    name: &Option<String>,
) -> (r: bool)
    ensures
        r == keeps(*n, *filter, opt_view(*state), opt_view(*name)),
{
    let name_ok = match name {
        Some(s) => contains(n.nation.as_str(), s.as_str()),
        None => true,
    };
    let state_ok = match state {
        Some(s) => contains(n.address.as_str(), s.as_str()),
        None => true,
    };
    let class_ok = match filter {
        Some(f) => f.matches(n.website.as_str()),
        None => true,
    };
    name_ok && state_ok && class_ok
}

/// The records whose name contains `name`, whose address contains `state` and
/// whose website is of class `filter`, each test skipped where its argument is absent.
pub fn filter_govts(
    table: &Vec<Nation>,
    filter: &Option<WebsiteFilter>,
    state: &Option<String>,
    name: &Option<String>,
) -> (r: Vec<Nation>)
    ensures
        r@ == filtered(table@, *filter, opt_view(*state), opt_view(*name)),
{
    let ghost pred = |n: Nation| keeps(n, *filter, opt_view(*state), opt_view(*name));
    let mut r: Vec<Nation> = Vec::new();
    let mut i: usize = 0;
    assert(table@.subrange(0, 0).filter(pred) =~= Seq::<Nation>::empty()) by {
        reveal(Seq::filter);
    }
    while i < table.len()
        invariant
            i <= table@.len(),
            pred == (|n: Nation| keeps(n, *filter, opt_view(*state), opt_view(*name))),
            r@ == table@.subrange(0, i as int).filter(pred),
        decreases table@.len() - i,
    {
        assert(table@.subrange(0, i + 1) =~= table@.subrange(0, i as int).push(table@[i as int]));
        proof {
            table@.subrange(0, i as int).lemma_filter_push(table@[i as int], pred);
        }
        if keeps_nation(&table[i], filter, state, name) {
            r.push(table[i].duplicate());
        }
        i = i + 1;
    }
    assert(table@.subrange(0, table@.len() as int) =~= table@);
    r
}

/// The names of all records, in table order.
pub fn list_govts(table: &Vec<Nation>) -> (r: Vec<String>)
    ensures
        r@.len() == table@.len(),
        forall|i: int| 0 <= i < table@.len() ==> #[trigger] r@[i] == table@[i].nation,
{
    let mut r: Vec<String> = Vec::new();
    let mut i: usize = 0;
    while i < table.len()
        invariant
            i <= table@.len(),
            r@.len() == i,
            forall|k: int| 0 <= k < i ==> #[trigger] r@[k] == table@[k].nation,
        decreases table@.len() - i,
    {
        r.push(table[i].nation.clone());
        i = i + 1;
    }
    r
}


/// Whether a record's recognition status is `Federal`.
pub open spec fn is_federal(n: Nation) -> bool {
    n.recognition@ == FEDERAL@
}

/// Number of federally recognised records.
pub open spec fn federal_count(table: Seq<Nation>) -> nat {
    table.filter(|n: Nation| is_federal(n)).len()
}

/// Number of federally recognised records that list a website.
pub open spec fn federal_site_count(table: Seq<Nation>) -> nat {
    table.filter(|n: Nation| is_federal(n) && n.website@.len() > 0).len()
}

/// Number of records, of any recognition, whose website is of class `f`.
pub open spec fn class_count(table: Seq<Nation>, f: WebsiteFilter) -> nat {
    table.filter(|n: Nation| website_matches(n.website@, f)).len()
}

/// Website statistics for one website class.
#[derive(Clone, Copy, Debug, PartialEq, Eq, Structural)]
pub struct StatsResult {
    /// Records whose website is of the class.
    pub match_count: usize,
    /// `match_count` as a whole percentage of the federal records with a website.
    pub percent_of_websites: u128,
    /// `match_count` as a whole percentage of the federal records.
    pub percent_of_nations: u128,
}

/// Why no percentage can be given.
#[derive(Clone, Copy, Debug, PartialEq, Eq, Structural)]
pub enum StatsError {
    /// The table has no federally recognised record.
    NoFederalNations,
    /// No federally recognised record lists a website.
    NoFederalWebsites,
}

/// Statistics on the websites of class `filter`: how many records have one, as a
/// count and as whole percentages of the federal records with a website and of
/// all federal records. Nothing is computed without a class; a percentage with a
/// zero base is an error.
pub fn stats(table: &Vec<Nation>, filter: &Option<WebsiteFilter>) -> (r: Result<
    Option<StatsResult>,
    StatsError,
>)
    ensures
        match *filter {
            None => r == Ok::<Option<StatsResult>, StatsError>(None),
            Some(f) => match r {
                Ok(Some(s)) => {
                    &&& federal_site_count(table@) > 0
                    &&& federal_count(table@) > 0
                    &&& s.match_count == class_count(table@, f)
                    &&& s.percent_of_websites == class_count(table@, f) * 100 / federal_site_count(
                        table@,
                    )
                    &&& s.percent_of_nations == class_count(table@, f) * 100 / federal_count(
                        table@,
                    )
                },
                Ok(None) => false,
                Err(e) => {
                    &&& federal_site_count(table@) == 0
                    &&& e == if federal_count(table@) == 0 {
                        StatsError::NoFederalNations
                    } else {
                        StatsError::NoFederalWebsites
                    }
                },
            },
        },
{
    let f = match filter {
        Some(f) => *f,
        None => return Ok(None),
    };
    let ghost fed_pred = |n: Nation| is_federal(n);
    let ghost site_pred = |n: Nation| is_federal(n) && n.website@.len() > 0;
    let ghost class_pred = |n: Nation| website_matches(n.website@, f);
    let mut nations: usize = 0;
    let mut websites: usize = 0;
    let mut matched: usize = 0;
    let mut i: usize = 0;
    assert(table@.subrange(0, 0) =~= Seq::<Nation>::empty());
    proof {
        reveal(Seq::filter);
    }
    while i < table.len()
        invariant
            i <= table@.len(),
            fed_pred == (|n: Nation| is_federal(n)),
            site_pred == (|n: Nation| is_federal(n) && n.website@.len() > 0),
            class_pred == (|n: Nation| website_matches(n.website@, f)),
            nations == table@.subrange(0, i as int).filter(fed_pred).len(),
            websites == table@.subrange(0, i as int).filter(site_pred).len(),
            matched == table@.subrange(0, i as int).filter(class_pred).len(),
            websites <= nations <= i,
            matched <= i,
        decreases table@.len() - i,
    {
        let n = &table[i];
        assert(table@.subrange(0, i + 1) =~= table@.subrange(0, i as int).push(*n));
        proof {
            table@.subrange(0, i as int).lemma_filter_push(*n, fed_pred);
            table@.subrange(0, i as int).lemma_filter_push(*n, site_pred);
            table@.subrange(0, i as int).lemma_filter_push(*n, class_pred);
        }
        if same_text(n.recognition.as_str(), FEDERAL) {
            nations = nations + 1;
            if n.website.unicode_len() > 0 {
                websites = websites + 1;
            }
        }
        if f.matches(n.website.as_str()) {
            matched = matched + 1;
        }
        i = i + 1;
    }
    assert(table@.subrange(0, table@.len() as int) =~= table@);
    if websites == 0 {
        if nations == 0 {
            return Err(StatsError::NoFederalNations);
        }
        return Err(StatsError::NoFederalWebsites);
    }
    let scaled = matched as u128 * 100;
    Ok(
        Some(
            StatsResult {
                match_count: matched,
                percent_of_websites: scaled / (websites as u128),
                percent_of_nations: scaled / (nations as u128),
            },
        ),
    )
}


proof fn lemma_filter_has(s: Seq<Nation>, p: spec_fn(Nation) -> bool, x: Nation)
    ensures
        s.filter(p).contains(x) <==> s.contains(x) && p(x),
{
    broadcast use vstd::seq_lib::group_filter_ensures;

    if s.filter(p).contains(x) {
        s.lemma_filter_contains_rev(p, x);
        let i = choose|i: int| 0 <= i < s.filter(p).len() && s.filter(p)[i] == x;
        s.lemma_filter_pred(p, i);
    }
    if s.contains(x) && p(x) {
        let i = choose|i: int| 0 <= i < s.len() && s[i] == x;
        s.lemma_filter_contains(p, i);
    }
}

/// Filtering by name, state and website class at once keeps the same records as
/// the intersection of the three filters applied one at a time to the table.
pub proof fn lemma_filter_is_intersection(
    table: Seq<Nation>,
    filter: Option<WebsiteFilter>,
    state: Option<Seq<char>>,
    name: Option<Seq<char>>,
)
    ensures
        filtered(table, filter, state, name).to_set() == filtered(table, None, None, name).to_set().intersect(
            filtered(table, None, state, None).to_set(),
        ).intersect(filtered(table, filter, None, None).to_set()),
{
    assert forall|x: Nation|
        filtered(table, filter, state, name).contains(x) <==> (filtered(
            table,
            None,
            None,
            name,
        ).contains(x) && filtered(table, None, state, None).contains(x) && filtered(
            table,
            filter,
            None,
            None,
        ).contains(x)) by {
        lemma_filter_has(table, |n: Nation| keeps(n, filter, state, name), x);
        lemma_filter_has(table, |n: Nation| keeps(n, None, None, name), x);
        lemma_filter_has(table, |n: Nation| keeps(n, None, state, None), x);
        lemma_filter_has(table, |n: Nation| keeps(n, filter, None, None), x);
    }
    assert(filtered(table, filter, state, name).to_set() =~= filtered(table, None, None, name).to_set().intersect(
        filtered(table, None, state, None).to_set(),
    ).intersect(filtered(table, filter, None, None).to_set()));
}

/// Whether a website is of the `http` or the `https` class.
pub open spec fn has_protocol_class(website: Seq<char>) -> bool {
    website_matches(website, WebsiteFilter::Http) || website_matches(website, WebsiteFilter::Https)
}

/// Whether a website is of one of the four domain classes.
pub open spec fn has_domain_class(website: Seq<char>) -> bool {
    website_matches(website, WebsiteFilter::DotGov) || website_matches(website, WebsiteFilter::DotCom)
        || website_matches(website, WebsiteFilter::DotNet) || website_matches(
        website,
        WebsiteFilter::DotOrg,
    )
}

/// An empty website is of no class. Any other website is of at most one class,
/// provided it is not of a protocol class and a domain class both, as
/// `http://example.com` is.
pub proof fn lemma_website_class_partition(website: Seq<char>, f: WebsiteFilter, g: WebsiteFilter)
    requires
        !(has_protocol_class(website) && has_domain_class(website)),
    ensures
        website.len() == 0 ==> !website_matches(website, f),
        website_matches(website, f) && website_matches(website, g) ==> f == g,
{
    reveal_strlit(".gov");
    reveal_strlit(".com");
    reveal_strlit(".net");
    reveal_strlit(".org");
    reveal_strlit("http:");
    reveal_strlit("https:");
    let n = website.len() as int;
    if website_matches(website, f) && website_matches(website, g) && n >= 4 {
        let tail = website.subrange(n - 4, n);
        assert(tail[1] == website[n - 3]);
        assert(tail[2] == website[n - 2]);
        if n >= 6 {
            assert(website.subrange(0, 6)[4] == website[4]);
        }
        if n >= 5 {
            assert(website.subrange(0, 5)[4] == website[4]);
        }
    }
}

/// The match count of the statistics for a class is the size of the table
/// filtered by that class alone.
pub proof fn lemma_class_count_is_filter_size(table: Seq<Nation>, f: WebsiteFilter)
    ensures
        class_count(table, f) == filtered(table, Some(f), None, None).len(),
{
    assert((|n: Nation| website_matches(n.website@, f)) =~= (|n: Nation|
        keeps(n, Some(f), None, None)));
}

} // verus!
