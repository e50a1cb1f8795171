//! Record extraction: from one listing entry to a record, and from a listing
//! page to the rows of its entries.
use crate::markup::{attr_text, elements_html, find_elements, first_attr_text, first_tag_text, tag_text};
use crate::normalize::{
    address_rewrite, extract_recognition, extract_website, name_part, recognition_of,
    reformat_address, region_part, strip_region_qualifier, website_of,
};
use crate::record::Nation;
use crate::text::{join, join_range, split, split_on, trim, trim_each, views};
use vstd::prelude::*;

verus! {

/// Element that holds one listing entry.
pub const ENTRY_TAG: &'static str = "article";

/// Class that marks an entry element.
pub const ENTRY_CLASS: &'static str = "clearfix";

/// Element that holds the name and region of an entry.
pub const HEADING_TAG: &'static str = "h2";

/// Element that holds the contact block with the recognition status.
pub const DESCRIPTION_TAG: &'static str = "p";

/// Attribute and value that mark the address and website block.
pub const SECONDARY_ATTR: &'static str = "class";

/// See `SECONDARY_ATTR`.
pub const SECONDARY_VALUE: &'static str = "right";

/// Part of an entry without which no record can be made of it.
#[derive(Clone, Copy, Debug, PartialEq, Eq, Structural)]
pub enum MissingPart {
    /// The heading with the name.
    Heading,
    /// The contact block with the recognition status.
    Description,
}

/// An entry of a page lacks a required part.
#[derive(Clone, Copy, Debug, PartialEq, Eq, Structural)]
pub struct ExtractError {
    /// Position of the entry on its page, from zero.
    pub entry: usize,
    /// What it lacks.
    pub part: MissingPart,
}

/// The lines of an address and website block, each trimmed.
pub open spec fn secondary_lines(block: Seq<char>) -> Seq<Seq<char>> {
    split_on(block, '\n').map_values(|l: Seq<char>| trim(l))
}

/// How many of `n` lines belong to the address: the first two.
pub open spec fn address_line_count(n: int) -> int {
    if n < 2 {
        n
    } else {
        2
    }
}

/// The address lines joined with `", "`.
pub open spec fn address_join(lines: Seq<Seq<char>>) -> Seq<char> {
    join(lines.subrange(0, address_line_count(lines.len() as int)), ", "@)
}

/// The lines after the address joined with single spaces.
pub open spec fn website_join(lines: Seq<Seq<char>>) -> Seq<char> {
    join(
        lines.subrange(address_line_count(lines.len() as int), lines.len() as int),
        " "@,
    )
}

/// The five fields made of a heading, a contact block and, where present, an
/// address and website block.
pub open spec fn fields_from(
    heading: Seq<char>,
    contact: Seq<char>,
    secondary: Option<Seq<char>>,
) -> Seq<Seq<char>> {
    let (address, website) = match secondary {
        Some(block) => (
            address_rewrite(address_join(secondary_lines(block))),
            website_of(website_join(secondary_lines(block))),
        ),
        None => (Seq::empty(), Seq::empty()),
    };
    seq![name_part(heading), region_part(heading), recognition_of(contact), address, website]
}

/// The record of one entry, or the first required part that it lacks.
pub open spec fn entry_outcome(fragment: Seq<char>) -> Result<Seq<Seq<char>>, MissingPart> {
    match tag_text(fragment, HEADING_TAG@) {
        None => Err(MissingPart::Heading),
        Some(heading) => match tag_text(fragment, DESCRIPTION_TAG@) {
            None => Err(MissingPart::Description),
            Some(contact) => Ok(
                fields_from(heading, contact, attr_text(fragment, SECONDARY_ATTR@, SECONDARY_VALUE@)),
            ),
        },
    }
}

/// An entry that has a heading and a contact block but no address and website
/// block still makes a five-field record, with an empty address and website.
pub proof fn lemma_missing_secondary_block(fragment: Seq<char>)
    requires
        tag_text(fragment, HEADING_TAG@) is Some,
        tag_text(fragment, DESCRIPTION_TAG@) is Some,
        attr_text(fragment, SECONDARY_ATTR@, SECONDARY_VALUE@) is None,
    ensures
        entry_outcome(fragment) is Ok,
        entry_outcome(fragment)->Ok_0.len() == 5,
        entry_outcome(fragment)->Ok_0[3].len() == 0,
        entry_outcome(fragment)->Ok_0[4].len() == 0,
{
}

/// Builds a record from the text of an entry's heading, its contact block and,
/// where the entry has one, its address and website block.
pub fn record_from_texts(heading: &str, contact: &str, secondary: Option<&str>) -> (r: Nation)
    ensures
        r.fields() == fields_from(
            heading@,
            contact@,
            match secondary {
                Some(b) => Some(b@),
                None => None,
            },
        ),
{
    let (nation, region) = strip_region_qualifier(heading);
    let recognition = extract_recognition(contact);
    let (address, website) = match secondary {
        Some(block) => {
            let lines = trim_each(&split(block, '\n'));
            let n = lines.len();
            let count: usize = if n < 2 {
                n
            } else {
                2
            };
            proof {
                assert(views(lines@) =~= secondary_lines(block@));
            }
            let joined_address = join_range(&lines, 0, count, ", ");
            let joined_website = join_range(&lines, count, n, " ");
            (reformat_address(joined_address.as_str()), extract_website(joined_website.as_str()))
        },
        None => (String::new(), String::new()),
    };
    let r = Nation { nation, region, recognition, address, website };
    assert(r.fields() =~= fields_from(
        heading@,
        contact@,
        match secondary {
            Some(b) => Some(b@),
            None => None,
        },
    ));
    r
}

/// Builds the record of one listing entry from its markup.
pub fn extract_record(fragment: &str) -> (r: Result<Nation, MissingPart>)
    ensures
        match r {
            Ok(n) => entry_outcome(fragment@) == Ok::<Seq<Seq<char>>, MissingPart>(n.fields()),
            Err(part) => entry_outcome(fragment@) == Err::<Seq<Seq<char>>, MissingPart>(part),
        },
{
    let heading = match first_tag_text(fragment, HEADING_TAG) {
        Some(h) => h,
        None => return Err(MissingPart::Heading),
    };
    let contact = match first_tag_text(fragment, DESCRIPTION_TAG) {
        Some(c) => c,
        None => return Err(MissingPart::Description),
    };
    let secondary = first_attr_text(fragment, SECONDARY_ATTR, SECONDARY_VALUE);
    let n = match &secondary {
        Some(b) => record_from_texts(heading.as_str(), contact.as_str(), Some(b.as_str())),
        None => record_from_texts(heading.as_str(), contact.as_str(), None),
    };
    Ok(n)
}

/// The rows of every listing entry of a page, in document order; or the first
/// entry that lacks a required part.
pub fn select_html(res: &str) -> (r: Result<Vec<Vec<String>>, ExtractError>)
    ensures
        ({
            let entries = elements_html(res@, ENTRY_TAG@, ENTRY_CLASS@);
            match r {
                Ok(rows) => rows@.len() == entries.len() && forall|i: int|
                    0 <= i < entries.len() ==> entry_outcome(entries[i]) == Ok::<
                        Seq<Seq<char>>,
                        MissingPart,
                    >(views(#[trigger] rows@[i]@)),
                Err(e) => e.entry < entries.len() && entry_outcome(entries[e.entry as int])
                    == Err::<Seq<Seq<char>>, MissingPart>(e.part) && forall|j: int|
                    0 <= j < e.entry ==> (#[trigger] entry_outcome(entries[j])) is Ok,
            }
        }),
{
    let entries = find_elements(res, ENTRY_TAG, ENTRY_CLASS);
    let ghost es = elements_html(res@, ENTRY_TAG@, ENTRY_CLASS@);
    let mut rows: Vec<Vec<String>> = Vec::new();
    let mut i: usize = 0;
    while i < entries.len()
        invariant
            views(entries@) == es,
            es == elements_html(res@, ENTRY_TAG@, ENTRY_CLASS@),
            i <= entries@.len(),
            rows@.len() == i,
            forall|k: int|
                0 <= k < i ==> entry_outcome(es[k]) == Ok::<Seq<Seq<char>>, MissingPart>(
                    views(#[trigger] rows@[k]@),
                ),
        decreases entries@.len() - i,
    {
        assert(views(entries@)[i as int] == entries@[i as int]@);
        match extract_record(entries[i].as_str()) {
            Ok(n) => {
                rows.push(n.to_row());
            },
            Err(part) => {
                assert forall|j: int| 0 <= j < i implies (#[trigger] entry_outcome(es[j])) is Ok by {
                    assert(entry_outcome(es[j]) == Ok::<Seq<Seq<char>>, MissingPart>(
                        views(rows@[j]@),
                    ));
                }
                return Err(ExtractError { entry: i, part });
            },
        }
        i = i + 1;
    }
    Ok(rows)
}

} // verus!
