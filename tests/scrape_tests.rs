use tgd::extract::{extract_record, record_from_texts, select_html, ExtractError, MissingPart};

const PAGE: &str = "<!DOCTYPE html>
<html><head><title>Tribal Directory</title></head><body>
<div class=\"listing\">
<article class=\"clearfix node\">
<h2>Absentee-Shawnee Tribe of Indians of Oklahoma <span>[Southern Plains]</span></h2>
<p>Phone: (405) 275-4030
Recognition Status: Federal</p>
<p class=\"right\">2025 S. Gordon Cooper Drive
Shawnee, OK74801-9005
Website: http://www.astribe.com</p>
</article>
<article class=\"clearfix\">
<h2>Alabama-Coushatta Tribe of Texas <span>[Southern Plains]</span></h2>
<p>Recognition Status: Federal</p>
</article>
<article class=\"teaser\">
<h2>Not an entry</h2>
<p>Recognition Status: State</p>
</article>
</div>
</body></html>";

fn strings(v: &[&str]) -> Vec<String> {
    v.iter().map(|s| s.to_string()).collect()
}

#[test]
fn scrape_test() {
    let actual: Vec<String> = select_html(PAGE).unwrap().get(0).unwrap().to_vec();
    let expected: Vec<String> = vec![
        "Absentee-Shawnee Tribe of Indians of Oklahoma", // Nation
        "Southern Plains",                               // Region
        "Federal",                                       // Recognition
        "2025 S. Gordon Cooper Drive Shawnee, OK 74801-9005", // Address
        "http://www.astribe.com",                        // Website (if one)
    ]
    .into_iter()
    .map(|v| v.to_string())
    .collect();
    assert_eq!(actual, expected)
}

#[test]
fn sites_with_nsngov_test() {}

#[test]
fn page_rows_keep_document_order_and_skip_other_classes() {
    let rows = select_html(PAGE).unwrap();
    assert_eq!(rows.len(), 2);
    assert_eq!(rows[1][0], "Alabama-Coushatta Tribe of Texas");
}

#[test]
fn entry_without_secondary_block_has_empty_address_and_website() {
    let rows = select_html(PAGE).unwrap();
    assert_eq!(
        rows[1],
        strings(&["Alabama-Coushatta Tribe of Texas", "Southern Plains", "Federal", "", ""])
    );
}

#[test]
fn empty_page_yields_no_rows() {
    let rows = select_html("<html><body><p>No entries here.</p></body></html>").unwrap();
    assert!(rows.is_empty());
    assert!(select_html("").unwrap().is_empty());
}

#[test]
fn entry_without_heading_is_an_error() {
    let page = "<article class=\"clearfix\"><h2>First [A]</h2><p>Recognition Status: State</p></article>\
                <article class=\"clearfix\"><p>Recognition Status: Federal</p></article>";
    assert_eq!(
        select_html(page),
        Err(ExtractError { entry: 1, part: MissingPart::Heading })
    );
}

#[test]
fn entry_without_description_is_an_error() {
    let page = "<article class=\"clearfix\"><h2>Only a name</h2></article>";
    assert_eq!(
        select_html(page),
        Err(ExtractError { entry: 0, part: MissingPart::Description })
    );
    assert_eq!(
        extract_record("<article><h2>Only a name</h2></article>"),
        Err(MissingPart::Description)
    );
}

#[test]
fn extract_record_reads_a_fragment() {
    let fragment = "<article class=\"clearfix\"><h2>Seneca Nation [Eastern]</h2>\
                    <p>Recognition Status: Federal</p>\
                    <p class=\"right\">90 Ohi:yo' Way\nSalamanca, NY14779\nWebsite: https://sni.org</p></article>";
    let n = extract_record(fragment).unwrap();
    assert_eq!(n.nation, "Seneca Nation");
    assert_eq!(n.region, "Eastern");
    assert_eq!(n.recognition, "Federal");
    assert_eq!(n.address, "90 Ohi:yo' Way Salamanca, NY 14779");
    assert_eq!(n.website, "https://sni.org");
}

#[test]
fn record_from_texts_without_secondary_block() {
    let n = record_from_texts("Pueblo of Zuni [Southwest]\n", "Recognition Status: Federal", None);
    assert_eq!(
        n.to_row(),
        strings(&["Pueblo of Zuni", "Southwest", "Federal", "", ""])
    );
}

#[test]
fn record_from_texts_with_short_secondary_block() {
    let n = record_from_texts("Tribe", "Status unknown", Some("  PO Box 1  "));
    assert_eq!(n.to_row(), strings(&["Tribe", "", "", "PO Box 1", ""]));
}

#[test]
fn record_from_texts_with_label_only_website() {
    let n = record_from_texts(
        "Tribe [North]",
        "Phone: 1\n  Recognition Status: State  \nFax: 2",
        Some("1 Main St\nTown, WA98000\nWebsite:\n"),
    );
    assert_eq!(
        n.to_row(),
        strings(&["Tribe", "North", "State", "1 Main St Town, WA 98000", ""])
    );
}
