use tgd::args::WebsiteFilter;
use tgd::query::{filter_govts, list_govts, stats, StatsError, StatsResult};
use tgd::record::Nation;
use tgd::refresh::{check_update, FileExistsError};

fn nation(name: &str, recognition: &str, address: &str, website: &str) -> Nation {
    Nation {
        nation: name.to_string(),
        region: String::new(),
        recognition: recognition.to_string(),
        address: address.to_string(),
        website: website.to_string(),
    }
}

fn sample() -> Vec<Nation> {
    vec![
        nation("Alpha Nation", "Federal", "1 Road, Town, OK 1", "https://alpha.gov"),
        nation("Beta Tribe", "Federal", "2 Road, Town, AZ 2", "http://beta.com"),
        nation("Gamma Nation", "State", "3 Road, Town, OK 3", "http://gamma.gov"),
        nation("Delta Band", "Federal", "4 Road, Town, WA 4", ""),
        nation("Epsilon Nation", "", "", "https://eps.org"),
    ]
}

fn names(v: &[Nation]) -> Vec<String> {
    v.iter().map(|n| n.nation.clone()).collect()
}

#[test]
fn list_gives_all_names_in_order() {
    assert_eq!(
        list_govts(&sample()),
        vec!["Alpha Nation", "Beta Tribe", "Gamma Nation", "Delta Band", "Epsilon Nation"]
    );
}

#[test]
fn filter_by_name_state_and_class() {
    let t = sample();
    let r = filter_govts(&t, &None, &None, &Some("Nation".to_string()));
    assert_eq!(names(&r), vec!["Alpha Nation", "Gamma Nation", "Epsilon Nation"]);
    let r = filter_govts(&t, &None, &Some("OK".to_string()), &None);
    assert_eq!(names(&r), vec!["Alpha Nation", "Gamma Nation"]);
    let r = filter_govts(&t, &Some(WebsiteFilter::DotGov), &None, &None);
    assert_eq!(names(&r), vec!["Alpha Nation", "Gamma Nation"]);
    let r = filter_govts(&t, &Some(WebsiteFilter::Https), &None, &Some("Nation".to_string()));
    assert_eq!(names(&r), vec!["Alpha Nation", "Epsilon Nation"]);
    let r = filter_govts(&t, &None, &None, &Some("nation".to_string()));
    assert!(r.is_empty());
    assert_eq!(filter_govts(&t, &None, &None, &None), t);
}

#[test]
fn combined_filter_is_intersection_of_single_filters() {
    let t = sample();
    let name = Some("Nation".to_string());
    let state = Some("OK".to_string());
    let class = Some(WebsiteFilter::Https);
    let all = filter_govts(&t, &class, &state, &name);
    let a = filter_govts(&t, &None, &None, &name);
    let b = filter_govts(&t, &None, &state, &None);
    let c = filter_govts(&t, &class, &None, &None);
    let inter: Vec<&Nation> = t.iter().filter(|n| a.contains(n) && b.contains(n) && c.contains(n)).collect();
    assert_eq!(all.iter().collect::<Vec<&Nation>>(), inter);
    assert_eq!(names(&all), vec!["Alpha Nation"]);
}

#[test]
fn website_classes() {
    let all = [
        WebsiteFilter::DotGov,
        WebsiteFilter::DotCom,
        WebsiteFilter::DotNet,
        WebsiteFilter::DotOrg,
        WebsiteFilter::Http,
        WebsiteFilter::Https,
    ];
    for f in all {
        assert!(!f.matches(""));
    }
    let count = |w: &str| all.iter().filter(|f| f.matches(w)).count();
    assert_eq!(count("www.tribe.gov"), 1);
    assert_eq!(count("www.tribe.net"), 1);
    assert_eq!(count("https://www.tribe"), 1);
    assert_eq!(count("http://www.tribe.com"), 2);
    assert!(WebsiteFilter::Http.matches("http://a.org"));
    assert!(!WebsiteFilter::Http.matches("https://a.org"));
}

#[test]
fn stats_match_count_equals_filter_size() {
    let t = sample();
    let s = stats(&t, &Some(WebsiteFilter::DotGov)).unwrap().unwrap();
    assert_eq!(s.match_count, filter_govts(&t, &Some(WebsiteFilter::DotGov), &None, &None).len());
    assert_eq!(s.match_count, 2);
}

#[test]
fn stats_scenario_ten_records() {
    let mut t = vec![
        nation("A", "Federal", "", "https://a.gov"),
        nation("B", "Federal", "", "http://b.gov"),
        nation("C", "Federal", "", "c.gov"),
        nation("D", "Federal", "", "http://d.com"),
        nation("E", "Federal", "", "https://e.org"),
        nation("F", "Federal", "", ""),
    ];
    for name in ["G", "H", "I", "J"] {
        t.push(nation(name, "State", "", "https://state.net"));
    }
    let s = stats(&t, &Some(WebsiteFilter::DotGov)).unwrap().unwrap();
    assert_eq!(
        s,
        StatsResult { match_count: 3, percent_of_websites: 60, percent_of_nations: 50 }
    );
}

#[test]
fn stats_without_class_is_empty() {
    assert_eq!(stats(&sample(), &None), Ok(None));
}

#[test]
fn stats_with_zero_base_is_an_error() {
    assert_eq!(stats(&Vec::new(), &Some(WebsiteFilter::Http)), Err(StatsError::NoFederalNations));
    let t = vec![nation("A", "Federal", "", ""), nation("B", "State", "", "x.gov")];
    assert_eq!(stats(&t, &Some(WebsiteFilter::DotGov)), Err(StatsError::NoFederalWebsites));
}

#[test]
fn stats_counts_whole_table() {
    let t = vec![
        nation("A", "Federal", "", "https://a.com"),
        nation("B", "State", "", "https://b.com"),
        nation("C", "State", "", "https://c.com"),
    ];
    let s = stats(&t, &Some(WebsiteFilter::Https)).unwrap().unwrap();
    assert_eq!(s.match_count, 3);
    assert_eq!(s.percent_of_websites, 300);
    assert_eq!(s.percent_of_nations, 300);
}

#[test]
fn update_is_refused_over_existing_table_without_force() {
    assert_eq!(check_update(true, false), Err(FileExistsError));
    assert_eq!(check_update(true, true), Ok(()));
    assert_eq!(check_update(false, false), Ok(()));
}

#[test]
fn record_row_has_fixed_order() {
    let n = Nation {
        nation: "N".to_string(),
        region: "R".to_string(),
        recognition: "Federal".to_string(),
        address: "A".to_string(),
        website: "W".to_string(),
    };
    assert_eq!(n.to_row(), vec!["N", "R", "Federal", "A", "W"]);
    assert_eq!(n.duplicate(), n);
}
