use site_core::PageMap;
use site_core::collect_pages;

#[test]
fn one_failed_fetch_drops_only_that_page() {
    let names = vec!["a.md".to_string(), "b.md".to_string(), "c.json".to_string()];
    let results = vec![Some("alpha".to_string()), None, Some("gamma".to_string())];
    let pages = collect_pages(&names, &results);
    assert_eq!(pages.len(), 2);
    assert_eq!(pages.get("a.md").unwrap(), "alpha");
    assert!(pages.get("b.md").is_none());
    assert_eq!(pages.get("c.json").unwrap(), "gamma");
}

#[test]
fn all_fetches_failing_yields_an_empty_table() {
    let names = vec!["a.md".to_string(), "b.md".to_string()];
    let results = vec![None, None];
    let pages = collect_pages(&names, &results);
    assert_eq!(pages.len(), 0);
    assert!(pages.get("a.md").is_none());
}

#[test]
fn duplicate_name_keeps_the_last_content() {
    let names = vec!["a.md".to_string(), "a.md".to_string()];
    let results = vec![Some("first".to_string()), Some("second".to_string())];
    let pages = collect_pages(&names, &results);
    assert_eq!(pages.len(), 1);
    assert_eq!(pages.get("a.md").unwrap(), "second");
}

#[test]
fn insert_overrides_earlier_content() {
    let mut pages = PageMap::new();
    pages.insert("p.md".to_string(), "old".to_string());
    pages.insert("q.md".to_string(), "kept".to_string());
    pages.insert("p.md".to_string(), "new".to_string());
    assert_eq!(pages.len(), 2);
    assert_eq!(pages.get("p.md").unwrap(), "new");
    assert_eq!(pages.get("q.md").unwrap(), "kept");
    assert!(pages.get("r.md").is_none());
}

#[test]
fn global_data_carries_config_and_pages() {
    let config = site_core::Config {
        data_source: site_core::DataSource {
            mode: "sub-path".to_string(),
            data: site_core::ConfigValue::Str("docs".to_string()),
        },
        repository: site_core::RepoInfo {
            service: "github".to_string(),
            name: "acme/site".to_string(),
            branch: "main".to_string(),
        },
    };
    let names = vec!["a.md".to_string()];
    let results = vec![Some("alpha".to_string())];
    let data = site_core::GlobalData { config, pages: collect_pages(&names, &results) };
    assert_eq!(data.pages.len(), 1);
    assert_eq!(data.config.data_source.mode, "sub-path");
}
