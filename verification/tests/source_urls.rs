use site_core::Config;
use site_core::ConfigTable;
use site_core::ConfigValue;
use site_core::DataSource;
use site_core::LoadError;
use site_core::RepoInfo;
use site_core::get_raw_data_url;
use site_core::listing_file_names;
use site_core::resolve_fetch_url;
use site_core::resolve_listing_url;

fn repo_table(service: &str, name: &str, branch: &str) -> ConfigTable {
    ConfigTable {
        entries: vec![
            ("service".to_string(), ConfigValue::Str(service.to_string())),
            ("name".to_string(), ConfigValue::Str(name.to_string())),
            ("branch".to_string(), ConfigValue::Str(branch.to_string())),
        ],
    }
}

fn default_repo() -> RepoInfo {
    RepoInfo {
        service: "github".to_string(),
        name: "acme/site".to_string(),
        branch: "main".to_string(),
    }
}

fn independent_config(service: &str, name: &str, branch: &str) -> Config {
    Config {
        data_source: DataSource {
            mode: "independent-repository".to_string(),
            data: ConfigValue::Table(repo_table(service, name, branch)),
        },
        repository: default_repo(),
    }
}

fn sub_path_config(folder: &str) -> Config {
    Config {
        data_source: DataSource {
            mode: "sub-path".to_string(),
            data: ConfigValue::Str(folder.to_string()),
        },
        repository: default_repo(),
    }
}

#[test]
fn github_url_carries_name_and_branch() {
    let url = get_raw_data_url("github", "acme/site", "main").unwrap();
    assert_eq!(url, "https://raw.githubusercontent.com/acme/site/main");
    assert!(url.contains("acme/site"));
    assert!(url.contains("main"));
}

#[test]
fn gitee_url_carries_name_and_branch() {
    let url = get_raw_data_url("gitee", "owner/repo", "dev").unwrap();
    assert_eq!(url, "https://gitee.com/owner/repo/raw/dev");
    assert!(url.contains("owner/repo"));
    assert!(url.contains("dev"));
}

#[test]
fn service_match_ignores_case() {
    assert_eq!(
        get_raw_data_url("GitHub", "a/b", "c").unwrap(),
        "https://raw.githubusercontent.com/a/b/c"
    );
    assert_eq!(
        get_raw_data_url("GITEE", "a/b", "c").unwrap(),
        "https://gitee.com/a/b/raw/c"
    );
}

#[test]
fn unknown_service_is_not_found() {
    assert!(get_raw_data_url("bitbucket", "a/b", "c").is_none());
    assert!(get_raw_data_url("", "a/b", "c").is_none());
    assert!(get_raw_data_url("githubx", "a/b", "c").is_none());
}

#[test]
fn independent_fetch_appends_sub_path_without_separator() {
    let config = independent_config("github", "acme/site", "main");
    let url = resolve_fetch_url(&config, "/pages/a.md").unwrap();
    assert_eq!(url, "https://raw.githubusercontent.com/acme/site/main/pages/a.md");
}

#[test]
fn sub_path_fetch_inserts_folder_between_base_and_path() {
    let config = sub_path_config("docs");
    let url = resolve_fetch_url(&config, "pages/a.md").unwrap();
    assert_eq!(url, "https://raw.githubusercontent.com/acme/site/main/docs/pages/a.md");
}

#[test]
fn mode_match_ignores_case() {
    let mut config = independent_config("github", "acme/site", "main");
    config.data_source.mode = "Independent-Repository".to_string();
    assert!(resolve_fetch_url(&config, "/x").is_ok());
    let mut config = sub_path_config("docs");
    config.data_source.mode = "SUB-PATH".to_string();
    assert!(resolve_fetch_url(&config, "x").is_ok());
}

#[test]
fn unknown_mode_is_an_error() {
    let mut config = independent_config("github", "acme/site", "main");
    config.data_source.mode = "mirror".to_string();
    assert_eq!(resolve_fetch_url(&config, "/x").unwrap_err(), LoadError::UnknownSourceMode);
    assert_eq!(resolve_listing_url(&config, "pages").unwrap_err(), LoadError::UnknownSourceMode);
}

#[test]
fn wrong_payload_shape_is_malformed() {
    let mut config = independent_config("github", "acme/site", "main");
    config.data_source.data = ConfigValue::Str("not a table".to_string());
    assert_eq!(resolve_fetch_url(&config, "/x").unwrap_err(), LoadError::MalformedSourceConfig);

    let mut config = sub_path_config("docs");
    config.data_source.data = ConfigValue::Bool(true);
    assert_eq!(resolve_fetch_url(&config, "x").unwrap_err(), LoadError::MalformedSourceConfig);
}

#[test]
fn missing_repo_field_is_malformed() {
    let table = ConfigTable {
        entries: vec![
            ("service".to_string(), ConfigValue::Str("github".to_string())),
            ("name".to_string(), ConfigValue::Str("acme/site".to_string())),
        ],
    };
    let config = Config {
        data_source: DataSource {
            mode: "independent-repository".to_string(),
            data: ConfigValue::Table(table),
        },
        repository: default_repo(),
    };
    assert_eq!(resolve_fetch_url(&config, "/x").unwrap_err(), LoadError::MalformedSourceConfig);
}

#[test]
fn unknown_service_in_config_is_an_error() {
    let config = independent_config("sourcehut", "acme/site", "main");
    assert_eq!(resolve_fetch_url(&config, "/x").unwrap_err(), LoadError::UnknownService);
}

#[test]
fn independent_listing_url() {
    let config = independent_config("github", "acme/site", "main");
    let url = resolve_listing_url(&config, "pages").unwrap();
    assert_eq!(url, "https://api.github.com/repos/acme/site/contents/pages?ref=main");
}

#[test]
fn sub_path_listing_url() {
    let config = sub_path_config("docs");
    let url = resolve_listing_url(&config, "pages").unwrap();
    assert_eq!(url, "https://api.github.com/repos/acme/site/contents/docs/pages?ref=main");
}

#[test]
fn listing_keeps_file_entries_in_order() {
    let body = r#"[
        {"type": "file", "name": "a.md", "size": 12},
        {"type": "dir", "name": "assets"},
        {"type": "file", "name": "b.json"}
    ]"#;
    let names = listing_file_names(body);
    assert_eq!(names, vec!["a.md".to_string(), "b.json".to_string()]);
}

#[test]
fn listing_failures_degrade_to_empty() {
    assert!(listing_file_names("not json at all").is_empty());
    assert!(listing_file_names("{\"type\": \"file\"}").is_empty());
    // an entry without a type field spoils the whole listing
    assert!(listing_file_names(r#"[{"name": "a.md"}]"#).is_empty());
    // a file entry without a name does too
    assert!(listing_file_names(r#"[{"type": "file"}]"#).is_empty());
    // a non-file entry without a name is fine
    assert_eq!(
        listing_file_names(r#"[{"type": "dir"}, {"type": "file", "name": "x.md"}]"#),
        vec!["x.md".to_string()]
    );
}
