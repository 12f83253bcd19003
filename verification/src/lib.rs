//! Core of a static-content site generator: resolves raw-content URLs for a
//! git-hosted repository, collects fetched pages, and decides, per page, which
//! rendering template and CSS class configuration to apply.

pub mod config;
pub mod pages;
pub mod source;
pub mod strings;
pub mod template;

pub use config::Config;
pub use config::ConfigTable;
pub use config::ConfigValue;
pub use config::DataSource;
pub use config::RepoInfo;
pub use pages::GlobalData;
pub use pages::PageMap;
pub use pages::collect_pages;
pub use source::LoadError;
pub use source::get_raw_data_url;
pub use source::listing_file_names;
pub use source::resolve_fetch_url;
pub use source::resolve_listing_url;
pub use template::CardInfo;
pub use template::RenderPlan;
pub use template::generate_prose_class;
pub use template::parse_card_groups;
pub use template::resolve_template;
pub use template::template_using;
