use mdbook_htmx::config::defaults;
use mdbook_htmx::config::{
    AssetsConfig, AuthnConfig, AuthnProvider, AuthzConfig, DefaultAccess, HtmxConfig,
    NavigationConfig, OutputMode, SearchConfig, SwapStrategy,
};
use mdbook_htmx::error::BuildError;

#[test]
fn test_default_config() {
    let config = HtmxConfig::default();
    assert!(config.boost);
    assert_eq!(config.target, "#content");
    assert_eq!(config.output_mode, OutputMode::Both);
}

#[test]
fn test_swap_strategy_display() {
    assert_eq!(SwapStrategy::InnerHTML.to_string(), "innerHTML");
    assert_eq!(SwapStrategy::OuterHTML.to_string(), "outerHTML");
}

#[test]
fn test_default_authn_config() {
    let authn = AuthnConfig::default();
    assert_eq!(authn.provider, AuthnProvider::Disabled);
    assert_eq!(authn.signin, "/auth/login");
    assert_eq!(authn.signout, "/auth/logout");
    assert!(authn.user_endpoint.is_none());
    assert_eq!(authn.session_cookie, "session");
}

#[test]
fn test_default_authz_config() {
    let authz = AuthzConfig::default();
    assert_eq!(authz.default_access, DefaultAccess::Public);
    assert_eq!(authz.default_fallback, "/access-denied");
    assert_eq!(authz.role_claim, "roles");
    assert!(!authz.strict);
}

#[test]
fn test_htmx_config_includes_auth() {
    let config = HtmxConfig::default();
    assert_eq!(config.authn.provider, AuthnProvider::Disabled);
    assert_eq!(config.authz.default_access, DefaultAccess::Public);
}

#[test]
fn every_default_of_the_configuration() {
    let config = HtmxConfig::default();
    assert_eq!(config.version, "1.0");
    assert_eq!(config.htmx_version, "1.9.10");
    assert_eq!(config.swap_strategy, SwapStrategy::InnerHTML);
    assert!(config.push_url);
    assert!(config.default_scope.is_none());
    assert!(config.theme_dir.is_none());
    let navigation = NavigationConfig::default();
    assert!(navigation.breadcrumbs && navigation.toc);
    assert!(navigation.prev_next && navigation.collapsible_sidebar);
    let search = SearchConfig::default();
    assert!(search.enabled && search.generate_index && search.index_content);
    assert_eq!(search.heading_split_level, 3);
    assert_eq!(search.max_excerpt_length, None);
    assert!(search.include_auth);
    let assets = AssetsConfig::default();
    assert!(assets.hash_assets && assets.sri_enabled);
    assert!(assets.additional_assets.is_none());
    assert_eq!(SwapStrategy::default(), SwapStrategy::InnerHTML);
    assert_eq!(OutputMode::default(), OutputMode::Both);
    assert_eq!(AuthnProvider::default(), AuthnProvider::Disabled);
    assert_eq!(DefaultAccess::default(), DefaultAccess::Public);
}

#[test]
fn default_functions() {
    assert_eq!(defaults::version(), "1.0");
    assert_eq!(defaults::htmx_version(), "1.9.10");
    assert!(defaults::boost());
    assert_eq!(defaults::swap_strategy(), SwapStrategy::InnerHTML);
    assert_eq!(defaults::target(), "#content");
    assert!(defaults::push_url());
}

#[test]
fn all_swap_strategy_names() {
    assert_eq!(SwapStrategy::BeforeBegin.to_string(), "beforebegin");
    assert_eq!(SwapStrategy::AfterBegin.to_string(), "afterbegin");
    assert_eq!(SwapStrategy::BeforeEnd.to_string(), "beforeend");
    assert_eq!(SwapStrategy::AfterEnd.to_string(), "afterend");
    assert_eq!(SwapStrategy::Delete.to_string(), "delete");
    assert_eq!(SwapStrategy::NoSwap.to_string(), "none");
    assert_eq!(SwapStrategy::Delete.as_str(), "delete");
}

#[test]
fn validate_accepts_the_first_line_of_versions() {
    let mut config = HtmxConfig::default();
    assert!(config.validate().is_ok());
    config.version = "1.7".to_string();
    assert!(config.validate().is_ok());
    config.version = "1.".to_string();
    assert!(config.validate().is_ok());
}

#[test]
fn validate_rejects_other_versions() {
    let mut config = HtmxConfig::default();
    config.version = "2.0".to_string();
    match config.validate() {
        Err(BuildError::ConfigError(text)) => {
            assert_eq!(text, "Unsupported config version: 2.0. Expected 1.x");
        }
        other => panic!("unexpected result: {:?}", other),
    }
    config.version = "1".to_string();
    assert!(config.validate().is_err());
    config.version = String::new();
    assert!(config.validate().is_err());
    config.version = "11.0".to_string();
    assert!(config.validate().is_err());
}
