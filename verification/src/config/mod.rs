//! Configuration of the renderer and its validation.

pub mod defaults;

use vstd::prelude::*;
use crate::error::BuildError;
use crate::text::{chars_of, push_str, starts_with, string_of};

verus! {

/// Configuration for the HTMX backend.
#[derive(Debug, Clone)]
pub struct HtmxConfig {
    /// Schema version for config validation
    pub version: String,
    /// HTMX library version to use
    pub htmx_version: String,
    /// Enable hx-boost on body (default: true)
    pub boost: bool,
    /// Default swap strategy (default: innerHTML)
    pub swap_strategy: SwapStrategy,
    /// Default HTMX target selector (default: #content)
    pub target: String,
    /// Push URL on navigation (default: true)
    pub push_url: bool,
    /// Output mode: full pages, fragments, or both
    pub output_mode: OutputMode,
    /// Navigation settings
    pub navigation: NavigationConfig,
    /// Search settings
    pub search: SearchConfig,
    /// Asset handling settings
    pub assets: AssetsConfig,
    /// Default scope for unscoped content
    pub default_scope: Option<String>,
    /// Custom theme directory path
    pub theme_dir: Option<String>,
    /// Authentication configuration
    pub authn: AuthnConfig,
    /// Authorization configuration
    pub authz: AuthzConfig,
}

/// HTMX swap strategies.
#[derive(Debug, Clone, Copy, PartialEq, Eq, Structural)]
pub enum SwapStrategy {
    InnerHTML,
    OuterHTML,
    BeforeBegin,
    AfterBegin,
    BeforeEnd,
    AfterEnd,
    Delete,
    /// Swap nothing (HTMX's `none`)
    NoSwap,
}

impl Default for SwapStrategy {
    fn default() -> (r: Self)
        ensures
            r == SwapStrategy::InnerHTML,
    {
        SwapStrategy::InnerHTML
    }
}

impl SwapStrategy {
    /// The name of the strategy as HTMX spells it.
    pub open spec fn name(self) -> Seq<char> {
        match self {
            SwapStrategy::InnerHTML => "innerHTML"@,
            SwapStrategy::OuterHTML => "outerHTML"@,
            SwapStrategy::BeforeBegin => "beforebegin"@,
            SwapStrategy::AfterBegin => "afterbegin"@,
            SwapStrategy::BeforeEnd => "beforeend"@,
            SwapStrategy::AfterEnd => "afterend"@,
            SwapStrategy::Delete => "delete"@,
            SwapStrategy::NoSwap => "none"@,
        }
    }

    /// The name of the strategy as HTMX spells it.
    pub fn as_str(&self) -> (r: &'static str)
        ensures
            r@ == self.name(),
    {
        match self {
            SwapStrategy::InnerHTML => "innerHTML",
            SwapStrategy::OuterHTML => "outerHTML",
            SwapStrategy::BeforeBegin => "beforebegin",
            SwapStrategy::AfterBegin => "afterbegin",
            SwapStrategy::BeforeEnd => "beforeend",
            SwapStrategy::AfterEnd => "afterend",
            SwapStrategy::Delete => "delete",
            SwapStrategy::NoSwap => "none",
        }
    }

    /// The name of the strategy as HTMX spells it.
    pub fn to_string(&self) -> (r: String)
        ensures
            r@ == self.name(),
    {
        self.as_str().to_owned()
    }
}

/// Output mode configuration.
#[derive(Debug, Clone, Copy, PartialEq, Eq, Structural)]
pub enum OutputMode {
    /// Generate only full pages
    Full,
    /// Generate only fragments
    Fragments,
    /// Generate both full pages and fragments (default)
    Both,
}

impl Default for OutputMode {
    fn default() -> (r: Self)
        ensures
            r == OutputMode::Both,
    {
        OutputMode::Both
    }
}

/// Navigation configuration.
#[derive(Debug, Clone, Copy)]
pub struct NavigationConfig {
    /// Show breadcrumb navigation
    pub breadcrumbs: bool,
    /// Show table of contents
    pub toc: bool,
    /// Show previous/next navigation
    pub prev_next: bool,
    /// Collapsible sidebar sections
    pub collapsible_sidebar: bool,
}

impl Default for NavigationConfig {
    fn default() -> (r: Self)
        ensures
            r.breadcrumbs,
            r.toc,
            r.prev_next,
            r.collapsible_sidebar,
    {
        NavigationConfig { breadcrumbs: true, toc: true, prev_next: true, collapsible_sidebar: true }
    }
}

/// Search configuration.
#[derive(Debug, Clone, Copy)]
pub struct SearchConfig {
    /// Enable search functionality
    pub enabled: bool,
    /// Generate search index
    pub generate_index: bool,
    /// Include content in search index (larger file size)
    pub index_content: bool,
    /// Maximum heading level to index (1-6, default 3 = up to H3)
    pub heading_split_level: u8,
    /// Maximum length of body excerpt in search results (None = full body)
    pub max_excerpt_length: Option<usize>,
    /// Include auth metadata in search index for filtering
    pub include_auth: bool,
}

impl Default for SearchConfig {
    fn default() -> (r: Self)
        ensures
            r.enabled,
            r.generate_index,
            r.index_content,
            r.heading_split_level == 3,
            r.max_excerpt_length is None,
            r.include_auth,
    {
        SearchConfig {
            enabled: true,
            generate_index: true,
            index_content: true,
            heading_split_level: 3,
            max_excerpt_length: None,
            include_auth: true,
        }
    }
}

/// Asset handling configuration.
#[derive(Debug, Clone)]
pub struct AssetsConfig {
    /// Hash assets for cache busting
    pub hash_assets: bool,
    /// Generate SRI integrity hashes
    pub sri_enabled: bool,
    /// Copy additional assets from this directory
    pub additional_assets: Option<String>,
}

impl Default for AssetsConfig {
    fn default() -> (r: Self)
        ensures
            r.hash_assets,
            r.sri_enabled,
            r.additional_assets is None,
    {
        AssetsConfig { hash_assets: true, sri_enabled: true, additional_assets: None }
    }
}

/// Authentication configuration.
#[derive(Debug, Clone)]
pub struct AuthnConfig {
    /// Authentication provider type
    pub provider: AuthnProvider,
    /// Sign-in page path
    pub signin: String,
    /// Sign-out endpoint path
    pub signout: String,
    /// User info endpoint for fetching current user
    pub user_endpoint: Option<String>,
    /// Session cookie name
    pub session_cookie: String,
}

impl Default for AuthnConfig {
    fn default() -> (r: Self)
        ensures
            r.provider == AuthnProvider::Disabled,
            r.signin@ == "/auth/login"@,
            r.signout@ == "/auth/logout"@,
            r.user_endpoint is None,
            r.session_cookie@ == "session"@,
    {
        AuthnConfig {
            provider: AuthnProvider::Disabled,
            signin: "/auth/login".to_owned(),
            signout: "/auth/logout".to_owned(),
            user_endpoint: None,
            session_cookie: "session".to_owned(),
        }
    }
}

/// Authentication provider types.
#[derive(Debug, Clone, Copy, PartialEq, Eq, Structural)]
pub enum AuthnProvider {
    /// No authentication
    Disabled,
    /// Custom authentication (handled by server)
    Custom,
    /// OAuth2/OIDC provider
    Oidc,
}

impl Default for AuthnProvider {
    fn default() -> (r: Self)
        ensures
            r == AuthnProvider::Disabled,
    {
        AuthnProvider::Disabled
    }
}

/// Authorization configuration.
#[derive(Debug, Clone)]
pub struct AuthzConfig {
    /// Default access level for pages without explicit configuration
    pub default_access: DefaultAccess,
    /// Default fallback page for access denied
    pub default_fallback: String,
    /// JWT claim containing user roles
    pub role_claim: String,
    /// Enable strict mode (deny if role claim missing)
    pub strict: bool,
}

impl Default for AuthzConfig {
    fn default() -> (r: Self)
        ensures
            r.default_access == DefaultAccess::Public,
            r.default_fallback@ == "/access-denied"@,
            r.role_claim@ == "roles"@,
            !r.strict,
    {
        AuthzConfig {
            default_access: DefaultAccess::Public,
            default_fallback: "/access-denied".to_owned(),
            role_claim: "roles".to_owned(),
            strict: false,
        }
    }
}

/// Default access level for pages.
#[derive(Debug, Clone, Copy, PartialEq, Eq, Structural)]
pub enum DefaultAccess {
    /// Pages are public by default
    Public,
    /// Pages require authentication by default
    Authenticated,
    /// Pages are denied by default (explicit allow required)
    Denied,
}

impl Default for DefaultAccess {
    fn default() -> (r: Self)
        ensures
            r == DefaultAccess::Public,
    {
        DefaultAccess::Public
    }
}

impl Default for HtmxConfig {
    fn default() -> (r: Self)
        ensures
            r.version@ == "1.0"@,
            r.htmx_version@ == "1.9.10"@,
            r.boost,
            r.swap_strategy == SwapStrategy::InnerHTML,
            r.target@ == "#content"@,
            r.push_url,
            r.output_mode == OutputMode::Both,
            r.navigation.breadcrumbs && r.navigation.toc && r.navigation.prev_next
                && r.navigation.collapsible_sidebar,
            r.search.enabled && r.search.generate_index && r.search.index_content
                && r.search.include_auth,
            r.search.heading_split_level == 3,
            r.search.max_excerpt_length is None,
            r.assets.hash_assets && r.assets.sri_enabled && r.assets.additional_assets is None,
            r.default_scope is None,
            r.theme_dir is None,
            r.authn.provider == AuthnProvider::Disabled,
            r.authn.signin@ == "/auth/login"@,
            r.authn.signout@ == "/auth/logout"@,
            r.authn.user_endpoint is None,
            r.authn.session_cookie@ == "session"@,
            r.authz.default_access == DefaultAccess::Public,
            r.authz.default_fallback@ == "/access-denied"@,
            r.authz.role_claim@ == "roles"@,
            !r.authz.strict,
    {
        HtmxConfig {
            version: defaults::version(),
            htmx_version: defaults::htmx_version(),
            boost: defaults::boost(),
            swap_strategy: defaults::swap_strategy(),
            target: defaults::target(),
            push_url: defaults::push_url(),
            output_mode: OutputMode::default(),
            navigation: NavigationConfig::default(),
            search: SearchConfig::default(),
            assets: AssetsConfig::default(),
            default_scope: None,
            theme_dir: None,
            authn: AuthnConfig::default(),
            authz: AuthzConfig::default(),
        }
    }
}

impl HtmxConfig {
    /// Whether the schema version is one of the `1.x` line.
    pub open spec fn version_supported(&self) -> bool {
        "1."@.is_prefix_of(self.version@)
    }

    /// Validate the configuration: the schema version has to begin with `1.`.
    pub fn validate(&self) -> (r: Result<(), BuildError>)
        ensures
            self.version_supported() ==> r is Ok,
            !self.version_supported() ==> (r matches Err(BuildError::ConfigError(text)) && text@
                == "Unsupported config version: "@ + self.version@ + ". Expected 1.x"@),
    {
        let version = chars_of(self.version.as_str());
        let line = chars_of("1.");
        if starts_with(&version, &line) {
            Ok(())
        } else {
            let mut text: Vec<char> = Vec::new();
            push_str(&mut text, "Unsupported config version: ");
            push_str(&mut text, self.version.as_str());
            push_str(&mut text, ". Expected 1.x");
            Err(BuildError::ConfigError(string_of(&text)))
        }
    }
}

} // verus!
