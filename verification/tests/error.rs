use mdbook_htmx::error::BuildError;

#[test]
fn exit_codes_by_kind() {
    let frontmatter =
        BuildError::InvalidFrontmatter { path: "a.md".to_string(), source: "bad".to_string() };
    let template =
        BuildError::TemplateError { template: "docs/page.html".to_string(), source: "x".to_string() };
    assert_eq!(frontmatter.exit_code(), 1);
    assert_eq!(template.exit_code(), 1);
    assert_eq!(BuildError::ConfigError("c".to_string()).exit_code(), 2);
    assert_eq!(BuildError::IoError("i".to_string()).exit_code(), 3);
    assert_eq!(BuildError::JsonError("j".to_string()).exit_code(), 1);
}

#[test]
fn messages_by_kind() {
    let frontmatter =
        BuildError::InvalidFrontmatter { path: "a.md".to_string(), source: "bad".to_string() };
    assert_eq!(frontmatter.to_string(), "Invalid frontmatter in a.md: bad");
    let template =
        BuildError::TemplateError { template: "docs/page.html".to_string(), source: "x".to_string() };
    assert_eq!(template.to_string(), "Template error in docs/page.html: x");
    assert_eq!(BuildError::ConfigError("c".to_string()).to_string(), "Configuration error: c");
    assert_eq!(BuildError::IoError("i".to_string()).to_string(), "I/O error: i");
    assert_eq!(BuildError::JsonError("j".to_string()).to_string(), "JSON error: j");
}
