use mdbook_htmx::error::BuildError;
use mdbook_htmx::frontmatter::{
    frontmatter_result, level_admits, parse_frontmatter, split_frontmatter, AuthnLevel,
    Frontmatter, FrontmatterBlock,
};

fn text_of(value: &serde_yaml::Value, key: &str) -> Result<Option<String>, String> {
    match value.get(key) {
        None => Ok(None),
        Some(v) if v.is_null() => Ok(None),
        Some(v) => match v.as_str() {
            Some(s) => Ok(Some(s.to_string())),
            None => Err(format!("{}: expected a string", key)),
        },
    }
}

fn decode(yaml: &str) -> Result<Frontmatter, String> {
    let value: serde_yaml::Value = serde_yaml::from_str(yaml).map_err(|e| e.to_string())?;
    let mut frontmatter = Frontmatter::default();
    frontmatter.title = text_of(&value, "title")?;
    frontmatter.description = text_of(&value, "description")?;
    frontmatter.scope = text_of(&value, "scope")?;
    frontmatter.fallback = text_of(&value, "fallback")?;
    frontmatter.template = text_of(&value, "template")?;
    frontmatter.authn = match text_of(&value, "authn")?.as_deref() {
        None => None,
        Some("public") => Some(AuthnLevel::Public),
        Some("authenticated") => Some(AuthnLevel::Authenticated),
        Some("verified") => Some(AuthnLevel::Verified),
        Some(other) => return Err(format!("authn: unknown level {}", other)),
    };
    frontmatter.authz = match value.get("authz").and_then(|v| v.as_sequence()) {
        Some(roles) => {
            Some(roles.iter().filter_map(|r| r.as_str()).map(|r| r.to_string()).collect())
        }
        None => None,
    };
    frontmatter.no_search = value.get("no_search").and_then(|v| v.as_bool()).unwrap_or(false);
    frontmatter.hidden = value.get("hidden").and_then(|v| v.as_bool()).unwrap_or(false);
    Ok(frontmatter)
}

#[test]
fn test_no_frontmatter() {
    let content = "# Hello World\n\nSome content.";
    let (fm, remaining) = parse_frontmatter(content, "test.md", decode).unwrap();
    assert!(fm.title.is_none());
    assert_eq!(remaining, content);
}

#[test]
fn test_with_frontmatter() {
    let content = "---\ntitle: My Title\nscope: internal\n---\n# Hello World";
    let (fm, remaining) = parse_frontmatter(content, "test.md", decode).unwrap();
    assert_eq!(fm.title, Some("My Title".to_string()));
    assert_eq!(fm.scope, Some("internal".to_string()));
    assert!(remaining.starts_with("# Hello World"));
}

#[test]
fn test_authn_level_display() {
    assert_eq!(AuthnLevel::Public.to_string(), "public");
    assert_eq!(AuthnLevel::Authenticated.to_string(), "authenticated");
    assert_eq!(AuthnLevel::Verified.to_string(), "verified");
}

#[test]
fn test_authn_level_as_str() {
    assert_eq!(AuthnLevel::Public.as_str(), "public");
    assert_eq!(AuthnLevel::Authenticated.as_str(), "authenticated");
    assert_eq!(AuthnLevel::Verified.as_str(), "verified");
}

#[test]
fn test_frontmatter_with_authn() {
    let content = "---\ntitle: Admin Page\nauthn: authenticated\n---\n# Admin";
    let (fm, _) = parse_frontmatter(content, "admin.md", decode).unwrap();
    assert_eq!(fm.title, Some("Admin Page".to_string()));
    assert!(matches!(fm.authn, Some(AuthnLevel::Authenticated)));
}

#[test]
fn test_frontmatter_with_authz() {
    let content = "---\ntitle: Admin Page\nauthz:\n  - admin\n  - editor\n---\n# Admin";
    let (fm, _) = parse_frontmatter(content, "admin.md", decode).unwrap();
    assert_eq!(fm.authz, Some(vec!["admin".to_string(), "editor".to_string()]));
}

#[test]
fn test_frontmatter_with_fallback() {
    let content = "---\ntitle: Secret\nfallback: /docs/access-denied\n---\n# Secret";
    let (fm, _) = parse_frontmatter(content, "secret.md", decode).unwrap();
    assert_eq!(fm.fallback, Some("/docs/access-denied".to_string()));
}

#[test]
fn test_frontmatter_full_auth() {
    let content = "---\ntitle: Protected Content\nauthn: verified\nauthz:\n  - admin\nfallback: /signin\n---\n# Protected";
    let (fm, remaining) = parse_frontmatter(content, "protected.md", decode).unwrap();
    assert_eq!(fm.title, Some("Protected Content".to_string()));
    assert!(matches!(fm.authn, Some(AuthnLevel::Verified)));
    assert_eq!(fm.authz, Some(vec!["admin".to_string()]));
    assert_eq!(fm.fallback, Some("/signin".to_string()));
    assert!(remaining.starts_with("# Protected"));
}

#[test]
fn round_trip_of_title_and_scope() {
    let (fm, remaining) =
        parse_frontmatter("---\ntitle: T\nscope: S\n---\nBODY", "page.md", decode).unwrap();
    assert_eq!(fm.title, Some("T".to_string()));
    assert_eq!(fm.scope, Some("S".to_string()));
    assert!(fm.description.is_none() && fm.authn.is_none() && fm.authz.is_none());
    assert!(!fm.no_search && !fm.hidden);
    assert_eq!(remaining, "BODY");
}

#[test]
fn the_block_is_found_by_position_only() {
    let block = split_frontmatter("---\ntitle: T\n---\n\n\n  BODY\n").unwrap();
    assert_eq!(block.yaml, "\ntitle: T");
    assert_eq!(block.content, "  BODY\n");
    assert!(split_frontmatter("text\n---\ntitle: T\n---\n").is_none());
    assert!(split_frontmatter(" ---\ntitle: T\n---\n").is_none());
    assert!(split_frontmatter("").is_none());
    assert!(split_frontmatter("--").is_none());
}

#[test]
fn the_first_line_of_the_content_keeps_its_indentation() {
    let content = "---\ntitle: T\n---\n\n    let x = 1;";
    let (fm, rest) = parse_frontmatter(content, "test.md", decode).unwrap();
    assert_eq!(fm.title, Some("T".to_string()));
    assert_eq!(rest, "    let x = 1;");
}

#[test]
fn only_whole_blank_lines_go() {
    let after = |tail: &str| {
        let text = format!("---\na: 1\n---{}", tail);
        split_frontmatter(&text).unwrap().content.to_string()
    };
    assert_eq!(after("\nBODY"), "BODY");
    assert_eq!(after("\n\n\nBODY"), "BODY");
    assert_eq!(after("\n \t \n\r\n  BODY  \n"), "  BODY  \n");
    assert_eq!(after(" \nBODY"), "BODY");
    assert_eq!(after("\n\tBODY"), "\tBODY");
    assert_eq!(after("\n"), "");
    assert_eq!(after("\n\n  "), "  ");
    assert_eq!(after(""), "");
    assert_eq!(after("\n\nBODY\n\nmore"), "BODY\n\nmore");
    assert_eq!(after("x\nBODY"), "x\nBODY");
}

#[test]
fn a_block_that_is_not_closed_is_content() {
    let content = "---\ntitle: T\nno closing marker";
    assert!(split_frontmatter(content).is_none());
    let (fm, remaining) = parse_frontmatter(content, "page.md", decode).unwrap();
    assert!(fm.title.is_none() && fm.scope.is_none());
    assert_eq!(remaining, content);
    assert!(split_frontmatter("---").is_none());
    assert!(split_frontmatter("------").is_none());
}

#[test]
fn the_first_closing_marker_ends_the_block() {
    let block = split_frontmatter("---\na: 1\n---\nx\n---\ny").unwrap();
    assert_eq!(block.yaml, "\na: 1");
    assert_eq!(block.content, "x\n---\ny");
    let empty = split_frontmatter("---\n---\nrest").unwrap();
    assert_eq!(empty.yaml, "");
    assert_eq!(empty.content, "rest");
    let dashes = split_frontmatter("---\n-----tail").unwrap();
    assert_eq!(dashes.yaml, "");
    assert_eq!(dashes.content, "--tail");
}

#[test]
fn text_beyond_ascii_keeps_its_characters() {
    let block = split_frontmatter("---\ntitle: Über\n---\n\u{a0}Größe – 日本語").unwrap();
    assert_eq!(block.yaml, "\ntitle: Über");
    assert_eq!(block.content, "\u{a0}Größe – 日本語");
    let blank = split_frontmatter("---\ntitle: Über\n---\n\u{a0}\u{3000}\nGröße").unwrap();
    assert_eq!(blank.content, "Größe");
}

#[test]
fn a_block_that_cannot_be_decoded_is_an_error() {
    let result = parse_frontmatter("---\ntitle: [unclosed\n---\nBODY", "bad.md", decode);
    match result {
        Err(BuildError::InvalidFrontmatter { path, source }) => {
            assert_eq!(path, "bad.md");
            assert!(!source.is_empty());
        }
        other => panic!("unexpected result: {:?}", other),
    }
    let refused = parse_frontmatter("---\nx\n---\nBODY", "p.md", |_: &str| {
        Err::<Frontmatter, String>("refused".to_string())
    });
    match refused {
        Err(error) => {
            assert_eq!(error.to_string(), "Invalid frontmatter in p.md: refused");
            assert_eq!(error.exit_code(), 1);
        }
        Ok(_) => panic!("the block was refused"),
    }
}

#[test]
fn the_decoder_gets_the_block_and_nothing_else() {
    let seen = std::cell::RefCell::new(Vec::new());
    let result = parse_frontmatter("---\nkey: value\n---\nBODY", "p.md", |yaml: &str| {
        seen.borrow_mut().push(yaml.to_string());
        Ok(Frontmatter::default())
    });
    assert!(result.is_ok());
    assert_eq!(*seen.borrow(), vec!["\nkey: value".to_string()]);
    let none = parse_frontmatter("BODY", "p.md", |yaml: &str| {
        seen.borrow_mut().push(yaml.to_string());
        Ok(Frontmatter::default())
    });
    assert!(none.is_ok());
    assert_eq!(seen.borrow().len(), 1);
}

#[test]
fn outcome_of_each_answer() {
    let block = FrontmatterBlock { yaml: "a: 1", content: "BODY" };
    let mut fm = Frontmatter::default();
    fm.hidden = true;
    let (found, rest) = frontmatter_result(block, Ok(fm), "p.md").unwrap();
    assert!(found.hidden);
    assert_eq!(rest, "BODY");
    match frontmatter_result(block, Err("broken".to_string()), "p.md") {
        Err(BuildError::InvalidFrontmatter { path, source }) => {
            assert_eq!(path, "p.md");
            assert_eq!(source, "broken");
        }
        other => panic!("unexpected result: {:?}", other),
    }
}

#[test]
fn default_metadata_is_public() {
    let fm = Frontmatter::default();
    assert!(fm.title.is_none() && fm.description.is_none() && fm.scope.is_none());
    assert!(fm.authn.is_none() && fm.authz.is_none());
    assert!(fm.fallback.is_none() && fm.template.is_none());
    assert!(!fm.no_search && !fm.hidden);
}

#[test]
fn levels_are_ordered() {
    let levels = [AuthnLevel::Public, AuthnLevel::Authenticated, AuthnLevel::Verified];
    for (i, reader) in levels.iter().enumerate() {
        for (j, required) in levels.iter().enumerate() {
            assert_eq!(level_admits(reader.as_str(), required.as_str()), j <= i);
            assert_eq!(reader.allows(*required), j <= i);
            assert_eq!(required <= reader, j <= i);
        }
    }
    assert!(AuthnLevel::Public < AuthnLevel::Authenticated);
    assert!(AuthnLevel::Authenticated < AuthnLevel::Verified);
}

#[test]
fn levels_by_name() {
    assert_eq!(AuthnLevel::from_name("public"), Some(AuthnLevel::Public));
    assert_eq!(AuthnLevel::from_name("authenticated"), Some(AuthnLevel::Authenticated));
    assert_eq!(AuthnLevel::from_name("verified"), Some(AuthnLevel::Verified));
    assert_eq!(AuthnLevel::from_name("Public"), None);
    assert_eq!(AuthnLevel::from_name(""), None);
    assert_eq!(AuthnLevel::from_name("admin"), None);
}

#[test]
fn names_that_are_no_levels() {
    assert!(level_admits("guest", "public"));
    assert!(!level_admits("guest", "authenticated"));
    assert!(!level_admits("guest", "verified"));
    assert!(!level_admits("public", "members"));
    assert!(level_admits("authenticated", "members"));
    assert!(level_admits("verified", "members"));
    assert!(!level_admits("Verified", "verified"));
}
