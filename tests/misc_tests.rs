use git_nexus::github::{parse_github_url, parse_link_header};
use git_nexus::health::HealthScore;
use git_nexus::stats::format_number;
use git_nexus::themes::Theme;

#[test]
fn test_format_number() {
    assert_eq!(format_number(1000), "1,000");
    assert_eq!(format_number(1000000), "1,000,000");
    assert_eq!(format_number(42), "42");
}

#[test]
fn format_number_edges() {
    assert_eq!(format_number(0), "0");
    assert_eq!(format_number(999), "999");
    assert_eq!(format_number(12345), "12,345");
}

#[test]
fn test_theme_from_str() {
    assert_eq!(Theme::from_str("default"), Some(Theme::Default));
    assert_eq!(Theme::from_str("minimal"), Some(Theme::Minimal));
    assert_eq!(Theme::from_str("high-contrast"), Some(Theme::HighContrast));
    assert_eq!(Theme::from_str("dark"), Some(Theme::Dark));
    assert_eq!(Theme::from_str("light"), Some(Theme::Light));
    assert_eq!(Theme::from_str("monochrome"), Some(Theme::Monochrome));
    assert_eq!(Theme::from_str("invalid"), None);
}

#[test]
fn theme_names_ignore_case() {
    assert_eq!(Theme::from_str("DARK"), Some(Theme::Dark));
    assert_eq!(Theme::from_str("Mono"), Some(Theme::Monochrome));
    assert_eq!(Theme::from_lowercase(&"highcontrast".to_string()), Some(Theme::HighContrast));
    assert_eq!(Theme::from_lowercase(&"DARK".to_string()), None);
    assert_eq!(Theme::default(), Theme::Default);
}

#[test]
fn github_urls() {
    assert_eq!(
        parse_github_url("https://github.com/owner/repo.git"),
        Some(("owner".to_string(), "repo".to_string()))
    );
    assert_eq!(
        parse_github_url("git@github.com:owner/repo.git"),
        Some(("owner".to_string(), "repo".to_string()))
    );
    assert_eq!(
        parse_github_url("https://github.com/owner/repo.git.git"),
        Some(("owner".to_string(), "repo".to_string()))
    );
    assert_eq!(parse_github_url("https://github.com/owner"), None);
    assert_eq!(parse_github_url("https://gitlab.com/owner/repo"), None);
}

#[test]
fn link_header_last_page() {
    let link = "<https://api.github.com/x?page=2>; rel=\"next\", <https://api.github.com/x?page=34>; rel=\"last\"";
    assert_eq!(parse_link_header(link), 34);
    // Only the text after the first `page=` counts, so `per_page=1&page=34` reads as "1&".
    assert_eq!(parse_link_header("<u?per_page=1&page=34>; rel=\"last\""), 0);
    assert_eq!(parse_link_header(""), 0);
    assert_eq!(parse_link_header("<u?page=x>; rel=\"last\""), 0);
    assert_eq!(parse_link_header("<u?page=+7>; rel=\"last\""), 7);
    assert_eq!(parse_link_header("<u?page=99999999999999999999999>; rel=\"last\""), 0);
}

#[test]
fn health_emoji() {
    let s = |t: u8| HealthScore { total: t, cleanliness: 0, sync_status: 0, branch_status: 0 };
    assert_eq!(s(95).emoji(), "💚");
    assert_eq!(s(10).emoji(), "❤️");
}
