use oxidize::install::{theme_name_from_url, UrlError};

#[test]
fn names_from_urls() {
    assert_eq!(theme_name_from_url("https://github.com/user/oxidize-tokyo-night-theme.git").unwrap(), "tokyo-night");
    assert_eq!(theme_name_from_url("https://github.com/user/omarchy-rose-pine/").unwrap(), "rose-pine");
    assert_eq!(theme_name_from_url("https://github.com/user/my-theme").unwrap(), "my");
    assert_eq!(theme_name_from_url("plain").unwrap(), "plain");
    assert_eq!(theme_name_from_url("https://x/oxidize-omarchy-nord-theme.git").unwrap(), "nord");
    assert_eq!(theme_name_from_url("https://x/omarchy-oxidize-nord").unwrap(), "oxidize-nord");
}

#[test]
fn urls_without_a_name() {
    assert_eq!(theme_name_from_url(""), Err(UrlError::NoName));
    assert_eq!(theme_name_from_url("///"), Err(UrlError::NoName));
    assert_eq!(theme_name_from_url("https://x/oxidize-.git"), Err(UrlError::EmptyName));
    assert_eq!(theme_name_from_url("https://x/-theme"), Err(UrlError::EmptyName));
}
