use spot_directory::config::{parse_bool, parse_i64, parse_u16, Config, ConfigError, ConfigVars};
use spot_directory::invite::render_invite_page;

fn vars() -> ConfigVars {
    ConfigVars {
        database_url: Some("postgres://localhost/spots".to_string()),
        admin_token: Some("SECRET-REDACTED".to_string()),
        port: None,
        base_url: None,
        invite_base_url: None,
        invite_expiry_days: None,
        spots_enabled: None,
        pota_aggregator_enabled: None,
        rbn_aggregator_enabled: None,
        sota_aggregator_enabled: None,
    }
}

#[test]
fn config_defaults() {
    let c = Config::from_vars(&vars()).unwrap();
    assert_eq!(c.port, 8080);
    assert_eq!(c.invite_expiry_days, 7);
    assert_eq!(c.invite_base_url, "https://activities.carrierwave.app");
    assert!(c.spots_enabled);
    assert!(!c.pota_aggregator_enabled);
    assert!(!c.rbn_aggregator_enabled);
    assert!(!c.sota_aggregator_enabled);
    assert_eq!(c.base_url, None);
}

#[test]
fn config_values() {
    let mut v = vars();
    v.port = Some("3000".to_string());
    v.invite_expiry_days = Some("-2".to_string());
    v.spots_enabled = Some("false".to_string());
    v.rbn_aggregator_enabled = Some("true".to_string());
    v.sota_aggregator_enabled = Some("yes".to_string());
    v.base_url = Some("https://example.org".to_string());
    let c = Config::from_vars(&v).unwrap();
    assert_eq!(c.port, 3000);
    assert_eq!(c.invite_expiry_days, -2);
    assert!(!c.spots_enabled);
    assert!(c.rbn_aggregator_enabled);
    assert!(!c.sota_aggregator_enabled);
    assert_eq!(c.base_url, Some("https://example.org".to_string()));
}

#[test]
fn config_missing_and_invalid() {
    let mut v = vars();
    v.database_url = None;
    assert!(matches!(Config::from_vars(&v), Err(ConfigError::Missing("DATABASE_URL"))));
    let mut v = vars();
    v.admin_token = None;
    assert!(matches!(Config::from_vars(&v), Err(ConfigError::Missing("ADMIN_TOKEN"))));
    let mut v = vars();
    v.port = Some("80a".to_string());
    assert!(matches!(Config::from_vars(&v), Err(ConfigError::Invalid(_))));
    let mut v = vars();
    v.invite_expiry_days = Some("week".to_string());
    assert!(matches!(Config::from_vars(&v), Err(ConfigError::Invalid(_))));
}

#[test]
fn integer_text() {
    assert_eq!(parse_i64("+5"), Some(5));
    assert_eq!(parse_i64("-9223372036854775808"), Some(i64::MIN));
    assert_eq!(parse_i64("9223372036854775807"), Some(i64::MAX));
    assert_eq!(parse_i64("9223372036854775808"), None);
    assert_eq!(parse_i64("-"), None);
    assert_eq!(parse_i64(""), None);
    assert_eq!(parse_u16("65535"), Some(65535));
    assert_eq!(parse_u16("65536"), None);
    assert_eq!(parse_u16("-0"), None);
    assert_eq!(parse_u16("+80"), Some(80));
    assert_eq!(parse_bool("true"), Some(true));
    assert_eq!(parse_bool("false"), Some(false));
    assert_eq!(parse_bool("True"), None);
}

#[test]
fn invite_page_names_inviter() {
    let page = render_invite_page(Some("W1AW"), "tok123");
    assert!(page.starts_with("<!DOCTYPE html>"));
    assert!(page.contains("<title>W1AW wants to be friends on Carrier Wave</title>"));
    assert!(page.contains("<h1>W1AW wants to be friends!</h1>"));
    assert!(page.contains("<p>Open this link in Carrier Wave to add W1AW as a friend.</p>"));
    assert!(page.contains("href=\"carrierwave://invite/tok123\""));
    assert!(page.contains("* { margin: 0; padding: 0; box-sizing: border-box; }"));
    assert!(page.ends_with("</html>"));
}

#[test]
fn invite_page_without_inviter() {
    let page = render_invite_page(None, "abc");
    assert!(page.contains("<title>Friend invite on Carrier Wave</title>"));
    assert!(page.contains("<h1>You've been invited!</h1>"));
    assert!(page.contains("content=\"Open this link in Carrier Wave to accept this friend invite.\""));
    assert!(page.contains("carrierwave://invite/abc"));
}
