use wallet_sweeper::config::AppConfig;
use wallet_sweeper::error::ErrorKind;

fn ok(text: &str) -> Result<String, String> {
    Ok(text.to_string())
}

fn missing() -> Result<String, String> {
    Err("environment variable not found".to_string())
}

#[test]
fn config_holds_the_three_settings() {
    let c = AppConfig::from_values(ok("postgres://db"), ok("0xabc"), ok("00ff")).unwrap();
    assert_eq!(c.database_url, "postgres://db");
    assert_eq!(c.master_wallet_address, "0xabc");
    assert_eq!(c.wallet_generation_secret, "00ff");
}

#[test]
fn missing_database_url_is_a_config_error() {
    let e = AppConfig::from_values(missing(), ok("0xabc"), ok("00ff")).unwrap_err();
    assert_eq!(e.kind(), ErrorKind::Config);
    assert_eq!(e.text(), "DATABASE_URL not set: environment variable not found");
}

#[test]
fn missing_master_address_is_a_config_error() {
    let e = AppConfig::from_values(ok("postgres://db"), missing(), ok("00ff")).unwrap_err();
    assert_eq!(e.kind(), ErrorKind::Config);
    assert_eq!(e.text(), "MASTER_WALLET_ADDRESS not set: environment variable not found");
}

#[test]
fn missing_secret_is_a_config_error() {
    let e = AppConfig::from_values(ok("postgres://db"), ok("0xabc"), missing()).unwrap_err();
    assert_eq!(e.kind(), ErrorKind::Config);
    assert_eq!(e.text(), "WALLET_GENERATION_SECRET not set: environment variable not found");
}

#[test]
fn first_missing_setting_decides_the_error() {
    let e = AppConfig::from_values(missing(), missing(), missing()).unwrap_err();
    assert_eq!(e.text(), "DATABASE_URL not set: environment variable not found");
    let e = AppConfig::from_values(ok("x"), missing(), missing()).unwrap_err();
    assert_eq!(e.text(), "MASTER_WALLET_ADDRESS not set: environment variable not found");
}
