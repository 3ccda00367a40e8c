use invoice_mapping::app_config::AppConfig;
use invoice_mapping::session::LoginOutcome;
use invoice_mapping::session::Session;

#[test]
fn default_in_dir_builds_the_paths() {
    let c = AppConfig::default_in_dir("/home/someone/.config");
    assert_eq!(
        c.templates_dir_path,
        "/home/someone/.config/invoice_shelf_cli/templates/"
    );
    assert_eq!(
        c.session_token_dir_path,
        "/home/someone/.config/invoice_shelf_cli/session"
    );
    assert_eq!(c.hostname, "https://your.server.com");
}

#[test]
fn default_roots_at_the_platform_config_dir() {
    // The platform may offer no configuration directory; when it does, the
    // default must be rooted there.
    if let Some(c) = AppConfig::default() {
        assert!(c
            .templates_dir_path
            .ends_with("/invoice_shelf_cli/templates/"));
        assert!(c
            .session_token_dir_path
            .ends_with("/invoice_shelf_cli/session"));
        assert_eq!(c.hostname, "https://your.server.com");
        if let Some(dir) = dirs::config_dir() {
            assert!(c.templates_dir_path.starts_with(dir.to_str().unwrap()));
        }
    }
}

#[test]
fn login_status_classification() {
    assert_eq!(Session::classify_login_status(200), LoginOutcome::Accepted);
    assert_eq!(
        Session::classify_login_status(422),
        LoginOutcome::WrongCredentials
    );
    assert_eq!(
        Session::classify_login_status(500),
        LoginOutcome::OtherFailure
    );
    assert_eq!(
        Session::classify_login_status(404),
        LoginOutcome::OtherFailure
    );
}
