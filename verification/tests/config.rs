use zero2prod::config::ApplicationSettings;
use zero2prod::config::DatabaseSettings;
use zero2prod::config::EmailClientSettings;
use zero2prod::config::Environment;
use zero2prod::config::Settings;
use zero2prod::config::SslMode;
use zero2prod::startup::report_exit;
use zero2prod::startup::ApplicationBaseUrl;
use zero2prod::startup::Severity;
use zero2prod::startup::TaskExit;

fn database(require_ssl: bool) -> DatabaseSettings {
    DatabaseSettings {
        username: "postgres".to_string(),
        password: "password".to_string(),
        host: "localhost".to_string(),
        port: 5432,
        database_name: "newsletter".to_string(),
        require_ssl,
    }
}

fn email_client(sender: &str) -> EmailClientSettings {
    EmailClientSettings {
        base_url: "http://localhost".to_string(),
        sender_email: sender.to_string(),
        auth_token: "token".to_string(),
        timeout_milliseconds: 10000,
    }
}

#[test]
fn the_names_of_the_environments() {
    assert_eq!(Environment::LOCAL.as_str(), "local");
    assert_eq!(Environment::PROD.as_str(), "prod");
}

#[test]
fn an_environment_is_read_whatever_its_case() {
    for name in ["local", "LOCAL", "Local", "lOcAl"] {
        assert_eq!(Environment::try_from(name.to_string()), Ok(Environment::LOCAL));
    }
    for name in ["prod", "PROD", "Prod"] {
        assert_eq!(Environment::try_from(name.to_string()), Ok(Environment::PROD));
    }
}

#[test]
fn an_unknown_environment_is_named_in_lower_case() {
    assert_eq!(
        Environment::try_from("Staging".to_string()),
        Err(
            "staging is not a supported environment. Use either 'local' or 'prod'".to_string()
        )
    );
    assert_eq!(
        Environment::try_from("".to_string()),
        Err(" is not a supported environment. Use either 'local' or 'prod'".to_string())
    );
    assert!(Environment::try_from(" local".to_string()).is_err());
    assert!(Environment::try_from("production".to_string()).is_err());
}

#[test]
fn encryption_is_required_where_the_settings_ask_for_it() {
    assert_eq!(database(true).ssl_mode(), SslMode::Require);
    assert_eq!(database(false).ssl_mode(), SslMode::Prefer);
}

#[test]
fn the_sender_is_validated() {
    assert_eq!(
        email_client("sender@example.com").sender_email().unwrap().as_ref(),
        "sender@example.com"
    );
    assert_eq!(
        email_client("sender").sender_email().unwrap_err(),
        "sender is not a valid subscriber email."
    );
    assert_eq!(email_client("sender@example.com").timeout(), 10000);
}

#[test]
fn the_settings_hold_their_parts() {
    let settings = Settings {
        database: database(true),
        application: ApplicationSettings {
            port: 8000,
            host: "127.0.0.1".to_string(),
        },
        email_client: email_client("sender@example.com"),
    };
    assert_eq!(settings.application.port, 8000);
    assert_eq!(settings.application.host, "127.0.0.1");
    assert_eq!(settings.database.port, 5432);
    assert_eq!(settings.email_client.base_url, "http://localhost");
    assert_eq!(ApplicationBaseUrl("http://127.0.0.1".to_string()).0, "http://127.0.0.1");
}

#[test]
fn a_clean_exit_is_reported_as_information() {
    let report = report_exit("API", TaskExit::Exited);
    assert_eq!(report.severity, Severity::Info);
    assert_eq!(report.message, "API has exited");
    assert_eq!(report.error, None);
}

#[test]
fn a_failure_is_reported_as_an_error() {
    let report = report_exit("Background worker", TaskExit::Failed("no database".to_string()));
    assert_eq!(report.severity, Severity::Error);
    assert_eq!(report.message, "Background worker failed");
    assert_eq!(report.error, Some("no database".to_string()));
}

#[test]
fn an_aborted_task_is_reported_as_an_error() {
    let report = report_exit("API", TaskExit::Aborted("panicked".to_string()));
    assert_eq!(report.severity, Severity::Error);
    assert_eq!(report.message, "API' task failed to complete");
    assert_eq!(report.error, Some("panicked".to_string()));
}
