use job_alerts::config::{first_present_env, mail_settings, ConfigError, MailEnv};

fn full_env() -> MailEnv {
    MailEnv {
        smtp_username: Some("user".to_string()),
        smtp_user: Some("other".to_string()),
        smtp_password: None,
        smtp_pass: Some("SECRET-REDACTED".to_string()),
        smtp_host: Some("smtp.example.com".to_string()),
        smtp_port: Some("587".to_string()),
        from_name: Some("Jobs Bot".to_string()),
        from_email: Some("bot@example.com".to_string()),
        to_name: Some("Sam".to_string()),
        to_email: Some("sam@example.com".to_string()),
    }
}

#[test]
fn first_present_takes_first_set_value() {
    assert_eq!(first_present_env(&[None, Some("b".to_string()), Some("c".to_string())]), Some("b".to_string()));
    assert_eq!(first_present_env(&[Some("a".to_string()), Some("b".to_string())]), Some("a".to_string()));
    assert_eq!(first_present_env(&[None, None]), None);
    assert_eq!(first_present_env(&[]), None);
}

#[test]
fn settings_from_complete_env() {
    let s = mail_settings(full_env()).unwrap();
    assert_eq!(s.username, "user");
    assert_eq!(s.password, "SECRET-REDACTED");
    assert_eq!(s.host, "smtp.example.com");
    assert_eq!(s.port, 587);
    assert_eq!(s.from_name, "Jobs Bot");
    assert_eq!(s.from_email, "bot@example.com");
    assert_eq!(s.to_name, "Sam");
    assert_eq!(s.to_email, "sam@example.com");
}

#[test]
fn settings_list_every_missing_key() {
    let mut env = full_env();
    env.smtp_username = None;
    env.smtp_user = None;
    env.smtp_host = None;
    env.to_email = None;
    match mail_settings(env) {
        Err(ConfigError::Missing(names)) => assert_eq!(
            names,
            vec!["SMTP_USERNAME or SMTP_USER", "SMTP_HOST", "TO_EMAIL"]
        ),
        other => panic!("unexpected {other:?}"),
    }
}

#[test]
fn settings_reject_bad_port() {
    for bad in ["", "+", "-1", "65536", " 25", "2 5", "smtp"] {
        let mut env = full_env();
        env.smtp_port = Some(bad.to_string());
        match mail_settings(env) {
            Err(ConfigError::InvalidPort(p)) => assert_eq!(p, bad),
            other => panic!("unexpected {other:?} for {bad:?}"),
        }
    }
}

#[test]
fn settings_accept_port_forms() {
    for (text, port) in [("+465", 465u16), ("0025", 25), ("65535", 65535), ("0", 0)] {
        let mut env = full_env();
        env.smtp_port = Some(text.to_string());
        assert_eq!(mail_settings(env).unwrap().port, port);
    }
}

#[test]
fn mailbox_text_puts_address_in_brackets() {
    assert_eq!(job_alerts::config::mailbox_text("Jobs Bot", "bot@example.com"), "Jobs Bot <bot@example.com>");
    assert_eq!(job_alerts::config::mailbox_text("", "a@b"), " <a@b>");
}
