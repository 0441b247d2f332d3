use relate_mail_core::accounts::AppState;
use relate_mail_core::discovery::discovery_http_error;
use relate_mail_core::discovery::discovery_unreachable_error;
use relate_mail_core::discovery::extract_oidc_config;
use relate_mail_core::discovery::ConfigDoc;
use relate_mail_core::discovery::JsonStringField;
use relate_mail_core::errors::ApiError;
use relate_mail_core::errors::AuthError;
use relate_mail_core::errors::OidcError;
use relate_mail_core::requests::classify_api_response;
use relate_mail_core::requests::classify_bearer_response;
use relate_mail_core::requests::prepare_api_key_request;
use relate_mail_core::requests::prepare_api_request;
use relate_mail_core::requests::prepare_profile_request;
use relate_mail_core::requests::HttpMethod;
use relate_mail_core::errors::SettingsError;
use relate_mail_core::settings::settings_or_default;
use relate_mail_core::settings::AppSettings;

fn doc(
    camel_auth: JsonStringField,
    snake_auth: JsonStringField,
    camel_id: JsonStringField,
    snake_id: JsonStringField,
) -> ConfigDoc {
    ConfigDoc {
        oidc_authority: camel_auth,
        oidc_authority_alt: snake_auth,
        oidc_client_id: camel_id,
        oidc_client_id_alt: snake_id,
        oidc_scopes: JsonStringField::Absent,
        oidc_scopes_alt: JsonStringField::Absent,
    }
}

#[test]
fn api_request_requires_server_url() {
    let view = AppState { server_url: None, api_key: None };
    let r = prepare_api_request(&view, HttpMethod::Get, "/mail", None);
    match r {
        Err(ApiError::NotConfigured(m)) => assert_eq!(m, "Server URL not set"),
        _ => panic!("expected NotConfigured"),
    }
}

#[test]
fn api_request_requires_api_key() {
    let view = AppState { server_url: Some("https://s.example".to_string()), api_key: None };
    let r = prepare_api_request(&view, HttpMethod::Get, "/mail", None);
    match r {
        Err(ApiError::NotConfigured(m)) => assert_eq!(m, "API key not set"),
        _ => panic!("expected NotConfigured"),
    }
}

#[test]
fn api_request_builds_url_and_auth() {
    let view = AppState {
        server_url: Some("https://s.example".to_string()),
        api_key: Some("k".to_string()),
    };
    let p = prepare_api_request(&view, HttpMethod::Post, "/mail/send", Some("{}".to_string()))
        .unwrap();
    assert_eq!(p.url, "https://s.example/api/mail/send");
    assert_eq!(p.api_key, Some("k".to_string()));
    assert_eq!(p.bearer, None);
    assert_eq!(p.body, Some("{}".to_string()));
}

#[test]
fn api_response_success_passes_body_through() {
    assert_eq!(classify_api_response(204, "done".to_string()).unwrap(), "done");
}

#[test]
fn api_response_failure_names_status_and_body() {
    let r = classify_api_response(404, "missing".to_string());
    match r {
        Err(ApiError::RequestFailed(m)) => assert_eq!(m, "HTTP 404: missing"),
        _ => panic!("expected RequestFailed"),
    }
}

#[test]
fn profile_request_shape() {
    let p = prepare_profile_request("https://s.example", "jwt123");
    assert_eq!(p.url, "https://s.example/api/profile");
    assert_eq!(p.bearer, Some("jwt123".to_string()));
    assert_eq!(p.api_key, None);
    assert_eq!(p.body, None);
}

#[test]
fn api_key_request_body_is_exact_json() {
    let p = prepare_api_key_request("https://s.example", "jwt", "My \"Laptop\"", "linux");
    assert_eq!(p.url, "https://s.example/api/smtp-credentials/mobile");
    assert_eq!(
        p.body,
        Some("{\"deviceName\":\"My \\\"Laptop\\\"\",\"platform\":\"linux\"}".to_string())
    );
}

#[test]
fn api_key_request_escapes_control_chars() {
    let p = prepare_api_key_request("https://s.example", "jwt", "a\nb\u{1}", "p");
    assert_eq!(
        p.body,
        Some("{\"deviceName\":\"a\\nb\\u0001\",\"platform\":\"p\"}".to_string())
    );
}

#[test]
fn bearer_response_failure_names_endpoint() {
    let r = classify_bearer_response(500, "oops".to_string(), "Profile");
    match r {
        Err(OidcError::RequestFailed(m)) => {
            assert_eq!(m, "Profile endpoint returned HTTP 500: oops")
        }
        _ => panic!("expected RequestFailed"),
    }
}

#[test]
fn oidc_config_prefers_camel_case_keys() {
    let d = doc(
        JsonStringField::Str("https://idp.example".to_string()),
        JsonStringField::Str("ignored".to_string()),
        JsonStringField::Str("app1".to_string()),
        JsonStringField::Absent,
    );
    let cfg = extract_oidc_config(d).unwrap();
    assert_eq!(cfg.authority, "https://idp.example");
    assert_eq!(cfg.client_id, "app1");
    assert_eq!(cfg.scopes, None);
}

#[test]
fn oidc_config_falls_back_to_snake_case_keys() {
    let d = doc(
        JsonStringField::Absent,
        JsonStringField::Str("https://idp.example".to_string()),
        JsonStringField::Absent,
        JsonStringField::Str("app2".to_string()),
    );
    let cfg = extract_oidc_config(d).unwrap();
    assert_eq!(cfg.authority, "https://idp.example");
    assert_eq!(cfg.client_id, "app2");
}

#[test]
fn oidc_config_non_string_value_blocks_fallback() {
    let d = doc(
        JsonStringField::NonString,
        JsonStringField::Str("https://idp.example".to_string()),
        JsonStringField::Str("app1".to_string()),
        JsonStringField::Absent,
    );
    assert!(extract_oidc_config(d).is_none());
}

#[test]
fn oidc_config_empty_authority_yields_none() {
    let d = doc(
        JsonStringField::Str(String::new()),
        JsonStringField::Absent,
        JsonStringField::Str("app1".to_string()),
        JsonStringField::Absent,
    );
    assert!(extract_oidc_config(d).is_none());
}

#[test]
fn oidc_config_missing_client_id_yields_none() {
    let d = doc(
        JsonStringField::Str("https://idp.example".to_string()),
        JsonStringField::Absent,
        JsonStringField::Absent,
        JsonStringField::Absent,
    );
    assert!(extract_oidc_config(d).is_none());
}

#[test]
fn discovery_error_messages() {
    assert_eq!(
        discovery_unreachable_error("timed out").message(),
        "Discovery failed: Failed to reach server: timed out"
    );
    assert_eq!(
        discovery_http_error(503).message(),
        "Discovery failed: Server returned HTTP 503"
    );
    assert_eq!(
        discovery_unreachable_error("refused").message(),
        "Discovery failed: Failed to reach server: refused"
    );
}

#[test]
fn error_messages_carry_their_prefixes() {
    assert_eq!(
        AuthError::KeyringError("denied".to_string()).message(),
        "Keyring error: denied"
    );
    assert_eq!(
        AuthError::AccountNotFound("x".to_string()).message(),
        "Account not found: x"
    );
    assert_eq!(
        AuthError::SerializationError("bad json".to_string()).message(),
        "Serialization error: bad json"
    );
    assert_eq!(
        AuthError::Internal("lock".to_string()).message(),
        "Internal error: lock"
    );
    assert_eq!(OidcError::Timeout.message(), "Timeout waiting for authentication");
    assert_eq!(
        OidcError::DiscoveryFailed("x".to_string()).message(),
        "Discovery failed: x"
    );
    assert_eq!(
        ApiError::RequestFailed("y".to_string()).message(),
        "Request failed: y"
    );
    assert_eq!(
        ApiError::NotConfigured("z".to_string()).message(),
        "Not configured: z"
    );
    assert_eq!(SettingsError::IoError("disk".to_string()).message(), "IO error: disk");
    assert_eq!(
        SettingsError::SerializationError("eof".to_string()).message(),
        "Serialization error: eof"
    );
}

#[test]
fn settings_default_when_missing() {
    let s = settings_or_default(None);
    assert_eq!(s.theme, "");
    assert!(!s.minimize_to_tray);
    assert!(!s.show_notifications);
    assert_eq!(s.window_width, None);

    let loaded = AppSettings {
        theme: "dark".to_string(),
        minimize_to_tray: true,
        show_notifications: true,
        window_width: Some(800),
        window_height: Some(600),
        window_x: Some(0),
        window_y: Some(0),
    };
    let s = settings_or_default(Some(loaded));
    assert_eq!(s.theme, "dark");
    assert!(s.minimize_to_tray);
}
