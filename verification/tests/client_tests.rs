use tcp_server::address::{bind_failure_message, Address};
use tcp_server::api::auth::get_session_id;
use tcp_server::config::Config;
use tcp_server::paths::{
    get_batch_url, get_datapoint_datetime_url, get_datapoint_subpath_url, get_datapoint_url,
    get_login_url, get_logout_url, get_profile_url, get_renew_url, get_sensor_id_url,
    get_sensor_url, get_session_sensors_id_url, get_session_sensors_subpath_url,
    get_session_sensors_url, get_sessions_exp_url, get_sessions_subpath_url, get_sessions_url,
    get_user_url, get_username_url,
};
use tcp_server::request::HttpRequest;
use tcp_server::HttpMethod;

const BASE: &str = "http://127.0.0.1:7878";

#[test]
fn user_endpoint_urls() {
    assert_eq!(get_user_url(BASE), "http://127.0.0.1:7878/users");
    assert_eq!(get_profile_url(BASE), "http://127.0.0.1:7878/users/profile");
    assert_eq!(get_username_url(BASE, "alice"), "http://127.0.0.1:7878/users/alice");
}

#[test]
fn auth_endpoint_urls() {
    assert_eq!(get_login_url(BASE), "http://127.0.0.1:7878/authentication/login");
    assert_eq!(get_logout_url(BASE), "http://127.0.0.1:7878/authentication/logout");
    assert_eq!(get_renew_url(BASE), "http://127.0.0.1:7878/authentication/renew");
}

#[test]
fn sensor_endpoint_urls() {
    assert_eq!(get_sensor_url(BASE), "http://127.0.0.1:7878/sensors");
    assert_eq!(get_sensor_id_url(BASE, "7"), "http://127.0.0.1:7878/sensors/7");
}

#[test]
fn session_endpoint_urls() {
    assert_eq!(get_sessions_url(BASE), "http://127.0.0.1:7878/sessions");
    assert_eq!(get_sessions_exp_url(BASE, "user"), "http://127.0.0.1:7878/sessions/user");
    assert_eq!(
        get_sessions_subpath_url(BASE, "user", "bob"),
        "http://127.0.0.1:7878/sessions/user/bob"
    );
    assert_eq!(get_session_sensors_url(BASE), "http://127.0.0.1:7878/sessions-sensors");
    assert_eq!(get_session_sensors_id_url(BASE, "3"), "http://127.0.0.1:7878/sessions-sensors/3");
    assert_eq!(
        get_session_sensors_subpath_url(BASE, "session", "9"),
        "http://127.0.0.1:7878/sessions-sensors/session/9"
    );
}

#[test]
fn datapoint_endpoint_urls() {
    assert_eq!(get_datapoint_url(BASE), "http://127.0.0.1:7878/sessions-sensors-data");
    assert_eq!(get_batch_url(BASE), "http://127.0.0.1:7878/sessions-sensors-data/batch");
    assert_eq!(
        get_datapoint_subpath_url(BASE, "session", "5"),
        "http://127.0.0.1:7878/sessions-sensors-data/session/5"
    );
    assert_eq!(
        get_datapoint_datetime_url(BASE, "5", "2024-01-01T00:00:00"),
        "http://127.0.0.1:7878/sessions-sensors-data/session/5/2024-01-01T00:00:00"
    );
}

#[test]
fn config_builds_user_urls() {
    let config = Config::new(String::from(BASE));
    assert_eq!(config.get_user_url(), "http://127.0.0.1:7878/users");
    assert_eq!(config.get_profile_url(), "http://127.0.0.1:7878/users/profile");
    assert_eq!(config.get_username_url("carol"), "http://127.0.0.1:7878/users/carol");
}

#[test]
fn config_defaults_to_the_local_server() {
    let config = Config::default();
    assert_eq!(config.base_url, "http://127.0.0.1:7878");
}

#[test]
fn session_id_is_found_among_cookie_parts() {
    assert_eq!(get_session_id("session_id=abc123"), Some(String::from("abc123")));
    assert_eq!(
        get_session_id("theme=dark;session_id=xyz;lang=en"),
        Some(String::from("xyz"))
    );
    assert_eq!(get_session_id("session_id="), Some(String::new()));
}

#[test]
fn session_id_lookup_does_not_trim_parts() {
    // Parts keep their leading spaces, so a conventionally formatted header
    // with a space after each `;` does not match.
    assert_eq!(get_session_id("theme=dark; session_id=xyz"), None);
    assert_eq!(get_session_id("theme=dark"), None);
    assert_eq!(get_session_id(""), None);
}

#[test]
fn address_exposes_its_text() {
    let v4 = Address::IPv4(String::from("127.0.0.1:7878"));
    assert_eq!(v4.to_string().as_str(), "127.0.0.1:7878");
    let v6 = Address::IPv6(String::from("[::1]:7878"));
    assert_eq!(v6.to_string().as_str(), "[::1]:7878");
}

#[test]
fn bind_failure_reports_name_the_address() {
    assert_eq!(
        bind_failure_message("127.0.0.1:7878", "Address already in use"),
        "Failed to bind server at address 127.0.0.1:7878, Error: Address already in use"
    );
}

#[test]
fn requests_render_to_text_and_bytes() {
    let request = HttpRequest::default_get();
    assert_eq!(request.method, HttpMethod::Get);
    assert_eq!(request.to_string(), "GET / HTTP/1.1\r\nContent Length: 0\r\n\r\n");
    assert_eq!(
        request.to_bytes(),
        b"GET / HTTP/1.1\r\nContent Length: 0\r\n\r\n".to_vec()
    );

    let request = HttpRequest::new(
        HttpMethod::Post,
        String::from("/submit"),
        Some(vec![(String::from("a"), String::from("1"))]),
        Some(String::from("payload")),
    );
    assert_eq!(
        request.to_string(),
        "POST /submit?a=1 HTTP/1.1\r\nContent Length: 7\r\n\r\npayload"
    );
}

#[test]
fn parameters_render_as_a_query_string() {
    let mut request = HttpRequest::default_get();
    assert_eq!(request.parameters_to_string(), "");
    request.parameters = None;
    assert_eq!(request.parameters_to_string(), "");
    request.parameters = Some(vec![
        (String::from("k1"), String::from("v1")),
        (String::from("k2"), String::from("v2")),
        (String::from("k1"), String::from("v3")),
    ]);
    assert_eq!(request.parameters_to_string(), "?k1=v1&k2=v2&k1=v3");
}

#[test]
fn request_constructors_set_their_fields() {
    let request = HttpRequest::error();
    assert_eq!(request.method, HttpMethod::Error);
    assert_eq!(request.path, "");
    assert_eq!(request.parameters, Some(vec![]));
    assert_eq!(request.body, None);

    let request = HttpRequest::default_post();
    assert_eq!(request.method, HttpMethod::Post);
    assert_eq!(request.path, "");
    assert_eq!(request.parameters, Some(vec![]));

    let request = HttpRequest::test();
    assert_eq!(request.method, HttpMethod::Get);
    assert_eq!(request.path, "/");
    assert_eq!(request.parameters, Some(vec![]));
    assert_eq!(request.body, None);

    let request = HttpRequest::get(String::from("/p"), None, Some(String::from("b")));
    assert_eq!(request.method, HttpMethod::Get);
    assert_eq!(request.body, Some(String::from("b")));

    let request = HttpRequest::post(String::from("/q"), None, None);
    assert_eq!(request.method, HttpMethod::Post);
    assert_eq!(request.path, "/q");
}
