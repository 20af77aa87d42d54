use rtmp_client::errors::Error;
use rtmp_client::utils::url::{parse_tc_url, split_path, tc_url_from_parts, UrlParts};

#[test]
fn test_invalid() {
    assert!(parse_tc_url("rtmp://").is_err());
}

#[test]
fn test_app() {
    let tc_url = parse_tc_url("rtmp://localhost/app").unwrap();
    assert_eq!(tc_url.protocol, "rtmp");
    assert_eq!(tc_url.host, "localhost");
    assert_eq!(tc_url.port, 1935);
    assert_eq!(tc_url.app, "app");
    assert_eq!(tc_url.instance, "");
}

#[test]
fn test_app_instance() {
    let tc_url = parse_tc_url("rtmp://localhost/app/instance").unwrap();
    assert_eq!(tc_url.protocol, "rtmp");
    assert_eq!(tc_url.host, "localhost");
    assert_eq!(tc_url.port, 1935);
    assert_eq!(tc_url.app, "app");
    assert_eq!(tc_url.instance, "instance");
}

#[test]
fn test_custom_port() {
    let tc_url = parse_tc_url("rtmp://localhost:1936/app/instance").unwrap();
    assert_eq!(tc_url.protocol, "rtmp");
    assert_eq!(tc_url.host, "localhost");
    assert_eq!(tc_url.port, 1936);
    assert_eq!(tc_url.app, "app");
    assert_eq!(tc_url.instance, "instance");
}

#[test]
fn test_debug_param() {
    let tc_url =
        parse_tc_url("rtmp://localhost/app/_definst_%3F%5Ffcs%5Fdebugreq%5F%3D228440").unwrap();
    assert_eq!(tc_url.protocol, "rtmp");
    assert_eq!(tc_url.host, "localhost");
    assert_eq!(tc_url.port, 1935);
    assert_eq!(tc_url.app, "app");
    assert_eq!(tc_url.instance, "_definst_%3F%5Ffcs%5Fdebugreq%5F%3D228440");
}

#[test]
fn full_url_is_kept_as_given() {
    let tc_url = parse_tc_url("rtmp://localhost:1936/app/instance").unwrap();
    assert_eq!(tc_url.full_url, "rtmp://localhost:1936/app/instance");
}

#[test]
fn other_schemes_are_refused() {
    assert!(matches!(parse_tc_url("http://localhost/app"), Err(Error::UnsupportedScheme)));
    assert!(matches!(parse_tc_url("rtmps://localhost/app"), Err(Error::UnsupportedScheme)));
}

#[test]
fn text_that_is_no_url_is_invalid() {
    assert!(matches!(parse_tc_url("not a url"), Err(Error::InvalidUrl)));
    assert!(matches!(parse_tc_url("rtmp://"), Err(Error::InvalidUrl)));
}

#[test]
fn instance_keeps_further_slashes() {
    let tc_url = parse_tc_url("rtmp://example.com/live/a/b").unwrap();
    assert_eq!(tc_url.app, "live");
    assert_eq!(tc_url.instance, "a/b");
}

#[test]
fn split_path_cases() {
    assert_eq!(split_path("/app"), ("app".to_string(), "".to_string()));
    assert_eq!(split_path("/app/"), ("app".to_string(), "".to_string()));
    assert_eq!(split_path("/"), ("".to_string(), "".to_string()));
    assert_eq!(split_path(""), ("".to_string(), "".to_string()));
    assert_eq!(split_path("app/x"), ("app/x".to_string(), "".to_string()));
    assert_eq!(split_path("//x"), ("".to_string(), "x".to_string()));
}

#[test]
fn parts_without_host_or_port() {
    let no_host = UrlParts { scheme: "rtmp".to_string(), host: None, port: None, path: "/a".to_string() };
    assert!(matches!(tc_url_from_parts("rtmp:/a", no_host), Err(Error::InvalidUrl)));
    let parts = UrlParts {
        scheme: "rtmp".to_string(),
        host: Some("h".to_string()),
        port: None,
        path: "/a/b".to_string(),
    };
    let t = tc_url_from_parts("rtmp://h/a/b", parts).unwrap();
    assert_eq!((t.port, t.app.as_str(), t.instance.as_str()), (1935, "a", "b"));
}
