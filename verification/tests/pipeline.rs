//! End-to-end scenarios for the request pipeline: the machine is driven
//! with simulated resolve/read outcomes and the produced bytes are
//! checked exactly.

use dev_server::candidates::Entry;
use dev_server::config::Configuration;
use dev_server::content_types::ContentTypes;
use dev_server::machine::{start, Action, Event};
use dev_server::request::{parse_request_line, ParseOutcome, RequestError};

fn default_config() -> Configuration {
    Configuration::default()
}

fn config_with_e404() -> Configuration {
    Configuration {
        index: vec![Entry {
            dot_relative: true,
            path: b"index.html".to_vec(),
        }],
        e404: vec![Entry {
            dot_relative: false,
            path: b"404.html".to_vec(),
        }],
        content_types: ContentTypes::new(),
    }
}

fn expect_write(a: Action) -> Vec<u8> {
    match a {
        Action::Write(b) => b,
        _ => panic!("expected a write action"),
    }
}

fn expect_resolve(a: &Action) -> Vec<u8> {
    match a {
        Action::Resolve(c) => c.clone(),
        _ => panic!("expected a resolve action"),
    }
}

fn expect_read(a: &Action) -> Vec<u8> {
    match a {
        Action::Read(p) => p.clone(),
        _ => panic!("expected a read action"),
    }
}

/// Serves an index file for the root request, with its content type.
#[test]
fn scenario_root_index() {
    let config = default_config();
    let line = b"GET / HTTP/1.1\r".to_vec();
    let (mut m, a) = start(&config, &line);
    assert_eq!(expect_resolve(&a), b"index.html".to_vec());
    let a = m.step(Event::Resolved(Some(b"/srv/www/index.html".to_vec())));
    assert_eq!(expect_read(&a), b"/srv/www/index.html".to_vec());
    let a = m.step(Event::FileRead(Some(b"<html>hi</html>".to_vec())));
    assert_eq!(
        expect_write(a),
        b"HTTP/1.0 200 OK\r\nContent-Type: text/html\r\n\r\n<html>hi</html>".to_vec()
    );
}

/// A `..` component is answered with the fixed forbidden message at once:
/// the very first action writes it, so no candidate is ever probed.
#[test]
fn scenario_traversal_forbidden() {
    let config = default_config();
    let line = b"GET /../../etc/passwd HTTP/1.1\r".to_vec();
    let (_m, a) = start(&config, &line);
    assert_eq!(
        expect_write(a),
        b"HTTP/1.0 403 Forbidden\r\n\r\ndev-server doesn't support .. in URLs.".to_vec()
    );
}

/// A missing file falls back to a configured not-found page, served with
/// the not-found status line.
#[test]
fn scenario_missing_file_fallback() {
    let config = config_with_e404();
    let line = b"GET /missing.txt HTTP/1.1\r".to_vec();
    let (mut m, a) = start(&config, &line);
    assert_eq!(expect_resolve(&a), b"missing.txt".to_vec());
    let a = m.step(Event::Resolved(None));
    assert_eq!(expect_resolve(&a), b"404.html".to_vec());
    let a = m.step(Event::Resolved(Some(b"/srv/www/404.html".to_vec())));
    assert_eq!(expect_read(&a), b"/srv/www/404.html".to_vec());
    let a = m.step(Event::FileRead(Some(b"gone".to_vec())));
    assert_eq!(expect_write(a), b"HTTP/1.0 404 Not Found\r\n\r\ngone".to_vec());
}

/// With no fallback configured, a missing file gets the bare not-found
/// response with an empty body.
#[test]
fn scenario_missing_file_bare_404() {
    let config = default_config();
    let line = b"GET /missing.txt HTTP/1.1\r".to_vec();
    let (mut m, a) = start(&config, &line);
    assert_eq!(expect_resolve(&a), b"missing.txt".to_vec());
    let a = m.step(Event::Resolved(None));
    assert_eq!(expect_write(a), b"HTTP/1.0 404 Not Found\r\n\r\n".to_vec());
}

/// A stylesheet is served with its configured content type.
#[test]
fn scenario_css_content_type() {
    let config = default_config();
    let line = b"GET /style.css HTTP/1.1\r".to_vec();
    let (mut m, a) = start(&config, &line);
    assert_eq!(expect_resolve(&a), b"style.css".to_vec());
    let a = m.step(Event::Resolved(Some(b"/srv/www/style.css".to_vec())));
    assert_eq!(expect_read(&a), b"/srv/www/style.css".to_vec());
    let a = m.step(Event::FileRead(Some(b"body{}".to_vec())));
    assert_eq!(
        expect_write(a),
        b"HTTP/1.0 200 OK\r\nContent-Type: text/css\r\n\r\nbody{}".to_vec()
    );
}

/// A file with no table entry gets no content-type header.
#[test]
fn scenario_unknown_extension_no_header() {
    let config = default_config();
    let line = b"GET /notes.txt HTTP/1.1\r".to_vec();
    let (mut m, a) = start(&config, &line);
    assert_eq!(expect_resolve(&a), b"notes.txt".to_vec());
    let a = m.step(Event::Resolved(Some(b"/srv/www/notes.txt".to_vec())));
    let _ = expect_read(&a);
    let a = m.step(Event::FileRead(Some(b"text".to_vec())));
    assert_eq!(expect_write(a), b"HTTP/1.0 200 OK\r\n\r\ntext".to_vec());
}

/// A non-GET request line closes the connection without any response
/// bytes.
#[test]
fn scenario_non_get_closed_silently() {
    let config = default_config();
    let line = b"POST /x HTTP/1.1\r".to_vec();
    let (_m, a) = start(&config, &line);
    assert!(matches!(a, Action::Close));
}

/// Index candidates are tried in configured order and the first hit
/// wins, even though a later candidate would also resolve.
#[test]
fn scenario_index_order_first_wins() {
    let config = Configuration {
        index: vec![
            Entry {
                dot_relative: true,
                path: b"first.html".to_vec(),
            },
            Entry {
                dot_relative: true,
                path: b"second.html".to_vec(),
            },
        ],
        e404: vec![],
        content_types: ContentTypes::new(),
    };
    let line = b"GET /sub/ HTTP/1.1\r".to_vec();
    let (mut m, a) = start(&config, &line);
    assert_eq!(expect_resolve(&a), b"sub/first.html".to_vec());
    let a = m.step(Event::Resolved(Some(b"/srv/www/sub/first.html".to_vec())));
    let _ = expect_read(&a);
    let a = m.step(Event::FileRead(Some(b"first".to_vec())));
    assert_eq!(expect_write(a), b"HTTP/1.0 200 OK\r\n\r\nfirst".to_vec());
}

/// When the first index candidate is missing, the second is tried next,
/// in configured order.
#[test]
fn scenario_index_order_second_tried() {
    let config = Configuration {
        index: vec![
            Entry {
                dot_relative: true,
                path: b"first.html".to_vec(),
            },
            Entry {
                dot_relative: false,
                path: b"fallback/second.html".to_vec(),
            },
        ],
        e404: vec![],
        content_types: ContentTypes::new(),
    };
    let line = b"GET /sub/ HTTP/1.1\r".to_vec();
    let (mut m, a) = start(&config, &line);
    assert_eq!(expect_resolve(&a), b"sub/first.html".to_vec());
    let a = m.step(Event::Resolved(None));
    assert_eq!(expect_resolve(&a), b"fallback/second.html".to_vec());
}

/// The same request with the same outcomes yields byte-identical
/// responses.
#[test]
fn scenario_repeat_request_identical() {
    let mut responses: Vec<Vec<u8>> = Vec::new();
    for _ in 0..2 {
        let config = default_config();
        let line = b"GET /style.css HTTP/1.1\r".to_vec();
        let (mut m, a) = start(&config, &line);
        let _ = expect_resolve(&a);
        let a = m.step(Event::Resolved(Some(b"/srv/www/style.css".to_vec())));
        let _ = expect_read(&a);
        let a = m.step(Event::FileRead(Some(b"body{}".to_vec())));
        responses.push(expect_write(a));
    }
    assert_eq!(responses[0], responses[1]);
}

/// A read failure after a successful probe moves on to the next
/// candidate rather than answering.
#[test]
fn scenario_read_failure_falls_through() {
    let config = config_with_e404();
    let line = b"GET /flaky.txt HTTP/1.1\r".to_vec();
    let (mut m, a) = start(&config, &line);
    assert_eq!(expect_resolve(&a), b"flaky.txt".to_vec());
    let a = m.step(Event::Resolved(Some(b"/srv/www/flaky.txt".to_vec())));
    let _ = expect_read(&a);
    let a = m.step(Event::FileRead(None));
    assert_eq!(expect_resolve(&a), b"404.html".to_vec());
}

/// The parser's verdict on assorted request lines.
#[test]
fn parse_request_line_cases() {
    let out = parse_request_line(&b"GET / HTTP/1.1\r".to_vec());
    match out {
        ParseOutcome::Request { rel, is_dir } => {
            assert_eq!(rel, b"".to_vec());
            assert!(is_dir);
        }
        _ => panic!("expected a request"),
    }
    let out = parse_request_line(&b"GET /a/b.txt\n".to_vec());
    match out {
        ParseOutcome::Request { rel, is_dir } => {
            assert_eq!(rel, b"a/b.txt".to_vec());
            assert!(!is_dir);
        }
        _ => panic!("expected a request"),
    }
    assert!(matches!(
        parse_request_line(&b"POST /x HTTP/1.1\r".to_vec()),
        ParseOutcome::Ignore
    ));
    assert!(matches!(
        parse_request_line(&b"GET /a/../b HTTP/1.1\n".to_vec()),
        ParseOutcome::Forbidden
    ));
    // `..` must be a whole component to be forbidden.
    match parse_request_line(&b"GET /..a HTTP/1.1\r".to_vec()) {
        ParseOutcome::Request { rel, .. } => assert_eq!(rel, b"..a".to_vec()),
        _ => panic!("expected a request"),
    }
}

/// Each malformed line is rejected with its own error.
#[test]
fn parse_request_line_errors() {
    assert!(matches!(
        parse_request_line(&b"GET /x".to_vec()),
        ParseOutcome::Fail(RequestError::Truncated)
    ));
    assert!(matches!(
        parse_request_line(&b"".to_vec()),
        ParseOutcome::Fail(RequestError::Truncated)
    ));
    assert!(matches!(
        parse_request_line(&b"GET\r".to_vec()),
        ParseOutcome::Fail(RequestError::MissingPath)
    ));
    assert!(matches!(
        parse_request_line(&b"GET x HTTP/1.1\r".to_vec()),
        ParseOutcome::Fail(RequestError::NotAbsolute)
    ));
    assert!(matches!(
        parse_request_line(&b"GET //etc/passwd HTTP/1.1\r".to_vec()),
        ParseOutcome::Fail(RequestError::RootAnchored)
    ));
}
