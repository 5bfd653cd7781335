use clickhouse_relay::error::{DecodeStage, Missing, RelayError};
use clickhouse_relay::model::ConnectionDescriptor;
use clickhouse_relay::transport::{accept, endpoint_url, prepare, Body, PostRequest, Reply};

fn connection(host: &str, username: &str) -> ConnectionDescriptor {
    ConnectionDescriptor {
        host: host.to_string(),
        port: 8123,
        username: username.to_string(),
        password: " s3cret ".to_string(),
        database: None,
        secure: false,
    }
}

fn answered(status: u16, reason: &str, body: Body) -> Reply {
    Reply::Answered { status, reason: reason.to_string(), body }
}

#[test]
fn request_goes_to_the_endpoint_with_the_credentials() {
    let request = prepare(&connection("localhost", "default"), "SELECT 1".to_string());
    assert_eq!(
        request,
        Ok(PostRequest {
            url: "http://localhost:8123/".to_string(),
            username: "default".to_string(),
            password: " s3cret ".to_string(),
            body: "SELECT 1".to_string(),
            timeout_secs: 10,
        })
    );
}

#[test]
fn secure_connection_uses_https() {
    let mut secure = connection("ch.example.com", "reader");
    secure.secure = true;
    secure.port = 8443;
    let request = prepare(&secure, String::new()).unwrap();
    assert_eq!(request.url, "https://ch.example.com:8443/");
}

#[test]
fn host_and_username_are_trimmed_and_the_password_is_not() {
    let mut edge = connection("  10.0.0.7\t", " admin \n");
    edge.port = 0;
    let request = prepare(&edge, "x".to_string()).unwrap();
    assert_eq!(request.url, "http://10.0.0.7:0/");
    assert_eq!(request.username, "admin");
    assert_eq!(request.password, " s3cret ");
    edge.port = u16::MAX;
    assert_eq!(prepare(&edge, "x".to_string()).unwrap().url, "http://10.0.0.7:65535/");
}

#[test]
fn blank_host_is_refused() {
    for host in ["", " ", "\t\n"] {
        assert_eq!(
            prepare(&connection(host, "default"), "SELECT 1".to_string()),
            Err(RelayError::Validation(Missing::Host))
        );
    }
}

#[test]
fn blank_username_is_refused() {
    for username in ["", "  ", "\u{a0}"] {
        assert_eq!(
            prepare(&connection("localhost", username), "SELECT 1".to_string()),
            Err(RelayError::Validation(Missing::Username))
        );
    }
}

#[test]
fn blank_host_is_reported_before_blank_username() {
    assert_eq!(
        prepare(&connection(" ", " "), "SELECT 1".to_string()),
        Err(RelayError::Validation(Missing::Host))
    );
}

#[test]
fn client_failure_is_a_configuration_error() {
    assert_eq!(
        accept(Reply::ClientFailed("builder error".to_string())),
        Err(RelayError::Configuration("builder error".to_string()))
    );
}

#[test]
fn send_failure_is_a_connectivity_error() {
    assert_eq!(
        accept(Reply::SendFailed("operation timed out".to_string())),
        Err(RelayError::Connectivity("operation timed out".to_string()))
    );
}

#[test]
fn success_hands_the_body_on_unread() {
    let body = Body::Text("{\"data\":[]}".to_string());
    assert_eq!(accept(answered(200, "OK", body.clone())), Ok(body));
    let unreadable = Body::Unreadable("connection reset".to_string());
    assert_eq!(accept(answered(204, "No Content", unreadable.clone())), Ok(unreadable));
    assert_eq!(
        accept(answered(299, "<unknown status code>", Body::Text(String::new()))),
        Ok(Body::Text(String::new()))
    );
}

#[test]
fn status_outside_2xx_is_a_server_error() {
    for (status, reason) in [
        (199, "<unknown status code>"),
        (300, "Multiple Choices"),
        (404, "Not Found"),
        (500, "Internal Server Error"),
        (100, "Continue"),
    ] {
        assert_eq!(
            accept(answered(status, reason, Body::Text("Code: 62".to_string()))),
            Err(RelayError::Server {
                status,
                reason: reason.to_string(),
                body: "Code: 62".to_string(),
            })
        );
    }
}

#[test]
fn unreadable_error_body_gets_a_placeholder() {
    assert_eq!(
        accept(answered(503, "Service Unavailable", Body::Unreadable("eof".to_string()))),
        Err(RelayError::Server {
            status: 503,
            reason: "Service Unavailable".to_string(),
            body: "Unable to read error body".to_string(),
        })
    );
}

#[test]
fn messages_read_as_documented() {
    let cases = [
        (RelayError::Validation(Missing::Host), "Host is required"),
        (RelayError::Validation(Missing::Username), "Username is required"),
        (RelayError::Validation(Missing::Schema), "Schema is required"),
        (RelayError::Validation(Missing::Table), "Table is required"),
        (RelayError::Validation(Missing::Query), "Query is required"),
        (
            RelayError::Configuration("no tls".to_string()),
            "Could not initialize ClickHouse client: no tls",
        ),
        (
            RelayError::Connectivity("dns error".to_string()),
            "Could not connect to ClickHouse: dns error",
        ),
        (
            RelayError::Server {
                status: 404,
                reason: "Not Found".to_string(),
                body: "nothing here".to_string(),
            },
            "ClickHouse returned 404 Not Found: nothing here",
        ),
        (
            RelayError::Decoding { stage: DecodeStage::Parse, cause: "expected value".to_string() },
            "Could not parse ClickHouse response: expected value",
        ),
        (
            RelayError::Decoding { stage: DecodeStage::Read, cause: "reset".to_string() },
            "Could not read ClickHouse response: reset",
        ),
        (RelayError::Protocol, "Could not read ClickHouse status"),
    ];
    for (error, message) in cases {
        assert_eq!(error.message(), message);
    }
}

#[test]
fn endpoint_is_scheme_host_and_port() {
    assert_eq!(endpoint_url(false, "localhost", 8123), "http://localhost:8123/");
    assert_eq!(endpoint_url(true, "ch.example.com", 443), "https://ch.example.com:443/");
    assert_eq!(endpoint_url(true, "", 0), "https://:0/");
    assert_eq!(endpoint_url(false, "[::1]", 65535), "http://[::1]:65535/");
}

#[test]
fn every_request_has_the_same_time_limit() {
    for host in ["a", "b.c"] {
        assert_eq!(prepare(&connection(host, "u"), String::new()).unwrap().timeout_secs, 10);
    }
    assert_eq!(clickhouse_relay::transport::REQUEST_TIMEOUT_SECS, 10);
}
