use docker_exporter::http::{
    answer_path, build_http_response, handle_client, metrics_response, path_of, read_path,
    ClientStep,
};

#[test]
fn response_has_head_and_body() {
    assert_eq!(
        build_http_response("200 OK", "text/plain", "hello"),
        "HTTP/1.1 200 OK\r\nContent-Type: text/plain\r\nContent-Length: 5\r\nConnection: close\r\n\r\nhello"
    );
    assert_eq!(
        build_http_response("204 No Content", "text/plain", ""),
        "HTTP/1.1 204 No Content\r\nContent-Type: text/plain\r\nContent-Length: 0\r\nConnection: close\r\n\r\n"
    );
}

#[test]
fn response_carries_as_many_bytes_as_it_declares() {
    let body = "naïve ✓\n";
    let response = build_http_response("200 OK", "text/plain", body);
    let (head, rest) = response.split_at(response.find("\r\n\r\n").unwrap() + 4);
    assert!(head.contains("\r\nContent-Length: 11\r\n"));
    assert_eq!(rest.as_bytes().len(), 11);
    assert_eq!(rest, body);
}

#[test]
fn body_follows_the_first_empty_line() {
    let body = "a\r\n\r\nb";
    let response = build_http_response("200 OK", "text/plain", body);
    let (_, rest) = response.split_once("\r\n\r\n").unwrap();
    assert_eq!(rest, body);
}

#[test]
fn path_is_the_second_word_of_a_get() {
    assert_eq!(path_of("GET /metrics HTTP/1.1\r\nHost: x\r\n\r\n"), "/metrics");
    assert_eq!(path_of("GET /metrics"), "/metrics");
    assert_eq!(path_of("  GET\t/a?b=c  HTTP/1.1"), "/a?b=c");
    assert_eq!(path_of("GET /one\nGET /two"), "/one");
}

#[test]
fn path_is_empty_for_any_other_request() {
    assert_eq!(path_of("POST /metrics HTTP/1.1\r\n"), "");
    assert_eq!(path_of("get /metrics HTTP/1.1\r\n"), "");
    assert_eq!(path_of("GET"), "");
    assert_eq!(path_of(""), "");
    assert_eq!(path_of("\r\nGET /metrics HTTP/1.1"), "");
}

#[test]
fn path_is_read_from_bytes() {
    assert_eq!(read_path(b"GET /metrics HTTP/1.1\r\n\r\n"), "/metrics");
    assert_eq!(read_path(b"GET /\xff HTTP/1.1\r\n\r\n"), "/\u{fffd}");
    assert_eq!(read_path("GET /é HTTP/1.1".as_bytes()), "/é");
}

#[test]
fn metrics_are_served_under_one_path() {
    assert!(matches!(handle_client(b"GET /metrics HTTP/1.1\r\n\r\n"), ClientStep::Scrape));
    assert!(matches!(answer_path("/metrics"), ClientStep::Scrape));
    let refused = "HTTP/1.1 404 Not Found\r\nContent-Type: text/plain\r\nContent-Length: 9\r\nConnection: close\r\n\r\nNot Found";
    for request in [
        "GET / HTTP/1.1\r\n\r\n",
        "GET /metrics/ HTTP/1.1\r\n\r\n",
        "GET /metrics?x=1 HTTP/1.1\r\n\r\n",
        "POST /metrics HTTP/1.1\r\n\r\n",
        "",
    ] {
        match handle_client(request.as_bytes()) {
            ClientStep::Reply(response) => assert_eq!(response, refused),
            ClientStep::Scrape => panic!("{:?} must be refused", request),
        }
    }
}

#[test]
fn report_and_failure_are_answered() {
    assert_eq!(
        metrics_response(&Some(vec!["a 1".to_string(), String::new()])),
        "HTTP/1.1 200 OK\r\nContent-Type: text/plain; version=0.0.4\r\nContent-Length: 4\r\nConnection: close\r\n\r\na 1\n"
    );
    assert_eq!(
        metrics_response(&None),
        "HTTP/1.1 500 Internal Server Error\r\nContent-Type: text/plain\r\nContent-Length: 21\r\nConnection: close\r\n\r\nInternal Server Error"
    );
}
