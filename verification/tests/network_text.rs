use grabbit::network::{history_response, http_ok_response, os_report, page_response};

#[test]
fn response_counts_bytes() {
    assert_eq!(
        page_response("h\u{e9}llo"),
        "HTTP/1.1 200 OK\r\nContent-Type: text/html\r\nContent-Length: 6\r\n\r\nh\u{e9}llo"
    );
    assert_eq!(
        history_response("[]"),
        "HTTP/1.1 200 OK\r\nContent-Type: application/json\r\nContent-Length: 2\r\n\r\n[]"
    );
    let body = "x".repeat(1234);
    assert_eq!(
        http_ok_response("a/b", &body),
        format!("HTTP/1.1 200 OK\r\nContent-Type: a/b\r\nContent-Length: 1234\r\n\r\n{}", body)
    );
    assert_eq!(
        http_ok_response("t", ""),
        "HTTP/1.1 200 OK\r\nContent-Type: t\r\nContent-Length: 0\r\n\r\n"
    );
}

#[test]
fn os_report_lines() {
    assert_eq!(os_report("windows"), "the code base is working or WINDOWS based system");
    assert_eq!(os_report("macos"), "the code base is working or MAC OS based system");
    assert_eq!(os_report("linux"), "the code base is working or linux based system");
    assert_eq!(os_report("freebsd"), "Unsupported OS: freebsd");
}
