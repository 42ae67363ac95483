use workpool::client::{parse_request, ClientCalculateError, ClientNewError};

#[test]
fn request_for_a_line_with_operands() {
    let req = parse_request("add,1,2").unwrap();
    let content = "operator=add&operands=[\"1\", \"2\"]";
    let want = format!(
        "POST / HTTP/1.1\r\nContent-Type: application/x-www-form-urlencoded\r\nContent-Length: {}\r\n\r\n{}",
        content.len(),
        content
    );
    assert_eq!(req, want);
}

#[test]
fn request_for_a_bare_operator() {
    let req = parse_request("add").unwrap();
    let content = "operator=add&operands=[]";
    let want = format!(
        "POST / HTTP/1.1\r\nContent-Type: application/x-www-form-urlencoded\r\nContent-Length: {}\r\n\r\n{}",
        content.len(),
        content
    );
    assert_eq!(req, want);
}

#[test]
fn request_keeps_fields_raw_after_trimming_the_line() {
    let req = parse_request("  sub , 9 ").unwrap();
    let content = "operator=sub &operands=[\" 9\"]";
    let want = format!(
        "POST / HTTP/1.1\r\nContent-Type: application/x-www-form-urlencoded\r\nContent-Length: {}\r\n\r\n{}",
        content.len(),
        content
    );
    assert_eq!(req, want);
}

#[test]
fn client_new_error_new_keeps_message() {
    let e = ClientNewError::new(String::from("no such file"));
    assert_eq!(e.msg, "no such file");
}

#[test]
fn client_calculate_error_new_keeps_message() {
    let e = ClientCalculateError::new(String::from("connection refused"));
    assert_eq!(e.msg, "connection refused");
}
