use workpool::calc::Operator;
use workpool::config::ServerConfig;
use workpool::pool::JobAction;
use workpool::server::{
    bad_request_response, plan_response, render_home_response, render_http_response,
    ResponsePlan, Server, ServerError,
};

struct NopJob;

impl JobAction for NopJob {
    fn run(self) {}
}

#[test]
fn plan_recognises_a_calculation_request() {
    let req = "POST / HTTP/1.1\r\noperator=add&operands=1,2";
    match plan_response(req) {
        ResponsePlan::Calc(c) => {
            assert!(matches!(c.operator, Operator::Add));
            assert_eq!(c.operands, vec!["1", "2"]);
        },
        ResponsePlan::BadRequest => panic!("a well-formed request must be recognised"),
    }
}

#[test]
fn plan_trims_the_payload_and_folds_operator_case() {
    let req = "POST / HTTP/1.1\r\noperator= MUL &operands= 3 , 4 \r\n";
    match plan_response(req) {
        ResponsePlan::Calc(c) => {
            assert!(matches!(c.operator, Operator::Mul));
            assert_eq!(c.operands, vec!["3", "4"]);
        },
        ResponsePlan::BadRequest => panic!("a well-formed request must be recognised"),
    }
}

#[test]
fn plan_rejects_a_non_post_request() {
    assert!(matches!(plan_response("GET / HTTP/1.1\r\n"), ResponsePlan::BadRequest));
}

#[test]
fn plan_rejects_a_post_without_the_form() {
    assert!(matches!(plan_response("POST / HTTP/1.1\r\nnothing"), ResponsePlan::BadRequest));
}

#[test]
fn plan_rejects_an_unknown_operator() {
    let req = "POST / HTTP/1.1\r\noperator=pow&operands=1,2";
    assert!(matches!(plan_response(req), ResponsePlan::BadRequest));
}

#[test]
fn bad_request_line_is_fixed() {
    assert_eq!(bad_request_response(), "HTTP/1.1 400 BAD REQUEST\r\n");
}

#[test]
fn http_response_carries_the_body_length() {
    assert_eq!(
        render_http_response("HTTP/1.1 200 OK\r\n", "hello"),
        "HTTP/1.1 200 OK\r\nContent-Length: 5\r\n\r\nhello"
    );
}

#[test]
fn home_request_gets_the_ok_page() {
    let body = "<!DOCTYPE html><html lang=\"en\"><head><meta charset=\"utf-8\"><title>ok</title></head><body><h1>ok</h1></body></html>";
    let want = format!("HTTP/1.1 200 OK\r\nContent-Length: {}\r\n\r\n{}", body.len(), body);
    assert_eq!(render_home_response("GET / HTTP/1.1\r\nHost: x"), want);
}

#[test]
fn other_requests_get_the_not_found_page() {
    let body = "<!DOCTYPE html><html lang=\"en\"><head><meta charset=\"utf-8\"><title>not found</title></head><body><h1>not found</h1></body></html>";
    let want = format!("HTTP/1.1 404 NOT FOUND\r\nContent-Length: {}\r\n\r\n{}", body.len(), body);
    assert_eq!(render_home_response("GET /other HTTP/1.1\r\n"), want);
}

#[test]
fn server_new_joins_host_and_port_and_builds_the_pool() {
    let cfg = ServerConfig {
        host: String::from("127.0.0.1"),
        port: String::from("8000"),
        pool_size: 4,
    };
    let s = Server::<NopJob>::new(cfg).unwrap();
    assert_eq!(s.addr, "127.0.0.1:8000");
    assert_eq!(s.pool.worker_count(), 4);
}

#[test]
fn server_new_rejects_an_out_of_bounds_pool_size() {
    let cfg = ServerConfig {
        host: String::from("h"),
        port: String::from("p"),
        pool_size: 0,
    };
    assert!(Server::<NopJob>::new(cfg).is_err());
}

#[test]
fn server_error_new_keeps_message() {
    let e = ServerError::new(String::from("listen failed"));
    assert_eq!(e.msg, "listen failed");
}
