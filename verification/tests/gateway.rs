use std::sync::Arc;

use helix_gateway::connection::{process_connection, ConnectionHandler};
use helix_gateway::protocol::{ParseResult, Request, Response, parse_request};
use helix_gateway::router::{Handler, HelixRouter, Route};
use helix_gateway::thread_pool::ThreadPool;
use helix_gateway::types::GraphError;
use helix_gateway::{GatewayOpts, HelixGateway};

/// Stands in for the opaque, thread-safe storage-engine handle.
struct TestEngine;

/// One handler type covering the behaviors the tests need.
enum TestHandler {
    Success,
    Failing,
    Marker(u16),
}

impl Handler<TestEngine> for TestHandler {
    fn call(
        &self,
        _graph: &TestEngine,
        _request: &Request,
        response: &mut Response,
    ) -> Result<(), GraphError> {
        match self {
            TestHandler::Success => {
                response.status = 200;
                response.body = b"Success".to_vec();
                response.insert_header(b"Content-Type".to_vec(), b"text/plain".to_vec());
                Ok(())
            }
            TestHandler::Failing => {
                response.status = 200;
                response.body = b"half built".to_vec();
                Err(GraphError::New(String::from("handler failed")))
            }
            TestHandler::Marker(status) => {
                response.status = *status;
                Ok(())
            }
        }
    }
}

fn as_text(bytes: &[u8]) -> String {
    String::from_utf8_lossy(bytes).to_string()
}

#[test]
fn test_response_creation_and_sending() {
    let mut response = Response::new();
    response.status = 200;
    response.insert_header(b"Content-Type".to_vec(), b"text/plain".to_vec());
    response.body = b"Hello World".to_vec();

    let mut stream: Vec<u8> = Vec::new();
    response.send(&mut stream);
    let response_str = as_text(&stream);

    assert!(response_str.contains("HTTP/1.1 200 OK"));
    assert!(response_str.contains("Content-Type: text/plain"));
    assert!(response_str.contains("Content-Length: 11"));
    assert!(response_str.contains("Hello World"));
}

#[test]
fn test_thread_pool_creation() {
    let size = 4;
    let router = Arc::new(HelixRouter::<TestHandler>::new(None));
    let graph = Arc::new(TestEngine);
    let pool: ThreadPool<TestEngine, TestHandler, u64> = ThreadPool::new(size, graph, router);

    assert_eq!(pool.num_unused_workers(), size);
    assert_eq!(pool.num_used_workers(), 0);
}

#[test]
fn test_connection_handler() {
    let address = "127.0.0.1:0";
    let router = HelixRouter::<TestHandler>::new(None);
    let graph = Arc::new(TestEngine);
    let handler: ConnectionHandler<TestEngine, TestHandler, u64> =
        ConnectionHandler::new(address, graph, 4, router);

    assert_eq!(handler.address, address);
    assert_eq!(handler.pool.num_unused_workers(), 4);
    assert_eq!(handler.pool.num_used_workers(), 0);
}

#[test]
fn test_router_integration() {
    let mut router = HelixRouter::new(None);
    let graph = Arc::new(TestEngine);

    router.add_route(b"GET".to_vec(), b"/test".to_vec(), TestHandler::Success);

    let request_str = "GET /test HTTP/1.1\r\nHost: localhost\r\n\r\n";
    let request = match parse_request(request_str.as_bytes()) {
        ParseResult::Complete(request) => request,
        _ => panic!("request bytes should decode"),
    };

    let mut response = Response::new();
    router.handle(&*graph, request, &mut response).unwrap();
    let mut stream: Vec<u8> = Vec::new();
    response.send(&mut stream);
    let response_str = as_text(&stream);

    assert!(response_str.contains("HTTP/1.1 200 OK"));
    assert!(response_str.contains("Content-Type: text/plain"));
    assert!(response_str.contains("Success"));
}

#[test]
fn test_decode_simple_request() {
    let bytes = b"GET /test HTTP/1.1\r\nHost: localhost\r\n\r\n";
    match parse_request(bytes) {
        ParseResult::Complete(request) => {
            assert_eq!(request.method, b"GET".to_vec());
            assert_eq!(request.path, b"/test".to_vec());
            assert_eq!(request.headers.len(), 1);
            assert_eq!(request.headers[0].0, b"Host".to_vec());
            assert_eq!(request.headers[0].1, b"localhost".to_vec());
            assert!(request.body.is_empty());
        }
        _ => panic!("expected a complete request"),
    }
}

#[test]
fn test_decode_request_with_body() {
    let bytes = b"POST /items HTTP/1.1\r\nContent-Length: 5\r\n\r\nhelloEXTRA";
    match parse_request(bytes) {
        ParseResult::Complete(request) => {
            assert_eq!(request.method, b"POST".to_vec());
            assert_eq!(request.path, b"/items".to_vec());
            assert_eq!(request.body, b"hello".to_vec());
        }
        _ => panic!("expected a complete request"),
    }
}

#[test]
fn test_decode_incomplete_buffers() {
    assert!(matches!(
        parse_request(b"GET /test HT"),
        ParseResult::Incomplete
    ));
    assert!(matches!(
        parse_request(b"GET /test HTTP/1.1\r\nHost: l"),
        ParseResult::Incomplete
    ));
    assert!(matches!(
        parse_request(b"POST /x HTTP/1.1\r\nContent-Length: 9\r\n\r\nshort"),
        ParseResult::Incomplete
    ));
}

#[test]
fn test_decode_malformed_buffers() {
    // request line without the two spaces
    assert!(matches!(
        parse_request(b"GETONLY\r\n\r\n"),
        ParseResult::Malformed
    ));
    // header line without a colon
    assert!(matches!(
        parse_request(b"GET /x HTTP/1.1\r\nNoColonHere\r\n\r\n"),
        ParseResult::Malformed
    ));
    // non-numeric Content-Length
    assert!(matches!(
        parse_request(b"GET /x HTTP/1.1\r\nContent-Length: abc\r\n\r\n"),
        ParseResult::Malformed
    ));
}

#[test]
fn test_decode_duplicate_header_overwrites() {
    let bytes = b"GET /x HTTP/1.1\r\nA: 1\r\nB: 2\r\nA: 3\r\n\r\n";
    match parse_request(bytes) {
        ParseResult::Complete(request) => {
            assert_eq!(request.headers.len(), 2);
            assert_eq!(request.headers[0].0, b"A".to_vec());
            assert_eq!(request.headers[0].1, b"3".to_vec());
            assert_eq!(request.headers[1].0, b"B".to_vec());
            assert_eq!(request.headers[1].1, b"2".to_vec());
        }
        _ => panic!("expected a complete request"),
    }
}

#[test]
fn test_decode_trims_value_spaces() {
    let bytes = b"GET /x HTTP/1.1\r\nHost:   spaced.example\r\n\r\n";
    match parse_request(bytes) {
        ParseResult::Complete(request) => {
            assert_eq!(request.headers[0].0, b"Host".to_vec());
            assert_eq!(request.headers[0].1, b"spaced.example".to_vec());
        }
        _ => panic!("expected a complete request"),
    }
}

#[test]
fn test_encode_unknown_status_reason() {
    let mut response = Response::new();
    response.status = 201;
    let mut stream: Vec<u8> = Vec::new();
    response.send(&mut stream);
    assert_eq!(stream, b"HTTP/1.1 201 Unknown\r\nContent-Length: 0\r\n\r\n".to_vec());
}

#[test]
fn test_encode_exact_bytes() {
    let mut response = Response::new();
    response.status = 200;
    response.insert_header(b"Content-Type".to_vec(), b"text/plain".to_vec());
    response.body = b"Hello World".to_vec();

    let mut stream: Vec<u8> = Vec::new();
    response.send(&mut stream);
    assert_eq!(
        stream,
        b"HTTP/1.1 200 OK\r\nContent-Type: text/plain\r\nContent-Length: 11\r\n\r\nHello World"
            .to_vec()
    );

    let empty = Response::new();
    let mut stream2: Vec<u8> = Vec::new();
    empty.send(&mut stream2);
    assert_eq!(stream2, b"HTTP/1.1 200 OK\r\nContent-Length: 0\r\n\r\n".to_vec());
}

#[test]
fn test_router_last_registration_wins() {
    let mut router = HelixRouter::new(None);
    let graph = TestEngine;
    router.add_route(b"GET".to_vec(), b"/m".to_vec(), TestHandler::Marker(201));
    router.add_route(b"GET".to_vec(), b"/m".to_vec(), TestHandler::Marker(202));

    let request = Request {
        method: b"GET".to_vec(),
        path: b"/m".to_vec(),
        headers: Vec::new(),
        body: Vec::new(),
    };
    let mut response = Response::new();
    router.handle(&graph, request, &mut response).unwrap();
    assert_eq!(response.status, 202);
}

#[test]
fn test_route_not_found_gives_404() {
    let mut router = HelixRouter::new(None);
    router.add_route(b"GET".to_vec(), b"/test".to_vec(), TestHandler::Success);
    let graph = TestEngine;

    let out = process_connection(
        &router,
        &graph,
        b"GET /missing HTTP/1.1\r\nHost: localhost\r\n\r\n",
    );
    let text = as_text(&out);
    assert!(text.contains("HTTP/1.1 404 Not Found"));
}

#[test]
fn test_handler_error_gives_500() {
    let mut router = HelixRouter::new(None);
    router.add_route(b"GET".to_vec(), b"/fail".to_vec(), TestHandler::Failing);
    let graph = TestEngine;

    let out = process_connection(&router, &graph, b"GET /fail HTTP/1.1\r\n\r\n");
    let text = as_text(&out);
    assert!(text.contains("HTTP/1.1 500 Internal Server Error"));
    // the handler's half-built success body is discarded
    assert!(!text.contains("half built"));
}

#[test]
fn test_malformed_request_gives_400() {
    let router = HelixRouter::<TestHandler>::new(None);
    let graph = TestEngine;

    let out = process_connection(&router, &graph, b"NONSENSE\r\n\r\n");
    let text = as_text(&out);
    assert!(text.contains("HTTP/1.1 400 Bad Request"));
}

#[test]
fn test_end_to_end_success() {
    let mut router = HelixRouter::new(None);
    router.add_route(b"GET".to_vec(), b"/test".to_vec(), TestHandler::Success);
    let graph = TestEngine;

    let out = process_connection(
        &router,
        &graph,
        b"GET /test HTTP/1.1\r\nHost: localhost\r\n\r\n",
    );
    let text = as_text(&out);
    assert!(text.contains("HTTP/1.1 200 OK"));
    assert!(text.contains("Success"));
}

#[test]
fn test_pool_never_exceeds_capacity() {
    let router = Arc::new(HelixRouter::<TestHandler>::new(None));
    let graph = Arc::new(TestEngine);
    let mut pool: ThreadPool<TestEngine, TestHandler, u64> = ThreadPool::new(2, graph, router);

    // submit five simultaneous jobs to a two-worker pool
    for job in 0..5u64 {
        pool.submit(job);
    }
    assert_eq!(pool.queued_jobs(), 5);

    // only two can start; the third take yields nothing
    assert_eq!(pool.take_job(), Some(0));
    assert_eq!(pool.take_job(), Some(1));
    assert_eq!(pool.take_job(), None);
    assert_eq!(pool.num_used_workers(), 2);
    assert_eq!(pool.num_unused_workers(), 0);

    // a finished worker frees capacity for the next queued job, in order
    pool.finish_job();
    assert_eq!(pool.take_job(), Some(2));
    assert_eq!(pool.num_used_workers(), 2);
}

#[test]
fn test_pool_accounting_after_load() {
    let router = Arc::new(HelixRouter::<TestHandler>::new(None));
    let graph = Arc::new(TestEngine);
    let mut pool: ThreadPool<TestEngine, TestHandler, u64> = ThreadPool::new(3, graph, router);

    for job in 0..3u64 {
        pool.submit(job);
        assert_eq!(pool.take_job(), Some(job));
    }
    for _ in 0..3 {
        pool.finish_job();
    }
    // busy + idle == total holds, with everything idle again
    assert_eq!(pool.num_used_workers(), 0);
    assert_eq!(pool.num_unused_workers(), 3);
    assert_eq!(pool.num_workers(), 3);
}

#[test]
fn test_gateway_assembly() {
    assert_eq!(GatewayOpts::DEFAULT_POOL_SIZE, 10);

    let routes = vec![Route {
        method: b"GET".to_vec(),
        path: b"/test".to_vec(),
        handler: TestHandler::Success,
    }];
    let gateway: HelixGateway<TestEngine, TestHandler, u64> =
        HelixGateway::new("127.0.0.1:8080", Arc::new(TestEngine), 4, Some(routes));

    assert_eq!(gateway.connection_handler.address, "127.0.0.1:8080");
    assert_eq!(gateway.connection_handler.pool.num_unused_workers(), 4);
    assert_eq!(gateway.connection_handler.pool.router().routes.len(), 1);
}
