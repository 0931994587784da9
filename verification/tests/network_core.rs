use wasmos::host::HostBridge;
use wasmos::network::{
    host_of_url, request_method, HttpExchange, HttpRequest, HttpResponse, NetworkCapability,
    NetworkSubsystem, SocketPolicy,
};
use wasmos::ordered::TextMap;

fn network_fixture() -> NetworkSubsystem {
    NetworkSubsystem::new(HostBridge::detect(false))
}

fn open_policy(hosts: &[&str], http: bool, tcp: bool) -> SocketPolicy {
    SocketPolicy {
        allow_remote: true,
        allow_http: http,
        allow_websocket: false,
        allow_tcp: tcp,
        allowed_hosts: hosts.iter().map(|h| h.to_string()).collect(),
        denied_hosts: Vec::new(),
        dns_allowlist: Vec::new(),
        connect_timeout_ms: 10,
        io_timeout_ms: 10,
        max_response_bytes: 1024,
        max_message_bytes: 256,
    }
}

#[test]
fn http_request_denied_when_remote_network_disabled() {
    let mut network = network_fixture();
    let task_id = 21;
    network.set_policy(task_id, SocketPolicy::default());
    let request = HttpRequest {
        method: "GET".to_string(),
        url: "https://example.com".to_string(),
        headers: TextMap::new(),
        body: Vec::new(),
    };
    let err = network
        .authorize_http(task_id, &request)
        .expect_err("policy should block remote HTTP");
    assert!(
        err.contains("network disabled"),
        "expected remote network denial, got {err:?}"
    );
}

#[test]
fn tcp_connect_respects_allowlist_policy() {
    let mut network = network_fixture();
    let task_id = 22;
    network.set_policy(task_id, open_policy(&["example.com"], false, true));
    let err = network
        .authorize_tcp(task_id, "127.0.0.1")
        .expect_err("host outside allowlist should be denied");
    assert!(
        err.contains("not permitted"),
        "expected allowlist denial, got {err:?}"
    );
}

#[test]
fn network_subsystem_remembers_last_http_error_message() {
    let mut network = network_fixture();
    let task_id = 24;
    network.set_policy(task_id, open_policy(&["203.0.113.1"], true, false));
    let request = HttpRequest {
        method: "GET".to_string(),
        url: "http://203.0.113.1".to_string(),
        headers: TextMap::new(),
        body: Vec::new(),
    };
    assert!(network.authorize_http(task_id, &request).is_ok());
    let _ = network.finish_http(
        task_id,
        1024,
        HttpExchange::SendFailed("connection refused".to_string()),
    );
    let message = network
        .last_error(task_id)
        .expect("failed request should record an error message");
    assert!(
        message.contains("HTTP"),
        "expected recorded error message, got {message:?}"
    );
    assert_eq!(message, "HTTP request failed: connection refused");
}

#[test]
fn accepted_response_clears_the_last_error_and_oversized_is_refused() {
    let mut network = network_fixture();
    let task_id = 25;
    network.set_policy(task_id, open_policy(&[], true, false));
    let big = HttpResponse { status: 200, headers: TextMap::new(), body: vec![0; 10] };
    let err = network
        .finish_http(task_id, 4, HttpExchange::Received(big))
        .expect_err("body over the limit");
    assert_eq!(err, "HTTP response exceeded 4 bytes");
    let small = HttpResponse { status: 200, headers: TextMap::new(), body: vec![1, 2] };
    let ok = network.finish_http(task_id, 4, HttpExchange::Received(small)).unwrap();
    assert_eq!(ok.body, vec![1, 2]);
    assert!(network.last_error(task_id).is_none());
}

#[test]
fn default_policy_is_offline() {
    let network = network_fixture();
    let err = network
        .enforce(30, "example.com", NetworkCapability::Tcp)
        .expect_err("offline by default");
    assert_eq!(err, "network disabled for task 30");
}

#[test]
fn denylist_wins_over_allowlist() {
    let mut network = network_fixture();
    let mut policy = open_policy(&["evil.example"], true, true);
    policy.denied_hosts = vec!["evil.example".to_string()];
    network.set_policy(31, policy);
    let err = network.authorize_tcp(31, "evil.example").unwrap_err();
    assert_eq!(err, "host evil.example explicitly denied");
}

#[test]
fn url_hosts_come_from_the_parser() {
    assert_eq!(host_of_url("https://Example.COM:8443/path"), "example.com");
    assert_eq!(host_of_url("not a url"), "");
    assert_eq!(host_of_url("wss://chat.example/socket"), "chat.example");
    assert_eq!(host_of_url("::"), "");
    assert_eq!(host_of_url("data:text/plain,hi"), "");
}

#[test]
fn sockets_belong_to_their_task() {
    let mut network = network_fixture();
    network.set_policy(40, open_policy(&[], false, true));
    assert!(network.authorize_tcp(40, "10.0.0.1").is_ok());
    let id = network.register_tcp(40, 50, 8);
    assert_eq!(network.check_tcp_send(40, id, 8).unwrap(), 50);
    assert!(network.check_tcp_send(40, id, 9).is_err());
    assert!(network.check_tcp_send(41, id, 1).is_err());
    assert_eq!(
        network.check_tcp_send(40, id + 100, 1).unwrap_err(),
        "unknown tcp socket id"
    );
    let ws = network.register_websocket(40, 4);
    assert!(ws > id);
    assert!(network.check_websocket_owner(40, ws).is_ok());
    assert!(network.check_websocket_owner(41, ws).is_err());
}

#[test]
fn request_methods_are_read_by_the_http_client() {
    let mut request = HttpRequest {
        method: "GET".to_string(),
        url: "https://example.com/".to_string(),
        headers: TextMap::new(),
        body: Vec::new(),
    };
    assert_eq!(request_method(&request).unwrap(), reqwest::Method::GET);
    request.method = "PATCH".to_string();
    assert_eq!(request_method(&request).unwrap().as_str(), "PATCH");
    request.method = String::new();
    assert_eq!(request_method(&request).unwrap_err(), "invalid HTTP method");
    request.method = "BAD METHOD".to_string();
    assert!(request_method(&request).is_err());
    request.method = "X-Custom~1!".to_string();
    assert_eq!(request_method(&request).unwrap().as_str(), "X-Custom~1!");
    request.method = "GÉT".to_string();
    assert!(request_method(&request).is_err());
}
