use tcp_web::HttpHandler;

#[test]
fn default_configuration() {
    let handler = HttpHandler::new();
    assert_eq!(handler.get_port(), 80);
    assert_eq!(handler.get_ip_address().as_str(), "0.0.0.0");
    assert_eq!(handler.get_worker_num(), 1);
}

#[test]
fn setters_update_configuration() {
    let mut handler = HttpHandler::new();
    handler.port(8080);
    handler.ip_address("127.0.0.1");
    handler.worker_num(4);
    assert_eq!(handler.get_port(), 8080);
    assert_eq!(handler.get_ip_address().as_str(), "127.0.0.1");
    assert_eq!(handler.get_worker_num(), 4);
}
