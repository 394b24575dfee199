use peregrein::config::{BackendConfig, Protocol, ServerConfig};
use peregrein::error::{ConfigError, ServerError};
use peregrein::server::http_server::{
    reply, HttpServer, Phase, Reply, ServerAction, ServerEvent, BAD_GATEWAY,
};

fn server(port: u16, backends: &[(&str, &str, u16)]) -> ServerConfig {
    let mut config = ServerConfig::new("test".to_string(), port, Protocol::Http);
    for (name, host, port) in backends {
        let backend = BackendConfig { host: host.to_string(), port: *port, enable_h2c: false };
        config = config.insert_backend(name.to_string(), backend).0;
    }
    config
}

#[test]
fn new_server_is_idle_and_keeps_its_definition() {
    let listener = HttpServer::new(server(8080, &[("backend1", "localhost", 8081)]));
    assert_eq!(listener.current_phase(), Phase::Idle);
    assert_eq!(listener.definition().name(), "test");
    assert_eq!(listener.definition().port(), 8080);
    assert_eq!(listener.definition().protocol(), Protocol::Http);
    assert_eq!(listener.definition().backends().len(), 1);
}

#[test]
fn listener_builds_binds_and_then_accepts_for_good() {
    let mut listener = HttpServer::new(server(8080, &[("backend1", "localhost", 8081)]));
    assert_eq!(listener.step(ServerEvent::Start), ServerAction::Build);
    assert_eq!(listener.current_phase(), Phase::Building);
    assert_eq!(listener.step(ServerEvent::Built), ServerAction::Bind { port: 8080 });
    assert_eq!(listener.current_phase(), Phase::Binding);
    assert_eq!(listener.step(ServerEvent::Bound), ServerAction::Accept);
    assert_eq!(listener.current_phase(), Phase::Listening);
    for event in [
        ServerEvent::Accepted,
        ServerEvent::ConnectionEnded,
        ServerEvent::AcceptFailed,
        ServerEvent::Accepted,
        ServerEvent::Accepted,
        ServerEvent::ConnectionEnded,
        ServerEvent::ConnectionEnded,
        ServerEvent::BindFailed,
        ServerEvent::BuildFailed(ConfigError::NoBackends),
        ServerEvent::Start,
    ] {
        let action = listener.step(event);
        let expected = match event {
            ServerEvent::Accepted => ServerAction::Serve,
            ServerEvent::AcceptFailed => ServerAction::Accept,
            _ => ServerAction::Ignore,
        };
        assert_eq!(action, expected);
        assert_eq!(listener.current_phase(), Phase::Listening);
    }
}

#[test]
fn bind_failure_is_fatal() {
    let mut listener = HttpServer::new(server(80, &[("backend1", "localhost", 8081)]));
    listener.step(ServerEvent::Start);
    listener.step(ServerEvent::Built);
    assert_eq!(
        listener.step(ServerEvent::BindFailed),
        ServerAction::Abort(ServerError::Bind { port: 80 })
    );
    assert_eq!(listener.current_phase(), Phase::Failed);
    assert_eq!(listener.step(ServerEvent::Bound), ServerAction::Ignore);
    assert_eq!(listener.step(ServerEvent::Accepted), ServerAction::Ignore);
    assert_eq!(listener.current_phase(), Phase::Failed);
}

#[test]
fn pipeline_failure_is_fatal_before_any_bind() {
    let mut listener = HttpServer::new(server(8080, &[]));
    assert_eq!(listener.step(ServerEvent::Start), ServerAction::Build);
    let fault = listener.pipeline().err().unwrap();
    assert_eq!(fault, ConfigError::NoBackends);
    assert_eq!(
        listener.step(ServerEvent::BuildFailed(fault)),
        ServerAction::Abort(ServerError::Config(ConfigError::NoBackends))
    );
    assert_eq!(listener.current_phase(), Phase::Failed);
    assert_eq!(listener.step(ServerEvent::Built), ServerAction::Ignore);
}

#[test]
fn events_out_of_turn_are_ignored() {
    let mut listener = HttpServer::new(server(8080, &[("backend1", "localhost", 8081)]));
    for event in [ServerEvent::Bound, ServerEvent::Accepted, ServerEvent::Built] {
        assert_eq!(listener.step(event), ServerAction::Ignore);
        assert_eq!(listener.current_phase(), Phase::Idle);
    }
    listener.step(ServerEvent::Start);
    assert_eq!(listener.step(ServerEvent::Bound), ServerAction::Ignore);
    assert_eq!(listener.step(ServerEvent::Start), ServerAction::Ignore);
    assert_eq!(listener.current_phase(), Phase::Building);
}

#[test]
fn pipeline_is_a_pool_over_the_backends_in_order() {
    let listener = HttpServer::new(server(
        8080,
        &[("backend1", "localhost", 8081), ("backend2", "localhost", 8082)],
    ));
    let pool = listener.pipeline().unwrap();
    assert_eq!(pool.len(), 2);
    assert_eq!(pool.forward(0).authority(), "localhost:8081");
    assert_eq!(pool.forward(1).authority(), "localhost:8082");
    assert_eq!(pool.load(0), 0);
    assert_eq!(pool.load(1), 0);
}

#[test]
fn pipeline_refuses_a_faulty_server() {
    let zero_port = HttpServer::new(server(0, &[("backend1", "localhost", 8081)]));
    assert_eq!(zero_port.pipeline().err(), Some(ConfigError::InvalidPort));
    let no_host = HttpServer::new(server(8080, &[("backend1", "", 8081)]));
    assert_eq!(no_host.pipeline().err(), Some(ConfigError::EmptyHost));
    let bad_port = HttpServer::new(server(8080, &[("a", "localhost", 1), ("b", "localhost", 0)]));
    assert_eq!(bad_port.pipeline().err(), Some(ConfigError::InvalidPort));
    let bad_host = HttpServer::new(server(8080, &[("a", "local host", 1)]));
    assert_eq!(bad_host.pipeline().err(), Some(ConfigError::InvalidAddress));
}

#[test]
fn throttled_pipeline_wraps_the_pool_in_a_limiter() {
    let listener = HttpServer::new(server(
        8080,
        &[("backend1", "localhost", 8081), ("backend2", "localhost", 8082)],
    ));
    let mut limiter = listener.throttled_pipeline(2).unwrap();
    assert_eq!(limiter.rate(), 2);
    assert_eq!(limiter.get_ref().len(), 2);
    assert_eq!(limiter.call(0), peregrein::layer::limiter::Admission::Proceed);
    let ticket = limiter.get_mut().dispatch();
    assert_eq!(ticket.endpoint(), 0);
    assert_eq!(limiter.get_ref().load(0), 1);
    limiter.get_mut().release(ticket);
    let empty = HttpServer::new(server(8080, &[]));
    assert_eq!(empty.throttled_pipeline(2).err(), Some(ConfigError::NoBackends));
}

#[test]
fn relay_failure_becomes_bad_gateway() {
    assert_eq!(BAD_GATEWAY, 502);
    let failed: Result<&str, String> = Err("connection reset".to_string());
    let answer = reply(failed);
    assert!(matches!(answer, Reply::BadGateway));
    assert_eq!(answer.own_status(), Some(502));
    let relayed: Result<&str, String> = Ok("token-2");
    let answer = reply(relayed);
    assert!(matches!(answer, Reply::Upstream("token-2")));
    assert_eq!(answer.own_status(), None);
}

#[test]
fn one_failing_request_leaves_the_pool_and_the_listener_alone() {
    let mut listener = HttpServer::new(server(
        8080,
        &[("backend1", "localhost", 8081), ("backend2", "localhost", 8082)],
    ));
    listener.step(ServerEvent::Start);
    let mut pool = listener.pipeline().unwrap();
    listener.step(ServerEvent::Built);
    listener.step(ServerEvent::Bound);
    assert_eq!(listener.step(ServerEvent::Accepted), ServerAction::Serve);
    let ticket = pool.dispatch();
    let outcome: Result<&str, &str> = pool.complete(ticket, Err("refused"));
    assert!(matches!(reply(outcome), Reply::BadGateway));
    assert_eq!(listener.current_phase(), Phase::Listening);
    let ticket = pool.dispatch();
    let outcome: Result<&str, &str> = pool.complete(ticket, Ok("token-1"));
    assert!(matches!(reply(outcome), Reply::Upstream("token-1")));
}
