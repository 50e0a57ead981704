use tunnel_client::admission::AdmissionCounter;
use tunnel_client::bridge::{bridge_complete, StreamCopy};
use tunnel_client::connection::{ConnectionError, ConnectionEvent, TunnelConnection};
use tunnel_client::pool::pool_tick;
use tunnel_client::resolve::{
    assignment_uri, effective_server, endpoint_from_response, parse_proxy_response, relay_host,
    ResolveError, AD4M_PROXY_SERVER, LOCAL_HOST, WILDCARD_SUBDOMAIN,
};

#[test]
fn it_works() {
    let result = 2 + 2;
    assert_eq!(result, 4);
}

const GOOD_BODY: &str =
    "{\"id\":\"abc\",\"port\":7000,\"max_conn_count\":5,\"url\":\"http://abc.proxy.ad4m.dev\"}";

#[test]
fn resolver_yields_endpoint() {
    let r = endpoint_from_response("http://proxy.ad4m.dev", true, GOOD_BODY);
    let info = r.expect("a well-formed response must resolve");
    assert_eq!(info.host, "proxy.ad4m.dev");
    assert_eq!(info.port, 7000);
    assert_eq!(info.max_conn_count, 5);
    assert_eq!(info.url, "http://abc.proxy.ad4m.dev");
}

#[test]
fn non_success_status_is_protocol_error() {
    let r = endpoint_from_response("http://proxy.ad4m.dev", false, GOOD_BODY);
    assert_eq!(r.unwrap_err(), ResolveError::ProtocolError);
}

#[test]
fn bad_body_is_malformed_response() {
    let r = endpoint_from_response("http://proxy.ad4m.dev", true, "not json");
    assert_eq!(r.unwrap_err(), ResolveError::MalformedResponse);
}

#[test]
fn error_descriptions_name_each_failure() {
    assert!(ResolveError::NetworkError.describe().contains("network"));
    assert!(ResolveError::ProtocolError.describe().contains("status"));
    assert!(ResolveError::MalformedResponse.describe().contains("body"));
}

#[test]
fn parse_accepts_any_member_order_and_whitespace() {
    let body = " { \"url\" : \"http://x.example\" , \"max_conn_count\" : 9 ,\n\t\"port\" : 443 , \"id\" : \"x1\" } ";
    let p = parse_proxy_response(body).expect("reordered members must parse");
    assert_eq!(p.id, "x1");
    assert_eq!(p.port, 443);
    assert_eq!(p.max_conn_count, 9);
    assert_eq!(p.url, "http://x.example");
}

#[test]
fn parse_ignores_unknown_members() {
    let body = "{\"note\":\"spare\",\"id\":\"a\",\"port\":1,\"max_conn_count\":1,\"ttl\":30,\"url\":\"u\"}";
    let p = parse_proxy_response(body).expect("unknown members are skipped");
    assert_eq!(p.id, "a");
    assert_eq!(p.port, 1);
    assert_eq!(p.max_conn_count, 1);
    assert_eq!(p.url, "u");
}

#[test]
fn parse_accepts_extreme_port() {
    let body = "{\"id\":\"a\",\"port\":65535,\"max_conn_count\":255,\"url\":\"u\"}";
    let p = parse_proxy_response(body).unwrap();
    assert_eq!(p.port, 65535);
    assert_eq!(p.max_conn_count, 255);
}

#[test]
fn parse_rejects_missing_field() {
    let body = "{\"id\":\"abc\",\"port\":7000,\"url\":\"http://abc.proxy.ad4m.dev\"}";
    assert!(parse_proxy_response(body).is_none());
}

#[test]
fn parse_rejects_out_of_range_numbers() {
    let too_big_port = "{\"id\":\"a\",\"port\":70000,\"max_conn_count\":5,\"url\":\"u\"}";
    assert!(parse_proxy_response(too_big_port).is_none());
    let too_big_cap = "{\"id\":\"a\",\"port\":7000,\"max_conn_count\":300,\"url\":\"u\"}";
    assert!(parse_proxy_response(too_big_cap).is_none());
}

#[test]
fn parse_rejects_leading_zero_and_bad_types() {
    let leading_zero = "{\"id\":\"a\",\"port\":07,\"max_conn_count\":5,\"url\":\"u\"}";
    assert!(parse_proxy_response(leading_zero).is_none());
    let string_port = "{\"id\":\"a\",\"port\":\"7000\",\"max_conn_count\":5,\"url\":\"u\"}";
    assert!(parse_proxy_response(string_port).is_none());
}

#[test]
fn parse_rejects_duplicates_garbage_and_empty() {
    let duplicate = "{\"id\":\"a\",\"id\":\"b\",\"port\":1,\"max_conn_count\":1,\"url\":\"u\"}";
    assert!(parse_proxy_response(duplicate).is_none());
    let trailing = "{\"id\":\"a\",\"port\":1,\"max_conn_count\":1,\"url\":\"u\"} x";
    assert!(parse_proxy_response(trailing).is_none());
    assert!(parse_proxy_response("{}").is_none());
    assert!(parse_proxy_response("").is_none());
    assert!(parse_proxy_response("[1,2]").is_none());
    let escape = "{\"id\":\"a\\n\",\"port\":1,\"max_conn_count\":1,\"url\":\"u\"}";
    assert!(parse_proxy_response(escape).is_none());
}

#[test]
fn uri_uses_wildcard_when_no_subdomain_given() {
    assert_eq!(
        assignment_uri("http://proxy.ad4m.dev", None),
        "http://proxy.ad4m.dev/?new"
    );
    assert_eq!(
        assignment_uri("http://proxy.ad4m.dev", Some("mine")),
        "http://proxy.ad4m.dev/mine"
    );
    assert_eq!(WILDCARD_SUBDOMAIN, "?new");
}

#[test]
fn server_defaults_apply() {
    assert_eq!(effective_server(None), AD4M_PROXY_SERVER);
    assert_eq!(effective_server(Some("http://other.example")), "http://other.example");
    assert_eq!(LOCAL_HOST, "127.0.0.1");
}

#[test]
fn relay_host_strips_the_scheme() {
    assert_eq!(relay_host("http://proxy.ad4m.dev").unwrap(), "proxy.ad4m.dev");
    assert_eq!(relay_host("https://h.example").unwrap(), "h.example");
    assert!(relay_host("proxy.ad4m.dev").is_none());
}

#[test]
fn admission_counter_enforces_the_cap() {
    let mut c = AdmissionCounter::new(2);
    assert!(c.invariant_holds());
    assert!(c.try_acquire());
    assert!(c.try_acquire());
    assert!(!c.try_acquire());
    assert_eq!(c.active(), 2);
    assert_eq!(c.capacity(), 2);
    c.release();
    assert_eq!(c.active(), 1);
    assert!(c.try_acquire());
    assert!(!c.try_acquire());
    assert!(c.invariant_holds());
}

#[test]
fn admission_counter_with_zero_cap_admits_nothing() {
    let mut c = AdmissionCounter::new(0);
    assert!(!c.try_acquire());
    assert_eq!(c.active(), 0);
}

#[test]
fn pool_tick_fills_free_slots_only() {
    let mut c = AdmissionCounter::new(2);
    let first = pool_tick(&mut c);
    assert!(first.is_some());
    let second = pool_tick(&mut c);
    assert!(second.is_some());
    assert!(pool_tick(&mut c).is_none());
    assert_eq!(c.active(), 2);

    // one connection fails to reach the relay: its slot is freed, and the
    // next tick may start a replacement
    let mut conn = first.unwrap();
    let released = conn.step(ConnectionEvent::RelayConnect { ok: false }, &mut c);
    assert!(released);
    assert_eq!(c.active(), 1);
    assert!(pool_tick(&mut c).is_some());
    assert_eq!(c.active(), 2);
}

#[test]
fn connection_releases_once_on_graceful_close() {
    let mut c = AdmissionCounter::new(1);
    assert!(c.try_acquire());
    let mut conn = TunnelConnection::new();
    assert!(conn.can_step(ConnectionEvent::RelayConnect { ok: true }));
    assert!(!conn.step(ConnectionEvent::RelayConnect { ok: true }, &mut c));
    assert!(!conn.step(ConnectionEvent::LocalConnect { ok: true }, &mut c));
    assert_eq!(c.active(), 1);
    assert!(conn.step(ConnectionEvent::BridgeEnd { ok: true }, &mut c));
    assert!(conn.is_closed());
    assert_eq!(conn.close_error(), None);
    assert_eq!(c.active(), 0);
    // closed is terminal: no further event is legal
    assert!(!conn.can_step(ConnectionEvent::RelayConnect { ok: true }));
    assert!(!conn.can_step(ConnectionEvent::LocalConnect { ok: true }));
    assert!(!conn.can_step(ConnectionEvent::BridgeEnd { ok: true }));
}

#[test]
fn connection_releases_once_on_each_failure_path() {
    let mut c = AdmissionCounter::new(3);
    assert!(c.try_acquire());
    let mut relay_fail = TunnelConnection::new();
    assert!(relay_fail.step(ConnectionEvent::RelayConnect { ok: false }, &mut c));
    assert_eq!(relay_fail.close_error(), Some(ConnectionError::RelayConnectFailed));
    assert_eq!(c.active(), 0);

    assert!(c.try_acquire());
    let mut local_fail = TunnelConnection::new();
    assert!(!local_fail.step(ConnectionEvent::RelayConnect { ok: true }, &mut c));
    assert!(local_fail.step(ConnectionEvent::LocalConnect { ok: false }, &mut c));
    assert_eq!(local_fail.close_error(), Some(ConnectionError::LocalConnectFailed));
    assert_eq!(c.active(), 0);

    assert!(c.try_acquire());
    let mut bridge_fail = TunnelConnection::new();
    assert!(!bridge_fail.step(ConnectionEvent::RelayConnect { ok: true }, &mut c));
    assert!(!bridge_fail.step(ConnectionEvent::LocalConnect { ok: true }, &mut c));
    assert!(bridge_fail.step(ConnectionEvent::BridgeEnd { ok: false }, &mut c));
    assert_eq!(bridge_fail.close_error(), Some(ConnectionError::BridgeIo));
    assert_eq!(c.active(), 0);
}

#[test]
fn bridge_carries_bytes_unchanged() {
    let mut dir = StreamCopy::new();
    assert!(!dir.has_finished());
    let out = dir.forward(vec![1u8, 2, 3, 255]);
    assert_eq!(out, vec![1u8, 2, 3, 255]);
    let out2 = dir.forward(vec![]);
    assert_eq!(out2, Vec::<u8>::new());
    let out3 = dir.forward(b"GET / HTTP/1.1\r\n".to_vec());
    assert_eq!(out3, b"GET / HTTP/1.1\r\n".to_vec());
    dir.finish();
    assert!(dir.has_finished());
}

#[test]
fn bridge_completes_when_either_direction_finishes() {
    assert!(!bridge_complete(false, false));
    assert!(bridge_complete(true, false));
    assert!(bridge_complete(false, true));
    assert!(bridge_complete(true, true));
}
