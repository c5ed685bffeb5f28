use xpc::codec::Value;
use xpc::connection::EventOutcome;
use xpc::connection::NativeCall;
use xpc::connection::XPCConnection;
use xpc::connection::XPCConnectionDelegate;
use xpc::connection::XpcHost;
use xpc::envelope::Envelope;
use xpc::envelope::build_message_dictionary;
use xpc::error::ConnectionError;
use xpc::options::ConnectionOptions;
use xpc::utils::NSOperatingSystemVersion;
use xpc::utils::OsFamily;

struct NoopDelegate;

impl XPCConnectionDelegate for NoopDelegate {}

fn mac_host(major: usize, minor: usize) -> XpcHost<NoopDelegate> {
    XpcHost::new(NSOperatingSystemVersion::new(major, minor, 0, OsFamily::Mac))
}

fn ping() -> Value {
    Value::Dict(vec![(b"op".to_vec(), Value::Text(b"ping".to_vec()))])
}

fn pong() -> Value {
    Value::Dict(vec![(b"op".to_vec(), Value::Text(b"pong".to_vec()))])
}

#[test]
fn create_with_null_native_handle_fails_cleanly() {
    let mut host = mac_host(10, 15);
    let r = XPCConnection::create("com.example.daemon", None, &mut host);
    match r {
        Err(ConnectionError::CreationFailed(name)) => {
            assert_eq!(name, "com.example.daemon".to_string());
        }
        other => panic!("expected CreationFailed, got {:?}", other.is_ok()),
    }
    assert_eq!(host.slots.len(), 0);
}

#[test]
fn create_mach_service_with_null_native_handle_fails_cleanly() {
    let mut host = mac_host(10, 15);
    let r = XPCConnection::create_mach_service(
        "com.example.svc",
        ConnectionOptions::listener(),
        None,
        &mut host,
    );
    assert!(r.is_err());
    assert_eq!(host.slots.len(), 0);
}

#[test]
fn mach_service_privileged_listener_equals_listener_alone() {
    let mut host_a = mac_host(10, 15);
    let mut host_b = mac_host(10, 15);
    let combined = ConnectionOptions::listener().union(ConnectionOptions::privileged());
    let a = XPCConnection::create_mach_service("svc", combined, Some(7), &mut host_a).unwrap();
    let b = XPCConnection::create_mach_service("svc", ConnectionOptions::listener(), Some(7), &mut host_b)
        .unwrap();
    assert_eq!(host_a.slots[a.id].native_flags, host_b.slots[b.id].native_flags);
}

#[test]
fn activate_prefers_the_newer_primitive() {
    let mut host = mac_host(10, 15);
    let c = XPCConnection::create("svc", Some(1), &mut host).unwrap();
    c.activate(&mut host);
    assert_eq!(host.slots[c.id].calls, vec![NativeCall::Activate]);
}

#[test]
fn activate_falls_back_to_resume_on_old_hosts() {
    let mut host = mac_host(10, 11);
    let c = XPCConnection::create("svc", Some(1), &mut host).unwrap();
    c.activate(&mut host);
    assert_eq!(host.slots[c.id].calls, vec![NativeCall::Resume]);
}

#[test]
fn lifecycle_calls_are_logged_in_order() {
    let mut host = mac_host(10, 15);
    let c = XPCConnection::create("svc", Some(1), &mut host).unwrap();
    c.activate(&mut host);
    c.suspend(&mut host);
    c.resume(&mut host);
    c.cancel(&mut host);
    assert_eq!(
        host.slots[c.id].calls,
        vec![
            NativeCall::Activate,
            NativeCall::Suspend,
            NativeCall::Resume,
            NativeCall::Cancel,
        ]
    );
}

#[test]
fn send_message_logs_the_envelope() {
    let mut host = mac_host(10, 15);
    let c = XPCConnection::create("svc", Some(1), &mut host).unwrap();
    assert!(c.send_message(&ping(), true, &mut host).is_ok());
    match &host.slots[c.id].calls[0] {
        NativeCall::SendMessage(env) => {
            assert_eq!(*env, build_message_dictionary(&ping()));
        }
        other => panic!("expected a send, got {:?}", other),
    }
}

#[test]
fn send_failure_leaves_the_connection_unaffected() {
    let mut host = mac_host(10, 15);
    let c = XPCConnection::create("svc", Some(1), &mut host).unwrap();
    let r = c.send_message(&ping(), false, &mut host);
    assert_eq!(r, Err(ConnectionError::AllocationFailed));
    assert_eq!(host.slots[c.id].calls.len(), 0);
    assert_eq!(host.slots[c.id].strong, 1);
    assert!(c.send_message(&ping(), true, &mut host).is_ok());
}

#[test]
fn send_with_reply_decodes_the_peer_reply() {
    let mut host = mac_host(10, 15);
    let c = XPCConnection::create("svc", Some(1), &mut host).unwrap();
    let reply = build_message_dictionary(&pong());
    let r = c.send_message_with_reply(&ping(), true, reply, &mut host);
    assert_eq!(r.unwrap(), pong());
}

#[test]
fn send_with_reply_surfaces_transport_errors_instead_of_hanging() {
    let mut host = mac_host(10, 15);
    let c = XPCConnection::create("svc", Some(1), &mut host).unwrap();
    // A canceled connection mid-flight: the native runtime ends the wait
    // with an error object that has no payload field.
    let mut error_object = Envelope::new();
    error_object.insert(b"XPCErrorDescription".to_vec(), b"Connection invalid".to_vec());
    let r = c.send_message_with_reply(&ping(), true, error_object, &mut host);
    assert_eq!(r, Err(ConnectionError::DecodingFailed));
}

#[test]
fn delegate_assignment_is_visible_through_every_clone() {
    let mut host = mac_host(10, 15);
    let a = XPCConnection::create("svc", Some(1), &mut host).unwrap();
    let b = a.clone_handle(&mut host);
    assert_eq!(a.id, b.id);
    // Set the delegate through the clone; deliver through the original's
    // registered back-reference.
    b.set_delegate(NoopDelegate, &mut host);
    let w = a.downgrade();
    let event = build_message_dictionary(&pong());
    let outcome = xpc::connection::main_xpc_event_handler(&w, &event, &host);
    assert_eq!(outcome, EventOutcome::Delivered(pong()));
}

#[test]
fn events_without_a_delegate_are_dropped_silently() {
    let mut host = mac_host(10, 15);
    let c = XPCConnection::create("svc", Some(1), &mut host).unwrap();
    let w = c.downgrade();
    let event = build_message_dictionary(&pong());
    let outcome = xpc::connection::main_xpc_event_handler(&w, &event, &host);
    assert_eq!(outcome, EventOutcome::DroppedNoDelegate);
}

#[test]
fn undecodable_events_never_crash_the_bridge() {
    let mut host = mac_host(10, 15);
    let c = XPCConnection::create("svc", Some(1), &mut host).unwrap();
    c.set_delegate(NoopDelegate, &mut host);
    let w = c.downgrade();
    let mut bad = Envelope::new();
    bad.insert(b"R_DATA".to_vec(), b"not a value".to_vec());
    let outcome = xpc::connection::main_xpc_event_handler(&w, &bad, &host);
    assert_eq!(outcome, EventOutcome::DecodeFailed);
}

#[test]
fn late_events_after_the_last_drop_are_discarded() {
    let mut host = mac_host(10, 15);
    let c = XPCConnection::create("svc", Some(1), &mut host).unwrap();
    c.set_delegate(NoopDelegate, &mut host);
    let w = c.downgrade();
    let id = c.id;
    c.drop_handle(&mut host);
    assert_eq!(host.slots[id].strong, 0);
    assert_eq!(host.slots[id].calls, vec![NativeCall::Release]);
    // An in-flight delivery races with teardown: the upgrade fails cleanly
    // and the event is discarded.
    let event = build_message_dictionary(&pong());
    let outcome = xpc::connection::main_xpc_event_handler(&w, &event, &host);
    assert_eq!(outcome, EventOutcome::DiscardedDeadConnection);
    assert_eq!(w.upgrade(&mut host), None);
}

#[test]
fn clones_keep_the_state_alive_until_the_last_drop() {
    let mut host = mac_host(10, 15);
    let a = XPCConnection::create("svc", Some(1), &mut host).unwrap();
    let b = a.clone_handle(&mut host);
    let w = b.downgrade();
    let id = a.id;
    a.drop_handle(&mut host);
    assert_eq!(host.slots[id].strong, 1);
    let upgraded = w.upgrade(&mut host).expect("still alive through the clone");
    assert_eq!(host.slots[id].strong, 2);
    upgraded.drop_handle(&mut host);
    b.drop_handle(&mut host);
    assert_eq!(host.slots[id].strong, 0);
    assert_eq!(w.upgrade(&mut host), None);
}

#[test]
fn ping_pong_scenario() {
    let mut host = mac_host(10, 15);
    let c = XPCConnection::create("com.example.echo", Some(42), &mut host).unwrap();
    c.set_delegate(NoopDelegate, &mut host);
    c.activate(&mut host);
    assert!(c.send_message(&ping(), true, &mut host).is_ok());
    assert_eq!(
        host.slots[c.id].calls,
        vec![
            NativeCall::Activate,
            NativeCall::SendMessage(build_message_dictionary(&ping())),
        ]
    );
    // The peer replies {"op": "pong"}; the native runtime invokes the event
    // bridge with the registered back-reference and the reply payload.
    let w = c.downgrade();
    let reply = build_message_dictionary(&pong());
    let outcome = xpc::connection::main_xpc_event_handler(&w, &reply, &host);
    assert_eq!(outcome, EventOutcome::Delivered(pong()));
}

#[test]
fn inbound_connections_wrap_without_failing() {
    let mut host = mac_host(10, 15);
    let c = XPCConnection::from_native(99, &mut host);
    assert_eq!(host.slots[c.id].native, 99);
    assert_eq!(host.slots[c.id].strong, 1);
    c.activate(&mut host);
    assert_eq!(host.slots[c.id].calls, vec![NativeCall::Activate]);
}
