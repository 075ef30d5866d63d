use troll_invasion::relay::{ConnState, InboundAction, Registry};

#[test]
fn fan_out_reaches_exactly_the_registered_recipients() {
    let mut registry = Registry::new();
    registry.register("a", 10);
    registry.register("c", 30);
    let deliveries = registry.fan_out("a,b,c:hello").expect("line has a colon");
    assert_eq!(deliveries, vec![(10, String::from("hello")), (30, String::from("hello"))]);
}

#[test]
fn fan_out_without_colon_is_rejected() {
    let registry = Registry::new();
    assert_eq!(registry.fan_out("no recipients here"), None);
    assert_eq!(registry.fan_out(""), None);
}

#[test]
fn fan_out_payload_keeps_later_colons() {
    let mut registry = Registry::new();
    registry.register("a", 1);
    let deliveries = registry.fan_out("a:x:y z").expect("line has a colon");
    assert_eq!(deliveries, vec![(1, String::from("x:y z"))]);
}

#[test]
fn fan_out_to_nobody_delivers_nothing() {
    let registry = Registry::new();
    assert_eq!(registry.fan_out("a,b:hello"), Some(vec![]));
}

#[test]
fn registry_one_live_handle_per_name() {
    let mut registry = Registry::new();
    registry.register("bob", 1);
    registry.register("bob", 2);
    assert_eq!(registry.lookup("bob"), Some(2));
    let deliveries = registry.fan_out("bob,bob:hi").expect("line has a colon");
    assert_eq!(deliveries, vec![(2, String::from("hi")), (2, String::from("hi"))]);
}

#[test]
fn registry_unregister_removes_only_that_name() {
    let mut registry = Registry::new();
    registry.register("bob", 1);
    registry.register("eve", 2);
    registry.unregister("bob");
    assert_eq!(registry.lookup("bob"), None);
    assert_eq!(registry.lookup("eve"), Some(2));
    registry.unregister("nobody");
    assert_eq!(registry.lookup("eve"), Some(2));
}

#[test]
fn registration_is_recorded_before_any_forwarding() {
    let mut conn = ConnState::new();
    assert_eq!(conn.on_client_line("+bob"), InboundAction::Register(String::from("bob")));
    assert_eq!(
        conn.on_client_line("listGames"),
        InboundAction::Forward(String::from("bob:listGames"))
    );
}

#[test]
fn traffic_before_registration_is_never_forwarded() {
    let mut conn = ConnState::new();
    assert_eq!(conn.on_client_line("listGames"), InboundAction::Ignored);
    assert_eq!(conn.on_client_line("1 2"), InboundAction::Ignored);
    // The connection can still register afterwards.
    assert_eq!(conn.on_client_line("+bob"), InboundAction::Register(String::from("bob")));
}

#[test]
fn second_registration_is_ignored() {
    let mut conn = ConnState::new();
    assert_eq!(conn.on_client_line("+bob"), InboundAction::Register(String::from("bob")));
    assert_eq!(conn.on_client_line("+eve"), InboundAction::Ignored);
    // The first name keeps prefixing.
    assert_eq!(conn.on_client_line("ready"), InboundAction::Forward(String::from("bob:ready")));
}

#[test]
fn empty_registered_name_is_ignored() {
    let mut conn = ConnState::new();
    assert_eq!(conn.on_client_line("+"), InboundAction::Ignored);
    assert_eq!(conn.on_client_line("hello"), InboundAction::Ignored);
}

#[test]
fn forwarded_lines_carry_the_sender_prefix_verbatim() {
    let mut conn = ConnState::new();
    conn.on_client_line("+alice");
    assert_eq!(
        conn.on_client_line("joinGame arena player"),
        InboundAction::Forward(String::from("alice:joinGame arena player"))
    );
    assert_eq!(conn.on_client_line(""), InboundAction::Forward(String::from("alice:")));
}
