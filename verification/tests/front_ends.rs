use kc868_a6::display::{glyph, DisplayAction, DisplayEvent, DisplayTask};
use kc868_a6::format::{decimal, write_pieces};
use kc868_a6::ha_discovery::publish_all;
use kc868_a6::http::{headers_end, trim};
use kc868_a6::mqtt::{
    broker_port, client_id, handle_inbound, handle_relay_set, relay_state_message, resolve,
    will_message, Inbound, Session,
};
use kc868_a6::publisher::{compose, Outgoing, Publisher, PublisherAction, PublisherEvent};
use kc868_a6::relays::RelayCommand;
use kc868_a6::safety::lock;
use kc868_a6::shared::Shared;
use kc868_a6::subscriber::{subscription, Subscriber, SubscriberAction, SubscriberEvent};
use kc868_a6::webserver::{
    dispatch, handle_relay, html_head, ok_response, ota_response, status_response, Route,
    ServerAction, ServerEvent, ServerTask,
};
use kc868_a6::wifi::{
    check_credentials, stack_seed, wait_for_link, Connection, ConnectionAction, ConnectionEvent,
    Credentials,
};

#[test]
fn head_ends_after_the_empty_line() {
    assert_eq!(headers_end(b"GET / HTTP/1.1\r\n\r\nbody\r\n\r\n"), Some(18));
    assert_eq!(headers_end(b"GET / HTTP/1.1\r\n"), None);
    assert_eq!(headers_end(b"\r\n\r\n"), Some(4));
    assert_eq!(headers_end(b""), None);
}

#[test]
fn white_space_is_trimmed() {
    assert_eq!(trim(b" \t\xC2\xA0 x y\xE2\x80\x89\r"), b"x y");
    assert_eq!(trim("\u{3000}\u{85}".as_bytes()), b"");
    assert_eq!(trim("\u{e9} ".as_bytes()), "\u{e9}".as_bytes());
}

#[test]
fn pages_are_routed() {
    assert_eq!(dispatch(b"GET / HTTP/1.1\r\nHost: x\r\n\r\n"), Route::Dashboard);
    assert_eq!(dispatch(b"GET /api/status HTTP/1.1\r\n\r\n"), Route::Status);
    assert_eq!(dispatch(b"GET /nothing HTTP/1.1\r\n\r\n"), Route::Silent);
    assert_eq!(dispatch(b"PUT / HTTP/1.1\r\n\r\n"), Route::Silent);
    assert_eq!(dispatch(b"GET / HTTP/1.1\r\n"), Route::Silent);
    assert_eq!(dispatch(b"GET\r\n\r\n"), Route::Silent);
    assert_eq!(dispatch(b"\r\n\r\n"), Route::Silent);
}

#[test]
fn head_must_be_text_and_body_need_not() {
    assert_eq!(dispatch(b"GET / HTTP/1.1\r\nX: \xFF\r\n\r\n"), Route::Silent);
    assert_eq!(dispatch(b"GET / HTTP/1.1\r\nX: \xC3\xA9\r\n\r\n\xFF"), Route::Dashboard);
}

#[test]
fn upload_headers_are_read() {
    let request =
        b"POST /api/ota HTTP/1.1\r\nCONTENT-length :  1234 \r\nX-Ota-Crc32: 4294967295\r\n\r\nBIN";
    assert_eq!(
        dispatch(request),
        Route::Ota { size: 1234, crc: 0xFFFF_FFFF, body_at: request.len() - 3 }
    );
    assert_eq!(
        dispatch(b"POST /api/ota HTTP/1.1\r\nContent-Length: 12\r\nContent-Length: x\r\n\r\n"),
        Route::Ota { size: 0, crc: 0, body_at: 65 }
    );
    assert_eq!(
        dispatch(b"POST /api/ota HTTP/1.1\nContent-Length: 4294967296\r\n\r\n"),
        Route::Ota { size: 0, crc: 0, body_at: 53 }
    );
}

#[test]
fn relay_requests_are_read() {
    let on = Some(RelayCommand::SetRelay { index: 3, on: true });
    let off = Some(RelayCommand::SetRelay { index: 3, on: false });
    assert_eq!(
        dispatch(b"POST /api/relay/3 HTTP/1.1\r\n\r\n{\"state\":1}"),
        Route::Relay { command: on }
    );
    assert_eq!(
        dispatch(b"POST /api/relay/3/set HTTP/1.1\r\n\r\n{\"state\":0}"),
        Route::Relay { command: off }
    );
    assert_eq!(handle_relay(b"/api/relay/3/set", b"{\"state\": 1}"), Route::Relay { command: None });
    assert_eq!(handle_relay(b"/api/relay/3", b"\"state\":1\xFF"), Route::Relay { command: None });
    assert_eq!(handle_relay(b"/api/relay/x/set", b"{\"state\":1}"), Route::Silent);
    assert_eq!(handle_relay(b"/api/relay/256", b"{\"state\":1}"), Route::Silent);
    assert_eq!(handle_relay(b"/api/relay//api/relay/3", b"\"state\":0"), Route::Relay { command: off });
}

#[test]
fn responses_tell_their_length() {
    assert_eq!(
        html_head(9_876),
        "HTTP/1.1 200 OK\r\nContent-Type: text/html; charset=utf-8\r\nContent-Length: 9876\r\nConnection: close\r\n\r\n"
    );
    let mut shared = Shared::new();
    shared.on_mask = 0x2A;
    lock(&mut shared, "test");
    let response = status_response(&shared);
    assert_eq!(response.body, "{\"mask\":42,\"locked\":true}");
    assert_eq!(
        response.head,
        "HTTP/1.1 200 OK\r\nContent-Type: application/json\r\nContent-Length: 25\r\nConnection: close\r\n\r\n"
    );
    let response = ok_response();
    assert_eq!(response.body, "{}");
    assert!(response.head.ends_with("Content-Length: 2\r\nConnection: close\r\n\r\n"));
}

#[test]
fn upload_responses() {
    let response = ota_response(true, "fine");
    assert_eq!(response.body, "{\"ok\":true,\"msg\":\"fine\"}");
    assert_eq!(
        response.head,
        "HTTP/1.1 200 OK\r\nContent-Type: application/json\r\nContent-Length: 24\r\nConnection: close\r\n\r\n"
    );
    let response = ota_response(false, "short upload");
    assert_eq!(response.body, "{\"ok\":false,\"msg\":\"short upload\"}");
    assert!(response.head.starts_with("HTTP/1.1 400 Bad Request\r\n"));
    let long = "x".repeat(200);
    let response = ota_response(false, &long);
    assert_eq!(response.body, "{\"ok\":false,\"msg\":\"");
    assert!(response.head.contains("Content-Length: 19\r\n"));
}

#[test]
fn buffers_take_whole_pieces_only() {
    let out = write_pieces::<5>(&["ab", "cd", "ef"]);
    assert_eq!(out.text, "abcd");
    assert!(!out.complete);
    let out = write_pieces::<6>(&["ab", "cd", "ef"]);
    assert_eq!(out.text, "abcdef");
    assert!(out.complete);
    let out = write_pieces::<3>(&["\u{e9}", "\u{e9}"]);
    assert_eq!(out.text, "\u{e9}");
    assert!(!out.complete);
}

#[test]
fn decimals() {
    assert_eq!(decimal(0), "0");
    assert_eq!(decimal(10), "10");
    assert_eq!(decimal(4_294_967_295), "4294967295");
}

#[test]
fn server_serves_one_connection_after_the_other() {
    let mut task = ServerTask::new();
    task.advance(ServerEvent::Accepted { ok: false });
    assert_eq!(task.action(), ServerAction::Wait { ms: 200 });
    task.advance(ServerEvent::Waited);
    task.advance(ServerEvent::Accepted { ok: true });
    assert_eq!(task.action(), ServerAction::Read);
    task.advance(ServerEvent::Received { bytes: 0 });
    assert_eq!(task.action(), ServerAction::Close);
    task.advance(ServerEvent::Closed);
    assert_eq!(task.action(), ServerAction::Wait { ms: 50 });
    task.advance(ServerEvent::Waited);
    assert_eq!(task.action(), ServerAction::Accept);
    task.advance(ServerEvent::Accepted { ok: true });
    task.advance(ServerEvent::Received { bytes: 10 });
    assert_eq!(task.action(), ServerAction::Serve);
    task.advance(ServerEvent::Served { reboot: true });
    task.advance(ServerEvent::Closed);
    assert_eq!(task.action(), ServerAction::Wait { ms: 1_200 });
    task.advance(ServerEvent::Waited);
    assert_eq!(task.action(), ServerAction::Reboot);
}

#[test]
fn inbound_relay_commands() {
    let mut shared = Shared::new();
    for word in [b"1" as &[u8], b"on", b"ON", b"true", b"TRUE"] {
        assert_eq!(
            handle_inbound("kc868/relay/4/set", word, &mut shared),
            Inbound::Relay(RelayCommand::SetRelay { index: 4, on: true })
        );
    }
    for word in [b"0" as &[u8], b"off", b"OFF", b"false", b"FALSE"] {
        assert_eq!(
            handle_inbound("kc868/relay/4/set", word, &mut shared),
            Inbound::Relay(RelayCommand::SetRelay { index: 4, on: false })
        );
    }
    assert_eq!(handle_relay_set(b"4/set", b"On"), Inbound::BadPayload { index: 4 });
    assert_eq!(handle_relay_set(b"6/set", b"1"), Inbound::OutOfRange { index: 6 });
    assert_eq!(handle_relay_set(b"a/set", b"1"), Inbound::NotNumeric);
    assert_eq!(handle_relay_set(b"4/state", b"1"), Inbound::Malformed);
    assert_eq!(handle_relay_set(b"4/set/x", b"1"), Inbound::Malformed);
    assert_eq!(handle_inbound("kc868/status", b"1", &mut shared), Inbound::Unknown);
}

#[test]
fn inbound_reset_is_carried_out() {
    let mut shared = Shared::new();
    lock(&mut shared, "test");
    assert_eq!(
        handle_inbound("kc868/safety/reset", b"", &mut shared),
        Inbound::SafetyReset { granted: false }
    );
    shared.input_mask = 0x3F;
    assert_eq!(
        handle_inbound("kc868/safety/reset", b"", &mut shared),
        Inbound::SafetyReset { granted: true }
    );
    assert!(!shared.locked);
    assert_eq!(
        handle_inbound("kc868/safety/reset", b"", &mut shared),
        Inbound::SafetyReset { granted: false }
    );
}

#[test]
fn broker_address_and_port() {
    assert_eq!(broker_port("1884"), 1884);
    assert_eq!(broker_port("65536"), 1883);
    assert_eq!(broker_port(""), 1883);
    assert_eq!(resolve(Some(1u8), &[2, 3]), Some(1));
    assert_eq!(resolve(None, &[2u8, 3]), Some(2));
    assert_eq!(resolve::<u8>(None, &[]), None);
}

#[test]
fn client_ids_differ() {
    assert_eq!(client_id("board", Session::Publisher), "board-pub");
    assert_eq!(client_id("board", Session::Subscriber), "board-sub");
    let long = "x".repeat(200);
    assert_ne!(client_id(&long, Session::Publisher), client_id(&long, Session::Subscriber));
    assert_eq!(client_id(&long, Session::Publisher).len(), 204);
}

#[test]
fn state_messages() {
    let message = relay_state_message(0x04, 2);
    assert_eq!(message.topic, "kc868/relay/2/state");
    assert_eq!(message.payload, "ON");
    assert!(message.retained && !message.confirmed);
    assert_eq!(relay_state_message(0x04, 1).payload, "OFF");
    let will = will_message();
    assert_eq!((will.topic.as_str(), will.payload.as_str()), ("kc868/status", "offline"));
    let safety = compose(Outgoing::SafetyState { locked: true }, "");
    assert_eq!((safety.topic.as_str(), safety.payload.as_str()), ("kc868/safety/state", "locked"));
    assert_eq!(compose(Outgoing::SafetyState { locked: false }, "").payload, "ok");
    let sample = compose(Outgoing::Temperature, "21.50");
    assert_eq!((sample.topic.as_str(), sample.payload.as_str()), ("kc868/temperature", "21.50"));
    assert!(!sample.retained);
    let online = compose(Outgoing::Online { greeting: true }, "");
    assert_eq!(online.payload, "online");
    assert!(online.confirmed && online.retained);
}

#[test]
fn discovery_configs() {
    let switch = publish_all(0);
    assert_eq!(switch.topic, "homeassistant/switch/kc868_a6/relay_0/config");
    assert_eq!(
        switch.payload,
        "{\"name\":\"Relay 1\",\"unique_id\":\"kc868_a6_relay_0\",\"command_topic\":\"kc868/relay/0/set\",\"state_topic\":\"kc868/relay/0/state\",\"payload_on\":\"ON\",\"payload_off\":\"OFF\",\"state_on\":\"ON\",\"state_off\":\"OFF\",\"availability_topic\":\"kc868/status\",\"payload_available\":\"online\",\"payload_not_available\":\"offline\",\"device\":{\"identifiers\":[\"kc868_a6\"],\"manufacturer\":\"KinCony\",\"model\":\"KC868-A6\",\"name\":\"KC868-A6 Controller\",\"sw_version\":\"0.1.0\"}}"
    );
    let safety = publish_all(6);
    assert_eq!(safety.topic, "homeassistant/binary_sensor/kc868_a6/safety/config");
    assert_eq!(
        safety.payload,
        "{\"name\":\"Safety Interlock\",\"unique_id\":\"kc868_a6_safety\",\"state_topic\":\"kc868/safety/state\",\"payload_on\":\"locked\",\"payload_off\":\"ok\",\"device_class\":\"safety\",\"availability_topic\":\"kc868/status\",\"payload_available\":\"online\",\"payload_not_available\":\"offline\",\"device\":{\"identifiers\":[\"kc868_a6\"],\"manufacturer\":\"KinCony\",\"model\":\"KC868-A6\",\"name\":\"KC868-A6 Controller\",\"sw_version\":\"0.1.0\"}}"
    );
    let temperature = publish_all(7);
    assert_eq!(temperature.topic, "homeassistant/sensor/kc868_a6/temperature/config");
    assert!(temperature.payload.contains("\"unit_of_measurement\":\"\u{b0}C\",\"device_class\":\"temperature\""));
    assert!(temperature.payload.starts_with("{\"name\":\"Temperature\",\"unique_id\":\"kc868_a6_temp\",\"state_topic\":\"kc868/temperature\","));
    for n in 0..8 {
        let config = publish_all(n);
        assert!(config.retained && !config.confirmed);
        assert!(config.payload.contains("\"kc868/status\""));
        assert!(config.topic.len() <= 96 && config.payload.len() <= 768);
    }
}

#[test]
fn publisher_session_from_start_to_loss() {
    let mut shared = Shared::new();
    shared.on_mask = 0x05;
    let mut task = Publisher::new();
    assert_eq!(task.action(&shared), PublisherAction::Resolve);
    task.advance(PublisherEvent::Resolved { ok: true }, &mut shared, 0);
    task.advance(PublisherEvent::Connected { ok: true }, &mut shared, 0);
    task.advance(PublisherEvent::Opened { ok: true }, &mut shared, 0);
    let mut sent = Vec::new();
    while let PublisherAction::Send(outgoing) = task.action(&shared) {
        sent.push(outgoing);
        task.advance(PublisherEvent::Sent { ok: true }, &mut shared, 7);
    }
    let mut expected = vec![Outgoing::Online { greeting: true }];
    expected.extend((0..8).map(|config| Outgoing::Config { config }));
    expected.extend((0..6).map(|index| Outgoing::RelayState { index, mask: 0x05 }));
    expected.push(Outgoing::SafetyState { locked: false });
    assert_eq!(sent, expected);
    assert_eq!(shared.mqtt_last_ok_ms, Some(7));
    assert_eq!(task.action(&shared), PublisherAction::WaitForNews { ms: 5_000 });
    task.advance(PublisherEvent::HeartbeatDue, &mut shared, 0);
    assert_eq!(task.action(&shared), PublisherAction::Send(Outgoing::Online { greeting: false }));
    task.advance(PublisherEvent::Sent { ok: true }, &mut shared, 9);
    assert_eq!(shared.mqtt_last_ok_ms, Some(9));
    task.advance(PublisherEvent::Sampled, &mut shared, 0);
    assert_eq!(task.action(&shared), PublisherAction::Send(Outgoing::Temperature));
    task.advance(PublisherEvent::Sent { ok: false }, &mut shared, 11);
    assert_eq!(task.action(&shared), PublisherAction::Wait { ms: 2_000 });
    assert_eq!(shared.mqtt_last_ok_ms, Some(9));
    task.advance(PublisherEvent::Waited, &mut shared, 0);
    assert_eq!(task, Publisher::Resolve);
}

#[test]
fn publisher_change_of_state() {
    let mut shared = Shared::new();
    let mut task = Publisher::Idle;
    task.advance(PublisherEvent::StateChanged, &mut shared, 0);
    for index in 0..6 {
        assert_eq!(
            task.action(&shared),
            PublisherAction::Send(Outgoing::RelayState { index, mask: 0 })
        );
        task.advance(PublisherEvent::Sent { ok: true }, &mut shared, 1);
    }
    task.advance(PublisherEvent::Sent { ok: true }, &mut shared, 2);
    assert_eq!(shared.mqtt_last_ok_ms, Some(2));
    assert_eq!(task, Publisher::Idle);
    task.advance(PublisherEvent::Sent { ok: true }, &mut shared, 4);
    assert_eq!(shared.mqtt_last_ok_ms, Some(2));
    let mut discovery = Publisher::Discover { config: 2 };
    discovery.advance(PublisherEvent::Sent { ok: false }, &mut shared, 5);
    assert_eq!(shared.mqtt_last_ok_ms, Some(2));
    discovery.advance(PublisherEvent::Sent { ok: true }, &mut shared, 6);
    assert_eq!(shared.mqtt_last_ok_ms, Some(6));
    let mut first = Publisher::Relays { index: 3, mask: 0, first: true };
    first.advance(PublisherEvent::Sent { ok: false }, &mut shared, 3);
    assert_eq!(first, Publisher::Idle);
    let mut later = Publisher::Relays { index: 3, mask: 0, first: false };
    later.advance(PublisherEvent::Sent { ok: false }, &mut shared, 3);
    assert_eq!(later, Publisher::Backoff);
}

#[test]
fn subscriber_session() {
    let mut task = Subscriber::new();
    task.advance(SubscriberEvent::Resolved { ok: true });
    task.advance(SubscriberEvent::Connected { ok: true });
    task.advance(SubscriberEvent::Opened { ok: true });
    assert_eq!(task.action(), SubscriberAction::Subscribe { topic: 0 });
    assert_eq!(subscription(0), "kc868/relay/+/set");
    task.advance(SubscriberEvent::Subscribed { ok: true });
    assert_eq!(subscription(1), "kc868/safety/reset");
    task.advance(SubscriberEvent::Subscribed { ok: true });
    assert_eq!(task.action(), SubscriberAction::Receive);
    task.advance(SubscriberEvent::Received { ok: true });
    assert_eq!(task.action(), SubscriberAction::Receive);
    task.advance(SubscriberEvent::Received { ok: false });
    assert_eq!(task.action(), SubscriberAction::Wait { ms: 2_000 });
    task.advance(SubscriberEvent::Waited);
    assert_eq!(task.action(), SubscriberAction::Resolve);
}

#[test]
fn display_page() {
    let mut shared = Shared::new();
    shared.on_mask = 0x29;
    let mut task = DisplayTask::new();
    let page = task.page(None, None, &shared);
    assert_eq!(page.banner, "KC868-A6");
    assert_eq!(page.address, "IP: (no link)");
    assert_eq!(page.relays, "R:#..#.#");
    assert_eq!(page.temperature, "T: --.- C");
    assert_eq!(page.safety, "OK");
    lock(&mut shared, "test");
    let page = task.page(Some("21.5".to_string()), Some([192, 168, 1, 20]), &shared);
    assert_eq!(page.address, "IP: 192.168.1.20");
    assert_eq!(page.temperature, "T: 21.5 C");
    assert_eq!(page.safety, "[!] SAFETY LOCK");
    let page = task.page(None, None, &shared);
    assert_eq!(page.temperature, "T: 21.5 C");
    assert_eq!(glyph(0x20, 5), '#');
    assert_eq!(glyph(0x20, 4), '.');
}

#[test]
fn display_heals() {
    let mut task = DisplayTask::new();
    assert_eq!(task.action(), DisplayAction::Init);
    task.advance(DisplayEvent::Initialised { ok: false });
    assert_eq!(task.action(), DisplayAction::Wait { ms: 5_000 });
    task.advance(DisplayEvent::Waited);
    task.advance(DisplayEvent::Initialised { ok: true });
    assert_eq!(task.action(), DisplayAction::Draw);
    task.advance(DisplayEvent::Flushed { ok: true });
    assert_eq!(task.action(), DisplayAction::Wait { ms: 500 });
    task.advance(DisplayEvent::Waited);
    task.advance(DisplayEvent::Flushed { ok: false });
    assert_eq!(task.action(), DisplayAction::Init);
}

#[test]
fn station_connects_and_reconnects() {
    let mut task = Connection::new();
    task.advance(ConnectionEvent::Answer { yes: false });
    assert_eq!(task.action(), ConnectionAction::AskStarted);
    task.advance(ConnectionEvent::Answer { yes: false });
    assert_eq!(task.action(), ConnectionAction::Configure);
    task.advance(ConnectionEvent::Configured { ok: true });
    task.advance(ConnectionEvent::RadioStarted { ok: false });
    assert_eq!(task.action(), ConnectionAction::Wait { ms: 2_000 });
    task.advance(ConnectionEvent::Waited);
    task.advance(ConnectionEvent::Answer { yes: false });
    task.advance(ConnectionEvent::Answer { yes: true });
    assert_eq!(task.action(), ConnectionAction::Connect);
    task.advance(ConnectionEvent::Connected { ok: true });
    task.advance(ConnectionEvent::Answer { yes: true });
    assert_eq!(task.action(), ConnectionAction::AwaitDrop);
    task.advance(ConnectionEvent::Dropped);
    assert_eq!(task.action(), ConnectionAction::Wait { ms: 2_000 });
    task.advance(ConnectionEvent::Waited);
    assert_eq!(task.action(), ConnectionAction::AskStarted);
}

#[test]
fn credentials_are_bounded_in_bytes() {
    let ssid32 = "s".repeat(32);
    let ssid33 = "s".repeat(33);
    let pass64 = "p".repeat(64);
    let pass65 = "p".repeat(65);
    assert_eq!(check_credentials(&ssid32, &pass64), Credentials::Fit);
    assert_eq!(check_credentials(&ssid33, &pass64), Credentials::SsidTooLong);
    assert_eq!(check_credentials(&ssid32, &pass65), Credentials::PasswordTooLong);
    assert_eq!(check_credentials(&"\u{e9}".repeat(17), ""), Credentials::SsidTooLong);
    let mut task = Connection::Configure;
    task.advance(ConnectionEvent::Rejected);
    assert_eq!(task.action(), ConnectionAction::Wait { ms: 60_000 });
}

#[test]
fn seed_and_link() {
    assert_eq!(stack_seed(0xDEAD_BEEF, 0x0123_4567), 0xDEAD_BEEF_0123_4567);
    assert_eq!(wait_for_link(false), Some(250));
    assert_eq!(wait_for_link(true), None);
}
