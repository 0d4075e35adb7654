use varlink_httpd::client::{
    check_listen_fds, choose_bridge_url, connect_ws, endpoint_of_parts,
    forward_ws_until_would_block, graceful_close, on_poll, on_service_read, on_service_served,
    on_wakeup, on_ws_served, parse_i32, tcp_context, websocket_url, ws_context, ForwardAction,
    Ready, RelayStep, UriParts, WsRead,
};

#[test]
fn bridge_urls_become_websocket_urls() {
    assert_eq!(websocket_url("https://h/p"), "wss://h/p");
    assert_eq!(websocket_url("http://h/p"), "ws://h/p");
    assert_eq!(websocket_url("wss://h/p"), "wss://h/p");
    assert_eq!(websocket_url("ftp://h"), "ftp://h");
    assert_eq!(websocket_url("HTTPS://h"), "HTTPS://h");
}

#[test]
fn endpoints_are_found() {
    let e = connect_ws("https://localhost:1031/ws/sockets/io.systemd.Hostname?x=y").unwrap();
    assert!(e.use_tls);
    assert_eq!(e.host, "localhost");
    assert_eq!(e.port, 1031);
    assert_eq!(e.request_path, "/ws/sockets/io.systemd.Hostname?x=y");
    let e = connect_ws("https://h").unwrap();
    assert_eq!((e.use_tls, e.port, e.request_path.as_str()), (true, 443, "/"));
    let e = connect_ws("http://h/").unwrap();
    assert_eq!((e.use_tls, e.port), (false, 80));
    assert_eq!(tcp_context(&e), "TCP connect to h:80 failed");
    assert_eq!(connect_ws("/path/only").unwrap_err(), "URL has no host");
    let error = connect_ws("http://a b").unwrap_err();
    assert!(error.starts_with("invalid WebSocket URL: "), "{error}");
}

#[test]
fn endpoints_follow_the_parts() {
    let parts = |scheme: &str, port: Option<u16>, query: Option<&str>| {
        Ok(UriParts {
            scheme: Some(scheme.to_string()),
            host: Some("h".to_string()),
            port,
            path_and_query: query.map(String::from),
            path: "/p".to_string(),
        })
    };
    let e = endpoint_of_parts(parts("wss", None, None)).unwrap();
    assert_eq!((e.use_tls, e.port, e.request_path.as_str()), (true, 443, "/p"));
    let e = endpoint_of_parts(parts("ws", Some(9), Some("/p?q"))).unwrap();
    assert_eq!((e.use_tls, e.port, e.request_path.as_str()), (false, 9, "/p?q"));
    assert_eq!(
        endpoint_of_parts(Err("bad".to_string())).unwrap_err(),
        "invalid WebSocket URL: bad"
    );
    assert_eq!(ws_context(false), "WebSocket handshake failed");
    assert_eq!(
        ws_context(true),
        "WebSocket handshake failed: check client cert if server requires mTLS"
    );
}

#[test]
fn numbers_are_read_as_std_reads_them() {
    for text in [
        "", "+", "-", "0", "1", "-1", "+1", "007", "2147483647", "2147483648", "-2147483648",
        "-2147483649", "99999999999999999999", "1x", "x1", " 1", "1 ", "--1", "+-1", "\u{661}",
        "-0", "99999999999x",
    ] {
        assert_eq!(parse_i32(text), text.parse::<i32>().ok(), "{text:?}");
    }
}

#[test]
fn exactly_one_descriptor_is_expected() {
    assert_eq!(check_listen_fds(Some("1")), Ok(()));
    assert_eq!(
        check_listen_fds(None),
        Err("LISTEN_FDS is not set".to_string())
    );
    assert_eq!(
        check_listen_fds(Some("one")),
        Err("LISTEN_FDS is not a valid integer".to_string())
    );
    assert_eq!(
        check_listen_fds(Some("-02")),
        Err("LISTEN_FDS must be 1, got -2".to_string())
    );
}

#[test]
fn the_bridge_url_is_given_once() {
    let url = || Some("http://h".to_string());
    assert_eq!(choose_bridge_url(url(), None).unwrap(), "http://h");
    assert_eq!(choose_bridge_url(None, url()).unwrap(), "http://h");
    assert_eq!(
        choose_bridge_url(url(), url()).unwrap_err(),
        "cannot set both VARLINK_BRIDGE_URL and argv[1]"
    );
    assert_eq!(
        choose_bridge_url(None, None).unwrap_err(),
        "bridge URL required via VARLINK_BRIDGE_URL or argv[1]"
    );
}

#[test]
fn frames_are_forwarded() {
    assert!(matches!(
        forward_ws_until_would_block(WsRead::Binary(vec![1, 0])),
        Ok(ForwardAction::Write(data)) if data == vec![1, 0]
    ));
    assert_eq!(
        forward_ws_until_would_block(WsRead::Text).unwrap_err(),
        "unexpected text WebSocket frame"
    );
    assert!(matches!(
        forward_ws_until_would_block(WsRead::Close),
        Ok(ForwardAction::Done(true))
    ));
    assert!(matches!(
        forward_ws_until_would_block(WsRead::WouldBlock),
        Ok(ForwardAction::Done(false))
    ));
    assert!(matches!(
        forward_ws_until_would_block(WsRead::Other),
        Ok(ForwardAction::Continue)
    ));
    assert_eq!(
        forward_ws_until_would_block(WsRead::Failed("reset".to_string())).unwrap_err(),
        "ws read: reset"
    );
}

#[test]
fn closing_waits_for_the_peer() {
    assert_eq!(graceful_close(WsRead::Close), Ok(true));
    assert_eq!(graceful_close(WsRead::Binary(vec![1])), Ok(false));
    assert_eq!(graceful_close(WsRead::Text), Ok(false));
    assert_eq!(graceful_close(WsRead::Other), Ok(false));
    assert_eq!(
        graceful_close(WsRead::Failed("timeout".to_string())),
        Err("waiting for close response: timeout".to_string())
    );
    assert_eq!(
        graceful_close(WsRead::WouldBlock),
        Err("waiting for close response".to_string())
    );
}

#[test]
fn the_relay_takes_turns() {
    let ready = |service_in, service_hup, ws_in| Ready {
        service_in,
        service_hup,
        ws_in,
    };
    assert_eq!(on_wakeup(true), RelayStep::Stop);
    assert_eq!(on_wakeup(false), RelayStep::Poll);
    let all = ready(true, true, true);
    assert_eq!(on_poll(all), RelayStep::ReadService(all));
    assert_eq!(on_service_read(all, 0), RelayStep::Stop);
    assert_eq!(on_service_read(all, 5), RelayStep::SendWs(all));
    assert_eq!(on_service_served(all), RelayStep::ForwardWs(all));
    assert_eq!(on_ws_served(all, false), RelayStep::Stop);
    let quiet = ready(false, false, false);
    assert_eq!(on_poll(quiet), RelayStep::Poll);
    let ws = ready(false, false, true);
    assert_eq!(on_poll(ws), RelayStep::ForwardWs(ws));
    assert_eq!(on_ws_served(ws, true), RelayStep::Stop);
    assert_eq!(on_ws_served(ws, false), RelayStep::Poll);
    let hup = ready(false, true, false);
    assert_eq!(on_poll(hup), RelayStep::Stop);
    assert_eq!(on_service_served(hup), RelayStep::Stop);
}

#[test]
fn reads_are_forwarded_until_one_ends_it() {
    let reads = vec![
        WsRead::Binary(vec![1]),
        WsRead::Other,
        WsRead::Binary(vec![]),
        WsRead::Binary(vec![2, 3]),
        WsRead::Close,
        WsRead::Binary(vec![4]),
    ];
    let mut written = Vec::new();
    let mut closed = None;
    for read in reads {
        match forward_ws_until_would_block(read).unwrap() {
            ForwardAction::Write(data) => written.push(data),
            ForwardAction::Continue => {}
            ForwardAction::Done(done) => {
                closed = Some(done);
                break;
            }
        }
    }
    assert_eq!(written, vec![vec![1], vec![], vec![2, 3]]);
    assert_eq!(closed, Some(true));
}
