use varlink_httpd::ws::{frame_of, ReadMode, VarlinkRead, WsAction, WsBridge, WsEvent};

fn written(action: WsAction) -> Vec<u8> {
    match action {
        WsAction::Write(data) => data,
        other => panic!("{other:?}"),
    }
}

#[test]
fn frames_are_written_as_they_are() {
    let mut bridge = WsBridge::new();
    let call = b"{\"method\":\"io.systemd.Hostname.Describe\",\"parameters\":{}}\0".to_vec();
    assert_eq!(
        written(bridge.handle_ws(WsEvent::Binary(call.clone()))),
        call
    );
    assert_eq!(
        written(bridge.handle_ws(WsEvent::Text("\u{e4}\n".to_string()))),
        "\u{e4}\n".as_bytes()
    );
    assert_eq!(written(bridge.handle_ws(WsEvent::Binary(vec![]))), Vec::<u8>::new());
    assert_eq!(bridge.read_mode(), ReadMode::UntilNul);
    assert!(matches!(bridge.handle_ws(WsEvent::Other), WsAction::Wait));
    assert!(matches!(bridge.handle_ws(WsEvent::Close), WsAction::Stop));
    assert!(matches!(
        bridge.handle_ws(WsEvent::Disconnected),
        WsAction::Stop
    ));
    assert!(matches!(bridge.handle_ws(WsEvent::Failed), WsAction::Stop));
    assert!(matches!(
        bridge.handle_ws(WsEvent::Varlink(b"{\"upgrade\":true}\0".to_vec())),
        WsAction::Send(data) if data == b"{\"upgrade\":true}\0"
    ));
    assert_eq!(bridge.read_mode(), ReadMode::UntilNul);
}

#[test]
fn upgrades_are_noticed() {
    for (call, upgrades) in [
        ("{\"upgrade\":true}", true),
        ("{\"upgrade\":true}\0", true),
        (" {\"method\":\"a.b.C\",\"upgrade\":true} \n", true),
        ("{\"upgrade\":true}\0\0", false),
        ("{\"upgrade\":false}", false),
        ("{\"upgrade\":1}", false),
        ("{\"upgrade\":\"true\"}", false),
        ("{\"parameters\":{\"upgrade\":true}}", false),
        ("[\"upgrade\"]", false),
        ("true", false),
        ("not json", false),
        ("", false),
        ("\0", false),
    ] {
        let mut bridge = WsBridge::new();
        written(bridge.handle_ws(WsEvent::Text(call.to_string())));
        let mode = if upgrades {
            ReadMode::Raw(8192)
        } else {
            ReadMode::UntilNul
        };
        assert_eq!(bridge.read_mode(), mode, "{call:?}");
    }
}

#[test]
fn an_upgrade_is_for_good() {
    let mut bridge = WsBridge::new();
    written(bridge.handle_ws(WsEvent::Binary(b"{\"upgrade\":true}".to_vec())));
    assert_eq!(
        written(bridge.handle_ws(WsEvent::Binary(b"{\"upgrade\":false}".to_vec()))),
        b"{\"upgrade\":false}"
    );
    assert_eq!(bridge.read_mode(), ReadMode::Raw(8192));
    let mut bridge = WsBridge::new();
    bridge.note_upgrade(None);
    bridge.note_upgrade(Some(None));
    bridge.note_upgrade(Some(Some(false)));
    assert_eq!(bridge.read_mode(), ReadMode::UntilNul);
    bridge.note_upgrade(Some(Some(true)));
    bridge.note_upgrade(Some(Some(false)));
    assert_eq!(bridge.read_mode(), ReadMode::Raw(8192));
}

#[test]
fn varlink_messages_become_frames() {
    assert_eq!(
        frame_of(VarlinkRead::Data(b"{}\0".to_vec())),
        Some(b"{}\0".to_vec())
    );
    assert_eq!(frame_of(VarlinkRead::Data(Vec::new())), None);
    assert_eq!(frame_of(VarlinkRead::Failed), None);
}
