use mcp_server_gdb::tools::{remote_target_from_options, ToolReply};

#[test]
fn remote_target_needs_all_three_parts() {
    let t = remote_target_from_options(
        Some("extended-remote".to_string()),
        Some("192.168.1.100".to_string()),
        Some(1234),
    )
    .unwrap();
    assert_eq!(t.target_type, "extended-remote");
    assert_eq!(t.host, "192.168.1.100");
    assert_eq!(t.port, 1234);
    assert!(remote_target_from_options(None, Some("h".to_string()), Some(1)).is_none());
    assert!(remote_target_from_options(Some("remote".to_string()), None, Some(1)).is_none());
    assert!(remote_target_from_options(Some("remote".to_string()), Some("h".to_string()), None)
        .is_none());
}

#[test]
fn reply_texts() {
    let s = |v: &str| v.to_string();
    assert_eq!(ToolReply::CreatedSession(s("42")).text(), "Created GDB session: 42");
    assert_eq!(ToolReply::Session(s("{}")).text(), "Session: {}");
    assert_eq!(ToolReply::Sessions(s("[]")).text(), "Sessions: []");
    assert_eq!(ToolReply::ClosedSession.text(), "Closed GDB session");
    assert_eq!(ToolReply::StartedDebugging(s("ok")).text(), "Started debugging: ok");
    assert_eq!(ToolReply::StoppedDebugging(s("ok")).text(), "Stopped debugging: ok");
    assert_eq!(ToolReply::Breakpoints(s("[]")).text(), "Breakpoints: []");
    assert_eq!(ToolReply::SetBreakpoint(s("{}")).text(), "Set breakpoint: {}");
    assert_eq!(ToolReply::BreakpointsDeleted.text(), "Breakpoints deleted");
    assert_eq!(ToolReply::StackFrames(s("[]")).text(), "Stack frames: []");
    assert_eq!(ToolReply::LocalVariables(s("[]")).text(), "Local variables: []");
    assert_eq!(ToolReply::Registers(s("[]")).text(), "Registers: []");
    assert_eq!(ToolReply::RegisterNames(s("[]")).text(), "Registers: []");
    assert_eq!(ToolReply::Memory(s("[]")).text(), "Memory: []");
    assert_eq!(ToolReply::ContinuedExecution(s("ok")).text(), "Continued execution: ok");
    assert_eq!(ToolReply::SteppedInto(s("ok")).text(), "Stepped into next line: ok");
    assert_eq!(ToolReply::SteppedOver(s("ok")).text(), "Stepped over next line: ok");
    assert_eq!(
        ToolReply::ConnectedRemote { host: s("10.0.0.2"), port: 1234, result: s("ok") }.text(),
        "Connected to remote target 10.0.0.2:1234: ok"
    );
    assert_eq!(
        ToolReply::DisconnectedRemote(s("ok")).text(),
        "Disconnected from remote target: ok"
    );
    assert_eq!(
        ToolReply::LoadedSymbols { file: s("/bin/app"), result: s("ok") }.text(),
        "Loaded symbols from /bin/app: ok"
    );
}
