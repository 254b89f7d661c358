use voxl::networking::session::{network_task_step, DisconnectCause, SendKind, TaskAction, TaskInput};

#[test]
fn connect_request_starts_a_handshake() {
    let input = TaskInput::ConnectRequested { address: "127.0.0.1:25565".to_string(), username: "Steve".to_string() };
    match network_task_step(false, &input) {
        (false, TaskAction::Connect { address, username }) => {
            assert_eq!(address, "127.0.0.1:25565");
            assert_eq!(username, "Steve");
        }
        other => panic!("unexpected {:?}", other),
    }
}

#[test]
fn handshake_outcomes() {
    let ok = TaskInput::Connected { server_name: "Voxl".to_string(), player_id: 7 };
    match network_task_step(false, &ok) {
        (true, TaskAction::ReportConnected { server_name, player_id }) => {
            assert_eq!(server_name, "Voxl");
            assert_eq!(player_id, 7);
        }
        other => panic!("unexpected {:?}", other),
    }
    let failed = TaskInput::ConnectFailed { reason: "refused".to_string() };
    match network_task_step(false, &failed) {
        (false, TaskAction::ReportConnectionFailed { reason }) => assert_eq!(reason, "refused"),
        other => panic!("unexpected {:?}", other),
    }
}

#[test]
fn disconnect_request_reports_left() {
    assert!(matches!(
        network_task_step(true, &TaskInput::DisconnectRequested),
        (false, TaskAction::Close { shutdown: true, cause: DisconnectCause::Left })
    ));
    assert!(matches!(
        network_task_step(false, &TaskInput::DisconnectRequested),
        (false, TaskAction::Close { shutdown: false, cause: DisconnectCause::Left })
    ));
}

#[test]
fn sends_and_reads_only_while_connected() {
    assert!(matches!(
        network_task_step(true, &TaskInput::SendRequested(SendKind::BlockAction)),
        (true, TaskAction::Send(SendKind::BlockAction))
    ));
    assert!(matches!(network_task_step(false, &TaskInput::SendRequested(SendKind::Packet)), (false, TaskAction::Nothing)));
    assert!(matches!(network_task_step(true, &TaskInput::ReceiveTick), (true, TaskAction::Receive)));
    assert!(matches!(network_task_step(false, &TaskInput::ReceiveTick), (false, TaskAction::Nothing)));
    assert!(matches!(network_task_step(true, &TaskInput::PacketReceived), (true, TaskAction::ForwardPacket)));
}

#[test]
fn failed_packet_send_times_out_but_update_failure_does_not() {
    assert!(matches!(
        network_task_step(true, &TaskInput::SendFailed(SendKind::Packet)),
        (false, TaskAction::Close { shutdown: false, cause: DisconnectCause::TimedOut })
    ));
    assert!(matches!(
        network_task_step(true, &TaskInput::SendFailed(SendKind::PlayerUpdate)),
        (true, TaskAction::Nothing)
    ));
}

#[test]
fn broken_connection_reads_time_out() {
    let reset = TaskInput::ReceiveFailed { message: "Receive error: connection reset by peer".to_string() };
    assert!(matches!(
        network_task_step(true, &reset),
        (false, TaskAction::Close { shutdown: false, cause: DisconnectCause::TimedOut })
    ));
    let pipe = TaskInput::ReceiveFailed { message: "broken pipe".to_string() };
    assert!(matches!(network_task_step(true, &pipe), (false, TaskAction::Close { .. })));
    let eof = TaskInput::ReceiveFailed { message: "Receive error: unexpected end of file".to_string() };
    assert!(matches!(network_task_step(true, &eof), (true, TaskAction::Nothing)));
}
