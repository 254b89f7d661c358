use vstd::prelude::*;
use crate::util::text::{contains_text, has_infix, owned};

verus! {

/// The state of the connection to the server.
#[derive(PartialEq, Eq, Debug)]
pub enum ConnectionState {
    Disconnected,
    Connecting,
    Connected,
    Failed(String),
}

/// A connection state as plain values: a tag (0 disconnected, 1
/// connecting, 2 connected, 3 failed) and the failure reason.
pub open spec fn state_view(s: ConnectionState) -> (u8, Seq<char>) {
    match s {
        ConnectionState::Disconnected => (0u8, Seq::empty()),
        ConnectionState::Connecting => (1u8, Seq::empty()),
        ConnectionState::Connected => (2u8, Seq::empty()),
        ConnectionState::Failed(r) => (3u8, r@),
    }
}

/// What the network task reports about the connection.
pub enum ConnectionEvent {
    Connected { player_id: u32 },
    ConnectionFailed { reason: String },
    Disconnected,
    /// Any other event (packets); it does not touch the connection.
    Other,
}

/// An event as plain values: a tag (0 connected, 1 failed, 2
/// disconnected, 3 other), the player id and the reason.
pub open spec fn event_view(e: ConnectionEvent) -> (u8, u32, Seq<char>) {
    match e {
        ConnectionEvent::Connected { player_id } => (0u8, player_id, Seq::empty()),
        ConnectionEvent::ConnectionFailed { reason } => (1u8, 0u32, reason@),
        ConnectionEvent::Disconnected => (2u8, 0u32, Seq::empty()),
        ConnectionEvent::Other => (3u8, 0u32, Seq::empty()),
    }
}

/// The connection state and player id after an event.
pub open spec fn after_event(s: ((u8, Seq<char>), Option<u32>), e: (u8, u32, Seq<char>)) -> ((u8, Seq<char>), Option<u32>) {
    if e.0 == 0 {
        ((2u8, Seq::empty()), Some(e.1))
    } else if e.0 == 1 {
        ((3u8, e.2), s.1)
    } else if e.0 == 2 {
        ((0u8, Seq::empty()), None)
    } else {
        s
    }
}

/// What a send does: 0 skip silently, 1 send, 2 refuse.
pub open spec fn send_decision(connected: bool, task_running: bool, needs_connection: bool) -> u8 {
    if !connected {
        if needs_connection { 2 } else { 0 }
    } else if task_running {
        1
    } else {
        2
    }
}

/// The connection state of the game and our player id.
pub struct Session {
    state: ConnectionState,
    player_id: Option<u32>,
}

impl Session {
    /// The state and the player id as plain values.
    pub closed spec fn view(&self) -> ((u8, Seq<char>), Option<u32>) {
        (state_view(self.state), self.player_id)
    }

    /// Disconnected, no player id.
    pub fn new() -> (s: Session)
        ensures
            s.view() == ((0u8, Seq::<char>::empty()), None::<u32>),
    {
        Session { state: ConnectionState::Disconnected, player_id: None }
    }

    /// A start was requested: connecting.
    pub fn begin_connecting(&mut self)
        ensures
            final(self).view() == ((1u8, Seq::<char>::empty()), old(self).view().1),
    {
        self.state = ConnectionState::Connecting;
    }

    /// Starting failed with a reason.
    pub fn fail(&mut self, reason: String)
        ensures
            final(self).view() == ((3u8, reason@), old(self).view().1),
    {
        self.state = ConnectionState::Failed(reason);
    }

    /// Takes in an event from the network task (see `after_event`).
    pub fn apply_event(&mut self, event: &ConnectionEvent)
        ensures
            final(self).view() == after_event(old(self).view(), event_view(*event)),
    {
        match event {
            ConnectionEvent::Connected { player_id } => {
                self.state = ConnectionState::Connected;
                self.player_id = Some(*player_id);
            },
            ConnectionEvent::ConnectionFailed { reason } => {
                self.state = ConnectionState::Failed(reason.clone());
            },
            ConnectionEvent::Disconnected => {
                self.state = ConnectionState::Disconnected;
                self.player_id = None;
            },
            ConnectionEvent::Other => {},
        }
    }

    /// Disconnecting: no connection, no player id.
    pub fn disconnect(&mut self)
        ensures
            final(self).view() == ((0u8, Seq::<char>::empty()), None::<u32>),
    {
        self.state = ConnectionState::Disconnected;
        self.player_id = None;
    }

    /// Whether the game is connected.
    pub fn is_connected(&self) -> (b: bool)
        ensures
            b == (self.view().0.0 == 2),
    {
        match self.state {
            ConnectionState::Connected => true,
            _ => false,
        }
    }

    /// The state.
    pub fn connection_state(&self) -> (r: &ConnectionState)
        ensures
            state_view(*r) == self.view().0,
    {
        &self.state
    }

    /// Our player id, once connected.
    pub fn player_id(&self) -> (r: Option<u32>)
        ensures
            r == self.view().1,
    {
        self.player_id
    }

    /// Whether to send something to the server. Position updates and block
    /// actions are skipped silently while not connected; commands, chat
    /// and chunk requests are refused then. Without a network task a send
    /// is refused.
    pub fn check_send(&self, task_running: bool, needs_connection: bool) -> (r: Result<bool, String>)
        ensures
            match r {
                Ok(send) => send_decision(self.view().0.0 == 2, task_running, needs_connection) == if send { 1u8 } else { 0u8 },
                Err(e) => send_decision(self.view().0.0 == 2, task_running, needs_connection) == 2
                    && e@ == if self.view().0.0 == 2 { "Network task not running"@ } else { "Not connected to server"@ },
            },
    {
        if !self.is_connected() {
            if needs_connection {
                Err(owned("Not connected to server"))
            } else {
                Ok(false)
            }
        } else if task_running {
            Ok(true)
        } else {
            Err(owned("Network task not running"))
        }
    }
}

impl Default for Session {
    fn default() -> (s: Session)
        ensures
            s.view() == ((0u8, Seq::<char>::empty()), None::<u32>),
    {
        Session::new()
    }
}

/// Only a connection report makes the game connected; a disconnection
/// always forgets the player id; a failure keeps it.
pub proof fn law_session_events(s: ((u8, Seq<char>), Option<u32>), e: (u8, u32, Seq<char>))
    ensures
        after_event(s, e).0.0 == 2 ==> e.0 == 0 || (e.0 >= 3 && s.0.0 == 2),
        e.0 == 2 ==> after_event(s, e).1 is None,
        e.0 == 1 ==> after_event(s, e).1 == s.1,
        e.0 == 0 ==> after_event(s, e).1 == Some(e.1),
{
}

/// The handle of a server running in this process.
pub struct EmbeddedServer {
    /// The port the server listens on.
    pub actual_port: u16,
}

impl EmbeddedServer {
    /// Stops the server: its thread ends when the handle goes.
    pub fn stop(self) {
    }
}

/// Why the network task reports the connection closed.
#[derive(PartialEq, Eq, Structural, Clone, Copy, Debug)]
pub enum DisconnectCause {
    /// The player asked to disconnect.
    Left,
    /// The connection broke.
    TimedOut,
}

/// What the network task sends: a generic packet, whose failure means the
/// connection is lost, or a player update, block action or command request,
/// whose failure is only logged.
#[derive(PartialEq, Eq, Structural, Clone, Copy, Debug)]
pub enum SendKind {
    Packet,
    PlayerUpdate,
    BlockAction,
    CommandRequest,
}

/// What the network task's loop sees: a command from the game, or the
/// outcome of the outside work it last did.
#[derive(Debug)]
pub enum TaskInput {
    /// The game asks to connect.
    ConnectRequested { address: String, username: String },
    /// The handshake succeeded.
    Connected { server_name: String, player_id: u32 },
    /// The connection or the handshake failed.
    ConnectFailed { reason: String },
    /// The game asks to disconnect.
    DisconnectRequested,
    /// The game asks to send something.
    SendRequested(SendKind),
    /// A send failed.
    SendFailed(SendKind),
    /// A turn of the loop in which a packet may be read.
    ReceiveTick,
    /// A packet arrived.
    PacketReceived,
    /// Reading failed with this message.
    ReceiveFailed { message: String },
}

/// What the network task does next.
#[derive(Debug)]
pub enum TaskAction {
    Nothing,
    /// Open the connection and perform the handshake.
    Connect { address: String, username: String },
    /// Tell the game that it is connected.
    ReportConnected { server_name: String, player_id: u32 },
    /// Tell the game that connecting failed.
    ReportConnectionFailed { reason: String },
    /// Drop the connection (shutting it down first when `shutdown`) and
    /// tell the game it is disconnected, for `cause`.
    Close { shutdown: bool, cause: DisconnectCause },
    /// Send over the connection.
    Send(SendKind),
    /// Try to read a packet.
    Receive,
    /// Turn the packet read into an event for the game.
    ForwardPacket,
}

/// The network task's decision: whether it is connected afterwards, and
/// what it does. Connecting takes a successful handshake; a disconnect
/// request closes (shutting down an open connection) and reports that the
/// player left; a failed generic send, or a read failing with "connection
/// reset" or "broken pipe", drops the connection and reports a time-out;
/// sends and reads happen only while connected; other failures change
/// nothing.
pub open spec fn task_step(connected: bool, input: TaskInput) -> (bool, TaskAction) {
    match input {
        TaskInput::ConnectRequested { address, username } => (connected, TaskAction::Connect { address, username }),
        TaskInput::Connected { server_name, player_id } => (true, TaskAction::ReportConnected { server_name, player_id }),
        TaskInput::ConnectFailed { reason } => (connected, TaskAction::ReportConnectionFailed { reason }),
        TaskInput::DisconnectRequested => (false, TaskAction::Close { shutdown: connected, cause: DisconnectCause::Left }),
        TaskInput::SendRequested(k) => (connected, if connected { TaskAction::Send(k) } else { TaskAction::Nothing }),
        TaskInput::SendFailed(k) => if k == SendKind::Packet {
            (false, TaskAction::Close { shutdown: false, cause: DisconnectCause::TimedOut })
        } else {
            (connected, TaskAction::Nothing)
        },
        TaskInput::ReceiveTick => (connected, if connected { TaskAction::Receive } else { TaskAction::Nothing }),
        TaskInput::PacketReceived => (connected, TaskAction::ForwardPacket),
        TaskInput::ReceiveFailed { message } => if has_infix(message@, "connection reset"@) || has_infix(message@, "broken pipe"@) {
            (false, TaskAction::Close { shutdown: false, cause: DisconnectCause::TimedOut })
        } else {
            (connected, TaskAction::Nothing)
        },
    }
}

/// One decision of the network task (see `task_step`).
pub fn network_task_step(connected: bool, input: &TaskInput) -> (r: (bool, TaskAction))
    ensures
        r == task_step(connected, *input),
{
    match input {
        TaskInput::ConnectRequested { address, username } => (
            connected,
            TaskAction::Connect { address: address.clone(), username: username.clone() },
        ),
        TaskInput::Connected { server_name, player_id } => (
            true,
            TaskAction::ReportConnected { server_name: server_name.clone(), player_id: *player_id },
        ),
        TaskInput::ConnectFailed { reason } => (connected, TaskAction::ReportConnectionFailed { reason: reason.clone() }),
        TaskInput::DisconnectRequested => (false, TaskAction::Close { shutdown: connected, cause: DisconnectCause::Left }),
        TaskInput::SendRequested(k) => {
            if connected {
                (connected, TaskAction::Send(*k))
            } else {
                (connected, TaskAction::Nothing)
            }
        },
        TaskInput::SendFailed(k) => {
            match k {
                SendKind::Packet => (false, TaskAction::Close { shutdown: false, cause: DisconnectCause::TimedOut }),
                _ => (connected, TaskAction::Nothing),
            }
        },
        TaskInput::ReceiveTick => {
            if connected {
                (connected, TaskAction::Receive)
            } else {
                (connected, TaskAction::Nothing)
            }
        },
        TaskInput::PacketReceived => (connected, TaskAction::ForwardPacket),
        TaskInput::ReceiveFailed { message } => {
            if contains_text(message.as_str(), "connection reset") || contains_text(message.as_str(), "broken pipe") {
                (false, TaskAction::Close { shutdown: false, cause: DisconnectCause::TimedOut })
            } else {
                (connected, TaskAction::Nothing)
            }
        },
    }
}

/// The task becomes connected only through a successful handshake, and
/// every step that leaves it disconnected while it was connected reports
/// the disconnection.
pub proof fn law_task_connection(connected: bool, input: TaskInput)
    ensures
        task_step(connected, input).0 && !connected ==> input is Connected,
        connected && !task_step(connected, input).0 ==> task_step(connected, input).1 is Close,
{
}

} // verus!
