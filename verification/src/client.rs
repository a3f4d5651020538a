//! What a client does: how it starts, what it makes of the daemon's answers, and
//! what it tells the daemon while it is attached.

use vstd::prelude::*;

use crate::geometry::Size;
use crate::protocol::message::{ClientMessage, ClientMessageOf, ServerMessage, ServerMessageOf};
use crate::protocol::message::ServerMessageView;
use crate::protocol::request::{Request, RequestOf, RequestView};
use crate::protocol::wire::{self, WireError};
use crate::text::{self, same_text};

verus! {

/// What a process is started as, over the type that stands for a text.
pub enum RoleOf<S> {
    /// The daemon behind a socket.
    Daemon(S),
    DaemonWithoutSocket,
    Version,
    Client,
}

pub type Role = RoleOf<String>;

pub type RoleView = RoleOf<Seq<char>>;

pub open spec fn role_view(role: Role) -> RoleView {
    match role {
        RoleOf::Daemon(path) => RoleOf::Daemon(path@),
        RoleOf::DaemonWithoutSocket => RoleOf::DaemonWithoutSocket,
        RoleOf::Version => RoleOf::Version,
        RoleOf::Client => RoleOf::Client,
    }
}

/// What the first argument makes of a process.
pub open spec fn role_of(arguments: Seq<Seq<char>>) -> RoleView {
    if arguments.len() > 0 && arguments[0] == "--daemon"@ {
        if arguments.len() > 1 {
            RoleOf::Daemon(arguments[1])
        } else {
            RoleOf::DaemonWithoutSocket
        }
    } else if arguments.len() > 0 && (arguments[0] == "-V"@ || arguments[0] == "--version"@) {
        RoleOf::Version
    } else {
        RoleOf::Client
    }
}

pub fn role(arguments: &[String]) -> (role: Role)
    ensures
        role_view(role) == role_of(text::texts(arguments@)),
{
    if arguments.len() == 0 {
        return RoleOf::Client;
    }
    assert(text::texts(arguments@)[0] == arguments@[0]@);
    let first = arguments[0].as_str();
    if same_text(first, "--daemon") {
        if arguments.len() > 1 {
            assert(text::texts(arguments@)[1] == arguments@[1]@);
            RoleOf::Daemon(arguments[1].clone())
        } else {
            RoleOf::DaemonWithoutSocket
        }
    } else if same_text(first, "-V") || same_text(first, "--version") {
        RoleOf::Version
    } else {
        RoleOf::Client
    }
}

/// Whether a request may start the daemon: the one for a new session.
pub open spec fn may_start(request: RequestView) -> bool {
    request is NewSession
}

/// Whether a request starts the daemon where none is there.
pub fn starts_server(request: &Request) -> (starts: bool)
    ensures
        starts == may_start(request@),
        starts == (request@ is NewSession),
{
    match request {
        RequestOf::NewSession { .. } => true,
        _ => false,
    }
}

/// How often a client tries to reach a daemon that it has started.
pub const CONNECT_TRIES: u32 = 100;

/// How many milliseconds a client waits behind each try.
pub const CONNECT_PAUSE: u64 = 10;

/// What a client does on its way to the daemon.
#[derive(Debug, Clone, Copy, PartialEq, Eq, Structural)]
pub enum ConnectStep {
    /// It uses the connection.
    Use,
    /// It fails: there is no daemon, and none to be started.
    NoServer,
    /// It starts the daemon.
    Spawn,
    /// It waits for the given number of milliseconds.
    Wait(u64),
    /// It fails: the daemon that it started cannot be reached.
    NotStarted,
}

/// What follows from whether a client is connected, may start the daemon, has
/// started it, and from how often it has then waited in vain.
pub open spec fn connect_step_of(
    connected: bool,
    start: bool,
    spawned: bool,
    tries: u32,
) -> ConnectStep {
    if connected {
        ConnectStep::Use
    } else if !start {
        ConnectStep::NoServer
    } else if !spawned {
        ConnectStep::Spawn
    } else if tries < CONNECT_TRIES {
        ConnectStep::Wait(CONNECT_PAUSE)
    } else {
        ConnectStep::NotStarted
    }
}

pub fn connect_step(connected: bool, start: bool, spawned: bool, tries: u32) -> (step: ConnectStep)
    ensures
        step == connect_step_of(connected, start, spawned, tries),
{
    if connected {
        ConnectStep::Use
    } else if !start {
        ConnectStep::NoServer
    } else if !spawned {
        ConnectStep::Spawn
    } else if tries < CONNECT_TRIES {
        ConnectStep::Wait(CONNECT_PAUSE)
    } else {
        ConnectStep::NotStarted
    }
}

/// What a client does with an answer, over the type that stands for a text.
pub enum NextOf<S> {
    /// It ends, and may have a line to print.
    Finish(Option<S>),
    /// It attaches to a session.
    Attach(Option<S>),
}

pub type Next = NextOf<String>;

pub type NextView = NextOf<Seq<char>>;

pub open spec fn next_view(next: Next) -> NextView {
    match next {
        NextOf::Finish(line) => NextOf::Finish(wire::text_view(line)),
        NextOf::Attach(target) => NextOf::Attach(wire::text_view(target)),
    }
}

/// The session that a request attaches to: the one that was just made, or the
/// one that the request names.
pub open spec fn attached_to(request: RequestView, body: Seq<char>) -> Option<Seq<char>> {
    match request {
        RequestOf::NewSession { .. } => Some(body),
        RequestOf::NewWindow { target, .. } => target,
        RequestOf::Attach { target, .. } => target,
        _ => None,
    }
}

/// What follows from the answer to a request: an answer that is none and one
/// that refuses the request are errors. An empty answer is not printed, unless
/// it is the message that was asked for.
pub open spec fn next_of(
    request: RequestView,
    attach: bool,
    answer: ServerMessageView,
) -> Result<NextView, Seq<char>> {
    match answer {
        ServerMessageOf::Response { ok, body } => if !ok {
            Err(body)
        } else if attach {
            Ok(NextOf::Attach(attached_to(request, body)))
        } else if body.len() > 0 || request is DisplayMessage {
            Ok(NextOf::Finish(Some(body)))
        } else {
            Ok(NextOf::Finish(None))
        },
        _ => Err("server returned an invalid command response"@),
    }
}

pub fn next(request: Request, attach: bool, answer: ServerMessage) -> (result: Result<Next, String>)
    ensures
        match next_of(request@, attach, answer@) {
            Ok(expected) => result matches Ok(next) && next_view(next) == expected,
            Err(error) => result matches Err(message) && message@ == error,
        },
{
    let (ok, body) = match answer {
        ServerMessageOf::Response { ok, body } => (ok, body),
        _ => return Err("server returned an invalid command response".to_owned()),
    };
    if !ok {
        return Err(body);
    }
    if attach {
        let target: Option<String> = match request {
            RequestOf::NewSession { .. } => Some(body),
            RequestOf::NewWindow { target, .. } => target,
            RequestOf::Attach { target, .. } => target,
            _ => None,
        };
        return Ok(NextOf::Attach(target));
    }
    let shows: bool = match request {
        RequestOf::DisplayMessage { .. } => true,
        _ => false,
    };
    if body.as_str().as_bytes().len() > 0 || shows {
        proof {
            lemma_bytes_of_text(body@);
        }
        Ok(NextOf::Finish(Some(body)))
    } else {
        proof {
            lemma_bytes_of_text(body@);
        }
        Ok(NextOf::Finish(None))
    }
}

/// A text without characters is one without bytes.
proof fn lemma_bytes_of_text(text: Seq<char>)
    ensures
        vstd::utf8::encode_utf8(text).len() == 0 <==> text.len() == 0,
{
    reveal_with_fuel(vstd::utf8::encode_utf8, 2);
    if text.len() > 0 {
        assert(vstd::utf8::encode_scalar(text[0] as u32).len() >= 1);
    }
}

/// What is wrong with the answer to a request to attach, if anything is.
pub open spec fn refusal_of(answer: ServerMessageView) -> Option<Seq<char>> {
    match answer {
        ServerMessageOf::Response { ok, body } => if ok {
            None
        } else {
            Some(body)
        },
        _ => Some("server returned an invalid attach response"@),
    }
}

/// Whether the daemon lets a client attach.
pub fn attached(answer: ServerMessage) -> (result: Result<(), String>)
    ensures
        match refusal_of(answer@) {
            Some(error) => result matches Err(message) && message@ == error,
            None => result is Ok,
        },
{
    match answer {
        ServerMessageOf::Response { ok, body } => if ok {
            Ok(())
        } else {
            Err(body)
        },
        _ => Err("server returned an invalid attach response".to_owned()),
    }
}

/// What an attached client does with a message, over the types that stand for a
/// text and a run of bytes.
pub enum StepOf<S, B> {
    Show(B),
    Skip,
    Stop,
    Fail(S),
}

pub type Step = StepOf<String, Vec<u8>>;

pub type StepView = StepOf<Seq<char>, Seq<u8>>;

pub open spec fn step_view(step: Step) -> StepView {
    match step {
        StepOf::Show(bytes) => StepOf::Show(bytes@),
        StepOf::Skip => StepOf::Skip,
        StepOf::Stop => StepOf::Stop,
        StepOf::Fail(message) => StepOf::Fail(message@),
    }
}

/// An attached client shows what is rendered until the daemon closes, or until
/// there is nothing more to read.
pub open spec fn step_of(message: Result<ServerMessageView, WireError>) -> StepView {
    match message {
        Ok(ServerMessageOf::Render(bytes)) => StepOf::Show(bytes),
        Ok(ServerMessageOf::Closed) => StepOf::Stop,
        Ok(ServerMessageOf::Response { .. }) => StepOf::Skip,
        Err(WireError::UnexpectedEnd) => StepOf::Stop,
        Err(error) => StepOf::Fail(error.text()),
    }
}

pub fn step(message: Result<ServerMessage, WireError>) -> (step: Step)
    ensures
        step_view(step) == step_of(
            match message {
                Ok(message) => Ok(message@),
                Err(error) => Err(error),
            },
        ),
{
    match message {
        Ok(ServerMessageOf::Render(bytes)) => StepOf::Show(bytes),
        Ok(ServerMessageOf::Closed) => StepOf::Stop,
        Ok(ServerMessageOf::Response { .. }) => StepOf::Skip,
        Err(WireError::UnexpectedEnd) => StepOf::Stop,
        Err(error) => StepOf::Fail(error.message().to_owned()),
    }
}

/// The size that a client tells the daemon, where it is not the one that the daemon
/// knows.
pub open spec fn told_size(known: Size, size: Size) -> Option<Size> {
    if known == size {
        None
    } else {
        Some(size)
    }
}

/// What a client tells the daemon of the size of its terminal: nothing, where it
/// is the one that the daemon knows.
pub fn resize_message(known: Size, size: Size) -> (message: Option<ClientMessage>)
    ensures
        match told_size(known, size) {
            Some(told) => message matches Some(message) && message@ == ClientMessageOf::<
                Seq<u8>,
            >::Resize(told),
            None => message is None,
        },
        known == size ==> message is None,
        known != size ==> (message matches Some(message) && message@ == ClientMessageOf::<
            Seq<u8>,
        >::Resize(size)),
{
    if known == size {
        None
    } else {
        Some(ClientMessageOf::Resize(size))
    }
}

} // verus!
