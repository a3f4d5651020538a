//! What holds of a client whatever it is told.

use vstd::prelude::*;

use crate::client::{self, ConnectStep, NextOf, RoleOf, StepOf};
use crate::geometry::Size;
use crate::protocol::message::{ServerMessageOf, ServerMessageView};
use crate::protocol::request::{RequestOf, RequestView};
use crate::protocol::wire::WireError;

verus! {

/// A process is a daemon with `--daemon`, which needs a path; it tells its version
/// with `-V` or `--version`; any other is a client.
pub proof fn law_first_argument_makes_the_role(
    first: Seq<char>,
    path: Seq<char>,
    more: Seq<Seq<char>>,
)
    ensures
        client::role_of(seq!["--daemon"@, path] + more) == RoleOf::Daemon(path),
        client::role_of(seq!["--daemon"@]) == RoleOf::<Seq<char>>::DaemonWithoutSocket,
        client::role_of(seq!["-V"@] + more) == RoleOf::<Seq<char>>::Version,
        client::role_of(seq!["--version"@] + more) == RoleOf::<Seq<char>>::Version,
        client::role_of(seq![]) == RoleOf::<Seq<char>>::Client,
        first != "--daemon"@ && first != "-V"@ && first != "--version"@ ==> client::role_of(
            seq![first] + more,
        ) == RoleOf::<Seq<char>>::Client,
{
    reveal_strlit("--daemon");
    reveal_strlit("-V");
    reveal_strlit("--version");
    assert("--daemon"@.len() == 8 && "-V"@.len() == 2 && "--version"@.len() == 9);
    assert((seq!["--daemon"@, path] + more)[0] == "--daemon"@);
    assert((seq!["--daemon"@, path] + more)[1] == path);
    assert((seq!["-V"@] + more)[0] == "-V"@);
    assert((seq!["--version"@] + more)[0] == "--version"@);
    assert((seq![first] + more)[0] == first);
}

/// A client that may start the daemon starts it once, then waits for it a hundred
/// times, and then gives up; one that may not gives up at once.
pub proof fn law_client_waits_for_its_daemon(start: bool, spawned: bool, tries: u32)
    ensures
        client::connect_step_of(true, start, spawned, tries) == ConnectStep::Use,
        client::connect_step_of(false, false, spawned, tries) == ConnectStep::NoServer,
        client::connect_step_of(false, true, false, tries) == ConnectStep::Spawn,
        tries < 100 ==> client::connect_step_of(false, true, true, tries) == ConnectStep::Wait(10),
        tries >= 100 ==> client::connect_step_of(false, true, true, tries)
            == ConnectStep::NotStarted,
{
}

/// A client prints what it is answered, but an empty answer only where it asked for
/// a message.
pub proof fn law_answers_are_printed(request: RequestView, body: Seq<char>)
    ensures
        ({
            let answer = ServerMessageOf::Response { ok: true, body };
            let next = client::next_of(request, false, answer);
            &&& body.len() > 0 ==> next == Ok::<client::NextView, Seq<char>>(
                NextOf::Finish(Some(body)),
            )
            &&& body.len() == 0 && !(request is DisplayMessage) ==> next == Ok::<
                client::NextView,
                Seq<char>,
            >(NextOf::Finish(None))
            &&& request is DisplayMessage ==> next == Ok::<client::NextView, Seq<char>>(
                NextOf::Finish(Some(body)),
            )
        }),
{
}

/// A request that is refused fails with the reason, and an answer that is none
/// fails too, whether the client would have attached or not.
pub proof fn law_refusals_are_errors(
    request: RequestView,
    attach: bool,
    reason: Seq<char>,
    bytes: Seq<u8>,
)
    ensures
        client::next_of(
            request,
            attach,
            ServerMessageOf::Response { ok: false, body: reason },
        ) == Err::<client::NextView, Seq<char>>(reason),
        client::next_of(request, attach, ServerMessageOf::Render(bytes)) == Err::<
            client::NextView,
            Seq<char>,
        >("server returned an invalid command response"@),
        client::next_of(request, attach, ServerMessageOf::Closed) == Err::<
            client::NextView,
            Seq<char>,
        >("server returned an invalid command response"@),
        client::refusal_of(ServerMessageOf::Response { ok: false, body: reason }) == Some(reason),
        client::refusal_of(ServerMessageOf::Response { ok: true, body: reason }) is None,
        client::refusal_of(ServerMessageOf::Render(bytes)) == Some(
            "server returned an invalid attach response"@,
        ),
        client::refusal_of(ServerMessageOf::Closed) == Some(
            "server returned an invalid attach response"@,
        ),
{
}

/// A client attaches to the session that was made for it, to the one whose window
/// it opened, or to the one that it asked for.
pub proof fn law_client_attaches_where_it_asked(request: RequestView, body: Seq<char>)
    ensures
        ({
            let next = client::next_of(request, true, ServerMessageOf::Response { ok: true, body });
            match request {
                RequestOf::NewSession { .. } => next == Ok::<client::NextView, Seq<char>>(
                    NextOf::Attach(Some(body)),
                ),
                RequestOf::NewWindow { target, .. } => next == Ok::<client::NextView, Seq<char>>(
                    NextOf::Attach(target),
                ),
                RequestOf::Attach { target, .. } => next == Ok::<client::NextView, Seq<char>>(
                    NextOf::Attach(target),
                ),
                _ => next == Ok::<client::NextView, Seq<char>>(NextOf::Attach(None)),
            }
        }),
{
}

/// An attached client shows what is rendered, as it is; it passes over answers, and
/// ends where the daemon does.
pub proof fn law_attached_client_shows_what_comes(
    bytes: Seq<u8>,
    ok: bool,
    body: Seq<char>,
    error: WireError,
)
    ensures
        client::step_of(Ok(ServerMessageOf::Render(bytes))) == StepOf::<Seq<char>, Seq<u8>>::Show(
            bytes,
        ),
        client::step_of(Ok(ServerMessageOf::Response { ok, body })) == StepOf::<
            Seq<char>,
            Seq<u8>,
        >::Skip,
        client::step_of(Ok(ServerMessageOf::Closed)) == StepOf::<Seq<char>, Seq<u8>>::Stop,
        client::step_of(Err::<ServerMessageView, WireError>(WireError::UnexpectedEnd)) == StepOf::<
            Seq<char>,
            Seq<u8>,
        >::Stop,
        error != WireError::UnexpectedEnd ==> client::step_of(
            Err::<ServerMessageView, WireError>(error),
        ) == StepOf::<Seq<char>, Seq<u8>>::Fail(error.text()),
{
}

/// A new session starts the daemon, and nothing else does.
pub proof fn law_new_sessions_start_the_daemon(request: RequestView)
    ensures
        client::may_start(request) <==> (request matches RequestOf::NewSession { .. }),
{
}

/// A client tells the daemon a size once: nothing once the daemon knows it, and the
/// new size whenever it changes.
pub proof fn law_sizes_are_told_once(known: Size, size: Size)
    ensures
        client::told_size(size, size) is None,
        known.cols != size.cols || known.rows != size.rows ==> client::told_size(known, size)
            == Some(size),
{
}

} // verus!
