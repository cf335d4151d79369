//! Connection-level request router.
//!
//! One task decodes inbound frames into [`Request`]s and hands them to the
//! router, which authorizes each one and keeps at most one page handler
//! active. Switching pages first cancels the active handler and awaits its
//! acknowledged termination; only then may the next handler start. The
//! router itself performs no I/O: it answers every frame with a list of
//! [`RouterAction`]s that the surrounding connection task carries out in
//! order.

use vstd::prelude::*;
use crate::auth::spec_token_valid;
use crate::auth::validate_token;
use crate::text::str_is;

verus! {

/// One decoded client intent: a page switch when `cmd` is empty, otherwise a
/// command for the active page.
pub struct Request {
    pub page: String,
    pub token: String,
    pub cmd: String,
    pub args: Vec<String>,
}

/// The fixed set of pages a connection can show.
#[derive(Clone, Copy, PartialEq, Eq, Structural, Debug)]
pub enum Page {
    Main,
    Process,
    Software,
    Management,
    Service,
    Browser,
    Login,
}

/// The page named by a path string, if any. Checked in the same order the
/// executable lookup checks, so unknown strings map to `None`.
pub open spec fn spec_page_of(s: Seq<char>) -> Option<Page> {
    if s == "/"@ {
        Some(Page::Main)
    } else if s == "/process"@ {
        Some(Page::Process)
    } else if s == "/software"@ {
        Some(Page::Software)
    } else if s == "/management"@ {
        Some(Page::Management)
    } else if s == "/service"@ {
        Some(Page::Service)
    } else if s == "/browser"@ {
        Some(Page::Browser)
    } else if s == "/login"@ {
        Some(Page::Login)
    } else {
        None
    }
}

/// Looks a path string up in the page table.
pub fn parse_page(s: &str) -> (r: Option<Page>)
    ensures
        r == spec_page_of(s@),
{
    if str_is(s, "/") {
        Some(Page::Main)
    } else if str_is(s, "/process") {
        Some(Page::Process)
    } else if str_is(s, "/software") {
        Some(Page::Software)
    } else if str_is(s, "/management") {
        Some(Page::Management)
    } else if str_is(s, "/service") {
        Some(Page::Service)
    } else if str_is(s, "/browser") {
        Some(Page::Browser)
    } else if str_is(s, "/login") {
        Some(Page::Login)
    } else {
        None
    }
}

/// What the connection task must do next, in order.
pub enum RouterAction {
    /// Signal the active handler to stop and wait until it has acknowledged,
    /// i.e. its task has returned and can write no further output.
    CancelActive,
    /// Send the client an error notice frame.
    SendError,
    /// Start the handler of the given page and treat it as active.
    Start(Page),
    /// Hand the request to the active handler's command stream.
    Forward(Request),
    /// Send the client the one unsolicited global snapshot, shown on all
    /// pages.
    SendGlobal,
}

/// The router's state: which page's handler is active, if any.
pub struct RouterState {
    pub active: Option<Page>,
}

/// Whether the request passes the guard: always when password protection is
/// off, otherwise exactly when its token is valid now.
pub open spec fn spec_authorized(req: Request, pass: bool, secret: Seq<char>, now: u64) -> bool {
    !pass || spec_token_valid(req.token@, secret, now)
}

/// `seq![CancelActive]` when a handler is active, else nothing.
pub open spec fn spec_cancel_prefix(active: Option<Page>) -> Seq<RouterAction> {
    if active is Some {
        seq![RouterAction::CancelActive]
    } else {
        Seq::empty()
    }
}

/// The router's answer to one frame: the new active page and the actions to
/// carry out. `frame` is `None` for a frame that did not decode; such frames
/// are skipped. An unauthorized request cancels the active handler and
/// answers an error notice. An authorized page switch cancels the active
/// handler and starts the named page's handler (the login page only answers
/// the error notice and leaves nothing active; an unknown page is ignored).
/// A command is forwarded only while some handler is active.
pub open spec fn spec_route(state: RouterState, frame: Option<Request>, authorized: bool) -> (
    RouterState,
    Seq<RouterAction>,
) {
    match frame {
        None => (state, Seq::empty()),
        Some(req) => {
            if !authorized {
                (
                    RouterState { active: None },
                    spec_cancel_prefix(state.active) + seq![RouterAction::SendError],
                )
            } else if req.cmd@.len() == 0 {
                match spec_page_of(req.page@) {
                    Some(Page::Login) => (
                        RouterState { active: None },
                        spec_cancel_prefix(state.active) + seq![RouterAction::SendError],
                    ),
                    Some(page) => (
                        RouterState { active: Some(page) },
                        spec_cancel_prefix(state.active) + seq![RouterAction::Start(page)],
                    ),
                    None => (state, Seq::empty()),
                }
            } else {
                if state.active is Some {
                    (state, seq![RouterAction::Forward(req)])
                } else {
                    (state, Seq::empty())
                }
            }
        },
    }
}

/// Interprets one action's effect on "which handler may produce output".
pub open spec fn spec_after_action(running: Option<Page>, action: RouterAction) -> Option<Page> {
    match action {
        RouterAction::CancelActive => None,
        RouterAction::Start(page) => Some(page),
        _ => running,
    }
}

/// Interprets a whole action list, left to right.
pub open spec fn spec_run_actions(running: Option<Page>, actions: Seq<RouterAction>) -> Option<
    Page,
>
    decreases actions.len(),
{
    if actions.len() == 0 {
        running
    } else {
        spec_run_actions(spec_after_action(running, actions.first()), actions.drop_first())
    }
}

/// The serialization discipline: walking the action list from `running`, a
/// handler is only ever started while none is running. Since `CancelActive`
/// stands for an *acknowledged* cancellation, output of two handlers can
/// never interleave when this holds.
pub open spec fn spec_starts_only_when_idle(
    running: Option<Page>,
    actions: Seq<RouterAction>,
) -> bool
    decreases actions.len(),
{
    if actions.len() == 0 {
        true
    } else {
        &&& (actions.first() is Start ==> running is None)
        &&& spec_starts_only_when_idle(
            spec_after_action(running, actions.first()),
            actions.drop_first(),
        )
    }
}

impl RouterState {
    /// A fresh connection: no handler active.
    pub fn new() -> (s: RouterState)
        ensures
            s.active is None,
    {
        RouterState { active: None }
    }

    /// Answers one inbound frame. The returned actions follow
    /// [`spec_route`], they respect the serialization discipline, and the
    /// router's record of the active page matches what carrying the actions
    /// out leaves running.
    pub fn handle_frame(
        &mut self,
        frame: Option<Request>,
        pass: bool,
        secret: &str,
        now: u64,
    ) -> (actions: Vec<RouterAction>)
        ensures
            (*final(self), actions@) == spec_route(
                *old(self),
                frame,
                frame matches Some(req) ==> spec_authorized(req, pass, secret@, now),
            ),
            spec_starts_only_when_idle(old(self).active, actions@),
            final(self).active == spec_run_actions(old(self).active, actions@),
    {
        let ghost gframe = frame;
        let ghost gauth = (gframe matches Some(req) ==> spec_authorized(req, pass, secret@, now));
        let mut actions: Vec<RouterAction> = Vec::new();
        let req = match frame {
            Some(req) => req,
            None => {
                proof {
                    assert(actions@ =~= spec_route(*self, gframe, gauth).1);
                    lemma_route_step_serialized(*old(self), gframe, gauth);
                }
                return actions;
            },
        };
        let authorized = !pass || validate_token(req.token.as_str(), secret, now);
        if !authorized {
            if self.active.is_some() {
                actions.push(RouterAction::CancelActive);
            }
            actions.push(RouterAction::SendError);
            self.active = None;
            proof {
                assert(actions@ =~= spec_cancel_prefix(old(self).active) + seq![
                    RouterAction::SendError,
                ]);
                lemma_route_step_serialized(*old(self), gframe, gauth);
            }
            return actions;
        }
        if req.cmd.as_str().is_empty() {
            match parse_page(req.page.as_str()) {
                Some(Page::Login) => {
                    if self.active.is_some() {
                        actions.push(RouterAction::CancelActive);
                    }
                    actions.push(RouterAction::SendError);
                    self.active = None;
                    proof {
                        assert(actions@ =~= spec_cancel_prefix(old(self).active) + seq![
                            RouterAction::SendError,
                        ]);
                    }
                },
                Some(page) => {
                    if self.active.is_some() {
                        actions.push(RouterAction::CancelActive);
                    }
                    actions.push(RouterAction::Start(page));
                    self.active = Some(page);
                    proof {
                        assert(actions@ =~= spec_cancel_prefix(old(self).active) + seq![
                            RouterAction::Start(page),
                        ]);
                    }
                },
                None => {},
            }
            proof {
                lemma_route_step_serialized(*old(self), gframe, gauth);
            }
            return actions;
        }
        if self.active.is_some() {
            let ghost forwarded = req;
            actions.push(RouterAction::Forward(req));
            proof {
                assert(actions@ =~= seq![RouterAction::Forward(forwarded)]);
            }
        }
        proof {
            lemma_route_step_serialized(*old(self), gframe, gauth);
        }
        actions
    }

    /// The connection was just accepted: before any request is processed,
    /// one unsolicited global snapshot goes out, and nothing is active.
    pub fn on_connect(&self) -> (actions: Vec<RouterAction>)
        ensures
            actions@ == seq![RouterAction::SendGlobal],
            spec_starts_only_when_idle(self.active, actions@),
    {
        let mut actions: Vec<RouterAction> = Vec::new();
        actions.push(RouterAction::SendGlobal);
        proof {
            assert(actions@ =~= seq![RouterAction::SendGlobal]);
            lemma_actions_one(self.active, RouterAction::SendGlobal);
        }
        actions
    }

    /// The connection is closing: cancel whatever is active and stop.
    pub fn on_close(&mut self) -> (actions: Vec<RouterAction>)
        ensures
            actions@ == spec_cancel_prefix(old(self).active),
            final(self).active is None,
            spec_starts_only_when_idle(old(self).active, actions@),
    {
        let mut actions: Vec<RouterAction> = Vec::new();
        if self.active.is_some() {
            actions.push(RouterAction::CancelActive);
        }
        self.active = None;
        proof {
            assert(actions@ =~= spec_cancel_prefix(old(self).active));
            if old(self).active is Some {
                lemma_actions_one(old(self).active, RouterAction::CancelActive);
            }
        }
        actions
    }
}

/// The action trace a whole connection produces: the concatenation of the
/// per-frame action lists, each frame answered in arrival order. Every
/// element of `frames` pairs one decoded frame with whether it was
/// authorized.
pub open spec fn spec_trace_actions(
    active: Option<Page>,
    frames: Seq<(Option<Request>, bool)>,
) -> Seq<RouterAction>
    decreases frames.len(),
{
    if frames.len() == 0 {
        Seq::empty()
    } else {
        let step = spec_route(RouterState { active }, frames.first().0, frames.first().1);
        step.1 + spec_trace_actions(step.0.active, frames.drop_first())
    }
}

/// Evaluates the two action-list interpreters on a one-element list.
proof fn lemma_actions_one(running: Option<Page>, a: RouterAction)
    ensures
        spec_starts_only_when_idle(running, seq![a]) == (a is Start ==> running is None),
        spec_run_actions(running, seq![a]) == spec_after_action(running, a),
{
    reveal_with_fuel(spec_starts_only_when_idle, 2);
    reveal_with_fuel(spec_run_actions, 2);
    assert(seq![a].drop_first() =~= Seq::<RouterAction>::empty());
}

/// Evaluates the two action-list interpreters on a two-element list.
proof fn lemma_actions_two(running: Option<Page>, a: RouterAction, b: RouterAction)
    ensures
        spec_starts_only_when_idle(running, seq![a, b]) == ((a is Start ==> running is None) && (
        b is Start ==> spec_after_action(running, a) is None)),
        spec_run_actions(running, seq![a, b]) == spec_after_action(
            spec_after_action(running, a),
            b,
        ),
{
    assert(seq![a, b].drop_first() =~= seq![b]);
    lemma_actions_one(spec_after_action(running, a), b);
}

/// The serialization discipline splits over concatenation.
proof fn lemma_starts_only_when_idle_concat(
    running: Option<Page>,
    first: Seq<RouterAction>,
    second: Seq<RouterAction>,
)
    requires
        spec_starts_only_when_idle(running, first),
        spec_starts_only_when_idle(spec_run_actions(running, first), second),
    ensures
        spec_starts_only_when_idle(running, first + second),
    decreases first.len(),
{
    if first.len() == 0 {
        assert(first + second =~= second);
    } else {
        let running1 = spec_after_action(running, first.first());
        lemma_starts_only_when_idle_concat(running1, first.drop_first(), second);
        assert((first + second).first() == first.first());
        assert((first + second).drop_first() =~= first.drop_first() + second);
    }
}

/// One routing step keeps the discipline and tracks the running handler.
proof fn lemma_route_step_serialized(state: RouterState, frame: Option<Request>, authorized: bool)
    ensures
        spec_starts_only_when_idle(state.active, spec_route(state, frame, authorized).1),
        spec_route(state, frame, authorized).0.active == spec_run_actions(
            state.active,
            spec_route(state, frame, authorized).1,
        ),
{
    let step = spec_route(state, frame, authorized);
    if frame is None {
        assert(spec_starts_only_when_idle(state.active, Seq::<RouterAction>::empty()));
    } else if step.1 =~= Seq::<RouterAction>::empty() {
        assert(spec_starts_only_when_idle(state.active, Seq::<RouterAction>::empty()));
    } else if state.active is Some {
        let tail = step.1.last();
        if step.1.len() == 2 {
            assert(step.1 =~= seq![RouterAction::CancelActive, tail]);
            lemma_actions_two(state.active, RouterAction::CancelActive, tail);
        } else {
            assert(step.1 =~= seq![tail]);
            lemma_actions_one(state.active, tail);
        }
    } else {
        let tail = step.1.last();
        assert(step.1 =~= seq![tail]);
        lemma_actions_one(state.active, tail);
    }
}

/// However a connection's frames arrive, and whether or not each one is
/// authorized, the router's whole action trace starts a handler only while
/// none is running: at most one handler is observably producing output at
/// any time, and switching pages never interleaves two handlers' output.
pub proof fn lemma_single_active_handler(
    active: Option<Page>,
    frames: Seq<(Option<Request>, bool)>,
)
    ensures
        spec_starts_only_when_idle(active, spec_trace_actions(active, frames)),
    decreases frames.len(),
{
    if frames.len() > 0 {
        let step = spec_route(RouterState { active }, frames.first().0, frames.first().1);
        lemma_route_step_serialized(RouterState { active }, frames.first().0, frames.first().1);
        lemma_single_active_handler(step.0.active, frames.drop_first());
        lemma_starts_only_when_idle_concat(
            active,
            step.1,
            spec_trace_actions(step.0.active, frames.drop_first()),
        );
    }
}

} // verus!
