//! The authenticated-request session: cookie handling and the
//! single-retry rule on authentication failure.
//!
//! Every outbound request carries the cached cookie, as a cookie header
//! and as an authorization header. A 401 answer invalidates the cookie
//! and the request is resent once after reauthenticating; a second 401
//! in a row is fatal and is never retried again. The interactive
//! sign-in and the cookie file live outside the library; the decisions
//! live here.

use vstd::prelude::*;

verus! {

/// An authentication cookie: its name and opaque value.
pub struct AuthCookie {
    pub name: String,
    pub value: String,
}

impl AuthCookie {
    pub fn duplicate(&self) -> (r: AuthCookie)
        ensures
            r == *self,
    {
        AuthCookie { name: self.name.clone(), value: self.value.clone() }
    }
}

/// Holds the cached cookie and where a fresh one comes from: the login
/// page to open and the file the cookie persists in.
pub struct AuthService {
    pub cookie: Option<AuthCookie>,
    pub login_url: String,
    pub cookie_path: String,
}

/// What the caller must do to produce a cookie next.
pub enum AuthStep {
    /// A cookie is cached in memory; use it without prompting anyone.
    UseCookie(AuthCookie),
    /// Nothing cached: read the cookie file, then either store its
    /// cookie or run the interactive sign-in.
    ReadFromFile,
}

impl AuthService {
    pub open spec fn spec_cookie(self) -> Option<AuthCookie> {
        self.cookie
    }

    pub fn new(login_url: String, cookie_path: String) -> (r: AuthService)
        ensures
            r.login_url == login_url,
            r.cookie_path == cookie_path,
            r.spec_cookie() is None,
    {
        AuthService { cookie: None, login_url, cookie_path }
    }

    /// The next step towards a cookie: the cached one when present,
    /// else the cookie file (and only then an interactive sign-in).
    pub fn authenticate_step(&self) -> (r: AuthStep)
        ensures
            match self.spec_cookie() {
                Some(c) => r matches AuthStep::UseCookie(got) && got == c,
                None => r is ReadFromFile,
            },
    {
        match &self.cookie {
            Some(c) => AuthStep::UseCookie(c.duplicate()),
            None => AuthStep::ReadFromFile,
        }
    }

    /// Caches a cookie obtained from the file or from a sign-in.
    pub fn store_cookie(&mut self, c: AuthCookie)
        ensures
            final(self).spec_cookie() == Some(c),
            final(self).login_url == old(self).login_url,
            final(self).cookie_path == old(self).cookie_path,
    {
        self.cookie = Some(c);
    }

    /// Drops the cached cookie, as a 401 answer or a logout demands.
    pub fn clear_cookie(&mut self)
        ensures
            final(self).spec_cookie() is None,
            final(self).login_url == old(self).login_url,
            final(self).cookie_path == old(self).cookie_path,
    {
        self.cookie = None;
    }
}

/// Sends requests with authentication attached: owns the cookie state
/// and applies the single-retry rule through a `SendFlow` per request.
pub struct HttpService {
    pub auth: AuthService,
}

impl HttpService {
    pub fn new(auth: AuthService) -> (r: HttpService)
        ensures
            r.auth == auth,
    {
        HttpService { auth }
    }

    /// Starts the send of one request.
    pub fn begin_send(&self) -> (r: SendFlow)
        ensures
            r == (SendFlow { unauthorized_seen: 0, done: false }),
            r.wf(),
    {
        SendFlow::begin()
    }

    /// Decides on a response status for the running request. The first
    /// 401 drops the cached cookie so the resend reauthenticates; a
    /// second 401 in a row is fatal and discards the cookie for good.
    pub fn on_status(&mut self, flow: &mut SendFlow, status: u16) -> (r: SendDecision)
        requires
            old(flow).wf(),
            !old(flow).done,
        ensures
            final(flow).wf(),
            (*final(flow), r) == spec_send_transition(*old(flow), status),
            r is Reauthenticate || r is FatalAuthFailure ==> final(self).auth.spec_cookie()
                is None,
            r is Accept ==> final(self).auth == old(self).auth,
    {
        let d = flow.on_status(status);
        match d {
            SendDecision::Reauthenticate | SendDecision::FatalAuthFailure => {
                self.auth.clear_cookie();
            },
            SendDecision::Accept => {},
        }
        d
    }
}

/// The value of the cookie header: "name=value".
pub fn cookie_header_value(c: &AuthCookie) -> (r: String)
    ensures
        r@ == c.name@ + "="@ + c.value@,
{
    let mut out = c.name.clone();
    out.append("=");
    out.append(c.value.as_str());
    out
}

/// The value of the authorization header: "X-Cookie name".
pub fn authorization_header_value(c: &AuthCookie) -> (r: String)
    ensures
        r@ == "X-Cookie "@ + c.name@,
{
    let mut out = String::new();
    out.append("X-Cookie ");
    out.append(c.name.as_str());
    proof {
        assert(out@ =~= "X-Cookie "@ + c.name@);
    }
    out
}

/// What to do with a response status while sending one request.
#[derive(Clone, Copy, Debug, PartialEq, Eq, Structural)]
pub enum SendDecision {
    /// The response is final (any status but 401): hand it back.
    Accept,
    /// First 401: drop the cookie, reauthenticate, send once more.
    Reauthenticate,
    /// Second 401 in a row: give up; the caller must not try again.
    FatalAuthFailure,
}

/// Tracks one request through the send-once-retry-once rule.
#[derive(Clone, Copy, Debug, PartialEq, Eq, Structural)]
pub struct SendFlow {
    pub unauthorized_seen: u8,
    pub done: bool,
}

pub open spec fn spec_send_transition(s: SendFlow, status: u16) -> (SendFlow, SendDecision) {
    if status == 401 {
        if s.unauthorized_seen == 0 {
            (SendFlow { unauthorized_seen: 1, done: false }, SendDecision::Reauthenticate)
        } else {
            (SendFlow { unauthorized_seen: 2, done: true }, SendDecision::FatalAuthFailure)
        }
    } else {
        (SendFlow { unauthorized_seen: s.unauthorized_seen, done: true }, SendDecision::Accept)
    }
}

impl SendFlow {
    pub open spec fn wf(self) -> bool {
        self.unauthorized_seen <= 2 && (self.unauthorized_seen == 2 ==> self.done)
    }

    /// A fresh flow for one request: nothing sent, nothing refused yet.
    pub fn begin() -> (r: SendFlow)
        ensures
            r == (SendFlow { unauthorized_seen: 0, done: false }),
            r.wf(),
    {
        SendFlow { unauthorized_seen: 0, done: false }
    }

    /// Decides on a response status. The flow refuses further statuses
    /// once done, so no request is ever sent a third time.
    pub fn on_status(&mut self, status: u16) -> (r: SendDecision)
        requires
            old(self).wf(),
            !old(self).done,
        ensures
            final(self).wf(),
            (*final(self), r) == spec_send_transition(*old(self), status),
            r is Reauthenticate ==> !final(self).done,
            r is Accept || r is FatalAuthFailure ==> final(self).done,
    {
        if status == 401 {
            if self.unauthorized_seen == 0 {
                self.unauthorized_seen = 1;
                SendDecision::Reauthenticate
            } else {
                self.unauthorized_seen = 2;
                self.done = true;
                SendDecision::FatalAuthFailure
            }
        } else {
            self.done = true;
            SendDecision::Accept
        }
    }
}

/// Law: a session that answers 401 once reauthenticates and, when the
/// resent request succeeds, accepts; one that answers 401 twice in a
/// row fails fatally, and the flow is finished, so no third attempt can
/// be made.
pub proof fn lemma_session_single_retry(s0: SendFlow, second_status: u16)
    requires
        s0 == (SendFlow { unauthorized_seen: 0, done: false }),
    ensures
        spec_send_transition(s0, 401).1 is Reauthenticate,
        !spec_send_transition(s0, 401).0.done,
        ({
            let s1 = spec_send_transition(s0, 401).0;
            let (s2, d2) = spec_send_transition(s1, second_status);
            &&& (second_status == 401 ==> d2 is FatalAuthFailure)
            &&& (second_status != 401 ==> d2 is Accept)
            &&& s2.done
        }),
{
}

/// Law: a response other than 401 is accepted at once, with no
/// reauthentication and no resend.
pub proof fn lemma_session_no_retry_on_success(s0: SendFlow, status: u16)
    requires
        s0 == (SendFlow { unauthorized_seen: 0, done: false }),
        status != 401,
    ensures
        spec_send_transition(s0, status).1 is Accept,
        spec_send_transition(s0, status).0.done,
{
}

} // verus!
