//! The bot's own state and the decisions of its login and long-poll loops.
//!
//! The network calls, the waiting and the user's callbacks belong to the
//! caller, which runs each loop: it asks a function here what to do next,
//! does it, and hands back what came of it.

use crate::clock::time_representable;
use crate::error::WeChatBotError;
use crate::message::{parse_message, parsed_from};
use crate::types::{Credentials, IncomingMessage, MessageType, WireMessage};
use vstd::hash_map::StringHashMap;
use vstd::prelude::*;

verus! {

/// The longest wait, in seconds, between two failed polls.
pub const MAX_RETRY_DELAY_SECS: u64 = 10u64;

/// The wait, in seconds, between two polls of a QR code's status.
pub const QR_POLL_INTERVAL_SECS: u64 = 2u64;

/// The abstract state of a bot.
pub struct BotView {
    /// The credentials of the session, once logged in.
    pub credentials: Option<Credentials>,
    /// The last conversation token seen for each user.
    pub tokens: Map<Seq<char>, String>,
    /// Where the next poll for updates starts.
    pub cursor: Seq<char>,
    /// The API endpoint that the bot talks to.
    pub base_url: Seq<char>,
    /// Whether the long-poll loop has been asked to stop.
    pub stopped: bool,
}

/// The state that a bot keeps between calls.
pub struct BotState {
    credentials: Option<Credentials>,
    context_tokens: StringHashMap<String>,
    cursor: String,
    base_url: String,
    stopped: bool,
}

impl View for BotState {
    type V = BotView;

    closed spec fn view(&self) -> BotView {
        BotView {
            credentials: self.credentials,
            tokens: self.context_tokens@,
            cursor: self.cursor@,
            base_url: self.base_url@,
            stopped: self.stopped,
        }
    }
}

/// The user whose conversation a wire message belongs to: the sender of a
/// user's message, the recipient of the bot's own.
pub open spec fn conversation_user(wire: WireMessage) -> Seq<char> {
    if wire.message_type == MessageType::User {
        wire.from_user_id@
    } else {
        wire.to_user_id@
    }
}

/// The conversation tokens after seeing `wire`: its token is kept for its
/// conversation's user, when neither is empty.
pub open spec fn remember_spec(tokens: Map<Seq<char>, String>, wire: WireMessage) -> Map<
    Seq<char>,
    String,
> {
    if conversation_user(wire).len() > 0 && wire.context_token@.len() > 0 {
        tokens.insert(conversation_user(wire), wire.context_token)
    } else {
        tokens
    }
}

/// What the next turn of the long-poll loop does.
pub enum PollPlan {
    /// The loop was asked to stop: it ends.
    Stop,
    /// There are no credentials: the loop ends with an `Auth` error.
    NotLoggedIn,
    /// Poll for updates with these credentials, from this cursor.
    Poll { base_url: String, token: String, cursor: Seq<char> },
}

/// The next turn of the long-poll loop in state `s`.
pub open spec fn poll_plan(s: BotView) -> PollPlan {
    if s.stopped {
        PollPlan::Stop
    } else {
        match s.credentials {
            None => PollPlan::NotLoggedIn,
            Some(c) => PollPlan::Poll { base_url: c.base_url, token: c.token, cursor: s.cursor },
        }
    }
}

/// The conversation token that a send to `user` uses in state `s`, if any.
pub open spec fn known_context(s: BotView, user: Seq<char>) -> Option<String> {
    if s.tokens.contains_key(user) {
        Some(s.tokens[user])
    } else {
        None
    }
}

/// The state after taking `creds` as the session's credentials.
pub open spec fn adopted(s: BotView, creds: Credentials) -> BotView {
    BotView { credentials: Some(creds), base_url: creds.base_url@, ..s }
}

/// The state after keeping the conversation token of `msg`, before a reply to it.
pub open spec fn with_reply_context(s: BotView, msg: IncomingMessage) -> BotView {
    BotView { tokens: s.tokens.insert(msg.user_id@, msg.context_token), ..s }
}

/// The state after seeing the wire message `wire`.
pub open spec fn after_receive(s: BotView, wire: WireMessage) -> BotView {
    BotView { tokens: remember_spec(s.tokens, wire), ..s }
}

/// The state after a successful poll that answered `get_updates_buf`.
pub open spec fn after_updates(s: BotView, get_updates_buf: Seq<char>) -> BotView {
    BotView {
        cursor: if get_updates_buf.len() > 0 {
            get_updates_buf
        } else {
            s.cursor
        },
        ..s
    }
}

/// The state after a poll found the session expired.
pub open spec fn after_expiry(s: BotView) -> BotView {
    BotView { tokens: Map::empty(), cursor: Seq::empty(), ..s }
}

/// How a poll for updates ended.
pub enum PollOutcome {
    /// It succeeded, answering this `get_updates_buf`.
    Updates(Seq<char>),
    /// The session had expired.
    Expired,
    /// It failed otherwise.
    Failed,
}

/// The state after a poll that ended with `o`.
pub open spec fn after_outcome(s: BotView, o: PollOutcome) -> BotView {
    match o {
        PollOutcome::Updates(buf) => after_updates(s, buf),
        PollOutcome::Expired => after_expiry(s),
        PollOutcome::Failed => s,
    }
}

/// The state after polls that ended with `os`, in order.
pub open spec fn after_outcomes(s: BotView, os: Seq<PollOutcome>) -> BotView
    decreases os.len(),
{
    if os.len() == 0 {
        s
    } else {
        after_outcome(after_outcomes(s, os.drop_last()), os.last())
    }
}

/// An outcome that sets the cursor: an expiry, or updates with a non-empty buffer.
pub open spec fn sets_cursor(o: PollOutcome) -> bool {
    match o {
        PollOutcome::Updates(buf) => buf.len() > 0,
        PollOutcome::Expired => true,
        PollOutcome::Failed => false,
    }
}

/// The cursor that an outcome which sets it leaves.
pub open spec fn cursor_set_by(o: PollOutcome) -> Seq<char> {
    match o {
        PollOutcome::Updates(buf) => buf,
        _ => Seq::empty(),
    }
}

/// What a poll for updates is made with.
pub struct PollRequest {
    pub base_url: String,
    pub token: String,
    pub cursor: String,
}

/// What the long-poll loop does after a failed poll.
pub enum PollErrorAction {
    /// The session expired: log in again, then poll.
    Relogin,
    /// Report the error, wait this many seconds, then poll again.
    Backoff { delay_secs: u64 },
}

/// The wait after a failed poll that follows a wait of `d` seconds.
pub open spec fn next_delay(d: u64) -> u64 {
    if 2 * d < MAX_RETRY_DELAY_SECS {
        (2 * d) as u64
    } else {
        MAX_RETRY_DELAY_SECS
    }
}

/// The wait of the long-poll loop after consecutive failed polls: one second
/// at first, doubled after each failure, at most `MAX_RETRY_DELAY_SECS`.
pub struct RetryBackoff {
    delay_secs: u64,
}

impl RetryBackoff {
    #[verifier::type_invariant]
    spec fn within_bounds(self) -> bool {
        1 <= self.delay_secs <= MAX_RETRY_DELAY_SECS
    }

    /// The wait, in seconds, before the next poll after a failure.
    pub closed spec fn delay(&self) -> u64 {
        self.delay_secs
    }

    pub fn new() -> (b: RetryBackoff)
        ensures
            b.delay() == 1,
    {
        RetryBackoff { delay_secs: 1 }
    }

    /// After a successful poll the wait starts again at one second.
    pub fn reset(&mut self)
        ensures
            final(self).delay() == 1,
    {
        self.delay_secs = 1;
    }

    /// The wait for this failure; the next failure waits twice as long, at
    /// most `MAX_RETRY_DELAY_SECS`.
    pub fn advance(&mut self) -> (d: u64)
        ensures
            d == old(self).delay(),
            final(self).delay() == next_delay(old(self).delay()),
            1 <= d <= MAX_RETRY_DELAY_SECS,
    {
        proof {
            use_type_invariant(&*self);
        }
        let d = self.delay_secs;
        self.delay_secs = if 2 * d < MAX_RETRY_DELAY_SECS {
            2 * d
        } else {
            MAX_RETRY_DELAY_SECS
        };
        d
    }

    pub fn delay_secs(&self) -> (d: u64)
        ensures
            d == self.delay(),
            1 <= d <= MAX_RETRY_DELAY_SECS,
    {
        proof {
            use_type_invariant(self);
        }
        self.delay_secs
    }
}

impl BotState {
    /// A bot that is not logged in, talks to `base_url` (`default_base_url`
    /// when none is given), knows no conversation and polls from the start.
    pub fn new(base_url: Option<String>, default_base_url: String) -> (s: BotState)
        ensures
            s@.credentials is None,
            s@.tokens == Map::<Seq<char>, String>::empty(),
            s@.cursor == Seq::<char>::empty(),
            s@.base_url == (match base_url {
                Some(u) => u@,
                None => default_base_url@,
            }),
            !s@.stopped,
    {
        BotState {
            credentials: None,
            context_tokens: StringHashMap::new(),
            cursor: String::new(),
            base_url: match base_url {
                Some(u) => u,
                None => default_base_url,
            },
            stopped: false,
        }
    }

    /// The API endpoint that the bot talks to.
    pub fn base_url(&self) -> (u: String)
        ensures
            u@ == self@.base_url,
    {
        self.base_url.clone()
    }

    /// The credentials of the session, if logged in.
    pub fn credentials(&self) -> (c: Option<Credentials>)
        ensures
            c == self@.credentials,
    {
        self.credentials.clone()
    }

    /// Takes `creds` as the session's credentials, and their endpoint as the bot's.
    pub fn adopt_credentials(&mut self, creds: Credentials)
        ensures
            final(self)@ == adopted(old(self)@, creds),
    {
        self.base_url = creds.base_url.clone();
        self.credentials = Some(creds);
    }

    /// The endpoint and token to call the API with; an `Auth` error when not logged in.
    pub fn get_auth(&self) -> (r: Result<(String, String), WeChatBotError>)
        ensures
            match self@.credentials {
                Some(c) => r matches Ok((u, t)) && u == c.base_url && t == c.token,
                None => r matches Err(WeChatBotError::Auth(m)) && m@ == "not logged in"@,
            },
    {
        match &self.credentials {
            Some(c) => Ok((c.base_url.clone(), c.token.clone())),
            None => Err(WeChatBotError::Auth(String::from_str("not logged in"))),
        }
    }

    /// The conversation token to send to `user_id` with; a `NoContext` error
    /// when none has been seen.
    pub fn context_for(&self, user_id: &str) -> (r: Result<String, WeChatBotError>)
        ensures
            match known_context(self@, user_id@) {
                Some(t) => r matches Ok(x) && x == t,
                None => r matches Err(WeChatBotError::NoContext(u)) && u@ == user_id@,
            },
    {
        match self.context_tokens.get(user_id) {
            Some(t) => Ok(t.clone()),
            None => Err(WeChatBotError::NoContext(user_id.to_string())),
        }
    }

    /// Keeps the conversation token of `msg` for its sender, before a reply to it.
    pub fn remember_reply_context(&mut self, msg: &IncomingMessage)
        ensures
            final(self)@ == with_reply_context(old(self)@, *msg),
    {
        self.context_tokens.insert(msg.user_id.clone(), msg.context_token.clone());
    }

    /// Keeps the conversation token of `wire` for its conversation's user (see `remember_spec`).
    pub fn remember_context(&mut self, wire: &WireMessage)
        ensures
            final(self)@ == after_receive(old(self)@, *wire),
    {
        let user_id = if wire.message_type == MessageType::User {
            &wire.from_user_id
        } else {
            &wire.to_user_id
        };
        if !user_id.as_str().is_empty() && !wire.context_token.as_str().is_empty() {
            self.context_tokens.insert(user_id.clone(), wire.context_token.clone());
        }
    }

    /// Whether the long-poll loop has been asked to stop.
    pub fn is_stopped(&self) -> (b: bool)
        ensures
            b == self@.stopped,
    {
        self.stopped
    }

    /// Asks the long-poll loop to stop.
    pub fn stop(&mut self)
        ensures
            final(self)@ == (BotView { stopped: true, ..old(self)@ }),
    {
        self.stopped = true;
    }

    /// The long-poll loop starts: it runs until asked to stop.
    pub fn start_run(&mut self)
        ensures
            final(self)@ == (BotView { stopped: false, ..old(self)@ }),
    {
        self.stopped = false;
    }

    /// The next step of the long-poll loop: `None` to end the loop when asked
    /// to stop, else the poll to make, or an `Auth` error when not logged in.
    pub fn next_poll(&self) -> (r: Result<Option<PollRequest>, WeChatBotError>)
        ensures
            match poll_plan(self@) {
                PollPlan::Stop => r matches Ok(None),
                PollPlan::NotLoggedIn => r matches Err(WeChatBotError::Auth(m)) && m@
                    == "not logged in"@,
                PollPlan::Poll { base_url, token, cursor } => r matches Ok(Some(p)) && p.base_url
                    == base_url && p.token == token && p.cursor@ == cursor,
            },
    {
        if self.stopped {
            return Ok(None);
        }
        let (base_url, token) = match self.get_auth() {
            Ok(auth) => auth,
            Err(e) => return Err(e),
        };
        Ok(Some(PollRequest { base_url, token, cursor: self.cursor.clone() }))
    }

    /// A poll succeeded: the cursor moves on to `get_updates_buf` unless it is
    /// empty, and the wait after failures starts again at one second.
    pub fn accept_updates(&mut self, backoff: &mut RetryBackoff, get_updates_buf: String)
        ensures
            final(self)@ == after_updates(old(self)@, get_updates_buf@),
            final(backoff).delay() == 1,
    {
        if !get_updates_buf.as_str().is_empty() {
            self.cursor = get_updates_buf;
        }
        backoff.reset();
    }

    /// A message arrived: its conversation token is kept, and a user's message
    /// is parsed for the handlers (see `parse_message`).
    pub fn receive(&mut self, wire: &WireMessage) -> (r: Option<IncomingMessage>)
        ensures
            final(self)@ == after_receive(old(self)@, *wire),
            wire.message_type != MessageType::User ==> r is None,
            wire.message_type == MessageType::User && time_representable(
                wire.create_time_ms as u64,
            ) ==> r is Some,
            r matches Some(m) ==> parsed_from(m, *wire),
    {
        self.remember_context(wire);
        parse_message(wire)
    }

    /// A poll failed. An expired session forgets every conversation token and
    /// the cursor, and logs in again; any other failure waits, longer each time.
    pub fn handle_poll_error(&mut self, backoff: &mut RetryBackoff, session_expired: bool) -> (a:
        PollErrorAction)
        ensures
            session_expired ==> a is Relogin && final(self)@ == after_expiry(old(self)@)
                && final(backoff).delay() == old(backoff).delay(),
            !session_expired ==> a == (PollErrorAction::Backoff { delay_secs: old(backoff).delay() })
                && final(self)@ == old(self)@ && final(backoff).delay() == next_delay(
                old(backoff).delay(),
            ),
    {
        if session_expired {
            self.context_tokens.clear();
            self.cursor = String::new();
            PollErrorAction::Relogin
        } else {
            let d = backoff.advance();
            PollErrorAction::Backoff { delay_secs: d }
        }
    }
}

/// The answer of the API to a poll of a QR code's login status.
pub struct QrStatus {
    pub status: String,
    pub bot_token: Option<String>,
    pub baseurl: Option<String>,
    pub ilink_bot_id: Option<String>,
    pub ilink_user_id: Option<String>,
}

/// What the login loop does with the status of its QR code.
pub enum QrDecision {
    /// The login was confirmed with these credentials: save and adopt them.
    Confirmed(Credentials),
    /// The code expired: ask for a new one.
    Expired,
    /// Nothing yet: wait `QR_POLL_INTERVAL_SECS` seconds and poll again.
    Pending,
}

/// The text of an optional string, empty where there is none.
pub open spec fn text_or_empty(s: Option<String>) -> Seq<char> {
    match s {
        Some(t) => t@,
        None => Seq::empty(),
    }
}

/// The credentials that a confirmed login gives: its token, the endpoint it
/// names (else `base_url`), its account and user (else empty), and `saved_at`;
/// an `Auth` error when it carries no token.
pub fn credentials_from_status(status: &QrStatus, base_url: &String, saved_at: Option<String>) -> (r:
    Result<Credentials, WeChatBotError>)
    ensures
        status.bot_token is None ==> (r matches Err(WeChatBotError::Auth(m)) && m@
            == "missing bot_token"@),
        status.bot_token matches Some(token) ==> (r matches Ok(c) && c.token == token
            && c.base_url == (match status.baseurl {
            Some(u) => u,
            None => *base_url,
        }) && c.account_id@ == text_or_empty(status.ilink_bot_id) && c.user_id@ == text_or_empty(
            status.ilink_user_id,
        ) && c.saved_at == saved_at),
{
    let token = match &status.bot_token {
        Some(t) => t.clone(),
        None => return Err(WeChatBotError::Auth(String::from_str("missing bot_token"))),
    };
    let base = match &status.baseurl {
        Some(u) => u.clone(),
        None => base_url.clone(),
    };
    let account_id = match &status.ilink_bot_id {
        Some(a) => a.clone(),
        None => String::new(),
    };
    let user_id = match &status.ilink_user_id {
        Some(u) => u.clone(),
        None => String::new(),
    };
    Ok(Credentials { token, base_url: base, account_id, user_id, saved_at })
}

/// What the login loop does on `status`: a confirmed login gives credentials
/// (see `credentials_from_status`) stamped with `saved_at`, the current time
/// stamp (see `chrono_now`), an expired code asks for a new one, and any other
/// status waits.
pub fn decide_qr_status(status: &QrStatus, base_url: &String, saved_at: Option<String>) -> (r:
    Result<QrDecision, WeChatBotError>)
    ensures
        status.status@ == "confirmed"@ ==> {
            &&& status.bot_token is None ==> (r matches Err(WeChatBotError::Auth(m)) && m@
                == "missing bot_token"@)
            &&& status.bot_token matches Some(token) ==> (r matches Ok(QrDecision::Confirmed(c))
                && c.token == token && c.base_url == (match status.baseurl {
                Some(u) => u,
                None => *base_url,
            }) && c.account_id@ == text_or_empty(status.ilink_bot_id) && c.user_id@
                == text_or_empty(status.ilink_user_id) && c.saved_at == saved_at)
        },
        status.status@ == "expired"@ ==> r matches Ok(QrDecision::Expired),
        status.status@ != "confirmed"@ && status.status@ != "expired"@ ==> r matches Ok(
            QrDecision::Pending,
        ),
{
    proof {
        reveal_strlit("confirmed");
        reveal_strlit("expired");
        assert("expired"@.len() != "confirmed"@.len());
    }
    let confirmed = String::from_str("confirmed");
    let expired = String::from_str("expired");
    if status.status == confirmed {
        match credentials_from_status(status, base_url, saved_at) {
            Ok(c) => Ok(QrDecision::Confirmed(c)),
            Err(e) => Err(e),
        }
    } else if status.status == expired {
        Ok(QrDecision::Expired)
    } else {
        Ok(QrDecision::Pending)
    }
}

// ---------------------------------------------------------------------------
// Laws.
// ---------------------------------------------------------------------------

/// Once a message with a non-empty user and token has been seen, sending to
/// that user uses its token; sending to every other user uses what it used before.
pub proof fn lemma_seen_context_is_used(s: BotView, wire: WireMessage, u: Seq<char>)
    requires
        conversation_user(wire).len() > 0,
        wire.context_token@.len() > 0,
    ensures
        known_context(after_receive(s, wire), conversation_user(wire)) == Some(wire.context_token),
        u != conversation_user(wire) ==> known_context(after_receive(s, wire), u) == known_context(
            s,
            u,
        ),
{
}

/// A message with an empty user or token changes nothing.
pub proof fn lemma_incomplete_context_is_ignored(s: BotView, wire: WireMessage)
    requires
        conversation_user(wire).len() == 0 || wire.context_token@.len() == 0,
    ensures
        after_receive(s, wire) == s,
{
}

/// After replying to a message, a later send to its sender uses the
/// message's conversation token, and a send to any other user uses the token
/// it used before.
pub proof fn lemma_reply_context_is_used(s: BotView, msg: IncomingMessage, u: Seq<char>)
    ensures
        known_context(with_reply_context(s, msg), msg.user_id@) == Some(msg.context_token),
        u != msg.user_id@ ==> known_context(with_reply_context(s, msg), u) == known_context(s, u),
{
}

/// After a login, the next poll of a running loop is made with the new
/// credentials, at the endpoint they name, from the cursor the bot had.
pub proof fn lemma_login_then_poll(s: BotView, creds: Credentials)
    requires
        !s.stopped,
    ensures
        poll_plan(adopted(s, creds)) == (PollPlan::Poll {
            base_url: creds.base_url,
            token: creds.token,
            cursor: s.cursor,
        }),
{
}

/// After the session expires no user has a conversation token until a new
/// message is seen, and the next poll of a running, logged-in loop starts
/// from the beginning.
pub proof fn lemma_expired_session_forgets(s: BotView, u: Seq<char>)
    ensures
        known_context(after_expiry(s), u) is None,
        poll_plan(after_expiry(s)) matches PollPlan::Poll { cursor, .. } ==> cursor.len() == 0,
        poll_plan(after_expiry(s)) is Poll <==> poll_plan(s) is Poll,
{
}

/// Over a run of polls, each poll is made from the buffer of the latest
/// successful poll with a non-empty buffer since the latest session expiry,
/// from the empty cursor where a session expired after every such poll, and
/// from the cursor the bot had where no poll set it.
pub proof fn lemma_cursor_over_polls(s: BotView, os: Seq<PollOutcome>)
    ensures
        forall|k: int|
            0 <= k < os.len() && sets_cursor(#[trigger] os[k]) && (forall|j: int|
                k < j < os.len() ==> !sets_cursor(#[trigger] os[j])) ==> after_outcomes(s, os).cursor
                == cursor_set_by(os[k]),
        (forall|j: int| 0 <= j < os.len() ==> !sets_cursor(#[trigger] os[j])) ==> after_outcomes(
            s,
            os,
        ).cursor == s.cursor,
        poll_plan(after_outcomes(s, os)) matches PollPlan::Poll { cursor, .. } ==> cursor
            == after_outcomes(s, os).cursor,
        after_outcomes(s, os).credentials == s.credentials,
        after_outcomes(s, os).stopped == s.stopped,
    decreases os.len(),
{
    if os.len() > 0 {
        let init = os.drop_last();
        lemma_cursor_over_polls(s, init);
        let last = os.last();
        assert forall|k: int|
            0 <= k < os.len() && sets_cursor(#[trigger] os[k]) && (forall|j: int|
                k < j < os.len() ==> !sets_cursor(#[trigger] os[j])) implies after_outcomes(
            s,
            os,
        ).cursor == cursor_set_by(os[k]) by {
            if k < os.len() - 1 {
                assert(!sets_cursor(os[os.len() - 1]));
                assert(init[k] == os[k]);
                assert forall|j: int| k < j < init.len() implies !sets_cursor(#[trigger] init[j]) by {
                    assert(init[j] == os[j]);
                }
            }
        }
        if forall|j: int| 0 <= j < os.len() ==> !sets_cursor(#[trigger] os[j]) {
            assert(!sets_cursor(os[os.len() - 1]));
            assert forall|j: int| 0 <= j < init.len() implies !sets_cursor(#[trigger] init[j]) by {
                assert(init[j] == os[j]);
            }
        }
    }
}

/// The wait after `n` consecutive failed polls.
pub open spec fn delay_after_failures(n: nat) -> u64
    decreases n,
{
    if n == 0 {
        1
    } else {
        next_delay(delay_after_failures((n - 1) as nat))
    }
}

/// The waits between failed polls are 1, 2, 4 and 8 seconds, then 10 seconds
/// for every failure after that.
pub proof fn lemma_backoff_sequence(n: nat)
    ensures
        n == 0 ==> delay_after_failures(n) == 1,
        n == 1 ==> delay_after_failures(n) == 2,
        n == 2 ==> delay_after_failures(n) == 4,
        n == 3 ==> delay_after_failures(n) == 8,
        n >= 4 ==> delay_after_failures(n) == MAX_RETRY_DELAY_SECS,
    decreases n,
{
    if n > 0 {
        lemma_backoff_sequence((n - 1) as nat);
    }
}

/// The wait never shrinks while polls keep failing, and stays between one
/// second and `MAX_RETRY_DELAY_SECS`.
pub proof fn lemma_backoff_bounded(d: u64)
    requires
        1 <= d <= MAX_RETRY_DELAY_SECS,
    ensures
        d <= next_delay(d),
        1 <= next_delay(d) <= MAX_RETRY_DELAY_SECS,
{
}

} // verus!
