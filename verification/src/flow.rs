//! How a request is carried to the upstream: which account it is sent with, when
//! a token is refreshed, and what the client is answered. The callers do the
//! sending; they report each outcome and do what they are told next.

use vstd::prelude::*;

use crate::text::concat;

verus! {

/// What the caller reports.
#[derive(Debug)]
pub enum FlowEvent {
    /// No answer came, with a message that says why.
    Failed(String),
    /// An answer with this status came.
    Answered(u16),
    /// The token was refreshed.
    Refreshed,
    /// The token could not be refreshed.
    NotRefreshed,
    /// The body of the answer was read; the flag says whether an answer with
    /// that status lets another account be tried.
    Body(String, bool),
}

/// What the caller is to do next.
#[derive(Debug)]
pub enum FlowAction {
    /// Send the request with the account of this index.
    Send(usize),
    /// Refresh the token of the account of this index.
    Refresh(usize),
    /// Send the request again, with the refreshed token of this account.
    Resend(usize),
    /// Hand the answer that came last to the client.
    Deliver,
    /// Read the body of the answer that came last.
    ReadBody,
    /// Answer the client with a status and an error message.
    Reply(u16, String),
    /// Nothing: the report does not belong to what was asked for.
    Wait,
}

/// What is reported.
pub enum EventSpec {
    Failed(Seq<char>),
    Answered(u16),
    Refreshed,
    NotRefreshed,
    Body(Seq<char>, bool),
}

/// What is to be done.
#[verifier::ext_equal]
pub enum ActionSpec {
    Send(usize),
    Refresh(usize),
    Resend(usize),
    Deliver,
    ReadBody,
    Reply(u16, Seq<char>),
    Wait,
}

impl View for FlowEvent {
    type V = EventSpec;

    open spec fn view(&self) -> EventSpec {
        match *self {
            FlowEvent::Failed(m) => EventSpec::Failed(m@),
            FlowEvent::Answered(s) => EventSpec::Answered(s),
            FlowEvent::Refreshed => EventSpec::Refreshed,
            FlowEvent::NotRefreshed => EventSpec::NotRefreshed,
            FlowEvent::Body(t, f) => EventSpec::Body(t@, f),
        }
    }
}

impl View for FlowAction {
    type V = ActionSpec;

    open spec fn view(&self) -> ActionSpec {
        match *self {
            FlowAction::Send(i) => ActionSpec::Send(i),
            FlowAction::Refresh(i) => ActionSpec::Refresh(i),
            FlowAction::Resend(i) => ActionSpec::Resend(i),
            FlowAction::Deliver => ActionSpec::Deliver,
            FlowAction::ReadBody => ActionSpec::ReadBody,
            FlowAction::Reply(s, m) => ActionSpec::Reply(s, m@),
            FlowAction::Wait => ActionSpec::Wait,
        }
    }
}

/// What a request waits for.
#[derive(Debug, Clone, Copy, PartialEq, Eq, Structural)]
pub enum Phase {
    Sending,
    Refreshing,
    Resending,
    /// The body of an answer with this status.
    Reading(u16),
    Finished,
}

/// Whether a status reports success.
pub open spec fn is_success(status: u16) -> bool {
    200 <= status < 300
}

// ---- several accounts -------------------------------------------------

/// A request that may be sent with one account after the other.
#[derive(Debug, Clone, Copy, PartialEq, Eq, Structural)]
pub struct AccountFlow {
    /// The number of accounts.
    pub count: usize,
    /// The account that is used.
    pub index: usize,
    pub phase: Phase,
}

impl AccountFlow {
    /// Whether there is another account to try.
    pub open spec fn has_next(self) -> bool {
        self.index + 1 < self.count
    }

    /// The flow in another phase.
    pub open spec fn at(self, phase: Phase) -> AccountFlow {
        AccountFlow { phase, ..self }
    }

    /// The next account is tried, where there is one, else the client is
    /// answered.
    pub open spec fn next_or(self, status: u16, message: Seq<char>) -> (AccountFlow, ActionSpec) {
        if self.has_next() {
            let next = (self.index + 1) as usize;
            (
                AccountFlow { count: self.count, index: next, phase: Phase::Sending },
                ActionSpec::Send(next),
            )
        } else {
            (self.at(Phase::Finished), ActionSpec::Reply(status, message))
        }
    }

    /// A success is handed to the client; of a failure the body is read.
    pub open spec fn conclude(self, status: u16) -> (AccountFlow, ActionSpec) {
        if is_success(status) {
            (self.at(Phase::Finished), ActionSpec::Deliver)
        } else {
            (self.at(Phase::Reading(status)), ActionSpec::ReadBody)
        }
    }

    /// The flow after a report, and what is to be done.
    pub open spec fn step(self, event: EventSpec) -> (AccountFlow, ActionSpec) {
        match (self.phase, event) {
            (Phase::Sending, EventSpec::Failed(m)) => self.next_or(
                502,
                "Upstream request failed: "@ + m,
            ),
            (Phase::Sending, EventSpec::Answered(s)) => if s == 401 {
                (self.at(Phase::Refreshing), ActionSpec::Refresh(self.index))
            } else {
                self.conclude(s)
            },
            (Phase::Refreshing, EventSpec::Refreshed) => (
                self.at(Phase::Resending),
                ActionSpec::Resend(self.index),
            ),
            (Phase::Refreshing, EventSpec::NotRefreshed) => self.conclude(401),
            (Phase::Resending, EventSpec::Failed(m)) => self.next_or(502, "Retry failed: "@ + m),
            (Phase::Resending, EventSpec::Answered(s)) => self.conclude(s),
            (Phase::Reading(s), EventSpec::Body(text, fallback)) => if fallback {
                self.next_or(s, text)
            } else {
                (self.at(Phase::Finished), ActionSpec::Reply(s, text))
            },
            _ => (self, ActionSpec::Wait),
        }
    }

    /// The flow at its start, and what is to be done first.
    pub open spec fn started(count: usize) -> (AccountFlow, ActionSpec) {
        if count > 0 {
            (AccountFlow { count, index: 0, phase: Phase::Sending }, ActionSpec::Send(0))
        } else {
            (
                AccountFlow { count, index: 0, phase: Phase::Finished },
                ActionSpec::Reply(401, "No configured auth accounts are usable"@),
            )
        }
    }

    /// Starts a request that can be sent with `count` accounts.
    pub fn start(count: usize) -> (r: (AccountFlow, FlowAction))
        ensures
            (r.0, r.1@) == AccountFlow::started(count),
    {
        if count > 0 {
            (AccountFlow { count, index: 0, phase: Phase::Sending }, FlowAction::Send(0))
        } else {
            (
                AccountFlow { count, index: 0, phase: Phase::Finished },
                FlowAction::Reply(401, "No configured auth accounts are usable".to_owned()),
            )
        }
    }

    /// Tries the next account, or answers the client.
    fn try_next(&mut self, status: u16, message: String) -> (r: FlowAction)
        ensures
            (*final(self), r@) == old(self).next_or(status, message@),
    {
        if self.index < self.count && self.index + 1 < self.count {
            self.index = self.index + 1;
            self.phase = Phase::Sending;
            FlowAction::Send(self.index)
        } else {
            self.phase = Phase::Finished;
            FlowAction::Reply(status, message)
        }
    }

    /// Takes up an answer that is not refreshed for.
    fn take_up(&mut self, status: u16) -> (r: FlowAction)
        ensures
            (*final(self), r@) == old(self).conclude(status),
    {
        if 200 <= status && status < 300 {
            self.phase = Phase::Finished;
            FlowAction::Deliver
        } else {
            self.phase = Phase::Reading(status);
            FlowAction::ReadBody
        }
    }

    /// Takes up a report, and says what is to be done.
    pub fn report(&mut self, event: FlowEvent) -> (r: FlowAction)
        ensures
            (*final(self), r@) == old(self).step(event@),
    {
        match (self.phase, event) {
            (Phase::Sending, FlowEvent::Failed(m)) => {
                let message = concat("Upstream request failed: ", m.as_str());
                self.try_next(502, message)
            },
            (Phase::Sending, FlowEvent::Answered(s)) => if s == 401 {
                self.phase = Phase::Refreshing;
                FlowAction::Refresh(self.index)
            } else {
                self.take_up(s)
            },
            (Phase::Refreshing, FlowEvent::Refreshed) => {
                self.phase = Phase::Resending;
                FlowAction::Resend(self.index)
            },
            (Phase::Refreshing, FlowEvent::NotRefreshed) => self.take_up(401),
            (Phase::Resending, FlowEvent::Failed(m)) => {
                let message = concat("Retry failed: ", m.as_str());
                self.try_next(502, message)
            },
            (Phase::Resending, FlowEvent::Answered(s)) => self.take_up(s),
            (Phase::Reading(s), FlowEvent::Body(text, fallback)) => if fallback {
                self.try_next(s, text)
            } else {
                self.phase = Phase::Finished;
                FlowAction::Reply(s, text)
            },
            _ => FlowAction::Wait,
        }
    }
}

// ---- one account ------------------------------------------------------

/// A request that is sent with one account. Where it is strict, an answer 401
/// that no token could be refreshed for is replaced by an error of its own.
#[derive(Debug, Clone, Copy, PartialEq, Eq, Structural)]
pub struct RetryFlow {
    pub strict: bool,
    pub phase: Phase,
}

impl RetryFlow {
    /// The flow in another phase.
    pub open spec fn at(self, phase: Phase) -> RetryFlow {
        RetryFlow { phase, ..self }
    }

    /// The flow after a report, and what is to be done.
    pub open spec fn step(self, event: EventSpec) -> (RetryFlow, ActionSpec) {
        match (self.phase, event) {
            (Phase::Sending, EventSpec::Failed(m)) => (
                self.at(Phase::Finished),
                ActionSpec::Reply(502, "Upstream request failed: "@ + m),
            ),
            (Phase::Sending, EventSpec::Answered(s)) => if s == 401 {
                (self.at(Phase::Refreshing), ActionSpec::Refresh(0))
            } else {
                (self.at(Phase::Finished), ActionSpec::Deliver)
            },
            (Phase::Refreshing, EventSpec::Refreshed) => (
                self.at(Phase::Resending),
                ActionSpec::Resend(0),
            ),
            (Phase::Refreshing, EventSpec::NotRefreshed) => (
                self.at(Phase::Finished),
                if self.strict {
                    ActionSpec::Reply(401, "Token refresh failed"@)
                } else {
                    ActionSpec::Deliver
                },
            ),
            (Phase::Resending, EventSpec::Failed(m)) => (
                self.at(Phase::Finished),
                ActionSpec::Reply(502, "Retry upstream request failed: "@ + m),
            ),
            (Phase::Resending, EventSpec::Answered(s)) => (
                self.at(Phase::Finished),
                ActionSpec::Deliver,
            ),
            _ => (self, ActionSpec::Wait),
        }
    }

    /// Starts a request; it is to be sent.
    pub fn start(strict: bool) -> (r: RetryFlow)
        ensures
            r == (RetryFlow { strict, phase: Phase::Sending }),
    {
        RetryFlow { strict, phase: Phase::Sending }
    }

    /// Takes up a report, and says what is to be done.
    pub fn report(&mut self, event: FlowEvent) -> (r: FlowAction)
        ensures
            (*final(self), r@) == old(self).step(event@),
    {
        match (self.phase, event) {
            (Phase::Sending, FlowEvent::Failed(m)) => {
                self.phase = Phase::Finished;
                FlowAction::Reply(502, concat("Upstream request failed: ", m.as_str()))
            },
            (Phase::Sending, FlowEvent::Answered(s)) => if s == 401 {
                self.phase = Phase::Refreshing;
                FlowAction::Refresh(0)
            } else {
                self.phase = Phase::Finished;
                FlowAction::Deliver
            },
            (Phase::Refreshing, FlowEvent::Refreshed) => {
                self.phase = Phase::Resending;
                FlowAction::Resend(0)
            },
            (Phase::Refreshing, FlowEvent::NotRefreshed) => {
                self.phase = Phase::Finished;
                if self.strict {
                    FlowAction::Reply(401, "Token refresh failed".to_owned())
                } else {
                    FlowAction::Deliver
                }
            },
            (Phase::Resending, FlowEvent::Failed(m)) => {
                self.phase = Phase::Finished;
                FlowAction::Reply(502, concat("Retry upstream request failed: ", m.as_str()))
            },
            (Phase::Resending, FlowEvent::Answered(s)) => {
                self.phase = Phase::Finished;
                FlowAction::Deliver
            },
            _ => FlowAction::Wait,
        }
    }
}

// ---- laws -------------------------------------------------------------

/// The flow after several reports.
pub open spec fn account_flow_after(f: AccountFlow, events: Seq<EventSpec>) -> AccountFlow
    decreases events.len(),
{
    if events.len() == 0 {
        f
    } else {
        account_flow_after(f, events.drop_last()).step(events.last()).0
    }
}

/// How often, over several reports, the request is sent again with account `i`.
pub open spec fn resends(f: AccountFlow, events: Seq<EventSpec>, i: usize) -> nat
    decreases events.len(),
{
    if events.len() == 0 {
        0
    } else {
        let before = resends(f, events.drop_last(), i);
        if account_flow_after(f, events.drop_last()).step(events.last()).1 == ActionSpec::Resend(i) {
            before + 1
        } else {
            before
        }
    }
}

/// How often, over several reports, the token of account `i` is refreshed.
pub open spec fn refreshes(f: AccountFlow, events: Seq<EventSpec>, i: usize) -> nat
    decreases events.len(),
{
    if events.len() == 0 {
        0
    } else {
        let before = refreshes(f, events.drop_last(), i);
        if account_flow_after(f, events.drop_last()).step(events.last()).1 == ActionSpec::Refresh(
            i,
        ) {
            before + 1
        } else {
            before
        }
    }
}

/// How far account `i` is: not yet refreshed, refreshed, or sent again.
spec fn not_refreshed(f: AccountFlow, i: usize) -> bool {
    f.index < i || (f.index == i && f.phase == Phase::Sending)
}

spec fn not_resent(f: AccountFlow, i: usize) -> bool {
    not_refreshed(f, i) || (f.index == i && f.phase == Phase::Refreshing)
}

proof fn lemma_retries(f: AccountFlow, events: Seq<EventSpec>, i: usize)
    requires
        f.index == 0,
        f.phase == Phase::Sending || f.phase == Phase::Finished,
    ensures
        refreshes(f, events, i) <= 1,
        resends(f, events, i) <= 1,
        not_refreshed(account_flow_after(f, events), i) ==> refreshes(f, events, i) == 0,
        not_resent(account_flow_after(f, events), i) ==> resends(f, events, i) == 0,
    decreases events.len(),
{
    if events.len() > 0 {
        lemma_retries(f, events.drop_last(), i);
    }
}

/// Whatever the upstream answers, each account's token is refreshed at most once
/// for a request, and the request is sent again with it at most once.
pub proof fn law_one_retry_per_account(count: usize, events: Seq<EventSpec>, i: usize)
    ensures
        refreshes(AccountFlow::started(count).0, events, i) <= 1,
        resends(AccountFlow::started(count).0, events, i) <= 1,
{
    lemma_retries(AccountFlow::started(count).0, events, i);
}

/// How much may still happen to a request.
pub open spec fn flow_left(f: AccountFlow) -> int {
    let left = if f.index < f.count {
        f.count - f.index
    } else {
        0
    };
    5 * left + match f.phase {
        Phase::Sending => 4int,
        Phase::Refreshing => 3,
        Phase::Resending => 2,
        Phase::Reading(_) => 1,
        Phase::Finished => 0,
    }
}

/// Every report that belongs to what was asked for brings the request nearer to
/// its end, so no request goes on for ever.
pub proof fn law_flow_makes_progress(f: AccountFlow, event: EventSpec)
    requires
        f.index < f.count || f.phase == Phase::Finished,
    ensures
        0 <= flow_left(f),
        f.step(event).1 != ActionSpec::Wait ==> flow_left(f.step(event).0) < flow_left(f),
        f.step(event).1 == ActionSpec::Wait ==> f.step(event).0 == f,
        f.step(event).0.index < f.step(event).0.count || f.step(event).0.phase == Phase::Finished,
{
}

/// An error of the upstream that is not retried reaches the client with the
/// upstream's status and body.
pub proof fn law_upstream_error_is_passed_on(f: AccountFlow, status: u16, body: Seq<char>)
    requires
        f.phase == Phase::Sending && status != 401 || f.phase == Phase::Resending,
        !is_success(status),
    ensures
        f.step(EventSpec::Answered(status)).1 == ActionSpec::ReadBody,
        f.step(EventSpec::Answered(status)).0.step(EventSpec::Body(body, false)).1
            == ActionSpec::Reply(status, body),
{
}

/// The flow with one account after several reports.
pub open spec fn retry_flow_after(f: RetryFlow, events: Seq<EventSpec>) -> RetryFlow
    decreases events.len(),
{
    if events.len() == 0 {
        f
    } else {
        retry_flow_after(f, events.drop_last()).step(events.last()).0
    }
}

/// How often, over several reports, the request is sent again.
pub open spec fn retry_resends(f: RetryFlow, events: Seq<EventSpec>) -> nat
    decreases events.len(),
{
    if events.len() == 0 {
        0
    } else {
        let before = retry_resends(f, events.drop_last());
        if retry_flow_after(f, events.drop_last()).step(events.last()).1 is Resend {
            before + 1
        } else {
            before
        }
    }
}

proof fn lemma_retry_resends(f: RetryFlow, events: Seq<EventSpec>)
    requires
        f.phase == Phase::Sending,
    ensures
        retry_resends(f, events) <= 1,
        (retry_flow_after(f, events).phase == Phase::Sending || retry_flow_after(f, events).phase
            == Phase::Refreshing) ==> retry_resends(f, events) == 0,
    decreases events.len(),
{
    if events.len() > 0 {
        lemma_retry_resends(f, events.drop_last());
    }
}

/// With one account, too, a request is sent again at most once.
pub proof fn law_one_retry(strict: bool, events: Seq<EventSpec>)
    ensures
        retry_resends((RetryFlow { strict, phase: Phase::Sending }), events) <= 1,
{
    lemma_retry_resends((RetryFlow { strict, phase: Phase::Sending }), events);
}

} // verus!
