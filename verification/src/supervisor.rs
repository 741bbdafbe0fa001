//! The connection supervisor: the state machine that owns one upstream
//! streaming session.
//!
//! The supervisor never touches a socket itself. Every decision is the pure
//! transition function [`step_spec`]: given the current state and one
//! session event, it determines the next state, the actions the surrounding
//! shell must perform (open the transport, send a frame, start a backoff
//! timer, halt), and the lifecycle events published on the embedded
//! [`crate::eventbus::EventBus`]. The executable [`ConnectionSupervisor::step`]
//! is proved to follow that transition function exactly.
//!
//! Failure handling: each failure doubles the backoff delay up to a fixed
//! cap; a success resets the delay and the attempt counter; after
//! `max_reconnect_attempts` consecutive failures (or on the first failure
//! with auto-reconnect off) the supervisor emits one terminal error and
//! halts for good.

use vstd::prelude::*;

use crate::codec::{
    int_token_value, opt_text_val_d, spec_subscription_request, update_matches_d,
    update_shape_ok_d,
};
use crate::json::{spec_json, spec_obj_get_d, JsonDoc};
use crate::eventbus::{EventBus, EventBusReader};
use crate::subscription::{spec_add, spec_remove, SubscriptionSet};
use crate::types::{SurgeConfig, SurgeError, SurgeEvent, SurgeUpdate, SymbolRequest,
    SubscriptionRequest};

verus! {

/// The backoff delay ceiling, in milliseconds.
pub const BACKOFF_CAP_MS: u64 = 30000;

/// How many events the supervisor's bus retains for lagging readers.
pub const EVENT_BUS_CAPACITY: usize = 1000;

/// The lifecycle of one supervisor.
#[derive(Clone, Copy, PartialEq, Eq, Structural, Debug)]
pub enum ConnectionState {
    /// No session yet; waiting for the owner to start one.
    Disconnected,
    /// A transport is being opened.
    Connecting,
    /// The session is live and frames flow.
    Connected,
    /// A backoff delay is running before the next attempt.
    Reconnecting,
    /// The supervisor halted for good.
    Terminated,
}

/// What the surrounding shell must do after a step.
#[derive(Debug)]
pub enum SupervisorAction {
    /// Open the transport to this address.
    OpenTransport(String),
    /// Send this text frame upstream.
    SendText(String),
    /// Send a close frame.
    SendClose,
    /// Sleep this many milliseconds, then report `BackoffElapsed`.
    StartBackoff(u64),
    /// Stop driving this supervisor.
    Halt,
}

/// One thing that happened to the session, reported by the shell or by the
/// control surface.
#[derive(Debug)]
pub enum SessionEvent {
    /// The transport was opened.
    TransportEstablished,
    /// The transport could not be opened; the message says why.
    TransportFailed(String),
    /// An inbound frame decoded to a price update.
    UpdateReceived(SurgeUpdate),
    /// The transport closed mid-session.
    TransportClosed,
    /// The transport failed mid-session; the message says why.
    TransportError(String),
    /// The owner asks to subscribe to more symbols.
    ControlSubscribe(Vec<String>),
    /// The owner asks to drop symbols.
    ControlUnsubscribe(Vec<String>),
    /// The owner asks to tear the session down; this always wins.
    ControlDisconnect,
    /// The backoff delay ran out.
    BackoffElapsed,
}

/// The supervisor's state, as a pure value.
pub ghost struct SupervisorModel {
    /// The lifecycle state.
    pub state: ConnectionState,
    /// Consecutive failures so far.
    pub attempts: int,
    /// The delay the next failure will impose.
    pub delay_ms: int,
    /// The effective subscription set.
    pub subs: Seq<Seq<char>>,
    /// The configured credential.
    pub api_key: Seq<char>,
    /// The configured endpoint.
    pub ws_url: Seq<char>,
    /// Whether failures are retried.
    pub auto_reconnect: bool,
    /// How many consecutive failures are tolerated.
    pub max_attempts: int,
    /// The configured initial backoff delay.
    pub initial_delay_ms: int,
}

/// A shell action, as a pure value.
pub ghost enum ActionView {
    /// Open the transport to this address.
    OpenTransport(Seq<char>),
    /// Send this text frame upstream.
    SendText(Seq<char>),
    /// Send a close frame.
    SendClose,
    /// Sleep this long, then report the elapse.
    StartBackoff(int),
    /// Stop driving the supervisor.
    Halt,
}

/// A price update, as a pure value.
pub ghost struct UpdateView {
    /// The optional message tag.
    pub event_type: Option<Seq<char>>,
    /// The trading pair.
    pub symbol: Seq<char>,
    /// The price token.
    pub price: Seq<char>,
    /// Source timestamp in milliseconds.
    pub source_timestamp_ms: int,
    /// The optional feed identifier.
    pub feed_id: Option<Seq<char>>,
    /// The optional signature.
    pub signature: Option<Seq<char>>,
    /// The optional oracle key.
    pub oracle_pubkey: Option<Seq<char>>,
}

/// A published event, as a pure value.
pub ghost enum EventView {
    /// The session was established.
    Connected,
    /// The session ended.
    Disconnected,
    /// A price update arrived.
    Price(UpdateView),
    /// Something failed.
    Error(Seq<char>),
    /// A reconnect attempt is pending.
    Reconnecting {
        /// Which consecutive failure this is.
        attempt: int,
        /// The delay before the retry.
        delay_ms: int,
    },
}

/// A session event, as a pure value.
pub ghost enum SessionEventView {
    /// The transport was opened.
    TransportEstablished,
    /// The transport could not be opened.
    TransportFailed(Seq<char>),
    /// An inbound frame decoded to an update.
    UpdateReceived(UpdateView),
    /// The transport closed mid-session.
    TransportClosed,
    /// The transport failed mid-session.
    TransportError(Seq<char>),
    /// More symbols requested.
    ControlSubscribe(Seq<Seq<char>>),
    /// Symbols dropped.
    ControlUnsubscribe(Seq<Seq<char>>),
    /// Tear-down requested.
    ControlDisconnect,
    /// The backoff delay ran out.
    BackoffElapsed,
}

/// What one step decides: the next state, the actions, and the events to
/// publish, in order.
pub ghost struct StepOutcome {
    /// The next state.
    pub post: SupervisorModel,
    /// The actions the shell performs, in order.
    pub actions: Seq<ActionView>,
    /// The events published on the bus, in order.
    pub events: Seq<EventView>,
}

/// The pure value of an update.
pub open spec fn update_view(u: SurgeUpdate) -> UpdateView {
    UpdateView {
        event_type: crate::codec::view_opt(u.event_type),
        symbol: u.data.symbol@,
        price: u.data.price@,
        source_timestamp_ms: u.data.source_timestamp_ms as int,
        feed_id: crate::codec::view_opt(u.data.feed_id),
        signature: crate::codec::view_opt(u.data.signature),
        oracle_pubkey: crate::codec::view_opt(u.data.oracle_pubkey),
    }
}

/// The pure value of a published event.
pub open spec fn event_view(e: SurgeEvent) -> EventView {
    match e {
        SurgeEvent::Connected => EventView::Connected,
        SurgeEvent::Disconnected => EventView::Disconnected,
        SurgeEvent::PriceUpdate(u) => EventView::Price(update_view(u)),
        SurgeEvent::Error(m) => EventView::Error(m@),
        SurgeEvent::Reconnecting { attempt, delay_ms } => EventView::Reconnecting {
            attempt: attempt as int,
            delay_ms: delay_ms as int,
        },
    }
}

/// The pure value of an action.
pub open spec fn action_view(a: SupervisorAction) -> ActionView {
    match a {
        SupervisorAction::OpenTransport(u) => ActionView::OpenTransport(u@),
        SupervisorAction::SendText(t) => ActionView::SendText(t@),
        SupervisorAction::SendClose => ActionView::SendClose,
        SupervisorAction::StartBackoff(d) => ActionView::StartBackoff(d as int),
        SupervisorAction::Halt => ActionView::Halt,
    }
}

/// The pure value of a session event.
pub open spec fn session_event_view(e: SessionEvent) -> SessionEventView {
    match e {
        SessionEvent::TransportEstablished => SessionEventView::TransportEstablished,
        SessionEvent::TransportFailed(m) => SessionEventView::TransportFailed(m@),
        SessionEvent::UpdateReceived(u) => SessionEventView::UpdateReceived(update_view(u)),
        SessionEvent::TransportClosed => SessionEventView::TransportClosed,
        SessionEvent::TransportError(m) => SessionEventView::TransportError(m@),
        SessionEvent::ControlSubscribe(v) => SessionEventView::ControlSubscribe(v.deep_view()),
        SessionEvent::ControlUnsubscribe(v) => SessionEventView::ControlUnsubscribe(v.deep_view()),
        SessionEvent::ControlDisconnect => SessionEventView::ControlDisconnect,
        SessionEvent::BackoffElapsed => SessionEventView::BackoffElapsed,
    }
}

/// The views of a sequence of published events.
pub open spec fn events_view(s: Seq<SurgeEvent>) -> Seq<EventView> {
    s.map_values(|e: SurgeEvent| event_view(e))
}

/// The views of a sequence of actions.
pub open spec fn actions_view(s: Seq<SupervisorAction>) -> Seq<ActionView> {
    s.map_values(|a: SupervisorAction| action_view(a))
}

/// The full transport address: the endpoint with the credential attached as
/// a query parameter.
pub open spec fn spec_ws_full_url(ws_url: Seq<char>, api_key: Seq<char>) -> Seq<char> {
    ws_url + "?apiKey="@ + api_key
}

/// The delay after one more failure: it doubles, up to the cap.
pub open spec fn spec_next_delay(d: int, cap: int) -> int {
    if 2 * d <= cap {
        2 * d
    } else {
        cap
    }
}

/// A step that changes nothing.
pub open spec fn noop_outcome(m: SupervisorModel) -> StepOutcome {
    StepOutcome { post: m, actions: Seq::empty(), events: Seq::empty() }
}

/// The shared failure path: count the failure, then either halt with one
/// terminal error (budget exhausted or auto-reconnect off) or schedule a
/// retry after the current delay and double it for the next time.
pub open spec fn fail_outcome(m: SupervisorModel, emitted: Seq<EventView>) -> StepOutcome {
    let a = m.attempts + 1;
    if !m.auto_reconnect || a >= m.max_attempts {
        StepOutcome {
            post: SupervisorModel { state: ConnectionState::Terminated, attempts: a, ..m },
            actions: seq![ActionView::Halt],
            events: emitted.push(EventView::Error("Max reconnection attempts reached"@)),
        }
    } else {
        StepOutcome {
            post: SupervisorModel {
                state: ConnectionState::Reconnecting,
                attempts: a,
                delay_ms: spec_next_delay(m.delay_ms, BACKOFF_CAP_MS as int),
                ..m
            },
            actions: seq![ActionView::StartBackoff(m.delay_ms)],
            events: emitted.push(
                EventView::Reconnecting { attempt: a, delay_ms: m.delay_ms },
            ),
        }
    }
}

/// The transition function of the supervisor: the single source of truth
/// for every state change, action, and published event.
pub open spec fn step_spec(m: SupervisorModel, ev: SessionEventView) -> StepOutcome {
    if m.state == ConnectionState::Terminated {
        noop_outcome(m)
    } else {
        match ev {
            SessionEventView::ControlDisconnect => if m.state == ConnectionState::Connected {
                StepOutcome {
                    post: SupervisorModel { state: ConnectionState::Terminated, ..m },
                    actions: seq![ActionView::SendClose, ActionView::Halt],
                    events: seq![EventView::Disconnected],
                }
            } else {
                StepOutcome {
                    post: SupervisorModel { state: ConnectionState::Terminated, ..m },
                    actions: seq![ActionView::Halt],
                    events: Seq::empty(),
                }
            },
            SessionEventView::ControlSubscribe(syms) => StepOutcome {
                post: SupervisorModel { subs: spec_add(m.subs, syms), ..m },
                actions: if m.state == ConnectionState::Connected {
                    seq![
                        ActionView::SendText(spec_subscription_request("subscribe"@, syms)),
                    ]
                } else {
                    Seq::empty()
                },
                events: Seq::empty(),
            },
            SessionEventView::ControlUnsubscribe(syms) => StepOutcome {
                post: SupervisorModel { subs: spec_remove(m.subs, syms), ..m },
                actions: if m.state == ConnectionState::Connected {
                    seq![
                        ActionView::SendText(spec_subscription_request("unsubscribe"@, syms)),
                    ]
                } else {
                    Seq::empty()
                },
                events: Seq::empty(),
            },
            SessionEventView::TransportEstablished => if m.state == ConnectionState::Connecting {
                StepOutcome {
                    post: SupervisorModel {
                        state: ConnectionState::Connected,
                        attempts: 0,
                        delay_ms: m.initial_delay_ms,
                        ..m
                    },
                    actions: if m.subs.len() > 0 {
                        seq![
                            ActionView::SendText(
                                spec_subscription_request("subscribe"@, m.subs),
                            ),
                        ]
                    } else {
                        Seq::empty()
                    },
                    events: seq![EventView::Connected],
                }
            } else {
                noop_outcome(m)
            },
            SessionEventView::TransportFailed(msg) => if m.state == ConnectionState::Connecting {
                fail_outcome(m, seq![EventView::Error("Connection failed: "@ + msg)])
            } else {
                noop_outcome(m)
            },
            SessionEventView::UpdateReceived(u) => if m.state == ConnectionState::Connected {
                StepOutcome {
                    post: m,
                    actions: Seq::empty(),
                    events: seq![EventView::Price(u)],
                }
            } else {
                noop_outcome(m)
            },
            SessionEventView::TransportClosed => if m.state == ConnectionState::Connected {
                fail_outcome(m, seq![EventView::Disconnected])
            } else {
                noop_outcome(m)
            },
            SessionEventView::TransportError(msg) => if m.state == ConnectionState::Connected {
                fail_outcome(m, seq![EventView::Error(msg)])
            } else {
                noop_outcome(m)
            },
            SessionEventView::BackoffElapsed => if m.state == ConnectionState::Reconnecting {
                StepOutcome {
                    post: SupervisorModel { state: ConnectionState::Connecting, ..m },
                    actions: seq![
                        ActionView::OpenTransport(spec_ws_full_url(m.ws_url, m.api_key)),
                    ],
                    events: Seq::empty(),
                }
            } else {
                noop_outcome(m)
            },
        }
    }
}


/// The pure value of the update a well-shaped document denotes.
pub open spec fn update_view_of_doc(d: JsonDoc) -> UpdateView {
    let fs = match d {
        JsonDoc::Obj(fs) => fs,
        _ => Seq::empty(),
    };
    let data = match spec_obj_get_d(fs, "data"@) {
        Option::Some(JsonDoc::Obj(ds)) => ds,
        _ => Seq::empty(),
    };
    UpdateView {
        event_type: opt_text_val_d(fs, "type"@),
        symbol: match spec_obj_get_d(data, "symbol"@) {
            Option::Some(JsonDoc::Text(t)) => t,
            _ => Seq::empty(),
        },
        price: match spec_obj_get_d(data, "price"@) {
            Option::Some(JsonDoc::Num(p)) => p,
            _ => Seq::empty(),
        },
        source_timestamp_ms: match spec_obj_get_d(data, "source_ts_ms"@) {
            Option::Some(JsonDoc::Num(t)) => int_token_value(t),
            _ => 0,
        },
        feed_id: opt_text_val_d(data, "feed_id"@),
        signature: opt_text_val_d(data, "signature"@),
        oracle_pubkey: opt_text_val_d(data, "oracle_pubkey"@),
    }
}

/// A decoded update carries exactly the pure value its document denotes.
pub proof fn lemma_update_view_of_doc(d: JsonDoc, u: SurgeUpdate)
    requires
        update_shape_ok_d(d),
        update_matches_d(d, u),
    ensures
        update_view(u) == update_view_of_doc(d),
{
}

/// Whether `url::Url::parse` accepts this text; the answer depends on the
/// text alone.
pub uninterp spec fn url_parse_ok(s: Seq<char>) -> bool;

/// Relies on url::Url::parse: validates an absolute URL, deterministically in
/// its input.
#[verifier::external_body]
fn check_url(s: &str) -> (r: bool)
    ensures
        r == url_parse_ok(s@),
{
    url::Url::parse(s).is_ok()
}

/// Owns exactly one upstream session at a time and runs the
/// connect/receive/fail/backoff/reconnect lifecycle around it.
pub struct ConnectionSupervisor {
    config: SurgeConfig,
    state: ConnectionState,
    attempts: u32,
    delay_ms: u64,
    subs: SubscriptionSet,
    bus: EventBus,
}

impl ConnectionSupervisor {
    /// The supervisor's state as a pure value.
    pub closed spec fn model(&self) -> SupervisorModel {
        SupervisorModel {
            state: self.state,
            attempts: self.attempts as int,
            delay_ms: self.delay_ms as int,
            subs: self.subs.view(),
            api_key: self.config.api_key@,
            ws_url: self.config.ws_url@,
            auto_reconnect: self.config.auto_reconnect,
            max_attempts: self.config.max_reconnect_attempts as int,
            initial_delay_ms: self.config.initial_reconnect_delay_ms as int,
        }
    }

    /// Everything published so far, as pure values.
    pub open spec fn published(&self) -> Seq<EventView> {
        events_view(self.history())
    }

    /// Everything published so far.
    pub closed spec fn history(&self) -> Seq<SurgeEvent> {
        self.bus.history()
    }

    /// Internal consistency. A live supervisor has always room to count one
    /// more failure.
    pub closed spec fn wf(&self) -> bool {
        &&& self.subs.wf()
        &&& self.bus.wf()
        &&& self.bus.capacity_spec() == EVENT_BUS_CAPACITY as int
        &&& (self.state != ConnectionState::Terminated ==> (self.attempts as int) < u32::MAX
            as int)
    }

    /// How many events were published so far.
    pub open spec fn total_published(&self) -> int {
        self.published().len() as int
    }

    /// A fresh supervisor: disconnected, empty subscription set, nothing
    /// published, the configured initial delay armed.
    pub fn with_config(config: SurgeConfig) -> (r: Self)
        ensures
            r.wf(),
            r.model().state == ConnectionState::Disconnected,
            r.model().attempts == 0,
            r.model().delay_ms == config.initial_reconnect_delay_ms as int,
            r.model().subs == Seq::<Seq<char>>::empty(),
            r.model().api_key == config.api_key@,
            r.model().ws_url == config.ws_url@,
            r.model().auto_reconnect == config.auto_reconnect,
            r.model().max_attempts == config.max_reconnect_attempts as int,
            r.model().initial_delay_ms == config.initial_reconnect_delay_ms as int,
            r.published() == Seq::<EventView>::empty(),
    {
        let delay_ms = config.initial_reconnect_delay_ms;
        let r = ConnectionSupervisor {
            config,
            state: ConnectionState::Disconnected,
            attempts: 0,
            delay_ms,
            subs: SubscriptionSet::new(),
            bus: EventBus::new(EVENT_BUS_CAPACITY),
        };
        proof {
            assert(r.published() =~= Seq::<EventView>::empty());
        }
        r
    }

    /// A fresh supervisor for this credential, with the stock configuration.
    pub fn new(api_key: &str) -> (r: Self)
        ensures
            r.wf(),
            r.model().state == ConnectionState::Disconnected,
            r.model().attempts == 0,
            r.model().subs == Seq::<Seq<char>>::empty(),
            r.model().api_key == api_key@,
            r.model().ws_url == "wss://surge.switchboard.xyz/ws"@,
            r.model().auto_reconnect == true,
            r.model().max_attempts == 10,
            r.model().initial_delay_ms == 1000,
            r.model().delay_ms == 1000,
            r.published() == Seq::<EventView>::empty(),
    {
        let mut config = SurgeConfig::default();
        config.api_key = String::from_str(api_key);
        Self::with_config(config)
    }

    /// A fresh reader over this supervisor's events, positioned at the
    /// current write cursor.
    pub fn subscribe_events(&self) -> (r: EventBusReader)
        requires
            self.wf(),
        ensures
            self.reader_attached(&r),
            r.cursor_spec() == self.total_published(),
    {
        self.bus.subscribe()
    }

    /// Whether `r` is a valid reader for this supervisor.
    pub closed spec fn reader_attached(&self, r: &EventBusReader) -> bool {
        self.bus.attached(r)
    }

    /// The oldest history index still retained for lagging readers.
    pub open spec fn retained_floor(&self) -> int {
        if self.total_published() >= EVENT_BUS_CAPACITY as int {
            self.total_published() - EVENT_BUS_CAPACITY as int
        } else {
            0
        }
    }

    /// Receive the next event for reader `r`: the event at its cursor, an
    /// overflow indication naming how many events it lost, or nothing.
    pub fn poll_events(&self, r: &mut EventBusReader) -> (out: crate::eventbus::ReadOutcome)
        requires
            self.wf(),
            self.reader_attached(old(r)),
        ensures
            self.reader_attached(final(r)),
            final(r).cursor_spec() >= old(r).cursor_spec(),
            ({
                let c = old(r).cursor_spec();
                if c < self.retained_floor() {
                    out matches crate::eventbus::ReadOutcome::Lagged(n) && n as int
                        == self.retained_floor() - c && final(r).cursor_spec()
                        == self.retained_floor()
                } else if c < self.total_published() {
                    out matches crate::eventbus::ReadOutcome::Event(e) && event_view(e)
                        == self.published()[c] && final(r).cursor_spec() == c + 1
                } else {
                    out matches crate::eventbus::ReadOutcome::Empty && final(r).cursor_spec() == c
                }
            }),
    {
        self.bus.read(r)
    }

    /// Whether the session is live right now.
    pub fn is_connected(&self) -> (r: bool)
        ensures
            r == (self.model().state == ConnectionState::Connected),
    {
        self.state == ConnectionState::Connected
    }

    /// The lifecycle state.
    pub fn connection_state(&self) -> (r: ConnectionState)
        ensures
            r == self.model().state,
    {
        self.state
    }

    /// The symbols currently subscribed: the effective set, free of
    /// duplicates.
    pub fn get_subscriptions(&self) -> (r: Vec<String>)
        requires
            self.wf(),
        ensures
            r.deep_view() == self.model().subs,
            crate::subscription::distinct_symbols(r.deep_view()),
    {
        self.subs.snapshot()
    }

    /// Begin connecting: replace the subscription set with `symbols` and ask
    /// the shell to open the transport. This is the only call that can fail
    /// synchronously: when a session already ran, or when the configured
    /// endpoint and credential do not form a valid address.
    pub fn connect_and_subscribe(&mut self, symbols: &Vec<String>) -> (r: Result<
        Vec<SupervisorAction>,
        SurgeError,
    >)
        requires
            old(self).wf(),
        ensures
            final(self).wf(),
            final(self).published() == old(self).published(),
            ({
                let m = old(self).model();
                let url = spec_ws_full_url(m.ws_url, m.api_key);
                if m.state != ConnectionState::Disconnected {
                    &&& r matches Err(e) && e matches SurgeError::ConnectionError(msg) && msg@
                        == "a session was already started"@
                    &&& final(self).model() == m
                } else if !url_parse_ok(url) {
                    &&& r matches Err(e) && e matches SurgeError::ConnectionError(msg) && msg@
                        == "invalid WebSocket URL"@
                    &&& final(self).model() == m
                } else {
                    &&& r matches Ok(actions) && actions_view(actions@) == seq![
                        ActionView::OpenTransport(url),
                    ]
                    &&& final(self).model() == SupervisorModel {
                        state: ConnectionState::Connecting,
                        subs: spec_add(Seq::empty(), symbols.deep_view()),
                        ..m
                    }
                }
            }),
    {
        if !(self.state == ConnectionState::Disconnected) {
            return Err(
                SurgeError::ConnectionError(String::from_str("a session was already started")),
            );
        }
        let mut url = self.config.ws_url.clone();
        url.append("?apiKey=");
        url.append(self.config.api_key.as_str());
        if !check_url(url.as_str()) {
            return Err(SurgeError::ConnectionError(String::from_str("invalid WebSocket URL")));
        }
        let mut fresh = SubscriptionSet::new();
        fresh.add(symbols);
        self.subs = fresh;
        self.state = ConnectionState::Connecting;
        let mut actions: Vec<SupervisorAction> = Vec::new();
        actions.push(SupervisorAction::OpenTransport(url));
        proof {
            assert(actions_view(actions@) =~= seq![
                ActionView::OpenTransport(
                    spec_ws_full_url(old(self).model().ws_url, old(self).model().api_key),
                ),
            ]);
        }
        Ok(actions)
    }

    /// Build the upstream request that subscribes or unsubscribes `symbols`.
    fn build_request(action: &str, symbols: &Vec<String>) -> (r: String)
        ensures
            r@ == spec_subscription_request(action@, symbols.deep_view()),
    {
        let mut wrappers: Vec<SymbolRequest> = Vec::new();
        let n = symbols.len();
        let mut i: usize = 0;
        while i < n
            invariant
                n == symbols@.len(),
                i <= n,
                wrappers@.len() == i,
                forall|k: int| 0 <= k < i ==> #[trigger] wrappers@[k].symbol@
                    == symbols.deep_view()[k],
            decreases n - i,
        {
            proof {
                assert(symbols.deep_view()[i as int] == symbols@[i as int]@);
            }
            wrappers.push(SymbolRequest { symbol: symbols[i].clone() });
            i = i + 1;
        }
        let req = SubscriptionRequest { action: String::from_str(action), symbols: wrappers };
        let out = req.to_json_string();
        proof {
            assert(req.symbols_view() =~= symbols.deep_view());
        }
        out
    }

    /// Publish each event in order.
    fn publish_all(&mut self, events: Vec<SurgeEvent>)
        requires
            old(self).wf(),
            old(self).total_published() + events@.len() <= u64::MAX,
        ensures
            final(self).wf(),
            final(self).model() == old(self).model(),
            final(self).published() == old(self).published() + events_view(events@),
    {
        let ghost all = events@;
        let n = events.len();
        let mut events = events;
        let mut i: usize = 0;
        proof {
            assert(old(self).published() + events_view(all.take(0)) =~= old(self).published());
        }
        while i < n
            invariant
                n == all.len(),
                i <= n,
                events@ == all.skip(i as int),
                self.wf(),
                self.model() == old(self).model(),
                self.config == old(self).config,
                self.total_published() == old(self).total_published() + i,
                old(self).total_published() + all.len() <= u64::MAX,
                self.published() == old(self).published() + events_view(all.take(i as int)),
            decreases n - i,
        {
            let e = events.remove(0);
            proof {
                assert(all.skip(i as int)[0] == all[i as int]);
                assert(all.skip(i as int).subrange(1, all.skip(i as int).len() as int) =~= all.skip(
                    i + 1,
                ));
            }
            let ghost pre_hist = self.bus.history();
            self.bus.publish(e);
            proof {
                assert(events_view(pre_hist.push(e)) =~= events_view(pre_hist).push(event_view(e)));
                assert(all.take(i + 1) =~= all.take(i as int).push(all[i as int]));
                assert(events_view(all.take(i + 1)) =~= events_view(all.take(i as int)).push(
                    event_view(all[i as int]),
                ));
                assert(self.published() =~= old(self).published() + events_view(all.take(i + 1)));
            }
            i = i + 1;
        }
        proof {
            assert(all.take(n as int) =~= all);
        }
    }

    /// The doubled-and-capped next backoff delay.
    fn next_delay(d: u64) -> (r: u64)
        ensures
            r as int == spec_next_delay(d as int, BACKOFF_CAP_MS as int),
    {
        if d > BACKOFF_CAP_MS / 2 {
            BACKOFF_CAP_MS
        } else {
            2 * d
        }
    }

    /// The shared failure path of `step`.
    fn fail_step(&mut self, first: Vec<SurgeEvent>) -> (r: Vec<SupervisorAction>)
        requires
            old(self).wf(),
            old(self).total_published() + 2 <= u64::MAX,
            first@.len() == 1,
            old(self).model().state != ConnectionState::Terminated,
        ensures
            final(self).wf(),
            ({
                let o = fail_outcome(old(self).model(), events_view(first@));
                &&& final(self).model() == o.post
                &&& actions_view(r@) == o.actions
                &&& final(self).published() == old(self).published() + o.events
            }),
    {
        let ghost o = fail_outcome(old(self).model(), events_view(first@));
        let a = self.attempts + 1;
        let mut out: Vec<SupervisorAction> = Vec::new();
        if !self.config.auto_reconnect || a >= self.config.max_reconnect_attempts {
            let mut events = first;
            events.push(
                SurgeEvent::Error(String::from_str("Max reconnection attempts reached")),
            );
            let ghost evs = events@;
            self.attempts = a;
            self.state = ConnectionState::Terminated;
            self.publish_all(events);
            out.push(SupervisorAction::Halt);
            proof {
                assert(events_view(evs) =~= o.events);
                assert(final(self).published() =~= old(self).published() + o.events);
                assert(actions_view(out@) =~= o.actions);
            }
        } else {
            let delay = self.delay_ms;
            let mut events = first;
            events.push(SurgeEvent::Reconnecting { attempt: a, delay_ms: delay });
            let ghost evs = events@;
            self.attempts = a;
            self.delay_ms = Self::next_delay(delay);
            self.state = ConnectionState::Reconnecting;
            self.publish_all(events);
            out.push(SupervisorAction::StartBackoff(delay));
            proof {
                assert(events_view(evs) =~= o.events);
                assert(final(self).published() =~= old(self).published() + o.events);
                assert(actions_view(out@) =~= o.actions);
            }
        }
        out
    }

    /// Apply one session event: the exec mirror of [`step_spec`], proved to
    /// follow it exactly in state, actions, and published events.
    pub fn step(&mut self, ev: SessionEvent) -> (r: Vec<SupervisorAction>)
        requires
            old(self).wf(),
            old(self).total_published() + 2 <= u64::MAX,
        ensures
            final(self).wf(),
            ({
                let o = step_spec(old(self).model(), session_event_view(ev));
                &&& final(self).model() == o.post
                &&& actions_view(r@) == o.actions
                &&& final(self).published() == old(self).published() + o.events
            }),
    {
        let ghost o = step_spec(old(self).model(), session_event_view(ev));
        let mut out: Vec<SupervisorAction> = Vec::new();
        if self.state == ConnectionState::Terminated {
            proof {
                assert(final(self).published() =~= old(self).published() + o.events);
                assert(actions_view(out@) =~= o.actions);
            }
            return out;
        }
        match ev {
            SessionEvent::ControlDisconnect => {
                if self.state == ConnectionState::Connected {
                    let mut events: Vec<SurgeEvent> = Vec::new();
                    events.push(SurgeEvent::Disconnected);
                    self.state = ConnectionState::Terminated;
                    self.publish_all(events);
                    out.push(SupervisorAction::SendClose);
                    out.push(SupervisorAction::Halt);
                    proof {
                        assert(events_view(seq![SurgeEvent::Disconnected]) =~= o.events);
                        assert(final(self).published() =~= old(self).published() + o.events);
                        assert(actions_view(out@) =~= o.actions);
                    }
                } else {
                    self.state = ConnectionState::Terminated;
                    out.push(SupervisorAction::Halt);
                    proof {
                        assert(final(self).published() =~= old(self).published() + o.events);
                        assert(actions_view(out@) =~= o.actions);
                    }
                }
            },
            SessionEvent::ControlSubscribe(symbols) => {
                self.subs.add(&symbols);
                if self.state == ConnectionState::Connected {
                    out.push(
                        SupervisorAction::SendText(Self::build_request("subscribe", &symbols)),
                    );
                }
                proof {
                    reveal_strlit("subscribe");
                    assert(final(self).published() =~= old(self).published() + o.events);
                    assert(actions_view(out@) =~= o.actions);
                }
            },
            SessionEvent::ControlUnsubscribe(symbols) => {
                self.subs.remove(&symbols);
                if self.state == ConnectionState::Connected {
                    out.push(
                        SupervisorAction::SendText(Self::build_request("unsubscribe", &symbols)),
                    );
                }
                proof {
                    reveal_strlit("unsubscribe");
                    assert(final(self).published() =~= old(self).published() + o.events);
                    assert(actions_view(out@) =~= o.actions);
                }
            },
            SessionEvent::TransportEstablished => {
                if self.state == ConnectionState::Connecting {
                    self.state = ConnectionState::Connected;
                    self.attempts = 0;
                    self.delay_ms = self.config.initial_reconnect_delay_ms;
                    if self.subs.len() > 0 {
                        let snapshot = self.subs.snapshot();
                        out.push(
                            SupervisorAction::SendText(
                                Self::build_request("subscribe", &snapshot),
                            ),
                        );
                    }
                    let mut events: Vec<SurgeEvent> = Vec::new();
                    events.push(SurgeEvent::Connected);
                    self.publish_all(events);
                    proof {
                        reveal_strlit("subscribe");
                        assert(events_view(seq![SurgeEvent::Connected]) =~= o.events);
                        assert(final(self).published() =~= old(self).published() + o.events);
                        assert(actions_view(out@) =~= o.actions);
                    }
                } else {
                    proof {
                        assert(final(self).published() =~= old(self).published() + o.events);
                        assert(actions_view(out@) =~= o.actions);
                    }
                }
            },
            SessionEvent::TransportFailed(msg) => {
                if self.state == ConnectionState::Connecting {
                    let mut text = String::from_str("Connection failed: ");
                    text.append(msg.as_str());
                    let mut first: Vec<SurgeEvent> = Vec::new();
                    first.push(SurgeEvent::Error(text));
                    proof {
                        assert(events_view(first@) =~= seq![
                            EventView::Error("Connection failed: "@ + msg@),
                        ]);
                    }
                    out = self.fail_step(first);
                } else {
                    proof {
                        assert(final(self).published() =~= old(self).published() + o.events);
                        assert(actions_view(out@) =~= o.actions);
                    }
                }
            },
            SessionEvent::UpdateReceived(u) => {
                if self.state == ConnectionState::Connected {
                    let ghost uu = u;
                    let mut events: Vec<SurgeEvent> = Vec::new();
                    events.push(SurgeEvent::PriceUpdate(u));
                    let ghost evs = events@;
                    self.publish_all(events);
                    proof {
                        assert(events_view(evs) =~= o.events);
                        assert(final(self).published() =~= old(self).published() + o.events);
                        assert(actions_view(out@) =~= o.actions);
                    }
                } else {
                    proof {
                        assert(final(self).published() =~= old(self).published() + o.events);
                        assert(actions_view(out@) =~= o.actions);
                    }
                }
            },
            SessionEvent::TransportClosed => {
                if self.state == ConnectionState::Connected {
                    let mut first: Vec<SurgeEvent> = Vec::new();
                    first.push(SurgeEvent::Disconnected);
                    proof {
                        assert(events_view(first@) =~= seq![EventView::Disconnected]);
                    }
                    out = self.fail_step(first);
                } else {
                    proof {
                        assert(final(self).published() =~= old(self).published() + o.events);
                        assert(actions_view(out@) =~= o.actions);
                    }
                }
            },
            SessionEvent::TransportError(msg) => {
                if self.state == ConnectionState::Connected {
                    let mut first: Vec<SurgeEvent> = Vec::new();
                    let ghost mv = msg@;
                    first.push(SurgeEvent::Error(msg));
                    proof {
                        assert(events_view(first@) =~= seq![EventView::Error(mv)]);
                    }
                    out = self.fail_step(first);
                } else {
                    proof {
                        assert(final(self).published() =~= old(self).published() + o.events);
                        assert(actions_view(out@) =~= o.actions);
                    }
                }
            },
            SessionEvent::BackoffElapsed => {
                if self.state == ConnectionState::Reconnecting {
                    self.state = ConnectionState::Connecting;
                    let mut url = self.config.ws_url.clone();
                    url.append("?apiKey=");
                    url.append(self.config.api_key.as_str());
                    out.push(SupervisorAction::OpenTransport(url));
                    proof {
                        assert(final(self).published() =~= old(self).published() + o.events);
                        assert(actions_view(out@) =~= o.actions);
                    }
                } else {
                    proof {
                        assert(final(self).published() =~= old(self).published() + o.events);
                        assert(actions_view(out@) =~= o.actions);
                    }
                }
            },
        }
        out
    }

    /// Handle one inbound text frame while connected: exactly the frames
    /// that denote a well-shaped update message publish that update; every
    /// other frame is dropped silently and nothing changes. The state never
    /// changes and no action is requested.
    pub fn handle_frame(&mut self, text: &str) -> (r: Vec<SupervisorAction>)
        requires
            old(self).wf(),
            old(self).total_published() + 1 <= u64::MAX,
        ensures
            final(self).wf(),
            final(self).model() == old(self).model(),
            r@.len() == 0,
            ({
                match spec_json(text@) {
                    Option::Some(d) => {
                        if old(self).model().state == ConnectionState::Connected
                            && update_shape_ok_d(d) {
                            final(self).published() == old(self).published().push(
                                EventView::Price(update_view_of_doc(d)),
                            )
                        } else {
                            final(self).published() == old(self).published()
                        }
                    },
                    Option::None => final(self).published() == old(self).published(),
                }
            }),
    {
        if self.state == ConnectionState::Connected {
            match crate::codec::decode_price_update(text) {
                Option::Some(u) => {
                    let ghost uu = u;
                    let mut events: Vec<SurgeEvent> = Vec::new();
                    events.push(SurgeEvent::PriceUpdate(u));
                    self.publish_all(events);
                    proof {
                        match spec_json(text@) {
                            Option::Some(d) => {
                                lemma_update_view_of_doc(d, uu);
                            },
                            Option::None => {},
                        }
                        assert(events_view(seq![SurgeEvent::PriceUpdate(uu)]) =~= seq![
                            EventView::Price(update_view(uu)),
                        ]);
                        assert(final(self).published() =~= old(self).published().push(
                            EventView::Price(update_view(uu)),
                        ));
                    }
                },
                Option::None => {},
            }
        }
        Vec::new()
    }
}

/// Two to the power `k`.
pub open spec fn pow2(k: nat) -> nat
    decreases k,
{
    if k == 0 {
        1
    } else {
        2 * pow2((k - 1) as nat)
    }
}

/// Powers of two are positive.
pub proof fn lemma_pow2_pos(k: nat)
    ensures
        pow2(k) >= 1,
    decreases k,
{
    if k > 0 {
        lemma_pow2_pos((k - 1) as nat);
    }
}

/// The delay the backoff policy reaches after `k` doublings of `d`, capped
/// at `c`: the closed form `min(d * 2^k, c)`.
pub open spec fn capped_delay(d: int, c: int, k: nat) -> int {
    if d * pow2(k) <= c {
        d * pow2(k)
    } else {
        c
    }
}

/// One more doubling moves the closed form one step.
pub proof fn lemma_next_delay_capped(d: int, c: int, k: nat)
    requires
        1 <= d <= c,
    ensures
        spec_next_delay(capped_delay(d, c, k), c) == capped_delay(d, c, (k + 1) as nat),
{
    lemma_pow2_pos(k);
    assert(pow2((k + 1) as nat) == 2 * pow2(k));
    assert(d * pow2((k + 1) as nat) == 2 * (d * pow2(k))) by (nonlinear_arith)
        requires
            pow2((k + 1) as nat) == 2 * pow2(k),
    ;
    if d * pow2(k) <= c {
    } else {
        assert(d * pow2((k + 1) as nat) >= d * pow2(k)) by (nonlinear_arith)
            requires
                d >= 1,
                pow2((k + 1) as nat) == 2 * pow2(k),
                pow2(k) >= 1,
        ;
    }
}

/// One full failure cycle: the connect attempt fails, and the backoff delay
/// later elapses.
pub open spec fn fail_cycle(m: SupervisorModel, msg: Seq<char>) -> SupervisorModel {
    step_spec(
        step_spec(m, SessionEventView::TransportFailed(msg)).post,
        SessionEventView::BackoffElapsed,
    ).post
}

/// The state after `k` consecutive failure cycles.
pub open spec fn after_failures(m: SupervisorModel, msg: Seq<char>, k: nat) -> SupervisorModel
    decreases k,
{
    if k == 0 {
        m
    } else {
        fail_cycle(after_failures(m, msg, (k - 1) as nat), msg)
    }
}

/// Law: starting a connect attempt with auto-reconnect on, an initial delay
/// `d` no greater than the cap, and a fresh attempt counter, after `k`
/// consecutive failures (with `k` still inside the budget) the machine is
/// attempting again with `k` counted failures and the delay `min(d·2^k, cap)`
/// armed; nothing else about it has changed.
pub proof fn lemma_backoff_run(m: SupervisorModel, msg: Seq<char>, k: nat)
    requires
        m.state == ConnectionState::Connecting,
        m.auto_reconnect,
        m.attempts == 0,
        1 <= m.delay_ms,
        m.delay_ms == m.initial_delay_ms,
        m.initial_delay_ms <= BACKOFF_CAP_MS as int,
        k < m.max_attempts,
    ensures
        after_failures(m, msg, k) == (SupervisorModel {
            state: ConnectionState::Connecting,
            attempts: k as int,
            delay_ms: capped_delay(m.initial_delay_ms, BACKOFF_CAP_MS as int, k),
            ..m
        }),
    decreases k,
{
    if k == 0 {
        assert(m.delay_ms == capped_delay(m.initial_delay_ms, BACKOFF_CAP_MS as int, 0)) by {
            assert(pow2(0) == 1);
            assert(m.initial_delay_ms * 1 == m.initial_delay_ms);
        }
        assert(after_failures(m, msg, 0) =~= SupervisorModel {
            state: ConnectionState::Connecting,
            attempts: 0,
            delay_ms: capped_delay(m.initial_delay_ms, BACKOFF_CAP_MS as int, 0),
            ..m
        });
    } else {
        lemma_backoff_run(m, msg, (k - 1) as nat);
        let prev = after_failures(m, msg, (k - 1) as nat);
        lemma_pow2_pos((k - 1) as nat);
        assert(prev.delay_ms >= 1) by {
            assert(m.initial_delay_ms * pow2((k - 1) as nat) >= 1) by (nonlinear_arith)
                requires
                    m.initial_delay_ms >= 1,
                    pow2((k - 1) as nat) >= 1,
            ;
        }
        lemma_next_delay_capped(m.initial_delay_ms, BACKOFF_CAP_MS as int, (k - 1) as nat);
    }
}

/// Law: the backoff delay sequence. The `k`-th consecutive failure (counted
/// from zero, while the budget allows a retry) is announced with a
/// `Reconnecting` event carrying attempt number `k + 1` and delay
/// `min(d·2^k, cap)`, after an `Error` event naming the failure.
pub proof fn lemma_backoff_delay_sequence(m: SupervisorModel, msg: Seq<char>, k: nat)
    requires
        m.state == ConnectionState::Connecting,
        m.auto_reconnect,
        m.attempts == 0,
        1 <= m.delay_ms,
        m.delay_ms == m.initial_delay_ms,
        m.initial_delay_ms <= BACKOFF_CAP_MS as int,
        k + 1 < m.max_attempts,
    ensures
        step_spec(after_failures(m, msg, k), SessionEventView::TransportFailed(msg)).events
            == seq![
            EventView::Error("Connection failed: "@ + msg),
            EventView::Reconnecting {
                attempt: k + 1 as int,
                delay_ms: capped_delay(m.initial_delay_ms, BACKOFF_CAP_MS as int, k),
            },
        ],
{
    lemma_backoff_run(m, msg, k);
    let worn = after_failures(m, msg, k);
    assert(step_spec(worn, SessionEventView::TransportFailed(msg)).events =~= seq![
        EventView::Error("Connection failed: "@ + msg),
        EventView::Reconnecting {
            attempt: k + 1 as int,
            delay_ms: capped_delay(m.initial_delay_ms, BACKOFF_CAP_MS as int, k),
        },
    ]);
}

/// Law: any success resets the backoff. When a connect attempt succeeds, the
/// attempt counter returns to zero and the armed delay returns to the
/// configured initial value.
pub proof fn lemma_success_resets_backoff(m: SupervisorModel)
    requires
        m.state == ConnectionState::Connecting,
    ensures
        step_spec(m, SessionEventView::TransportEstablished).post.attempts == 0,
        step_spec(m, SessionEventView::TransportEstablished).post.delay_ms
            == m.initial_delay_ms,
{
}

/// Law: a terminated supervisor does nothing ever again: no state change, no
/// action (in particular no further connection attempt), no event.
pub proof fn lemma_terminated_is_final(m: SupervisorModel, ev: SessionEventView)
    requires
        m.state == ConnectionState::Terminated,
    ensures
        step_spec(m, ev) == noop_outcome(m),
{
}

/// Law: reconnect-budget exhaustion. With auto-reconnect on and a budget of
/// `max_attempts` failures, the first `max_attempts - 1` failures each
/// announce a retry and never a terminal error, while the failure that
/// exhausts the budget emits exactly one terminal error, halts the shell,
/// and leaves the supervisor terminated — after which `lemma_terminated_is_final`
/// shows that no further connection attempt is ever made.
pub proof fn lemma_reconnect_exhaustion(m: SupervisorModel, msg: Seq<char>)
    requires
        m.state == ConnectionState::Connecting,
        m.auto_reconnect,
        m.attempts == 0,
        1 <= m.delay_ms,
        m.delay_ms == m.initial_delay_ms,
        m.initial_delay_ms <= BACKOFF_CAP_MS as int,
        m.max_attempts >= 1,
    ensures
        ({
            let last = step_spec(
                after_failures(m, msg, (m.max_attempts - 1) as nat),
                SessionEventView::TransportFailed(msg),
            );
            &&& last.post.state == ConnectionState::Terminated
            &&& last.actions == seq![ActionView::Halt]
            &&& last.events.len() == 2
            &&& last.events[1] == EventView::Error("Max reconnection attempts reached"@)
            &&& last.events[0] != EventView::Error("Max reconnection attempts reached"@)
        }),
        forall|j: nat|
            j + 1 < m.max_attempts ==> #[trigger] step_spec(
                after_failures(m, msg, j),
                SessionEventView::TransportFailed(msg),
            ).events[1] matches EventView::Reconnecting { .. },
{
    lemma_backoff_run(m, msg, (m.max_attempts - 1) as nat);
    let worn = after_failures(m, msg, (m.max_attempts - 1) as nat);
    let last = step_spec(worn, SessionEventView::TransportFailed(msg));
    assert(last.actions =~= seq![ActionView::Halt]);
    assert(last.events[0] != EventView::Error("Max reconnection attempts reached"@)) by {
        reveal_strlit("Connection failed: ");
        reveal_strlit("Max reconnection attempts reached");
        assert(("Connection failed: "@ + msg)[0] == 'C');
        assert("Max reconnection attempts reached"@[0] == 'M');
    }
    assert forall|j: nat| j + 1 < m.max_attempts implies #[trigger] step_spec(
        after_failures(m, msg, j),
        SessionEventView::TransportFailed(msg),
    ).events[1] matches EventView::Reconnecting { .. } by {
        lemma_backoff_delay_sequence(m, msg, j);
    }
}

/// Law: subscribing to any symbol set and then immediately unsubscribing
/// from that same set leaves an empty effective subscription, whether or not
/// a session is established in between: the establishment step reads the
/// set but never changes it.
pub proof fn lemma_subscribe_unsubscribe_roundtrip(m: SupervisorModel, syms: Seq<Seq<char>>)
    requires
        m.subs == Seq::<Seq<char>>::empty(),
    ensures
        step_spec(
            step_spec(m, SessionEventView::ControlSubscribe(syms)).post,
            SessionEventView::ControlUnsubscribe(syms),
        ).post.subs == Seq::<Seq<char>>::empty(),
        step_spec(
            step_spec(
                step_spec(m, SessionEventView::ControlSubscribe(syms)).post,
                SessionEventView::TransportEstablished,
            ).post,
            SessionEventView::ControlUnsubscribe(syms),
        ).post.subs == Seq::<Seq<char>>::empty(),
{
    crate::subscription::lemma_subscribe_then_unsubscribe_empty(syms);
    assert(crate::subscription::spec_remove(
        crate::subscription::spec_add(Seq::<Seq<char>>::empty(), syms),
        syms,
    ) =~= Seq::<Seq<char>>::empty());
}

} // verus!
