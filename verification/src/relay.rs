//! The per-downstream-connection relay.
//!
//! Each downstream peer gets one multiplexer. Its subscribe and unsubscribe
//! requests mutate a private [`SubscriptionSet`]; every change is then
//! materialized by replacing the private upstream session with one seeded
//! from the new snapshot (or by dropping the session when the set became
//! empty), and the peer receives an acknowledgement echoing the symbols it
//! named. Updates read from the session's event bus are translated to
//! downstream messages by [`forward_event`].

use vstd::prelude::*;

use crate::codec::{json_quote, view_opt, write_json_string};
use crate::json::{doc_matches, spec_json, spec_obj_get, spec_obj_get_d, JsonDoc, JsonValue};
use crate::subscription::{spec_add, spec_remove, SubscriptionSet};
use crate::text::spec_idigits;
use crate::types::SurgeEvent;

verus! {

/// A downstream request, discriminated by its `action` field.
#[derive(Debug)]
pub enum ClientMessage {
    /// Add these symbols to the peer's interest.
    Subscribe {
        /// The symbols named by the request.
        symbols: Vec<String>,
    },
    /// Drop these symbols from the peer's interest.
    Unsubscribe {
        /// The symbols named by the request.
        symbols: Vec<String>,
    },
}

/// A downstream reply or push, discriminated by its `type` field.
#[derive(Debug)]
pub enum ServerMessage {
    /// A price update forwarded from upstream.
    Price {
        /// The trading pair.
        symbol: String,
        /// The price, as the raw number token received upstream.
        price: String,
        /// Source timestamp in milliseconds.
        timestamp: i64,
        /// The feed identifier, when the update carried one.
        feed_id: Option<String>,
    },
    /// Acknowledges a subscribe request, echoing its symbols.
    Subscribed {
        /// The symbols acted upon.
        symbols: Vec<String>,
    },
    /// Acknowledges an unsubscribe request, echoing its symbols.
    Unsubscribed {
        /// The symbols acted upon.
        symbols: Vec<String>,
    },
    /// Reports a failure to the peer.
    Error {
        /// What went wrong.
        message: String,
    },
}

impl ServerMessage {
    /// A price message carries a valid number token.
    pub open spec fn wf(&self) -> bool {
        match self {
            ServerMessage::Price { price, .. } => crate::json::is_number_token(price@),
            _ => true,
        }
    }
}

/// The wire text of a comma-separated list of JSON strings.
pub open spec fn spec_string_list(items: Seq<Seq<char>>) -> Seq<char>
    decreases items.len(),
{
    if items.len() == 0 {
        Seq::empty()
    } else if items.len() == 1 {
        json_quote(items[0])
    } else {
        spec_string_list(items.drop_last()) + seq![','] + json_quote(items.last())
    }
}

/// The wire text of a downstream message.
pub open spec fn spec_server_message(m: ServerMessage) -> Seq<char> {
    match m {
        ServerMessage::Price { symbol, price, timestamp, feed_id } => "{\"type\":\"price\",\"symbol\":"@
            + json_quote(symbol@) + ",\"price\":"@ + price@ + ",\"timestamp\":"@ + spec_idigits(
            timestamp as int,
        ) + (match feed_id {
            Option::Some(f) => ",\"feed_id\":"@ + json_quote(f@),
            Option::None => Seq::empty(),
        }) + "}"@,
        ServerMessage::Subscribed { symbols } => "{\"type\":\"subscribed\",\"symbols\":["@
            + spec_string_list(symbols.deep_view()) + "]}"@,
        ServerMessage::Unsubscribed { symbols } => "{\"type\":\"unsubscribed\",\"symbols\":["@
            + spec_string_list(symbols.deep_view()) + "]}"@,
        ServerMessage::Error { message } => "{\"type\":\"error\",\"message\":"@ + json_quote(
            message@,
        ) + "}"@,
    }
}

/// Append the quoted strings of `symbols`, comma separated.
fn write_string_list(out: &mut String, symbols: &Vec<String>)
    ensures
        final(out)@ == old(out)@ + spec_string_list(symbols.deep_view()),
{
    let n = symbols.len();
    let mut i: usize = 0;
    proof {
        assert(symbols.deep_view().take(0) =~= Seq::<Seq<char>>::empty());
        assert(out@ =~= old(out)@ + spec_string_list(symbols.deep_view().take(0)));
    }
    while i < n
        invariant
            n == symbols@.len(),
            i <= n,
            out@ == old(out)@ + spec_string_list(symbols.deep_view().take(i as int)),
        decreases n - i,
    {
        if i > 0 {
            out.append(",");
        }
        write_json_string(out, symbols[i].as_str());
        proof {
            reveal_strlit(",");
            let sv = symbols.deep_view();
            assert(sv[i as int] == symbols@[i as int]@);
            assert(sv.take(i + 1).drop_last() =~= sv.take(i as int));
            assert(sv.take(i + 1).last() == sv[i as int]);
            assert(out@ =~= old(out)@ + spec_string_list(sv.take(i + 1)));
        }
        i = i + 1;
    }
    proof {
        assert(symbols.deep_view().take(n as int) =~= symbols.deep_view());
    }
}

impl ServerMessage {
    /// Render the message exactly as it is sent to the downstream peer.
    pub fn to_json_string(&self) -> (r: String)
        requires
            self.wf(),
        ensures
            r@ == spec_server_message(*self),
    {
        match self {
            ServerMessage::Price { symbol, price, timestamp, feed_id } => {
                let mut out = String::from_str("{\"type\":\"price\",\"symbol\":");
                write_json_string(&mut out, symbol.as_str());
                out.append(",\"price\":");
                out.append(price.as_str());
                out.append(",\"timestamp\":");
                out.append(crate::text::i64_to_string(*timestamp).as_str());
                match feed_id {
                    Option::Some(f) => {
                        out.append(",\"feed_id\":");
                        write_json_string(&mut out, f.as_str());
                    },
                    Option::None => {},
                }
                out.append("}");
                proof {
                    assert(out@ =~= spec_server_message(*self));
                }
                out
            },
            ServerMessage::Subscribed { symbols } => {
                let mut out = String::from_str("{\"type\":\"subscribed\",\"symbols\":[");
                write_string_list(&mut out, symbols);
                out.append("]}");
                proof {
                    assert(out@ =~= spec_server_message(*self));
                }
                out
            },
            ServerMessage::Unsubscribed { symbols } => {
                let mut out = String::from_str("{\"type\":\"unsubscribed\",\"symbols\":[");
                write_string_list(&mut out, symbols);
                out.append("]}");
                proof {
                    assert(out@ =~= spec_server_message(*self));
                }
                out
            },
            ServerMessage::Error { message } => {
                let mut out = String::from_str("{\"type\":\"error\",\"message\":");
                write_json_string(&mut out, message.as_str());
                out.append("}");
                proof {
                    assert(out@ =~= spec_server_message(*self));
                }
                out
            },
        }
    }
}

/// Whether every element of the array is a string.
pub open spec fn string_array_ok(items: Seq<JsonValue>) -> bool {
    forall|i: int| 0 <= i < items.len() ==> (#[trigger] items[i]) matches JsonValue::Text(_)
}

/// The texts of an array of strings.
pub open spec fn string_array_view(items: Seq<JsonValue>) -> Seq<Seq<char>> {
    items.map_values(
        |v: JsonValue|
            match v {
                JsonValue::Text(t) => t@,
                _ => Seq::empty(),
            },
    )
}

/// Collect an array of strings; `None` when any element is not a string.
fn string_array(items: &Vec<JsonValue>) -> (r: Option<Vec<String>>)
    ensures
        r is Some <==> string_array_ok(items@),
        r matches Some(v) ==> v.deep_view() == string_array_view(items@),
{
    let n = items.len();
    let mut out: Vec<String> = Vec::new();
    let mut i: usize = 0;
    while i < n
        invariant
            n == items@.len(),
            i <= n,
            out@.len() == i,
            forall|k: int|
                0 <= k < i ==> ((#[trigger] items@[k]) matches JsonValue::Text(t) && out@[k]@
                    == t@),
        decreases n - i,
    {
        match &items[i] {
            JsonValue::Text(t) => {
                out.push(t.clone());
            },
            _ => {
                return Option::None;
            },
        }
        i = i + 1;
    }
    proof {
        assert(out.deep_view() =~= string_array_view(items@)) by {
            assert forall|k: int| 0 <= k < n implies out.deep_view()[k] == string_array_view(
                items@,
            )[k] by {
                assert(out.deep_view()[k] == out@[k]@);
            }
        }
    }
    Option::Some(out)
}

/// The shape of a downstream request: an `action` tag of `subscribe` or
/// `unsubscribe`, and a `symbols` array of strings.
pub open spec fn client_msg_shape_ok(v: JsonValue) -> bool {
    match v {
        JsonValue::Obj(fields) => {
            &&& (spec_obj_get(fields@, "action"@) matches Option::Some(JsonValue::Text(a)) && (a@
                == "subscribe"@ || a@ == "unsubscribe"@))
            &&& (spec_obj_get(fields@, "symbols"@) matches Option::Some(JsonValue::Arr(items))
                && string_array_ok(items@))
        },
        _ => false,
    }
}

/// Agreement between a parsed request and its decoded form.
pub open spec fn client_msg_matches(v: JsonValue, m: ClientMessage) -> bool {
    match v {
        JsonValue::Obj(fields) => {
            &&& (spec_obj_get(fields@, "symbols"@) matches Option::Some(JsonValue::Arr(items))
                && (match m {
                ClientMessage::Subscribe { symbols } => symbols.deep_view() == string_array_view(
                    items@,
                ),
                ClientMessage::Unsubscribe { symbols } => symbols.deep_view()
                    == string_array_view(items@),
            }))
            &&& (spec_obj_get(fields@, "action"@) matches Option::Some(JsonValue::Text(a)) && (
            match m {
                ClientMessage::Subscribe { .. } => a@ == "subscribe"@,
                ClientMessage::Unsubscribe { .. } => a@ == "unsubscribe"@,
            }))
        },
        _ => false,
    }
}


/// Whether every element of the array is a string, at the document level.
pub open spec fn string_array_ok_d(items: Seq<JsonDoc>) -> bool {
    forall|i: int| 0 <= i < items.len() ==> (#[trigger] items[i]) matches JsonDoc::Text(_)
}

/// The texts of an array of strings, at the document level.
pub open spec fn string_array_view_d(items: Seq<JsonDoc>) -> Seq<Seq<char>> {
    items.map_values(
        |v: JsonDoc|
            match v {
                JsonDoc::Text(t) => t,
                _ => Seq::empty(),
            },
    )
}

/// The shape of a downstream request, at the document level.
pub open spec fn client_msg_shape_ok_d(d: JsonDoc) -> bool {
    match d {
        JsonDoc::Obj(fs) => {
            &&& (spec_obj_get_d(fs, "action"@) matches Option::Some(JsonDoc::Text(a)) && (a
                == "subscribe"@ || a == "unsubscribe"@))
            &&& (spec_obj_get_d(fs, "symbols"@) matches Option::Some(JsonDoc::Arr(items))
                && string_array_ok_d(items))
        },
        _ => false,
    }
}

/// Whether a well-shaped request subscribes; otherwise it unsubscribes.
pub open spec fn doc_request_is_subscribe(d: JsonDoc) -> bool {
    match d {
        JsonDoc::Obj(fs) => spec_obj_get_d(fs, "action"@) matches Option::Some(JsonDoc::Text(a))
            && a == "subscribe"@,
        _ => false,
    }
}

/// The symbols a well-shaped request names, in order.
pub open spec fn doc_request_symbols(d: JsonDoc) -> Seq<Seq<char>> {
    match d {
        JsonDoc::Obj(fs) => match spec_obj_get_d(fs, "symbols"@) {
            Option::Some(JsonDoc::Arr(items)) => string_array_view_d(items),
            _ => Seq::empty(),
        },
        _ => Seq::empty(),
    }
}

/// The request predicates agree between a parsed node and its pure document.
pub proof fn lemma_client_msg_doc_corr(v: JsonValue, d: JsonDoc)
    requires
        doc_matches(v, d),
    ensures
        client_msg_shape_ok(v) <==> client_msg_shape_ok_d(d),
        client_msg_shape_ok(v) ==> (v matches JsonValue::Obj(fields) && (spec_obj_get(
            fields@,
            "action"@,
        ) matches Option::Some(JsonValue::Text(a)) && ((a@ == "subscribe"@)
            <==> doc_request_is_subscribe(d)))),
        client_msg_shape_ok(v) ==> (v matches JsonValue::Obj(fields) && (spec_obj_get(
            fields@,
            "symbols"@,
        ) matches Option::Some(JsonValue::Arr(items)) && string_array_view(items@)
            == doc_request_symbols(d))),
{
    match v {
        JsonValue::Obj(fields) => {
            match d {
                JsonDoc::Obj(fs) => {
                    crate::json::lemma_doc_obj_get(fields@, fs, "action"@);
                    crate::json::lemma_doc_obj_get(fields@, fs, "symbols"@);
                    match spec_obj_get(fields@, "symbols"@) {
                        Option::Some(JsonValue::Arr(items)) => {
                            match spec_obj_get_d(fs, "symbols"@) {
                                Option::Some(JsonDoc::Arr(ds)) => {
                                    assert forall|i: int|
                                        0 <= i < items@.len() implies string_array_view(items@)[i]
                                        == string_array_view_d(ds)[i] && ((#[trigger] items@[i])
                                        matches JsonValue::Text(_) <==> ds[i]
                                        matches JsonDoc::Text(_)) by {
                                        assert(doc_matches(items@[i], ds[i]));
                                    }
                                    assert(string_array_view(items@) =~= string_array_view_d(ds));
                                    assert(string_array_ok(items@) <==> string_array_ok_d(ds)) by {
                                        if string_array_ok(items@) {
                                            assert forall|i: int|
                                                0 <= i < ds.len() implies (#[trigger] ds[i])
                                                matches JsonDoc::Text(_) by {
                                                assert(items@[i] matches JsonValue::Text(_));
                                            }
                                        }
                                        if string_array_ok_d(ds) {
                                            assert forall|i: int|
                                                0 <= i < items@.len() implies (#[trigger] items@[i])
                                                matches JsonValue::Text(_) by {
                                                assert(ds[i] matches JsonDoc::Text(_));
                                            }
                                        }
                                    }
                                },
                                _ => {},
                            }
                        },
                        _ => {},
                    }
                },
                _ => {},
            }
        },
        _ => {},
    }
}

/// Map a parsed document onto a downstream request.
pub fn client_message_of_json(v: &JsonValue) -> (r: Option<ClientMessage>)
    ensures
        r is Some <==> client_msg_shape_ok(*v),
        r matches Some(m) ==> client_msg_matches(*v, m),
{
    let fields = match v {
        JsonValue::Obj(f) => f,
        _ => {
            return Option::None;
        },
    };
    let is_subscribe = match crate::json::obj_get(fields, "action") {
        Option::Some(av) => match av {
            JsonValue::Text(a) => {
                proof {
                    reveal_strlit("subscribe");
                    reveal_strlit("unsubscribe");
                }
                if crate::text::str_eq(a.as_str(), "subscribe") {
                    true
                } else if crate::text::str_eq(a.as_str(), "unsubscribe") {
                    false
                } else {
                    return Option::None;
                }
            },
            _ => {
                return Option::None;
            },
        },
        Option::None => {
            return Option::None;
        },
    };
    let symbols = match crate::json::obj_get(fields, "symbols") {
        Option::Some(sv) => match sv {
            JsonValue::Arr(items) => match string_array(items) {
                Option::Some(list) => list,
                Option::None => {
                    return Option::None;
                },
            },
            _ => {
                return Option::None;
            },
        },
        Option::None => {
            return Option::None;
        },
    };
    if is_subscribe {
        Option::Some(ClientMessage::Subscribe { symbols })
    } else {
        Option::Some(ClientMessage::Unsubscribe { symbols })
    }
}

/// Decode one downstream text frame: it succeeds exactly when the text is a
/// complete JSON document of the request shape, and the decoded request
/// carries exactly the document's action and symbols. Anything else is
/// refused; the relay then answers with an error message.
pub fn decode_client_message(s: &str) -> (r: Option<ClientMessage>)
    ensures
        r is Some <==> (spec_json(s@) matches Some(d) && client_msg_shape_ok_d(d)),
        r matches Some(m) ==> (spec_json(s@) matches Some(d) && (match m {
            ClientMessage::Subscribe { symbols } => doc_request_is_subscribe(d)
                && symbols.deep_view() == doc_request_symbols(d),
            ClientMessage::Unsubscribe { symbols } => !doc_request_is_subscribe(d)
                && symbols.deep_view() == doc_request_symbols(d),
        })),
{
    match crate::json::parse_json(s) {
        Option::None => Option::None,
        Option::Some(v) => {
            let r = client_message_of_json(&v);
            proof {
                reveal_strlit("subscribe");
                reveal_strlit("unsubscribe");
                assert("subscribe"@ != "unsubscribe"@) by {
                    assert("subscribe"@.len() == 9);
                    assert("unsubscribe"@.len() == 11);
                }
                match spec_json(s@) {
                    Option::Some(d) => {
                        lemma_client_msg_doc_corr(v, d);
                    },
                    Option::None => {},
                }
            }
            r
        },
    }
}

/// How a subscription change is materialized into the upstream session.
#[derive(Debug)]
pub enum SessionDirective {
    /// Tear the current session down and build a new one seeded with these
    /// symbols, re-attaching the forwarding task to its fresh event bus.
    ReplaceSession(Vec<String>),
    /// Tear the current session down and idle: the peer subscribed to
    /// nothing, so no session is needed.
    DropSession,
}

/// The subscription set a request leaves behind.
pub open spec fn request_new_subs(cur: Seq<Seq<char>>, m: ClientMessage) -> Seq<Seq<char>> {
    match m {
        ClientMessage::Subscribe { symbols } => spec_add(cur, symbols.deep_view()),
        ClientMessage::Unsubscribe { symbols } => spec_remove(cur, symbols.deep_view()),
    }
}

/// Bridges one downstream peer's dynamic symbol interest to the streaming
/// system.
pub struct RelayMultiplexer {
    subs: SubscriptionSet,
}

impl RelayMultiplexer {
    /// The peer's current symbol interest.
    pub closed spec fn subs_view(&self) -> Seq<Seq<char>> {
        self.subs.view()
    }

    /// The interest set holds no duplicates.
    pub closed spec fn wf(&self) -> bool {
        self.subs.wf()
    }

    /// A fresh multiplexer with no interest and no session.
    pub fn new() -> (r: Self)
        ensures
            r.wf(),
            r.subs_view() == Seq::<Seq<char>>::empty(),
    {
        RelayMultiplexer { subs: SubscriptionSet::new() }
    }

    /// The peer's current symbol interest: the effective set, free of
    /// duplicates.
    pub fn current_symbols(&self) -> (r: Vec<String>)
        requires
            self.wf(),
        ensures
            r.deep_view() == self.subs_view(),
            crate::subscription::distinct_symbols(r.deep_view()),
    {
        self.subs.snapshot()
    }

    /// Apply one downstream request: mutate the interest set, decide how to
    /// materialize the change, and acknowledge the request by echoing the
    /// symbols it named, in request order.
    pub fn handle_request(&mut self, msg: &ClientMessage) -> (r: (SessionDirective, ServerMessage))
        requires
            old(self).wf(),
        ensures
            final(self).wf(),
            final(self).subs_view() == request_new_subs(old(self).subs_view(), *msg),
            ({
                match msg {
                    ClientMessage::Subscribe { symbols } => r.1 matches ServerMessage::Subscribed {
                        symbols: echo,
                    } && echo.deep_view() == symbols.deep_view(),
                    ClientMessage::Unsubscribe { symbols } => r.1
                        matches ServerMessage::Unsubscribed { symbols: echo } && echo.deep_view()
                        == symbols.deep_view(),
                }
            }),
            ({
                if final(self).subs_view().len() == 0 {
                    r.0 matches SessionDirective::DropSession
                } else {
                    r.0 matches SessionDirective::ReplaceSession(snapshot) && snapshot.deep_view()
                        == final(self).subs_view()
                }
            }),
    {
        broadcast use vstd::std_specs::vec::vec_clone_deep_view_proof;

        match msg {
            ClientMessage::Subscribe { symbols } => {
                self.subs.add(symbols);
                let echo = symbols.clone();
                proof {
                    assert(echo.deep_view() =~= symbols.deep_view()) by {
                        assert forall|k: int| 0 <= k < echo@.len() implies echo.deep_view()[k]
                            == symbols.deep_view()[k] by {
                            assert(cloned::<String>(symbols[k], echo[k]));
                        }
                    }
                }
                let directive = if self.subs.is_empty() {
                    SessionDirective::DropSession
                } else {
                    SessionDirective::ReplaceSession(self.subs.snapshot())
                };
                (directive, ServerMessage::Subscribed { symbols: echo })
            },
            ClientMessage::Unsubscribe { symbols } => {
                self.subs.remove(symbols);
                let echo = symbols.clone();
                proof {
                    assert(echo.deep_view() =~= symbols.deep_view()) by {
                        assert forall|k: int| 0 <= k < echo@.len() implies echo.deep_view()[k]
                            == symbols.deep_view()[k] by {
                            assert(cloned::<String>(symbols[k], echo[k]));
                        }
                    }
                }
                let directive = if self.subs.is_empty() {
                    SessionDirective::DropSession
                } else {
                    SessionDirective::ReplaceSession(self.subs.snapshot())
                };
                (directive, ServerMessage::Unsubscribed { symbols: echo })
            },
        }
    }

    /// Handle one downstream text frame. Exactly the texts that denote a
    /// well-shaped subscribe or unsubscribe request are applied and
    /// acknowledged; every other text changes nothing and is answered with
    /// an error message.
    pub fn handle_text(&mut self, text: &str) -> (r: (Option<SessionDirective>, ServerMessage))
        requires
            old(self).wf(),
        ensures
            final(self).wf(),
            (!(spec_json(text@) matches Some(d) && client_msg_shape_ok_d(d))) ==> {
                &&& final(self).subs_view() == old(self).subs_view()
                &&& r.0 is None
                &&& (r.1 matches ServerMessage::Error { message } && message@
                    == "Invalid message: malformed subscribe/unsubscribe request"@)
            },
            ({
                match spec_json(text@) {
                    Option::Some(d) => client_msg_shape_ok_d(d) ==> {
                        &&& final(self).subs_view() == (if doc_request_is_subscribe(d) {
                            spec_add(old(self).subs_view(), doc_request_symbols(d))
                        } else {
                            spec_remove(old(self).subs_view(), doc_request_symbols(d))
                        })
                        &&& (doc_request_is_subscribe(d) ==> (r.1
                            matches ServerMessage::Subscribed { symbols: echo } && echo.deep_view()
                            == doc_request_symbols(d)))
                        &&& (!doc_request_is_subscribe(d) ==> (r.1
                            matches ServerMessage::Unsubscribed { symbols: echo }
                            && echo.deep_view() == doc_request_symbols(d)))
                        &&& (if final(self).subs_view().len() == 0 {
                            r.0 matches Some(SessionDirective::DropSession)
                        } else {
                            r.0 matches Some(SessionDirective::ReplaceSession(snapshot))
                                && snapshot.deep_view() == final(self).subs_view()
                        })
                    },
                    Option::None => true,
                }
            }),
    {
        match decode_client_message(text) {
            Option::Some(m) => {
                let (directive, reply) = self.handle_request(&m);
                proof {
                    let mm = m;
                    assert(final(self).subs_view() == request_new_subs(old(self).subs_view(), mm));
                }
                (Option::Some(directive), reply)
            },
            Option::None => (
                Option::None,
                ServerMessage::Error {
                    message: String::from_str(
                        "Invalid message: malformed subscribe/unsubscribe request",
                    ),
                },
            ),
        }
    }
}

/// Translate one bus event to the downstream peer: price updates become
/// price messages, errors are reported, and pure lifecycle notices are kept
/// off the downstream wire.
pub fn forward_event(ev: &SurgeEvent) -> (r: Option<ServerMessage>)
    ensures
        match ev {
            SurgeEvent::PriceUpdate(u) => r matches Some(m) && m matches ServerMessage::Price {
                symbol,
                price,
                timestamp,
                feed_id,
            } && symbol@ == u.data.symbol@ && price@ == u.data.price@ && timestamp
                == u.data.source_timestamp_ms && view_opt(feed_id) == view_opt(u.data.feed_id),
            SurgeEvent::Error(e) => r matches Some(m) && m matches ServerMessage::Error { message }
                && message@ == e@,
            _ => r is None,
        },
        r matches Some(m) ==> (ev matches SurgeEvent::PriceUpdate(u) && u.wf() ==> m.wf()),
{
    match ev {
        SurgeEvent::PriceUpdate(u) => Option::Some(
            ServerMessage::Price {
                symbol: u.data.symbol.clone(),
                price: u.data.price.clone(),
                timestamp: u.data.source_timestamp_ms,
                feed_id: crate::types::clone_opt_string(&u.data.feed_id),
            },
        ),
        SurgeEvent::Error(e) => Option::Some(ServerMessage::Error { message: e.clone() }),
        _ => Option::None,
    }
}

} // verus!
