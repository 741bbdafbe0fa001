//! Encoding and decoding of the wire messages.
//!
//! Outbound messages are rendered exactly as the compact JSON form the
//! upstream service expects, and each encoder's contract pins the produced
//! text character by character. Inbound messages are parsed with
//! [`crate::json::parse_json`] and then mapped onto the typed messages, with
//! contracts that pin the mapping exactly.

use vstd::prelude::*;

use crate::json::{
    all_digits, doc_matches, is_digit, is_int_token, json_wf, spec_json, spec_obj_get,
    spec_obj_get_d, JsonDoc, JsonValue,
};
use crate::types::{
    SubscriptionRequest, SurgeError, SurgeFeedInfo, SurgeUpdate, SurgeUpdateData, SymbolRequest,
};

verus! {

/// The character for a hexadecimal digit, lower case.
pub open spec fn hex_char(d: int) -> char {
    if d < 10 {
        crate::text::digit_char(d)
    } else if d == 10 {
        'a'
    } else if d == 11 {
        'b'
    } else if d == 12 {
        'c'
    } else if d == 13 {
        'd'
    } else if d == 14 {
        'e'
    } else {
        'f'
    }
}

/// How one character appears inside a JSON string literal.
pub open spec fn esc_char(c: char) -> Seq<char> {
    if c == '"' {
        seq!['\\', '"']
    } else if c == '\\' {
        seq!['\\', '\\']
    } else if c == '\u{0008}' {
        seq!['\\', 'b']
    } else if c == '\u{000C}' {
        seq!['\\', 'f']
    } else if c == '\n' {
        seq!['\\', 'n']
    } else if c == '\r' {
        seq!['\\', 'r']
    } else if c == '\t' {
        seq!['\\', 't']
    } else if (c as u32) < 32 {
        seq!['\\', 'u', '0', '0', hex_char((c as u32) as int / 16), hex_char((c as u32) as int % 16)]
    } else {
        seq![c]
    }
}

/// The escaped body of a JSON string literal.
pub open spec fn esc_seq(s: Seq<char>) -> Seq<char>
    decreases s.len(),
{
    if s.len() == 0 {
        Seq::empty()
    } else {
        esc_char(s[0]).add(esc_seq(s.drop_first()))
    }
}

/// Escaping a sequence one character longer appends that character's escape.
pub proof fn lemma_esc_push(s: Seq<char>, c: char)
    ensures
        esc_seq(s.push(c)) == esc_seq(s).add(esc_char(c)),
    decreases s.len(),
{
    let p = s.push(c);
    if s.len() == 0 {
        assert(p.len() == 1);
        assert(p[0] == c);
        assert(p.drop_first() =~= Seq::<char>::empty());
        assert(esc_seq(p.drop_first()) =~= Seq::<char>::empty());
        assert(esc_seq(p) =~= esc_char(c));
        assert(esc_seq(s).add(esc_char(c)) =~= esc_char(c));
    } else {
        assert(p.drop_first() =~= s.drop_first().push(c));
        lemma_esc_push(s.drop_first(), c);
        assert(esc_seq(p) == esc_char(s[0]).add(esc_seq(s.drop_first()).add(esc_char(c))));
        assert(esc_char(s[0]).add(esc_seq(s.drop_first()).add(esc_char(c))) =~= esc_seq(s).add(
            esc_char(c),
        ));
    }
}

/// A complete JSON string literal for `s`: quotes around the escaped body.
pub open spec fn json_quote(s: Seq<char>) -> Seq<char> {
    seq!['"'].add(esc_seq(s)).add(seq!['"'])
}

/// A one-character string slice for a hexadecimal digit.
fn hex_str(d: u32) -> (r: &'static str)
    requires
        d < 16,
    ensures
        r@ =~= seq![hex_char(d as int)],
{
    proof {
        reveal_strlit("a");
        reveal_strlit("b");
        reveal_strlit("c");
        reveal_strlit("d");
        reveal_strlit("e");
        reveal_strlit("f");
    }
    if d < 10 {
        crate::text::digit_str(d as u64)
    } else if d == 10 {
        "a"
    } else if d == 11 {
        "b"
    } else if d == 12 {
        "c"
    } else if d == 13 {
        "d"
    } else if d == 14 {
        "e"
    } else {
        "f"
    }
}

/// Append the JSON string literal for `s` to `out`.
pub fn write_json_string(out: &mut String, s: &str)
    ensures
        final(out)@ == old(out)@ + json_quote(s@),
{
    proof {
        reveal_strlit("\"");
        reveal_strlit("\\\"");
        reveal_strlit("\\\\");
        reveal_strlit("\\b");
        reveal_strlit("\\f");
        reveal_strlit("\\n");
        reveal_strlit("\\r");
        reveal_strlit("\\t");
        reveal_strlit("\\u00");
    }
    out.append("\"");
    let len = s.unicode_len();
    let mut i: usize = 0;
    proof {
        assert(s@.take(0) =~= Seq::<char>::empty());
        assert(out@ =~= old(out)@ + seq!['"'] + esc_seq(s@.take(0)));
    }
    while i < len
        invariant
            len == s@.len(),
            i <= len,
            out@ == old(out)@ + seq!['"'] + esc_seq(s@.take(i as int)),
        decreases len - i,
    {
        proof {
            reveal_strlit("\\\"");
            reveal_strlit("\\\\");
            reveal_strlit("\\b");
            reveal_strlit("\\f");
            reveal_strlit("\\n");
            reveal_strlit("\\r");
            reveal_strlit("\\t");
            reveal_strlit("\\u00");
        }
        let ghost pre = out@;
        let c = s.get_char(i);
        if c == '"' {
            out.append("\\\"");
            proof {
                assert("\\\""@ =~= seq!['\\', '"']);
            }
        } else if c == '\\' {
            out.append("\\\\");
            proof {
                assert("\\\\"@ =~= seq!['\\', '\\']);
            }
        } else if (c as u32) == 8 {
            out.append("\\b");
            proof {
                assert(c == '\u{0008}');
                assert("\\b"@ =~= seq!['\\', 'b']);
            }
        } else if (c as u32) == 12 {
            out.append("\\f");
            proof {
                assert(c == '\u{000C}');
                assert("\\f"@ =~= seq!['\\', 'f']);
            }
        } else if c == '\n' {
            out.append("\\n");
            proof {
                assert("\\n"@ =~= seq!['\\', 'n']);
            }
        } else if c == '\r' {
            out.append("\\r");
            proof {
                assert("\\r"@ =~= seq!['\\', 'r']);
            }
        } else if c == '\t' {
            out.append("\\t");
            proof {
                assert("\\t"@ =~= seq!['\\', 't']);
            }
        } else if (c as u32) < 32 {
            out.append("\\u00");
            let u = c as u32;
            out.append(hex_str(u / 16));
            out.append(hex_str(u % 16));
            proof {
                assert("\\u00"@ =~= seq!['\\', 'u', '0', '0']);
                assert((u / 16) as int == (c as u32) as int / 16);
                assert((u % 16) as int == (c as u32) as int % 16);
                assert(esc_char(c) =~= seq!['\\', 'u', '0', '0', hex_char((c as u32) as int / 16), hex_char((c as u32) as int % 16)]);
            }
        } else {
            out.append(s.substring_char(i, i + 1));
            proof {
                assert(s@.subrange(i as int, i + 1) =~= seq![c]);
            }
        }
        proof {
            lemma_esc_push(s@.take(i as int), c);
            assert(s@.take(i + 1) =~= s@.take(i as int).push(c));
            assert(out@ =~= pre + esc_char(c));
            assert(out@ =~= old(out)@ + seq!['"'] + esc_seq(s@.take(i + 1)));
        }
        i = i + 1;
    }
    out.append("\"");
    proof {
        assert(s@.take(len as int) =~= s@);
        assert(out@ =~= old(out)@ + json_quote(s@));
    }
}

/// The numeric value of a run of decimal digits.
pub open spec fn dec_value(s: Seq<char>) -> int
    decreases s.len(),
{
    if s.len() == 0 {
        0
    } else {
        dec_value(s.drop_last()) * 10 + (s.last() as int - '0' as int)
    }
}

/// The value of an integer token, with an optional leading minus sign.
pub open spec fn int_token_value(s: Seq<char>) -> int {
    if s.len() >= 1 && s[0] == '-' {
        -dec_value(s.subrange(1, s.len() as int))
    } else {
        dec_value(s)
    }
}

/// A digit character's numeric distance from `'0'` is between zero and nine.
pub proof fn lemma_digit_bounds(c: char)
    requires
        is_digit(c),
    ensures
        0 <= c as int - '0' as int <= 9,
{
    assert((c as u32) as int == c as int);
}

/// A digit run's value is never negative.
pub proof fn lemma_dec_value_nonneg(s: Seq<char>)
    requires
        all_digits(s),
    ensures
        dec_value(s) >= 0,
    decreases s.len(),
{
    if s.len() > 0 {
        assert(all_digits(s.drop_last())) by {
            assert(forall|k: int|
                0 <= k < s.drop_last().len() ==> s.drop_last()[k] == #[trigger] s[k]);
        }
        lemma_dec_value_nonneg(s.drop_last());
        assert(is_digit(s[s.len() - 1]));
        lemma_digit_bounds(s[s.len() - 1]);
        assert(s.last() == s[s.len() - 1]);
    }
}

/// Extending a digit run can only grow its value.
pub proof fn lemma_dec_value_monotone(s: Seq<char>, i: int)
    requires
        all_digits(s),
        0 <= i <= s.len(),
    ensures
        dec_value(s.take(i)) <= dec_value(s),
    decreases s.len() - i,
{
    if i < s.len() {
        let t = s.take(i + 1);
        assert(t.drop_last() =~= s.take(i));
        assert(all_digits(s.take(i))) by {
            assert(forall|k: int| 0 <= k < i ==> s.take(i)[k] == #[trigger] s[k]);
        }
        lemma_dec_value_nonneg(s.take(i));
        assert(is_digit(s[i]));
        lemma_digit_bounds(s[i]);
        assert(t.last() == s[i]);
        assert(dec_value(t) == dec_value(s.take(i)) * 10 + (s[i] as int - '0' as int));
        assert(dec_value(s.take(i)) <= dec_value(t));
        lemma_dec_value_monotone(s, i + 1);
        assert(s.take(s.len() as int) =~= s);
    } else {
        assert(s.take(i) =~= s);
    }
}

/// Read an unsigned decimal value from a pure digit run.
fn parse_digits_u64(s: &str, limit: u64) -> (r: Option<u64>)
    requires
        s@.len() >= 1,
        all_digits(s@),
    ensures
        r matches Some(v) ==> v as int == dec_value(s@) && v <= limit,
        r is None ==> dec_value(s@) > limit,
{
    let len = s.unicode_len();
    let mut acc: u64 = 0;
    let mut i: usize = 0;
    proof {
        assert(s@.take(0) =~= Seq::<char>::empty());
    }
    while i < len
        invariant
            len == s@.len(),
            all_digits(s@),
            i <= len,
            acc as int == dec_value(s@.take(i as int)),
            acc <= limit,
        decreases len - i,
    {
        let c = s.get_char(i);
        proof {
            assert(is_digit(s@[i as int]));
        }
        let d = (c as u32) - ('0' as u32);
        let dd = d as u64;
        if acc > limit / 10 || (acc == limit / 10 && dd > limit % 10) {
            proof {
                assert(s@.take(i + 1).drop_last() =~= s@.take(i as int));
                assert(dec_value(s@.take(i + 1)) == acc as int * 10 + dd as int);
                assert(dec_value(s@.take(i + 1)) > limit);
                lemma_dec_value_monotone(s@, i + 1);
            }
            return None;
        }
        proof {
            assert(s@.take(i + 1).drop_last() =~= s@.take(i as int));
        }
        acc = acc * 10 + dd;
        i = i + 1;
    }
    proof {
        assert(s@.take(len as int) =~= s@);
    }
    Some(acc)
}

/// Read a signed integer token; rejects anything that is not an integer
/// token or does not fit in the type.
pub fn parse_i64(s: &str) -> (r: Option<i64>)
    ensures
        r matches Some(v) ==> is_int_token(s@) && v as int == int_token_value(s@),
        r is None ==> !is_int_token(s@) || int_token_value(s@) > i64::MAX || int_token_value(s@)
            < i64::MIN,
{
    let len = s.unicode_len();
    if len == 0 {
        return None;
    }
    let neg = s.get_char(0) == '-';
    let dstart: usize = if neg {
        1
    } else {
        0
    };
    let digits_len = len - dstart;
    if digits_len == 0 {
        return None;
    }
    let digits = s.substring_char(dstart, len);
    let ghost dv = s@.subrange(dstart as int, len as int);
    // every character must be a digit
    let mut i: usize = 0;
    while i < digits_len
        invariant
            len == s@.len(),
            len >= 1,
            neg == (s@[0] == '-'),
            neg ==> dstart == 1,
            !neg ==> dstart == 0,
            digits_len >= 1,
            dstart + digits_len == len,
            dstart <= 1,
            digits@ == dv,
            dv == s@.subrange(dstart as int, len as int),
            i <= digits_len,
            digits_len == dv.len(),
            forall|k: int| 0 <= k < i ==> is_digit(#[trigger] dv[k]),
        decreases digits_len - i,
    {
        let c = s.get_char(dstart + i);
        if !(('0' as u32) <= (c as u32) && (c as u32) <= ('9' as u32)) {
            proof {
                assert(dv[i as int] == s@[dstart + i]);
                assert(!is_digit(dv[i as int]));
                if is_int_token(s@) {
                    if neg {
                        assert(all_digits(s@.subrange(1, s@.len() as int)));
                    } else {
                        assert(s@.subrange(0, s@.len() as int) =~= s@);
                        assert(all_digits(dv));
                    }
                }
            }
            return None;
        }
        i = i + 1;
    }
    proof {
        assert(all_digits(dv));
    }
    // no leading zero unless the run is exactly "0"
    if digits_len > 1 && s.get_char(dstart) == '0' {
        proof {
            assert(dv[0] == s@[dstart as int]);
            if neg {
                assert(!is_int_token(s@));
            } else {
                assert(s@ =~= dv);
                assert(!is_int_token(s@));
            }
        }
        return None;
    }
    proof {
        if neg {
            assert(is_int_token(s@));
        } else {
            assert(s@ =~= dv);
            assert(is_int_token(s@));
        }
    }
    if neg {
        let limit: u64 = 9223372036854775808;
        match parse_digits_u64(digits, limit) {
            None => {
                proof {
                    assert(int_token_value(s@) == -dec_value(dv));
                }
                None
            },
            Some(v) => {
                let out: i64 = if v == limit {
                    i64::MIN
                } else {
                    -((v as i64))
                };
                proof {
                    assert(int_token_value(s@) == -dec_value(dv));
                }
                Some(out)
            },
        }
    } else {
        let limit: u64 = 9223372036854775807;
        match parse_digits_u64(digits, limit) {
            None => {
                proof {
                    assert(s@ =~= dv);
                }
                None
            },
            Some(v) => {
                proof {
                    assert(s@ =~= dv);
                }
                Some(v as i64)
            },
        }
    }
}

/// Read an unsigned integer token; rejects a sign, a non-digit, or a value
/// that does not fit.
pub fn parse_u64(s: &str) -> (r: Option<u64>)
    ensures
        r matches Some(v) ==> s@.len() >= 1 && all_digits(s@) && v as int == dec_value(s@),
        r is None ==> s@.len() == 0 || !all_digits(s@) || dec_value(s@) > u64::MAX,
{
    let len = s.unicode_len();
    if len == 0 {
        return None;
    }
    let mut i: usize = 0;
    while i < len
        invariant
            len == s@.len(),
            i <= len,
            forall|k: int| 0 <= k < i ==> is_digit(#[trigger] s@[k]),
        decreases len - i,
    {
        let c = s.get_char(i);
        if !(('0' as u32) <= (c as u32) && (c as u32) <= ('9' as u32)) {
            return None;
        }
        i = i + 1;
    }
    parse_digits_u64(s, u64::MAX)
}

/// The wire text of one symbol wrapper object.
pub open spec fn spec_symbol_obj(s: Seq<char>) -> Seq<char> {
    "{\"symbol\":"@ + json_quote(s) + "}"@
}

/// The wire text of a comma-separated list of symbol wrapper objects.
pub open spec fn spec_symbol_list(symbols: Seq<Seq<char>>) -> Seq<char>
    decreases symbols.len(),
{
    if symbols.len() == 0 {
        Seq::empty()
    } else if symbols.len() == 1 {
        spec_symbol_obj(symbols[0])
    } else {
        spec_symbol_list(symbols.drop_last()) + seq![','] + spec_symbol_obj(symbols.last())
    }
}

/// The complete wire text of a subscribe or unsubscribe request.
pub open spec fn spec_subscription_request(action: Seq<char>, symbols: Seq<Seq<char>>) -> Seq<
    char,
> {
    "{\"action\":"@ + json_quote(action) + ",\"symbols\":["@ + spec_symbol_list(symbols) + "]}"@
}

impl SubscriptionRequest {
    /// The symbols named by the request, in order.
    pub open spec fn symbols_view(&self) -> Seq<Seq<char>> {
        self.symbols@.map_values(|sr: SymbolRequest| sr.symbol@)
    }

    /// Render the request exactly as it is sent upstream.
    pub fn to_json_string(&self) -> (r: String)
        ensures
            r@ == spec_subscription_request(self.action@, self.symbols_view()),
    {
        let mut out = String::from_str("{\"action\":");
        write_json_string(&mut out, self.action.as_str());
        out.append(",\"symbols\":[");
        let n = self.symbols.len();
        let mut i: usize = 0;
        proof {
            assert(self.symbols_view().take(0) =~= Seq::<Seq<char>>::empty());
        }
        while i < n
            invariant
                n == self.symbols@.len(),
                i <= n,
                out@ == "{\"action\":"@ + json_quote(self.action@) + ",\"symbols\":["@
                    + spec_symbol_list(self.symbols_view().take(i as int)),
            decreases n - i,
        {
            if i > 0 {
                out.append(",");
            }
            out.append("{\"symbol\":");
            write_json_string(&mut out, self.symbols[i].symbol.as_str());
            out.append("}");
            proof {
                reveal_strlit(",");
                let sv = self.symbols_view();
                assert(sv[i as int] == self.symbols@[i as int].symbol@);
                assert(sv.take(i + 1).drop_last() =~= sv.take(i as int));
                assert(sv.take(i + 1).last() == sv[i as int]);
                assert(out@ =~= "{\"action\":"@ + json_quote(self.action@) + ",\"symbols\":["@
                    + spec_symbol_list(sv.take(i + 1)));
            }
            i = i + 1;
        }
        out.append("]}");
        proof {
            assert(self.symbols_view().take(n as int) =~= self.symbols_view());
            assert(out@ =~= spec_subscription_request(self.action@, self.symbols_view()));
        }
        out
    }
}

/// Whether the field is absent, null, or a string: the shapes an optional
/// text field accepts.
pub open spec fn opt_text_ok(fields: Seq<(String, JsonValue)>, key: Seq<char>) -> bool {
    match spec_obj_get(fields, key) {
        Option::None => true,
        Option::Some(v) => v matches JsonValue::Null || v matches JsonValue::Text(_),
    }
}

/// The text of an optional field, when it is present as a string.
pub open spec fn opt_text_val(fields: Seq<(String, JsonValue)>, key: Seq<char>) -> Option<
    Seq<char>,
> {
    match spec_obj_get(fields, key) {
        Option::Some(JsonValue::Text(t)) => Option::Some(t@),
        _ => Option::None,
    }
}

/// The view of an optional string.
pub open spec fn view_opt(o: Option<String>) -> Option<Seq<char>> {
    match o {
        Option::None => Option::None,
        Option::Some(s) => Option::Some(s@),
    }
}

/// Extract an optional text field; `None` means the field had a wrong shape.
fn opt_text_field(fields: &Vec<(String, JsonValue)>, key: &str) -> (r: Option<Option<String>>)
    ensures
        r is Some <==> opt_text_ok(fields@, key@),
        r matches Some(o) ==> view_opt(o) == opt_text_val(fields@, key@),
{
    match crate::json::obj_get(fields, key) {
        Option::None => Option::Some(Option::None),
        Option::Some(v) => match v {
            JsonValue::Null => Option::Some(Option::None),
            JsonValue::Text(t) => Option::Some(Option::Some(t.clone())),
            _ => Option::None,
        },
    }
}

/// The shape of the payload object of an upstream update.
pub open spec fn data_shape_ok(data: Seq<(String, JsonValue)>) -> bool {
    &&& spec_obj_get(data, "symbol"@) matches Option::Some(JsonValue::Text(_))
    &&& spec_obj_get(data, "price"@) matches Option::Some(JsonValue::Num(_))
    &&& match spec_obj_get(data, "source_ts_ms"@) {
        Option::Some(JsonValue::Num(t)) => is_int_token(t@) && i64::MIN <= int_token_value(t@)
            <= i64::MAX,
        _ => false,
    }
    &&& opt_text_ok(data, "feed_id"@)
    &&& opt_text_ok(data, "signature"@)
    &&& opt_text_ok(data, "oracle_pubkey"@)
}

/// The shape of a complete upstream update message: the `type` tag is
/// optional, the payload is required.
pub open spec fn update_shape_ok(v: JsonValue) -> bool {
    match v {
        JsonValue::Obj(fields) => {
            &&& opt_text_ok(fields@, "type"@)
            &&& match spec_obj_get(fields@, "data"@) {
                Option::Some(JsonValue::Obj(data)) => data_shape_ok(data@),
                _ => false,
            }
        },
        _ => false,
    }
}

/// Field-by-field agreement between a parsed document and a decoded update.
pub open spec fn update_matches(v: JsonValue, u: SurgeUpdate) -> bool {
    match v {
        JsonValue::Obj(fields) => {
            &&& view_opt(u.event_type) == opt_text_val(fields@, "type"@)
            &&& match spec_obj_get(fields@, "data"@) {
                Option::Some(JsonValue::Obj(data)) => {
                    &&& (spec_obj_get(data@, "symbol"@) matches Option::Some(JsonValue::Text(t))
                        && u.data.symbol@ == t@)
                    &&& (spec_obj_get(data@, "price"@) matches Option::Some(JsonValue::Num(p))
                        && u.data.price@ == p@)
                    &&& (spec_obj_get(data@, "source_ts_ms"@) matches Option::Some(
                        JsonValue::Num(ts),
                    ) && u.data.source_timestamp_ms as int == int_token_value(ts@))
                    &&& view_opt(u.data.feed_id) == opt_text_val(data@, "feed_id"@)
                    &&& view_opt(u.data.signature) == opt_text_val(data@, "signature"@)
                    &&& view_opt(u.data.oracle_pubkey) == opt_text_val(data@, "oracle_pubkey"@)
                },
                _ => false,
            }
        },
        _ => false,
    }
}


/// Whether the field is absent, null, or a string, at the document level.
pub open spec fn opt_text_ok_d(fs: Seq<(Seq<char>, JsonDoc)>, key: Seq<char>) -> bool {
    match spec_obj_get_d(fs, key) {
        Option::None => true,
        Option::Some(v) => v matches JsonDoc::Null || v matches JsonDoc::Text(_),
    }
}

/// The text of an optional field, at the document level.
pub open spec fn opt_text_val_d(fs: Seq<(Seq<char>, JsonDoc)>, key: Seq<char>) -> Option<
    Seq<char>,
> {
    match spec_obj_get_d(fs, key) {
        Option::Some(JsonDoc::Text(t)) => Option::Some(t),
        _ => Option::None,
    }
}

/// The shape of the payload object of an upstream update, at the document
/// level.
pub open spec fn data_shape_ok_d(data: Seq<(Seq<char>, JsonDoc)>) -> bool {
    &&& spec_obj_get_d(data, "symbol"@) matches Option::Some(JsonDoc::Text(_))
    &&& spec_obj_get_d(data, "price"@) matches Option::Some(JsonDoc::Num(_))
    &&& match spec_obj_get_d(data, "source_ts_ms"@) {
        Option::Some(JsonDoc::Num(t)) => is_int_token(t) && i64::MIN <= int_token_value(t)
            <= i64::MAX,
        _ => false,
    }
    &&& opt_text_ok_d(data, "feed_id"@)
    &&& opt_text_ok_d(data, "signature"@)
    &&& opt_text_ok_d(data, "oracle_pubkey"@)
}

/// The shape of a complete upstream update message, at the document level.
pub open spec fn update_shape_ok_d(d: JsonDoc) -> bool {
    match d {
        JsonDoc::Obj(fs) => {
            &&& opt_text_ok_d(fs, "type"@)
            &&& match spec_obj_get_d(fs, "data"@) {
                Option::Some(JsonDoc::Obj(ds)) => data_shape_ok_d(ds),
                _ => false,
            }
        },
        _ => false,
    }
}

/// Field-by-field agreement between a pure document and a decoded update.
pub open spec fn update_matches_d(d: JsonDoc, u: SurgeUpdate) -> bool {
    match d {
        JsonDoc::Obj(fs) => {
            &&& view_opt(u.event_type) == opt_text_val_d(fs, "type"@)
            &&& match spec_obj_get_d(fs, "data"@) {
                Option::Some(JsonDoc::Obj(ds)) => {
                    &&& (spec_obj_get_d(ds, "symbol"@) matches Option::Some(JsonDoc::Text(t))
                        && u.data.symbol@ == t)
                    &&& (spec_obj_get_d(ds, "price"@) matches Option::Some(JsonDoc::Num(p))
                        && u.data.price@ == p)
                    &&& (spec_obj_get_d(ds, "source_ts_ms"@) matches Option::Some(
                        JsonDoc::Num(ts),
                    ) && u.data.source_timestamp_ms as int == int_token_value(ts))
                    &&& view_opt(u.data.feed_id) == opt_text_val_d(ds, "feed_id"@)
                    &&& view_opt(u.data.signature) == opt_text_val_d(ds, "signature"@)
                    &&& view_opt(u.data.oracle_pubkey) == opt_text_val_d(ds, "oracle_pubkey"@)
                },
                _ => false,
            }
        },
        _ => false,
    }
}

/// The update predicates agree between a parsed node and its pure document.
pub proof fn lemma_update_doc_corr(v: JsonValue, d: JsonDoc, u: SurgeUpdate)
    requires
        doc_matches(v, d),
    ensures
        update_shape_ok(v) <==> update_shape_ok_d(d),
        update_shape_ok(v) ==> (update_matches(v, u) <==> update_matches_d(d, u)),
{
    match v {
        JsonValue::Obj(fields) => {
            match d {
                JsonDoc::Obj(fs) => {
                    crate::json::lemma_doc_obj_get(fields@, fs, "type"@);
                    crate::json::lemma_doc_obj_get(fields@, fs, "data"@);
                    match spec_obj_get(fields@, "data"@) {
                        Option::Some(JsonValue::Obj(data)) => {
                            match spec_obj_get_d(fs, "data"@) {
                                Option::Some(JsonDoc::Obj(ds)) => {
                                    crate::json::lemma_doc_obj_get(data@, ds, "symbol"@);
                                    crate::json::lemma_doc_obj_get(data@, ds, "price"@);
                                    crate::json::lemma_doc_obj_get(data@, ds, "source_ts_ms"@);
                                    crate::json::lemma_doc_obj_get(data@, ds, "feed_id"@);
                                    crate::json::lemma_doc_obj_get(data@, ds, "signature"@);
                                    crate::json::lemma_doc_obj_get(data@, ds, "oracle_pubkey"@);
                                },
                                _ => {},
                            }
                        },
                        _ => {},
                    }
                },
                _ => {},
            }
        },
        _ => {},
    }
}

/// Map a parsed document onto a typed update; any shape mismatch refuses the
/// whole message.
pub fn update_of_json(v: &JsonValue) -> (r: Option<SurgeUpdate>)
    requires
        json_wf(*v),
    ensures
        r is Some <==> update_shape_ok(*v),
        r matches Some(u) ==> u.wf() && update_matches(*v, u),
{
    let fields = match v {
        JsonValue::Obj(f) => f,
        _ => {
            return Option::None;
        },
    };
    let event_type = match opt_text_field(fields, "type") {
        Option::Some(o) => o,
        Option::None => {
            return Option::None;
        },
    };
    proof {
        crate::json::lemma_obj_get_wf(fields@, "data"@);
    }
    let data_fields = match crate::json::obj_get(fields, "data") {
        Option::Some(dv) => match dv {
            JsonValue::Obj(d) => d,
            _ => {
                return Option::None;
            },
        },
        Option::None => {
            return Option::None;
        },
    };
    let symbol = match crate::json::obj_get(data_fields, "symbol") {
        Option::Some(sv) => match sv {
            JsonValue::Text(t) => t.clone(),
            _ => {
                return Option::None;
            },
        },
        Option::None => {
            return Option::None;
        },
    };
    proof {
        crate::json::lemma_obj_get_wf(data_fields@, "price"@);
    }
    let price = match crate::json::obj_get(data_fields, "price") {
        Option::Some(pv) => match pv {
            JsonValue::Num(p) => p.clone(),
            _ => {
                return Option::None;
            },
        },
        Option::None => {
            return Option::None;
        },
    };
    let ts = match crate::json::obj_get(data_fields, "source_ts_ms") {
        Option::Some(tv) => match tv {
            JsonValue::Num(t) => match parse_i64(t.as_str()) {
                Option::Some(x) => x,
                Option::None => {
                    return Option::None;
                },
            },
            _ => {
                return Option::None;
            },
        },
        Option::None => {
            return Option::None;
        },
    };
    let feed_id = match opt_text_field(data_fields, "feed_id") {
        Option::Some(o) => o,
        Option::None => {
            return Option::None;
        },
    };
    let signature = match opt_text_field(data_fields, "signature") {
        Option::Some(o) => o,
        Option::None => {
            return Option::None;
        },
    };
    let oracle_pubkey = match opt_text_field(data_fields, "oracle_pubkey") {
        Option::Some(o) => o,
        Option::None => {
            return Option::None;
        },
    };
    Option::Some(
        SurgeUpdate {
            event_type,
            data: SurgeUpdateData {
                symbol,
                price,
                source_timestamp_ms: ts,
                feed_id,
                signature,
                oracle_pubkey,
            },
        },
    )
}

/// Decode one inbound text frame into a price update: it succeeds exactly
/// when the text is a complete JSON document of the update shape, and the
/// decoded fields are exactly the document's. Anything else is refused, so
/// the caller drops it silently.
pub fn decode_price_update(s: &str) -> (r: Option<SurgeUpdate>)
    ensures
        r is Some <==> (spec_json(s@) matches Some(d) && update_shape_ok_d(d)),
        r matches Some(u) ==> u.wf() && (spec_json(s@) matches Some(d) && update_matches_d(d, u)),
{
    match crate::json::parse_json(s) {
        Option::None => Option::None,
        Option::Some(v) => {
            let r = update_of_json(&v);
            proof {
                match spec_json(s@) {
                    Option::Some(d) => {
                        match &r {
                            Option::Some(u) => {
                                lemma_update_doc_corr(v, d, *u);
                            },
                            Option::None => {
                                lemma_update_doc_corr(v, d, arbitrary());
                            },
                        }
                    },
                    Option::None => {},
                }
            }
            r
        },
    }
}

/// The text of an optional boolean field.
pub open spec fn opt_bool_val(fields: Seq<(String, JsonValue)>, key: Seq<char>) -> Option<bool> {
    match spec_obj_get(fields, key) {
        Option::Some(JsonValue::Bool(b)) => Option::Some(b),
        _ => Option::None,
    }
}

/// The shape of one feed description object.
pub open spec fn feed_info_shape_ok(fields: Seq<(String, JsonValue)>) -> bool {
    &&& spec_obj_get(fields, "symbol"@) matches Option::Some(JsonValue::Text(_))
    &&& opt_text_ok(fields, "feedId"@)
    &&& match spec_obj_get(fields, "active"@) {
        Option::None => true,
        Option::Some(JsonValue::Null) => true,
        Option::Some(JsonValue::Bool(_)) => true,
        _ => false,
    }
    &&& match spec_obj_get(fields, "updateFrequencyMs"@) {
        Option::None => true,
        Option::Some(JsonValue::Null) => true,
        Option::Some(JsonValue::Num(t)) => t@.len() >= 1 && all_digits(t@) && dec_value(t@)
            <= u64::MAX,
        _ => false,
    }
}

/// Field-by-field agreement between a feed description object and its
/// decoded form.
pub open spec fn feed_info_matches(fields: Seq<(String, JsonValue)>, info: SurgeFeedInfo) -> bool {
    &&& (spec_obj_get(fields, "symbol"@) matches Option::Some(JsonValue::Text(t)) && info.symbol@
        == t@)
    &&& view_opt(info.feed_id) == opt_text_val(fields, "feedId"@)
    &&& info.active == opt_bool_val(fields, "active"@)
    &&& match spec_obj_get(fields, "updateFrequencyMs"@) {
        Option::Some(JsonValue::Num(t)) => info.update_frequency_ms matches Option::Some(x)
            && x as int == dec_value(t@),
        _ => info.update_frequency_ms is None,
    }
}


/// The shape of one feed description object, at the document level.
pub open spec fn feed_info_shape_ok_d(fs: Seq<(Seq<char>, JsonDoc)>) -> bool {
    &&& spec_obj_get_d(fs, "symbol"@) matches Option::Some(JsonDoc::Text(_))
    &&& opt_text_ok_d(fs, "feedId"@)
    &&& match spec_obj_get_d(fs, "active"@) {
        Option::None => true,
        Option::Some(JsonDoc::Null) => true,
        Option::Some(JsonDoc::Bool(_)) => true,
        _ => false,
    }
    &&& match spec_obj_get_d(fs, "updateFrequencyMs"@) {
        Option::None => true,
        Option::Some(JsonDoc::Null) => true,
        Option::Some(JsonDoc::Num(t)) => t.len() >= 1 && all_digits(t) && dec_value(t)
            <= u64::MAX,
        _ => false,
    }
}

/// Field-by-field agreement between a feed description document and its
/// decoded form.
pub open spec fn feed_info_matches_d(fs: Seq<(Seq<char>, JsonDoc)>, info: SurgeFeedInfo) -> bool {
    &&& (spec_obj_get_d(fs, "symbol"@) matches Option::Some(JsonDoc::Text(t)) && info.symbol@
        == t)
    &&& view_opt(info.feed_id) == opt_text_val_d(fs, "feedId"@)
    &&& info.active == (match spec_obj_get_d(fs, "active"@) {
        Option::Some(JsonDoc::Bool(b)) => Option::Some(b),
        _ => Option::<bool>::None,
    })
    &&& match spec_obj_get_d(fs, "updateFrequencyMs"@) {
        Option::Some(JsonDoc::Num(t)) => info.update_frequency_ms matches Option::Some(x)
            && x as int == dec_value(t),
        _ => info.update_frequency_ms is None,
    }
}

/// The shape of the feed listing, at the document level.
pub open spec fn feed_list_shape_ok_d(d: JsonDoc) -> bool {
    match d {
        JsonDoc::Arr(ds) => forall|i: int|
            0 <= i < ds.len() ==> ((#[trigger] ds[i]) matches JsonDoc::Obj(fs)
                && feed_info_shape_ok_d(fs)),
        _ => false,
    }
}

/// The feed-description predicates agree between a parsed node and its pure
/// document.
pub proof fn lemma_feed_info_doc_corr(v: JsonValue, d: JsonDoc, info: SurgeFeedInfo)
    requires
        doc_matches(v, d),
    ensures
        (v matches JsonValue::Obj(f) && feed_info_shape_ok(f@)) <==> (d matches JsonDoc::Obj(fs)
            && feed_info_shape_ok_d(fs)),
        (v matches JsonValue::Obj(f) && feed_info_matches(f@, info)) ==> (d
            matches JsonDoc::Obj(fs) && feed_info_matches_d(fs, info)),
{
    match v {
        JsonValue::Obj(fields) => {
            match d {
                JsonDoc::Obj(fs) => {
                    crate::json::lemma_doc_obj_get(fields@, fs, "symbol"@);
                    crate::json::lemma_doc_obj_get(fields@, fs, "feedId"@);
                    crate::json::lemma_doc_obj_get(fields@, fs, "active"@);
                    crate::json::lemma_doc_obj_get(fields@, fs, "updateFrequencyMs"@);
                },
                _ => {},
            }
        },
        _ => {},
    }
}

/// Map one parsed object onto a feed description.
fn feed_info_of_json(v: &JsonValue) -> (r: Option<SurgeFeedInfo>)
    ensures
        r is Some <==> (v matches JsonValue::Obj(f) && feed_info_shape_ok(f@)),
        r matches Some(info) ==> (v matches JsonValue::Obj(f) && feed_info_matches(f@, info)),
{
    let fields = match v {
        JsonValue::Obj(f) => f,
        _ => {
            return Option::None;
        },
    };
    let symbol = match crate::json::obj_get(fields, "symbol") {
        Option::Some(sv) => match sv {
            JsonValue::Text(t) => t.clone(),
            _ => {
                return Option::None;
            },
        },
        Option::None => {
            return Option::None;
        },
    };
    let feed_id = match opt_text_field(fields, "feedId") {
        Option::Some(o) => o,
        Option::None => {
            return Option::None;
        },
    };
    let active = match crate::json::obj_get(fields, "active") {
        Option::None => Option::None,
        Option::Some(av) => match av {
            JsonValue::Null => Option::None,
            JsonValue::Bool(b) => Option::Some(*b),
            _ => {
                return Option::None;
            },
        },
    };
    let update_frequency_ms = match crate::json::obj_get(fields, "updateFrequencyMs") {
        Option::None => Option::None,
        Option::Some(fv) => match fv {
            JsonValue::Null => Option::None,
            JsonValue::Num(t) => match parse_u64(t.as_str()) {
                Option::Some(x) => Option::Some(x),
                Option::None => {
                    return Option::None;
                },
            },
            _ => {
                return Option::None;
            },
        },
    };
    Option::Some(SurgeFeedInfo { symbol, feed_id, active, update_frequency_ms })
}

/// The shape of the feed listing: an array of feed description objects.
pub open spec fn feed_list_shape_ok(v: JsonValue) -> bool {
    match v {
        JsonValue::Arr(items) => forall|i: int|
            0 <= i < items@.len() ==> ((#[trigger] items@[i]) matches JsonValue::Obj(f)
                && feed_info_shape_ok(f@)),
        _ => false,
    }
}

/// Map a parsed feed listing onto feed descriptions, in order.
pub fn feed_infos_of_json(v: &JsonValue) -> (r: Option<Vec<SurgeFeedInfo>>)
    ensures
        r is Some <==> feed_list_shape_ok(*v),
        r matches Some(list) ==> (v matches JsonValue::Arr(items) && list@.len() == items@.len()
            && forall|i: int|
            0 <= i < items@.len() ==> ((#[trigger] items@[i]) matches JsonValue::Obj(f)
                && feed_info_matches(f@, list@[i]))),
{
    let items = match v {
        JsonValue::Arr(xs) => xs,
        _ => {
            return Option::None;
        },
    };
    let n = items.len();
    let mut out: Vec<SurgeFeedInfo> = Vec::new();
    let mut i: usize = 0;
    while i < n
        invariant
            (*v) matches JsonValue::Arr(xs) && xs@ == items@,
            n == items@.len(),
            i <= n,
            out@.len() == i,
            forall|k: int|
                0 <= k < i ==> ((#[trigger] items@[k]) matches JsonValue::Obj(f)
                    && feed_info_shape_ok(f@) && feed_info_matches(f@, out@[k])),
        decreases n - i,
    {
        match feed_info_of_json(&items[i]) {
            Option::Some(info) => {
                out.push(info);
            },
            Option::None => {
                return Option::None;
            },
        }
        i = i + 1;
    }
    Option::Some(out)
}

/// Decode the feed listing returned by the upstream REST endpoint: it
/// succeeds exactly when the text is a JSON array of well-shaped feed
/// description objects, and the decoded entries are exactly the documents',
/// in order. Any other reply is a JSON error.
pub fn parse_surge_feeds(s: &str) -> (r: Result<Vec<SurgeFeedInfo>, SurgeError>)
    ensures
        r is Ok <==> (spec_json(s@) matches Some(d) && feed_list_shape_ok_d(d)),
        r matches Ok(list) ==> (spec_json(s@) matches Some(JsonDoc::Arr(ds)) && list@.len()
            == ds.len() && forall|i: int|
            0 <= i < ds.len() ==> ((#[trigger] ds[i]) matches JsonDoc::Obj(fs)
                && feed_info_matches_d(fs, list@[i]))),
        r matches Err(e) ==> e matches SurgeError::JsonError(m) && m@
            == "malformed feeds response"@,
{
    match crate::json::parse_json(s) {
        Option::None => Result::Err(
            SurgeError::JsonError(String::from_str("malformed feeds response")),
        ),
        Option::Some(v) => {
            let out = feed_infos_of_json(&v);
            proof {
                match spec_json(s@) {
                    Option::Some(d) => {
                        match &v {
                            JsonValue::Arr(items) => {
                                match d {
                                    JsonDoc::Arr(ds) => {
                                        match &out {
                                            Option::Some(list) => {
                                                assert forall|i: int|
                                                    0 <= i < ds.len() implies ((
                                                #[trigger] ds[i]) matches JsonDoc::Obj(fs)
                                                    && feed_info_shape_ok_d(fs)
                                                    && feed_info_matches_d(fs, list@[i])) by {
                                                    assert(doc_matches(items@[i], ds[i]));
                                                    lemma_feed_info_doc_corr(
                                                        items@[i],
                                                        ds[i],
                                                        list@[i],
                                                    );
                                                }
                                            },
                                            Option::None => {
                                                if feed_list_shape_ok_d(d) {
                                                    assert forall|i: int|
                                                        0 <= i < items@.len() implies ((
                                                    #[trigger] items@[i])
                                                        matches JsonValue::Obj(f)
                                                        && feed_info_shape_ok(f@)) by {
                                                        assert(doc_matches(items@[i], ds[i]));
                                                        lemma_feed_info_doc_corr(
                                                            items@[i],
                                                            ds[i],
                                                            arbitrary(),
                                                        );
                                                    }
                                                }
                                            },
                                        }
                                    },
                                    _ => {},
                                }
                            },
                            _ => {},
                        }
                    },
                    Option::None => {},
                }
            }
            match out {
                Option::Some(list) => Result::Ok(list),
                Option::None => Result::Err(
                    SurgeError::JsonError(String::from_str("malformed feeds response")),
                ),
            }
        },
    }
}

} // verus!
