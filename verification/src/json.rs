//! A small verified JSON reader.
//!
//! Inbound wire messages are JSON text; this module parses such text into a
//! tree of [`JsonValue`] nodes that the typed decoders then walk. The
//! reader's meaning is the pure function [`spec_json`], a specification-level
//! mirror of the grammar over [`JsonDoc`] documents: [`parse_json`] succeeds
//! exactly when `spec_json` assigns the text a document, and returns exactly
//! that document. Numbers are kept as their raw source token, validated
//! against the JSON number grammar, so no floating point enters the library;
//! an encoder can emit the token back verbatim.
//!
//! String escapes `\" \\ \/ \b \f \n \r \t` are decoded; `\uXXXX` escapes are
//! rejected, so a message using them is treated as malformed and dropped, as
//! the protocol's field values never need them.

use vstd::prelude::*;

verus! {

/// A parsed JSON document.
#[derive(Debug)]
pub enum JsonValue {
    Null,
    Bool(bool),
    /// A number, kept as its raw token text.
    Num(String),
    /// A string value, with escapes decoded.
    Text(String),
    Arr(Vec<JsonValue>),
    /// Key/value pairs in source order.
    Obj(Vec<(String, JsonValue)>),
}

/// Whether `c` is a decimal digit.
pub open spec fn is_digit(c: char) -> bool {
    ('0' as u32) <= (c as u32) && (c as u32) <= ('9' as u32)
}

/// Whether every character of `s` is a decimal digit.
pub open spec fn all_digits(s: Seq<char>) -> bool {
    forall|i: int| 0 <= i < s.len() ==> is_digit(#[trigger] s[i])
}

/// A run of digits with no leading zero (a lone zero is allowed).
pub open spec fn is_int_digits(s: Seq<char>) -> bool {
    &&& s.len() >= 1
    &&& all_digits(s)
    &&& (s[0] == '0' ==> s.len() == 1)
}

/// The integer part of a number token: an optional minus sign, then digits
/// without a leading zero.
pub open spec fn is_int_token(s: Seq<char>) -> bool {
    if s.len() >= 1 && s[0] == '-' {
        is_int_digits(s.subrange(1, s.len() as int))
    } else {
        is_int_digits(s)
    }
}

/// A fraction part: a dot followed by at least one digit.
pub open spec fn is_frac_part(s: Seq<char>) -> bool {
    &&& s.len() >= 2
    &&& s[0] == '.'
    &&& all_digits(s.subrange(1, s.len() as int))
}

/// An exponent part: `e` or `E`, an optional sign, then at least one digit.
pub open spec fn is_exp_part(s: Seq<char>) -> bool {
    &&& s.len() >= 2
    &&& (s[0] == 'e' || s[0] == 'E')
    &&& if s[1] == '+' || s[1] == '-' {
        s.len() >= 3 && all_digits(s.subrange(2, s.len() as int))
    } else {
        all_digits(s.subrange(1, s.len() as int))
    }
}

/// Whether `s` splits as a number token with integer part ending at `i` and
/// fraction part ending at `f`.
pub open spec fn number_split_at(s: Seq<char>, i: int, f: int) -> bool {
    &&& 0 <= i <= f <= s.len()
    &&& is_int_token(s.subrange(0, i))
    &&& (i == f || is_frac_part(s.subrange(i, f)))
    &&& (f == s.len() || is_exp_part(s.subrange(f, s.len() as int)))
}

/// The JSON number grammar: integer part, optional fraction, optional
/// exponent.
pub open spec fn is_number_token(s: Seq<char>) -> bool {
    exists|i: int, f: int| #[trigger] number_split_at(s, i, f)
}

/// Structural validity of a parsed document: every number node holds a valid
/// number token.
pub open spec fn json_wf(v: JsonValue) -> bool
    decreases v,
{
    match v {
        JsonValue::Null => true,
        JsonValue::Bool(_) => true,
        JsonValue::Num(tok) => is_number_token(tok@),
        JsonValue::Text(_) => true,
        JsonValue::Arr(items) => forall|i: int|
            0 <= i < items@.len() ==> json_wf(#[trigger] items@[i]),
        JsonValue::Obj(fields) => forall|i: int|
            0 <= i < fields@.len() ==> json_wf(#[trigger] fields@[i].1),
    }
}

/// The value of the first field named `key`, if any.
pub open spec fn spec_obj_get(fields: Seq<(String, JsonValue)>, key: Seq<char>) -> Option<
    JsonValue,
>
    decreases fields.len(),
{
    if fields.len() == 0 {
        None
    } else if fields[0].0@ == key {
        Some(fields[0].1)
    } else {
        spec_obj_get(fields.subrange(1, fields.len() as int), key)
    }
}

/// A value found by key lookup is one of the object's field values, so it
/// inherits the object's well-formedness.
pub proof fn lemma_obj_get_wf(fields: Seq<(String, JsonValue)>, key: Seq<char>)
    requires
        forall|i: int| 0 <= i < fields.len() ==> json_wf(#[trigger] fields[i].1),
    ensures
        spec_obj_get(fields, key) matches Some(x) ==> json_wf(x),
    decreases fields.len(),
{
    if fields.len() > 0 {
        if fields[0].0@ == key {
        } else {
            let rest = fields.subrange(1, fields.len() as int);
            assert(forall|i: int| 0 <= i < rest.len() ==> json_wf(#[trigger] rest[i].1)) by {
                assert(forall|i: int|
                    0 <= i < rest.len() ==> #[trigger] rest[i] == fields[i + 1]);
            }
            lemma_obj_get_wf(rest, key);
        }
    }
}

/// Look a key up in an object's field list, first match wins.
pub fn obj_get<'a>(fields: &'a Vec<(String, JsonValue)>, key: &str) -> (r: Option<&'a JsonValue>)
    ensures
        match r {
            Some(v) => spec_obj_get(fields@, key@) == Some(*v),
            None => spec_obj_get(fields@, key@) is None,
        },
{
    proof {
        assert(fields@.subrange(0, fields@.len() as int) =~= fields@);
    }
    let mut i: usize = 0;
    while i < fields.len()
        invariant
            i <= fields@.len(),
            spec_obj_get(fields@, key@) == spec_obj_get(
                fields@.subrange(i as int, fields@.len() as int),
                key@,
            ),
        decreases fields@.len() - i,
    {
        proof {
            assert(fields@.subrange(i as int, fields@.len() as int)[0] == fields@[i as int]);
            assert(fields@.subrange(i as int, fields@.len() as int).subrange(
                1,
                fields@.len() - i,
            ) =~= fields@.subrange(i + 1, fields@.len() as int));
        }
        if crate::text::str_eq(fields[i].0.as_str(), key) {
            return Some(&fields[i].1);
        }
        i = i + 1;
    }
    proof {
        assert(fields@.subrange(fields@.len() as int, fields@.len() as int).len() == 0);
    }
    None
}

/// Whether `c` is JSON whitespace.
pub open spec fn is_ws(c: char) -> bool {
    c == ' ' || c == '\t' || c == '\n' || c == '\r'
}

fn ws_check(c: char) -> (r: bool)
    ensures
        r == is_ws(c),
{
    c == ' ' || c == '\t' || c == '\n' || c == '\r'
}

fn digit_check(c: char) -> (r: bool)
    ensures
        r == is_digit(c),
{
    ('0' as u32) <= (c as u32) && (c as u32) <= ('9' as u32)
}

/// Advance past whitespace.
fn skip_ws(s: &str, len: usize, pos: usize) -> (r: usize)
    requires
        len == s@.len(),
        pos <= len,
    ensures
        pos <= r <= len,
        r as int == sp_ws(s@, pos as int),
{
    let mut p = pos;
    while p < len
        invariant
            len == s@.len(),
            pos <= p <= len,
            sp_ws(s@, pos as int) == sp_ws(s@, p as int),
        decreases len - p,
    {
        if !ws_check(s.get_char(p)) {
            return p;
        }
        p = p + 1;
    }
    p
}

/// Advance past decimal digits.
fn scan_digits(s: &str, len: usize, from: usize) -> (to: usize)
    requires
        len == s@.len(),
        from <= len,
    ensures
        from <= to <= len,
        forall|k: int| from <= k < to ==> is_digit(#[trigger] s@[k]),
        to as int == sp_digits(s@, from as int),
{
    let mut p = from;
    while p < len
        invariant
            len == s@.len(),
            from <= p <= len,
            forall|k: int| from <= k < p ==> is_digit(#[trigger] s@[k]),
            sp_digits(s@, from as int) == sp_digits(s@, p as int),
        decreases len - p,
    {
        if !digit_check(s.get_char(p)) {
            return p;
        }
        p = p + 1;
    }
    p
}

/// Read a string literal starting at the opening quote; escapes are decoded.
fn parse_string(s: &str, len: usize, pos: usize) -> (r: Option<(String, usize)>)
    requires
        len == s@.len(),
        pos < len,
    ensures
        r matches Some(x) ==> pos < x.1 <= len && sp_string(s@, pos as int) == Some(
            (x.0@, x.1 as int),
        ),
        r is None ==> sp_string(s@, pos as int) is None,
{
    if s.get_char(pos) != '"' {
        return None;
    }
    let mut out = String::new();
    let mut p = pos + 1;
    loop
        invariant
            len == s@.len(),
            pos < p <= len,
            sp_string(s@, pos as int) == sp_str_body(s@, p as int, out@),
        decreases len - p,
    {
        proof {
            reveal_strlit("\"");
            reveal_strlit("\\");
            reveal_strlit("/");
            reveal_strlit("\u{0008}");
            reveal_strlit("\u{000C}");
            reveal_strlit("\n");
            reveal_strlit("\r");
            reveal_strlit("\t");
        }
        if p >= len {
            return None;
        }
        let ghost pre = out@;
        let c = s.get_char(p);
        if c == '"' {
            return Some((out, p + 1));
        }
        if c == '\\' {
            if p + 1 >= len {
                return None;
            }
            let e = s.get_char(p + 1);
            if e == '"' {
                out.append("\"");
                proof {
                    assert(out@ =~= pre.push('"'));
                }
            } else if e == '\\' {
                out.append("\\");
                proof {
                    assert(out@ =~= pre.push('\\'));
                }
            } else if e == '/' {
                out.append("/");
                proof {
                    assert(out@ =~= pre.push('/'));
                }
            } else if e == 'b' {
                out.append("\u{0008}");
                proof {
                    assert(out@ =~= pre.push('\u{0008}'));
                }
            } else if e == 'f' {
                out.append("\u{000C}");
                proof {
                    assert(out@ =~= pre.push('\u{000C}'));
                }
            } else if e == 'n' {
                out.append("\n");
                proof {
                    assert(out@ =~= pre.push('\n'));
                }
            } else if e == 'r' {
                out.append("\r");
                proof {
                    assert(out@ =~= pre.push('\r'));
                }
            } else if e == 't' {
                out.append("\t");
                proof {
                    assert(out@ =~= pre.push('\t'));
                }
            } else {
                return None;
            }
            p = p + 2;
        } else if (c as u32) < 32 {
            return None;
        } else {
            out.append(s.substring_char(p, p + 1));
            proof {
                assert(s@.subrange(p as int, p + 1) =~= seq![c]);
                assert(out@ =~= pre.push(c));
            }
            p = p + 1;
        }
    }
}

/// Read a number token starting at `pos` and return it as raw text.
#[verifier::rlimit(30)]
fn parse_number(s: &str, len: usize, pos: usize) -> (r: Option<(String, usize)>)
    requires
        len == s@.len(),
        pos < len,
    ensures
        r matches Some(x) ==> {
            &&& pos < x.1 <= len
            &&& x.0@ == s@.subrange(pos as int, x.1 as int)
            &&& is_number_token(x.0@)
            &&& sp_number(s@, pos as int) == Some((x.0@, x.1 as int))
        },
        r is None ==> sp_number(s@, pos as int) is None,
{
    let mut p = pos;
    let neg = s.get_char(p) == '-';
    if neg {
        p = p + 1;
    }
    if p >= len {
        return None;
    }
    let dstart = p;
    let dend = scan_digits(s, len, dstart);
    if dend == dstart {
        return None;
    }
    if dend > dstart + 1 && s.get_char(dstart) == '0' {
        return None;
    }
    let int_end = dend;
    let mut frac_end = int_end;
    if frac_end < len && s.get_char(frac_end) == '.' {
        let fstart = frac_end + 1;
        let fend = scan_digits(s, len, fstart);
        if fend == fstart {
            return None;
        }
        frac_end = fend;
    }
    let mut end = frac_end;
    let ghost mut exp_sign: bool = false;
    let ghost mut estart_g: int = 0;
    if end < len && (s.get_char(end) == 'e' || s.get_char(end) == 'E') {
        let mut estart = end + 1;
        if estart < len && (s.get_char(estart) == '+' || s.get_char(estart) == '-') {
            proof {
                exp_sign = true;
            }
            estart = estart + 1;
        }
        proof {
            estart_g = estart as int;
        }
        let eend = scan_digits(s, len, estart);
        if eend == estart {
            return None;
        }
        end = eend;
    }
    let tok = String::from_str(s.substring_char(pos, end));
    proof {
        let t = s@.subrange(pos as int, end as int);
        let i0: int = int_end - pos;
        let f0: int = frac_end - pos;
        let ipart = t.subrange(0, i0);
        if neg {
            let digits = ipart.subrange(1, i0);
            assert(digits =~= s@.subrange(dstart as int, dend as int));
            assert(is_int_digits(digits));
        } else {
            assert(ipart =~= s@.subrange(dstart as int, dend as int));
            assert(is_int_digits(ipart));
        }
        assert(is_int_token(ipart));
        if f0 > i0 {
            let fpart = t.subrange(i0, f0);
            assert(fpart[0] == s@[frac_end - (f0 - i0) + 0 as int]);
            assert(fpart.subrange(1, fpart.len() as int) =~= s@.subrange(
                int_end + 1,
                frac_end as int,
            ));
            assert(is_frac_part(fpart));
        }
        if end - pos > f0 {
            let epart = t.subrange(f0, t.len() as int);
            assert(epart[0] == s@[frac_end as int]);
            if exp_sign {
                assert(epart[1] == s@[frac_end + 1]);
                assert(epart.subrange(2, epart.len() as int) =~= s@.subrange(
                    estart_g,
                    end as int,
                ));
            } else {
                assert(epart.subrange(1, epart.len() as int) =~= s@.subrange(
                    estart_g,
                    end as int,
                ));
            }
            assert(is_exp_part(epart));
        }
        assert(number_split_at(t, i0, f0));
    }
    Some((tok, end))
}

/// Read one JSON value starting exactly at `pos`.
fn parse_value(s: &str, len: usize, pos: usize) -> (r: Option<(JsonValue, usize)>)
    requires
        len == s@.len(),
        pos <= len,
    ensures
        r matches Some(x) ==> json_wf(x.0) && pos < x.1 <= len,
        r matches Some(x) ==> (sp_value(s@, pos as int) matches Some(y) && doc_matches(x.0, y.0)
            && y.1 == x.1 as int),
        r is None ==> sp_value(s@, pos as int) is None,
    decreases len - pos, 0int,
{
    if pos >= len {
        return None;
    }
    let c = s.get_char(pos);
    if c == '"' {
        match parse_string(s, len, pos) {
            Some(x) => Some((JsonValue::Text(x.0), x.1)),
            None => None,
        }
    } else if c == '-' || digit_check(c) {
        match parse_number(s, len, pos) {
            Some(x) => Some((JsonValue::Num(x.0), x.1)),
            None => None,
        }
    } else if c == '[' {
        parse_array(s, len, pos + 1)
    } else if c == '{' {
        parse_obj(s, len, pos + 1)
    } else if c == 't' {
        proof {
            reveal_strlit("true");
        }
        if len - pos >= 4 && crate::text::matches_at(s, "true", pos) {
            Some((JsonValue::Bool(true), pos + 4))
        } else {
            None
        }
    } else if c == 'f' {
        proof {
            reveal_strlit("false");
        }
        if len - pos >= 5 && crate::text::matches_at(s, "false", pos) {
            Some((JsonValue::Bool(false), pos + 5))
        } else {
            None
        }
    } else if c == 'n' {
        proof {
            reveal_strlit("null");
        }
        if len - pos >= 4 && crate::text::matches_at(s, "null", pos) {
            Some((JsonValue::Null, pos + 4))
        } else {
            None
        }
    } else {
        None
    }
}

/// Read the elements of an array, starting just after the opening bracket.
fn parse_array(s: &str, len: usize, pos: usize) -> (r: Option<(JsonValue, usize)>)
    requires
        len == s@.len(),
        pos <= len,
    ensures
        r matches Some(x) ==> json_wf(x.0) && pos <= x.1 <= len,
        r matches Some(x) ==> (sp_array(s@, pos as int) matches Some(y) && doc_matches(x.0, y.0)
            && y.1 == x.1 as int),
        r is None ==> sp_array(s@, pos as int) is None,
    decreases len - pos, 1int,
{
    let mut items: Vec<JsonValue> = Vec::new();
    let first = skip_ws(s, len, pos);
    proof {
        assert(first as int == sp_ws_c(s@, pos as int));
    }
    if first < len && s.get_char(first) == ']' {
        proof {
            assert(doc_matches(JsonValue::Arr(items), JsonDoc::Arr(Seq::empty())));
        }
        return Some((JsonValue::Arr(items), first + 1));
    }
    let mut p = first;
    let ghost mut docs: Seq<JsonDoc> = Seq::empty();
    loop
        invariant
            len == s@.len(),
            pos <= p <= len,
            forall|i: int| 0 <= i < items@.len() ==> json_wf(#[trigger] items@[i]),
            docs.len() == items@.len(),
            forall|i: int| 0 <= i < items@.len() ==> doc_matches(#[trigger] items@[i], docs[i]),
            sp_array(s@, pos as int) == sp_arr_elems(s@, p as int, docs),
        decreases len - p,
    {
        let q = skip_ws(s, len, p);
        proof {
            assert(q as int == sp_ws_c(s@, p as int));
        }
        match parse_value(s, len, q) {
            None => {
                return None;
            },
            Some(x) => {
                let ghost d = arbitrary::<JsonDoc>();
                proof {
                    match sp_value(s@, q as int) {
                        Some(y) => {
                            d = y.0;
                        },
                        None => {},
                    }
                }
                items.push(x.0);
                let w = skip_ws(s, len, x.1);
                proof {
                    assert(w as int == sp_ws_c(s@, x.1 as int));
                }
                if w >= len {
                    return None;
                }
                let c = s.get_char(w);
                if c == ',' {
                    proof {
                        docs = docs.push(d);
                    }
                    p = w + 1;
                } else if c == ']' {
                    proof {
                        assert(doc_matches(JsonValue::Arr(items), JsonDoc::Arr(docs.push(d))));
                    }
                    return Some((JsonValue::Arr(items), w + 1));
                } else {
                    return None;
                }
            },
        }
    }
}

/// Read the fields of an object, starting just after the opening brace.
fn parse_obj(s: &str, len: usize, pos: usize) -> (r: Option<(JsonValue, usize)>)
    requires
        len == s@.len(),
        pos <= len,
    ensures
        r matches Some(x) ==> json_wf(x.0) && pos <= x.1 <= len,
        r matches Some(x) ==> (sp_object(s@, pos as int) matches Some(y) && doc_matches(x.0, y.0)
            && y.1 == x.1 as int),
        r is None ==> sp_object(s@, pos as int) is None,
    decreases len - pos, 1int,
{
    let mut fields: Vec<(String, JsonValue)> = Vec::new();
    let first = skip_ws(s, len, pos);
    proof {
        assert(first as int == sp_ws_c(s@, pos as int));
    }
    if first < len && s.get_char(first) == '}' {
        proof {
            assert(doc_matches(JsonValue::Obj(fields), JsonDoc::Obj(Seq::empty())));
        }
        return Some((JsonValue::Obj(fields), first + 1));
    }
    let mut p = first;
    let ghost mut docs: Seq<(Seq<char>, JsonDoc)> = Seq::empty();
    loop
        invariant
            len == s@.len(),
            pos <= p <= len,
            forall|i: int| 0 <= i < fields@.len() ==> json_wf(#[trigger] fields@[i].1),
            docs.len() == fields@.len(),
            forall|i: int|
                0 <= i < fields@.len() ==> (#[trigger] fields@[i]).0@ == docs[i].0 && doc_matches(
                    fields@[i].1,
                    docs[i].1,
                ),
            sp_object(s@, pos as int) == sp_obj_fields(s@, p as int, docs),
        decreases len - p,
    {
        let q = skip_ws(s, len, p);
        proof {
            assert(q as int == sp_ws_c(s@, p as int));
        }
        if q >= len {
            return None;
        }
        let key = match parse_string(s, len, q) {
            Some(x) => x,
            None => {
                return None;
            },
        };
        let r1 = skip_ws(s, len, key.1);
        proof {
            assert(r1 as int == sp_ws_c(s@, key.1 as int));
        }
        if r1 >= len || s.get_char(r1) != ':' {
            return None;
        }
        let vstart = skip_ws(s, len, r1 + 1);
        proof {
            assert(vstart as int == sp_ws_c(s@, r1 + 1));
        }
        match parse_value(s, len, vstart) {
            None => {
                return None;
            },
            Some(x) => {
                let ghost d = arbitrary::<JsonDoc>();
                proof {
                    match sp_value(s@, vstart as int) {
                        Some(y) => {
                            d = y.0;
                        },
                        None => {},
                    }
                }
                let ghost kv = key.0@;
                fields.push((key.0, x.0));
                let w = skip_ws(s, len, x.1);
                proof {
                    assert(w as int == sp_ws_c(s@, x.1 as int));
                }
                if w >= len {
                    return None;
                }
                let c = s.get_char(w);
                if c == ',' {
                    proof {
                        docs = docs.push((kv, d));
                    }
                    p = w + 1;
                } else if c == '}' {
                    proof {
                        assert(doc_matches(
                            JsonValue::Obj(fields),
                            JsonDoc::Obj(docs.push((kv, d))),
                        ));
                    }
                    return Some((JsonValue::Obj(fields), w + 1));
                } else {
                    return None;
                }
            },
        }
    }
}

/// Parse a complete JSON document; surrounding whitespace is allowed, and any
/// text that is not a single valid document is refused. The result is exactly
/// what [`spec_json`] assigns to the text.
pub fn parse_json(s: &str) -> (r: Option<JsonValue>)
    ensures
        r is Some <==> spec_json(s@) is Some,
        r matches Some(v) ==> json_wf(v) && (spec_json(s@) matches Some(d) && doc_matches(v, d)),
{
    let len = s.unicode_len();
    let start = skip_ws(s, len, 0);
    proof {
        assert(start as int == sp_ws_c(s@, 0));
    }
    match parse_value(s, len, start) {
        None => None,
        Some(x) => {
            let fin = skip_ws(s, len, x.1);
            proof {
                assert(fin as int == sp_ws_c(s@, x.1 as int));
            }
            if fin == len {
                Some(x.0)
            } else {
                None
            }
        },
    }
}

/// A parsed JSON document, as a pure value.
pub ghost enum JsonDoc {
    /// The null literal.
    Null,
    /// A boolean literal.
    Bool(bool),
    /// A number, as its raw token text.
    Num(Seq<char>),
    /// A string, with escapes decoded.
    Text(Seq<char>),
    /// An array of documents.
    Arr(Seq<JsonDoc>),
    /// Key/value pairs in source order.
    Obj(Seq<(Seq<char>, JsonDoc)>),
}

/// Whether a parsed node carries exactly the pure document `d`.
pub open spec fn doc_matches(v: JsonValue, d: JsonDoc) -> bool
    decreases v,
{
    match v {
        JsonValue::Null => d == JsonDoc::Null,
        JsonValue::Bool(b) => d == JsonDoc::Bool(b),
        JsonValue::Num(t) => d == JsonDoc::Num(t@),
        JsonValue::Text(t) => d == JsonDoc::Text(t@),
        JsonValue::Arr(items) => d matches JsonDoc::Arr(ds) && ds.len() == items@.len() && (
        forall|i: int| 0 <= i < items@.len() ==> doc_matches(#[trigger] items@[i], ds[i])),
        JsonValue::Obj(fields) => d matches JsonDoc::Obj(fs) && fs.len() == fields@.len() && (
        forall|i: int|
            0 <= i < fields@.len() ==> (#[trigger] fields@[i]).0@ == fs[i].0 && doc_matches(
                fields@[i].1,
                fs[i].1,
            )),
    }
}

/// The position after the whitespace at `pos`.
pub open spec fn sp_ws(s: Seq<char>, pos: int) -> int
    decreases s.len() - pos,
{
    if !(0 <= pos < s.len()) {
        pos
    } else if is_ws(s[pos]) {
        sp_ws(s, pos + 1)
    } else {
        pos
    }
}

/// The whitespace skip, clamped into range so the grammar functions below
/// visibly advance.
pub open spec fn sp_ws_c(s: Seq<char>, pos: int) -> int {
    let y = sp_ws(s, pos);
    if pos <= y <= s.len() {
        y
    } else {
        pos
    }
}

/// The position after the digits at `from`.
pub open spec fn sp_digits(s: Seq<char>, from: int) -> int
    decreases s.len() - from,
{
    if !(0 <= from < s.len()) {
        from
    } else if is_digit(s[from]) {
        sp_digits(s, from + 1)
    } else {
        from
    }
}

/// The decoded body of a string literal read from position `p`, with `acc`
/// already decoded.
pub open spec fn sp_str_body(s: Seq<char>, p: int, acc: Seq<char>) -> Option<(Seq<char>, int)>
    decreases s.len() - p,
{
    if !(0 <= p < s.len()) {
        None
    } else {
        let c = s[p];
        if c == '"' {
            Some((acc, p + 1))
        } else if c == '\\' {
            if !(p + 1 < s.len()) {
                None
            } else {
                let e = s[p + 1];
                if e == '"' {
                    sp_str_body(s, p + 2, acc.push('"'))
                } else if e == '\\' {
                    sp_str_body(s, p + 2, acc.push('\\'))
                } else if e == '/' {
                    sp_str_body(s, p + 2, acc.push('/'))
                } else if e == 'b' {
                    sp_str_body(s, p + 2, acc.push('\u{0008}'))
                } else if e == 'f' {
                    sp_str_body(s, p + 2, acc.push('\u{000C}'))
                } else if e == 'n' {
                    sp_str_body(s, p + 2, acc.push('\n'))
                } else if e == 'r' {
                    sp_str_body(s, p + 2, acc.push('\r'))
                } else if e == 't' {
                    sp_str_body(s, p + 2, acc.push('\t'))
                } else {
                    None
                }
            }
        } else if (c as u32) < 32 {
            None
        } else {
            sp_str_body(s, p + 1, acc.push(c))
        }
    }
}

/// A string literal read from its opening quote: the decoded text and the
/// position after the closing quote.
pub open spec fn sp_string(s: Seq<char>, pos: int) -> Option<(Seq<char>, int)> {
    if 0 <= pos < s.len() && s[pos] == '"' {
        sp_str_body(s, pos + 1, Seq::empty())
    } else {
        None
    }
}

/// The exponent tail of a number token starting at `pos` whose fraction
/// ends at `frac_end`.
pub open spec fn sp_number_exp(s: Seq<char>, pos: int, frac_end: int) -> Option<(Seq<char>, int)> {
    if frac_end < s.len() && (s[frac_end] == 'e' || s[frac_end] == 'E') {
        let estart0 = frac_end + 1;
        let estart = if estart0 < s.len() && (s[estart0] == '+' || s[estart0] == '-') {
            estart0 + 1
        } else {
            estart0
        };
        let eend = sp_digits(s, estart);
        if eend == estart {
            None
        } else {
            Some((s.subrange(pos, eend), eend))
        }
    } else {
        Some((s.subrange(pos, frac_end), frac_end))
    }
}

/// The fraction tail of a number token starting at `pos` whose integer part
/// ends at `int_end`.
pub open spec fn sp_number_frac(s: Seq<char>, pos: int, int_end: int) -> Option<(Seq<char>, int)> {
    if int_end < s.len() && s[int_end] == '.' {
        let fend = sp_digits(s, int_end + 1);
        if fend == int_end + 1 {
            None
        } else {
            sp_number_exp(s, pos, fend)
        }
    } else {
        sp_number_exp(s, pos, int_end)
    }
}

/// A number token read from `pos`: the raw token text and the position
/// after it.
pub open spec fn sp_number(s: Seq<char>, pos: int) -> Option<(Seq<char>, int)> {
    let neg = 0 <= pos < s.len() && s[pos] == '-';
    let dstart = if neg {
        pos + 1
    } else {
        pos
    };
    if !(0 <= dstart < s.len()) {
        None
    } else {
        let dend = sp_digits(s, dstart);
        if dend == dstart {
            None
        } else if dend > dstart + 1 && s[dstart] == '0' {
            None
        } else {
            sp_number_frac(s, pos, dend)
        }
    }
}

/// One JSON value read from exactly `pos`.
pub open spec fn sp_value(s: Seq<char>, pos: int) -> Option<(JsonDoc, int)>
    decreases s.len() - pos, 0int,
{
    if !(0 <= pos < s.len()) {
        None
    } else {
        let c = s[pos];
        if c == '"' {
            match sp_string(s, pos) {
                Some(x) => Some((JsonDoc::Text(x.0), x.1)),
                None => None,
            }
        } else if c == '-' || is_digit(c) {
            match sp_number(s, pos) {
                Some(x) => Some((JsonDoc::Num(x.0), x.1)),
                None => None,
            }
        } else if c == '[' {
            sp_array(s, pos + 1)
        } else if c == '{' {
            sp_object(s, pos + 1)
        } else if c == 't' {
            if pos + 4 <= s.len() && s.subrange(pos, pos + 4) == "true"@ {
                Some((JsonDoc::Bool(true), pos + 4))
            } else {
                None
            }
        } else if c == 'f' {
            if pos + 5 <= s.len() && s.subrange(pos, pos + 5) == "false"@ {
                Some((JsonDoc::Bool(false), pos + 5))
            } else {
                None
            }
        } else if c == 'n' {
            if pos + 4 <= s.len() && s.subrange(pos, pos + 4) == "null"@ {
                Some((JsonDoc::Null, pos + 4))
            } else {
                None
            }
        } else {
            None
        }
    }
}

/// The elements of an array from position `p`, with `acc` already read.
pub open spec fn sp_arr_elems(s: Seq<char>, p: int, acc: Seq<JsonDoc>) -> Option<(JsonDoc, int)>
    decreases s.len() - p, 1int,
{
    if !(0 <= p <= s.len()) {
        None
    } else {
        let q = sp_ws_c(s, p);
        match sp_value(s, q) {
            None => None,
            Some(x) => {
                let vend = if q < x.1 <= s.len() {
                    x.1
                } else {
                    q + 1
                };
                let w = sp_ws_c(s, vend);
                if w >= s.len() {
                    None
                } else if s[w] == ',' {
                    sp_arr_elems(s, w + 1, acc.push(x.0))
                } else if s[w] == ']' {
                    Some((JsonDoc::Arr(acc.push(x.0)), w + 1))
                } else {
                    None
                }
            },
        }
    }
}

/// An array read from just after its opening bracket.
pub open spec fn sp_array(s: Seq<char>, pos: int) -> Option<(JsonDoc, int)>
    decreases s.len() - pos, 2int,
{
    if !(0 <= pos <= s.len()) {
        None
    } else {
        let first = sp_ws_c(s, pos);
        if first < s.len() && s[first] == ']' {
            Some((JsonDoc::Arr(Seq::empty()), first + 1))
        } else {
            sp_arr_elems(s, first, Seq::empty())
        }
    }
}

/// The fields of an object from position `p`, with `acc` already read.
pub open spec fn sp_obj_fields(s: Seq<char>, p: int, acc: Seq<(Seq<char>, JsonDoc)>) -> Option<
    (JsonDoc, int),
>
    decreases s.len() - p, 1int,
{
    if !(0 <= p <= s.len()) {
        None
    } else {
        let q = sp_ws_c(s, p);
        if q >= s.len() {
            None
        } else {
            match sp_string(s, q) {
                None => None,
                Some(k) => {
                    let kend = if q < k.1 <= s.len() {
                        k.1
                    } else {
                        q + 1
                    };
                    let r1 = sp_ws_c(s, kend);
                    if !(r1 < s.len() && s[r1] == ':') {
                        None
                    } else {
                        let vstart = sp_ws_c(s, r1 + 1);
                        match sp_value(s, vstart) {
                            None => None,
                            Some(x) => {
                                let vend = if vstart < x.1 <= s.len() {
                                    x.1
                                } else {
                                    vstart + 1
                                };
                                let w = sp_ws_c(s, vend);
                                if w >= s.len() {
                                    None
                                } else if s[w] == ',' {
                                    sp_obj_fields(s, w + 1, acc.push((k.0, x.0)))
                                } else if s[w] == '}' {
                                    Some((JsonDoc::Obj(acc.push((k.0, x.0))), w + 1))
                                } else {
                                    None
                                }
                            },
                        }
                    }
                },
            }
        }
    }
}

/// An object read from just after its opening brace.
pub open spec fn sp_object(s: Seq<char>, pos: int) -> Option<(JsonDoc, int)>
    decreases s.len() - pos, 2int,
{
    if !(0 <= pos <= s.len()) {
        None
    } else {
        let first = sp_ws_c(s, pos);
        if first < s.len() && s[first] == '}' {
            Some((JsonDoc::Obj(Seq::empty()), first + 1))
        } else {
            sp_obj_fields(s, first, Seq::empty())
        }
    }
}

/// The document a complete JSON text denotes, if any: one value with
/// whitespace around it and nothing else.
pub open spec fn spec_json(s: Seq<char>) -> Option<JsonDoc> {
    let start = sp_ws_c(s, 0);
    match sp_value(s, start) {
        None => None,
        Some(x) => {
            let e = if 0 <= x.1 <= s.len() {
                x.1
            } else {
                s.len() as int
            };
            let fin = sp_ws_c(s, e);
            if fin == s.len() {
                Some(x.0)
            } else {
                None
            }
        },
    }
}

/// The value of the first field named `key` in a pure document's field
/// list.
pub open spec fn spec_obj_get_d(fs: Seq<(Seq<char>, JsonDoc)>, key: Seq<char>) -> Option<JsonDoc>
    decreases fs.len(),
{
    if fs.len() == 0 {
        None
    } else if fs[0].0 == key {
        Some(fs[0].1)
    } else {
        spec_obj_get_d(fs.subrange(1, fs.len() as int), key)
    }
}

/// Key lookup agrees between a parsed object's fields and their pure
/// document counterparts.
pub proof fn lemma_doc_obj_get(
    fields: Seq<(String, JsonValue)>,
    fs: Seq<(Seq<char>, JsonDoc)>,
    key: Seq<char>,
)
    requires
        fs.len() == fields.len(),
        forall|i: int|
            0 <= i < fields.len() ==> (#[trigger] fields[i]).0@ == fs[i].0 && doc_matches(
                fields[i].1,
                fs[i].1,
            ),
    ensures
        match spec_obj_get(fields, key) {
            Some(x) => spec_obj_get_d(fs, key) matches Some(y) && doc_matches(x, y),
            None => spec_obj_get_d(fs, key) is None,
        },
    decreases fields.len(),
{
    if fields.len() == 0 {
    } else {
        assert(fields[0].0@ == fs[0].0 && doc_matches(fields[0].1, fs[0].1));
        if fields[0].0@ == key {
        } else {
            let rest = fields.subrange(1, fields.len() as int);
            let rest_d = fs.subrange(1, fs.len() as int);
            assert(forall|i: int|
                0 <= i < rest.len() ==> (#[trigger] rest[i]).0@ == rest_d[i].0 && doc_matches(
                    rest[i].1,
                    rest_d[i].1,
                )) by {
                assert(forall|i: int|
                    0 <= i < rest.len() ==> #[trigger] rest[i] == fields[i + 1] && rest_d[i] == fs[
                        i + 1
                    ]);
            }
            lemma_doc_obj_get(rest, rest_d, key);
        }
    }
}

} // verus!
