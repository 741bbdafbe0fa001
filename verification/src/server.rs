//! Server-side helpers around the streaming core: bind-address rendering,
//! query parameter shapes, the symbol-list query parser, the case-blind
//! symbol filter, and the bearer-token check.

use vstd::prelude::*;

use crate::json::{spec_json, spec_obj_get, spec_obj_get_d, JsonDoc, JsonValue};
use crate::text::{spec_contains_sub, spec_udigits};

verus! {

/// Where the server listens.
#[derive(Debug)]
pub struct ServerConfig {
    /// The interface address.
    pub host: String,
    /// The TCP port.
    pub port: u16,
}

impl ServerConfig {
    /// The bind address, `host:port`.
    pub fn addr(&self) -> (r: String)
        ensures
            r@ == self.host@ + seq![':'] + spec_udigits(self.port as nat),
    {
        let mut out = self.host.clone();
        out.append(":");
        out.append(crate::text::u64_to_string(self.port as u64).as_str());
        proof {
            reveal_strlit(":");
            assert(out@ =~= self.host@ + seq![':'] + spec_udigits(self.port as nat));
        }
        out
    }
}

impl Clone for ServerConfig {
    fn clone(&self) -> (r: Self)
        ensures
            r == *self,
    {
        ServerConfig { host: self.host.clone(), port: self.port }
    }
}

/// Query parameters of the multi-price endpoint: a comma-separated list of
/// symbols.
#[derive(Debug)]
pub struct PricesQuery {
    /// The raw comma-separated list.
    pub symbols: String,
}

impl PricesQuery {
    /// Read the query from a parsed JSON object with a `symbols` string.
    pub fn of_json(v: &JsonValue) -> (r: Option<PricesQuery>)
        ensures
            r is Some <==> (v matches JsonValue::Obj(f) && spec_obj_get(f@, "symbols"@)
                matches Option::Some(JsonValue::Text(_))),
            r matches Some(q) ==> (v matches JsonValue::Obj(f) && spec_obj_get(f@, "symbols"@)
                matches Option::Some(JsonValue::Text(t)) && q.symbols@ == t@),
    {
        let fields = match v {
            JsonValue::Obj(f) => f,
            _ => {
                return Option::None;
            },
        };
        match crate::json::obj_get(fields, "symbols") {
            Option::Some(sv) => match sv {
                JsonValue::Text(t) => Option::Some(PricesQuery { symbols: t.clone() }),
                _ => Option::None,
            },
            Option::None => Option::None,
        }
    }

    /// Read the query from JSON text: it succeeds exactly when the text is
    /// a JSON object with a `symbols` string, which becomes the raw list.
    pub fn from_json(s: &str) -> (r: Option<PricesQuery>)
        ensures
            r is Some <==> (spec_json(s@) matches Some(JsonDoc::Obj(fs)) && spec_obj_get_d(
                fs,
                "symbols"@,
            ) matches Some(JsonDoc::Text(_))),
            r matches Some(q) ==> (spec_json(s@) matches Some(JsonDoc::Obj(fs)) && spec_obj_get_d(
                fs,
                "symbols"@,
            ) matches Some(JsonDoc::Text(t)) && q.symbols@ == t),
    {
        match crate::json::parse_json(s) {
            Option::Some(v) => {
                let r = Self::of_json(&v);
                proof {
                    match spec_json(s@) {
                        Option::Some(d) => {
                            match &v {
                                JsonValue::Obj(fields) => {
                                    match d {
                                        JsonDoc::Obj(fs) => {
                                            crate::json::lemma_doc_obj_get(
                                                fields@,
                                                fs,
                                                "symbols"@,
                                            );
                                        },
                                        _ => {},
                                    }
                                },
                                _ => {},
                            }
                        },
                        Option::None => {},
                    }
                }
                r
            },
            Option::None => Option::None,
        }
    }
}

/// Query parameters of the symbol-listing endpoint: an optional filter term.
#[derive(Debug)]
pub struct SymbolsQuery {
    /// A case-blind substring the listed symbols must contain.
    pub filter: Option<String>,
}

impl Default for SymbolsQuery {
    /// No filter: list everything.
    fn default() -> (r: Self)
        ensures
            r.filter is None,
    {
        SymbolsQuery { filter: Option::None }
    }
}

impl SymbolsQuery {
    /// Read the query from a parsed JSON object with an optional `filter`
    /// string.
    pub fn of_json(v: &JsonValue) -> (r: Option<SymbolsQuery>)
        ensures
            r is Some <==> (v matches JsonValue::Obj(f) && crate::codec::opt_text_ok(
                f@,
                "filter"@,
            )),
            r matches Some(q) ==> (v matches JsonValue::Obj(f) && crate::codec::view_opt(q.filter)
                == crate::codec::opt_text_val(f@, "filter"@)),
    {
        let fields = match v {
            JsonValue::Obj(f) => f,
            _ => {
                return Option::None;
            },
        };
        match crate::json::obj_get(fields, "filter") {
            Option::None => Option::Some(SymbolsQuery { filter: Option::None }),
            Option::Some(fv) => match fv {
                JsonValue::Null => Option::Some(SymbolsQuery { filter: Option::None }),
                JsonValue::Text(t) => Option::Some(SymbolsQuery { filter: Option::Some(t.clone()) }),
                _ => Option::None,
            },
        }
    }

    /// Read the query from JSON text: it succeeds exactly when the text is
    /// a JSON object whose `filter` field, if present, is a string or null.
    pub fn from_json(s: &str) -> (r: Option<SymbolsQuery>)
        ensures
            r is Some <==> (spec_json(s@) matches Some(JsonDoc::Obj(fs))
                && crate::codec::opt_text_ok_d(fs, "filter"@)),
            r matches Some(q) ==> (spec_json(s@) matches Some(JsonDoc::Obj(fs))
                && crate::codec::view_opt(q.filter) == crate::codec::opt_text_val_d(
                fs,
                "filter"@,
            )),
    {
        match crate::json::parse_json(s) {
            Option::Some(v) => {
                let r = Self::of_json(&v);
                proof {
                    match spec_json(s@) {
                        Option::Some(d) => {
                            match &v {
                                JsonValue::Obj(fields) => {
                                    match d {
                                        JsonDoc::Obj(fs) => {
                                            crate::json::lemma_doc_obj_get(fields@, fs, "filter"@);
                                        },
                                        _ => {},
                                    }
                                },
                                _ => {},
                            }
                        },
                        Option::None => {},
                    }
                }
                r
            },
            Option::None => Option::None,
        }
    }
}

/// Whether `c` is the whitespace the query parser strips.
pub open spec fn is_space(c: char) -> bool {
    c == ' ' || c == '\t' || c == '\n' || c == '\r'
}

fn space_check(c: char) -> (r: bool)
    ensures
        r == is_space(c),
{
    c == ' ' || c == '\t' || c == '\n' || c == '\r'
}

/// `s` without leading whitespace.
pub open spec fn trim_front(s: Seq<char>) -> Seq<char>
    decreases s.len(),
{
    if s.len() > 0 && is_space(s[0]) {
        trim_front(s.drop_first())
    } else {
        s
    }
}

/// `s` without trailing whitespace.
pub open spec fn trim_back(s: Seq<char>) -> Seq<char>
    decreases s.len(),
{
    if s.len() > 0 && is_space(s.last()) {
        trim_back(s.drop_last())
    } else {
        s
    }
}

/// `s` without surrounding whitespace.
pub open spec fn spec_trim(s: Seq<char>) -> Seq<char> {
    trim_back(trim_front(s))
}

/// The position of the first comma at or after `from`, or the length when
/// there is none.
pub open spec fn next_comma(s: Seq<char>, from: int) -> int
    decreases s.len() - from,
{
    if !(0 <= from < s.len()) {
        s.len() as int
    } else if s[from] == ',' {
        from
    } else {
        next_comma(s, from + 1)
    }
}

/// The comma position is between `from` and the end.
pub proof fn lemma_next_comma_range(s: Seq<char>, from: int)
    requires
        0 <= from <= s.len(),
    ensures
        from <= next_comma(s, from) <= s.len(),
    decreases s.len() - from,
{
    if from < s.len() && s[from] != ',' {
        lemma_next_comma_range(s, from + 1);
    }
}

/// The comma-separated segments of `s`, each trimmed of surrounding
/// whitespace. An empty text yields one empty segment, as splitting does.
pub open spec fn spec_split_trim(s: Seq<char>) -> Seq<Seq<char>>
    decreases s.len(),
{
    let e0 = next_comma(s, 0);
    let e = if 0 <= e0 < s.len() {
        e0
    } else {
        s.len() as int
    };
    if e == s.len() {
        seq![spec_trim(s)]
    } else {
        seq![spec_trim(s.subrange(0, e))].add(
            spec_split_trim(s.subrange(e + 1, s.len() as int)),
        )
    }
}

/// The trimmed text of `s` between `a` and `b`.
fn trim_substr(s: &str, a: usize, b: usize) -> (r: String)
    requires
        a <= b <= s@.len(),
    ensures
        r@ == spec_trim(s@.subrange(a as int, b as int)),
{
    let mut x = a;
    while x < b && space_check(s.get_char(x))
        invariant
            a <= x <= b <= s@.len(),
            trim_front(s@.subrange(a as int, b as int)) == trim_front(
                s@.subrange(x as int, b as int),
            ),
        decreases b - x,
    {
        let ghost cur = s@.subrange(x as int, b as int);
        proof {
            assert(cur[0] == s@[x as int]);
            assert(cur.drop_first() =~= s@.subrange(x + 1, b as int));
        }
        x = x + 1;
    }
    proof {
        assert(trim_front(s@.subrange(a as int, b as int)) == s@.subrange(x as int, b as int))
            by {
            if x < b {
                assert(s@.subrange(x as int, b as int)[0] == s@[x as int]);
            } else {
                assert(s@.subrange(x as int, b as int).len() == 0);
            }
        }
    }
    let mut y = b;
    while y > x && space_check(s.get_char(y - 1))
        invariant
            a <= x <= y <= b <= s@.len(),
            trim_front(s@.subrange(a as int, b as int)) == s@.subrange(x as int, b as int),
            trim_back(s@.subrange(x as int, b as int)) == trim_back(
                s@.subrange(x as int, y as int),
            ),
        decreases y - x,
    {
        let ghost cur = s@.subrange(x as int, y as int);
        proof {
            assert(cur.last() == s@[y - 1]);
            assert(cur.drop_last() =~= s@.subrange(x as int, y - 1));
        }
        y = y - 1;
    }
    proof {
        assert(trim_back(s@.subrange(x as int, y as int)) == s@.subrange(x as int, y as int)) by {
            if y > x {
                assert(s@.subrange(x as int, y as int).last() == s@[y - 1]);
            } else {
                assert(s@.subrange(x as int, y as int).len() == 0);
            }
        }
    }
    String::from_str(s.substring_char(x, y))
}

/// Split a comma-separated symbol list, trimming whitespace around each
/// entry, as the multi-price endpoint reads its query.
pub fn split_symbol_list(s: &str) -> (r: Vec<String>)
    ensures
        r.deep_view() == spec_split_trim(s@),
    decreases s@.len(),
{
    let len = s.unicode_len();
    let mut e: usize = 0;
    while e < len && s.get_char(e) != ','
        invariant
            len == s@.len(),
            e <= len,
            next_comma(s@, 0) == next_comma(s@, e as int),
        decreases len - e,
    {
        e = e + 1;
    }
    proof {
        assert(next_comma(s@, 0) == e as int || e == len) by {
            if e < len {
            } else {
                assert(next_comma(s@, e as int) == s@.len());
            }
        }
        lemma_next_comma_range(s@, 0);
    }
    let head = trim_substr(s, 0, e);
    if e == len {
        let mut out: Vec<String> = Vec::new();
        proof {
            assert(s@.subrange(0, len as int) =~= s@);
        }
        out.push(head);
        proof {
            assert(next_comma(s@, 0) == s@.len() as int);
            assert(out.deep_view() =~= spec_split_trim(s@));
        }
        out
    } else {
        let tail = s.substring_char(e + 1, len);
        let mut rest = split_symbol_list(tail);
        let mut out: Vec<String> = Vec::new();
        out.push(head);
        let ghost rest_view = rest.deep_view();
        out.append(&mut rest);
        proof {
            assert(next_comma(s@, 0) == e as int);
            assert(out.deep_view() =~= seq![
                spec_trim(s@.subrange(0, e as int)),
            ].add(rest_view)) by {
                assert forall|k: int| 0 <= k < out@.len() implies out.deep_view()[k] == seq![
                    spec_trim(s@.subrange(0, e as int)),
                ].add(rest_view)[k] by {
                    assert(out.deep_view()[k] == out@[k]@);
                }
            }
            assert(out.deep_view() =~= spec_split_trim(s@));
        }
        out
    }
}

/// The lowercase form of a text, whatever Unicode makes of it; the result
/// depends on the characters alone.
pub uninterp spec fn lower_of(s: Seq<char>) -> Seq<char>;

/// Relies on str::to_lowercase: the lowercase mapping of the text, a pure
/// function of its characters.
#[verifier::external_body]
fn lowercase(s: &str) -> (r: String)
    ensures
        r@ == lower_of(s@),
{
    s.to_lowercase()
}

/// Whether a symbol survives the case-blind filter.
pub open spec fn keep_symbol(s: Seq<char>, filter: Seq<char>) -> bool {
    spec_contains_sub(lower_of(s), lower_of(filter))
}

/// The symbols that survive the filter, in order.
pub open spec fn spec_filter_symbols(list: Seq<Seq<char>>, filter: Seq<char>) -> Seq<Seq<char>>
    decreases list.len(),
{
    if list.len() == 0 {
        Seq::empty()
    } else {
        let rest = spec_filter_symbols(list.drop_first(), filter);
        if keep_symbol(list[0], filter) {
            seq![list[0]].add(rest)
        } else {
            rest
        }
    }
}

/// Keep the symbols whose lowercase form contains the lowercase filter, in
/// their original order and case.
pub fn filter_symbols(symbols: &Vec<String>, filter: &str) -> (r: Vec<String>)
    ensures
        r.deep_view() == spec_filter_symbols(symbols.deep_view(), filter@),
{
    let needle = lowercase(filter);
    let n = symbols.len();
    let mut out: Vec<String> = Vec::new();
    let mut i: usize = 0;
    proof {
        assert(symbols.deep_view().skip(0) =~= symbols.deep_view());
        assert(out.deep_view() =~= Seq::<Seq<char>>::empty());
        assert(Seq::<Seq<char>>::empty().add(
            spec_filter_symbols(symbols.deep_view(), filter@),
        ) =~= spec_filter_symbols(symbols.deep_view(), filter@));
    }
    while i < n
        invariant
            n == symbols@.len(),
            i <= n,
            needle@ == lower_of(filter@),
            out.deep_view().add(
                spec_filter_symbols(symbols.deep_view().skip(i as int), filter@),
            ) == spec_filter_symbols(symbols.deep_view(), filter@),
        decreases n - i,
    {
        let ghost tail = symbols.deep_view().skip(i as int);
        proof {
            assert(tail[0] == symbols.deep_view()[i as int]);
            assert(tail.drop_first() =~= symbols.deep_view().skip(i + 1));
            assert(symbols.deep_view()[i as int] == symbols@[i as int]@);
        }
        let hay = lowercase(symbols[i].as_str());
        if crate::text::contains_sub(hay.as_str(), needle.as_str()) {
            let ghost pre = out.deep_view();
            proof {
                assert(pre.len() == out@.len());
            }
            out.push(symbols[i].clone());
            proof {
                assert(out.deep_view() =~= pre.push(symbols.deep_view()[i as int]));
                assert(out.deep_view().add(
                    spec_filter_symbols(symbols.deep_view().skip(i + 1), filter@),
                ) =~= pre.add(
                    seq![symbols.deep_view()[i as int]].add(
                        spec_filter_symbols(symbols.deep_view().skip(i + 1), filter@),
                    ),
                ));
            }
        }
        i = i + 1;
    }
    proof {
        assert(symbols.deep_view().skip(n as int).len() == 0);
        assert(out.deep_view().add(
            spec_filter_symbols(symbols.deep_view().skip(n as int), filter@),
        ) =~= out.deep_view());
    }
    out
}

/// Decide a request's fate from its authorization header: with no expected
/// key configured everything passes; otherwise the header must be exactly
/// `Bearer ` followed by the expected key.
pub fn check_bearer(auth: Option<&str>, expected: &str) -> (r: bool)
    ensures
        r == (expected@.len() == 0 || (auth matches Some(h) && h@.len() >= 7 && h@.subrange(0, 7)
            == "Bearer "@ && h@.subrange(7, h@.len() as int) == expected@)),
{
    proof {
        reveal_strlit("Bearer ");
    }
    if expected.unicode_len() == 0 {
        return true;
    }
    match auth {
        Option::None => false,
        Option::Some(h) => {
            let hlen = h.unicode_len();
            if hlen < 7 {
                return false;
            }
            if !crate::text::matches_at(h, "Bearer ", 0) {
                return false;
            }
            let token = h.substring_char(7, hlen);
            crate::text::str_eq(token, expected)
        },
    }
}

} // verus!
