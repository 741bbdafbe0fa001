//! The static symbol-to-feed-identifier table.
//!
//! The table is a JSON object mapping symbol strings to feed identifier
//! strings. Reading the file is the shell's job; this module turns the
//! file's text into a table and answers lookups.

use vstd::prelude::*;

use crate::json::{doc_matches, spec_json, JsonDoc, JsonValue};
use crate::text::{lex_lt, str_lt};
use crate::types::{has_one_slash, Feed, SurgeError, Symbol};

verus! {

/// The entries built from an object's fields, in order, keeping the first
/// occurrence of each key and skipping non-string values.
pub open spec fn spec_feed_entries(
    acc: Seq<(Seq<char>, Seq<char>)>,
    fields: Seq<(String, JsonValue)>,
) -> Seq<(Seq<char>, Seq<char>)>
    decreases fields.len(),
{
    if fields.len() == 0 {
        acc
    } else {
        let acc2 = if spec_has_key(acc, fields[0].0@) {
            acc
        } else {
            match fields[0].1 {
                JsonValue::Text(t) => acc.push((fields[0].0@, t@)),
                _ => acc,
            }
        };
        spec_feed_entries(acc2, fields.subrange(1, fields.len() as int))
    }
}

/// The shape of the feed file: an object whose values are all strings.
pub open spec fn feed_map_shape_ok(v: JsonValue) -> bool {
    match v {
        JsonValue::Obj(fields) => forall|i: int|
            0 <= i < fields@.len() ==> (#[trigger] fields@[i]).1 matches JsonValue::Text(_),
        _ => false,
    }
}

/// Whether a key occurs among the entries.
pub open spec fn spec_has_key(entries: Seq<(Seq<char>, Seq<char>)>, key: Seq<char>) -> bool {
    exists|i: int| 0 <= i < entries.len() && (#[trigger] entries[i]).0 == key
}

/// The value of the first entry with this key, if any.
pub open spec fn spec_lookup(entries: Seq<(Seq<char>, Seq<char>)>, key: Seq<char>) -> Option<
    Seq<char>,
>
    decreases entries.len(),
{
    if entries.len() == 0 {
        Option::None
    } else if entries[0].0 == key {
        Option::Some(entries[0].1)
    } else {
        spec_lookup(entries.subrange(1, entries.len() as int), key)
    }
}

/// A key is found exactly when it occurs.
pub proof fn lemma_lookup_has_key(entries: Seq<(Seq<char>, Seq<char>)>, key: Seq<char>)
    ensures
        spec_lookup(entries, key) is Some <==> spec_has_key(entries, key),
    decreases entries.len(),
{
    if entries.len() == 0 {
        if spec_has_key(entries, key) {
            let i = choose|i: int| 0 <= i < entries.len() && (#[trigger] entries[i]).0 == key;
        }
    } else if entries[0].0 == key {
    } else {
        let rest = entries.subrange(1, entries.len() as int);
        lemma_lookup_has_key(rest, key);
        if spec_has_key(entries, key) {
            let i = choose|i: int| 0 <= i < entries.len() && (#[trigger] entries[i]).0 == key;
            assert(rest[i - 1] == entries[i]);
        }
        if spec_has_key(rest, key) {
            let i = choose|i: int| 0 <= i < rest.len() && (#[trigger] rest[i]).0 == key;
            assert(entries[i + 1] == rest[i]);
        }
    }
}


/// The shape of the feed file, at the document level: an object whose
/// values are all strings.
pub open spec fn feed_map_shape_ok_d(d: JsonDoc) -> bool {
    match d {
        JsonDoc::Obj(fs) => forall|i: int|
            0 <= i < fs.len() ==> (#[trigger] fs[i]).1 matches JsonDoc::Text(_),
        _ => false,
    }
}

/// The entries built from a pure document's fields, first occurrence of
/// each key winning.
pub open spec fn spec_feed_entries_d(
    acc: Seq<(Seq<char>, Seq<char>)>,
    fs: Seq<(Seq<char>, JsonDoc)>,
) -> Seq<(Seq<char>, Seq<char>)>
    decreases fs.len(),
{
    if fs.len() == 0 {
        acc
    } else {
        let acc2 = if spec_has_key(acc, fs[0].0) {
            acc
        } else {
            match fs[0].1 {
                JsonDoc::Text(t) => acc.push((fs[0].0, t)),
                _ => acc,
            }
        };
        spec_feed_entries_d(acc2, fs.subrange(1, fs.len() as int))
    }
}

/// Entry construction agrees between a parsed object's fields and their
/// pure document counterparts.
pub proof fn lemma_feed_entries_corr(
    acc: Seq<(Seq<char>, Seq<char>)>,
    fields: Seq<(String, JsonValue)>,
    fs: Seq<(Seq<char>, JsonDoc)>,
)
    requires
        fs.len() == fields.len(),
        forall|i: int|
            0 <= i < fields.len() ==> (#[trigger] fields[i]).0@ == fs[i].0 && doc_matches(
                fields[i].1,
                fs[i].1,
            ),
    ensures
        spec_feed_entries(acc, fields) == spec_feed_entries_d(acc, fs),
    decreases fields.len(),
{
    if fields.len() == 0 {
    } else {
        assert(fields[0].0@ == fs[0].0 && doc_matches(fields[0].1, fs[0].1));
        let acc2 = if spec_has_key(acc, fields[0].0@) {
            acc
        } else {
            match fields[0].1 {
                JsonValue::Text(t) => acc.push((fields[0].0@, t@)),
                _ => acc,
            }
        };
        let rest = fields.subrange(1, fields.len() as int);
        let rest_d = fs.subrange(1, fs.len() as int);
        assert(forall|i: int|
            0 <= i < rest.len() ==> (#[trigger] rest[i]).0@ == rest_d[i].0 && doc_matches(
                rest[i].1,
                rest_d[i].1,
            )) by {
            assert(forall|i: int|
                0 <= i < rest.len() ==> #[trigger] rest[i] == fields[i + 1] && rest_d[i] == fs[i
                    + 1]);
        }
        lemma_feed_entries_corr(acc2, rest, rest_d);
    }
}

/// Strictly increasing lexicographic order, element to element.
pub open spec fn sorted_symbols(s: Seq<Seq<char>>) -> bool {
    forall|i: int| 0 <= i < s.len() - 1 ==> lex_lt(#[trigger] s[i], s[i + 1])
}

/// The symbol-to-feed-identifier table.
pub struct FeedLoader {
    entries: Vec<(String, String)>,
}

impl FeedLoader {
    /// The table's entries as pure values, in order.
    pub closed spec fn entries_view(&self) -> Seq<(Seq<char>, Seq<char>)> {
        self.entries@.map_values(|e: (String, String)| (e.0@, e.1@))
    }

    /// Whether `s` is in the table, in exec position.
    fn find_key(&self, s: &str) -> (r: Option<usize>)
        ensures
            match r {
                Some(i) => i < self.entries_view().len() && self.entries_view()[i as int].0 == s@
                    && spec_lookup(self.entries_view(), s@) == Some(
                    self.entries_view()[i as int].1,
                ),
                None => spec_lookup(self.entries_view(), s@) is None,
            },
    {
        let n = self.entries.len();
        let mut i: usize = 0;
        proof {
            assert(self.entries_view().subrange(0, self.entries_view().len() as int)
                =~= self.entries_view());
        }
        while i < n
            invariant
                n == self.entries@.len(),
                i <= n,
                spec_lookup(self.entries_view(), s@) == spec_lookup(
                    self.entries_view().subrange(i as int, self.entries_view().len() as int),
                    s@,
                ),
            decreases n - i,
        {
            proof {
                let ev = self.entries_view();
                assert(ev.subrange(i as int, ev.len() as int)[0] == ev[i as int]);
                assert(ev.subrange(i as int, ev.len() as int).subrange(
                    1,
                    ev.len() - i,
                ) =~= ev.subrange(i + 1, ev.len() as int));
                assert(ev[i as int] == (self.entries@[i as int].0@, self.entries@[i as int].1@));
            }
            if crate::text::str_eq(self.entries[i].0.as_str(), s) {
                return Some(i);
            }
            i = i + 1;
        }
        proof {
            assert(self.entries_view().subrange(
                self.entries_view().len() as int,
                self.entries_view().len() as int,
            ).len() == 0);
        }
        None
    }

    /// Build the table from a parsed document: an object whose values are
    /// strings. Any other document is refused. When a key is repeated, the
    /// first occurrence wins.
    pub fn of_json(v: &JsonValue) -> (r: Option<FeedLoader>)
        ensures
            r is Some <==> feed_map_shape_ok(*v),
            r matches Some(l) ==> (v matches JsonValue::Obj(fields) && l.wf()
                && l.entries_view() == spec_feed_entries(
                Seq::<(Seq<char>, Seq<char>)>::empty(),
                fields@,
            )),
    {
        let fields = match v {
            JsonValue::Obj(f) => f,
            _ => {
                return Option::None;
            },
        };
        let n = fields.len();
        let mut loader = FeedLoader { entries: Vec::new() };
        let mut i: usize = 0;
        proof {
            assert(loader.entries_view() =~= Seq::<(Seq<char>, Seq<char>)>::empty());
            assert(fields@.skip(0) =~= fields@);
        }
        while i < n
            invariant
                (*v) matches JsonValue::Obj(ff) && ff@ == fields@,
                n == fields@.len(),
                i <= n,
                loader.wf(),
                forall|k: int|
                    0 <= k < i ==> (#[trigger] fields@[k]).1 matches JsonValue::Text(_),
                spec_feed_entries(Seq::<(Seq<char>, Seq<char>)>::empty(), fields@)
                    == spec_feed_entries(loader.entries_view(), fields@.skip(i as int)),
            decreases n - i,
        {
            let ghost tail = fields@.skip(i as int);
            proof {
                assert(tail[0] == fields@[i as int]);
                assert(tail.subrange(1, tail.len() as int) =~= fields@.skip(i + 1));
            }
            let is_text = match &fields[i].1 {
                JsonValue::Text(_) => true,
                _ => false,
            };
            if !is_text {
                return Option::None;
            }
            match loader.find_key(fields[i].0.as_str()) {
                Some(_) => {
                    proof {
                        lemma_lookup_has_key(loader.entries_view(), fields@[i as int].0@);
                    }
                },
                None => {
                    match &fields[i].1 {
                        JsonValue::Text(t) => {
                            let ghost pre = loader.entries_view();
                            proof {
                                lemma_lookup_has_key(pre, fields@[i as int].0@);
                                assert(pre.len() == loader.entries@.len());
                            }
                            loader.entries.push((fields[i].0.clone(), t.clone()));
                            proof {
                                assert(loader.entries_view() =~= pre.push(
                                    (fields@[i as int].0@, fields@[i as int].1->Text_0@),
                                ));
                                assert forall|a: int, b: int|
                                    0 <= a < b < loader.entries_view().len() implies (
                                #[trigger] loader.entries_view()[a]).0 != (
                                #[trigger] loader.entries_view()[b]).0 by {
                                    if b == loader.entries_view().len() - 1 {
                                        assert(!spec_has_key(pre, fields@[i as int].0@));
                                        assert(pre[a] == loader.entries_view()[a]);
                                    } else {
                                        assert(pre[a] == loader.entries_view()[a]);
                                        assert(pre[b] == loader.entries_view()[b]);
                                    }
                                }
                            }
                        },
                        _ => {},
                    }
                },
            }
            i = i + 1;
        }
        proof {
            assert(fields@.skip(n as int).len() == 0);
        }
        Option::Some(loader)
    }

    /// Build the table from the JSON text of the feed file: it succeeds
    /// exactly when the text is a JSON object whose values are all strings,
    /// and the table holds exactly the document's entries, first occurrence
    /// of a key winning.
    pub fn from_json(text: &str) -> (r: Result<FeedLoader, SurgeError>)
        ensures
            r is Ok <==> (spec_json(text@) matches Some(d) && feed_map_shape_ok_d(d)),
            r matches Ok(l) ==> l.wf() && (spec_json(text@) matches Some(JsonDoc::Obj(fs))
                && l.entries_view() == spec_feed_entries_d(
                Seq::<(Seq<char>, Seq<char>)>::empty(),
                fs,
            )),
            r matches Err(e) ==> e matches SurgeError::JsonError(m) && m@
                == "malformed feed table"@,
    {
        let v = match crate::json::parse_json(text) {
            Option::Some(v) => v,
            Option::None => {
                return Err(SurgeError::JsonError(String::from_str("malformed feed table")));
            },
        };
        let out = Self::of_json(&v);
        proof {
            match spec_json(text@) {
                Option::Some(d) => {
                    match &v {
                        JsonValue::Obj(fields) => {
                            match d {
                                JsonDoc::Obj(fs) => {
                                    lemma_feed_entries_corr(
                                        Seq::<(Seq<char>, Seq<char>)>::empty(),
                                        fields@,
                                        fs,
                                    );
                                    assert(feed_map_shape_ok(v) <==> feed_map_shape_ok_d(d))
                                        by {
                                        if feed_map_shape_ok(v) {
                                            assert forall|i: int|
                                                0 <= i < fs.len() implies (#[trigger] fs[i]).1
                                                matches JsonDoc::Text(_) by {
                                                assert(doc_matches(fields@[i].1, fs[i].1));
                                                assert(fields@[i].1 matches JsonValue::Text(_));
                                            }
                                        }
                                        if feed_map_shape_ok_d(d) {
                                            assert forall|i: int|
                                                0 <= i < fields@.len() implies (
                                            #[trigger] fields@[i]).1
                                                matches JsonValue::Text(_) by {
                                                assert(doc_matches(fields@[i].1, fs[i].1));
                                                assert(fs[i].1 matches JsonDoc::Text(_));
                                            }
                                        }
                                    }
                                },
                                _ => {},
                            }
                        },
                        _ => {},
                    }
                },
                Option::None => {},
            }
        }
        match out {
            Option::Some(loader) => Ok(loader),
            Option::None => Err(SurgeError::JsonError(String::from_str("malformed feed table"))),
        }
    }

    /// No symbol keys the table twice.
    pub open spec fn wf(&self) -> bool {
        forall|a: int, b: int|
            0 <= a < b < self.entries_view().len() ==> (#[trigger] self.entries_view()[a]).0 != (
            #[trigger] self.entries_view()[b]).0
    }

    /// The feed identifier for a symbol; an unknown symbol is a not-found
    /// error naming it.
    pub fn get_feed_id<'a>(&'a self, symbol: &str) -> (r: Result<&'a str, SurgeError>)
        ensures
            match spec_lookup(self.entries_view(), symbol@) {
                Option::Some(t) => r matches Ok(s) && s@ == t,
                Option::None => r matches Err(e) && e matches SurgeError::FeedNotFound(m) && m@
                    == symbol@,
            },
    {
        match self.find_key(symbol) {
            Some(i) => Ok(self.entries[i].1.as_str()),
            None => Err(SurgeError::FeedNotFound(String::from_str(symbol))),
        }
    }

    /// The feed for a symbol: its parsed trading pair and its identifier.
    /// The symbol must be known and of the form `BASE/QUOTE`.
    pub fn get_feed(&self, symbol: &str) -> (r: Result<Feed, SurgeError>)
        ensures
            ({
                match spec_lookup(self.entries_view(), symbol@) {
                    Option::Some(t) => {
                        if has_one_slash(symbol@) {
                            r matches Ok(feed) && feed.feed_id@ == t && symbol@
                                == feed.symbol.base@ + seq!['/'] + feed.symbol.quote@
                        } else {
                            r matches Err(e) && e matches SurgeError::InvalidSymbol(m) && m@
                                == symbol@
                        }
                    },
                    Option::None => r matches Err(e) && e matches SurgeError::FeedNotFound(m)
                        && m@ == symbol@,
                }
            }),
    {
        let feed_id = match self.get_feed_id(symbol) {
            Ok(id) => String::from_str(id),
            Err(e) => {
                return Err(e);
            },
        };
        let sym = match Symbol::from_str(symbol) {
            Ok(s) => s,
            Err(e) => {
                return Err(e);
            },
        };
        Ok(Feed::new(sym, feed_id))
    }

    /// The table's keys, in table order.
    pub open spec fn keys_view(&self) -> Seq<Seq<char>> {
        self.entries_view().map_values(|e: (Seq<char>, Seq<char>)| e.0)
    }

    /// Every known symbol, sorted ascending: the result is exactly the keys
    /// of the table, in strictly increasing lexicographic order.
    pub fn get_all_symbols(&self) -> (r: Vec<String>)
        requires
            self.wf(),
        ensures
            sorted_symbols(r.deep_view()),
            r.deep_view().len() == self.entries_view().len(),
            forall|x: Seq<char>| #![auto] r.deep_view().contains(x) <==> self.keys_view().contains(
                x,
            ),
    {
        let n = self.entries.len();
        let mut out: Vec<String> = Vec::new();
        let mut i: usize = 0;
        while i < n
            invariant
                n == self.entries@.len(),
                self.wf(),
                i <= n,
                out.deep_view().len() == i,
                sorted_symbols(out.deep_view()),
                forall|x: Seq<char>| #![auto]
                    out.deep_view().contains(x) <==> self.keys_view().take(i as int).contains(x),
            decreases n - i,
        {
            proof {
                assert(self.keys_view()[i as int] == self.entries@[i as int].0@);
            }
            let key = &self.entries[i].0;
            let m = out.len();
            let mut j: usize = 0;
            while j < m && str_lt(out[j].as_str(), key.as_str())
                invariant
                    m == out@.len(),
                    m == out.deep_view().len(),
                    j <= m,
                    key@ == self.entries@[i as int].0@,
                    forall|t: int| 0 <= t < j ==> lex_lt(#[trigger] out.deep_view()[t], key@),
                decreases m - j,
            {
                proof {
                    assert(out.deep_view()[j as int] == out@[j as int]@);
                }
                j = j + 1;
            }
            proof {
                if j < m {
                    assert(out.deep_view()[j as int] == out@[j as int]@);
                    if out.deep_view()[j as int] == key@ {
                        assert(out.deep_view().contains(key@));
                        let t = choose|t: int|
                            0 <= t < self.keys_view().take(i as int).len() && #[trigger] self
                                .keys_view().take(i as int)[t] == key@;
                        assert(self.entries_view()[t].0 == self.entries_view()[i as int].0);
                        assert(false);
                    }
                    assert(lex_lt(key@, out.deep_view()[j as int]));
                }
            }
            let ghost pre = out.deep_view();
            proof {
                assert(pre.len() == out@.len());
            }
            out.insert(j, key.clone());
            proof {
                assert(out.deep_view() =~= pre.insert(j as int, key@));
                let cur = out.deep_view();
                assert forall|t: int| 0 <= t < cur.len() - 1 implies lex_lt(
                    #[trigger] cur[t],
                    cur[t + 1],
                ) by {
                    if t + 1 < j {
                        assert(cur[t] == pre[t] && cur[t + 1] == pre[t + 1]);
                    } else if t + 1 == j {
                        assert(cur[t] == pre[t] && cur[t + 1] == key@);
                    } else if t == j {
                        assert(cur[t] == key@ && cur[t + 1] == pre[t]);
                    } else {
                        assert(cur[t] == pre[t - 1] && cur[t + 1] == pre[t]);
                    }
                }
                assert forall|x: Seq<char>| #![auto]
                    cur.contains(x) <==> self.keys_view().take(i + 1).contains(x) by {
                    if cur.contains(x) {
                        let w = choose|w: int| #![auto] 0 <= w < cur.len() && cur[w] == x;
                        if w == j {
                            assert(self.keys_view().take(i + 1)[i as int] == x);
                        } else {
                            let v: int = if w < j {
                                w
                            } else {
                                w - 1
                            };
                            assert(pre[v] == x);
                            assert(pre.contains(x));
                            let u = choose|u: int|
                                0 <= u < self.keys_view().take(i as int).len() && #[trigger] self
                                    .keys_view().take(i as int)[u] == x;
                            assert(self.keys_view().take(i + 1)[u] == x);
                        }
                    }
                    if self.keys_view().take(i + 1).contains(x) {
                        let u = choose|u: int|
                            0 <= u < self.keys_view().take(i + 1).len() && #[trigger] self
                                .keys_view().take(i + 1)[u] == x;
                        if u == i {
                            assert(cur[j as int] == x);
                        } else {
                            assert(self.keys_view().take(i as int)[u] == x);
                            assert(self.keys_view().take(i as int).contains(x));
                            assert(pre.contains(x));
                            let w = choose|w: int| #![auto] 0 <= w < pre.len() && pre[w] == x;
                            if w < j {
                                assert(cur[w] == pre[w]);
                                assert(cur[w] == x);
                            } else {
                                assert(cur[w + 1] == pre[w]);
                                assert(cur[w + 1] == x);
                            }
                        }
                    }
                }
            }
            i = i + 1;
        }
        proof {
            assert(self.keys_view().take(n as int) =~= self.keys_view());
        }
        out
    }

    /// How many feeds the table knows.
    pub fn count(&self) -> (r: usize)
        ensures
            r == self.entries_view().len(),
    {
        self.entries.len()
    }

    /// Whether a symbol is known.
    pub fn has_symbol(&self, symbol: &str) -> (r: bool)
        ensures
            r == spec_has_key(self.entries_view(), symbol@),
    {
        proof {
            lemma_lookup_has_key(self.entries_view(), symbol@);
        }
        match self.find_key(symbol) {
            Some(_) => true,
            None => false,
        }
    }
}

} // verus!
