//! The deduplicated, mutable set of symbols a session should be receiving.
//!
//! Adding inserts new members and ignores duplicates; removing deletes
//! members if present and is otherwise a silent no-op; a snapshot returns the
//! complete current set without mutating it.

use vstd::prelude::*;

verus! {

/// No symbol occurs twice.
pub open spec fn distinct_symbols(s: Seq<Seq<char>>) -> bool {
    forall|i: int, j: int| 0 <= i < j < s.len() ==> s[i] != s[j]
}

/// The set after inserting each element of `added` in order, skipping those
/// already present.
pub open spec fn spec_add(cur: Seq<Seq<char>>, added: Seq<Seq<char>>) -> Seq<Seq<char>>
    decreases added.len(),
{
    if added.len() == 0 {
        cur
    } else {
        let cur2 = if cur.contains(added[0]) {
            cur
        } else {
            cur.push(added[0])
        };
        spec_add(cur2, added.drop_first())
    }
}

/// The set after deleting every element of `removed`, keeping order.
pub open spec fn spec_remove(cur: Seq<Seq<char>>, removed: Seq<Seq<char>>) -> Seq<Seq<char>>
    decreases cur.len(),
{
    if cur.len() == 0 {
        Seq::empty()
    } else {
        let rest = spec_remove(cur.drop_first(), removed);
        if removed.contains(cur[0]) {
            rest
        } else {
            seq![cur[0]].add(rest)
        }
    }
}

/// Adding reaches exactly the union of the two member sets.
pub proof fn lemma_add_contains(cur: Seq<Seq<char>>, added: Seq<Seq<char>>, x: Seq<char>)
    ensures
        spec_add(cur, added).contains(x) <==> cur.contains(x) || added.contains(x),
    decreases added.len(),
{
    if added.len() == 0 {
    } else {
        let cur2 = if cur.contains(added[0]) {
            cur
        } else {
            cur.push(added[0])
        };
        lemma_add_contains(cur2, added.drop_first(), x);
        assert(cur2.contains(x) <==> cur.contains(x) || x == added[0]) by {
            if cur.contains(added[0]) {
            } else {
                if cur2.contains(x) {
                    let i = choose|i: int| 0 <= i < cur2.len() && cur2[i] == x;
                    if i < cur.len() {
                        assert(cur[i] == x);
                    }
                }
                if cur.contains(x) {
                    let i = choose|i: int| 0 <= i < cur.len() && cur[i] == x;
                    assert(cur2[i] == x);
                }
                assert(cur2[cur.len() as int] == added[0]);
            }
        }
        assert(added.contains(x) <==> x == added[0] || added.drop_first().contains(x)) by {
            if added.contains(x) {
                let i = choose|i: int| 0 <= i < added.len() && added[i] == x;
                if i > 0 {
                    assert(added.drop_first()[i - 1] == x);
                }
            }
            if added.drop_first().contains(x) {
                let i = choose|i: int|
                    0 <= i < added.drop_first().len() && added.drop_first()[i] == x;
                assert(added[i + 1] == x);
            }
        }
    }
}

/// Removing reaches exactly the difference of the two member sets.
pub proof fn lemma_remove_contains(cur: Seq<Seq<char>>, removed: Seq<Seq<char>>, x: Seq<char>)
    ensures
        spec_remove(cur, removed).contains(x) <==> cur.contains(x) && !removed.contains(x),
    decreases cur.len(),
{
    if cur.len() == 0 {
    } else {
        lemma_remove_contains(cur.drop_first(), removed, x);
        let rest = spec_remove(cur.drop_first(), removed);
        assert(cur.contains(x) <==> x == cur[0] || cur.drop_first().contains(x)) by {
            if cur.contains(x) {
                let i = choose|i: int| 0 <= i < cur.len() && cur[i] == x;
                if i > 0 {
                    assert(cur.drop_first()[i - 1] == x);
                }
            }
            if cur.drop_first().contains(x) {
                let i = choose|i: int| 0 <= i < cur.drop_first().len() && cur.drop_first()[i] == x;
                assert(cur[i + 1] == x);
            }
        }
        if !removed.contains(cur[0]) {
            let out = seq![cur[0]].add(rest);
            assert(out.contains(x) <==> x == cur[0] || rest.contains(x)) by {
                if out.contains(x) {
                    let i = choose|i: int| 0 <= i < out.len() && out[i] == x;
                    if i > 0 {
                        assert(rest[i - 1] == x);
                    }
                }
                if rest.contains(x) {
                    let i = choose|i: int| 0 <= i < rest.len() && rest[i] == x;
                    assert(out[i + 1] == x);
                }
                assert(out[0] == cur[0]);
            }
        }
    }
}

/// Removing preserves distinctness.
pub proof fn lemma_remove_distinct(cur: Seq<Seq<char>>, removed: Seq<Seq<char>>)
    requires
        distinct_symbols(cur),
    ensures
        distinct_symbols(spec_remove(cur, removed)),
    decreases cur.len(),
{
    if cur.len() == 0 {
    } else {
        assert(distinct_symbols(cur.drop_first())) by {
            assert forall|a: int, b: int|
                0 <= a < b < cur.drop_first().len() implies cur.drop_first()[a]
                != cur.drop_first()[b] by {
                assert(cur[a + 1] != cur[b + 1]);
            }
        }
        lemma_remove_distinct(cur.drop_first(), removed);
        let rest = spec_remove(cur.drop_first(), removed);
        if !removed.contains(cur[0]) {
            let out = seq![cur[0]].add(rest);
            assert(!rest.contains(cur[0])) by {
                lemma_remove_contains(cur.drop_first(), removed, cur[0]);
                if cur.drop_first().contains(cur[0]) {
                    let k = choose|k: int|
                        0 <= k < cur.drop_first().len() && cur.drop_first()[k] == cur[0];
                    assert(cur[k + 1] == cur[0]);
                }
            }
            assert forall|a: int, b: int| 0 <= a < b < out.len() implies out[a] != out[b] by {
                if a == 0 {
                    assert(out[b] == rest[b - 1]);
                    assert(rest.contains(rest[b - 1]));
                } else {
                    assert(out[a] == rest[a - 1]);
                    assert(out[b] == rest[b - 1]);
                }
            }
        }
    }
}

/// Subscribing to any set of symbols and then immediately unsubscribing from
/// that same set leaves an empty effective subscription, whatever the set.
pub proof fn lemma_subscribe_then_unsubscribe_empty(syms: Seq<Seq<char>>)
    ensures
        spec_remove(spec_add(Seq::empty(), syms), syms).len() == 0,
{
    let added = spec_add(Seq::<Seq<char>>::empty(), syms);
    let result = spec_remove(added, syms);
    if result.len() > 0 {
        let x = result[0];
        assert(result.contains(x));
        lemma_remove_contains(added, syms, x);
        lemma_add_contains(Seq::empty(), syms, x);
        assert(false);
    }
}

/// A deduplicated collection of symbol strings.
pub struct SubscriptionSet {
    symbols: Vec<String>,
}

impl SubscriptionSet {
    /// The members, in insertion order.
    pub closed spec fn view(&self) -> Seq<Seq<char>> {
        self.symbols.deep_view()
    }

    /// The set never holds a symbol twice.
    pub open spec fn wf(&self) -> bool {
        distinct_symbols(self.view())
    }

    /// An empty set.
    pub fn new() -> (r: Self)
        ensures
            r.view() == Seq::<Seq<char>>::empty(),
            r.wf(),
    {
        let r = SubscriptionSet { symbols: Vec::new() };
        proof {
            assert(r.view() =~= Seq::<Seq<char>>::empty());
        }
        r
    }

    /// Whether `s` is a member.
    pub fn contains(&self, s: &str) -> (r: bool)
        ensures
            r == self.view().contains(s@),
    {
        let n = self.symbols.len();
        let mut i: usize = 0;
        while i < n
            invariant
                n == self.symbols@.len(),
                i <= n,
                forall|k: int| 0 <= k < i ==> self.view()[k] != s@,
            decreases n - i,
        {
            proof {
                assert(self.view()[i as int] == self.symbols@[i as int]@);
            }
            if crate::text::str_eq(self.symbols[i].as_str(), s) {
                assert(self.view()[i as int] == s@);
                return true;
            }
            i = i + 1;
        }
        proof {
            if self.view().contains(s@) {
                let k = choose|k: int| 0 <= k < self.view().len() && self.view()[k] == s@;
                assert(self.view()[k] == s@);
            }
        }
        false
    }

    /// Insert each listed symbol, ignoring those already present.
    pub fn add(&mut self, symbols: &Vec<String>)
        requires
            old(self).wf(),
        ensures
            final(self).wf(),
            final(self).view() == spec_add(old(self).view(), symbols.deep_view()),
    {
        let n = symbols.len();
        let mut j: usize = 0;
        proof {
            assert(symbols.deep_view().skip(0) =~= symbols.deep_view());
        }
        while j < n
            invariant
                n == symbols@.len(),
                j <= n,
                self.wf(),
                spec_add(old(self).view(), symbols.deep_view()) == spec_add(
                    self.view(),
                    symbols.deep_view().skip(j as int),
                ),
            decreases n - j,
        {
            let ghost pre = self.view();
            let ghost remaining = symbols.deep_view().skip(j as int);
            proof {
                assert(remaining[0] == symbols.deep_view()[j as int]);
                assert(remaining.drop_first() =~= symbols.deep_view().skip(j + 1));
            }
            if !self.contains(symbols[j].as_str()) {
                let ghost old_view = self.view();
                self.symbols.push(symbols[j].clone());
                proof {
                    assert(self.view() =~= old_view.push(symbols@[j as int]@));
                    assert forall|a: int, b: int|
                        0 <= a < b < self.view().len() implies self.view()[a]
                        != self.view()[b] by {
                        if b == self.view().len() - 1 {
                            assert(!old_view.contains(symbols@[j as int]@));
                            assert(old_view[a] == self.view()[a]);
                        }
                    }
                }
            }
            j = j + 1;
        }
        proof {
            assert(symbols.deep_view().skip(n as int).len() == 0);
        }
    }

    /// Delete each listed symbol; absent symbols are ignored.
    pub fn remove(&mut self, symbols: &Vec<String>)
        requires
            old(self).wf(),
        ensures
            final(self).wf(),
            final(self).view() == spec_remove(old(self).view(), symbols.deep_view()),
    {
        let ghost removed = symbols.deep_view();
        let n = self.symbols.len();
        let mut kept: Vec<String> = Vec::new();
        let mut i: usize = 0;
        proof {
            assert(self.view().skip(0) =~= self.view());
            assert(kept.deep_view() =~= Seq::<Seq<char>>::empty());
            assert(Seq::<Seq<char>>::empty().add(spec_remove(self.view(), removed))
                =~= spec_remove(self.view(), removed));
        }
        while i < n
            invariant
                n == self.symbols@.len(),
                i <= n,
                old(self) == self,
                self.wf(),
                removed == symbols.deep_view(),
                kept.deep_view().add(spec_remove(self.view().skip(i as int), removed))
                    == spec_remove(self.view(), removed),
            decreases n - i,
        {
            let ghost tail = self.view().skip(i as int);
            proof {
                assert(tail[0] == self.view()[i as int]);
                assert(tail.drop_first() =~= self.view().skip(i + 1));
                assert(self.view()[i as int] == self.symbols@[i as int]@);
            }
            if !vec_contains_str(symbols, self.symbols[i].as_str()) {
                let ghost kept_pre = kept.deep_view();
                kept.push(self.symbols[i].clone());
                proof {
                    assert(kept.deep_view() =~= kept_pre.push(self.view()[i as int]));
                    assert(kept.deep_view().add(spec_remove(self.view().skip(i + 1), removed))
                        =~= kept_pre.add(
                        seq![self.view()[i as int]].add(
                            spec_remove(self.view().skip(i + 1), removed),
                        ),
                    ));
                }
            }
            i = i + 1;
        }
        proof {
            assert(self.view().skip(n as int).len() == 0);
            assert(kept.deep_view().add(spec_remove(self.view().skip(n as int), removed))
                =~= kept.deep_view());
            lemma_remove_distinct(self.view(), removed);
        }
        self.symbols = kept;
    }

    /// The complete current membership, without mutating the set; like the
    /// set itself, it holds no symbol twice.
    pub fn snapshot(&self) -> (r: Vec<String>)
        requires
            self.wf(),
        ensures
            r.deep_view() == self.view(),
            distinct_symbols(r.deep_view()),
    {
        broadcast use vstd::std_specs::vec::vec_clone_deep_view_proof;

        let r = self.symbols.clone();
        proof {
            assert forall|k: int| 0 <= k < r@.len() implies r.deep_view()[k]
                == self.symbols.deep_view()[k] by {
                assert(cloned::<String>(self.symbols[k], r[k]));
            }
            assert(r.deep_view() =~= self.symbols.deep_view());
        }
        r
    }

    /// How many symbols are currently subscribed.
    pub fn len(&self) -> (r: usize)
        ensures
            r == self.view().len(),
    {
        self.symbols.len()
    }

    /// Whether no symbol is subscribed.
    pub fn is_empty(&self) -> (r: bool)
        ensures
            r == (self.view().len() == 0),
    {
        self.symbols.len() == 0
    }
}

/// Whether `s` occurs in a list of strings.
pub fn vec_contains_str(v: &Vec<String>, s: &str) -> (r: bool)
    ensures
        r == v.deep_view().contains(s@),
{
    let n = v.len();
    let mut i: usize = 0;
    while i < n
        invariant
            n == v@.len(),
            i <= n,
            forall|k: int| 0 <= k < i ==> v.deep_view()[k] != s@,
        decreases n - i,
    {
        proof {
            assert(v.deep_view()[i as int] == v@[i as int]@);
        }
        if crate::text::str_eq(v[i].as_str(), s) {
            assert(v.deep_view()[i as int] == s@);
            return true;
        }
        i = i + 1;
    }
    proof {
        if v.deep_view().contains(s@) {
            let k = choose|k: int| 0 <= k < v.deep_view().len() && v.deep_view()[k] == s@;
            assert(v.deep_view()[k] == s@);
        }
    }
    false
}

} // verus!
