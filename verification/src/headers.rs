//! The credential header set: an immutable mapping of header name to
//! value, seeded from the API key and shared by every request a client
//! issues. Variation never mutates in place: `set` hands back a new set.

use vstd::prelude::*;
use crate::error::ClientError;

verus! {

/// The spec-level content of a header set: name/value pairs in order.
pub type HeaderView = Seq<(Seq<char>, Seq<char>)>;

/// The views of one owned entry.
pub open spec fn pair_view(e: (String, String)) -> (Seq<char>, Seq<char>) {
    (e.0@, e.1@)
}

/// The views of a sequence of owned entries.
pub open spec fn entries_view(s: Seq<(String, String)>) -> HeaderView {
    s.map_values(|e: (String, String)| pair_view(e))
}

broadcast proof fn lemma_entries_view_push(s: Seq<(String, String)>, e: (String, String))
    ensures
        #[trigger] entries_view(s.push(e)) == entries_view(s).push(pair_view(e)),
{
    assert(entries_view(s.push(e)) =~= entries_view(s).push(pair_view(e)));
}

/// The value of the first entry named `k`, if any.
pub open spec fn hget(h: HeaderView, k: Seq<char>) -> Option<Seq<char>>
    decreases h.len(),
{
    if h.len() == 0 {
        None
    } else if h[0].0 == k {
        Some(h[0].1)
    } else {
        hget(h.drop_first(), k)
    }
}

/// `h` with the first entry named `k` replaced by `(k, v)`, or `(k, v)`
/// appended where no entry is named `k`.
pub open spec fn hset(h: HeaderView, k: Seq<char>, v: Seq<char>) -> HeaderView
    decreases h.len(),
{
    if h.len() == 0 {
        seq![(k, v)]
    } else if h[0].0 == k {
        seq![(k, v)] + h.drop_first()
    } else {
        seq![h[0]] + hset(h.drop_first(), k, v)
    }
}

/// After `hset`, looking the key up yields the new value and every other
/// key is unchanged.
pub proof fn lemma_hset_hget(h: HeaderView, k: Seq<char>, v: Seq<char>, q: Seq<char>)
    ensures
        hget(hset(h, k, v), q) == if q == k {
            Some(v)
        } else {
            hget(h, q)
        },
    decreases h.len(),
{
    if h.len() == 0 {
        assert(hset(h, k, v) == seq![(k, v)]);
        assert(hset(h, k, v).drop_first() =~= Seq::<(Seq<char>, Seq<char>)>::empty());
    } else if h[0].0 == k {
        let s = hset(h, k, v);
        assert(s[0] == (k, v));
        assert(s.drop_first() =~= h.drop_first());
    } else {
        let s = hset(h, k, v);
        assert(s[0] == h[0]);
        assert(s.drop_first() =~= hset(h.drop_first(), k, v));
        lemma_hset_hget(h.drop_first(), k, v, q);
    }
}

/// An immutable set of request headers.
#[derive(Debug)]
pub struct HeaderSet {
    entries: Vec<(String, String)>,
}

impl HeaderSet {
    /// The names and values held, in order.
    pub closed spec fn view_of(self) -> HeaderView {
        entries_view(self.entries@)
    }

    /// The value recorded under `name`, as contracts state it.
    pub open spec fn lookup(self, name: Seq<char>) -> Option<Seq<char>> {
        hget(self.view_of(), name)
    }

    /// An empty header set.
    pub fn empty() -> (r: HeaderSet)
        ensures
            r.view_of() == Seq::<(Seq<char>, Seq<char>)>::empty(),
    {
        let r = HeaderSet { entries: Vec::new() };
        proof {
            assert(r.view_of() =~= Seq::<(Seq<char>, Seq<char>)>::empty());
        }
        r
    }

    /// Builds the credential set for one API key: exactly the entries
    /// `Authorization: Bearer <key>` and `apikey: <key>`, in that order.
    /// An empty key is rejected with `InvalidCredential`.
    pub fn build(api_key: &str) -> (r: Result<HeaderSet, ClientError>)
        ensures
            r is Ok <==> api_key@.len() > 0,
            r is Ok ==> r->Ok_0.view_of() == seq![
                ("Authorization"@, "Bearer "@ + api_key@),
                ("apikey"@, api_key@),
            ],
            r is Err ==> r->Err_0 is InvalidCredential,
    {
        if api_key.unicode_len() == 0 {
            return Err(ClientError::InvalidCredential);
        }
        let mut bearer = "Bearer ".to_owned();
        bearer.append(api_key);
        let mut entries: Vec<(String, String)> = Vec::new();
        entries.push(("Authorization".to_owned(), bearer));
        entries.push(("apikey".to_owned(), api_key.to_owned()));
        let r = HeaderSet { entries };
        proof {
            assert(r.view_of() =~= seq![
                ("Authorization"@, "Bearer "@ + api_key@),
                ("apikey"@, api_key@),
            ]);
        }
        Ok(r)
    }

    /// Builds the credential set for `api_key` and folds `extra` over it:
    /// an extra entry overrides the default of the same name, an unknown
    /// name passes through as a new entry.
    pub fn build_with(api_key: &str, extra: &HeaderSet) -> (r: Result<HeaderSet, ClientError>)
        ensures
            r is Ok <==> api_key@.len() > 0,
            r is Ok ==> r->Ok_0.view_of() == hset_all(
                seq![("Authorization"@, "Bearer "@ + api_key@), ("apikey"@, api_key@)],
                extra.view_of(),
            ),
            r is Err ==> r->Err_0 is InvalidCredential,
    {
        let mut h = match HeaderSet::build(api_key) {
            Ok(h) => h,
            Err(e) => {
                return Err(e);
            },
        };
        let ghost base = h.view_of();
        let n = extra.len();
        let mut i: usize = 0;
        proof {
            assert(extra.view_of().take(0int) =~= Seq::<(Seq<char>, Seq<char>)>::empty());
        }
        while i < n
            invariant
                i <= n,
                n == extra.view_of().len(),
                h.view_of() == hset_all(base, extra.view_of().take(i as int)),
            decreases n - i,
        {
            let entry = extra.entry_at(i);
            h = h.set(entry.0, entry.1);
            proof {
                assert(extra.view_of().take(i + 1 as int) =~= extra.view_of().take(i as int).push(
                    extra.view_of()[i as int],
                ));
                lemma_hset_all_push(base, extra.view_of().take(i as int), extra.view_of()[i as int]);
            }
            i = i + 1;
        }
        proof {
            assert(extra.view_of().take(n as int) =~= extra.view_of());
        }
        Ok(h)
    }

    /// A copy of this set with the same entries.
    pub fn duplicate(&self) -> (r: HeaderSet)
        ensures
            r.view_of() == self.view_of(),
    {
        let mut entries: Vec<(String, String)> = Vec::new();
        let mut i: usize = 0;
        while i < self.entries.len()
            invariant
                i <= self.entries@.len(),
                entries_view(entries@) == entries_view(self.entries@).take(i as int),
            decreases self.entries@.len() - i,
        {
            let name = self.entries[i].0.clone();
            let value = self.entries[i].1.clone();
            entries.push((name, value));
            proof {
                broadcast use lemma_entries_view_push;

                let full = entries_view(self.entries@);
                assert(full[i as int] == pair_view(self.entries@[i as int]));
                assert(full.take(i + 1 as int) =~= full.take(i as int).push(full[i as int]));
            }
            i = i + 1;
        }
        let r = HeaderSet { entries };
        proof {
            assert(entries_view(self.entries@).take(self.entries@.len() as int) =~= self
                .view_of());
        }
        r
    }

    /// A new set in which `name` maps to `value`: the first entry named
    /// `name` is replaced, or the pair is appended where the name is new.
    /// Every other entry is unchanged.
    pub fn set(self, name: String, value: String) -> (r: HeaderSet)
        ensures
            r.view_of() == hset(self.view_of(), name@, value@),
    {
        let mut entries: Vec<(String, String)> = Vec::new();
        let mut i: usize = 0;
        let n = self.entries.len();
        while i < n
            invariant
                i <= n,
                n == self.entries@.len(),
                forall|j: int| 0 <= j < i ==> #[trigger] self.view_of()[j].0 != name@,
                entries_view(entries@) == self.view_of().take(i as int),
            decreases n - i,
        {
            if self.entries[i].0 == name {
                // replace this entry, copy the rest unchanged
                entries.push((name, value));
                proof {
                    assert(entries_view(entries@) =~= self.view_of().take(i as int).push(
                        (name@, value@),
                    ) + self.view_of().subrange(i + 1 as int, i + 1 as int));
                }
                let mut j: usize = i + 1;
                while j < n
                    invariant
                        i < j <= n,
                        n == self.entries@.len(),
                        entries_view(entries@) == self.view_of().take(i as int).push(
                            (name@, value@),
                        ) + self.view_of().subrange(i + 1 as int, j as int),
                    decreases n - j,
                {
                    let en = self.entries[j].0.clone();
                    let ev = self.entries[j].1.clone();
                    entries.push((en, ev));
                    proof {
                        broadcast use lemma_entries_view_push;

                        assert(self.view_of()[j as int] == pair_view(self.entries@[j as int]));
                        assert(self.view_of().subrange(i + 1 as int, j + 1 as int) =~= self
                            .view_of().subrange(i + 1 as int, j as int).push(
                            self.view_of()[j as int],
                        ));
                        assert(entries_view(entries@) =~= self.view_of().take(i as int).push(
                            (name@, value@),
                        ) + self.view_of().subrange(i + 1 as int, j + 1 as int));
                    }
                    j = j + 1;
                }
                let r = HeaderSet { entries };
                proof {
                    assert(self.view_of()[i as int].0 == name@);
                    lemma_hset_prefix_hit(self.view_of(), i as int, name@, value@);
                    assert(r.view_of() =~= hset(self.view_of(), name@, value@));
                }
                return r;
            }
            let en = self.entries[i].0.clone();
            let ev = self.entries[i].1.clone();
            entries.push((en, ev));
            proof {
                assert(entries_view(entries@) =~= self.view_of().take(i + 1 as int));
                assert(self.view_of()[i as int].0 == self.entries@[i as int].0@);
            }
            i = i + 1;
        }
        entries.push((name, value));
        let r = HeaderSet { entries };
        proof {
            assert(self.view_of().take(n as int) =~= self.view_of());
            lemma_hset_all_miss(self.view_of(), name@, value@);
            assert(r.view_of() =~= hset(self.view_of(), name@, value@));
        }
        r
    }

    /// How many entries the set holds.
    pub fn len(&self) -> (r: usize)
        ensures
            r == self.view_of().len(),
    {
        self.entries.len()
    }

    /// The entry at one position, as owned strings.
    pub fn entry_at(&self, i: usize) -> (r: (String, String))
        requires
            i < self.view_of().len(),
        ensures
            (r.0@, r.1@) == self.view_of()[i as int],
    {
        (self.entries[i].0.clone(), self.entries[i].1.clone())
    }

    /// The value recorded under `name`, or `None` where no entry has that
    /// name.
    pub fn get(&self, name: &String) -> (r: Option<String>)
        ensures
            match r {
                Some(v) => self.lookup(name@) == Some(v@),
                None => self.lookup(name@) is None,
            },
    {
        let mut i: usize = 0;
        let n = self.entries.len();
        proof {
            assert(self.view_of().skip(0int) =~= self.view_of());
        }
        while i < n
            invariant
                i <= n,
                n == self.entries@.len(),
                hget(self.view_of().skip(i as int), name@) == hget(self.view_of(), name@),
            decreases n - i,
        {
            proof {
                assert(self.view_of().skip(i as int)[0] == self.view_of()[i as int]);
            }
            if self.entries[i].0 == *name {
                return Some(self.entries[i].1.clone());
            }
            proof {
                assert(self.view_of().skip(i as int).drop_first() =~= self.view_of().skip(
                    i + 1 as int,
                ));
            }
            i = i + 1;
        }
        proof {
            assert(self.view_of().skip(n as int) =~= Seq::<(Seq<char>, Seq<char>)>::empty());
        }
        None
    }
}

/// A header set whose content is the credential pair for `api_key`
/// answers exactly the two credential lookups: `Authorization` holds
/// `Bearer ` followed by the key, and `apikey` holds the key itself.
pub proof fn lemma_build_lookups(h: HeaderSet, api_key: Seq<char>)
    requires
        h.view_of() == seq![("Authorization"@, "Bearer "@ + api_key), ("apikey"@, api_key)],
    ensures
        h.lookup("Authorization"@) == Some("Bearer "@ + api_key),
        h.lookup("apikey"@) == Some(api_key),
{
    reveal_strlit("Authorization");
    reveal_strlit("apikey");
    let v = h.view_of();
    assert(v[0] == ("Authorization"@, "Bearer "@ + api_key));
    assert("Authorization"@.len() == 13);
    assert("apikey"@.len() == 6);
    assert(v.drop_first() =~= seq![("apikey"@, api_key)]);
    assert(v.drop_first()[0] == ("apikey"@, api_key));
    assert(v.drop_first().drop_first() =~= Seq::<(Seq<char>, Seq<char>)>::empty());
    assert(v[0].0 != "apikey"@);
    assert(hget(v, "apikey"@) == hget(v.drop_first(), "apikey"@));
    assert(hget(v.drop_first(), "apikey"@) == Some(api_key));
}

/// `h` with every entry of `extras` applied in order, each by `hset`.
pub open spec fn hset_all(h: HeaderView, extras: HeaderView) -> HeaderView
    decreases extras.len(),
{
    if extras.len() == 0 {
        h
    } else {
        hset_all(hset(h, extras[0].0, extras[0].1), extras.drop_first())
    }
}

proof fn lemma_hset_all_push(h: HeaderView, extras: HeaderView, e: (Seq<char>, Seq<char>))
    ensures
        hset_all(h, extras.push(e)) == hset(hset_all(h, extras), e.0, e.1),
    decreases extras.len(),
{
    if extras.len() == 0 {
        assert(extras.push(e)[0] == e);
        assert(extras.push(e).drop_first() =~= Seq::<(Seq<char>, Seq<char>)>::empty());
        assert(hset_all(h, extras.push(e)) == hset_all(hset(h, e.0, e.1), extras.push(e).drop_first()));
    } else {
        assert(extras.push(e)[0] == extras[0]);
        assert(extras.push(e).drop_first() =~= extras.drop_first().push(e));
        assert(hset_all(h, extras.push(e)) == hset_all(
            hset(h, extras[0].0, extras[0].1),
            extras.drop_first().push(e),
        ));
        lemma_hset_all_push(hset(h, extras[0].0, extras[0].1), extras.drop_first(), e);
    }
}

/// Where position `i` holds the first entry named `k`, `hset` replaces
/// exactly that position.
proof fn lemma_hset_prefix_hit(h: HeaderView, i: int, k: Seq<char>, v: Seq<char>)
    requires
        0 <= i < h.len(),
        h[i].0 == k,
        forall|j: int| 0 <= j < i ==> #[trigger] h[j].0 != k,
    ensures
        hset(h, k, v) == h.take(i).push((k, v)) + h.subrange(i + 1, h.len() as int),
    decreases i,
{
    if i == 0 {
        assert(hset(h, k, v) == seq![(k, v)] + h.drop_first());
        assert(h.drop_first() =~= h.subrange(1, h.len() as int));
        assert(hset(h, k, v) =~= h.take(0int).push((k, v)) + h.subrange(1, h.len() as int));
    } else {
        assert(h[0].0 != k);
        assert(hset(h, k, v) == seq![h[0]] + hset(h.drop_first(), k, v));
        assert(h.drop_first()[i - 1].0 == k);
        assert(forall|j: int| 0 <= j < i - 1 ==> #[trigger] h.drop_first()[j].0 != k);
        lemma_hset_prefix_hit(h.drop_first(), i - 1, k, v);
        assert(hset(h, k, v) =~= h.take(i).push((k, v)) + h.subrange(i + 1, h.len() as int));
    }
}

/// Where no entry is named `k`, `hset` appends the pair.
proof fn lemma_hset_all_miss(h: HeaderView, k: Seq<char>, v: Seq<char>)
    requires
        forall|j: int| 0 <= j < h.len() ==> #[trigger] h[j].0 != k,
    ensures
        hset(h, k, v) == h.push((k, v)),
    decreases h.len(),
{
    if h.len() == 0 {
        assert(hset(h, k, v) =~= h.push((k, v)));
    } else {
        lemma_hset_all_miss(h.drop_first(), k, v);
        assert(hset(h, k, v) == seq![h[0]] + h.drop_first().push((k, v)));
        assert(hset(h, k, v) =~= h.push((k, v)));
    }
}

} // verus!
