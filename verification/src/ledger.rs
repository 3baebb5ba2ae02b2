//! What the router remembers between requests: the route that issued each response,
//! and the credentials resolved in the current registry generation.

use crate::registry::pair_views;
use crate::search::{any_where, index_where, index_where_bounds, index_where_is};
use crate::text::{opt_view, str_eq};
use vstd::prelude::*;

verus! {

/// How many response routes are remembered.
pub const MAX_TRACKED_RESPONSE_ROUTES: usize = 4096;

/// Entries under a key.
pub open spec fn keyed(key: Seq<char>) -> spec_fn((Seq<char>, Seq<char>)) -> bool {
    |e: (Seq<char>, Seq<char>)| e.0 == key
}

/// The value of the first entry under a key.
pub open spec fn assoc(s: Seq<(Seq<char>, Seq<char>)>, key: Seq<char>) -> Option<Seq<char>> {
    if any_where(s, keyed(key)) {
        Some(s[index_where(s, keyed(key))].1)
    } else {
        None
    }
}

/// The entries with a value put under a key: in place of the old one, or at the end.
pub open spec fn assoc_put(
    s: Seq<(Seq<char>, Seq<char>)>,
    key: Seq<char>,
    value: Seq<char>,
) -> Seq<(Seq<char>, Seq<char>)> {
    if any_where(s, keyed(key)) {
        s.update(index_where(s, keyed(key)), (key, value))
    } else {
        s.push((key, value))
    }
}

/// Whether no key occurs twice.
pub open spec fn distinct_keys(s: Seq<(Seq<char>, Seq<char>)>) -> bool {
    forall|i: int, j: int|
        0 <= i < j < s.len() ==> (#[trigger] s[i]).0 != (#[trigger] s[j]).0
}

/// An entry that is there is found where no key occurs twice.
proof fn assoc_at(s: Seq<(Seq<char>, Seq<char>)>, i: int)
    requires
        distinct_keys(s),
        0 <= i < s.len(),
    ensures
        assoc(s, s[i].0) == Some(s[i].1),
{
    let p = keyed(s[i].0);
    index_where_bounds(s, p);
    index_where_is(s, p, i);
}

/// A key that no entry is under is not found.
proof fn assoc_absent(s: Seq<(Seq<char>, Seq<char>)>, key: Seq<char>)
    requires
        forall|i: int| 0 <= i < s.len() ==> (#[trigger] s[i]).0 != key,
    ensures
        assoc(s, key) is None,
{
    index_where_bounds(s, keyed(key));
}

/// Putting a value under a key makes it what is found there and changes no other key.
pub proof fn assoc_put_found(
    s: Seq<(Seq<char>, Seq<char>)>,
    key: Seq<char>,
    value: Seq<char>,
    other: Seq<char>,
)
    requires
        distinct_keys(s),
    ensures
        distinct_keys(assoc_put(s, key, value)),
        assoc_put(s, key, value).len() <= s.len() + 1,
        assoc(assoc_put(s, key, value), other) == (if other == key {
            Some(value)
        } else {
            assoc(s, other)
        }),
{
    let t = assoc_put(s, key, value);
    index_where_bounds(s, keyed(key));
    let at = index_where(s, keyed(key));
    assert(t[at] == (key, value));
    assert forall|i: int, j: int| 0 <= i < j < t.len() implies (#[trigger] t[i]).0 != (
    #[trigger] t[j]).0 by {
        if i == at {
            if j < s.len() {
                assert(s[i].0 == key);
                assert(s[j].0 != s[i].0);
            }
        } else if j == at {
            assert(!keyed(key)(s[i]));
        } else {
            assert(s[i].0 != s[j].0);
        }
    }
    if other == key {
        assoc_at(t, at);
    } else {
        index_where_bounds(s, keyed(other));
        let o = index_where(s, keyed(other));
        if o < s.len() {
            assert(t[o] == s[o]);
            assoc_at(t, o);
        } else {
            assert forall|i: int| 0 <= i < t.len() implies (#[trigger] t[i]).0 != other by {
                if i != at {
                    assert(!keyed(other)(s[i]));
                }
            }
            assoc_absent(t, other);
        }
    }
}

/// The index of the first entry under a key, or the length.
fn entry_index(entries: &Vec<(String, String)>, key: &str) -> (r: usize)
    ensures
        r == index_where(pair_views(entries@), keyed(key@)),
        r <= entries@.len(),
{
    let mut i: usize = 0;
    while i < entries.len()
        invariant
            i <= entries@.len(),
            forall|j: int| 0 <= j < i ==> !keyed(key@)(#[trigger] pair_views(entries@)[j]),
        decreases entries@.len() - i,
    {
        if str_eq(&entries[i].0, key) {
            proof {
                assert(keyed(key@)(pair_views(entries@)[i as int]));
                index_where_is(pair_views(entries@), keyed(key@), i as int);
            }
            return i;
        }
        i = i + 1;
    }
    proof {
        index_where_is(pair_views(entries@), keyed(key@), i as int);
    }
    i
}

/// The value of the first entry under a key.
fn find<'a>(entries: &'a Vec<(String, String)>, key: &str) -> (r: Option<&'a String>)
    ensures
        assoc(pair_views(entries@), key@) == (match r {
            Some(v) => Some(v@),
            None => None,
        }),
{
    let i = entry_index(entries, key);
    if i < entries.len() {
        assert(pair_views(entries@)[i as int] == (entries@[i as int].0@, entries@[i as int].1@));
        Some(&entries[i].1)
    } else {
        None
    }
}

/// Puts a value under a key.
fn put(entries: &mut Vec<(String, String)>, key: String, value: String)
    ensures
        pair_views(final(entries)@) == assoc_put(pair_views(old(entries)@), key@, value@),
{
    let i = entry_index(entries, &key);
    if i < entries.len() {
        let ghost before = pair_views(entries@);
        entries.set(i, (key, value));
        assert(pair_views(entries@) =~= before.update(i as int, (key@, value@)));
    } else {
        let ghost before = pair_views(entries@);
        entries.push((key, value));
        assert(pair_views(entries@) =~= before.push((key@, value@)));
    }
}

/// The routes of the responses seen last, oldest first.
pub struct BoundedRouteMap {
    entries: Vec<(String, String)>,
}

impl View for BoundedRouteMap {
    type V = Seq<(Seq<char>, Seq<char>)>;

    closed spec fn view(&self) -> Seq<(Seq<char>, Seq<char>)> {
        pair_views(self.entries@)
    }
}

/// The routes after one more is remembered: a known response keeps its age, a new one
/// is the youngest, and over the bound the oldest is forgotten.
pub open spec fn remembered(
    routes: Seq<(Seq<char>, Seq<char>)>,
    response: Seq<char>,
    route: Seq<char>,
) -> Seq<(Seq<char>, Seq<char>)> {
    let more = assoc_put(routes, response, route);
    if more.len() > MAX_TRACKED_RESPONSE_ROUTES {
        more.drop_first()
    } else {
        more
    }
}

impl BoundedRouteMap {
    /// Whether each response is listed once and the bound is kept.
    #[verifier::type_invariant]
    spec fn well_formed(&self) -> bool {
        &&& distinct_keys(pair_views(self.entries@))
        &&& self.entries@.len() <= MAX_TRACKED_RESPONSE_ROUTES
    }

    /// Nothing remembered.
    pub fn new() -> (r: BoundedRouteMap)
        ensures
            r@ == Seq::<(Seq<char>, Seq<char>)>::empty(),
    {
        let entries: Vec<(String, String)> = Vec::new();
        assert(pair_views(entries@) =~= Seq::empty());
        BoundedRouteMap { entries }
    }

    /// Remembers the route that issued a response.
    pub fn insert(&mut self, key: String, value: String)
        ensures
            final(self)@ == remembered(old(self)@, key@, value@),
            distinct_keys(old(self)@),
            old(self)@.len() <= MAX_TRACKED_RESPONSE_ROUTES,
            distinct_keys(final(self)@),
            final(self)@.len() <= MAX_TRACKED_RESPONSE_ROUTES,
    {
        proof {
            use_type_invariant(&*self);
        }
        let mut entries: Vec<(String, String)> = Vec::new();
        assert(pair_views(entries@) =~= Seq::empty());
        std::mem::swap(&mut self.entries, &mut entries);
        proof {
            assoc_put_found(pair_views(entries@), key@, value@, key@);
        }
        assert(pair_views(entries@).len() == entries@.len());
        put(&mut entries, key, value);
        assert(pair_views(entries@).len() == entries@.len());
        if entries.len() > MAX_TRACKED_RESPONSE_ROUTES {
            let ghost before = pair_views(entries@);
            let _oldest = entries.remove(0);
            assert(pair_views(entries@) =~= before.drop_first());
            assert forall|i: int, j: int|
                0 <= i < j < before.drop_first().len() implies (
            #[trigger] before.drop_first()[i]).0 != (#[trigger] before.drop_first()[j]).0 by {
                assert(before[i + 1].0 != before[j + 1].0);
            }
        }
        self.entries = entries;
    }

    /// The route that issued a response.
    pub fn get(&self, key: &str) -> (r: Option<&String>)
        ensures
            assoc(self@, key@) == (match r {
                Some(v) => Some(v@),
                None => None,
            }),
    {
        find(&self.entries, key)
    }
}

/// A response that was just remembered is found under its route, and the number of
/// remembered responses never passes the bound.
pub proof fn remembered_is_found(
    routes: Seq<(Seq<char>, Seq<char>)>,
    response: Seq<char>,
    route: Seq<char>,
)
    requires
        distinct_keys(routes),
        routes.len() <= MAX_TRACKED_RESPONSE_ROUTES,
    ensures
        distinct_keys(remembered(routes, response, route)),
        remembered(routes, response, route).len() <= MAX_TRACKED_RESPONSE_ROUTES,
        assoc(remembered(routes, response, route), response) == Some(route),
{
    assoc_put_found(routes, response, route, response);
    index_where_bounds(routes, keyed(response));
    let more = assoc_put(routes, response, route);
    if more.len() > MAX_TRACKED_RESPONSE_ROUTES {
        let less = more.drop_first();
        assert(less[less.len() - 1] == (response, route));
        assoc_at(less, less.len() - 1);
    }
}

/// Remembering a response changes no other one, except that over the bound the oldest
/// is forgotten.
pub proof fn remembering_keeps_the_younger(
    routes: Seq<(Seq<char>, Seq<char>)>,
    response: Seq<char>,
    route: Seq<char>,
    other: Seq<char>,
)
    requires
        distinct_keys(routes),
        routes.len() <= MAX_TRACKED_RESPONSE_ROUTES,
        other != response,
    ensures
        assoc(remembered(routes, response, route), other) == (if routes.len()
            == MAX_TRACKED_RESPONSE_ROUTES && assoc(routes, response) is None && routes[0].0
            == other {
            None
        } else {
            assoc(routes, other)
        }),
{
    assoc_put_found(routes, response, route, other);
    index_where_bounds(routes, keyed(response));
    let more = assoc_put(routes, response, route);
    if more.len() > MAX_TRACKED_RESPONSE_ROUTES {
        let less = more.drop_first();
        assert(more[0] == routes[0]);
        index_where_bounds(more, keyed(other));
        let o = index_where(more, keyed(other));
        if o < more.len() && o > 0 {
            assert(less[o - 1] == more[o]);
            assoc_at(less, o - 1);
            assert(more[0].0 != more[o].0);
        } else {
            assert forall|i: int| 0 <= i < less.len() implies (#[trigger] less[i]).0 != other by {
                assert(less[i] == more[i + 1]);
                if o == 0 {
                    assert(more[0].0 != more[i + 1].0);
                } else {
                    assert(!keyed(other)(more[i + 1]));
                }
            }
            assoc_absent(less, other);
            if o == 0 {
                assert(keyed(other)(more[0]));
            }
        }
    }
}

/// Credentials resolved in one registry generation.
pub struct CredentialCache {
    generation: Option<u64>,
    entries: Vec<(String, String)>,
}

/// The model of the cache.
pub ghost struct CacheView {
    pub generation: Option<u64>,
    pub entries: Seq<(Seq<char>, Seq<char>)>,
}

impl View for CredentialCache {
    type V = CacheView;

    closed spec fn view(&self) -> CacheView {
        CacheView { generation: self.generation, entries: pair_views(self.entries@) }
    }
}

impl CacheView {
    /// The cache in a generation: emptied where that is not the one it was filled in.
    pub open spec fn at(self, generation: u64) -> CacheView {
        if self.generation == Some(generation) {
            self
        } else {
            CacheView { generation: Some(generation), entries: Seq::empty() }
        }
    }

    /// What a lookup in a generation finds.
    pub open spec fn lookup(self, generation: u64, reference: Seq<char>) -> Option<Seq<char>> {
        assoc(self.at(generation).entries, reference)
    }

    /// The cache with a credential resolved in a generation.
    pub open spec fn with(self, generation: u64, reference: Seq<char>, secret: Seq<char>) -> CacheView {
        CacheView {
            generation: Some(generation),
            entries: assoc_put(self.at(generation).entries, reference, secret),
        }
    }
}

impl CredentialCache {
    /// Whether each reference is listed once.
    #[verifier::type_invariant]
    spec fn well_formed(&self) -> bool {
        distinct_keys(pair_views(self.entries@))
    }

    /// Nothing resolved yet.
    pub fn new() -> (r: CredentialCache)
        ensures
            r@ == (CacheView { generation: None, entries: Seq::empty() }),
    {
        let entries: Vec<(String, String)> = Vec::new();
        assert(pair_views(entries@) =~= Seq::empty());
        CredentialCache { generation: None, entries }
    }

    /// Looks a reference up; the whole cache is dropped where the registry moved on.
    pub fn get(&mut self, generation: u64, reference: &str) -> (r: Option<String>)
        ensures
            opt_view(r) == old(self)@.lookup(generation, reference@),
            final(self)@ == old(self)@.at(generation),
            distinct_keys(final(self)@.entries),
    {
        if self.generation != Some(generation) {
            let entries: Vec<(String, String)> = Vec::new();
            assert(pair_views(entries@) =~= Seq::empty());
            proof {
                assoc_absent(pair_views(entries@), reference@);
            }
            *self = CredentialCache { generation: Some(generation), entries };
            return None;
        }
        proof {
            use_type_invariant(&*self);
        }
        match find(&self.entries, reference) {
            Some(secret) => Some(secret.clone()),
            None => None,
        }
    }

    /// Keeps a credential resolved in a generation.
    pub fn insert(&mut self, generation: u64, reference: &str, secret: String)
        ensures
            final(self)@ == old(self)@.with(generation, reference@, secret@),
            distinct_keys(final(self)@.entries),
    {
        proof {
            use_type_invariant(&*self);
        }
        let same = self.generation == Some(generation);
        let mut entries: Vec<(String, String)> = Vec::new();
        assert(pair_views(entries@) =~= Seq::empty());
        if same {
            std::mem::swap(&mut self.entries, &mut entries);
        }
        proof {
            assoc_put_found(pair_views(entries@), reference@, secret@, reference@);
        }
        put(&mut entries, reference.to_owned(), secret);
        *self = CredentialCache { generation: Some(generation), entries };
    }
}

/// Within its generation a credential that was kept is found, and no other reference
/// changes.
pub proof fn cached_credentials_are_found(
    cache: CacheView,
    generation: u64,
    reference: Seq<char>,
    secret: Seq<char>,
    other: Seq<char>,
)
    requires
        distinct_keys(cache.entries),
    ensures
        cache.with(generation, reference, secret).lookup(generation, other) == (if other
            == reference {
            Some(secret)
        } else {
            cache.lookup(generation, other)
        }),
{
    assoc_put_found(cache.at(generation).entries, reference, secret, other);
}

/// A registry that moved on makes every kept credential unknown.
pub proof fn another_generation_finds_nothing(cache: CacheView, generation: u64, reference: Seq<char>)
    requires
        cache.generation != Some(generation),
    ensures
        cache.lookup(generation, reference) is None,
{
    assoc_absent(Seq::empty(), reference);
}

} // verus!
