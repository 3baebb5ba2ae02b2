//! Browser sessions of the panel.

use crate::limiter::{elapsed, since};
use crate::search::{
    any_where, found, found_after_push, found_after_remove, found_after_update, index_where,
    index_where_bounds, index_where_is, kept_where, kept_where_holds,
};
use crate::text::{opt_eq, opt_view, str_eq};
use vstd::prelude::*;

verus! {

/// How long a session lasts, in nanoseconds: twelve hours.
pub const SESSION_TTL: u64 = 43_200_000_000_000;

/// How long a session may be idle, in nanoseconds: one hour.
pub const SESSION_IDLE_TIMEOUT: u64 = 3_600_000_000_000;

/// How many sessions there may be.
pub const MAX_SESSIONS: usize = 1024;

/// A browser session. It is bound to the password hash in force when it was issued.
pub struct Session {
    pub created: u64,
    pub last_seen: u64,
    pub password_hash: Option<String>,
}

/// The model of a session.
pub ghost struct SessionView {
    pub created: u64,
    pub last_seen: u64,
    pub password_hash: Option<Seq<char>>,
}

impl View for Session {
    type V = SessionView;

    open spec fn view(&self) -> SessionView {
        SessionView {
            created: self.created,
            last_seen: self.last_seen,
            password_hash: opt_view(self.password_hash),
        }
    }
}

impl SessionView {
    /// Whether the session is valid: neither too old nor too long idle, and issued
    /// under the password that is still in force.
    pub open spec fn valid(self, now: u64, current: Option<Seq<char>>) -> bool {
        &&& since(self.created, now) <= SESSION_TTL
        &&& since(self.last_seen, now) <= SESSION_IDLE_TIMEOUT
        &&& self.password_hash == current
    }
}

impl Session {
    /// Whether the session is valid.
    pub fn is_valid(&self, now: u64, current_password_hash: &Option<String>) -> (r: bool)
        ensures
            r == self@.valid(now, opt_view(*current_password_hash)),
    {
        elapsed(self.created, now) <= SESSION_TTL && elapsed(self.last_seen, now)
            <= SESSION_IDLE_TIMEOUT && opt_eq(&self.password_hash, current_password_hash)
    }
}

/// A session dies with its password, however it was changed.
pub proof fn sessions_die_with_their_password(s: SessionView, now: u64, current: Option<Seq<char>>)
    requires
        s.password_hash != current,
    ensures
        !s.valid(now, current),
{
}

/// The views of listed sessions.
pub open spec fn session_views(s: Seq<(String, Session)>) -> Seq<(Seq<char>, SessionView)> {
    s.map_values(|e: (String, Session)| (e.0@, e.1@))
}

/// The sessions by their tokens.
pub struct Sessions {
    entries: Vec<(String, Session)>,
}

impl View for Sessions {
    type V = Seq<(Seq<char>, SessionView)>;

    closed spec fn view(&self) -> Seq<(Seq<char>, SessionView)> {
        session_views(self.entries@)
    }
}

/// Entries of a token.
pub open spec fn of_token(token: Seq<char>) -> spec_fn((Seq<char>, SessionView)) -> bool {
    |e: (Seq<char>, SessionView)| e.0 == token
}

/// Entries that are valid.
pub open spec fn valid_entry(now: u64, current: Option<Seq<char>>) -> spec_fn(
    (Seq<char>, SessionView),
) -> bool {
    |e: (Seq<char>, SessionView)| e.1.valid(now, current)
}

/// Whether a token has a session.
pub open spec fn has_session(s: Seq<(Seq<char>, SessionView)>, token: Seq<char>) -> bool {
    any_where(s, of_token(token))
}

/// The sessions once one of them was used.
pub open spec fn touched(s: Seq<(Seq<char>, SessionView)>, token: Seq<char>, now: u64) -> Seq<
    (Seq<char>, SessionView),
> {
    if has_session(s, token) {
        let i = index_where(s, of_token(token));
        s.update(i, (token, SessionView { last_seen: now, ..s[i].1 }))
    } else {
        s
    }
}

/// The sessions once one of them was ended.
pub open spec fn ended(s: Seq<(Seq<char>, SessionView)>, token: Seq<char>) -> Seq<
    (Seq<char>, SessionView),
> {
    if has_session(s, token) {
        s.remove(index_where(s, of_token(token)))
    } else {
        s
    }
}

/// Whether no token occurs twice.
pub open spec fn distinct_tokens(s: Seq<(Seq<char>, SessionView)>) -> bool {
    forall|i: int, j: int|
        0 <= i < j < s.len() ==> (#[trigger] s[i]).0 != (#[trigger] s[j]).0
}

/// The index of the session that was seen least recently.
pub open spec fn least_recent(s: Seq<(Seq<char>, SessionView)>) -> int
    decreases s.len(),
{
    if s.len() <= 1 {
        0
    } else {
        let before = least_recent(s.drop_last());
        if s.last().1.last_seen < s[before].1.last_seen {
            s.len() - 1
        } else {
            before
        }
    }
}

/// The sessions without the least recent ones, until there is room for one more.
pub open spec fn with_room(s: Seq<(Seq<char>, SessionView)>) -> Seq<(Seq<char>, SessionView)>
    decreases s.len(),
{
    if s.len() >= MAX_SESSIONS && 0 <= least_recent(s) < s.len() {
        with_room(s.remove(least_recent(s)))
    } else {
        s
    }
}

/// The sessions with one put under a token.
pub open spec fn with_session(
    s: Seq<(Seq<char>, SessionView)>,
    token: Seq<char>,
    session: SessionView,
) -> Seq<(Seq<char>, SessionView)> {
    if has_session(s, token) {
        s.update(index_where(s, of_token(token)), (token, session))
    } else {
        s.push((token, session))
    }
}

/// The sessions after one more: those that are not valid are swept first, then the
/// least recent make room.
pub open spec fn with_new_session(
    s: Seq<(Seq<char>, SessionView)>,
    token: Seq<char>,
    session: SessionView,
    now: u64,
    current: Option<Seq<char>>,
) -> Seq<(Seq<char>, SessionView)> {
    with_session(with_room(kept_where(s, valid_entry(now, current))), token, session)
}

proof fn least_recent_bounds(s: Seq<(Seq<char>, SessionView)>)
    requires
        s.len() > 0,
    ensures
        0 <= least_recent(s) < s.len(),
        forall|i: int|
            0 <= i < s.len() ==> s[least_recent(s)].1.last_seen <= (#[trigger] s[i]).1.last_seen,
    decreases s.len(),
{
    if s.len() > 1 {
        let less = s.drop_last();
        least_recent_bounds(less);
        assert forall|i: int| 0 <= i < s.len() implies s[least_recent(s)].1.last_seen <= (
        #[trigger] s[i]).1.last_seen by {
            if i < less.len() {
                assert(less[i] == s[i]);
            }
        }
    }
}

proof fn remove_distinct(s: Seq<(Seq<char>, SessionView)>, o: int)
    requires
        distinct_tokens(s),
        0 <= o < s.len(),
    ensures
        distinct_tokens(s.remove(o)),
{
    let less = s.remove(o);
    assert forall|i: int, j: int| 0 <= i < j < less.len() implies (#[trigger] less[i]).0 != (
    #[trigger] less[j]).0 by {
        let x = if i < o {
            i
        } else {
            i + 1
        };
        let y = if j < o {
            j
        } else {
            j + 1
        };
        assert(less[i] == s[x] && less[j] == s[y]);
    }
}

proof fn with_room_bounded(s: Seq<(Seq<char>, SessionView)>)
    requires
        distinct_tokens(s),
    ensures
        with_room(s).len() < MAX_SESSIONS,
        distinct_tokens(with_room(s)),
        s.len() < MAX_SESSIONS ==> with_room(s) == s,
    decreases s.len(),
{
    if s.len() >= MAX_SESSIONS {
        least_recent_bounds(s);
        remove_distinct(s, least_recent(s));
        with_room_bounded(s.remove(least_recent(s)));
    }
}

proof fn kept_distinct(
    s: Seq<(Seq<char>, SessionView)>,
    p: spec_fn((Seq<char>, SessionView)) -> bool,
)
    requires
        distinct_tokens(s),
    ensures
        distinct_tokens(kept_where(s, p)),
        kept_where(s, p).len() <= s.len(),
    decreases s.len(),
{
    kept_where_holds(s, p);
    if s.len() > 0 {
        let less = s.drop_last();
        assert forall|i: int, j: int| 0 <= i < j < less.len() implies (#[trigger] less[i]).0 != (
        #[trigger] less[j]).0 by {
            assert(less[i] == s[i] && less[j] == s[j]);
        }
        kept_distinct(less, p);
        kept_where_holds(less, p);
        let t = kept_where(less, p);
        let all = kept_where(s, p);
        assert forall|i: int, j: int| 0 <= i < j < all.len() implies (#[trigger] all[i]).0 != (
        #[trigger] all[j]).0 by {
            if j < t.len() {
                assert(all[i] == t[i] && all[j] == t[j]);
            } else {
                assert(all[i] == t[i]);
                assert(less.contains(t[i]));
                let k = choose|k: int| 0 <= k < less.len() && less[k] == t[i];
                assert(s[k] == t[i]);
                assert(s[k].0 != s[s.len() - 1].0);
            }
        }
    }
}

proof fn with_session_distinct(
    s: Seq<(Seq<char>, SessionView)>,
    token: Seq<char>,
    session: SessionView,
)
    requires
        distinct_tokens(s),
    ensures
        distinct_tokens(with_session(s, token, session)),
        with_session(s, token, session).len() <= s.len() + 1,
        has_session(with_session(s, token, session), token),
        with_session(s, token, session)[index_where(
            with_session(s, token, session),
            of_token(token),
        )] == (token, session),
{
    let t = with_session(s, token, session);
    index_where_bounds(s, of_token(token));
    let at = index_where(s, of_token(token));
    assert(t[at] == (token, session));
    assert forall|j: int| 0 <= j < at implies !of_token(token)(#[trigger] t[j]) by {
        assert(!of_token(token)(s[j]));
    }
    assert(of_token(token)(t[at]));
    index_where_is(t, of_token(token), at);
    assert forall|i: int, j: int| 0 <= i < j < t.len() implies (#[trigger] t[i]).0 != (
    #[trigger] t[j]).0 by {
        if i == at {
            if j < s.len() {
                assert(of_token(token)(s[i]));
                assert(s[i].0 != s[j].0);
            }
        } else if j == at {
            assert(!of_token(token)(s[i]));
        } else {
            assert(s[i].0 != s[j].0);
        }
    }
}

/// The number of sessions never passes its bound, and the new one is there.
pub proof fn new_sessions_are_bounded(
    s: Seq<(Seq<char>, SessionView)>,
    token: Seq<char>,
    session: SessionView,
    now: u64,
    current: Option<Seq<char>>,
)
    requires
        distinct_tokens(s),
    ensures
        with_new_session(s, token, session, now, current).len() <= MAX_SESSIONS,
        distinct_tokens(with_new_session(s, token, session, now, current)),
        has_session(with_new_session(s, token, session, now, current), token),
{
    let kept = kept_where(s, valid_entry(now, current));
    kept_distinct(s, valid_entry(now, current));
    with_room_bounded(kept);
    with_session_distinct(with_room(kept), token, session);
}

fn find_token(entries: &Vec<(String, Session)>, token: &str) -> (r: usize)
    ensures
        r == index_where(session_views(entries@), of_token(token@)),
        r <= entries@.len(),
{
    let ghost all = session_views(entries@);
    let mut i: usize = 0;
    while i < entries.len()
        invariant
            i <= entries@.len(),
            all == session_views(entries@),
            forall|j: int| 0 <= j < i ==> !of_token(token@)(#[trigger] all[j]),
        decreases entries@.len() - i,
    {
        if str_eq(&entries[i].0, token) {
            proof {
                assert(of_token(token@)(all[i as int]));
                index_where_is(all, of_token(token@), i as int);
            }
            return i;
        }
        i = i + 1;
    }
    proof {
        index_where_is(all, of_token(token@), i as int);
    }
    i
}

fn find_least_recent(entries: &Vec<(String, Session)>) -> (r: usize)
    requires
        entries@.len() > 0,
    ensures
        r == least_recent(session_views(entries@)),
        r < entries@.len(),
{
    let ghost all = session_views(entries@);
    let mut best: usize = 0;
    let mut i: usize = 1;
    while i < entries.len()
        invariant
            1 <= i <= entries@.len(),
            all == session_views(entries@),
            best < i,
            best == least_recent(all.take(i as int)),
        decreases entries@.len() - i,
    {
        assert(all.take(i + 1).drop_last() =~= all.take(i as int));
        assert(all.take(i + 1).last() == all[i as int]);
        assert(all.take(i + 1)[best as int] == all[best as int]);
        if entries[i].1.last_seen < entries[best].1.last_seen {
            best = i;
        }
        i = i + 1;
    }
    assert(all.take(i as int) =~= all);
    best
}

fn sweep(entries: Vec<(String, Session)>, now: u64, current: &Option<String>) -> (r: Vec<
    (String, Session),
>)
    ensures
        session_views(r@) == kept_where(
            session_views(entries@),
            valid_entry(now, opt_view(*current)),
        ),
{
    let ghost all = session_views(entries@);
    let ghost p = valid_entry(now, opt_view(*current));
    let ghost raw = entries@;
    let mut out: Vec<(String, Session)> = Vec::new();
    assert(session_views(out@) =~= Seq::empty());
    assert(all.take(0) =~= Seq::empty());
    for entry in it: entries
        invariant
            it.seq() == raw,
            all == session_views(raw),
            p == valid_entry(now, opt_view(*current)),
            session_views(out@) == kept_where(all.take(it.index()), p),
    {
        let ghost i = it.index();
        assert(entry == raw[i]);
        assert(all.take(i + 1).drop_last() =~= all.take(i));
        assert(all.take(i + 1).last() == (entry.0@, entry.1@));
        let ghost before = session_views(out@);
        let valid = entry.1.is_valid(now, current);
        assert(p((entry.0@, entry.1@)) == valid);
        if valid {
            out.push(entry);
            assert(session_views(out@) =~= before.push((entry.0@, entry.1@)));
        }
    }
    assert(all.take(all.len() as int) =~= all);
    out
}

impl Sessions {
    /// Whether no token occurs twice, and the bound is kept.
    #[verifier::type_invariant]
    spec fn well_formed(&self) -> bool {
        &&& distinct_tokens(session_views(self.entries@))
        &&& self.entries@.len() <= MAX_SESSIONS
    }

    /// No sessions.
    pub fn new() -> (r: Sessions)
        ensures
            r@ == Seq::<(Seq<char>, SessionView)>::empty(),
    {
        let entries: Vec<(String, Session)> = Vec::new();
        assert(session_views(entries@) =~= Seq::empty());
        Sessions { entries }
    }

    /// How many sessions there are.
    pub fn len(&self) -> (r: usize)
        ensures
            r == self@.len(),
            r <= MAX_SESSIONS,
    {
        proof {
            use_type_invariant(self);
        }
        self.entries.len()
    }

    /// Whether a token has a session.
    pub fn contains(&self, token: &str) -> (r: bool)
        ensures
            r == has_session(self@, token@),
    {
        assert(session_views(self.entries@).len() == self.entries@.len());
        find_token(&self.entries, token) < self.entries.len()
    }

    /// Sweeps the sessions that are not valid.
    pub fn retain_valid(&mut self, now: u64, current: &Option<String>)
        ensures
            final(self)@ == kept_where(old(self)@, valid_entry(now, opt_view(*current))),
            distinct_tokens(final(self)@),
    {
        proof {
            use_type_invariant(&*self);
        }
        let mut entries: Vec<(String, Session)> = Vec::new();
        assert(session_views(entries@) =~= Seq::empty());
        std::mem::swap(&mut self.entries, &mut entries);
        proof {
            kept_distinct(session_views(entries@), valid_entry(now, opt_view(*current)));
            assert(session_views(entries@).len() == entries@.len());
        }
        let kept = sweep(entries, now, current);
        assert(session_views(kept@).len() == kept@.len());
        *self = Sessions { entries: kept };
    }

    /// Adds a session: those that are not valid are swept first, then the least recent
    /// make room.
    pub fn insert_session_bounded(
        &mut self,
        token: String,
        session: Session,
        now: u64,
        current_password_hash: &Option<String>,
    )
        ensures
            final(self)@ == with_new_session(
                old(self)@,
                token@,
                session@,
                now,
                opt_view(*current_password_hash),
            ),
            final(self)@.len() <= MAX_SESSIONS,
            distinct_tokens(final(self)@),
            has_session(final(self)@, token@),
    {
        proof {
            use_type_invariant(&*self);
        }
        let mut entries: Vec<(String, Session)> = Vec::new();
        assert(session_views(entries@) =~= Seq::empty());
        std::mem::swap(&mut self.entries, &mut entries);
        let ghost start = session_views(entries@);
        proof {
            new_sessions_are_bounded(
                start,
                token@,
                session@,
                now,
                opt_view(*current_password_hash),
            );
        }
        let mut entries = sweep(entries, now, current_password_hash);
        let ghost kept = session_views(entries@);
        while entries.len() >= MAX_SESSIONS
            invariant
                with_room(session_views(entries@)) == with_room(kept),
            decreases entries@.len(),
        {
            let ghost before = session_views(entries@);
            assert(before.len() == entries@.len());
            let at = find_least_recent(&entries);
            let _gone = entries.remove(at);
            assert(session_views(entries@) =~= before.remove(at as int));
        }
        let ghost room = session_views(entries@);
        assert(room.len() == entries@.len());
        assert(room == with_room(kept));
        let at = find_token(&entries, &token);
        if at < entries.len() {
            entries.set(at, (token, session));
            assert(session_views(entries@) =~= room.update(at as int, (token@, session@)));
        } else {
            entries.push((token, session));
            assert(session_views(entries@) =~= room.push((token@, session@)));
        }
        assert(session_views(entries@).len() == entries@.len());
        *self = Sessions { entries };
    }

    /// Marks the session of a token as seen, and says whether there is one.
    pub fn touch(&mut self, token: &str, now: u64) -> (r: bool)
        ensures
            r == has_session(old(self)@, token@),
            final(self)@ == touched(old(self)@, token@, now),
    {
        proof {
            use_type_invariant(&*self);
        }
        let mut entries: Vec<(String, Session)> = Vec::new();
        assert(session_views(entries@) =~= Seq::empty());
        std::mem::swap(&mut self.entries, &mut entries);
        let ghost all = session_views(entries@);
        assert(all.len() == entries@.len());
        let i = find_token(&entries, token);
        let found = i < entries.len();
        if found {
            proof {
                index_where_bounds(all, of_token(token@));
                assert(of_token(token@)(all[i as int]));
            }
            let seen = Session {
                created: entries[i].1.created,
                last_seen: now,
                password_hash: entries[i].1.password_hash.clone(),
            };
            let key = entries[i].0.clone();
            entries.set(i, (key, seen));
            assert(session_views(entries@) =~= all.update(i as int, (token@, seen@)));
            assert(session_views(entries@).len() == entries@.len());
        }
        *self = Sessions { entries };
        found
    }

    /// Ends the session of a token.
    pub fn remove(&mut self, token: &str)
        ensures
            final(self)@ == ended(old(self)@, token@),
            !has_session(final(self)@, token@),
    {
        proof {
            use_type_invariant(&*self);
        }
        let mut entries: Vec<(String, Session)> = Vec::new();
        assert(session_views(entries@) =~= Seq::empty());
        std::mem::swap(&mut self.entries, &mut entries);
        let ghost all = session_views(entries@);
        assert(all.len() == entries@.len());
        let i = find_token(&entries, token);
        proof {
            index_where_bounds(all, of_token(token@));
        }
        if i < entries.len() {
            let _gone = entries.remove(i);
            let ghost less = session_views(entries@);
            assert(less =~= all.remove(i as int));
            proof {
                remove_distinct(all, i as int);
                assert(of_token(token@)(all[i as int]));
                assert forall|j: int| 0 <= j < less.len() implies !of_token(token@)(
                    #[trigger] less[j],
                ) by {
                    let k = if j < i {
                        j
                    } else {
                        j + 1
                    };
                    assert(less[j] == all[k]);
                    if k < i {
                        assert(all[k].0 != all[i as int].0);
                    } else {
                        assert(all[i as int].0 != all[k].0);
                    }
                }
                index_where_is(less, of_token(token@), less.len() as int);
            }
            assert(less.len() == entries@.len());
        }
        *self = Sessions { entries };
    }

    /// Ends every session but that of one token; without one, every session.
    pub fn keep_only(&mut self, token: &Option<String>)
        ensures
            match *token {
                Some(t) => final(self)@ == kept_where(old(self)@, of_token(t@)),
                None => final(self)@.len() == 0,
            },
    {
        proof {
            use_type_invariant(&*self);
        }
        let mut entries: Vec<(String, Session)> = Vec::new();
        assert(session_views(entries@) =~= Seq::empty());
        std::mem::swap(&mut self.entries, &mut entries);
        let mut kept: Vec<(String, Session)> = Vec::new();
        assert(session_views(kept@) =~= Seq::empty());
        if let Some(t) = token {
            let ghost all = session_views(entries@);
            let ghost raw = entries@;
            let ghost p = of_token(t@);
            assert(all.take(0) =~= Seq::empty());
            proof {
                kept_distinct(all, p);
                assert(all.len() == raw.len());
            }
            for entry in it: entries
                invariant
                    it.seq() == raw,
                    all == session_views(raw),
                    p == of_token(t@),
                    session_views(kept@) == kept_where(all.take(it.index()), p),
            {
                let ghost i = it.index();
                assert(entry == raw[i]);
                assert(all.take(i + 1).drop_last() =~= all.take(i));
                assert(all.take(i + 1).last() == (entry.0@, entry.1@));
                let ghost before = session_views(kept@);
                let same = str_eq(&entry.0, t);
                assert(p((entry.0@, entry.1@)) == same);
                if same {
                    kept.push(entry);
                    assert(session_views(kept@) =~= before.push((entry.0@, entry.1@)));
                }
            }
            assert(all.take(all.len() as int) =~= all);
            assert(session_views(kept@).len() == kept@.len());
        }
        *self = Sessions { entries: kept };
    }
}

/// Ending every other session leaves none but that of the token.
pub proof fn only_the_fresh_session_stays(s: Seq<(Seq<char>, SessionView)>, token: Seq<char>)
    ensures
        forall|i: int|
            0 <= i < kept_where(s, of_token(token)).len() ==> (#[trigger] kept_where(
                s,
                of_token(token),
            )[i]).0 == token,
{
    kept_where_holds(s, of_token(token));
    assert forall|i: int| 0 <= i < kept_where(s, of_token(token)).len() implies (
    #[trigger] kept_where(s, of_token(token))[i]).0 == token by {
        assert(of_token(token)(kept_where(s, of_token(token))[i]));
    }
}

/// A session is valid for twelve hours after it was opened, and for one hour after it was last
/// used, under the password that it was opened under.
pub proof fn sessions_last_for_hours(s: SessionView, now: u64, current: Option<Seq<char>>)
    ensures
        s.valid(now, current) <==> now <= s.created + 12 * 3600 * 1_000_000_000 && now <= s.last_seen
            + 3600 * 1_000_000_000 && s.password_hash == current,
{
}

/// Where there is no more room, the session that was used longest ago goes.
pub proof fn the_least_recent_session_goes(s: Seq<(Seq<char>, SessionView)>, j: int)
    requires
        0 <= j < s.len(),
    ensures
        0 <= least_recent(s) < s.len(),
        s[least_recent(s)].1.last_seen <= s[j].1.last_seen,
    decreases s.len(),
{
    if s.len() > 1 {
        let less = s.drop_last();
        if j < less.len() {
            the_least_recent_session_goes(less, j);
            assert(less[j] == s[j]);
        } else {
            the_least_recent_session_goes(less, 0);
        }
        assert(less[least_recent(less)] == s[least_recent(less)]);
        assert(s[s.len() - 1] == s.last());
    }
}

/// A session that was opened is there as it was opened. As long as there is room, every other
/// session that is valid stays as it is, and one that is not valid goes.
pub proof fn opened_sessions_are_there(
    s: Seq<(Seq<char>, SessionView)>,
    token: Seq<char>,
    session: SessionView,
    now: u64,
    current: Option<Seq<char>>,
    other: Seq<char>,
)
    ensures
        found(with_new_session(s, token, session, now, current), of_token(token)) == Some(
            (token, session),
        ),
        other != token && s.len() < 1024 ==> found(
            with_new_session(s, token, session, now, current),
            of_token(other),
        ) == found(kept_where(s, valid_entry(now, current)), of_token(other)),
{
    let kept = kept_where(s, valid_entry(now, current));
    kept_where_holds(s, valid_entry(now, current));
    let room = with_room(kept);
    index_where_bounds(room, of_token(token));
    let i = index_where(room, of_token(token));
    if i < room.len() {
        assert(of_token(token)(room[i]));
        found_after_update(room, i, (token, session), of_token(token));
        if other != token {
            found_after_update(room, i, (token, session), of_token(other));
            index_where_bounds(room, of_token(other));
        }
    } else {
        found_after_push(room, (token, session), of_token(token));
        found_after_push(room, (token, session), of_token(other));
    }
}

/// Using a session makes it last longer and changes nothing else of it, nor any other.
pub proof fn used_sessions_last_longer(
    s: Seq<(Seq<char>, SessionView)>,
    token: Seq<char>,
    now: u64,
    other: Seq<char>,
)
    ensures
        !has_session(s, token) ==> touched(s, token, now) == s,
        has_session(s, token) ==> ({
            let (_, was) = found(s, of_token(token))->0;
            let (_, used) = found(touched(s, token, now), of_token(token))->0;
            &&& found(touched(s, token, now), of_token(token)) is Some
            &&& used.last_seen == now
            &&& used.created == was.created
            &&& used.password_hash == was.password_hash
        }),
        other != token ==> found(touched(s, token, now), of_token(other)) == found(
            s,
            of_token(other),
        ),
{
    index_where_bounds(s, of_token(token));
    let i = index_where(s, of_token(token));
    if i < s.len() {
        assert(of_token(token)(s[i]));
        let e = (token, SessionView { last_seen: now, ..s[i].1 });
        found_after_update(s, i, e, of_token(token));
        if other != token {
            found_after_update(s, i, e, of_token(other));
            index_where_bounds(s, of_token(other));
        }
    }
}

/// A session that is ended is gone, and no other is touched.
pub proof fn ended_sessions_are_gone(
    s: Seq<(Seq<char>, SessionView)>,
    token: Seq<char>,
    other: Seq<char>,
)
    requires
        distinct_tokens(s),
    ensures
        !has_session(ended(s, token), token),
        other != token ==> found(ended(s, token), of_token(other)) == found(s, of_token(other)),
{
    index_where_bounds(s, of_token(token));
    let i = index_where(s, of_token(token));
    if i < s.len() {
        assert(of_token(token)(s[i]));
        if other != token {
            found_after_remove(s, i, of_token(other));
        }
        let t = s.remove(i);
        index_where_bounds(t, of_token(token));
        let k = index_where(t, of_token(token));
        if k < t.len() {
            assert(of_token(token)(t[k]));
            if k < i {
                assert(t[k] == s[k]);
            } else {
                assert(t[k] == s[k + 1]);
            }
        }
    }
}

} // verus!
