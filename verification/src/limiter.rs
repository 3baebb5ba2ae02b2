//! The limit on failed logins.

use crate::search::{
    found, found_after_push, found_after_remove, found_after_update, index_where,
    index_where_bounds, index_where_is,
};
use crate::service::IpAddress;
use vstd::prelude::*;

verus! {

/// How long a failed login counts, in nanoseconds.
pub const LOGIN_WINDOW: u64 = 60_000_000_000;

/// How many failed logins an address may have.
pub const LOGIN_MAX_ATTEMPTS_PER_IP: usize = 5;

/// How many failed logins all addresses may have together.
pub const LOGIN_MAX_ATTEMPTS_GLOBAL: usize = 30;

/// How many addresses are tracked.
pub const LOGIN_MAX_TRACKED_IPS: usize = 4096;

/// The time from one moment to a later one; nothing where it is not later.
pub open spec fn since(earlier: u64, now: u64) -> u64 {
    if now >= earlier {
        (now - earlier) as u64
    } else {
        0
    }
}

/// The time from one moment to a later one.
pub fn elapsed(earlier: u64, now: u64) -> (r: u64)
    ensures
        r == since(earlier, now),
{
    if now >= earlier {
        now - earlier
    } else {
        0
    }
}

/// The failed logins that still count.
pub open spec fn pruned(window: Seq<u64>, now: u64) -> Seq<u64>
    decreases window.len(),
{
    if window.len() > 0 && since(window[0], now) > LOGIN_WINDOW {
        pruned(window.drop_first(), now)
    } else {
        window
    }
}

/// The failed logins that still count.
fn prune(window: Vec<u64>, now: u64) -> (r: Vec<u64>)
    ensures
        r@ == pruned(window@, now),
{
    let mut window = window;
    let ghost start = window@;
    while window.len() > 0 && elapsed(window[0], now) > LOGIN_WINDOW
        invariant
            pruned(start, now) == pruned(window@, now),
        decreases window@.len(),
    {
        let ghost before = window@;
        let _old = window.remove(0);
        assert(window@ =~= before.drop_first());
    }
    window
}

/// The failed logins of an address.
pub struct IpWindow {
    pub ip: IpAddress,
    pub stamps: Vec<u64>,
}

/// The failed logins of all addresses.
pub struct LoginRateLimiter {
    per_ip: Vec<IpWindow>,
    global: Vec<u64>,
}

/// The model of the failed logins.
pub ghost struct LimiterView {
    pub per_ip: Seq<(IpAddress, Seq<u64>)>,
    pub global: Seq<u64>,
}

/// The views of tracked addresses.
pub open spec fn window_views(s: Seq<IpWindow>) -> Seq<(IpAddress, Seq<u64>)> {
    s.map_values(|w: IpWindow| (w.ip, w.stamps@))
}

impl View for LoginRateLimiter {
    type V = LimiterView;

    closed spec fn view(&self) -> LimiterView {
        LimiterView { per_ip: window_views(self.per_ip@), global: self.global@ }
    }
}

/// Entries of an address.
pub open spec fn of_ip(ip: IpAddress) -> spec_fn((IpAddress, Seq<u64>)) -> bool {
    |e: (IpAddress, Seq<u64>)| e.0 == ip
}

/// Whether no address is tracked twice.
pub open spec fn distinct_ips(s: Seq<(IpAddress, Seq<u64>)>) -> bool {
    forall|i: int, j: int|
        0 <= i < j < s.len() ==> (#[trigger] s[i]).0 != (#[trigger] s[j]).0
}

impl LimiterView {
    /// How long an address is refused, and the failed logins after the look.
    pub open spec fn checked(self, ip: IpAddress, now: u64) -> (Option<u64>, LimiterView) {
        let global = pruned(self.global, now);
        let i = index_where(self.per_ip, of_ip(ip));
        if global.len() >= LOGIN_MAX_ATTEMPTS_GLOBAL {
            (Some(LOGIN_WINDOW), LimiterView { global, ..self })
        } else if i < self.per_ip.len() {
            let window = pruned(self.per_ip[i].1, now);
            (
                if window.len() >= LOGIN_MAX_ATTEMPTS_PER_IP {
                    let used = since(window[0], now);
                    Some(
                        if used >= LOGIN_WINDOW {
                            0
                        } else {
                            (LOGIN_WINDOW - used) as u64
                        },
                    )
                } else {
                    None
                },
                LimiterView { per_ip: self.per_ip.update(i, (ip, window)), global },
            )
        } else {
            (None, LimiterView { global, ..self })
        }
    }

    /// The failed logins after one more.
    pub open spec fn failed(self, ip: IpAddress, now: u64) -> LimiterView {
        let i = index_where(self.per_ip, of_ip(ip));
        let counted = if i < self.per_ip.len() {
            self.per_ip.update(i, (ip, pruned(self.per_ip[i].1, now).push(now)))
        } else {
            self.per_ip.push((ip, seq![now]))
        };
        LimiterView {
            per_ip: if counted.len() >= LOGIN_MAX_TRACKED_IPS {
                evicted(swept(counted, now))
            } else {
                counted
            },
            global: pruned(self.global, now).push(now),
        }
    }

    /// The failed logins after a successful one.
    pub open spec fn succeeded(self, ip: IpAddress) -> LimiterView {
        let i = index_where(self.per_ip, of_ip(ip));
        if i < self.per_ip.len() {
            LimiterView { per_ip: self.per_ip.remove(i), ..self }
        } else {
            self
        }
    }
}

/// The tracked addresses whose failed logins still count.
pub open spec fn swept(s: Seq<(IpAddress, Seq<u64>)>, now: u64) -> Seq<(IpAddress, Seq<u64>)>
    decreases s.len(),
{
    if s.len() == 0 {
        Seq::empty()
    } else {
        let window = pruned(s.last().1, now);
        if window.len() > 0 {
            swept(s.drop_last(), now).push((s.last().0, window))
        } else {
            swept(s.drop_last(), now)
        }
    }
}

/// Whether one window began before another; one without failed logins before all.
pub open spec fn began_before(a: Seq<u64>, b: Seq<u64>) -> bool {
    if b.len() == 0 {
        false
    } else if a.len() == 0 {
        true
    } else {
        a[0] < b[0]
    }
}

/// The index of the address whose window began first.
pub open spec fn oldest(s: Seq<(IpAddress, Seq<u64>)>) -> int
    decreases s.len(),
{
    if s.len() <= 1 {
        0
    } else {
        let before = oldest(s.drop_last());
        if began_before(s.last().1, s[before].1) {
            s.len() - 1
        } else {
            before
        }
    }
}

/// The tracked addresses without the oldest, while there are too many.
pub open spec fn evicted(s: Seq<(IpAddress, Seq<u64>)>) -> Seq<(IpAddress, Seq<u64>)>
    decreases s.len(),
{
    if s.len() > LOGIN_MAX_TRACKED_IPS && 0 <= oldest(s) < s.len() {
        evicted(s.remove(oldest(s)))
    } else {
        s
    }
}

proof fn oldest_bounds(s: Seq<(IpAddress, Seq<u64>)>)
    requires
        s.len() > 0,
    ensures
        0 <= oldest(s) < s.len(),
    decreases s.len(),
{
    if s.len() > 1 {
        oldest_bounds(s.drop_last());
    }
}

proof fn evicted_bounded(s: Seq<(IpAddress, Seq<u64>)>)
    requires
        distinct_ips(s),
    ensures
        evicted(s).len() <= LOGIN_MAX_TRACKED_IPS,
        distinct_ips(evicted(s)),
    decreases s.len(),
{
    if s.len() > LOGIN_MAX_TRACKED_IPS {
        oldest_bounds(s);
        let less = s.remove(oldest(s));
        assert forall|i: int, j: int| 0 <= i < j < less.len() implies (#[trigger] less[i]).0 != (
        #[trigger] less[j]).0 by {
            let o = oldest(s);
            let x = if i < o {
                i
            } else {
                i + 1
            };
            let y = if j < o {
                j
            } else {
                j + 1
            };
            assert(less[i] == s[x] && less[j] == s[y]);
        }
        evicted_bounded(less);
    }
}

proof fn swept_distinct(s: Seq<(IpAddress, Seq<u64>)>, now: u64)
    requires
        distinct_ips(s),
    ensures
        distinct_ips(swept(s, now)),
        swept(s, now).len() <= s.len(),
        forall|i: int|
            0 <= i < swept(s, now).len() ==> exists|k: int|
                0 <= k < s.len() && (#[trigger] s[k]).0 == (#[trigger] swept(s, now)[i]).0,
    decreases s.len(),
{
    if s.len() > 0 {
        let less = s.drop_last();
        assert forall|i: int, j: int| 0 <= i < j < less.len() implies (#[trigger] less[i]).0 != (
        #[trigger] less[j]).0 by {
            assert(less[i] == s[i] && less[j] == s[j]);
        }
        swept_distinct(less, now);
        let t = swept(less, now);
        let all = swept(s, now);
        assert forall|i: int| 0 <= i < all.len() implies exists|k: int|
            0 <= k < s.len() && (#[trigger] s[k]).0 == (#[trigger] all[i]).0 by {
            if i < t.len() {
                assert(all[i] == t[i]);
                let k = choose|k: int| 0 <= k < less.len() && (#[trigger] less[k]).0 == t[i].0;
                assert(s[k].0 == all[i].0);
            } else {
                assert(s[s.len() - 1].0 == all[i].0);
            }
        }
        assert forall|i: int, j: int| 0 <= i < j < all.len() implies (#[trigger] all[i]).0 != (
        #[trigger] all[j]).0 by {
            if j < t.len() {
                assert(all[i] == t[i] && all[j] == t[j]);
            } else {
                assert(all[i] == t[i]);
                let k = choose|k: int| 0 <= k < less.len() && (#[trigger] less[k]).0 == t[i].0;
                assert(less[k] == s[k]);
                assert(s[k].0 != s[s.len() - 1].0);
            }
        }
    }
}

fn find_ip(list: &Vec<IpWindow>, ip: IpAddress) -> (r: usize)
    ensures
        r == index_where(window_views(list@), of_ip(ip)),
        r <= list@.len(),
{
    let ghost all = window_views(list@);
    let mut i: usize = 0;
    while i < list.len()
        invariant
            i <= list@.len(),
            all == window_views(list@),
            forall|j: int| 0 <= j < i ==> !of_ip(ip)(#[trigger] all[j]),
        decreases list@.len() - i,
    {
        if list[i].ip == ip {
            proof {
                assert(of_ip(ip)(all[i as int]));
                index_where_is(all, of_ip(ip), i as int);
            }
            return i;
        }
        i = i + 1;
    }
    proof {
        index_where_is(all, of_ip(ip), i as int);
    }
    i
}

fn copy_stamps(s: &Vec<u64>) -> (r: Vec<u64>)
    ensures
        r@ == s@,
{
    let r = s.clone();
    assert(r@ =~= s@);
    r
}

fn sweep(list: &Vec<IpWindow>, now: u64) -> (r: Vec<IpWindow>)
    ensures
        window_views(r@) == swept(window_views(list@), now),
{
    let ghost all = window_views(list@);
    let mut out: Vec<IpWindow> = Vec::new();
    let mut i: usize = 0;
    assert(window_views(out@) =~= Seq::empty());
    while i < list.len()
        invariant
            i <= list@.len(),
            all == window_views(list@),
            window_views(out@) == swept(all.take(i as int), now),
        decreases list@.len() - i,
    {
        assert(all.take(i + 1).drop_last() =~= all.take(i as int));
        assert(all.take(i + 1).last() == all[i as int]);
        let stamps = prune(copy_stamps(&list[i].stamps), now);
        let ghost before = window_views(out@);
        if stamps.len() > 0 {
            let kept = IpWindow { ip: list[i].ip, stamps };
            out.push(kept);
            assert(window_views(out@) =~= before.push((kept.ip, kept.stamps@)));
        }
        i = i + 1;
    }
    assert(all.take(i as int) =~= all);
    out
}

fn starts_before(a: &Vec<u64>, b: &Vec<u64>) -> (r: bool)
    ensures
        r == began_before(a@, b@),
{
    if b.len() == 0 {
        false
    } else if a.len() == 0 {
        true
    } else {
        a[0] < b[0]
    }
}

fn find_oldest(list: &Vec<IpWindow>) -> (r: usize)
    requires
        list@.len() > 0,
    ensures
        r == oldest(window_views(list@)),
        r < list@.len(),
{
    let ghost all = window_views(list@);
    let mut best: usize = 0;
    let mut i: usize = 1;
    assert(all.take(1).len() == 1);
    while i < list.len()
        invariant
            1 <= i <= list@.len(),
            all == window_views(list@),
            best < i,
            best == oldest(all.take(i as int)),
        decreases list@.len() - i,
    {
        assert(all.take(i + 1).drop_last() =~= all.take(i as int));
        assert(all.take(i + 1).last() == all[i as int]);
        assert(all.take(i + 1)[best as int] == all[best as int]);
        if starts_before(&list[i].stamps, &list[best].stamps) {
            best = i;
        }
        i = i + 1;
    }
    assert(all.take(i as int) =~= all);
    best
}

impl LoginRateLimiter {
    /// Whether no address is tracked twice, nor too many.
    #[verifier::type_invariant]
    spec fn well_formed(&self) -> bool {
        &&& distinct_ips(window_views(self.per_ip@))
        &&& self.per_ip@.len() <= LOGIN_MAX_TRACKED_IPS
    }

    /// No failed logins.
    pub fn new() -> (r: LoginRateLimiter)
        ensures
            r@ == (LimiterView { per_ip: Seq::empty(), global: Seq::empty() }),
    {
        let per_ip: Vec<IpWindow> = Vec::new();
        assert(window_views(per_ip@) =~= Seq::empty());
        LoginRateLimiter { per_ip, global: Vec::new() }
    }

    /// How many addresses failed logins are counted for.
    pub fn addresses(&self) -> (r: usize)
        ensures
            r == self@.per_ip.len(),
            r <= LOGIN_MAX_TRACKED_IPS,
    {
        proof {
            use_type_invariant(self);
        }
        self.per_ip.len()
    }

    /// How long an address is refused, if it is.
    pub fn check(&mut self, ip: IpAddress, now: u64) -> (r: Option<u64>)
        ensures
            (r, final(self)@) == old(self)@.checked(ip, now),
            distinct_ips(final(self)@.per_ip),
            final(self)@.per_ip.len() <= LOGIN_MAX_TRACKED_IPS,
    {
        proof {
            use_type_invariant(&*self);
        }
        let mut per_ip: Vec<IpWindow> = Vec::new();
        let mut global: Vec<u64> = Vec::new();
        assert(window_views(per_ip@) =~= Seq::empty());
        std::mem::swap(&mut self.per_ip, &mut per_ip);
        std::mem::swap(&mut self.global, &mut global);
        let ghost all = window_views(per_ip@);
        assert(all.len() == per_ip@.len());
        let global = prune(global, now);
        if global.len() >= LOGIN_MAX_ATTEMPTS_GLOBAL {
            *self = LoginRateLimiter { per_ip, global };
            return Some(LOGIN_WINDOW);
        }
        let i = find_ip(&per_ip, ip);
        let mut refused: Option<u64> = None;
        if i < per_ip.len() {
            proof {
                index_where_bounds(all, of_ip(ip));
            }
            let stamps = prune(copy_stamps(&per_ip[i].stamps), now);
            if stamps.len() >= LOGIN_MAX_ATTEMPTS_PER_IP {
                let used: u64 = elapsed(stamps[0], now);
                refused = Some(
                    if used >= LOGIN_WINDOW {
                        0
                    } else {
                        LOGIN_WINDOW - used
                    },
                );
            }
            per_ip.set(i, IpWindow { ip, stamps });
            assert(window_views(per_ip@) =~= all.update(i as int, (ip, stamps@)));
            assert(all[i as int].0 == ip);
            assert(window_views(per_ip@).len() == per_ip@.len());
        }
        *self = LoginRateLimiter { per_ip, global };
        refused
    }

    /// Counts a failed login.
    pub fn record_failure(&mut self, ip: IpAddress, now: u64)
        ensures
            final(self)@ == old(self)@.failed(ip, now),
            distinct_ips(final(self)@.per_ip),
            final(self)@.per_ip.len() <= LOGIN_MAX_TRACKED_IPS,
    {
        proof {
            use_type_invariant(&*self);
        }
        let mut per_ip: Vec<IpWindow> = Vec::new();
        let mut global: Vec<u64> = Vec::new();
        assert(window_views(per_ip@) =~= Seq::empty());
        std::mem::swap(&mut self.per_ip, &mut per_ip);
        std::mem::swap(&mut self.global, &mut global);
        let ghost all = window_views(per_ip@);
        assert(all.len() == per_ip@.len());
        let mut global = prune(global, now);
        global.push(now);
        let i = find_ip(&per_ip, ip);
        proof {
            index_where_bounds(all, of_ip(ip));
        }
        if i < per_ip.len() {
            let mut stamps = prune(copy_stamps(&per_ip[i].stamps), now);
            stamps.push(now);
            per_ip.set(i, IpWindow { ip, stamps });
            assert(window_views(per_ip@) =~= all.update(i as int, (ip, stamps@)));
            assert(all[i as int].0 == ip);
        } else {
            let mut stamps: Vec<u64> = Vec::new();
            stamps.push(now);
            assert(stamps@ =~= seq![now]);
            per_ip.push(IpWindow { ip, stamps });
            assert(window_views(per_ip@) =~= all.push((ip, seq![now])));
            assert forall|j: int| 0 <= j < all.len() implies (#[trigger] all[j]).0 != ip by {
                assert(!of_ip(ip)(all[j]));
            }
        }
        let ghost counted = window_views(per_ip@);
        assert(counted.len() == per_ip@.len());
        assert(distinct_ips(counted));
        if per_ip.len() >= LOGIN_MAX_TRACKED_IPS {
            let mut kept = sweep(&per_ip, now);
            proof {
                swept_distinct(counted, now);
                evicted_bounded(swept(counted, now));
            }
            while kept.len() > LOGIN_MAX_TRACKED_IPS
                invariant
                    evicted(window_views(kept@)) == evicted(swept(counted, now)),
                decreases kept@.len(),
            {
                let ghost before = window_views(kept@);
                assert(before.len() == kept@.len());
                let at = find_oldest(&kept);
                let _gone = kept.remove(at);
                assert(window_views(kept@) =~= before.remove(at as int));
            }
            assert(window_views(kept@).len() == kept@.len());
            per_ip = kept;
        }
        *self = LoginRateLimiter { per_ip, global };
    }

    /// Forgets the failed logins of an address that has logged in.
    pub fn record_success(&mut self, ip: IpAddress)
        ensures
            final(self)@ == old(self)@.succeeded(ip),
            distinct_ips(old(self)@.per_ip),
            distinct_ips(final(self)@.per_ip),
            final(self)@.per_ip.len() <= LOGIN_MAX_TRACKED_IPS,
    {
        proof {
            use_type_invariant(&*self);
        }
        let mut per_ip: Vec<IpWindow> = Vec::new();
        let mut global: Vec<u64> = Vec::new();
        assert(window_views(per_ip@) =~= Seq::empty());
        std::mem::swap(&mut self.per_ip, &mut per_ip);
        std::mem::swap(&mut self.global, &mut global);
        let ghost all = window_views(per_ip@);
        assert(all.len() == per_ip@.len());
        let i = find_ip(&per_ip, ip);
        if i < per_ip.len() {
            let _gone = per_ip.remove(i);
            let ghost less = window_views(per_ip@);
            assert(less =~= all.remove(i as int));
            assert forall|a: int, b: int| 0 <= a < b < less.len() implies (#[trigger] less[a]).0
                != (#[trigger] less[b]).0 by {
                let x = if a < i {
                    a
                } else {
                    a + 1
                };
                let y = if b < i {
                    b
                } else {
                    b + 1
                };
                assert(less[a] == all[x] && less[b] == all[y]);
            }
            assert(less.len() == per_ip@.len());
        }
        *self = LoginRateLimiter { per_ip, global };
    }
}

/// Whether moments are listed in their order.
pub open spec fn in_order(s: Seq<u64>) -> bool {
    forall|i: int, j: int| 0 <= i <= j < s.len() ==> #[trigger] s[i] <= #[trigger] s[j]
}

proof fn pruned_keeps_recent(window: Seq<u64>, now: u64, k: int)
    requires
        in_order(window),
        0 <= k < window.len(),
        since(window[k], now) <= LOGIN_WINDOW,
    ensures
        pruned(window, now).len() >= window.len() - k,
    decreases window.len(),
{
    if since(window[0], now) > LOGIN_WINDOW {
        let rest = window.drop_first();
        assert forall|i: int, j: int| 0 <= i <= j < rest.len() implies #[trigger] rest[i]
            <= #[trigger] rest[j] by {
            assert(window[i + 1] <= window[j + 1]);
        }
        assert(k > 0);
        assert(rest[k - 1] == window[k]);
        pruned_keeps_recent(rest, now, k - 1);
    }
}

/// An address with as many failed logins within the window as it may have is refused.
pub proof fn too_many_failures_are_refused(l: LimiterView, ip: IpAddress, now: u64)
    requires
        index_where(l.per_ip, of_ip(ip)) < l.per_ip.len(),
        ({
            let w = l.per_ip[index_where(l.per_ip, of_ip(ip))].1;
            &&& in_order(w)
            &&& w.len() >= LOGIN_MAX_ATTEMPTS_PER_IP
            &&& since(w[w.len() - LOGIN_MAX_ATTEMPTS_PER_IP], now) <= LOGIN_WINDOW
        }),
    ensures
        l.checked(ip, now).0 is Some,
{
    let w = l.per_ip[index_where(l.per_ip, of_ip(ip))].1;
    pruned_keeps_recent(w, now, w.len() - LOGIN_MAX_ATTEMPTS_PER_IP);
}

/// A successful login clears the address: it is refused only where all addresses are.
pub proof fn success_clears_the_address(l: LimiterView, ip: IpAddress, now: u64)
    requires
        distinct_ips(l.per_ip),
        pruned(l.global, now).len() < LOGIN_MAX_ATTEMPTS_GLOBAL,
    ensures
        l.succeeded(ip).checked(ip, now).0 is None,
{
    let i = index_where(l.per_ip, of_ip(ip));
    index_where_bounds(l.per_ip, of_ip(ip));
    let less = l.succeeded(ip).per_ip;
    assert forall|j: int| 0 <= j < less.len() implies !of_ip(ip)(#[trigger] less[j]) by {
        if i < l.per_ip.len() {
            let k = if j < i {
                j
            } else {
                j + 1
            };
            assert(less[j] == l.per_ip[k]);
            assert(of_ip(ip)(l.per_ip[i]));
            if k < i {
                assert(l.per_ip[k].0 != l.per_ip[i].0);
            } else {
                assert(l.per_ip[i].0 != l.per_ip[k].0);
            }
        } else {
            assert(!of_ip(ip)(l.per_ip[j]));
        }
    }
    index_where_is(less, of_ip(ip), less.len() as int);
}

/// The failed logins of one address do not count for another: an address that has none
/// is refused only where all addresses are.
pub proof fn other_addresses_are_unaffected(l: LimiterView, ip: IpAddress, now: u64)
    requires
        forall|i: int| 0 <= i < l.per_ip.len() ==> (#[trigger] l.per_ip[i]).0 != ip,
        pruned(l.global, now).len() < LOGIN_MAX_ATTEMPTS_GLOBAL,
    ensures
        l.checked(ip, now).0 is None,
{
    index_where_is(l.per_ip, of_ip(ip), l.per_ip.len() as int);
}

/// Once there are as many failed logins within the window as all addresses may have
/// together, every address is refused.
pub proof fn the_global_limit_refuses_everyone(l: LimiterView, ip: IpAddress, now: u64)
    requires
        pruned(l.global, now).len() >= LOGIN_MAX_ATTEMPTS_GLOBAL,
    ensures
        l.checked(ip, now).0 == Some(LOGIN_WINDOW),
{
}

/// What counts of a window: the attempts of the last minute, counted from the first that is
/// not older; what is older goes, and nothing else.
pub proof fn windows_hold_the_last_minute(window: Seq<u64>, now: u64)
    ensures
        exists|k: int|
            {
                &&& 0 <= k <= window.len()
                &&& pruned(window, now) == #[trigger] window.skip(k)
                &&& forall|j: int| 0 <= j < k ==> now - #[trigger] window[j] > 60_000_000_000
                &&& k < window.len() ==> now - window[k] <= 60_000_000_000
            },
    decreases window.len(),
{
    if window.len() > 0 && since(window[0], now) > LOGIN_WINDOW {
        let rest = window.drop_first();
        windows_hold_the_last_minute(rest, now);
        let k = choose|k: int|
            {
                &&& 0 <= k <= rest.len()
                &&& pruned(rest, now) == #[trigger] rest.skip(k)
                &&& forall|j: int| 0 <= j < k ==> now - #[trigger] rest[j] > 60_000_000_000
                &&& k < rest.len() ==> now - rest[k] <= 60_000_000_000
            };
        assert(rest.skip(k) =~= window.skip(k + 1));
        assert forall|j: int| 0 <= j < k + 1 implies now - #[trigger] window[j] > 60_000_000_000 by {
            if j > 0 {
                assert(rest[j - 1] == window[j]);
            }
        }
        if k < rest.len() {
            assert(rest[k] == window[k + 1]);
        }
    } else {
        assert(window.skip(0) =~= window);
    }
}

/// The attempts that are held against an address.
pub open spec fn held_against(l: LimiterView, ip: IpAddress) -> Seq<u64> {
    match found(l.per_ip, of_ip(ip)) {
        Some(e) => e.1,
        None => Seq::empty(),
    }
}

/// A login is refused after thirty attempts of all addresses, or five of its own, in the last
/// minute, and in no other case. Who is refused for their own waits until the first of them
/// is a minute old.
pub proof fn logins_are_refused_by_count(l: LimiterView, ip: IpAddress, now: u64)
    ensures
        ({
            let all = pruned(l.global, now);
            let own = pruned(held_against(l, ip), now);
            let (wait, after) = l.checked(ip, now);
            &&& wait is Some <==> all.len() >= 30 || own.len() >= 5
            &&& all.len() >= 30 ==> wait == Some(60_000_000_000u64)
            &&& all.len() < 30 && own.len() >= 5 ==> wait->0 <= 60_000_000_000 && (now >= own[0]
                && now - own[0] <= 60_000_000_000 ==> wait->0 == 60_000_000_000 - (now - own[0]))
            &&& after.global == all
            &&& all.len() < 30 ==> held_against(after, ip) == own
        }),
{
    index_where_bounds(l.per_ip, of_ip(ip));
    let i = index_where(l.per_ip, of_ip(ip));
    if i < l.per_ip.len() {
        assert(of_ip(ip)(l.per_ip[i]));
        found_after_update(
            l.per_ip,
            i,
            (ip, pruned(l.per_ip[i].1, now)),
            of_ip(ip),
        );
    } else {
        assert(pruned(Seq::<u64>::empty(), now) =~= Seq::<u64>::empty());
    }
}

/// A failed login is held against its address and against all, after the attempts of the last
/// minute; as long as there is room, nothing that is held against another address changes.
pub proof fn failures_are_held_against_the_address(
    l: LimiterView,
    ip: IpAddress,
    now: u64,
    other: IpAddress,
)
    requires
        l.per_ip.len() + 1 < 4096,
    ensures
        held_against(l.failed(ip, now), ip) == pruned(held_against(l, ip), now).push(now),
        other != ip ==> held_against(l.failed(ip, now), other) == held_against(l, other),
        l.failed(ip, now).global == pruned(l.global, now).push(now),
{
    index_where_bounds(l.per_ip, of_ip(ip));
    let i = index_where(l.per_ip, of_ip(ip));
    if i < l.per_ip.len() {
        assert(of_ip(ip)(l.per_ip[i]));
        let e = (ip, pruned(l.per_ip[i].1, now).push(now));
        found_after_update(l.per_ip, i, e, of_ip(ip));
        if other != ip {
            found_after_update(l.per_ip, i, e, of_ip(other));
            index_where_bounds(l.per_ip, of_ip(other));
        }
    } else {
        found_after_push(l.per_ip, (ip, seq![now]), of_ip(ip));
        found_after_push(l.per_ip, (ip, seq![now]), of_ip(other));
        assert(pruned(Seq::<u64>::empty(), now).push(now) =~= seq![now]);
    }
}

/// A login that succeeds clears what was held against its address, and nothing else.
pub proof fn successes_clear_the_address_alone(l: LimiterView, ip: IpAddress, other: IpAddress)
    requires
        distinct_ips(l.per_ip),
    ensures
        held_against(l.succeeded(ip), ip).len() == 0,
        other != ip ==> held_against(l.succeeded(ip), other) == held_against(l, other),
        l.succeeded(ip).global == l.global,
{
    index_where_bounds(l.per_ip, of_ip(ip));
    let i = index_where(l.per_ip, of_ip(ip));
    if i < l.per_ip.len() {
        assert(of_ip(ip)(l.per_ip[i]));
        if other != ip {
            found_after_remove(l.per_ip, i, of_ip(other));
        }
        let t = l.per_ip.remove(i);
        index_where_bounds(t, of_ip(ip));
        let k = index_where(t, of_ip(ip));
        if k < t.len() {
            assert(of_ip(ip)(t[k]));
            if k < i {
                assert(t[k] == l.per_ip[k]);
            } else {
                assert(t[k] == l.per_ip[k + 1]);
            }
        }
    }
}

/// Of the addresses that are tracked, the one whose window began first goes first.
pub proof fn the_oldest_window_goes_first(s: Seq<(IpAddress, Seq<u64>)>, j: int)
    requires
        0 <= j < s.len(),
        forall|i: int| 0 <= i < s.len() ==> (#[trigger] s[i]).1.len() > 0,
    ensures
        0 <= oldest(s) < s.len(),
        s[oldest(s)].1[0] <= s[j].1[0],
    decreases s.len(),
{
    if s.len() > 1 {
        let less = s.drop_last();
        assert forall|i: int| 0 <= i < less.len() implies (#[trigger] less[i]).1.len() > 0 by {
            assert(less[i] == s[i]);
        }
        if j < less.len() {
            the_oldest_window_goes_first(less, j);
            assert(less[j] == s[j]);
        } else {
            the_oldest_window_goes_first(less, 0);
        }
        assert(less[oldest(less)] == s[oldest(less)]);
        assert(s[s.len() - 1] == s.last());
        assert(s.last().1.len() > 0);
    }
}

/// A sweep keeps the addresses with attempts in the last minute, with those attempts, and in
/// their order.
pub proof fn sweeps_keep_recent_windows(
    s: Seq<(IpAddress, Seq<u64>)>,
    e: (IpAddress, Seq<u64>),
    now: u64,
)
    ensures
        swept(Seq::empty(), now) == Seq::<(IpAddress, Seq<u64>)>::empty(),
        swept(s.push(e), now) == (if pruned(e.1, now).len() > 0 {
            swept(s, now).push((e.0, pruned(e.1, now)))
        } else {
            swept(s, now)
        }),
        s.len() <= 4096 ==> evicted(s) == s,
{
    assert(s.push(e).drop_last() =~= s);
}

/// Where too many addresses are tracked, they go one by one from the one whose window began
/// first.
pub proof fn too_many_addresses_go_from_the_oldest(s: Seq<(IpAddress, Seq<u64>)>)
    requires
        s.len() > 4096,
        forall|i: int| 0 <= i < s.len() ==> (#[trigger] s[i]).1.len() > 0,
    ensures
        0 <= oldest(s) < s.len(),
        evicted(s) == evicted(s.remove(oldest(s))),
        forall|j: int| 0 <= j < s.len() ==> s[oldest(s)].1[0] <= (#[trigger] s[j]).1[0],
{
    the_oldest_window_goes_first(s, 0);
    assert forall|j: int| 0 <= j < s.len() implies s[oldest(s)].1[0] <= (#[trigger] s[j]).1[0] by {
        the_oldest_window_goes_first(s, j);
    }
}

} // verus!
