//! The admission limiter: a token bucket per client identity with a
//! configured burst size and refill interval, and a periodic sweep
//! that evicts buckets untouched beyond a retention window.

use vstd::prelude::*;

use vstd::arithmetic::div_mod::{lemma_fundamental_div_mod, lemma_mod_division_less_than_divisor};
use vstd::map::*;

verus! {

/// One client's bucket: its remaining tokens, the instant up to
/// which refills have been credited, and the instant of its last
/// request. All instants are milliseconds on the caller's clock.
#[derive(Clone, Copy, PartialEq, Eq, Structural)]
pub struct Bucket {
    pub tokens: u64,
    pub last_refill: u64,
    pub last_seen: u64,
}

spec fn unique_keys(s: Seq<(u64, Bucket)>) -> bool {
    forall|i: int, j: int| 0 <= i < j < s.len() ==> s[i].0 != s[j].0
}

spec fn has_client(s: Seq<(u64, Bucket)>, c: u64) -> bool {
    exists|i: int| 0 <= i < s.len() && s[i].0 == c
}

spec fn spec_index_of(s: Seq<(u64, Bucket)>, c: u64) -> int {
    choose|i: int| 0 <= i < s.len() && s[i].0 == c
}

spec fn spec_bucket(s: Seq<(u64, Bucket)>, c: u64) -> Bucket {
    s[spec_index_of(s, c)].1
}

spec fn map_of(s: Seq<(u64, Bucket)>) -> Map<u64, Bucket> {
    Map::new(|c: u64| has_client(s, c), |c: u64| spec_bucket(s, c))
}

proof fn lemma_choose_index(s: Seq<(u64, Bucket)>, i: int)
    requires
        unique_keys(s),
        0 <= i < s.len(),
    ensures
        has_client(s, s[i].0),
        spec_index_of(s, s[i].0) == i,
        spec_bucket(s, s[i].0) == s[i].1,
{
    assert(0 <= i < s.len() && s[i].0 == s[i].0);
    let j = spec_index_of(s, s[i].0);
    assert(0 <= j < s.len() && s[j].0 == s[i].0);
    if i < j {
        assert(false);
    } else if j < i {
        assert(false);
    }
}

proof fn lemma_update_entry(s: Seq<(u64, Bucket)>, i: int, nb: Bucket)
    requires
        unique_keys(s),
        0 <= i < s.len(),
    ensures
        unique_keys(s.update(i, (s[i].0, nb))),
        map_of(s.update(i, (s[i].0, nb))) == map_of(s).insert(s[i].0, nb),
{
    let t = s.update(i, (s[i].0, nb));
    assert(forall|j: int| 0 <= j < s.len() ==> t[j].0 == s[j].0);
    assert(unique_keys(t));
    assert forall|c: u64| has_client(t, c) <==> has_client(s, c) by {
        if has_client(t, c) {
            let j = spec_index_of(t, c);
            assert(0 <= j < t.len() && t[j].0 == c);
            assert(s[j].0 == c);
        }
        if has_client(s, c) {
            let j = spec_index_of(s, c);
            assert(0 <= j < s.len() && s[j].0 == c);
            assert(t[j].0 == c);
        }
    }
    assert forall|c: u64| has_client(t, c) implies spec_bucket(t, c) == (if c == s[i].0 {
        nb
    } else {
        spec_bucket(s, c)
    }) by {
        let j = spec_index_of(t, c);
        assert(0 <= j < t.len() && t[j].0 == c);
        if c == s[i].0 {
            lemma_choose_index(t, i);
        } else {
            assert(j != i);
            lemma_choose_index(t, j);
            lemma_choose_index(s, j);
        }
    }
    assert_maps_equal!(map_of(t), map_of(s).insert(s[i].0, nb), c => {
        if has_client(t, c) {
            assert(spec_bucket(t, c) == (if c == s[i].0 { nb } else { spec_bucket(s, c) }));
        }
    });
}

proof fn lemma_push_entry(s: Seq<(u64, Bucket)>, e: (u64, Bucket))
    requires
        unique_keys(s),
        !has_client(s, e.0),
    ensures
        unique_keys(s.push(e)),
        map_of(s.push(e)) == map_of(s).insert(e.0, e.1),
{
    let t = s.push(e);
    assert(forall|j: int| 0 <= j < s.len() ==> t[j] == s[j]);
    assert(t[s.len() as int] == e);
    assert forall|i: int, j: int| 0 <= i < j < t.len() implies t[i].0 != t[j].0 by {
        if j == s.len() {
            assert(s[i].0 == t[i].0);
            if t[i].0 == e.0 {
                assert(has_client(s, e.0));
            }
        }
    }
    assert forall|c: u64| has_client(t, c) <==> (has_client(s, c) || c == e.0) by {
        if has_client(t, c) {
            let j = spec_index_of(t, c);
            assert(0 <= j < t.len() && t[j].0 == c);
            if j < s.len() {
                assert(s[j].0 == c);
            }
        }
        if has_client(s, c) {
            let j = spec_index_of(s, c);
            assert(0 <= j < s.len() && s[j].0 == c);
            assert(t[j].0 == c);
        }
        if c == e.0 {
            assert(t[s.len() as int].0 == c);
        }
    }
    assert forall|c: u64| has_client(t, c) implies spec_bucket(t, c) == (if c == e.0 {
        e.1
    } else {
        spec_bucket(s, c)
    }) by {
        if c == e.0 {
            lemma_choose_index(t, s.len() as int);
        } else {
            let j = spec_index_of(t, c);
            assert(0 <= j < t.len() && t[j].0 == c);
            assert(j != s.len());
            lemma_choose_index(t, j);
            lemma_choose_index(s, j);
        }
    }
    assert_maps_equal!(map_of(t), map_of(s).insert(e.0, e.1), c => {
        if has_client(t, c) {
            assert(spec_bucket(t, c) == (if c == e.0 { e.1 } else { spec_bucket(s, c) }));
        }
    });
}

/// A bucket with the refills earned since `last_refill` credited:
/// one token per full refill interval elapsed, the count capped at
/// the burst size, and `last_refill` advanced by exactly the
/// credited intervals. A clock reading before `last_refill` credits
/// nothing.
pub open spec fn spec_refill(b: Bucket, now: u64, burst: u64, refill_millis: u64) -> Bucket
    recommends
        refill_millis >= 1,
{
    let elapsed: int = if now >= b.last_refill {
        now - b.last_refill
    } else {
        0
    };
    let credits: int = elapsed / refill_millis as int;
    (Bucket {
        tokens: if b.tokens + credits >= burst {
            burst
        } else {
            (b.tokens + credits) as u64
        },
        last_refill: if now >= b.last_refill {
            (b.last_refill + credits * refill_millis) as u64
        } else {
            b.last_refill
        },
        last_seen: b.last_seen,
    })
}

/// Whether a bucket survives a sweep at `now`: it was touched
/// within the retention window.
pub open spec fn spec_retained(b: Bucket, now: u64, retention_millis: u64) -> bool {
    now <= b.last_seen + retention_millis
}

/// The per-client token-bucket admission limiter. Each client's
/// count never exceeds the burst size, admission costs exactly one
/// token, one token returns per refill interval, and a periodic
/// sweep evicts buckets untouched beyond the retention window.
pub struct RateLimiter {
    burst: u64,
    refill_millis: u64,
    retention_millis: u64,
    buckets: Vec<(u64, Bucket)>,
}

impl View for RateLimiter {
    type V = Map<u64, Bucket>;

    closed spec fn view(&self) -> Map<u64, Bucket> {
        map_of(self.buckets@)
    }
}

impl RateLimiter {
    /// The configured burst size.
    pub closed spec fn spec_burst(&self) -> u64 {
        self.burst
    }

    /// The configured refill interval, in milliseconds.
    pub closed spec fn spec_refill_millis(&self) -> u64 {
        self.refill_millis
    }

    /// The configured retention window, in milliseconds.
    pub closed spec fn spec_retention_millis(&self) -> u64 {
        self.retention_millis
    }

    /// The limiter's invariant: the refill interval is positive,
    /// clients are tracked at most once, and no bucket holds more
    /// tokens than the burst size.
    pub closed spec fn wf(&self) -> bool {
        &&& self.refill_millis >= 1
        &&& unique_keys(self.buckets@)
        &&& forall|i: int|
            0 <= i < self.buckets@.len() ==> (#[trigger] self.buckets@[i]).1.tokens <= self.burst
    }

    /// A limiter with the given burst size, refill interval and
    /// retention window, tracking no clients.
    pub fn new(burst: u64, refill_millis: u64, retention_millis: u64) -> (r: Self)
        requires
            refill_millis >= 1,
        ensures
            r.wf(),
            r@ == Map::<u64, Bucket>::empty(),
            r.spec_burst() == burst,
            r.spec_refill_millis() == refill_millis,
            r.spec_retention_millis() == retention_millis,
    {
        let r = RateLimiter { burst, refill_millis, retention_millis, buckets: Vec::new() };
        proof {
            assert_maps_equal!(map_of(r.buckets@), Map::<u64, Bucket>::empty(), c => {});
        }
        r
    }

    /// The number of tracked client buckets; with the invariant
    /// held, each client is tracked at most once.
    pub closed spec fn spec_tracked_count(&self) -> nat {
        self.buckets@.len()
    }

    /// The number of tracked client buckets, as the sweep task
    /// reports it.
    pub fn tracked_clients(&self) -> (r: usize)
        ensures
            r == self.spec_tracked_count(),
    {
        self.buckets.len()
    }

    fn find_bucket(&self, client: u64) -> (r: Option<usize>)
        ensures
            match r {
                Some(i) => i < self.buckets@.len() && self.buckets@[i as int].0 == client,
                None => !has_client(self.buckets@, client),
            },
    {
        let n = self.buckets.len();
        let mut i: usize = 0;
        while i < n
            invariant
                i <= n,
                n == self.buckets@.len(),
                forall|j: int| 0 <= j < i ==> self.buckets@[j].0 != client,
            decreases n - i,
        {
            if self.buckets[i].0 == client {
                return Some(i);
            }
            i = i + 1;
        }
        None
    }

    /// Decides one request from the given client at the given
    /// instant: the client's bucket (a fresh one at full burst for
    /// an unseen client) is credited its refills; a request is
    /// admitted exactly when a token remains, and costs one token.
    /// Either way the bucket is marked as touched now.
    pub fn check_admit(&mut self, client: u64, now: u64) -> (admitted: bool)
        requires
            old(self).wf(),
        ensures
            final(self).wf(),
            final(self).spec_burst() == old(self).spec_burst(),
            final(self).spec_refill_millis() == old(self).spec_refill_millis(),
            final(self).spec_retention_millis() == old(self).spec_retention_millis(),
            ({
                let b0 = if old(self)@.contains_key(client) {
                    spec_refill(
                        old(self)@[client],
                        now,
                        old(self).spec_burst(),
                        old(self).spec_refill_millis(),
                    )
                } else {
                    (Bucket { tokens: old(self).spec_burst(), last_refill: now, last_seen: now })
                };
                &&& admitted == (b0.tokens >= 1)
                &&& final(self)@ == old(self)@.insert(
                    client,
                    (Bucket {
                        tokens: if b0.tokens >= 1 {
                            (b0.tokens - 1) as u64
                        } else {
                            b0.tokens
                        },
                        last_refill: b0.last_refill,
                        last_seen: now,
                    }),
                )
            }),
    {
        match self.find_bucket(client) {
            Some(i) => {
                proof {
                    lemma_choose_index(self.buckets@, i as int);
                }
                let b = self.buckets[i].1;
                let elapsed: u64 = if now >= b.last_refill {
                    now - b.last_refill
                } else {
                    0
                };
                let credits: u64 = elapsed / self.refill_millis;
                proof {
                    assert(self.refill_millis >= 1);
                    lemma_fundamental_div_mod(elapsed as int, self.refill_millis as int);
                    lemma_mod_division_less_than_divisor(elapsed as int, self.refill_millis as int);
                    assert(credits == elapsed as int / (self.refill_millis as int));
                    assert((credits as int) * (self.refill_millis as int) == (
                    self.refill_millis as int) * (credits as int)) by (nonlinear_arith);
                    assert(credits * self.refill_millis <= elapsed);
                }
                let refilled: u64 = if credits >= self.burst - b.tokens {
                    self.burst
                } else {
                    b.tokens + credits
                };
                let new_last_refill: u64 = if now >= b.last_refill {
                    b.last_refill + credits * self.refill_millis
                } else {
                    b.last_refill
                };
                let ghost b0 = spec_refill(b, now, self.burst, self.refill_millis);
                assert(refilled == b0.tokens && new_last_refill == b0.last_refill);
                let admitted = refilled >= 1;
                let nb = Bucket {
                    tokens: if refilled >= 1 {
                        refilled - 1
                    } else {
                        refilled
                    },
                    last_refill: new_last_refill,
                    last_seen: now,
                };
                proof {
                    lemma_update_entry(self.buckets@, i as int, nb);
                }
                self.buckets[i] = (client, nb);
                admitted
            },
            None => {
                let admitted = self.burst >= 1;
                let nb = Bucket {
                    tokens: if self.burst >= 1 {
                        self.burst - 1
                    } else {
                        self.burst
                    },
                    last_refill: now,
                    last_seen: now,
                };
                proof {
                    lemma_push_entry(self.buckets@, (client, nb));
                }
                self.buckets.push((client, nb));
                admitted
            },
        }
    }

    /// Evicts every bucket untouched for longer than the retention
    /// window; every bucket touched within it survives unchanged.
    pub fn sweep(&mut self, now: u64)
        requires
            old(self).wf(),
        ensures
            final(self).wf(),
            final(self).spec_burst() == old(self).spec_burst(),
            final(self).spec_refill_millis() == old(self).spec_refill_millis(),
            final(self).spec_retention_millis() == old(self).spec_retention_millis(),
            forall|c: u64|
                old(self)@.contains_key(c) && spec_retained(
                    old(self)@[c],
                    now,
                    old(self).spec_retention_millis(),
                ) ==> final(self)@.contains_key(c) && final(self)@[c] == old(self)@[c],
            forall|c: u64|
                final(self)@.contains_key(c) ==> old(self)@.contains_key(c) && spec_retained(
                    old(self)@[c],
                    now,
                    old(self).spec_retention_millis(),
                ),
    {
        let ghost s = self.buckets@;
        let mut kept: Vec<(u64, Bucket)> = Vec::new();
        let n = self.buckets.len();
        let mut t: usize = 0;
        proof {
            assert_maps_equal!(map_of(kept@), Map::<u64, Bucket>::empty(), c => {});
        }
        while t < n
            invariant
                t <= n,
                n == s.len(),
                s == self.buckets@,
                self.wf(),
                unique_keys(kept@),
                forall|k: int|
                    0 <= k < kept@.len() ==> s.subrange(0, t as int).contains(#[trigger] kept@[k])
                        && spec_retained(kept@[k].1, now, self.spec_retention_millis()),
                forall|j: int|
                    0 <= j < t && spec_retained(
                        (#[trigger] s[j]).1,
                        now,
                        self.spec_retention_millis(),
                    ) ==> map_of(kept@).contains_key(s[j].0) && map_of(kept@)[s[j].0] == s[j].1,
            decreases n - t,
        {
            let e = self.buckets[t];
            let retained = now <= e.1.last_seen || now - e.1.last_seen <= self.retention_millis;
            assert(retained == spec_retained(e.1, now, self.spec_retention_millis()));
            let ghost kept0 = kept@;
            let ghost pre = s.subrange(0, t as int);
            let ghost post = s.subrange(0, t + 1);
            proof {
                assert(forall|x: int| 0 <= x < t ==> #[trigger] post[x] == s[x] && pre[x] == s[x]);
                assert(post[t as int] == s[t as int]);
            }
            if retained {
                proof {
                    if has_client(kept@, e.0) {
                        let k = spec_index_of(kept@, e.0);
                        assert(0 <= k < kept@.len() && kept@[k].0 == e.0);
                        assert(pre.contains(kept@[k]));
                        let j = choose|i: int| 0 <= i < pre.len() && pre[i] == kept@[k];
                        assert(s[j] == pre[j] && s[j].0 == e.0);
                        assert(s[t as int].0 == e.0);
                        assert(j < t);
                        assert(false);
                    }
                    lemma_push_entry(kept@, e);
                }
                kept.push(e);
                proof {
                    assert forall|k: int| 0 <= k < kept@.len() implies post.contains(
                        #[trigger] kept@[k],
                    ) && spec_retained(kept@[k].1, now, self.spec_retention_millis()) by {
                        if k == kept@.len() - 1 {
                            assert(kept@[k] == e);
                            assert(post[t as int] == e);
                            assert(post.contains(e));
                        } else {
                            assert(kept@[k] == kept0[k]);
                            assert(pre.contains(kept0[k]));
                            let i0 = choose|i: int| 0 <= i < pre.len() && pre[i] == kept0[k];
                            assert(post[i0] == pre[i0]);
                            assert(post.contains(kept@[k]));
                        }
                    }
                }
            } else {
                proof {
                    assert(!spec_retained(s[t as int].1, now, self.spec_retention_millis()));
                    assert forall|k: int| 0 <= k < kept@.len() implies post.contains(
                        #[trigger] kept@[k],
                    ) && spec_retained(kept@[k].1, now, self.spec_retention_millis()) by {
                        assert(pre.contains(kept0[k]));
                        let i0 = choose|i: int| 0 <= i < pre.len() && pre[i] == kept0[k];
                        assert(post[i0] == pre[i0]);
                        assert(post.contains(kept@[k]));
                    }
                }
            }
            t = t + 1;
        }
        proof {
            assert(s.subrange(0, n as int) =~= s);
            assert forall|k: int| 0 <= k < kept@.len() implies s.contains(#[trigger] kept@[k])
                && spec_retained(kept@[k].1, now, self.spec_retention_millis()) by {
                assert(s.subrange(0, n as int).contains(kept@[k]));
            }
            lemma_sweep_view(s, kept@, now, self.retention_millis, self.burst);
        }
        self.buckets = kept;
    }

    /// Reads a client's bucket, when one is tracked.
    pub fn bucket_of(&self, client: u64) -> (r: Option<Bucket>)
        requires
            self.wf(),
        ensures
            self@.contains_key(client) ==> r == Some(self@[client]),
            !self@.contains_key(client) ==> r is None,
    {
        match self.find_bucket(client) {
            Some(i) => {
                proof {
                    lemma_choose_index(self.buckets@, i as int);
                }
                Some(self.buckets[i].1)
            },
            None => None,
        }
    }
}

proof fn lemma_sweep_view(
    s: Seq<(u64, Bucket)>,
    kept: Seq<(u64, Bucket)>,
    now: u64,
    retention: u64,
    burst: u64,
)
    requires
        unique_keys(s),
        unique_keys(kept),
        forall|i: int| 0 <= i < s.len() ==> (#[trigger] s[i]).1.tokens <= burst,
        forall|k: int|
            0 <= k < kept.len() ==> s.contains(#[trigger] kept[k]) && spec_retained(
                kept[k].1,
                now,
                retention,
            ),
        forall|j: int|
            0 <= j < s.len() && spec_retained((#[trigger] s[j]).1, now, retention) ==> map_of(
                kept,
            ).contains_key(s[j].0) && map_of(kept)[s[j].0] == s[j].1,
    ensures
        forall|i: int| 0 <= i < kept.len() ==> (#[trigger] kept[i]).1.tokens <= burst,
        forall|c: u64|
            map_of(s).contains_key(c) && spec_retained(map_of(s)[c], now, retention) ==> map_of(
                kept,
            ).contains_key(c) && map_of(kept)[c] == map_of(s)[c],
        forall|c: u64|
            map_of(kept).contains_key(c) ==> map_of(s).contains_key(c) && spec_retained(
                map_of(s)[c],
                now,
                retention,
            ),
{
    assert forall|i: int| 0 <= i < kept.len() implies (#[trigger] kept[i]).1.tokens <= burst by {
        assert(s.contains(kept[i]));
        let j = choose|j: int| 0 <= j < s.len() && s[j] == kept[i];
        assert(s[j].1.tokens <= burst);
    }
    assert forall|c: u64|
        map_of(s).contains_key(c) && spec_retained(map_of(s)[c], now, retention) implies map_of(
        kept,
    ).contains_key(c) && map_of(kept)[c] == map_of(s)[c] by {
        let j = spec_index_of(s, c);
        assert(0 <= j < s.len() && s[j].0 == c);
        lemma_choose_index(s, j);
        assert(spec_retained(s[j].1, now, retention));
    }
    assert forall|c: u64| map_of(kept).contains_key(c) implies map_of(s).contains_key(c)
        && spec_retained(map_of(s)[c], now, retention) by {
        let k = spec_index_of(kept, c);
        assert(0 <= k < kept.len() && kept[k].0 == c);
        lemma_choose_index(kept, k);
        assert(s.contains(kept[k]));
        let j = choose|j: int| 0 <= j < s.len() && s[j] == kept[k];
        lemma_choose_index(s, j);
    }
}

/// After any sequence of admissions and rejections, a tracked
/// client's token count never exceeds the configured burst size;
/// counts are naturals, so none is ever negative.
pub proof fn lemma_token_bound(lim: RateLimiter, client: u64)
    requires
        lim.wf(),
        lim@.contains_key(client),
    ensures
        0 <= lim@[client].tokens <= lim.spec_burst(),
{
    let s = lim.buckets@;
    let j = spec_index_of(s, client);
    assert(has_client(s, client));
    assert(0 <= j < s.len() && s[j].0 == client);
    assert(s[j].1.tokens <= lim.spec_burst());
}

} // verus!
