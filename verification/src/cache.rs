//! Cached answers: their tags, their weight, and how long they stay fresh.

use std::time::Instant;

use vstd::prelude::*;
use vstd::string::StrSliceExecFns;
use vstd::utf8::encode_utf8;

use crate::hash::{blake3_hex, hash_hex, is_hex_digit};

verus! {

/// Nanoseconds in a second.
pub const NANOS_PER_SEC: u32 = 1_000_000_000;

/// A span of time, in seconds and nanoseconds.
#[derive(Clone, Copy, Debug, PartialEq, Eq)]
pub struct TimeSpan {
    secs: u64,
    nanos: u32,
}

impl View for TimeSpan {
    type V = nat;

    /// The span in nanoseconds.
    closed spec fn view(&self) -> nat {
        (self.secs * NANOS_PER_SEC + self.nanos) as nat
    }
}

impl TimeSpan {
    #[verifier::type_invariant]
    spec fn well_formed(self) -> bool {
        self.nanos < NANOS_PER_SEC
    }

    /// The span of `secs` seconds and `nanos` nanoseconds.
    pub fn new(secs: u64, nanos: u32) -> (r: TimeSpan)
        requires
            nanos < NANOS_PER_SEC,
        ensures
            r@ == secs * NANOS_PER_SEC + nanos,
    {
        TimeSpan { secs, nanos }
    }

    /// The span of `secs` seconds.
    pub fn from_secs(secs: u64) -> (r: TimeSpan)
        ensures
            r@ == secs * NANOS_PER_SEC,
    {
        TimeSpan { secs, nanos: 0 }
    }

    /// The whole seconds of the span.
    pub fn as_secs(&self) -> (r: u64)
        ensures
            r == self@ / (NANOS_PER_SEC as nat),
    {
        proof {
            use_type_invariant(self);
            let n = NANOS_PER_SEC as int;
            vstd::arithmetic::div_mod::lemma_fundamental_div_mod_converse(
                self.secs * n + self.nanos,
                n,
                self.secs as int,
                self.nanos as int,
            );
        }
        self.secs
    }

    /// The nanoseconds of the span beyond its whole seconds.
    pub fn subsec_nanos(&self) -> (r: u32)
        ensures
            r == self@ % (NANOS_PER_SEC as nat),
    {
        proof {
            use_type_invariant(self);
            let n = NANOS_PER_SEC as int;
            vstd::arithmetic::div_mod::lemma_fundamental_div_mod_converse(
                self.secs * n + self.nanos,
                n,
                self.secs as int,
                self.nanos as int,
            );
        }
        self.nanos
    }

    /// The shorter of the two spans.
    pub fn min(self, other: TimeSpan) -> (r: TimeSpan)
        ensures
            r@ == if self@ <= other@ {
                self@
            } else {
                other@
            },
    {
        proof {
            use_type_invariant(&self);
            use_type_invariant(&other);
        }
        if self.secs < other.secs || (self.secs == other.secs && self.nanos <= other.nanos) {
            self
        } else {
            other
        }
    }

    /// What is left of the span after `other`: nothing where `other` is longer.
    pub fn saturating_sub(self, other: TimeSpan) -> (r: TimeSpan)
        ensures
            r@ == left_after(self@, other@),
    {
        proof {
            use_type_invariant(&self);
            use_type_invariant(&other);
        }
        if self.secs < other.secs || (self.secs == other.secs && self.nanos <= other.nanos) {
            TimeSpan { secs: 0, nanos: 0 }
        } else if self.nanos >= other.nanos {
            TimeSpan { secs: self.secs - other.secs, nanos: self.nanos - other.nanos }
        } else {
            TimeSpan {
                secs: self.secs - other.secs - 1,
                nanos: self.nanos + (NANOS_PER_SEC - other.nanos),
            }
        }
    }
}

/// What is left of `span` after `other`, in nanoseconds.
pub open spec fn left_after(span: nat, other: nat) -> nat {
    if span >= other {
        (span - other) as nat
    } else {
        0
    }
}

/// A moment on the clock of this process.
#[verifier::external_type_specification]
#[verifier::external_body]
pub struct ExInstant(Instant);

/// `Instant::now`: the moment of the call, of which nothing is known beforehand.
pub assume_specification[ Instant::now ]() -> (r: Instant)
;

/// The nanoseconds from `earlier` to `later` that `Instant::saturating_duration_since` gives.
pub uninterp spec fn nanos_between(earlier: Instant, later: Instant) -> nat;

/// `Instant::saturating_duration_since`: the time from `earlier` to `later`, as whole seconds and
/// the nanoseconds beyond them. It depends on the two moments alone.
#[verifier::external_body]
fn span_between(earlier: &Instant, later: &Instant) -> (r: (u64, u32))
    ensures
        r.1 < NANOS_PER_SEC,
        r.0 * NANOS_PER_SEC + r.1 == nanos_between(*earlier, *later),
{
    let d = later.saturating_duration_since(*earlier);
    (d.as_secs(), d.subsec_nanos())
}

/// An answer that is kept, with its tag and its lifetime.
pub struct CachedSearch {
    pub body: Vec<u8>,
    pub etag: String,
    pub ttl: TimeSpan,
    pub created: Instant,
}

/// The tag of a body: the first 16 digits of its digest, in quotes.
pub open spec fn etag_of(body: Seq<u8>) -> Seq<char> {
    seq!['"'] + blake3_hex(body).take(16) + seq!['"']
}

/// Whether `tag` is 16 hexadecimal digits in quotes.
pub open spec fn is_digest_tag(tag: Seq<char>) -> bool {
    &&& tag.len() == 18
    &&& tag[0] == '"'
    &&& tag[17] == '"'
    &&& forall|i: int| 1 <= i < 17 ==> is_hex_digit(#[trigger] tag[i])
}

impl CachedSearch {
    /// The answer `body`, which stays fresh for `ttl` from now on. Which moment that is, the clock
    /// says.
    pub fn new(body: Vec<u8>, ttl: TimeSpan) -> (r: CachedSearch)
        ensures
            r.body@ == body@,
            r.ttl == ttl,
            r.etag@ == etag_of(body@),
            is_digest_tag(r.etag@),
    {
        CachedSearch::made_at(body, ttl, Instant::now())
    }

    /// The answer `body`, which stays fresh for `ttl` from `created` on.
    pub fn made_at(body: Vec<u8>, ttl: TimeSpan, created: Instant) -> (r: CachedSearch)
        ensures
            r.body@ == body@,
            r.ttl == ttl,
            r.created == created,
            r.etag@ == etag_of(body@),
            is_digest_tag(r.etag@),
    {
        let digest = hash_hex(body.as_slice());
        let mut etag = String::new();
        etag.push('"');
        etag.append(digest.as_str().substring_char(0, 16));
        etag.push('"');
        assert(etag@ == etag_of(body@));
        assert forall|i: int| 1 <= i < 17 implies is_hex_digit(#[trigger] etag@[i]) by {
            assert(etag@[i] == digest@[i - 1]);
        }
        CachedSearch { body, etag, ttl, created }
    }

    /// The time left before the entry expires, where `elapsed` has passed since it was made.
    pub fn remaining_after(&self, elapsed: TimeSpan) -> (r: TimeSpan)
        ensures
            r@ == left_after(self.ttl@, elapsed@),
    {
        self.ttl.saturating_sub(elapsed)
    }

    /// The time left at `now` before the entry expires.
    pub fn remaining_at(&self, now: &Instant) -> (r: TimeSpan)
        ensures
            r@ == left_after(self.ttl@, nanos_between(self.created, *now)),
    {
        let (secs, nanos) = span_between(&self.created, now);
        self.remaining_after(TimeSpan::new(secs, nanos))
    }

    /// The time left before the entry expires, which is how long caches downstream may hold it.
    /// With the whole lifetime on every hit, theirs would be added to it, up to twice the staleness
    /// that is meant. It is the time left at the moment of the call; which moment that is, the
    /// clock says.
    pub fn remaining(&self) -> (r: TimeSpan)
        ensures
            exists|now: Instant|
                r@ == left_after(self.ttl@, #[trigger] nanos_between(self.created, now)),
            r@ <= self.ttl@,
    {
        self.remaining_at(&Instant::now())
    }

    /// How much of the cache the entry takes under `key`: the bytes of body, tag and key.
    pub fn weight(&self, key: &str) -> (r: u32)
        ensures
            r == weight_of(self.body@.len(), self.etag@, key@),
    {
        let sum = self.body.len().saturating_add(self.etag.as_str().as_bytes().len()).saturating_add(
            key.as_bytes().len(),
        );
        if sum <= u32::MAX as usize {
            sum as u32
        } else {
            u32::MAX
        }
    }
}

/// The bytes of body, tag and key together, or the largest weight there is.
pub open spec fn weight_of(body_len: nat, etag: Seq<char>, key: Seq<char>) -> nat {
    let sum = body_len + encode_utf8(etag).len() + encode_utf8(key).len();
    if sum <= u32::MAX {
        sum
    } else {
        u32::MAX as nat
    }
}

/// The more time has passed, the less is left, and never more than the lifetime.
pub proof fn law_remaining_only_falls(ttl: nat, earlier: nat, later: nat)
    requires
        earlier <= later,
    ensures
        left_after(ttl, later) <= left_after(ttl, earlier) <= ttl,
        later >= ttl ==> left_after(ttl, later) == 0,
{
}

/// What is to be done once the cache was asked for a key.
pub enum LookupStep<E> {
    /// The entry is there: it is a hit.
    Serve(E),
    /// It is not: one caller fetches it, the others wait for the same entry.
    FetchOnce,
}

/// What is to be done once the cache was asked for a key, and gave `found`.
pub fn after_lookup<E>(found: Option<E>) -> (r: LookupStep<E>)
    ensures
        match found {
            Some(entry) => r == LookupStep::Serve(entry),
            None => r == LookupStep::<E>::FetchOnce,
        },
{
    match found {
        Some(entry) => LookupStep::Serve(entry),
        None => LookupStep::FetchOnce,
    }
}

/// The entry with whether it was a hit, once it was fetched through the cache. It was a hit where
/// this caller did not fetch it itself (`fetched`). A failure is passed on.
pub fn after_fetch<E, F>(outcome: Result<E, F>, fetched: bool) -> (r: Result<(E, bool), F>)
    ensures
        match outcome {
            Ok(entry) => r == Ok::<(E, bool), F>((entry, !fetched)),
            Err(e) => r == Err::<(E, bool), F>(e),
        },
{
    match outcome {
        Ok(entry) => Ok((entry, !fetched)),
        Err(e) => Err(e),
    }
}

} // verus!
