//! Per-client rate limiting with an arithmetic captcha.
//!
//! Each client address keeps the times of its recent requests. More than
//! [`MAX_REQUESTS_PER_WINDOW`] requests inside [`WINDOW_NANOS`] trip the limit;
//! the client then has to answer a question `a + b = ?` issued by
//! [`CaptchaState::new_challenge`]. A right answer lets the address through
//! for [`VERIFIED_TTL_NANOS`]. Times are nanoseconds on a monotonic clock.

use dashmap::DashMap;
use rand::Rng;
use vstd::prelude::*;

use crate::shared::{ApiError, CaptchaAnswer, CaptchaChallenge};
use crate::text::{
    is_white_space, lemma_decimal_digits_read_back, lemma_decimal_int_parses_back,
    lemma_digit_run_unique, lemma_trim_padded, chars_of, decimal_int, hex_lower, int_decimal_chars, parse_i64, parse_i64_spec, push_hex_lower,
    push_str, starts_with, string_from_chars, trim, trim_str,
};

verus! {

/// Length of the sliding window, 10 seconds.
pub const WINDOW_NANOS: u64 = 10_000_000_000;

/// Requests allowed per address inside one window.
pub const MAX_REQUESTS_PER_WINDOW: usize = 10;

/// How long a solved captcha lets an address through, 5 minutes.
pub const VERIFIED_TTL_NANOS: u64 = 300_000_000_000;

/// How long an unanswered challenge is kept, 2 minutes.
pub const CHALLENGE_TTL_NANOS: u64 = 120_000_000_000;

/// How long an idle, unverified address is remembered, 10 minutes.
pub const IDLE_ENTRY_TTL_NANOS: u64 = 600_000_000_000;

// ---------------------------------------------------------------------------
// The outside map
// ---------------------------------------------------------------------------

/// `dashmap::DashMap`, held opaque.
#[verifier::external_type_specification]
#[verifier::external_body]
#[verifier::reject_recursive_types(K)]
#[verifier::reject_recursive_types(V)]
#[verifier::reject_recursive_types(S)]
pub struct ExDashMap<K, V, S>(DashMap<K, V, S>);

/// The key under which an address is tracked: whether it is IPv6, and its bits.
pub type IpKey = (bool, u128);

/// A client address.
#[derive(Debug, Clone, Copy, PartialEq, Eq, Structural)]
pub enum ClientIp {
    V4(u32),
    V6(u128),
}

impl ClientIp {
    /// The key of this address in the table of clients.
    pub open spec fn spec_key(self) -> IpKey {
        match self {
            ClientIp::V4(bits) => (false, bits as u128),
            ClientIp::V6(bits) => (true, bits),
        }
    }

    /// The key of this address in the table of clients.
    pub fn key(&self) -> (k: IpKey)
        ensures
            k == self.spec_key(),
    {
        match self {
            ClientIp::V4(bits) => (false, *bits as u128),
            ClientIp::V6(bits) => (true, *bits),
        }
    }
}

/// What is remembered of one address: the times of its recent requests,
/// oldest first, and until when a solved captcha lets it through.
pub struct IpState {
    pub hits: std::collections::VecDeque<u64>,
    pub verified_until: Option<u64>,
}

/// The mathematical content of an [`IpState`].
pub struct IpRecord {
    pub hits: Seq<u64>,
    pub verified_until: Option<u64>,
}

impl View for IpState {
    type V = IpRecord;

    open spec fn view(&self) -> IpRecord {
        IpRecord { hits: self.hits@, verified_until: self.verified_until }
    }
}

/// The record of an address seen for the first time.
pub open spec fn fresh_record() -> IpRecord {
    IpRecord { hits: Seq::empty(), verified_until: None }
}

impl IpState {
    /// No requests and no solved captcha.
    pub fn fresh() -> (s: IpState)
        ensures
            s@ == fresh_record(),
    {
        IpState { hits: std::collections::VecDeque::new(), verified_until: None }
    }
}

/// The table of tracked addresses.
pub type IpTable = DashMap<IpKey, IpState>;

/// The table of open challenges: token to expected answer and issue time.
pub type ChallengeTable = DashMap<String, (i64, u64)>;

/// The records that a table of addresses holds.
pub uninterp spec fn ip_table(m: IpTable) -> Map<IpKey, IpRecord>;

/// The open challenges that a table holds: token to expected answer and the
/// time the challenge was issued.
pub uninterp spec fn challenge_table(m: ChallengeTable) -> Map<Seq<char>, (i64, u64)>;

/// No address tracked.
pub open spec fn no_ips() -> Map<IpKey, IpRecord> {
    Map::empty()
}

/// No challenge open.
pub open spec fn no_challenges() -> Map<Seq<char>, (i64, u64)> {
    Map::empty()
}

/// `DashMap::new`: an empty table of addresses.
#[verifier::external_body]
fn ip_table_new() -> (m: IpTable)
    ensures
        ip_table(m) == no_ips(),
{
    DashMap::new()
}

/// `DashMap::remove`: takes the record of `key` out of the table, if any.
#[verifier::external_body]
fn ip_table_take(m: &mut IpTable, key: IpKey) -> (r: Option<IpState>)
    ensures
        ip_table(*final(m)) == ip_table(*old(m)).remove(key),
        r is Some <==> ip_table(*old(m)).contains_key(key),
        r matches Some(s) ==> s@ == ip_table(*old(m))[key],
{
    m.remove(&key).map(|(_, v)| v)
}

/// `DashMap::insert`: stores `value` under `key`, replacing what was there.
#[verifier::external_body]
fn ip_table_put(m: &mut IpTable, key: IpKey, value: IpState)
    ensures
        ip_table(*final(m)) == ip_table(*old(m)).insert(key, value@),
{
    m.insert(key, value);
}

/// `DashMap::retain`: keeps the records for which [`ip_state_is_live`] holds
/// at `now`.
#[verifier::external_body]
fn ip_table_retain(m: &mut IpTable, now: u64)
    ensures
        ip_table(*final(m)) == live_ips(ip_table(*old(m)), now),
{
    m.retain(|_, s| ip_state_is_live(s, now));
}

/// `DashMap::new`: an empty table of challenges.
#[verifier::external_body]
fn challenge_table_new() -> (m: ChallengeTable)
    ensures
        challenge_table(m) == no_challenges(),
{
    DashMap::new()
}

/// `DashMap::remove`: takes the challenge with this token out, if any.
#[verifier::external_body]
fn challenge_table_take(m: &mut ChallengeTable, token: &String) -> (r: Option<
    (i64, u64),
>)
    ensures
        challenge_table(*final(m)) == challenge_table(*old(m)).remove(token@),
        r is Some <==> challenge_table(*old(m)).contains_key(token@),
        r matches Some(v) ==> v == challenge_table(*old(m))[token@],
{
    m.remove(token).map(|(_, v)| v)
}

/// `DashMap::insert`: stores a challenge under its token.
#[verifier::external_body]
fn challenge_table_put(m: &mut ChallengeTable, token: String, value: (i64, u64))
    ensures
        challenge_table(*final(m)) == challenge_table(*old(m)).insert(token@, value),
{
    m.insert(token, value);
}

/// `DashMap::retain`: keeps the challenges issued less than
/// [`CHALLENGE_TTL_NANOS`] before `now`.
#[verifier::external_body]
fn challenge_table_retain(m: &mut ChallengeTable, now: u64)
    ensures
        challenge_table(*final(m)) == live_challenges(challenge_table(*old(m)), now),
{
    m.retain(|_, v| challenge_is_live(v, now));
}

/// `Rng::gen_range(low..high)` on the thread-local generator: a number from
/// `low` up to, not including, `high` (the range must not be empty).
#[verifier::external_body]
fn random_in_range(low: i64, high: i64) -> (r: i64)
    requires
        low < high,
    ensures
        low <= r < high,
{
    rand::thread_rng().gen_range(low..high)
}

/// `Rng::gen` on the thread-local generator: 16 random bytes. Nothing is
/// stated of their values.
#[verifier::external_body]
fn random_token_bytes() -> (r: [u8; 16]) {
    rand::thread_rng().gen()
}

// ---------------------------------------------------------------------------
// The model
// ---------------------------------------------------------------------------

/// Time from `then` to `now`, zero when `then` is later
/// (`Instant::duration_since` saturates).
pub open spec fn elapsed(now: u64, then: u64) -> int {
    if now >= then {
        now - then
    } else {
        0
    }
}

/// `hits` without the leading run of requests older than the window.
pub open spec fn prune_hits(hits: Seq<u64>, now: u64) -> Seq<u64>
    decreases hits.len(),
{
    if hits.len() > 0 && elapsed(now, hits[0]) > WINDOW_NANOS {
        prune_hits(hits.drop_first(), now)
    } else {
        hits
    }
}

/// Whether a solved captcha still lets the address through at `now`.
pub open spec fn is_verified_at(r: IpRecord, now: u64) -> bool {
    r.verified_until matches Some(v) && v > now
}

/// The record of `key`, or a fresh one.
pub open spec fn record_of(t: Map<IpKey, IpRecord>, key: IpKey) -> IpRecord {
    if t.contains_key(key) {
        t[key]
    } else {
        fresh_record()
    }
}

/// Whether a request at `now` from an address with record `r` is let through.
pub open spec fn check_allows(r: IpRecord, now: u64) -> bool {
    is_verified_at(r, now) || prune_hits(r.hits, now).len() + 1 <= MAX_REQUESTS_PER_WINDOW
}

/// The record after a request at `now`: unchanged while verified, otherwise
/// the old requests dropped and `now` appended.
pub open spec fn record_after_check(r: IpRecord, now: u64) -> IpRecord {
    if is_verified_at(r, now) {
        r
    } else {
        IpRecord { hits: prune_hits(r.hits, now).push(now), verified_until: r.verified_until }
    }
}

/// The record after a solved captcha at `now`.
pub open spec fn verified_record(now: u64) -> IpRecord {
    IpRecord { hits: Seq::empty(), verified_until: Some((now + VERIFIED_TTL_NANOS) as u64) }
}

/// Whether an answer is right for a challenge expecting `expected`: the
/// trimmed answer parses as that integer.
pub open spec fn answer_matches(answer: Seq<char>, expected: i64) -> bool {
    parse_i64_spec(trim(answer)) == Some(expected)
}

/// Whether an address is still worth remembering at `now`: its last request
/// is less than [`IDLE_ENTRY_TTL_NANOS`] old, or it is still verified.
pub open spec fn ip_record_is_live(r: IpRecord, now: u64) -> bool {
    (r.hits.len() > 0 && elapsed(now, r.hits.last()) < IDLE_ENTRY_TTL_NANOS) || is_verified_at(
        r,
        now,
    )
}

/// The addresses that survive a cleanup at `now`.
pub open spec fn live_ips(t: Map<IpKey, IpRecord>, now: u64) -> Map<IpKey, IpRecord> {
    Map::new(|k: IpKey| t.contains_key(k) && ip_record_is_live(t[k], now), |k: IpKey| t[k])
}

/// Whether a challenge issued at `issued` is still open at `now`.
pub open spec fn challenge_record_is_live(v: (i64, u64), now: u64) -> bool {
    elapsed(now, v.1) < CHALLENGE_TTL_NANOS
}

/// The challenges that survive a cleanup at `now`.
pub open spec fn live_challenges(t: Map<Seq<char>, (i64, u64)>, now: u64) -> Map<
    Seq<char>,
    (i64, u64),
> {
    Map::new(
        |k: Seq<char>| t.contains_key(k) && challenge_record_is_live(t[k], now),
        |k: Seq<char>| t[k],
    )
}

/// The question text `"{a} + {b} = ?"`.
pub open spec fn question_text(a: i64, b: i64) -> Seq<char> {
    decimal_int(a as int) + " + "@ + decimal_int(b as int) + " = ?"@
}

/// The path prefix of the captcha endpoints, which are never rate limited.
pub open spec fn captcha_path_prefix() -> Seq<char> {
    "/api/captcha/"@
}

/// The body sent with a rejected request.
pub open spec fn is_too_many_requests(e: ApiError) -> bool {
    e.error@ == "too_many_requests"@ && e.captcha_required
}

/// Whether an address record is still worth remembering at `now`.
pub fn ip_state_is_live(s: &IpState, now: u64) -> (r: bool)
    ensures
        r == ip_record_is_live(s@, now),
{
    let recently_active = if s.hits.len() > 0 {
        let last = s.hits[s.hits.len() - 1];
        let since: u64 = if now >= last {
            now - last
        } else {
            0
        };
        since < IDLE_ENTRY_TTL_NANOS
    } else {
        false
    };
    let still_verified = match s.verified_until {
        Some(v) => v > now,
        None => false,
    };
    recently_active || still_verified
}

/// Whether the oldest recorded request lies outside the window at `now`.
fn oldest_hit_expired(hits: &std::collections::VecDeque<u64>, now: u64) -> (r: bool)
    ensures
        r == (hits@.len() > 0 && elapsed(now, hits@[0]) > WINDOW_NANOS),
{
    if hits.len() == 0 {
        return false;
    }
    let front = hits[0];
    let since: u64 = if now >= front {
        now - front
    } else {
        0
    };
    since > WINDOW_NANOS
}

/// Whether a challenge record is still open at `now`.
pub fn challenge_is_live(v: &(i64, u64), now: u64) -> (r: bool)
    ensures
        r == challenge_record_is_live(*v, now),
{
    let issued = v.1;
    let since: u64 = if now >= issued {
        now - issued
    } else {
        0
    };
    since < CHALLENGE_TTL_NANOS
}

// ---------------------------------------------------------------------------
// The limiter
// ---------------------------------------------------------------------------

/// Tracks recent request bursts per client address and gates them behind a
/// server-generated arithmetic captcha once they exceed the allowed rate.
pub struct CaptchaState {
    pub ip_states: IpTable,
    pub challenges: ChallengeTable,
}

impl CaptchaState {
    /// The records of the tracked addresses.
    pub open spec fn ips(&self) -> Map<IpKey, IpRecord> {
        ip_table(self.ip_states)
    }

    /// The open challenges.
    pub open spec fn open_challenges(&self) -> Map<Seq<char>, (i64, u64)> {
        challenge_table(self.challenges)
    }

    /// No address tracked and no challenge open.
    pub fn new() -> (s: CaptchaState)
        ensures
            s.ips() == no_ips(),
            s.open_challenges() == no_challenges(),
    {
        CaptchaState { ip_states: ip_table_new(), challenges: challenge_table_new() }
    }

    /// Records a request from `ip` at `now` and says whether it is let
    /// through: `true` while a solved captcha is valid, otherwise when the
    /// address has made at most [`MAX_REQUESTS_PER_WINDOW`] requests in the
    /// window, this one included.
    pub fn check(&mut self, ip: ClientIp, now: u64) -> (allowed: bool)
        ensures
            allowed == check_allows(record_of(old(self).ips(), ip.spec_key()), now),
            final(self).ips() == old(self).ips().insert(
                ip.spec_key(),
                record_after_check(record_of(old(self).ips(), ip.spec_key()), now),
            ),
            final(self).open_challenges() == old(self).open_challenges(),
    {
        let key = ip.key();
        let ghost before = self.ips();
        let ghost rec = record_of(before, key);
        let mut st = match ip_table_take(&mut self.ip_states, key) {
            Some(s) => s,
            None => IpState::fresh(),
        };
        assert(st@ == rec);
        if let Some(until) = st.verified_until {
            if until > now {
                ip_table_put(&mut self.ip_states, key, st);
                assert(self.ips() =~= before.insert(key, rec));
                return true;
            }
        }
        while oldest_hit_expired(&st.hits, now)
            invariant
                prune_hits(st.hits@, now) == prune_hits(rec.hits, now),
                st.verified_until == rec.verified_until,
            decreases st.hits@.len(),
        {
            let ghost h = st.hits@;
            st.hits.pop_front();
            assert(st.hits@ =~= h.drop_first());
        }
        st.hits.push_back(now);
        let allowed = st.hits.len() <= MAX_REQUESTS_PER_WINDOW;
        ip_table_put(&mut self.ip_states, key, st);
        proof {
            assert(st@.hits =~= prune_hits(rec.hits, now).push(now));
        }
        allowed
    }

    /// Checks an answer. The challenge named by the token is consumed whatever
    /// the answer. When the trimmed answer parses as the expected sum, the
    /// address is let through for [`VERIFIED_TTL_NANOS`] from `now` and its
    /// recent requests are forgotten.
    pub fn verify(&mut self, ip: ClientIp, answer: &CaptchaAnswer, now: u64) -> (ok: bool)
        requires
            now + VERIFIED_TTL_NANOS <= u64::MAX,
        ensures
            ok == (old(self).open_challenges().contains_key(answer.token@) && answer_matches(
                answer.answer@,
                old(self).open_challenges()[answer.token@].0,
            )),
            final(self).open_challenges() == old(self).open_challenges().remove(answer.token@),
            ok ==> final(self).ips() == old(self).ips().insert(
                ip.spec_key(),
                verified_record(now),
            ),
            !ok ==> final(self).ips() == old(self).ips(),
    {
        match challenge_table_take(&mut self.challenges, &answer.token) {
            Some((expected, _issued)) => {
                let given = parse_i64(trim_str(answer.answer.as_str()));
                if given == Some(expected) {
                    let key = ip.key();
                    let mut st = match ip_table_take(&mut self.ip_states, key) {
                        Some(s) => s,
                        None => IpState::fresh(),
                    };
                    st.verified_until = Some(now + VERIFIED_TTL_NANOS);
                    st.hits.clear();
                    ip_table_put(&mut self.ip_states, key, st);
                    proof {
                        assert(st@ == verified_record(now));
                        assert(self.ips() =~= old(self).ips().insert(key, verified_record(now)));
                    }
                    true
                } else {
                    false
                }
            },
            None => false,
        }
    }

    /// Issues a new question `a + b = ?` with `a` and `b` from 1 to 19, under a
    /// fresh token of 32 lower-case hexadecimal digits, and records the
    /// expected sum with the time it was issued.
    pub fn new_challenge(&mut self, now: u64) -> (c: CaptchaChallenge)
        ensures
            exists|a: i64, b: i64, bytes: Seq<u8>|
                {
                    &&& 1 <= a < 20
                    &&& 1 <= b < 20
                    &&& bytes.len() == 16
                    &&& c.token@ == hex_lower(bytes)
                    &&& c.question@ == question_text(a, b)
                    &&& final(self).open_challenges() == old(self).open_challenges().insert(
                        c.token@,
                        ((a + b) as i64, now),
                    )
                },
            final(self).ips() == old(self).ips(),
    {
        let a = random_in_range(1, 20);
        let b = random_in_range(1, 20);
        let bytes = random_token_bytes();
        let mut token_chars: Vec<char> = Vec::new();
        push_hex_lower(&mut token_chars, bytes.as_slice());
        let token = string_from_chars(&token_chars);
        let mut q: Vec<char> = int_decimal_chars(a);
        push_str(&mut q, " + ");
        let mut bd = int_decimal_chars(b);
        q.append(&mut bd);
        push_str(&mut q, " = ?");
        let question = string_from_chars(&q);
        challenge_table_put(&mut self.challenges, token.clone(), (a + b, now));
        let c = CaptchaChallenge { token, question };
        assert(c.question@ =~= question_text(a, b));
        assert(c.token@ == hex_lower(bytes@));
        c
    }

    /// Forgets idle addresses and expired challenges: an address stays while
    /// its last request is less than [`IDLE_ENTRY_TTL_NANOS`] old or its
    /// captcha is still valid; a challenge stays while it is less than
    /// [`CHALLENGE_TTL_NANOS`] old.
    pub fn cleanup(&mut self, now: u64)
        ensures
            final(self).ips() == live_ips(old(self).ips(), now),
            final(self).open_challenges() == live_challenges(old(self).open_challenges(), now),
    {
        ip_table_retain(&mut self.ip_states, now);
        challenge_table_retain(&mut self.challenges, now);
    }

    /// Decides a request for `path` from `ip` at `now`: requests to the
    /// captcha endpoints always pass and are not counted; any other request
    /// goes through [`CaptchaState::check`], and a refused one is answered
    /// with the `too_many_requests` error that asks for a captcha.
    pub fn gate_request(&mut self, path: &str, ip: ClientIp, now: u64) -> (rejection: Option<ApiError>)
        ensures
            captcha_path_prefix().is_prefix_of(path@) ==> rejection is None && *final(self)
                == *old(self),
            !captcha_path_prefix().is_prefix_of(path@) ==> {
                &&& (rejection is None) == check_allows(
                    record_of(old(self).ips(), ip.spec_key()),
                    now,
                )
                &&& rejection matches Some(e) ==> is_too_many_requests(e)
                &&& final(self).ips() == old(self).ips().insert(
                    ip.spec_key(),
                    record_after_check(record_of(old(self).ips(), ip.spec_key()), now),
                )
                &&& final(self).open_challenges() == old(self).open_challenges()
            },
    {
        if starts_with(path, "/api/captcha/") {
            return None;
        }
        if self.check(ip, now) {
            None
        } else {
            Some(
                ApiError {
                    error: String::from_str("too_many_requests"),
                    captcha_required: true,
                },
            )
        }
    }
}

/// The client address of a request: the `fly-client-ip` header when it holds
/// an address, else the first entry of `x-forwarded-for` when that holds one,
/// else the peer address of the connection.
pub fn extract_ip(fly_client_ip: Option<ClientIp>, forwarded_for: Option<ClientIp>, peer: ClientIp)
    -> (ip: ClientIp)
    ensures
        ip == (match fly_client_ip {
            Some(a) => a,
            None => match forwarded_for {
                Some(b) => b,
                None => peer,
            },
        }),
{
    match fly_client_ip {
        Some(a) => a,
        None => match forwarded_for {
            Some(b) => b,
            None => peer,
        },
    }
}

/// The part of `cs` before its first comma (all of it when there is none).
pub open spec fn before_first_comma(cs: Seq<char>) -> Seq<char>
    decreases cs.len(),
{
    if cs.len() == 0 {
        cs
    } else if cs[0] == ',' {
        Seq::empty()
    } else {
        seq![cs[0]] + before_first_comma(cs.drop_first())
    }
}

/// The first entry of an `x-forwarded-for` value, trimmed: the text that
/// is parsed as the client address.
pub fn first_forwarded_entry(value: &str) -> (entry: String)
    ensures
        entry@ == trim(before_first_comma(value@)),
{
    let cs = chars_of(value);
    let mut i: usize = 0;
    while i < cs.len() && cs[i] != ','
        invariant
            i <= cs@.len(),
            cs@ == value@,
            forall|j: int| 0 <= j < i ==> cs@[j] != ',',
        decreases cs.len() - i,
    {
        i = i + 1;
    }
    proof {
        lemma_before_first_comma(cs@, i as int);
    }
    let head = value.substring_char(0, i);
    let t = trim_str(head);
    String::from_str(t)
}

proof fn lemma_before_first_comma(cs: Seq<char>, i: int)
    requires
        0 <= i <= cs.len(),
        forall|j: int| 0 <= j < i ==> cs[j] != ',',
        i == cs.len() || cs[i] == ',',
    ensures
        before_first_comma(cs) == cs.subrange(0, i),
    decreases cs.len(),
{
    if cs.len() == 0 {
        assert(cs.subrange(0, i) =~= cs);
    } else if i == 0 {
        assert(cs.subrange(0, 0) =~= Seq::<char>::empty());
    } else {
        let rest = cs.drop_first();
        assert forall|j: int| 0 <= j < i - 1 implies rest[j] != ',' by {
            assert(rest[j] == cs[j + 1]);
        }
        if i < cs.len() {
            assert(rest[i - 1] == cs[i]);
        }
        lemma_before_first_comma(rest, i - 1);
        assert(seq![cs[0]] + rest.subrange(0, i - 1) =~= cs.subrange(0, i));
    }
}

// ---------------------------------------------------------------------------
// Laws
// ---------------------------------------------------------------------------

/// The record after requests at each of `times`, in order.
pub open spec fn record_after_checks(r: IpRecord, times: Seq<u64>) -> IpRecord
    decreases times.len(),
{
    if times.len() == 0 {
        r
    } else {
        record_after_check(record_after_checks(r, times.drop_last()), times.last())
    }
}

proof fn lemma_prune_keeps_recent_suffix(h: Seq<u64>, now: u64, m: int)
    requires
        0 <= m <= h.len(),
        forall|i: int| h.len() - m <= i < h.len() ==> elapsed(now, #[trigger] h[i]) <= WINDOW_NANOS,
    ensures
        prune_hits(h, now).len() >= m,
        prune_hits(h, now).subrange(prune_hits(h, now).len() - m, prune_hits(h, now).len() as int)
            == h.subrange(h.len() - m, h.len() as int),
    decreases h.len(),
{
    if h.len() > 0 && elapsed(now, h[0]) > WINDOW_NANOS {
        let rest = h.drop_first();
        assert(m < h.len());
        assert forall|i: int| rest.len() - m <= i < rest.len() implies elapsed(
            now,
            #[trigger] rest[i],
        ) <= WINDOW_NANOS by {
            assert(rest[i] == h[i + 1]);
        }
        lemma_prune_keeps_recent_suffix(rest, now, m);
        assert(rest.subrange(rest.len() - m, rest.len() as int) =~= h.subrange(
            h.len() - m,
            h.len() as int,
        ));
    }
}

proof fn lemma_burst_suffix(r: IpRecord, times: Seq<u64>, k: int)
    requires
        0 <= k <= times.len(),
        times.len() > 0,
        forall|i: int, j: int| 0 <= i <= j < times.len() ==> times[i] <= times[j],
        times.last() - times[0] <= WINDOW_NANOS,
        !is_verified_at(r, times[0]),
    ensures
        record_after_checks(r, times.take(k)).verified_until == r.verified_until,
        record_after_checks(r, times.take(k)).hits.len() >= k,
        record_after_checks(r, times.take(k)).hits.subrange(
            record_after_checks(r, times.take(k)).hits.len() - k,
            record_after_checks(r, times.take(k)).hits.len() as int,
        ) == times.take(k),
    decreases k,
{
    if k == 0 {
        assert(times.take(0) =~= Seq::<u64>::empty());
        let h = record_after_checks(r, times.take(0)).hits;
        assert(h.subrange(h.len() as int, h.len() as int) =~= Seq::<u64>::empty());
    } else {
        lemma_burst_suffix(r, times, k - 1);
        let prev = record_after_checks(r, times.take(k - 1));
        let now = times[k - 1];
        assert(times.take(k).drop_last() =~= times.take(k - 1));
        assert(times.take(k).last() == now);
        assert(times[0] <= now);
        assert(!is_verified_at(prev, now));
        let h = prev.hits;
        assert forall|i: int| h.len() - (k - 1) <= i < h.len() implies elapsed(
            now,
            #[trigger] h[i],
        ) <= WINDOW_NANOS by {
            let j = i - (h.len() - (k - 1));
            assert(h.subrange(h.len() - (k - 1), h.len() as int)[j] == h[i]);
            assert(times.take(k - 1)[j] == times[j]);
            assert(times[0] <= times[j]);
            assert(times[j] <= now);
            assert(now <= times.last());
        }
        lemma_prune_keeps_recent_suffix(h, now, k - 1);
        let p = prune_hits(h, now);
        let next = record_after_checks(r, times.take(k));
        assert(next.hits == p.push(now));
        assert(next.hits.subrange(next.hits.len() - k, next.hits.len() as int) =~= p.subrange(
            p.len() - (k - 1),
            p.len() as int,
        ).push(now));
        assert(times.take(k) =~= times.take(k - 1).push(now));
    }
}

/// More than [`MAX_REQUESTS_PER_WINDOW`] requests from one address inside one
/// window trip the captcha: when an unverified address makes eleven requests
/// whose times span at most [`WINDOW_NANOS`], the eleventh is refused,
/// whatever its earlier history.
pub proof fn law_burst_trips_captcha(r: IpRecord, times: Seq<u64>)
    requires
        times.len() == MAX_REQUESTS_PER_WINDOW + 1,
        forall|i: int, j: int| 0 <= i <= j < times.len() ==> times[i] <= times[j],
        times.last() - times[0] <= WINDOW_NANOS,
        !is_verified_at(r, times[0]),
    ensures
        !check_allows(record_after_checks(r, times.drop_last()), times.last()),
{
    let k = MAX_REQUESTS_PER_WINDOW as int;
    lemma_burst_suffix(r, times, k);
    assert(times.take(k) =~= times.drop_last());
    let prev = record_after_checks(r, times.drop_last());
    let now = times.last();
    assert(times[0] <= now);
    let h = prev.hits;
    assert forall|i: int| h.len() - k <= i < h.len() implies elapsed(now, #[trigger] h[i])
        <= WINDOW_NANOS by {
        let j = i - (h.len() - k);
        assert(h.subrange(h.len() - k, h.len() as int)[j] == h[i]);
        assert(times.take(k)[j] == times[j]);
        assert(times[0] <= times[j]);
    }
    lemma_prune_keeps_recent_suffix(h, now, k);
}

/// A solved captcha lets the address through for [`VERIFIED_TTL_NANOS`]:
/// every request in that span passes and leaves the record as it was.
pub proof fn law_solved_captcha_lets_through(t: u64, later: u64)
    requires
        t <= later,
        later < t + VERIFIED_TTL_NANOS,
        t + VERIFIED_TTL_NANOS <= u64::MAX,
    ensures
        check_allows(verified_record(t), later),
        record_after_check(verified_record(t), later) == verified_record(t),
{
}

/// A challenge is answered at most once: after any answer to a token, the
/// token is no longer open, so a second answer to it is refused.
pub proof fn law_challenge_single_use(challenges: Map<Seq<char>, (i64, u64)>, token: Seq<char>)
    ensures
        !challenges.remove(token).contains_key(token),
{
}

/// The sum of the two operands, written in decimal, is accepted as the answer
/// to a challenge.
pub proof fn law_right_answer_accepted(a: i64, b: i64)
    requires
        1 <= a < 20,
        1 <= b < 20,
    ensures
        answer_matches(decimal_int(a + b), (a + b) as i64),
{
    lemma_decimal_int_parses_back((a + b) as i64);
}

/// Cleanup never forgets an address whose captcha is still valid, nor one
/// whose last request is recent.
pub proof fn law_cleanup_keeps_active(t: Map<IpKey, IpRecord>, key: IpKey, now: u64)
    requires
        t.contains_key(key),
        is_verified_at(t[key], now) || (t[key].hits.len() > 0 && elapsed(now, t[key].hits.last())
            < IDLE_ENTRY_TTL_NANOS),
    ensures
        live_ips(t, now).contains_key(key),
        live_ips(t, now)[key] == t[key],
{
}

/// An address with fewer than [`MAX_REQUESTS_PER_WINDOW`] requests in the
/// window is let through.
pub proof fn law_quiet_address_passes(r: IpRecord, now: u64)
    requires
        prune_hits(r.hits, now).len() < MAX_REQUESTS_PER_WINDOW,
    ensures
        check_allows(r, now),
{
}

/// Distinct client addresses have distinct keys in the table of clients, so
/// every address keeps a record of its own: two addresses with one key are
/// the same address.
pub proof fn law_client_keys_distinct(a: ClientIp, b: ClientIp)
    ensures
        a.spec_key() == b.spec_key() <==> a == b,
{
}

/// A request from one address never changes whether a later request from any
/// other address is let through, nor the record that request leaves.
pub proof fn law_other_address_unaffected(
    t: Map<IpKey, IpRecord>,
    ip: ClientIp,
    other: ClientIp,
    now: u64,
    later: u64,
)
    requires
        ip != other,
    ensures
        check_allows(
            record_of(
                t.insert(ip.spec_key(), record_after_check(record_of(t, ip.spec_key()), now)),
                other.spec_key(),
            ),
            later,
        ) == check_allows(record_of(t, other.spec_key()), later),
        record_of(
            t.insert(ip.spec_key(), record_after_check(record_of(t, ip.spec_key()), now)),
            other.spec_key(),
        ) == record_of(t, other.spec_key()),
{
    law_client_keys_distinct(ip, other);
}

/// A request from one address leaves the record of every other address as it
/// was.
pub proof fn law_addresses_independent(
    t: Map<IpKey, IpRecord>,
    key: IpKey,
    other: IpKey,
    now: u64,
)
    requires
        key != other,
    ensures
        record_of(t.insert(key, record_after_check(record_of(t, key), now)), other) == record_of(
            t,
            other,
        ),
{
}

/// Whether a request made at `t` is still inside the window at `now`.
pub open spec fn in_window(now: u64, t: u64) -> bool {
    elapsed(now, t) <= WINDOW_NANOS
}

/// How many of the first `n` request times lie inside the window at `now`.
pub open spec fn count_in_window(times: Seq<u64>, now: u64, n: int) -> nat
    decreases n,
{
    if n <= 0 {
        0
    } else {
        count_in_window(times, now, n - 1) + if in_window(now, times[n - 1]) {
            1nat
        } else {
            0nat
        }
    }
}

/// Of the requests `0..=k`, how many lie inside the window at the time of
/// request `k`.
pub open spec fn recent_requests(times: Seq<u64>, k: int) -> nat {
    count_in_window(times, times[k], k + 1)
}

/// Whether the times never go backwards.
pub open spec fn nondecreasing(times: Seq<u64>) -> bool {
    forall|i: int, j: int| 0 <= i <= j < times.len() ==> times[i] <= times[j]
}

proof fn lemma_count_split(times: Seq<u64>, now: u64, lo: int, n: int)
    requires
        0 <= lo <= n <= times.len(),
        forall|j: int| 0 <= j < lo ==> !in_window(now, #[trigger] times[j]),
        forall|j: int| lo <= j < n ==> in_window(now, #[trigger] times[j]),
    ensures
        count_in_window(times, now, n) == n - lo,
    decreases n,
{
    if n > lo {
        lemma_count_split(times, now, lo, n - 1);
    } else if n > 0 {
        lemma_count_split(times, now, n - 1, n - 1);
    }
}

proof fn lemma_prune_drops_prefix(h: Seq<u64>, now: u64, m: int)
    requires
        0 <= m <= h.len(),
        forall|i: int| 0 <= i < m ==> elapsed(now, #[trigger] h[i]) > WINDOW_NANOS,
        m == h.len() || elapsed(now, h[m]) <= WINDOW_NANOS,
    ensures
        prune_hits(h, now) == h.subrange(m, h.len() as int),
    decreases m,
{
    if m == 0 {
        assert(h.subrange(0, h.len() as int) =~= h);
    } else {
        let rest = h.drop_first();
        assert forall|i: int| 0 <= i < m - 1 implies elapsed(now, #[trigger] rest[i])
            > WINDOW_NANOS by {
            assert(rest[i] == h[i + 1]);
        }
        if m - 1 < rest.len() {
            assert(rest[m - 1] == h[m]);
        }
        assert(elapsed(now, h[0]) > WINDOW_NANOS);
        lemma_prune_drops_prefix(rest, now, m - 1);
        assert(rest.subrange(m - 1, rest.len() as int) =~= h.subrange(m, h.len() as int));
    }
}

/// The first index from `lo` (below `n`) whose time lies inside the window at
/// `now`, or `n` when there is none.
pub open spec fn first_in_window(times: Seq<u64>, now: u64, lo: int, n: int) -> int
    decreases n - lo,
{
    if lo >= n {
        n
    } else if in_window(now, times[lo]) {
        lo
    } else {
        first_in_window(times, now, lo + 1, n)
    }
}

proof fn lemma_first_in_window(times: Seq<u64>, now: u64, lo: int, n: int)
    requires
        0 <= lo <= n <= times.len(),
    ensures
        lo <= first_in_window(times, now, lo, n) <= n,
        forall|j: int|
            lo <= j < first_in_window(times, now, lo, n) ==> !in_window(now, #[trigger] times[j]),
        first_in_window(times, now, lo, n) < n ==> in_window(
            now,
            times[first_in_window(times, now, lo, n)],
        ),
    decreases n - lo,
{
    if lo < n && !in_window(now, times[lo]) {
        lemma_first_in_window(times, now, lo + 1, n);
    }
}

/// One more request at `times[k]`, from hits `times[lo..k]` whose earlier
/// requests are all outside the window: the hits kept are `times[lo2..k]`,
/// every earlier request is outside the window at `times[k]` and every later
/// one inside.
proof fn lemma_window_step(times: Seq<u64>, lo: int, k: int) -> (lo2: int)
    requires
        nondecreasing(times),
        0 <= lo <= k < times.len(),
        k > 0 ==> forall|j: int| 0 <= j < lo ==> !in_window(times[k - 1], #[trigger] times[j]),
    ensures
        lo <= lo2 <= k,
        prune_hits(times.subrange(lo, k), times[k]) == times.subrange(lo2, k),
        forall|j: int| 0 <= j < lo2 ==> !in_window(times[k], #[trigger] times[j]),
        forall|j: int| lo2 <= j <= k ==> in_window(times[k], #[trigger] times[j]),
{
    let now = times[k];
    lemma_first_in_window(times, now, lo, k);
    let lo2 = first_in_window(times, now, lo, k);
    let h = times.subrange(lo, k);
    assert forall|i: int| 0 <= i < lo2 - lo implies elapsed(now, #[trigger] h[i])
        > WINDOW_NANOS by {
        assert(h[i] == times[lo + i]);
        assert(!in_window(now, times[lo + i]));
    }
    if lo2 < k {
        assert(h[lo2 - lo] == times[lo2]);
    }
    lemma_prune_drops_prefix(h, now, lo2 - lo);
    assert(h.subrange(lo2 - lo, h.len() as int) =~= times.subrange(lo2, k));
    assert forall|j: int| 0 <= j < lo2 implies !in_window(now, #[trigger] times[j]) by {
        if j < lo {
            assert(times[k - 1] <= now);
            assert(times[j] <= times[k - 1]);
            assert(!in_window(times[k - 1], times[j]));
        }
    }
    assert forall|j: int| lo2 <= j <= k implies in_window(now, #[trigger] times[j]) by {
        assert(times[j] <= now);
        if j < k {
            assert(times[lo2] <= times[j]);
            assert(in_window(now, times[lo2]));
        }
    }
    lo2
}

/// After `k` requests at nondecreasing times from a record with no hits that
/// is never verified at those times, the hits are the last requests
/// `times[lo..k]`, and the earlier ones lie outside the window at the time of
/// request `k - 1`.
proof fn lemma_window_state(r: IpRecord, times: Seq<u64>, k: int) -> (lo: int)
    requires
        r.hits.len() == 0,
        nondecreasing(times),
        0 <= k <= times.len(),
        forall|i: int| 0 <= i < times.len() ==> !is_verified_at(r, #[trigger] times[i]),
    ensures
        0 <= lo <= k,
        record_after_checks(r, times.take(k)).hits == times.subrange(lo, k),
        record_after_checks(r, times.take(k)).verified_until == r.verified_until,
        k > 0 ==> forall|j: int| 0 <= j < lo ==> !in_window(times[k - 1], #[trigger] times[j]),
    decreases k,
{
    if k == 0 {
        assert(times.take(0) =~= Seq::<u64>::empty());
        assert(times.subrange(0, 0) =~= r.hits);
        0
    } else {
        let lo = lemma_window_state(r, times, k - 1);
        let lo2 = lemma_window_step(times, lo, k - 1);
        let prev = record_after_checks(r, times.take(k - 1));
        assert(times.take(k).drop_last() =~= times.take(k - 1));
        assert(times.take(k).last() == times[k - 1]);
        assert(!is_verified_at(prev, times[k - 1]));
        assert(times.subrange(lo2, k - 1).push(times[k - 1]) =~= times.subrange(lo2, k));
        lo2
    }
}

/// The sliding window, counted exactly: from a record with no recent requests
/// (a new address, or one that has just solved a captcha) that is not
/// verified at any of the times, requests at nondecreasing times pass
/// exactly when at most [`MAX_REQUESTS_PER_WINDOW`] of the requests so far,
/// refused ones included and this one too, lie within [`WINDOW_NANOS`] of it.
pub proof fn law_sliding_window_count(r: IpRecord, times: Seq<u64>, k: int)
    requires
        r.hits.len() == 0,
        nondecreasing(times),
        0 <= k < times.len(),
        forall|i: int| 0 <= i < times.len() ==> !is_verified_at(r, #[trigger] times[i]),
    ensures
        check_allows(record_after_checks(r, times.take(k)), times[k]) == (recent_requests(times, k)
            <= MAX_REQUESTS_PER_WINDOW),
{
    let lo = lemma_window_state(r, times, k);
    let lo2 = lemma_window_step(times, lo, k);
    lemma_count_split(times, times[k], lo2, k + 1);
    assert(!is_verified_at(record_after_checks(r, times.take(k)), times[k]));
}

proof fn lemma_question_fixes_operands(a: i64, b: i64, a2: i64, b2: i64)
    requires
        1 <= a < 20,
        1 <= b < 20,
        1 <= a2 < 20,
        1 <= b2 < 20,
        question_text(a2, b2) == question_text(a, b),
    ensures
        a2 == a,
        b2 == b,
{
    reveal_strlit(" + ");
    reveal_strlit(" = ?");
    lemma_decimal_digits_read_back(a as nat);
    lemma_decimal_digits_read_back(b as nat);
    lemma_decimal_digits_read_back(a2 as nat);
    lemma_decimal_digits_read_back(b2 as nat);
    let da = decimal_int(a as int);
    let db = decimal_int(b as int);
    let da2 = decimal_int(a2 as int);
    let db2 = decimal_int(b2 as int);
    let plus = " + "@;
    let tail = " = ?"@;
    assert(question_text(a, b) =~= da + (plus + db + tail));
    assert(question_text(a2, b2) =~= da2 + (plus + db2 + tail));
    assert((plus + db + tail)[0] == ' ');
    assert((plus + db2 + tail)[0] == ' ');
    lemma_digit_run_unique(da, plus + db + tail, da2, plus + db2 + tail);
    assert(plus + db + tail =~= plus + (db + tail));
    assert(plus + db2 + tail =~= plus + (db2 + tail));
    assert((plus + (db + tail)).skip(3) =~= db + tail);
    assert((plus + (db2 + tail)).skip(3) =~= db2 + tail);
    assert(db + tail == db2 + tail);
    assert(tail[0] == ' ');
    lemma_digit_run_unique(db, tail, db2, tail);
}

/// The captcha round trip: a client that reads a challenge's question knows
/// its operands exactly, and its sum written in decimal, with any whitespace
/// around it, is accepted for the challenge's token. The address answering at
/// `answered` then has no recent requests, is verified until
/// [`VERIFIED_TTL_NANOS`] later, and every request until then passes.
pub proof fn law_challenge_round_trip(
    challenges: Map<Seq<char>, (i64, u64)>,
    token: Seq<char>,
    a: i64,
    b: i64,
    issued: u64,
    a_read: i64,
    b_read: i64,
    pad_left: Seq<char>,
    pad_right: Seq<char>,
    answered: u64,
    later: u64,
)
    requires
        answered <= later,
        later < answered + VERIFIED_TTL_NANOS,
        answered + VERIFIED_TTL_NANOS <= u64::MAX,
        1 <= a < 20,
        1 <= b < 20,
        1 <= a_read < 20,
        1 <= b_read < 20,
        question_text(a_read, b_read) == question_text(a, b),
        forall|i: int| 0 <= i < pad_left.len() ==> is_white_space(#[trigger] pad_left[i]),
        forall|i: int| 0 <= i < pad_right.len() ==> is_white_space(#[trigger] pad_right[i]),
    ensures
        a_read == a && b_read == b,
        challenges.insert(token, ((a + b) as i64, issued)).contains_key(token),
        answer_matches(
            pad_left + decimal_int(a_read + b_read) + pad_right,
            challenges.insert(token, ((a + b) as i64, issued))[token].0,
        ),
        verified_record(answered).hits.len() == 0,
        verified_record(answered).verified_until == Some((answered + VERIFIED_TTL_NANOS) as u64),
        check_allows(verified_record(answered), later),
        record_after_check(verified_record(answered), later) == verified_record(answered),
{
    lemma_question_fixes_operands(a, b, a_read, b_read);
    lemma_decimal_int_parses_back((a + b) as i64);
    lemma_trim_padded(pad_left, decimal_int(a + b), pad_right);
}

} // verus!
