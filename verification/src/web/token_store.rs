//! One-time tokens: each is good for one path, for a short time, and once.

use vstd::prelude::*;
use vstd::string::*;
use crate::text::{chars_of, is_text, string_of};

verus! {

/// How long a token is good for, in milliseconds.
pub const TOKEN_TTL_MILLIS: u64 = 15000;

/// How many tokens are kept at most.
pub const MAX_TOKENS: usize = 3;

/// A token that was handed out: when it expires, and the path it is good for.
pub struct TokenEntry {
    pub token: String,
    /// The time from which the token is no longer good, in milliseconds.
    pub expires_at: u64,
    pub expected_path: String,
}

/// The texts and the expiry of a `TokenEntry`.
pub struct TokenView {
    pub token: Seq<char>,
    pub expires_at: u64,
    pub expected_path: Seq<char>,
}

impl View for TokenEntry {
    type V = TokenView;

    open spec fn view(&self) -> TokenView {
        TokenView {
            token: self.token@,
            expires_at: self.expires_at,
            expected_path: self.expected_path@,
        }
    }
}

/// What a list of entries holds.
pub open spec fn token_views(entries: Seq<TokenEntry>) -> Seq<TokenView> {
    Seq::new(entries.len(), |i: int| entries[i]@)
}

/// No token occurs twice.
pub open spec fn distinct_tokens(entries: Seq<TokenView>) -> bool {
    forall|i: int, j: int|
        0 <= i < j < entries.len() ==> (#[trigger] entries[i]).token != (#[trigger] entries[j]).token
}

/// The entries that are still good at `now`, in order.
pub open spec fn live_tokens(entries: Seq<TokenView>, now: u64) -> Seq<TokenView> {
    entries.filter(|e: TokenView| e.expires_at > now)
}

/// The entries for tokens other than `token`, in order.
pub open spec fn other_tokens(entries: Seq<TokenView>, token: Seq<char>) -> Seq<TokenView> {
    entries.filter(|e: TokenView| e.token != token)
}

/// The index of the entry that expires soonest: of the first such entry
/// where several expire together. Zero for an empty list.
pub open spec fn soonest(entries: Seq<TokenView>) -> int
    decreases entries.len(),
{
    if entries.len() <= 1 {
        0
    } else {
        let i = soonest(entries.drop_last());
        if entries.last().expires_at < entries[i].expires_at {
            entries.len() - 1
        } else {
            i
        }
    }
}

/// The entries after those that expire soonest were dropped, one by one,
/// until no more than `MAX_TOKENS` are left.
pub open spec fn within_capacity(entries: Seq<TokenView>) -> Seq<TokenView>
    decreases entries.len(),
{
    if entries.len() > MAX_TOKENS {
        proof {
            lemma_soonest(entries);
        }
        within_capacity(entries.remove(soonest(entries)))
    } else {
        entries
    }
}

/// When a token issued at `now` expires: `TOKEN_TTL_MILLIS` later, and at
/// the end of time where that lies beyond it.
pub open spec fn expiry(now: u64) -> u64 {
    if now + TOKEN_TTL_MILLIS > u64::MAX {
        u64::MAX
    } else {
        (now + TOKEN_TTL_MILLIS) as u64
    }
}

/// The entries after `token` was issued for `path` at `now`: the entries
/// still good then, without an earlier one for the same token, then the new
/// one, cut down to `MAX_TOKENS`.
pub open spec fn issued(entries: Seq<TokenView>, token: Seq<char>, path: Seq<char>, now: u64) -> Seq<
    TokenView,
> {
    within_capacity(
        other_tokens(live_tokens(entries, now), token).push(
            TokenView { token, expires_at: expiry(now), expected_path: path },
        ),
    )
}

/// The entries after `token` was presented at `now`: the entries still good
/// then, without the one for the token.
pub open spec fn consumed(entries: Seq<TokenView>, token: Seq<char>, now: u64) -> Seq<TokenView> {
    other_tokens(live_tokens(entries, now), token)
}

/// Whether an entry binds `token` to `path`.
pub open spec fn token_bound(entries: Seq<TokenView>, token: Seq<char>, path: Seq<char>) -> bool {
    exists|i: int|
        0 <= i < entries.len() && (#[trigger] entries[i]).token == token && entries[i].expected_path
            == path
}

/// Whether `token` is accepted for `path` at `now`: an entry that is still
/// good binds it to that path.
pub open spec fn accepts(entries: Seq<TokenView>, token: Seq<char>, path: Seq<char>, now: u64) -> bool {
    token_bound(live_tokens(entries, now), token, path)
}

/// A point in time of the monotonic clock; nothing is read from it but the
/// time that has passed since.
#[verifier::external_type_specification]
#[verifier::external_body]
pub struct ExInstant(std::time::Instant);

/// Calls `Instant::now`. Nothing is promised of the time.
#[verifier::external_body]
fn clock_start() -> (r: std::time::Instant) {
    std::time::Instant::now()
}

/// Calls `Instant::elapsed` and gives the time in milliseconds. Nothing is
/// promised of the time.
#[verifier::external_body]
fn clock_millis(start: &std::time::Instant) -> (r: u64) {
    start.elapsed().as_millis() as u64
}

/// The error of the random number generators of `rand`; nothing is read
/// from it.
#[verifier::external_type_specification]
#[verifier::external_body]
pub struct ExRandError(rand::Error);

/// Asks the operating system's random number generator for sixteen bytes,
/// by `try_fill_bytes` of `rand::rngs::OsRng`. Nothing is promised of the
/// bytes, nor that there are any to be had.
#[verifier::external_body]
fn random_bytes() -> (r: Result<[u8; 16], rand::Error>) {
    let mut bytes = [0u8; 16];
    match rand::RngCore::try_fill_bytes(&mut rand::rngs::OsRng, &mut bytes) {
        Ok(()) => Ok(bytes),
        Err(e) => Err(e),
    }
}

/// The lower-case hexadecimal digit for a value below sixteen.
pub open spec fn hex_lower(d: int) -> char {
    if d < 10 {
        (0x30 + d) as u8 as char
    } else {
        (0x61 + d - 10) as u8 as char
    }
}

/// Bytes in hexadecimal: two lower-case digits for each.
pub open spec fn hex_of(bytes: Seq<u8>) -> Seq<char>
    decreases bytes.len(),
{
    if bytes.len() == 0 {
        Seq::empty()
    } else {
        hex_of(bytes.drop_last()) + seq![
            hex_lower(bytes.last() as int / 16),
            hex_lower(bytes.last() as int % 16),
        ]
    }
}

fn hex_digit(d: u8) -> (c: char)
    requires
        d < 16,
    ensures
        c == hex_lower(d as int),
{
    if d < 10 {
        (0x30u8 + d) as char
    } else {
        (0x61u8 + d - 10) as char
    }
}

/// Bytes in hexadecimal: two lower-case digits for each.
pub fn hex_encode(bytes: &[u8]) -> (r: String)
    ensures
        r@ == hex_of(bytes@),
{
    let mut out: Vec<char> = Vec::new();
    let mut i: usize = 0;
    while i < bytes.len()
        invariant
            i <= bytes.len(),
            out@ == hex_of(bytes@.take(i as int)),
        decreases bytes.len() - i,
    {
        let b = bytes[i];
        out.push(hex_digit(b / 16));
        out.push(hex_digit(b % 16));
        assert(bytes@.take(i + 1).drop_last() == bytes@.take(i as int));
        assert(out@ =~= hex_of(bytes@.take(i + 1)));
        i += 1;
    }
    assert(bytes@.take(bytes.len() as int) == bytes@);
    string_of(out.as_slice())
}

/// Filtering a list keeps its tokens distinct.
pub proof fn lemma_filter_keeps_distinct(entries: Seq<TokenView>, pred: spec_fn(TokenView) -> bool)
    requires
        distinct_tokens(entries),
    ensures
        distinct_tokens(entries.filter(pred)),
    decreases entries.len(),
{
    reveal(Seq::filter);
    if entries.len() > 0 {
        let rest = entries.drop_last();
        lemma_filter_keeps_distinct(rest, pred);
        let kept = rest.filter(pred);
        assert forall|i: int| 0 <= i < kept.len() implies (#[trigger] kept[i]).token
            != entries.last().token by {
            rest.lemma_filter_contains_rev(pred, kept[i]);
            let k = choose|k: int| 0 <= k < rest.len() && rest[k] == kept[i];
            assert(entries[k] == rest[k]);
        }
    }
}

/// The entry that expires soonest exists, and none expires before it.
pub proof fn lemma_soonest(entries: Seq<TokenView>)
    requires
        entries.len() > 0,
    ensures
        0 <= soonest(entries) < entries.len(),
        forall|j: int|
            0 <= j < entries.len() ==> entries[soonest(entries)].expires_at <= (
            #[trigger] entries[j]).expires_at,
    decreases entries.len(),
{
    if entries.len() > 1 {
        let rest = entries.drop_last();
        lemma_soonest(rest);
        assert forall|j: int| 0 <= j < entries.len() implies entries[soonest(
            entries,
        )].expires_at <= (#[trigger] entries[j]).expires_at by {
            if j < rest.len() {
                assert(entries[j] == rest[j]);
            }
        }
    }
}

/// Cutting a list down leaves at most `MAX_TOKENS` entries, each of them an
/// entry of the list, and keeps tokens distinct.
pub proof fn lemma_within_capacity(entries: Seq<TokenView>)
    ensures
        within_capacity(entries).len() <= MAX_TOKENS,
        entries.len() <= MAX_TOKENS ==> within_capacity(entries) == entries,
        forall|i: int|
            0 <= i < within_capacity(entries).len() ==> entries.contains(
                #[trigger] within_capacity(entries)[i],
            ),
        distinct_tokens(entries) ==> distinct_tokens(within_capacity(entries)),
    decreases entries.len(),
{
    if entries.len() > MAX_TOKENS {
        lemma_soonest(entries);
        let k = soonest(entries);
        let rest = entries.remove(k);
        lemma_within_capacity(rest);
        assert forall|i: int| 0 <= i < rest.len() implies entries.contains(#[trigger] rest[i]) by {
            if i < k {
                assert(rest[i] == entries[i]);
            } else {
                assert(rest[i] == entries[i + 1]);
            }
        }
        assert forall|i: int| 0 <= i < within_capacity(entries).len() implies entries.contains(
            #[trigger] within_capacity(entries)[i],
        ) by {
            let e = within_capacity(rest)[i];
            assert(rest.contains(e));
            let j = choose|j: int| 0 <= j < rest.len() && rest[j] == e;
            assert(entries.contains(rest[j]));
        }
        if distinct_tokens(entries) {
            assert forall|i: int, j: int| 0 <= i < j < rest.len() implies (#[trigger] rest[i]).token
                != (#[trigger] rest[j]).token by {
                let a = if i < k {
                    i
                } else {
                    i + 1
                };
                let b = if j < k {
                    j
                } else {
                    j + 1
                };
                assert(rest[i] == entries[a] && rest[j] == entries[b]);
            }
        }
    }
}

/// Issuing a token keeps tokens distinct and at most `MAX_TOKENS` entries.
pub proof fn lemma_issued_is_well_formed(
    entries: Seq<TokenView>,
    token: Seq<char>,
    path: Seq<char>,
    now: u64,
)
    requires
        distinct_tokens(entries),
    ensures
        distinct_tokens(issued(entries, token, path, now)),
        issued(entries, token, path, now).len() <= MAX_TOKENS,
{
    let live = live_tokens(entries, now);
    lemma_filter_keeps_distinct(entries, |e: TokenView| e.expires_at > now);
    lemma_filter_keeps_distinct(live, |e: TokenView| e.token != token);
    let clean = other_tokens(live, token);
    let new = TokenView { token, expires_at: expiry(now), expected_path: path };
    let all = clean.push(new);
    assert forall|i: int, j: int| 0 <= i < j < all.len() implies (#[trigger] all[i]).token != (
    #[trigger] all[j]).token by {
        if j == clean.len() {
            live.lemma_filter_pred(|e: TokenView| e.token != token, i);
        }
    }
    lemma_within_capacity(all);
}

fn copy_entry(e: &TokenEntry) -> (r: TokenEntry)
    ensures
        r@ == e@,
{
    TokenEntry {
        token: e.token.clone(),
        expires_at: e.expires_at,
        expected_path: e.expected_path.clone(),
    }
}

fn keep_live(entries: &Vec<TokenEntry>, now: u64) -> (r: Vec<TokenEntry>)
    ensures
        token_views(r@) == live_tokens(token_views(entries@), now),
{
    let ghost all = token_views(entries@);
    let ghost pred = |e: TokenView| e.expires_at > now;
    let mut r: Vec<TokenEntry> = Vec::new();
    let mut i: usize = 0;
    proof {
        reveal(Seq::filter);
        assert(token_views(r@) =~= all.take(0).filter(pred));
    }
    while i < entries.len()
        invariant
            i <= entries.len(),
            all == token_views(entries@),
            pred == (|e: TokenView| e.expires_at > now),
            token_views(r@) == all.take(i as int).filter(pred),
        decreases entries.len() - i,
    {
        proof {
            reveal(Seq::filter);
            assert(all.take(i + 1).drop_last() == all.take(i as int));
            assert(all.take(i + 1).last() == entries@[i as int]@);
        }
        if entries[i].expires_at > now {
            let ghost before = token_views(r@);
            r.push(copy_entry(&entries[i]));
            assert(token_views(r@) =~= before.push(entries@[i as int]@));
        }
        i += 1;
    }
    assert(all.take(entries.len() as int) == all);
    r
}

fn drop_token(entries: &Vec<TokenEntry>, token: &str) -> (r: Vec<TokenEntry>)
    ensures
        token_views(r@) == other_tokens(token_views(entries@), token@),
{
    let ghost all = token_views(entries@);
    let ghost pred = |e: TokenView| e.token != token@;
    let mut r: Vec<TokenEntry> = Vec::new();
    let mut i: usize = 0;
    proof {
        reveal(Seq::filter);
        assert(token_views(r@) =~= all.take(0).filter(pred));
    }
    while i < entries.len()
        invariant
            i <= entries.len(),
            all == token_views(entries@),
            pred == (|e: TokenView| e.token != token@),
            token_views(r@) == all.take(i as int).filter(pred),
        decreases entries.len() - i,
    {
        proof {
            reveal(Seq::filter);
            assert(all.take(i + 1).drop_last() == all.take(i as int));
            assert(all.take(i + 1).last() == entries@[i as int]@);
        }
        if !is_text(chars_of(entries[i].token.as_str()).as_slice(), token) {
            let ghost before = token_views(r@);
            r.push(copy_entry(&entries[i]));
            assert(token_views(r@) =~= before.push(entries@[i as int]@));
        }
        i += 1;
    }
    assert(all.take(entries.len() as int) == all);
    r
}

fn soonest_index(entries: &Vec<TokenEntry>) -> (k: usize)
    requires
        entries.len() > 0,
    ensures
        k == soonest(token_views(entries@)),
        k < entries.len(),
{
    let ghost all = token_views(entries@);
    let mut k: usize = 0;
    let mut i: usize = 1;
    assert(all.take(1).len() == 1);
    while i < entries.len()
        invariant
            1 <= i <= entries.len(),
            k < i,
            all == token_views(entries@),
            k == soonest(all.take(i as int)),
        decreases entries.len() - i,
    {
        assert(all.take(i + 1).drop_last() == all.take(i as int));
        assert(all.take(i + 1).last() == entries@[i as int]@);
        assert(all.take(i + 1)[k as int] == entries@[k as int]@);
        if entries[i].expires_at < entries[k].expires_at {
            k = i;
        }
        i += 1;
    }
    assert(all.take(entries.len() as int) == all);
    k
}

fn cut_to_capacity(entries: &mut Vec<TokenEntry>)
    ensures
        token_views(final(entries)@) == within_capacity(token_views(old(entries)@)),
{
    while entries.len() > MAX_TOKENS
        invariant
            within_capacity(token_views(entries@)) == within_capacity(token_views(old(entries)@)),
        decreases entries.len(),
    {
        let k = soonest_index(entries);
        let ghost before = token_views(entries@);
        entries.remove(k);
        assert(token_views(entries@) =~= before.remove(k as int));
    }
}

fn is_bound(entries: &Vec<TokenEntry>, token: &str, path: &str) -> (r: bool)
    ensures
        r == token_bound(token_views(entries@), token@, path@),
{
    let mut i: usize = 0;
    while i < entries.len()
        invariant
            i <= entries.len(),
            forall|j: int|
                0 <= j < i ==> !((#[trigger] token_views(entries@)[j]).token == token@
                    && token_views(entries@)[j].expected_path == path@),
        decreases entries.len() - i,
    {
        if is_text(chars_of(entries[i].token.as_str()).as_slice(), token) && is_text(
            chars_of(entries[i].expected_path.as_str()).as_slice(),
            path,
        ) {
            assert(token_views(entries@)[i as int].token == token@);
            return true;
        }
        i += 1;
    }
    false
}

/// Whether a text has the form of a new token: sixteen bytes in hexadecimal.
pub open spec fn is_fresh_token(token: Seq<char>) -> bool {
    exists|bytes: Seq<u8>| bytes.len() == 16 && token == hex_of(bytes)
}

/// The tokens that were handed out and are not yet used up, and the clock
/// that their expiry is read from.
pub struct TokenStore {
    entries: Vec<TokenEntry>,
    started: std::time::Instant,
}

impl View for TokenStore {
    type V = Seq<TokenView>;

    closed spec fn view(&self) -> Seq<TokenView> {
        token_views(self.entries@)
    }
}

impl TokenStore {
    /// What every store holds to: no token occurs twice, and there are at
    /// most `MAX_TOKENS` of them.
    pub open spec fn wf(&self) -> bool {
        distinct_tokens(self@) && self@.len() <= MAX_TOKENS
    }

    /// A store without tokens, whose clock starts now.
    pub fn new() -> (r: TokenStore)
        ensures
            r.wf(),
            r@ == Seq::<TokenView>::empty(),
    {
        let r = TokenStore { entries: Vec::new(), started: clock_start() };
        assert(r@ =~= Seq::<TokenView>::empty());
        r
    }

    /// The time on the store's clock, in milliseconds since the store was made.
    pub(crate) fn now(&self) -> (r: u64) {
        clock_millis(&self.started)
    }

    /// How many tokens the store holds.
    pub fn len(&self) -> (r: usize)
        ensures
            r == self@.len(),
    {
        self.entries.len()
    }

    /// Binds `token` to `expected_path` from `now` on for `TOKEN_TTL_MILLIS`.
    /// Tokens that have expired by `now` are dropped first, and an earlier
    /// entry for the same token; where more than `MAX_TOKENS` would be held,
    /// those that expire soonest are dropped.
    pub fn issue_at(&mut self, token: String, expected_path: &str, now: u64)
        requires
            old(self).wf(),
        ensures
            final(self).wf(),
            final(self)@ == issued(old(self)@, token@, expected_path@, now),
    {
        let live = keep_live(&self.entries, now);
        let mut next = drop_token(&live, token.as_str());
        let expires_at: u64 = if now > u64::MAX - TOKEN_TTL_MILLIS {
            u64::MAX
        } else {
            now + TOKEN_TTL_MILLIS
        };
        let ghost before = token_views(next@);
        next.push(TokenEntry { token, expires_at, expected_path: expected_path.to_string() });
        assert(token_views(next@) =~= before.push(
            TokenView { token: token@, expires_at: expiry(now), expected_path: expected_path@ },
        ));
        cut_to_capacity(&mut next);
        proof {
            lemma_issued_is_well_formed(old(self)@, token@, expected_path@, now);
        }
        self.entries = next;
    }

    /// Presents `token` for `expected_path` at `now`. It is accepted where
    /// an entry that has not expired binds it to that very path. Accepted or
    /// not, the token is gone afterwards, and so are the expired ones.
    pub fn consume_at(&mut self, token: &str, expected_path: &str, now: u64) -> (r: bool)
        requires
            old(self).wf(),
        ensures
            final(self).wf(),
            r == accepts(old(self)@, token@, expected_path@, now),
            final(self)@ == consumed(old(self)@, token@, now),
    {
        let live = keep_live(&self.entries, now);
        let r = is_bound(&live, token, expected_path);
        let next = drop_token(&live, token);
        proof {
            lemma_filter_keeps_distinct(old(self)@, |e: TokenView| e.expires_at > now);
            lemma_filter_keeps_distinct(token_views(live@), |e: TokenView| e.token != token@);
            old(self)@.lemma_filter_len(|e: TokenView| e.expires_at > now);
            token_views(live@).lemma_filter_len(|e: TokenView| e.token != token@);
        }
        self.entries = next;
        r
    }

    /// Hands out the token that the random bytes make, in hexadecimal, and
    /// binds it to `expected_path` at `now` as by `issue_at`. Without random
    /// bytes no token is handed out, and the store stays as it is.
    pub fn issue_from(
        &mut self,
        random: Result<[u8; 16], rand::Error>,
        expected_path: &str,
        now: u64,
    ) -> (r: Option<String>)
        requires
            old(self).wf(),
        ensures
            final(self).wf(),
            match random {
                Ok(bytes) => r matches Some(token) && token@ == hex_of(bytes@) && final(self)@
                    == issued(old(self)@, token@, expected_path@, now),
                Err(_) => r is None && final(self)@ == old(self)@,
            },
    {
        match random {
            Ok(bytes) => {
                let token = hex_encode(bytes.as_slice());
                self.issue_at(token.clone(), expected_path, now);
                Some(token)
            },
            Err(_) => None,
        }
    }

    /// Hands out a new token for `expected_path`: sixteen random bytes in
    /// hexadecimal, bound to the path from now on as by `issue_at`. Where
    /// the system has no random bytes to give, no token is handed out.
    pub fn issue_one_time_token(&mut self, expected_path: &str) -> (r: Option<String>)
        requires
            old(self).wf(),
        ensures
            final(self).wf(),
            match r {
                Some(token) => is_fresh_token(token@) && exists|now: u64|
                    final(self)@ == issued(old(self)@, token@, expected_path@, now),
                None => final(self)@ == old(self)@,
            },
    {
        let random = random_bytes();
        let now = self.now();
        let ghost bytes = match random {
            Ok(b) => b@,
            Err(_) => Seq::empty(),
        };
        let r = self.issue_from(random, expected_path, now);
        assert(r is Some ==> bytes.len() == 16 && r->0@ == hex_of(bytes));
        r
    }

    /// Presents `token` for `expected_path` now, as by `consume_at`.
    pub fn consume_one_time_token(&mut self, token: &str, expected_path: &str) -> (r: bool)
        requires
            old(self).wf(),
        ensures
            final(self).wf(),
            exists|now: u64|
                r == accepts(old(self)@, token@, expected_path@, now) && final(self)@ == consumed(
                    old(self)@,
                    token@,
                    now,
                ),
    {
        let now = self.now();
        self.consume_at(token, expected_path, now)
    }
}

/// A store without tokens.
pub fn token_store() -> (r: TokenStore)
    ensures
        r.wf(),
        r@ == Seq::<TokenView>::empty(),
{
    TokenStore::new()
}

/// A token that was presented is not accepted again, for any path, at any
/// time.
pub proof fn lemma_token_is_used_once(
    entries: Seq<TokenView>,
    token: Seq<char>,
    first: u64,
    path: Seq<char>,
    second: u64,
)
    ensures
        !accepts(consumed(entries, token, first), token, path, second),
{
    let left = consumed(entries, token, first);
    let live = live_tokens(left, second);
    if token_bound(live, token, path) {
        let i = choose|i: int| 0 <= i < live.len() && (#[trigger] live[i]).token == token;
        left.lemma_filter_contains_rev(|e: TokenView| e.expires_at > second, live[i]);
        let k = choose|k: int| 0 <= k < left.len() && left[k] == live[i];
        live_tokens(entries, first).lemma_filter_pred(|e: TokenView| e.token != token, k);
    }
}

/// A token is accepted only for the path it was issued for: after it was
/// issued for `path`, it is not accepted for any other path, at any time.
pub proof fn lemma_token_is_bound_to_its_path(
    entries: Seq<TokenView>,
    token: Seq<char>,
    path: Seq<char>,
    issued_at: u64,
    other: Seq<char>,
    now: u64,
)
    requires
        other != path,
    ensures
        !accepts(issued(entries, token, path, issued_at), token, other, now),
{
    let clean = other_tokens(live_tokens(entries, issued_at), token);
    let new = TokenView { token, expires_at: expiry(issued_at), expected_path: path };
    let all = clean.push(new);
    let held = issued(entries, token, path, issued_at);
    let live = live_tokens(held, now);
    if token_bound(live, token, other) {
        let i = choose|i: int|
            0 <= i < live.len() && (#[trigger] live[i]).token == token && live[i].expected_path
                == other;
        held.lemma_filter_contains_rev(|e: TokenView| e.expires_at > now, live[i]);
        let k = choose|k: int| 0 <= k < held.len() && held[k] == live[i];
        lemma_within_capacity(all);
        assert(all.contains(held[k]));
        let m = choose|m: int| 0 <= m < all.len() && all[m] == held[k];
        if m < clean.len() {
            live_tokens(entries, issued_at).lemma_filter_pred(|e: TokenView| e.token != token, m);
        }
    }
}

/// Whether a token issued at `issued_at` is dropped for room at once: the
/// store is full of other tokens that are still good, and every one of them
/// expires later than the new one would. This takes a clock that has gone
/// backwards.
pub open spec fn is_crowded_out(entries: Seq<TokenView>, token: Seq<char>, issued_at: u64) -> bool {
    let others = other_tokens(live_tokens(entries, issued_at), token);
    others.len() >= MAX_TOKENS && forall|i: int|
        0 <= i < others.len() ==> (#[trigger] others[i]).expires_at > expiry(issued_at)
}

/// A token is accepted for the path it was issued for until it expires,
/// unless it was dropped for room at once.
pub proof fn lemma_issued_token_is_accepted(
    entries: Seq<TokenView>,
    token: Seq<char>,
    path: Seq<char>,
    issued_at: u64,
    now: u64,
)
    requires
        distinct_tokens(entries),
        entries.len() <= MAX_TOKENS,
        !is_crowded_out(entries, token, issued_at),
        now < expiry(issued_at),
    ensures
        accepts(issued(entries, token, path, issued_at), token, path, now),
{
    let live0 = live_tokens(entries, issued_at);
    let clean = other_tokens(live0, token);
    let new = TokenView { token, expires_at: expiry(issued_at), expected_path: path };
    let all = clean.push(new);
    let held = issued(entries, token, path, issued_at);
    entries.lemma_filter_len(|e: TokenView| e.expires_at > issued_at);
    live0.lemma_filter_len(|e: TokenView| e.token != token);
    assert(held.contains(new)) by {
        if all.len() > MAX_TOKENS {
            lemma_soonest(all);
            let k = soonest(all);
            lemma_soonest(all.drop_last());
            assert(all.drop_last() == clean);
            let i = choose|i: int|
                0 <= i < clean.len() && !((#[trigger] clean[i]).expires_at > expiry(issued_at));
            assert(clean[soonest(clean)].expires_at <= clean[i].expires_at);
            assert(k == soonest(clean));
            let rest = all.remove(k);
            assert(rest.len() == MAX_TOKENS);
            assert(rest[rest.len() - 1] == new);
            assert(within_capacity(rest) == rest);
            assert(held == rest);
        } else {
            assert(held == all);
            assert(all[all.len() - 1] == new);
        }
    }
    let pred = |e: TokenView| e.expires_at > now;
    let k = choose|k: int| 0 <= k < held.len() && held[k] == new;
    held.lemma_filter_contains(pred, k);
    let live = held.filter(pred);
    let i = choose|i: int| 0 <= i < live.len() && live[i] == new;
    assert(live[i].token == token && live[i].expected_path == path);
}

/// A token that is dropped for room at once is never accepted.
pub proof fn lemma_crowded_out_token_is_refused(
    entries: Seq<TokenView>,
    token: Seq<char>,
    path: Seq<char>,
    issued_at: u64,
    now: u64,
)
    requires
        entries.len() <= MAX_TOKENS,
        is_crowded_out(entries, token, issued_at),
    ensures
        !accepts(issued(entries, token, path, issued_at), token, path, now),
{
    let live0 = live_tokens(entries, issued_at);
    let clean = other_tokens(live0, token);
    let new = TokenView { token, expires_at: expiry(issued_at), expected_path: path };
    let all = clean.push(new);
    let held = issued(entries, token, path, issued_at);
    entries.lemma_filter_len(|e: TokenView| e.expires_at > issued_at);
    live0.lemma_filter_len(|e: TokenView| e.token != token);
    lemma_soonest(all);
    assert(all.drop_last() == clean);
    lemma_soonest(clean);
    assert(clean[soonest(clean)].expires_at > expiry(issued_at));
    assert(soonest(all) == all.len() - 1);
    assert(all.remove(all.len() - 1) == clean);
    assert(within_capacity(clean) == clean);
    assert(held == clean);
    let live = live_tokens(held, now);
    if token_bound(live, token, path) {
        let i = choose|i: int| 0 <= i < live.len() && (#[trigger] live[i]).token == token;
        held.lemma_filter_contains_rev(|e: TokenView| e.expires_at > now, live[i]);
        let k = choose|k: int| 0 <= k < held.len() && held[k] == live[i];
        live0.lemma_filter_pred(|e: TokenView| e.token != token, k);
    }
}

} // verus!
