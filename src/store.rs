use std::collections::HashMap;
use vstd::prelude::*;

verus! {

broadcast use vstd::std_specs::hash::group_hash_axioms;

/// Which issued token identifiers may still be used, each with the time at
/// which its record lapses.
pub struct InvalidationStore {
    records: HashMap<u64, u64>,
}

/// A record for `token_id` is present and has not lapsed at `now`.
pub open spec fn is_live(m: Map<u64, u64>, token_id: u64, now: u64) -> bool {
    m.contains_key(token_id) && now <= m[token_id]
}

impl View for InvalidationStore {
    type V = Map<u64, u64>;

    closed spec fn view(&self) -> Map<u64, u64> {
        self.records@
    }
}

impl InvalidationStore {
    pub fn new() -> (r: InvalidationStore)
        ensures
            r@ == Map::<u64, u64>::empty(),
    {
        InvalidationStore { records: HashMap::new() }
    }

    /// Records `token_id` as issued and unused until `expires_at`; a record
    /// already held for it is replaced.
    pub fn record(&mut self, token_id: u64, expires_at: u64)
        ensures
            final(self)@ == old(self)@.insert(token_id, expires_at),
    {
        self.records.insert(token_id, expires_at);
    }

    /// Whether `token_id` could still be consumed at `now`.
    pub fn is_live(&self, token_id: u64, now: u64) -> (r: bool)
        ensures
            r == is_live(self@, token_id, now),
    {
        match self.records.get(&token_id) {
            Some(exp) => now <= *exp,
            None => false,
        }
    }

    /// Checks and removes the record of `token_id` in one step. True only
    /// when a live record was there; a lapsed or missing record gives false.
    /// Either way no record of `token_id` is left.
    pub fn consume(&mut self, token_id: u64, now: u64) -> (r: bool)
        ensures
            r == is_live(old(self)@, token_id, now),
            final(self)@ == old(self)@.remove(token_id),
    {
        match self.records.remove(&token_id) {
            Some(exp) => now <= exp,
            None => false,
        }
    }

    /// Drops the record of `token_id`, used or not.
    pub fn forget(&mut self, token_id: u64)
        ensures
            final(self)@ == old(self)@.remove(token_id),
    {
        self.records.remove(&token_id);
    }
}

/// A recorded token is consumed once: the first consumption within its
/// lifetime succeeds, and once consumed its identifier is gone, so that
/// every later consumption fails, whatever else is recorded or consumed
/// in between, until the same identifier is recorded anew.
pub proof fn lemma_consume_once(m: Map<u64, u64>, token_id: u64, expires_at: u64, now: u64)
    requires
        now <= expires_at,
    ensures
        is_live(m.insert(token_id, expires_at), token_id, now),
        !m.insert(token_id, expires_at).remove(token_id).contains_key(token_id),
{
}

/// Once an identifier has no record, consuming it fails, and neither
/// consuming nor recording other identifiers brings it back.
pub proof fn lemma_absent_stays_absent(m: Map<u64, u64>, token_id: u64, other: u64, exp: u64, now: u64)
    requires
        !m.contains_key(token_id),
        other != token_id,
    ensures
        !is_live(m, token_id, now),
        !m.remove(token_id).contains_key(token_id),
        !m.remove(other).contains_key(token_id),
        !m.insert(other, exp).contains_key(token_id),
{
}

} // verus!
