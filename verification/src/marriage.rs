//! Marriages between players, with expiring marriage and divorce requests.
//! Times are Unix seconds supplied by the caller.
use std::collections::HashMap;
use vstd::prelude::*;

use crate::maps::{keys_of, map_get_mut};
use crate::text::{is_err_with, text};

verus! {

broadcast use vstd::std_specs::hash::group_hash_axioms;

/// How long a marriage or divorce request stays open, in seconds.
pub const REQUEST_LIFETIME_SECS: u64 = 300;

/// Seconds in a day.
pub const SECS_PER_DAY: u64 = 86400;

/// One player's side of a marriage.
#[derive(Clone, Copy, Debug)]
pub struct MarriageInfo {
    pub player_id: i32,
    pub partner_id: i32,
    pub marriage_date: u64,
    pub allow_recall: bool,
}

impl MarriageInfo {
    /// A marriage record dated `now`, with recall allowed.
    pub fn new(player_id: i32, partner_id: i32, now: u64) -> (r: Self)
        ensures
            r == (MarriageInfo { player_id, partner_id, marriage_date: now, allow_recall: true }),
    {
        MarriageInfo { player_id, partner_id, marriage_date: now, allow_recall: true }
    }

    /// The record names a partner (partner id 0 means none).
    pub fn is_married(&self) -> (r: bool)
        ensures
            r == (self.partner_id != 0),
    {
        self.partner_id != 0
    }

    /// Whole days since the wedding.
    pub fn get_marriage_duration_days(&self, now: u64) -> (r: u64)
        requires
            now >= self.marriage_date,
        ensures
            r == (now - self.marriage_date) / (SECS_PER_DAY as int),
    {
        (now - self.marriage_date) / SECS_PER_DAY
    }
}

/// A pending proposal, stored under the target's id.
#[derive(Clone, Copy, Debug)]
pub struct MarriageRequest {
    pub requester_id: i32,
    pub target_id: i32,
    pub request_time: u64,
    pub expires_at: u64,
}

impl MarriageRequest {
    /// A proposal made at `now`, open for five minutes.
    pub fn new(requester_id: i32, target_id: i32, now: u64) -> (r: Self)
        requires
            now <= u64::MAX - REQUEST_LIFETIME_SECS,
        ensures
            r == (MarriageRequest {
                requester_id,
                target_id,
                request_time: now,
                expires_at: (now + REQUEST_LIFETIME_SECS) as u64,
            }),
    {
        MarriageRequest {
            requester_id,
            target_id,
            request_time: now,
            expires_at: now + REQUEST_LIFETIME_SECS,
        }
    }

    /// The proposal has run out at `now`.
    pub fn is_expired(&self, now: u64) -> (r: bool)
        ensures
            r == (now >= self.expires_at),
    {
        now >= self.expires_at
    }
}

/// A pending divorce, stored under the partner's id.
#[derive(Clone, Copy, Debug)]
pub struct DivorceRequest {
    pub initiator_id: i32,
    pub partner_id: i32,
    pub request_time: u64,
    pub expires_at: u64,
}

impl DivorceRequest {
    /// A divorce request made at `now`, open for five minutes.
    pub fn new(initiator_id: i32, partner_id: i32, now: u64) -> (r: Self)
        requires
            now <= u64::MAX - REQUEST_LIFETIME_SECS,
        ensures
            r == (DivorceRequest {
                initiator_id,
                partner_id,
                request_time: now,
                expires_at: (now + REQUEST_LIFETIME_SECS) as u64,
            }),
    {
        DivorceRequest {
            initiator_id,
            partner_id,
            request_time: now,
            expires_at: now + REQUEST_LIFETIME_SECS,
        }
    }

    /// The divorce request has run out at `now`.
    pub fn is_expired(&self, now: u64) -> (r: bool)
        ensures
            r == (now >= self.expires_at),
    {
        now >= self.expires_at
    }
}

/// The player has a marriage record naming a partner.
pub open spec fn married_in(m: Map<i32, MarriageInfo>, p: i32) -> bool {
    m.contains_key(p) && m[p].partner_id != 0
}

/// A player's partner id, 0 when there is none.
pub open spec fn partner_in(m: Map<i32, MarriageInfo>, p: i32) -> i32 {
    if m.contains_key(p) {
        m[p].partner_id
    } else {
        0
    }
}

/// The map without the entries that have run out at `now`.
pub open spec fn live_requests(m: Map<i32, MarriageRequest>, now: u64) -> Map<i32, MarriageRequest> {
    Map::new(|k: i32| m.contains_key(k) && now < m[k].expires_at, |k: i32| m[k])
}

/// The map without the divorce requests that have run out at `now`.
pub open spec fn live_divorces(m: Map<i32, DivorceRequest>, now: u64) -> Map<i32, DivorceRequest> {
    Map::new(|k: i32| m.contains_key(k) && now < m[k].expires_at, |k: i32| m[k])
}

/// Marriages, pending proposals (by target) and pending divorces (by partner).
#[derive(Clone, Debug)]
pub struct MarriageSystem {
    marriages: HashMap<i32, MarriageInfo>,
    pending_requests: HashMap<i32, MarriageRequest>,
    pending_divorces: HashMap<i32, DivorceRequest>,
}

impl MarriageSystem {
    pub closed spec fn marriages(&self) -> Map<i32, MarriageInfo> {
        self.marriages@
    }

    pub closed spec fn proposals(&self) -> Map<i32, MarriageRequest> {
        self.pending_requests@
    }

    pub closed spec fn divorces(&self) -> Map<i32, DivorceRequest> {
        self.pending_divorces@
    }

    /// No marriages and nothing pending.
    pub fn new() -> (r: Self)
        ensures
            r.marriages() == Map::<i32, MarriageInfo>::empty(),
            r.proposals() == Map::<i32, MarriageRequest>::empty(),
            r.divorces() == Map::<i32, DivorceRequest>::empty(),
    {
        MarriageSystem {
            marriages: HashMap::new(),
            pending_requests: HashMap::new(),
            pending_divorces: HashMap::new(),
        }
    }

    /// The player has a marriage record that names a partner.
    pub fn is_married(&self, player_id: i32) -> (r: bool)
        ensures
            r == married_in(self.marriages(), player_id),
    {
        match self.marriages.get(&player_id) {
            Some(m) => m.is_married(),
            None => false,
        }
    }

    /// The player's marriage record.
    pub fn get_marriage_info(&self, player_id: i32) -> (r: Option<&MarriageInfo>)
        ensures
            match r {
                Some(m) => self.marriages().contains_key(player_id) && *m == self.marriages()[player_id],
                None => !self.marriages().contains_key(player_id),
            },
    {
        self.marriages.get(&player_id)
    }

    /// The player's partner id, 0 when the player has no record.
    pub fn get_partner_id(&self, player_id: i32) -> (r: i32)
        ensures
            r == partner_in(self.marriages(), player_id),
    {
        match self.marriages.get(&player_id) {
            Some(m) => m.partner_id,
            None => 0,
        }
    }

    /// Proposes from `requester_id` to `target_id` at `now`. Refused when
    /// either is married or the target already has a pending proposal.
    pub fn send_marriage_request(&mut self, requester_id: i32, target_id: i32, now: u64) -> (r: Result<(), String>)
        requires
            now <= u64::MAX - REQUEST_LIFETIME_SECS,
        ensures
            final(self).marriages() == old(self).marriages(),
            final(self).divorces() == old(self).divorces(),
            married_in(old(self).marriages(), requester_id) ==> is_err_with(r, "You are already married"@),
            !married_in(old(self).marriages(), requester_id) && married_in(old(self).marriages(), target_id)
                ==> is_err_with(r, "Target is already married"@),
            !married_in(old(self).marriages(), requester_id) && !married_in(old(self).marriages(), target_id)
                && old(self).proposals().contains_key(target_id)
                ==> is_err_with(r, if old(self).proposals()[target_id].requester_id == requester_id {
                    "You already sent a marriage request"@
                } else {
                    "Target has a pending marriage request"@
                }),
            r is Ok <==> (!married_in(old(self).marriages(), requester_id) && !married_in(old(self).marriages(), target_id)
                && !old(self).proposals().contains_key(target_id)),
            r is Ok ==> final(self).proposals() == old(self).proposals().insert(
                target_id,
                MarriageRequest { requester_id, target_id, request_time: now, expires_at: (now + REQUEST_LIFETIME_SECS) as u64 },
            ),
            r is Err ==> final(self).proposals() == old(self).proposals(),
    {
        if self.is_married(requester_id) {
            return Err(text("You are already married"));
        }
        if self.is_married(target_id) {
            return Err(text("Target is already married"));
        }
        match self.pending_requests.get(&target_id) {
            Some(existing) => {
                if existing.requester_id == requester_id {
                    return Err(text("You already sent a marriage request"));
                }
                return Err(text("Target has a pending marriage request"));
            },
            None => {},
        }
        let request = MarriageRequest::new(requester_id, target_id, now);
        self.pending_requests.insert(target_id, request);
        Ok(())
    }

    /// The target accepts the proposal stored under their id at `now`. The
    /// proposal is consumed whatever happens; a live proposal between two
    /// still unmarried players marries them both, dated `now`.
    pub fn accept_marriage_request(&mut self, target_id: i32, now: u64) -> (r: Result<MarriageInfo, String>)
        ensures
            final(self).divorces() == old(self).divorces(),
            final(self).proposals() == old(self).proposals().remove(target_id),
            !old(self).proposals().contains_key(target_id) ==> is_err_with(r, "No pending marriage request"@),
            ({
                let q = old(self).proposals()[target_id];
                let m = old(self).marriages();
                old(self).proposals().contains_key(target_id) ==> {
                    &&& now >= q.expires_at ==> is_err_with(r, "Request has expired"@)
                    &&& now < q.expires_at && married_in(m, q.requester_id) ==> is_err_with(r, "Requester is already married"@)
                    &&& now < q.expires_at && !married_in(m, q.requester_id) && married_in(m, target_id)
                        ==> is_err_with(r, "Target is already married"@)
                    &&& (r is Ok <==> (now < q.expires_at && !married_in(m, q.requester_id) && !married_in(m, target_id)))
                    &&& r is Ok ==> {
                        &&& r == Ok::<MarriageInfo, String>(MarriageInfo { player_id: q.requester_id, partner_id: target_id, marriage_date: now, allow_recall: true })
                        &&& final(self).marriages() == m.insert(
                            q.requester_id,
                            MarriageInfo { player_id: q.requester_id, partner_id: target_id, marriage_date: now, allow_recall: true },
                        ).insert(
                            target_id,
                            MarriageInfo { player_id: target_id, partner_id: q.requester_id, marriage_date: now, allow_recall: true },
                        )
                    }
                }
            }),
            r is Err ==> final(self).marriages() == old(self).marriages(),
    {
        let request = match self.pending_requests.remove(&target_id) {
            Some(q) => q,
            None => {
                return Err(text("No pending marriage request"));
            },
        };
        if request.is_expired(now) {
            return Err(text("Request has expired"));
        }
        if self.is_married(request.requester_id) {
            return Err(text("Requester is already married"));
        }
        if self.is_married(target_id) {
            return Err(text("Target is already married"));
        }
        let marriage1 = MarriageInfo::new(request.requester_id, target_id, now);
        let marriage2 = MarriageInfo::new(target_id, request.requester_id, now);
        self.marriages.insert(request.requester_id, marriage1);
        self.marriages.insert(target_id, marriage2);
        Ok(marriage1)
    }

    /// The target turns down the proposal stored under their id.
    pub fn decline_marriage_request(&mut self, target_id: i32) -> (r: Result<(), String>)
        ensures
            final(self).marriages() == old(self).marriages(),
            final(self).divorces() == old(self).divorces(),
            final(self).proposals() == old(self).proposals().remove(target_id),
            r is Ok <==> old(self).proposals().contains_key(target_id),
            r is Err ==> is_err_with(r, "No pending marriage request"@),
    {
        match self.pending_requests.remove(&target_id) {
            Some(_) => Ok(()),
            None => Err(text("No pending marriage request")),
        }
    }

    /// A married player asks their partner for a divorce at `now`; the
    /// request is stored under the partner's id, and the partner's id is
    /// handed back.
    pub fn send_divorce_request(&mut self, initiator_id: i32, now: u64) -> (r: Result<i32, String>)
        requires
            now <= u64::MAX - REQUEST_LIFETIME_SECS,
        ensures
            final(self).marriages() == old(self).marriages(),
            final(self).proposals() == old(self).proposals(),
            ({
                let p = partner_in(old(self).marriages(), initiator_id);
                &&& p == 0 ==> is_err_with(r, "You are not married"@)
                &&& p != 0 && old(self).divorces().contains_key(p) ==> is_err_with(r, "Divorce already in progress"@)
                &&& (r is Ok <==> (p != 0 && !old(self).divorces().contains_key(p)))
                &&& r is Ok ==> r == Ok::<i32, String>(p) && final(self).divorces() == old(self).divorces().insert(
                    p,
                    DivorceRequest { initiator_id, partner_id: p, request_time: now, expires_at: (now + REQUEST_LIFETIME_SECS) as u64 },
                )
                &&& r is Err ==> final(self).divorces() == old(self).divorces()
            }),
    {
        let partner_id = self.get_partner_id(initiator_id);
        if partner_id == 0 {
            return Err(text("You are not married"));
        }
        if self.pending_divorces.contains_key(&partner_id) {
            return Err(text("Divorce already in progress"));
        }
        let request = DivorceRequest::new(initiator_id, partner_id, now);
        self.pending_divorces.insert(partner_id, request);
        Ok(partner_id)
    }

    /// The partner accepts the divorce request stored under their id at
    /// `now`. The request is consumed whatever happens; a live one removes
    /// both marriage records and hands back (initiator, partner).
    pub fn accept_divorce_request(&mut self, partner_id: i32, now: u64) -> (r: Result<(i32, i32), String>)
        ensures
            final(self).proposals() == old(self).proposals(),
            final(self).divorces() == old(self).divorces().remove(partner_id),
            !old(self).divorces().contains_key(partner_id) ==> is_err_with(r, "No pending divorce request"@),
            ({
                let d = old(self).divorces()[partner_id];
                old(self).divorces().contains_key(partner_id) ==> {
                    &&& now >= d.expires_at ==> is_err_with(r, "Request has expired"@)
                    &&& (r is Ok <==> now < d.expires_at)
                    &&& r is Ok ==> {
                        &&& r == Ok::<(i32, i32), String>((d.initiator_id, d.partner_id))
                        &&& final(self).marriages() == old(self).marriages().remove(d.initiator_id).remove(d.partner_id)
                    }
                }
            }),
            r is Err ==> final(self).marriages() == old(self).marriages(),
    {
        let request = match self.pending_divorces.remove(&partner_id) {
            Some(d) => d,
            None => {
                return Err(text("No pending divorce request"));
            },
        };
        if request.is_expired(now) {
            return Err(text("Request has expired"));
        }
        self.marriages.remove(&request.initiator_id);
        self.marriages.remove(&request.partner_id);
        Ok((request.initiator_id, request.partner_id))
    }

    /// The partner turns down the divorce request stored under their id.
    pub fn decline_divorce_request(&mut self, partner_id: i32) -> (r: Result<(), String>)
        ensures
            final(self).marriages() == old(self).marriages(),
            final(self).proposals() == old(self).proposals(),
            final(self).divorces() == old(self).divorces().remove(partner_id),
            r is Ok <==> old(self).divorces().contains_key(partner_id),
            r is Err ==> is_err_with(r, "No pending divorce request"@),
    {
        match self.pending_divorces.remove(&partner_id) {
            Some(_) => Ok(()),
            None => Err(text("No pending divorce request")),
        }
    }

    /// A married player flips whether their partner may recall to them, and
    /// gets the new setting back.
    pub fn toggle_recall(&mut self, player_id: i32) -> (r: Result<bool, String>)
        ensures
            final(self).proposals() == old(self).proposals(),
            final(self).divorces() == old(self).divorces(),
            !married_in(old(self).marriages(), player_id) ==> {
                &&& is_err_with(r, "You are not married"@)
                &&& final(self).marriages() == old(self).marriages()
            },
            married_in(old(self).marriages(), player_id) ==> {
                let m = old(self).marriages()[player_id];
                &&& r == Ok::<bool, String>(!m.allow_recall)
                &&& final(self).marriages() == old(self).marriages().insert(
                    player_id,
                    MarriageInfo { allow_recall: !m.allow_recall, ..m },
                )
            },
    {
        if !self.is_married(player_id) {
            return Err(text("You are not married"));
        }
        match map_get_mut(&mut self.marriages, &player_id) {
            Some(marriage) => {
                marriage.allow_recall = !marriage.allow_recall;
                Ok(marriage.allow_recall)
            },
            None => Err(text("Marriage info not found")),
        }
    }

    /// `player_id` may recall to `partner_id`: the partner's record names the
    /// player and allows recall.
    pub fn can_recall_to_partner(&self, player_id: i32, partner_id: i32) -> (r: bool)
        ensures
            r == (self.marriages().contains_key(partner_id) && self.marriages()[partner_id].partner_id == player_id
                && self.marriages()[partner_id].allow_recall),
    {
        match self.marriages.get(&partner_id) {
            Some(m) => m.partner_id == player_id && m.allow_recall,
            None => false,
        }
    }

    /// Drops every proposal and divorce request that has run out at `now`.
    pub fn cleanup_expired_requests(&mut self, now: u64)
        ensures
            final(self).marriages() == old(self).marriages(),
            final(self).proposals() == live_requests(old(self).proposals(), now),
            final(self).divorces() == live_divorces(old(self).divorces(), now),
    {
        let keys = keys_of(&self.pending_requests);
        proof {
            assert forall|j: int| 0 <= j < keys@.len() implies self.pending_requests@.contains_key(#[trigger] keys@[j]) by {
                assert(keys@.contains(keys@[j]));
            }
        }
        let mut i: usize = 0;
        while i < keys.len()
            invariant
                0 <= i <= keys@.len(),
                keys@.no_duplicates(),
                forall|k: i32| keys@.contains(k) <==> old(self).pending_requests@.contains_key(k),
                self.marriages@ == old(self).marriages@,
                self.pending_divorces@ == old(self).pending_divorces@,
                forall|k: i32| #[trigger] self.pending_requests@.contains_key(k) ==> old(self).pending_requests@.contains_key(k)
                    && self.pending_requests@[k] == old(self).pending_requests@[k],
                forall|j: int| 0 <= j < i ==> {
                    let k = #[trigger] keys@[j];
                    self.pending_requests@.contains_key(k) <==> now < old(self).pending_requests@[k].expires_at
                },
                forall|j: int| i <= j < keys@.len() ==> self.pending_requests@.contains_key(#[trigger] keys@[j]),
            decreases keys@.len() - i,
        {
            let k = keys[i];
            let expired = match self.pending_requests.get(&k) {
                Some(q) => q.is_expired(now),
                None => false,
            };
            if expired {
                self.pending_requests.remove(&k);
            }
            proof {
                assert forall|j: int| i + 1 <= j < keys@.len() implies self.pending_requests@.contains_key(#[trigger] keys@[j]) by {
                    assert(keys@[j] != k);
                }
                assert forall|j: int| 0 <= j < i implies keys@[j] != k by {}
            }
            i = i + 1;
        }
        proof {
            assert forall|k: i32| #[trigger] self.pending_requests@.contains_key(k) <==> live_requests(old(self).pending_requests@, now).contains_key(k) by {
                if old(self).pending_requests@.contains_key(k) {
                    assert(keys@.contains(k));
                    let j = choose|j: int| 0 <= j < keys@.len() && keys@[j] == k;
                    assert(keys@[j] == k);
                }
            }
            assert(self.pending_requests@ =~= live_requests(old(self).pending_requests@, now));
        }
        let dkeys = keys_of(&self.pending_divorces);
        proof {
            assert forall|j: int| 0 <= j < dkeys@.len() implies self.pending_divorces@.contains_key(#[trigger] dkeys@[j]) by {
                assert(dkeys@.contains(dkeys@[j]));
            }
        }
        let mut i: usize = 0;
        while i < dkeys.len()
            invariant
                0 <= i <= dkeys@.len(),
                dkeys@.no_duplicates(),
                forall|k: i32| dkeys@.contains(k) <==> old(self).pending_divorces@.contains_key(k),
                self.marriages@ == old(self).marriages@,
                self.pending_requests@ == live_requests(old(self).pending_requests@, now),
                forall|k: i32| #[trigger] self.pending_divorces@.contains_key(k) ==> old(self).pending_divorces@.contains_key(k)
                    && self.pending_divorces@[k] == old(self).pending_divorces@[k],
                forall|j: int| 0 <= j < i ==> {
                    let k = #[trigger] dkeys@[j];
                    self.pending_divorces@.contains_key(k) <==> now < old(self).pending_divorces@[k].expires_at
                },
                forall|j: int| i <= j < dkeys@.len() ==> self.pending_divorces@.contains_key(#[trigger] dkeys@[j]),
            decreases dkeys@.len() - i,
        {
            let k = dkeys[i];
            let expired = match self.pending_divorces.get(&k) {
                Some(q) => q.is_expired(now),
                None => false,
            };
            if expired {
                self.pending_divorces.remove(&k);
            }
            proof {
                assert forall|j: int| i + 1 <= j < dkeys@.len() implies self.pending_divorces@.contains_key(#[trigger] dkeys@[j]) by {
                    assert(dkeys@[j] != k);
                }
                assert forall|j: int| 0 <= j < i implies dkeys@[j] != k by {}
            }
            i = i + 1;
        }
        proof {
            assert forall|k: i32| #[trigger] self.pending_divorces@.contains_key(k) <==> live_divorces(old(self).pending_divorces@, now).contains_key(k) by {
                if old(self).pending_divorces@.contains_key(k) {
                    assert(dkeys@.contains(k));
                    let j = choose|j: int| 0 <= j < dkeys@.len() && dkeys@[j] == k;
                    assert(dkeys@[j] == k);
                }
            }
            assert(self.pending_divorces@ =~= live_divorces(old(self).pending_divorces@, now));
        }
    }

    /// The proposal stored under a player's id.
    pub fn get_pending_request(&self, player_id: i32) -> (r: Option<&MarriageRequest>)
        ensures
            match r {
                Some(q) => self.proposals().contains_key(player_id) && *q == self.proposals()[player_id],
                None => !self.proposals().contains_key(player_id),
            },
    {
        self.pending_requests.get(&player_id)
    }

    /// The divorce request stored under a player's id.
    pub fn get_pending_divorce(&self, player_id: i32) -> (r: Option<&DivorceRequest>)
        ensures
            match r {
                Some(d) => self.divorces().contains_key(player_id) && *d == self.divorces()[player_id],
                None => !self.divorces().contains_key(player_id),
            },
    {
        self.pending_divorces.get(&player_id)
    }

    /// Ends a player's marriage without the partner's consent: both records
    /// and anything pending under either id go, and the partner's id is
    /// handed back.
    pub fn force_divorce(&mut self, player_id: i32) -> (r: Result<i32, String>)
        ensures
            ({
                let p = partner_in(old(self).marriages(), player_id);
                &&& p == 0 ==> {
                    &&& is_err_with(r, "Player is not married"@)
                    &&& final(self).marriages() == old(self).marriages()
                    &&& final(self).proposals() == old(self).proposals()
                    &&& final(self).divorces() == old(self).divorces()
                }
                &&& p != 0 ==> {
                    &&& r == Ok::<i32, String>(p)
                    &&& final(self).marriages() == old(self).marriages().remove(player_id).remove(p)
                    &&& final(self).proposals() == old(self).proposals().remove(player_id).remove(p)
                    &&& final(self).divorces() == old(self).divorces().remove(player_id).remove(p)
                }
            }),
    {
        let partner_id = self.get_partner_id(player_id);
        if partner_id == 0 {
            return Err(text("Player is not married"));
        }
        self.marriages.remove(&player_id);
        self.marriages.remove(&partner_id);
        self.pending_requests.remove(&player_id);
        self.pending_requests.remove(&partner_id);
        self.pending_divorces.remove(&player_id);
        self.pending_divorces.remove(&partner_id);
        Ok(partner_id)
    }
}

/// Marriage records come in matching pairs: each record belongs to its key,
/// names a partner, and the partner's record names the player back.
pub open spec fn marriages_paired(m: Map<i32, MarriageInfo>) -> bool {
    forall|p: i32| #[trigger] m.contains_key(p) ==> {
        &&& m[p].player_id == p
        &&& m[p].partner_id != 0
        &&& m.contains_key(m[p].partner_id)
        &&& m[m[p].partner_id].partner_id == p
    }
}

/// In paired records marriage is mutual: a married player's partner is
/// married to that player.
pub proof fn law_marriage_is_mutual(m: Map<i32, MarriageInfo>, a: i32)
    requires
        marriages_paired(m),
        married_in(m, a),
    ensures
        married_in(m, partner_in(m, a)),
        partner_in(m, partner_in(m, a)) == a,
{
}

/// Accepting a proposal between two unmarried players with nonzero ids
/// keeps the records paired, and each new spouse may recall to the other.
pub proof fn law_accept_marriage_keeps_pairs(m: Map<i32, MarriageInfo>, requester: i32, target: i32, now: u64)
    requires
        marriages_paired(m),
        requester != 0,
        target != 0,
        !married_in(m, requester),
        !married_in(m, target),
    ensures
        ({
            let m2 = m.insert(
                requester,
                MarriageInfo { player_id: requester, partner_id: target, marriage_date: now, allow_recall: true },
            ).insert(
                target,
                MarriageInfo { player_id: target, partner_id: requester, marriage_date: now, allow_recall: true },
            );
            &&& marriages_paired(m2)
            &&& m2[target].partner_id == requester && m2[target].allow_recall
            &&& m2[requester].partner_id == target && m2[requester].allow_recall
        }),
{
    let m2 = m.insert(
        requester,
        MarriageInfo { player_id: requester, partner_id: target, marriage_date: now, allow_recall: true },
    ).insert(
        target,
        MarriageInfo { player_id: target, partner_id: requester, marriage_date: now, allow_recall: true },
    );
    assert forall|p: i32| #[trigger] m2.contains_key(p) implies {
        &&& m2[p].player_id == p
        &&& m2[p].partner_id != 0
        &&& m2.contains_key(m2[p].partner_id)
        &&& m2[m2[p].partner_id].partner_id == p
    } by {
        if p != requester && p != target {
            assert(m.contains_key(p));
            let q = m[p].partner_id;
            assert(m.contains_key(q) && m[q].partner_id == p);
            assert(q != requester && q != target);
        }
    }
}

/// Accepting a divorce request whose initiator is still married to the
/// request's partner keeps the records paired.
pub proof fn law_accept_divorce_keeps_pairs(m: Map<i32, MarriageInfo>, d: DivorceRequest)
    requires
        marriages_paired(m),
        m.contains_key(d.initiator_id),
        m[d.initiator_id].partner_id == d.partner_id,
    ensures
        marriages_paired(m.remove(d.initiator_id).remove(d.partner_id)),
{
    let m2 = m.remove(d.initiator_id).remove(d.partner_id);
    assert forall|p: i32| #[trigger] m2.contains_key(p) implies {
        &&& m2[p].player_id == p
        &&& m2[p].partner_id != 0
        &&& m2.contains_key(m2[p].partner_id)
        &&& m2[m2[p].partner_id].partner_id == p
    } by {
        let q = m[p].partner_id;
        assert(m.contains_key(q) && m[q].partner_id == p);
    }
}

/// A forced divorce keeps the records paired and leaves both former
/// spouses unmarried.
pub proof fn law_force_divorce_keeps_pairs(m: Map<i32, MarriageInfo>, player: i32)
    requires
        marriages_paired(m),
        partner_in(m, player) != 0,
    ensures
        marriages_paired(m.remove(player).remove(partner_in(m, player))),
        !married_in(m.remove(player).remove(partner_in(m, player)), player),
        !married_in(m.remove(player).remove(partner_in(m, player)), partner_in(m, player)),
{
    let d = DivorceRequest { initiator_id: player, partner_id: partner_in(m, player), request_time: 0, expires_at: 0 };
    law_accept_divorce_keeps_pairs(m, d);
}

/// Toggling recall changes only the recall flag, so the records stay paired.
pub proof fn law_toggle_recall_keeps_pairs(m: Map<i32, MarriageInfo>, player: i32)
    requires
        marriages_paired(m),
        married_in(m, player),
    ensures
        marriages_paired(m.insert(player, MarriageInfo { allow_recall: !m[player].allow_recall, ..m[player] })),
{
    let m2 = m.insert(player, MarriageInfo { allow_recall: !m[player].allow_recall, ..m[player] });
    assert forall|p: i32| #[trigger] m2.contains_key(p) implies {
        &&& m2[p].player_id == p
        &&& m2[p].partner_id != 0
        &&& m2.contains_key(m2[p].partner_id)
        &&& m2[m2[p].partner_id].partner_id == p
    } by {
        let q = m[p].partner_id;
        assert(m.contains_key(q) && m[q].partner_id == p);
    }
}


/// A pending proposal or divorce request counts exactly while the time is
/// before its expiry, unchanged; one that counts at a later time counted at
/// every earlier time.
pub proof fn law_requests_expire(
    proposals: Map<i32, MarriageRequest>,
    divorces: Map<i32, DivorceRequest>,
    k: i32,
    earlier: u64,
    later: u64,
)
    requires
        earlier <= later,
    ensures
        live_requests(proposals, later).contains_key(k) <==> (proposals.contains_key(k) && later < proposals[k].expires_at),
        live_requests(proposals, later).contains_key(k) ==> live_requests(proposals, later)[k] == proposals[k]
            && live_requests(proposals, earlier).contains_key(k),
        live_divorces(divorces, later).contains_key(k) <==> (divorces.contains_key(k) && later < divorces[k].expires_at),
        live_divorces(divorces, later).contains_key(k) ==> live_divorces(divorces, later)[k] == divorces[k]
            && live_divorces(divorces, earlier).contains_key(k),
{
}

} // verus!
