//! Mentor/mentee relationships with expiring mentor requests.
//! Times are Unix seconds supplied by the caller.
use std::collections::HashMap;
use vstd::prelude::*;

use crate::maps::{keys_of, map_get_mut};
use crate::text::{is_err_with, text};

verus! {

broadcast use vstd::std_specs::hash::group_hash_axioms;

/// How long a mentor request stays open, in seconds.
pub const MENTOR_REQUEST_LIFETIME_SECS: u64 = 300;

/// Seconds in a day.
pub const MENTOR_SECS_PER_DAY: u64 = 86400;

/// Most mentees one mentor may have.
pub const MAX_MENTEES: usize = 3;

/// Experience a graduation awards.
pub const GRADUATION_BONUS_EXP: u64 = 100000;

/// One side of a mentorship; `is_mentor` tells whose side it is.
#[derive(Clone, Copy, Debug)]
pub struct MentorInfo {
    pub mentor_id: i32,
    pub mentee_id: i32,
    pub mentorship_date: u64,
    pub mentor_exp: u64,
    pub is_mentor: bool,
}

impl MentorInfo {
    /// A record dated `now` with no experience shared yet.
    pub fn new(mentor_id: i32, mentee_id: i32, is_mentor: bool, now: u64) -> (r: Self)
        ensures
            r == (MentorInfo { mentor_id, mentee_id, mentorship_date: now, mentor_exp: 0, is_mentor }),
    {
        MentorInfo { mentor_id, mentee_id, mentorship_date: now, mentor_exp: 0, is_mentor }
    }

    /// Whole days since the mentorship began.
    pub fn get_mentorship_duration_days(&self, now: u64) -> (r: u64)
        requires
            now >= self.mentorship_date,
        ensures
            r == (now - self.mentorship_date) / (MENTOR_SECS_PER_DAY as int),
    {
        (now - self.mentorship_date) / MENTOR_SECS_PER_DAY
    }

    /// The mentee may graduate: at least level 40, not above the mentor's
    /// level, and mentored for at least seven days.
    pub fn can_graduate(&self, mentee_level: u16, mentor_level: u16, now: u64) -> (r: bool)
        requires
            mentee_level >= 40 && mentee_level <= mentor_level ==> now >= self.mentorship_date,
        ensures
            r == graduation_allowed(*self, mentee_level, mentor_level, now),
    {
        if mentee_level < 40 {
            return false;
        }
        if mentee_level > mentor_level {
            return false;
        }
        if self.get_mentorship_duration_days(now) < 7 {
            return false;
        }
        true
    }
}

/// The graduation rule.
pub open spec fn graduation_allowed(r: MentorInfo, mentee_level: u16, mentor_level: u16, now: u64) -> bool {
    &&& mentee_level >= 40
    &&& mentee_level <= mentor_level
    &&& (now - r.mentorship_date) / (MENTOR_SECS_PER_DAY as int) >= 7
}

/// A pending mentor request, stored under the mentee's id.
#[derive(Clone, Copy, Debug)]
pub struct MentorRequest {
    pub mentor_id: i32,
    pub mentee_id: i32,
    pub request_time: u64,
    pub expires_at: u64,
}

impl MentorRequest {
    /// A request made at `now`, open for five minutes.
    pub fn new(mentor_id: i32, mentee_id: i32, now: u64) -> (r: Self)
        requires
            now <= u64::MAX - MENTOR_REQUEST_LIFETIME_SECS,
        ensures
            r == (MentorRequest {
                mentor_id,
                mentee_id,
                request_time: now,
                expires_at: (now + MENTOR_REQUEST_LIFETIME_SECS) as u64,
            }),
    {
        MentorRequest {
            mentor_id,
            mentee_id,
            request_time: now,
            expires_at: now + MENTOR_REQUEST_LIFETIME_SECS,
        }
    }

    /// The request has run out at `now`.
    pub fn is_expired(&self, now: u64) -> (r: bool)
        ensures
            r == (now >= self.expires_at),
    {
        now >= self.expires_at
    }
}

/// The player's record is a mentor's.
pub open spec fn is_mentor_in(m: Map<i32, MentorInfo>, p: i32) -> bool {
    m.contains_key(p) && m[p].is_mentor
}

/// The player's record is a mentee's.
pub open spec fn is_mentee_in(m: Map<i32, MentorInfo>, p: i32) -> bool {
    m.contains_key(p) && !m[p].is_mentor
}

/// A mentee's mentor, 0 for a player who is no mentee.
pub open spec fn mentor_of(m: Map<i32, MentorInfo>, p: i32) -> i32 {
    if is_mentee_in(m, p) {
        m[p].mentor_id
    } else {
        0
    }
}

/// The mentees listed in mentor records of a mentor. Mentor records are
/// stored under the mentor's own id, so this is the mentee of that record.
pub open spec fn mentees_of(m: Map<i32, MentorInfo>, mentor: i32) -> Seq<i32> {
    if is_mentor_in(m, mentor) {
        seq![m[mentor].mentee_id]
    } else {
        Seq::empty()
    }
}

/// Every mentor record is stored under its mentor's id.
pub open spec fn mentor_records_keyed(m: Map<i32, MentorInfo>) -> bool {
    forall|k: i32| #[trigger] m.contains_key(k) && m[k].is_mentor ==> m[k].mentor_id == k
}

/// The request map without the requests that have run out at `now`.
pub open spec fn live_mentor_requests(m: Map<i32, MentorRequest>, now: u64) -> Map<i32, MentorRequest> {
    Map::new(|k: i32| m.contains_key(k) && now < m[k].expires_at, |k: i32| m[k])
}

/// Mentorships (one record per player) and pending requests (by mentee).
#[derive(Debug)]
pub struct MentorSystem {
    relationships: HashMap<i32, MentorInfo>,
    pending_requests: HashMap<i32, MentorRequest>,
}

impl MentorSystem {
    #[verifier::type_invariant]
    spec fn keyed(&self) -> bool {
        mentor_records_keyed(self.relationships@)
    }

    pub closed spec fn records(&self) -> Map<i32, MentorInfo> {
        self.relationships@
    }

    pub closed spec fn requests(&self) -> Map<i32, MentorRequest> {
        self.pending_requests@
    }

    /// No mentorships and nothing pending.
    pub fn new() -> (r: Self)
        ensures
            r.records() == Map::<i32, MentorInfo>::empty(),
            r.requests() == Map::<i32, MentorRequest>::empty(),
    {
        let relationships: HashMap<i32, MentorInfo> = HashMap::new();
        let pending_requests: HashMap<i32, MentorRequest> = HashMap::new();
        assert(mentor_records_keyed(relationships@));
        MentorSystem { relationships, pending_requests }
    }

    /// The player's record is a mentor's.
    pub fn is_mentor(&self, player_id: i32) -> (r: bool)
        ensures
            r == is_mentor_in(self.records(), player_id),
    {
        match self.relationships.get(&player_id) {
            Some(r) => r.is_mentor,
            None => false,
        }
    }

    /// The player's record is a mentee's.
    pub fn is_mentee(&self, player_id: i32) -> (r: bool)
        ensures
            r == is_mentee_in(self.records(), player_id),
    {
        match self.relationships.get(&player_id) {
            Some(r) => !r.is_mentor,
            None => false,
        }
    }

    /// The player's record.
    pub fn get_mentor_info(&self, player_id: i32) -> (r: Option<&MentorInfo>)
        ensures
            match r {
                Some(i) => self.records().contains_key(player_id) && *i == self.records()[player_id],
                None => !self.records().contains_key(player_id),
            },
    {
        self.relationships.get(&player_id)
    }

    /// A mentee's mentor, 0 for a player who is no mentee.
    pub fn get_mentor_id(&self, mentee_id: i32) -> (r: i32)
        ensures
            r == mentor_of(self.records(), mentee_id),
    {
        match self.relationships.get(&mentee_id) {
            Some(r) => if !r.is_mentor {
                r.mentor_id
            } else {
                0
            },
            None => 0,
        }
    }

    /// The mentees named by the mentor records of a mentor.
    pub fn get_mentees(&self, mentor_id: i32) -> (r: Vec<i32>)
        ensures
            r@ == mentees_of(self.records(), mentor_id),
    {
        proof {
            use_type_invariant(self);
        }
        let keys = keys_of(&self.relationships);
        let mut out: Vec<i32> = Vec::new();
        let mut i: usize = 0;
        while i < keys.len()
            invariant
                0 <= i <= keys@.len(),
                keys@.no_duplicates(),
                forall|k: i32| keys@.contains(k) <==> self.relationships@.contains_key(k),
                mentor_records_keyed(self.relationships@),
                out@ == if keys@.take(i as int).contains(mentor_id) && is_mentor_in(self.relationships@, mentor_id) {
                    seq![self.relationships@[mentor_id].mentee_id]
                } else {
                    Seq::<i32>::empty()
                },
            decreases keys@.len() - i,
        {
            let k = keys[i];
            proof {
                assert(keys@.take(i as int + 1) == keys@.take(i as int).push(k));
                assert(keys@.contains(k));
                if k != mentor_id {
                    assert(keys@.take(i as int + 1).contains(mentor_id) == keys@.take(i as int).contains(mentor_id)) by {
                        if keys@.take(i as int + 1).contains(mentor_id) {
                            let j = choose|j: int| 0 <= j < i + 1 && #[trigger] keys@.take(i as int + 1)[j] == mentor_id;
                            assert(j < i);
                            assert(keys@.take(i as int)[j] == mentor_id);
                        }
                    }
                } else {
                    assert(keys@.take(i as int + 1).contains(mentor_id)) by {
                        assert(keys@.take(i as int + 1)[i as int] == mentor_id);
                    }
                    assert(!keys@.take(i as int).contains(mentor_id)) by {
                        if keys@.take(i as int).contains(mentor_id) {
                            let j = choose|j: int| 0 <= j < i && #[trigger] keys@.take(i as int)[j] == mentor_id;
                            assert(keys@[j] == keys@[i as int]);
                        }
                    }
                }
            }
            match self.relationships.get(&k) {
                Some(r) => {
                    if r.is_mentor && r.mentor_id == mentor_id {
                        out.push(r.mentee_id);
                    }
                },
                None => {},
            }
            i = i + 1;
        }
        proof {
            assert(keys@.take(keys@.len() as int) == keys@);
            if is_mentor_in(self.relationships@, mentor_id) {
                assert(keys@.contains(mentor_id));
            }
        }
        out
    }

    fn requests_insert(&mut self, k: i32, v: MentorRequest)
        ensures
            final(self).requests() == old(self).requests().insert(k, v),
            final(self).records() == old(self).records(),
    {
        proof {
            use_type_invariant(&*self);
        }
        let mut q: HashMap<i32, MentorRequest> = HashMap::new();
        std::mem::swap(&mut q, &mut self.pending_requests);
        q.insert(k, v);
        self.pending_requests = q;
    }

    fn requests_remove(&mut self, k: i32) -> (r: Option<MentorRequest>)
        ensures
            final(self).requests() == old(self).requests().remove(k),
            final(self).records() == old(self).records(),
            match r {
                Some(v) => old(self).requests().contains_key(k) && v == old(self).requests()[k],
                None => !old(self).requests().contains_key(k),
            },
    {
        proof {
            use_type_invariant(&*self);
        }
        let mut q: HashMap<i32, MentorRequest> = HashMap::new();
        std::mem::swap(&mut q, &mut self.pending_requests);
        let r = q.remove(&k);
        self.pending_requests = q;
        r
    }

    fn records_insert(&mut self, k: i32, v: MentorInfo)
        requires
            v.is_mentor ==> v.mentor_id == k,
        ensures
            final(self).records() == old(self).records().insert(k, v),
            final(self).requests() == old(self).requests(),
    {
        proof {
            use_type_invariant(&*self);
        }
        let mut m: HashMap<i32, MentorInfo> = HashMap::new();
        std::mem::swap(&mut m, &mut self.relationships);
        m.insert(k, v);
        self.relationships = m;
    }

    fn records_remove(&mut self, k: i32)
        ensures
            final(self).records() == old(self).records().remove(k),
            final(self).requests() == old(self).requests(),
    {
        proof {
            use_type_invariant(&*self);
        }
        let mut m: HashMap<i32, MentorInfo> = HashMap::new();
        std::mem::swap(&mut m, &mut self.relationships);
        m.remove(&k);
        self.relationships = m;
    }

    /// Number of mentees named by a mentor's records.
    fn mentee_count(&self, mentor_id: i32) -> (r: usize)
        ensures
            r == mentees_of(self.records(), mentor_id).len(),
    {
        self.get_mentees(mentor_id).len()
    }

    /// A mentee asks a mentor at `now`. Refused when the mentor is not of a
    /// higher level, the mentee is below level 15, the mentee already has a
    /// mentor, the mentor is full, or the mentee already has a pending request.
    pub fn send_mentor_request(
        &mut self,
        mentor_id: i32,
        mentee_id: i32,
        mentee_level: u16,
        mentor_level: u16,
        now: u64,
    ) -> (r: Result<(), String>)
        requires
            now <= u64::MAX - MENTOR_REQUEST_LIFETIME_SECS,
        ensures
            final(self).records() == old(self).records(),
            ({
                let m = old(self).records();
                let q = old(self).requests();
                &&& mentee_level >= mentor_level ==> is_err_with(r, "Mentor must be higher level than mentee"@)
                &&& mentee_level < mentor_level && mentee_level < 15 ==> is_err_with(r, "Mentee must be at least level 15"@)
                &&& mentee_level < mentor_level && mentee_level >= 15 && is_mentee_in(m, mentee_id)
                    ==> is_err_with(r, "You already have a mentor"@)
                &&& mentee_level < mentor_level && mentee_level >= 15 && !is_mentee_in(m, mentee_id)
                    && mentees_of(m, mentor_id).len() >= MAX_MENTEES
                    ==> is_err_with(r, "Mentor has reached maximum mentees"@)
                &&& mentee_level < mentor_level && mentee_level >= 15 && !is_mentee_in(m, mentee_id)
                    && mentees_of(m, mentor_id).len() < MAX_MENTEES && q.contains_key(mentee_id)
                    ==> is_err_with(r, "You already have a pending mentor request"@)
                &&& (r is Ok <==> (mentee_level < mentor_level && mentee_level >= 15 && !is_mentee_in(m, mentee_id)
                    && mentees_of(m, mentor_id).len() < MAX_MENTEES && !q.contains_key(mentee_id)))
                &&& r is Ok ==> final(self).requests() == q.insert(
                    mentee_id,
                    MentorRequest { mentor_id, mentee_id, request_time: now, expires_at: (now + MENTOR_REQUEST_LIFETIME_SECS) as u64 },
                )
                &&& r is Err ==> final(self).requests() == q
            }),
    {
        if mentee_level >= mentor_level {
            return Err(text("Mentor must be higher level than mentee"));
        }
        if mentee_level < 15 {
            return Err(text("Mentee must be at least level 15"));
        }
        if self.is_mentee(mentee_id) {
            return Err(text("You already have a mentor"));
        }
        if self.mentee_count(mentor_id) >= MAX_MENTEES {
            return Err(text("Mentor has reached maximum mentees"));
        }
        if self.pending_requests.contains_key(&mentee_id) {
            return Err(text("You already have a pending mentor request"));
        }
        let request = MentorRequest::new(mentor_id, mentee_id, now);
        self.requests_insert(mentee_id, request);
        Ok(())
    }

    /// The mentor accepts the request stored under the mentee's id at `now`.
    /// The request is consumed whatever happens; a live one with room left
    /// stores the mentor's record under the mentor's id and the mentee's
    /// under the mentee's id, both dated `now`.
    pub fn accept_mentor_request(&mut self, mentee_id: i32, now: u64) -> (r: Result<MentorInfo, String>)
        ensures
            final(self).requests() == old(self).requests().remove(mentee_id),
            !old(self).requests().contains_key(mentee_id) ==> is_err_with(r, "No pending mentor request"@),
            ({
                let q = old(self).requests()[mentee_id];
                let m = old(self).records();
                old(self).requests().contains_key(mentee_id) ==> {
                    &&& now >= q.expires_at ==> is_err_with(r, "Request has expired"@)
                    &&& now < q.expires_at && mentees_of(m, q.mentor_id).len() >= MAX_MENTEES
                        ==> is_err_with(r, "Mentor has reached maximum mentees"@)
                    &&& (r is Ok <==> (now < q.expires_at && mentees_of(m, q.mentor_id).len() < MAX_MENTEES))
                    &&& r is Ok ==> {
                        let mr = MentorInfo { mentor_id: q.mentor_id, mentee_id: q.mentee_id, mentorship_date: now, mentor_exp: 0, is_mentor: true };
                        let me = MentorInfo { mentor_id: q.mentor_id, mentee_id: q.mentee_id, mentorship_date: now, mentor_exp: 0, is_mentor: false };
                        &&& r == Ok::<MentorInfo, String>(mr)
                        &&& final(self).records() == m.insert(q.mentor_id, mr).insert(q.mentee_id, me)
                    }
                }
            }),
            r is Err ==> final(self).records() == old(self).records(),
    {
        proof {
            use_type_invariant(&*self);
        }
        let request = match self.requests_remove(mentee_id) {
            Some(q) => q,
            None => {
                return Err(text("No pending mentor request"));
            },
        };
        if request.is_expired(now) {
            return Err(text("Request has expired"));
        }
        if self.mentee_count(request.mentor_id) >= MAX_MENTEES {
            return Err(text("Mentor has reached maximum mentees"));
        }
        let mentor_record = MentorInfo::new(request.mentor_id, request.mentee_id, true, now);
        let mentee_record = MentorInfo::new(request.mentor_id, request.mentee_id, false, now);
        self.records_insert(request.mentor_id, mentor_record);
        self.records_insert(request.mentee_id, mentee_record);
        Ok(mentor_record)
    }

    /// The mentor turns down the request stored under the mentee's id.
    pub fn decline_mentor_request(&mut self, mentee_id: i32) -> (r: Result<(), String>)
        ensures
            final(self).records() == old(self).records(),
            final(self).requests() == old(self).requests().remove(mentee_id),
            r is Ok <==> old(self).requests().contains_key(mentee_id),
            r is Err ==> is_err_with(r, "No pending mentor request"@),
    {
        match self.requests_remove(mentee_id) {
            Some(_) => Ok(()),
            None => Err(text("No pending mentor request")),
        }
    }

    /// Either side ends the mentorship: both records and any request under
    /// either id go, and the other side's id is handed back.
    pub fn cancel_mentorship(&mut self, player_id: i32) -> (r: Result<i32, String>)
        ensures
            !old(self).records().contains_key(player_id) ==> {
                &&& is_err_with(r, "No mentorship found"@)
                &&& final(self).records() == old(self).records()
                &&& final(self).requests() == old(self).requests()
            },
            old(self).records().contains_key(player_id) ==> {
                let rec = old(self).records()[player_id];
                let partner = if rec.is_mentor { rec.mentee_id } else { rec.mentor_id };
                &&& r == Ok::<i32, String>(partner)
                &&& final(self).records() == old(self).records().remove(player_id).remove(partner)
                &&& final(self).requests() == old(self).requests().remove(player_id).remove(partner)
            },
    {
        let relationship = match self.relationships.get(&player_id) {
            Some(r) => *r,
            None => {
                return Err(text("No mentorship found"));
            },
        };
        let partner_id = if relationship.is_mentor {
            relationship.mentee_id
        } else {
            relationship.mentor_id
        };
        self.records_remove(player_id);
        self.records_remove(partner_id);
        self.requests_remove(player_id);
        self.requests_remove(partner_id);
        Ok(partner_id)
    }

    /// Graduates a mentee who meets the graduation rule at `now`: both
    /// records go and the graduation bonus is handed back.
    pub fn graduate_mentee(&mut self, mentee_id: i32, mentee_level: u16, mentor_level: u16, now: u64) -> (r: Result<u64, String>)
        requires
            is_mentee_in(old(self).records(), mentee_id) && mentee_level >= 40 && mentee_level <= mentor_level
                ==> now >= old(self).records()[mentee_id].mentorship_date,
        ensures
            final(self).requests() == old(self).requests(),
            !is_mentee_in(old(self).records(), mentee_id) ==> is_err_with(r, "No mentorship found"@),
            is_mentee_in(old(self).records(), mentee_id) && !graduation_allowed(old(self).records()[mentee_id], mentee_level, mentor_level, now)
                ==> is_err_with(r, "Graduation requirements not met"@),
            (r is Ok <==> (is_mentee_in(old(self).records(), mentee_id)
                && graduation_allowed(old(self).records()[mentee_id], mentee_level, mentor_level, now))),
            r is Ok ==> r == Ok::<u64, String>(GRADUATION_BONUS_EXP) && final(self).records() == old(self).records().remove(
                mentee_id,
            ).remove(old(self).records()[mentee_id].mentor_id),
            r is Err ==> final(self).records() == old(self).records(),
    {
        let relationship = match self.relationships.get(&mentee_id) {
            Some(r) => if !r.is_mentor {
                *r
            } else {
                return Err(text("No mentorship found"));
            },
            None => {
                return Err(text("No mentorship found"));
            },
        };
        if !relationship.can_graduate(mentee_level, mentor_level, now) {
            return Err(text("Graduation requirements not met"));
        }
        let mentor_id = relationship.mentor_id;
        self.records_remove(mentee_id);
        self.records_remove(mentor_id);
        Ok(GRADUATION_BONUS_EXP)
    }

    /// Credits a mentee's mentor with an experience share already worked out
    /// by the caller: the share is added to the record under the mentor's id
    /// and handed back. Nothing happens for a player who is no mentee, or
    /// whose mentor has no record.
    pub fn add_mentor_exp_share(&mut self, mentee_id: i32, mentor_exp: u64) -> (r: Option<u64>)
        requires
            ({
                let m = old(self).records();
                let mentor = mentor_of(m, mentee_id);
                mentor != 0 && m.contains_key(mentor) ==> m[mentor].mentor_exp + mentor_exp <= u64::MAX
            }),
        ensures
            final(self).requests() == old(self).requests(),
            ({
                let m = old(self).records();
                let mentor = mentor_of(m, mentee_id);
                &&& (r is Some <==> (mentor != 0 && m.contains_key(mentor)))
                &&& r is Some ==> r == Some(mentor_exp) && final(self).records() == m.insert(
                    mentor,
                    MentorInfo { mentor_exp: (m[mentor].mentor_exp + mentor_exp) as u64, ..m[mentor] },
                )
                &&& r is None ==> final(self).records() == m
            }),
    {
        let mentor_id = self.get_mentor_id(mentee_id);
        if mentor_id == 0 {
            return None;
        }
        proof {
            use_type_invariant(&*self);
        }
        let ghost m0 = self.relationships@;
        match self.relationships.get(&mentor_id) {
            Some(rec) => {
                let mut updated = *rec;
                updated.mentor_exp = updated.mentor_exp + mentor_exp;
                self.records_insert(mentor_id, updated);
                Some(mentor_exp)
            },
            None => None,
        }
    }

    /// Checks whether two players could form a mentorship, with the same
    /// level rules as a request and the roles each player already has.
    pub fn can_mentor(&self, mentor_id: i32, mentee_id: i32, mentor_level: u16, mentee_level: u16) -> (r: Result<(), String>)
        ensures
            ({
                let m = self.records();
                let levels_ok = mentee_level < mentor_level && mentee_level >= 15;
                let already = is_mentor_in(m, mentor_id) && is_mentee_in(m, mentee_id) && mentor_of(m, mentee_id) == mentor_id;
                &&& mentee_level >= mentor_level ==> is_err_with(r, "Mentor must be higher level than mentee"@)
                &&& mentee_level < mentor_level && mentee_level < 15 ==> is_err_with(r, "Mentee must be at least level 15"@)
                &&& levels_ok && already ==> is_err_with(r, "Already in mentor relationship"@)
                &&& levels_ok && !already && is_mentee_in(m, mentor_id) ==> is_err_with(r, "Mentor cannot be a mentee"@)
                &&& levels_ok && !already && !is_mentee_in(m, mentor_id) && is_mentor_in(m, mentee_id)
                    ==> is_err_with(r, "Mentee cannot be a mentor"@)
                &&& levels_ok && !already && !is_mentee_in(m, mentor_id) && !is_mentor_in(m, mentee_id)
                    && mentees_of(m, mentor_id).len() >= MAX_MENTEES ==> is_err_with(r, "Mentor has reached maximum mentees"@)
                &&& (r is Ok <==> (levels_ok && !already && !is_mentee_in(m, mentor_id) && !is_mentor_in(m, mentee_id)
                    && mentees_of(m, mentor_id).len() < MAX_MENTEES))
            }),
    {
        if mentee_level >= mentor_level {
            return Err(text("Mentor must be higher level than mentee"));
        }
        if mentee_level < 15 {
            return Err(text("Mentee must be at least level 15"));
        }
        if self.is_mentor(mentor_id) && self.is_mentee(mentee_id) {
            let existing_mentor = self.get_mentor_id(mentee_id);
            if existing_mentor == mentor_id {
                return Err(text("Already in mentor relationship"));
            }
        }
        if self.is_mentee(mentor_id) {
            return Err(text("Mentor cannot be a mentee"));
        }
        if self.is_mentor(mentee_id) {
            return Err(text("Mentee cannot be a mentor"));
        }
        if self.mentee_count(mentor_id) >= MAX_MENTEES {
            return Err(text("Mentor has reached maximum mentees"));
        }
        Ok(())
    }

    /// Drops every mentor request that has run out at `now`.
    pub fn cleanup_expired_requests(&mut self, now: u64)
        ensures
            final(self).records() == old(self).records(),
            final(self).requests() == live_mentor_requests(old(self).requests(), now),
    {
        let keys = keys_of(&self.pending_requests);
        proof {
            assert forall|j: int| 0 <= j < keys@.len() implies self.pending_requests@.contains_key(#[trigger] keys@[j]) by {
                assert(keys@.contains(keys@[j]));
            }
        }
        let mut i: usize = 0;
        while i < keys.len()
            invariant
                0 <= i <= keys@.len(),
                keys@.no_duplicates(),
                forall|k: i32| keys@.contains(k) <==> old(self).pending_requests@.contains_key(k),
                self.relationships@ == old(self).relationships@,
                forall|k: i32| #[trigger] self.pending_requests@.contains_key(k) ==> old(self).pending_requests@.contains_key(k)
                    && self.pending_requests@[k] == old(self).pending_requests@[k],
                forall|j: int| 0 <= j < i ==> {
                    let k = #[trigger] keys@[j];
                    self.pending_requests@.contains_key(k) <==> now < old(self).pending_requests@[k].expires_at
                },
                forall|j: int| i <= j < keys@.len() ==> self.pending_requests@.contains_key(#[trigger] keys@[j]),
            decreases keys@.len() - i,
        {
            let k = keys[i];
            let expired = match self.pending_requests.get(&k) {
                Some(q) => q.is_expired(now),
                None => false,
            };
            if expired {
                self.requests_remove(k);
            }
            proof {
                assert forall|j: int| i + 1 <= j < keys@.len() implies self.pending_requests@.contains_key(#[trigger] keys@[j]) by {
                    assert(keys@[j] != k);
                }
                assert forall|j: int| 0 <= j < i implies keys@[j] != k by {}
            }
            i = i + 1;
        }
        proof {
            assert forall|k: i32| #[trigger] self.pending_requests@.contains_key(k) <==> live_mentor_requests(old(self).pending_requests@, now).contains_key(k) by {
                if old(self).pending_requests@.contains_key(k) {
                    assert(keys@.contains(k));
                    let j = choose|j: int| 0 <= j < keys@.len() && keys@[j] == k;
                    assert(keys@[j] == k);
                }
            }
            assert(self.pending_requests@ =~= live_mentor_requests(old(self).pending_requests@, now));
        }
    }

    /// The request stored under a mentee's id.
    pub fn get_pending_request(&self, mentee_id: i32) -> (r: Option<&MentorRequest>)
        ensures
            match r {
                Some(q) => self.requests().contains_key(mentee_id) && *q == self.requests()[mentee_id],
                None => !self.requests().contains_key(mentee_id),
            },
    {
        self.pending_requests.get(&mentee_id)
    }

    /// For a mentor: the number of mentees and the experience credited to
    /// the mentor's records.
    pub fn get_mentor_stats(&self, mentor_id: i32) -> (r: Option<(usize, u64)>)
        ensures
            !is_mentor_in(self.records(), mentor_id) ==> r is None,
            is_mentor_in(self.records(), mentor_id) ==> r == Some(
                (mentees_of(self.records(), mentor_id).len() as usize, self.records()[mentor_id].mentor_exp),
            ),
    {
        proof {
            use_type_invariant(self);
        }
        if !self.is_mentor(mentor_id) {
            return None;
        }
        let mentee_count = self.mentee_count(mentor_id);
        let keys = keys_of(&self.relationships);
        let mut total: u64 = 0;
        let mut i: usize = 0;
        while i < keys.len()
            invariant
                0 <= i <= keys@.len(),
                keys@.no_duplicates(),
                forall|k: i32| keys@.contains(k) <==> self.relationships@.contains_key(k),
                mentor_records_keyed(self.relationships@),
                is_mentor_in(self.relationships@, mentor_id),
                total == if keys@.take(i as int).contains(mentor_id) {
                    self.relationships@[mentor_id].mentor_exp
                } else {
                    0
                },
            decreases keys@.len() - i,
        {
            let k = keys[i];
            proof {
                assert(keys@.take(i as int + 1) == keys@.take(i as int).push(k));
                assert(keys@.contains(k));
                if k != mentor_id {
                    assert(keys@.take(i as int + 1).contains(mentor_id) == keys@.take(i as int).contains(mentor_id)) by {
                        if keys@.take(i as int + 1).contains(mentor_id) {
                            let j = choose|j: int| 0 <= j < i + 1 && #[trigger] keys@.take(i as int + 1)[j] == mentor_id;
                            assert(keys@.take(i as int)[j] == mentor_id);
                        }
                    }
                } else {
                    assert(keys@.take(i as int + 1)[i as int] == mentor_id);
                    assert(!keys@.take(i as int).contains(mentor_id)) by {
                        if keys@.take(i as int).contains(mentor_id) {
                            let j = choose|j: int| 0 <= j < i && #[trigger] keys@.take(i as int)[j] == mentor_id;
                            assert(keys@[j] == keys@[i as int]);
                        }
                    }
                }
            }
            match self.relationships.get(&k) {
                Some(r) => {
                    if r.is_mentor && r.mentor_id == mentor_id {
                        total = total + r.mentor_exp;
                    }
                },
                None => {},
            }
            i = i + 1;
        }
        proof {
            assert(keys@.take(keys@.len() as int) == keys@);
            assert(keys@.contains(mentor_id));
        }
        Some((mentee_count, total))
    }
}

/// After an accepted request between two different players, the mentor is
/// a mentor whose only listed mentee is the mentee, and the mentee's mentor
/// is the mentor.
pub proof fn law_accept_links_both_sides(m: Map<i32, MentorInfo>, q: MentorRequest, now: u64)
    requires
        q.mentor_id != q.mentee_id,
    ensures
        ({
            let m2 = m.insert(
                q.mentor_id,
                MentorInfo { mentor_id: q.mentor_id, mentee_id: q.mentee_id, mentorship_date: now, mentor_exp: 0, is_mentor: true },
            ).insert(
                q.mentee_id,
                MentorInfo { mentor_id: q.mentor_id, mentee_id: q.mentee_id, mentorship_date: now, mentor_exp: 0, is_mentor: false },
            );
            &&& is_mentor_in(m2, q.mentor_id)
            &&& is_mentee_in(m2, q.mentee_id)
            &&& mentor_of(m2, q.mentee_id) == q.mentor_id
            &&& mentees_of(m2, q.mentor_id) == seq![q.mentee_id]
        }),
{
}

/// Cancelling from either side right after an accepted request removes both
/// records and leaves every other player's record as it was.
pub proof fn law_cancel_after_accept(m: Map<i32, MentorInfo>, q: MentorRequest, now: u64, by_mentee: bool)
    requires
        q.mentor_id != q.mentee_id,
    ensures
        ({
            let m2 = m.insert(
                q.mentor_id,
                MentorInfo { mentor_id: q.mentor_id, mentee_id: q.mentee_id, mentorship_date: now, mentor_exp: 0, is_mentor: true },
            ).insert(
                q.mentee_id,
                MentorInfo { mentor_id: q.mentor_id, mentee_id: q.mentee_id, mentorship_date: now, mentor_exp: 0, is_mentor: false },
            );
            let who = if by_mentee { q.mentee_id } else { q.mentor_id };
            let rec = m2[who];
            let partner = if rec.is_mentor { rec.mentee_id } else { rec.mentor_id };
            let m3 = m2.remove(who).remove(partner);
            &&& !m3.contains_key(q.mentor_id)
            &&& !m3.contains_key(q.mentee_id)
            &&& forall|k: i32| k != q.mentor_id && k != q.mentee_id ==> (m3.contains_key(k) == m.contains_key(k)
                && (m.contains_key(k) ==> m3[k] == m[k]))
        }),
{
}

/// A graduated mentee has no mentor any more, and the mentor's record is gone.
pub proof fn law_graduation_ends_mentorship(m: Map<i32, MentorInfo>, mentee: i32)
    requires
        is_mentee_in(m, mentee),
    ensures
        !is_mentee_in(m.remove(mentee).remove(m[mentee].mentor_id), mentee),
        mentor_of(m.remove(mentee).remove(m[mentee].mentor_id), mentee) == 0,
        !m.remove(mentee).remove(m[mentee].mentor_id).contains_key(m[mentee].mentor_id),
{
}


/// A mentee may graduate exactly when they are at least level 40, not above
/// their mentor, and at least seven whole days (7 * 86400 seconds) have
/// passed since the mentorship began.
pub proof fn law_graduation_rules(r: MentorInfo, mentee_level: u16, mentor_level: u16, now: u64)
    ensures
        graduation_allowed(r, mentee_level, mentor_level, now) <==> (mentee_level >= 40 && mentee_level <= mentor_level
            && now >= r.mentorship_date + 7 * 86400),
{
    let x = now - r.mentorship_date;
    assert(x / 86400 >= 7 <==> x >= 604800) by (nonlinear_arith);
}


/// A pending mentor request counts exactly while the time is before its
/// expiry, unchanged; one that counts at a later time counted at every
/// earlier time.
pub proof fn law_mentor_requests_expire(m: Map<i32, MentorRequest>, k: i32, earlier: u64, later: u64)
    requires
        earlier <= later,
    ensures
        live_mentor_requests(m, later).contains_key(k) <==> (m.contains_key(k) && later < m[k].expires_at),
        live_mentor_requests(m, later).contains_key(k) ==> live_mentor_requests(m, later)[k] == m[k],
        live_mentor_requests(m, later).contains_key(k) ==> live_mentor_requests(m, earlier).contains_key(k),
{
}

} // verus!
