//! Level/experience leaderboards, overall and per class.
use std::collections::HashMap;
use vstd::prelude::*;

use crate::world::{job_index, Job};

verus! {

broadcast use vstd::std_specs::hash::group_hash_axioms;

/// Which leaderboard a client asks for.
#[derive(Copy, Clone, Debug, Eq, PartialEq, Structural)]
pub enum RankType {
    Overall,
    Warrior,
    Wizard,
    Taoist,
    Assassin,
    Archer,
}

/// The wire number of a leaderboard kind.
pub open spec fn rank_type_number(t: RankType) -> u8 {
    match t {
        RankType::Overall => 0,
        RankType::Warrior => 1,
        RankType::Wizard => 2,
        RankType::Taoist => 3,
        RankType::Assassin => 4,
        RankType::Archer => 5,
    }
}

impl RankType {
    /// Decodes a wire number; numbers above 5 name no leaderboard.
    pub fn from_u8(v: u8) -> (r: Option<Self>)
        ensures
            v <= 5 <==> r is Some,
            r matches Some(t) ==> rank_type_number(t) == v,
    {
        match v {
            0 => Some(RankType::Overall),
            1 => Some(RankType::Warrior),
            2 => Some(RankType::Wizard),
            3 => Some(RankType::Taoist),
            4 => Some(RankType::Assassin),
            5 => Some(RankType::Archer),
            _ => None,
        }
    }

    /// The wire number of this leaderboard kind.
    pub fn as_u8(self) -> (r: u8)
        ensures
            r == rank_type_number(self),
    {
        match self {
            RankType::Overall => 0,
            RankType::Warrior => 1,
            RankType::Wizard => 2,
            RankType::Taoist => 3,
            RankType::Assassin => 4,
            RankType::Archer => 5,
        }
    }

    /// The per-class leaderboard of a class.
    pub fn for_job(job: Job) -> (r: Self)
        ensures
            rank_type_number(r) == job_index(job) + 1,
    {
        match job {
            Job::Warrior => RankType::Warrior,
            Job::Wizard => RankType::Wizard,
            Job::Taoist => RankType::Taoist,
            Job::Assassin => RankType::Assassin,
            Job::Archer => RankType::Archer,
        }
    }
}

/// One leaderboard row.
#[derive(Clone, Debug)]
pub struct RankCharacterInfo {
    pub player_id: i64,
    pub name: String,
    pub class: Job,
    pub level: u16,
    pub experience: i64,
    pub last_updated_ms: i64,
}

impl RankCharacterInfo {
    /// A field-for-field copy.
    pub fn duplicate(&self) -> (r: Self)
        ensures
            r == *self,
    {
        RankCharacterInfo {
            player_id: self.player_id,
            name: self.name.clone(),
            class: self.class,
            level: self.level,
            experience: self.experience,
            last_updated_ms: self.last_updated_ms,
        }
    }
}

/// `a` ranks strictly below `b`: lower level, or equal level and less experience.
pub open spec fn ranks_below(a: RankCharacterInfo, b: RankCharacterInfo) -> bool {
    a.level < b.level || (a.level == b.level && a.experience < b.experience)
}

/// A leaderboard is ordered best first: no row ranks below a later row.
pub open spec fn is_ranked(s: Seq<RankCharacterInfo>) -> bool {
    forall|i: int, j: int| 0 <= i < j < s.len() ==> !ranks_below(#[trigger] s[i], #[trigger] s[j])
}

/// Where a new row goes: before the first row that ranks below it, else at the end.
pub open spec fn insert_index(s: Seq<RankCharacterInfo>, info: RankCharacterInfo) -> int
    decreases s.len(),
{
    if s.len() == 0 {
        0
    } else if ranks_below(s[0], info) {
        0
    } else {
        1 + insert_index(s.drop_first(), info)
    }
}

/// The leaderboard with `info` inserted at its place.
pub open spec fn insert_ranked(s: Seq<RankCharacterInfo>, info: RankCharacterInfo) -> Seq<
    RankCharacterInfo,
> {
    s.insert(insert_index(s, info), info)
}

/// Index of the first row of a player, or the length when there is none.
pub open spec fn player_pos(s: Seq<RankCharacterInfo>, id: i64) -> int
    decreases s.len(),
{
    if s.len() == 0 {
        0
    } else if s[0].player_id == id {
        0
    } else {
        1 + player_pos(s.drop_first(), id)
    }
}

/// The leaderboard without the first row of a player.
pub open spec fn without_player(s: Seq<RankCharacterInfo>, id: i64) -> Seq<RankCharacterInfo> {
    let p = player_pos(s, id);
    if p < s.len() {
        s.remove(p)
    } else {
        s
    }
}

/// Number of rows that belong to a player.
pub open spec fn player_count(s: Seq<RankCharacterInfo>, id: i64) -> nat {
    s.filter(|r: RankCharacterInfo| r.player_id == id).len()
}

pub proof fn lemma_insert_index_char(s: Seq<RankCharacterInfo>, info: RankCharacterInfo, p: int)
    requires
        0 <= p <= s.len(),
        forall|j: int| 0 <= j < p ==> !ranks_below(#[trigger] s[j], info),
        p < s.len() ==> ranks_below(s[p], info),
    ensures
        insert_index(s, info) == p,
    decreases s.len(),
{
    if s.len() > 0 && p > 0 {
        assert(!ranks_below(s[0], info));
        let t = s.drop_first();
        assert forall|j: int| 0 <= j < p - 1 implies !ranks_below(#[trigger] t[j], info) by {
            assert(t[j] == s[j + 1]);
        }
        lemma_insert_index_char(t, info, p - 1);
    }
}

pub proof fn lemma_insert_index_bounds(s: Seq<RankCharacterInfo>, info: RankCharacterInfo)
    ensures
        0 <= insert_index(s, info) <= s.len(),
        forall|j: int| 0 <= j < insert_index(s, info) ==> !ranks_below(#[trigger] s[j], info),
        insert_index(s, info) < s.len() ==> ranks_below(s[insert_index(s, info)], info),
    decreases s.len(),
{
    if s.len() > 0 && !ranks_below(s[0], info) {
        let t = s.drop_first();
        lemma_insert_index_bounds(t, info);
        assert forall|j: int| 0 <= j < insert_index(s, info) implies !ranks_below(
            #[trigger] s[j],
            info,
        ) by {
            if j > 0 {
                assert(s[j] == t[j - 1]);
            }
        }
        if insert_index(s, info) < s.len() {
            assert(s[insert_index(s, info)] == t[insert_index(t, info)]);
        }
    }
}

pub proof fn lemma_player_pos_char(s: Seq<RankCharacterInfo>, id: i64, p: int)
    requires
        0 <= p <= s.len(),
        forall|j: int| 0 <= j < p ==> (#[trigger] s[j]).player_id != id,
        p < s.len() ==> s[p].player_id == id,
    ensures
        player_pos(s, id) == p,
    decreases s.len(),
{
    if s.len() > 0 && p > 0 {
        let t = s.drop_first();
        assert(s[0].player_id != id);
        assert forall|j: int| 0 <= j < p - 1 implies (#[trigger] t[j]).player_id != id by {
            assert(t[j] == s[j + 1]);
        }
        lemma_player_pos_char(t, id, p - 1);
    }
}

pub proof fn lemma_player_pos_bounds(s: Seq<RankCharacterInfo>, id: i64)
    ensures
        0 <= player_pos(s, id) <= s.len(),
        forall|j: int| 0 <= j < player_pos(s, id) ==> (#[trigger] s[j]).player_id != id,
        player_pos(s, id) < s.len() ==> s[player_pos(s, id)].player_id == id,
    decreases s.len(),
{
    if s.len() > 0 && s[0].player_id != id {
        let t = s.drop_first();
        lemma_player_pos_bounds(t, id);
        assert forall|j: int| 0 <= j < player_pos(s, id) implies (#[trigger] s[j]).player_id
            != id by {
            if j > 0 {
                assert(s[j] == t[j - 1]);
            }
        }
        if player_pos(s, id) < s.len() {
            assert(s[player_pos(s, id)] == t[player_pos(t, id)]);
        }
    }
}

/// Removes the first row of a player, if any.
fn remove_from_list(list: &mut Vec<RankCharacterInfo>, player_id: i64)
    ensures
        final(list)@ == without_player(old(list)@, player_id),
{
    let mut i: usize = 0;
    while i < list.len()
        invariant
            0 <= i <= list@.len(),
            list@ == old(list)@,
            forall|j: int| 0 <= j < i ==> (#[trigger] list@[j]).player_id != player_id,
        decreases list@.len() - i,
    {
        if list[i].player_id == player_id {
            proof {
                lemma_player_pos_char(list@, player_id, i as int);
            }
            list.remove(i);
            return;
        }
        i = i + 1;
    }
    proof {
        lemma_player_pos_char(list@, player_id, i as int);
    }
}

/// Position at which a row is inserted.
fn find_insert_pos(list: &Vec<RankCharacterInfo>, info: &RankCharacterInfo) -> (r: usize)
    ensures
        r == insert_index(list@, *info),
{
    let mut i: usize = 0;
    while i < list.len()
        invariant
            0 <= i <= list@.len(),
            forall|j: int| 0 <= j < i ==> !ranks_below(#[trigger] list@[j], *info),
        decreases list@.len() - i,
    {
        let r = &list[i];
        if r.level < info.level || (r.level == info.level && r.experience < info.experience) {
            proof {
                lemma_insert_index_char(list@, *info, i as int);
            }
            return i;
        }
        i = i + 1;
    }
    proof {
        lemma_insert_index_char(list@, *info, i as int);
    }
    i
}

/// Inserts a row before the first row that ranks below it.
fn insert_sorted(list: &mut Vec<RankCharacterInfo>, info: RankCharacterInfo)
    ensures
        final(list)@ == insert_ranked(old(list)@, info),
{
    let i = find_insert_pos(list, &info);
    proof {
        lemma_insert_index_bounds(list@, info);
    }
    list.insert(i, info);
}

/// The overall leaderboard and one leaderboard per class, keyed by class number.
#[derive(Clone, Debug)]
pub struct RankingTables {
    pub rank_top: Vec<RankCharacterInfo>,
    pub rank_by_class: HashMap<u8, Vec<RankCharacterInfo>>,
}

/// The per-class leaderboards as sequences.
pub open spec fn class_lists(m: Map<u8, Vec<RankCharacterInfo>>) -> Map<u8, Seq<RankCharacterInfo>> {
    m.map_values(|v: Vec<RankCharacterInfo>| v@)
}

/// The per-class leaderboards after a class's list was replaced.
pub open spec fn with_class_list(
    m: Map<u8, Seq<RankCharacterInfo>>,
    c: u8,
    s: Seq<RankCharacterInfo>,
) -> Map<u8, Seq<RankCharacterInfo>> {
    m.insert(c, s)
}

impl RankingTables {
    pub closed spec fn top(&self) -> Seq<RankCharacterInfo> {
        self.rank_top@
    }

    pub closed spec fn classes(&self) -> Map<u8, Seq<RankCharacterInfo>> {
        class_lists(self.rank_by_class@)
    }

    /// Empty leaderboards.
    pub fn new() -> (r: Self)
        ensures
            r.top() == Seq::<RankCharacterInfo>::empty(),
            r.classes() == Map::<u8, Seq<RankCharacterInfo>>::empty(),
    {
        let r = RankingTables { rank_top: Vec::new(), rank_by_class: HashMap::new() };
        proof {
            assert(r.classes() =~= Map::<u8, Seq<RankCharacterInfo>>::empty());
        }
        r
    }

    /// Drops every leaderboard, the per-class ones included.
    pub fn clear(&mut self)
        ensures
            final(self).top() == Seq::<RankCharacterInfo>::empty(),
            final(self).classes() == Map::<u8, Seq<RankCharacterInfo>>::empty(),
    {
        self.rank_top.clear();
        self.rank_by_class.clear();
        proof {
            assert(self.classes() =~= Map::<u8, Seq<RankCharacterInfo>>::empty());
        }
    }

    /// Replaces a player's row: the player's first row leaves the overall
    /// board and the board of the row's class, and the new row is put in
    /// its place in both (the class board is created if it is missing).
    pub fn add_or_update(&mut self, info: RankCharacterInfo)
        ensures
            final(self).top() == insert_ranked(without_player(old(self).top(), info.player_id), info),
            final(self).classes() == with_class_list(
                old(self).classes(),
                job_index(info.class),
                insert_ranked(
                    if old(self).classes().contains_key(job_index(info.class)) {
                        without_player(old(self).classes()[job_index(info.class)], info.player_id)
                    } else {
                        Seq::<RankCharacterInfo>::empty()
                    },
                    info,
                ),
            ),
    {
        let player_id = info.player_id;
        let class_key = info.class.index();
        let ghost old_classes = self.classes();
        remove_from_list(&mut self.rank_top, player_id);
        let mut list = match self.rank_by_class.remove(&class_key) {
            Some(l) => l,
            None => Vec::new(),
        };
        remove_from_list(&mut list, player_id);
        insert_sorted(&mut self.rank_top, info.duplicate());
        insert_sorted(&mut list, info);
        self.rank_by_class.insert(class_key, list);
        proof {
            assert(self.classes() =~= with_class_list(
                old_classes,
                job_index(info.class),
                insert_ranked(
                    if old_classes.contains_key(job_index(info.class)) {
                        without_player(old_classes[job_index(info.class)], info.player_id)
                    } else {
                        Seq::<RankCharacterInfo>::empty()
                    },
                    info,
                ),
            ));
        }
    }

    /// Removes a player's first overall row and, from the board of that
    /// row's class, the player's first row. A player without an overall
    /// row changes nothing.
    pub fn remove_player(&mut self, player_id: i64)
        ensures
            ({
                let p = player_pos(old(self).top(), player_id);
                if p < old(self).top().len() {
                    let c = job_index(old(self).top()[p].class);
                    &&& final(self).top() == old(self).top().remove(p)
                    &&& final(self).classes() == if old(self).classes().contains_key(c) {
                        with_class_list(
                            old(self).classes(),
                            c,
                            without_player(old(self).classes()[c], player_id),
                        )
                    } else {
                        old(self).classes()
                    }
                } else {
                    &&& final(self).top() == old(self).top()
                    &&& final(self).classes() == old(self).classes()
                }
            }),
    {
        let ghost old_classes = self.classes();
        let mut i: usize = 0;
        while i < self.rank_top.len()
            invariant
                0 <= i <= self.rank_top@.len(),
                self.rank_top@ == old(self).rank_top@,
                self.rank_by_class@ == old(self).rank_by_class@,
                old_classes == class_lists(old(self).rank_by_class@),
                forall|j: int| 0 <= j < i ==> (#[trigger] self.rank_top@[j]).player_id != player_id,
            decreases self.rank_top@.len() - i,
        {
            if self.rank_top[i].player_id == player_id {
                proof {
                    lemma_player_pos_char(self.rank_top@, player_id, i as int);
                }
                let info = self.rank_top.remove(i);
                let class_key = info.class.index();
                let ghost m0 = self.rank_by_class@;
                match self.rank_by_class.remove(&class_key) {
                    Some(l) => {
                        assert(m0.contains_key(class_key) && m0[class_key] == l);
                        assert(old_classes.contains_key(class_key));
                        let mut list = l;
                        remove_from_list(&mut list, player_id);
                        self.rank_by_class.insert(class_key, list);
                        proof {
                            assert(self.classes() =~= with_class_list(
                                old_classes,
                                class_key,
                                without_player(old_classes[class_key], player_id),
                            ));
                        }
                    },
                    None => {},
                }
                return;
            }
            i = i + 1;
        }
        proof {
            lemma_player_pos_char(self.rank_top@, player_id, i as int);
        }
    }

    /// The overall leaderboard.
    pub fn overall(&self) -> (r: &[RankCharacterInfo])
        ensures
            r@ == self.top(),
    {
        self.rank_top.as_slice()
    }

    /// A class's leaderboard, if one was ever created since the last clear.
    pub fn rankings_for_class(&self, class: Job) -> (r: Option<&[RankCharacterInfo]>)
        ensures
            match r {
                Some(s) => self.classes().contains_key(job_index(class)) && s@ == self.classes()[job_index(class)],
                None => !self.classes().contains_key(job_index(class)),
            },
    {
        match self.rank_by_class.get(&class.index()) {
            Some(v) => Some(v.as_slice()),
            None => None,
        }
    }

    /// The leaderboard a client asks for.
    pub fn rankings_for_type(&self, rank_type: RankType) -> (r: Option<&[RankCharacterInfo]>)
        ensures
            rank_type == RankType::Overall ==> (r matches Some(s) && s@ == self.top()),
            rank_type != RankType::Overall ==> {
                let c = (rank_type_number(rank_type) - 1) as u8;
                match r {
                    Some(s) => self.classes().contains_key(c) && s@ == self.classes()[c],
                    None => !self.classes().contains_key(c),
                }
            },
    {
        match rank_type {
            RankType::Overall => Some(self.overall()),
            RankType::Warrior => self.rankings_for_class(Job::Warrior),
            RankType::Wizard => self.rankings_for_class(Job::Wizard),
            RankType::Taoist => self.rankings_for_class(Job::Taoist),
            RankType::Assassin => self.rankings_for_class(Job::Assassin),
            RankType::Archer => self.rankings_for_class(Job::Archer),
        }
    }
}


/// A player has at most one row on a board.
pub open spec fn at_most_one_row(s: Seq<RankCharacterInfo>, id: i64) -> bool {
    forall|i: int, j: int|
        0 <= i < s.len() && 0 <= j < s.len() && (#[trigger] s[i]).player_id == id && (#[trigger] s[j]).player_id == id ==> i == j
}

/// A player has exactly one row on a board, at index `p`.
pub open spec fn single_row_at(s: Seq<RankCharacterInfo>, id: i64, p: int) -> bool {
    &&& 0 <= p < s.len()
    &&& s[p].player_id == id
    &&& forall|j: int| 0 <= j < s.len() && j != p ==> (#[trigger] s[j]).player_id != id
}

proof fn lemma_without_player_keeps_ranked(s: Seq<RankCharacterInfo>, id: i64)
    requires
        is_ranked(s),
    ensures
        is_ranked(without_player(s, id)),
{
    lemma_player_pos_bounds(s, id);
    let p = player_pos(s, id);
    if p < s.len() {
        let w = s.remove(p);
        assert forall|i: int, j: int| 0 <= i < j < w.len() implies !ranks_below(
            #[trigger] w[i],
            #[trigger] w[j],
        ) by {
            let si = if i < p { i } else { i + 1 };
            let sj = if j < p { j } else { j + 1 };
            assert(w[i] == s[si]);
            assert(w[j] == s[sj]);
        }
    }
}

proof fn lemma_insert_ranked_keeps_ranked(s: Seq<RankCharacterInfo>, info: RankCharacterInfo)
    requires
        is_ranked(s),
    ensures
        is_ranked(insert_ranked(s, info)),
{
    lemma_insert_index_bounds(s, info);
    let p = insert_index(s, info);
    let r = s.insert(p, info);
    assert forall|i: int, j: int| 0 <= i < j < r.len() implies !ranks_below(
        #[trigger] r[i],
        #[trigger] r[j],
    ) by {
        if j < p {
            assert(r[i] == s[i] && r[j] == s[j]);
        } else if j == p {
            assert(r[i] == s[i]);
        } else if i == p {
            assert(r[j] == s[j - 1]);
            assert(ranks_below(s[p], info));
            if j - 1 > p {
                assert(!ranks_below(s[p], s[j - 1]));
            }
        } else if i < p {
            assert(r[i] == s[i] && r[j] == s[j - 1]);
        } else {
            assert(r[i] == s[i - 1] && r[j] == s[j - 1]);
        }
    }
}

proof fn lemma_without_player_drops_single(s: Seq<RankCharacterInfo>, id: i64)
    requires
        at_most_one_row(s, id),
    ensures
        forall|j: int| 0 <= j < without_player(s, id).len() ==> (#[trigger] without_player(s, id)[j]).player_id != id,
        forall|r: RankCharacterInfo| s.contains(r) && r.player_id != id ==> without_player(s, id).contains(r),
{
    lemma_player_pos_bounds(s, id);
    let p = player_pos(s, id);
    if p < s.len() {
        let w = s.remove(p);
        assert forall|j: int| 0 <= j < w.len() implies (#[trigger] w[j]).player_id != id by {
            if j < p {
                assert(w[j] == s[j]);
            } else {
                assert(w[j] == s[j + 1]);
            }
        }
        assert forall|r: RankCharacterInfo| s.contains(r) && r.player_id != id implies w.contains(r) by {
            let k = choose|k: int| 0 <= k < s.len() && s[k] == r;
            if k < p {
                assert(w[k] == r);
            } else {
                assert(k != p);
                assert(w[k - 1] == r);
            }
        }
    }
}

proof fn lemma_insert_ranked_single(s: Seq<RankCharacterInfo>, info: RankCharacterInfo)
    requires
        forall|j: int| 0 <= j < s.len() ==> (#[trigger] s[j]).player_id != info.player_id,
    ensures
        single_row_at(insert_ranked(s, info), info.player_id, insert_index(s, info)),
        forall|r: RankCharacterInfo| s.contains(r) ==> insert_ranked(s, info).contains(r),
{
    lemma_insert_index_bounds(s, info);
    let p = insert_index(s, info);
    let r = s.insert(p, info);
    assert forall|j: int| 0 <= j < r.len() && j != p implies (#[trigger] r[j]).player_id != info.player_id by {
        if j < p {
            assert(r[j] == s[j]);
        } else {
            assert(r[j] == s[j - 1]);
        }
    }
    assert forall|x: RankCharacterInfo| s.contains(x) implies r.contains(x) by {
        let k = choose|k: int| 0 <= k < s.len() && s[k] == x;
        if k < p {
            assert(r[k] == x);
        } else {
            assert(r[k + 1] == x);
        }
    }
}

/// Updating a player keeps a board ordered best first: if the overall board
/// and the board of the row's class were ordered, they stay ordered.
pub proof fn law_add_or_update_keeps_order(before: RankingTables, after: RankingTables, info: RankCharacterInfo)
    requires
        is_ranked(before.top()),
        before.classes().contains_key(job_index(info.class)) ==> is_ranked(
            before.classes()[job_index(info.class)],
        ),
        after.top() == insert_ranked(without_player(before.top(), info.player_id), info),
        after.classes() == with_class_list(
            before.classes(),
            job_index(info.class),
            insert_ranked(
                if before.classes().contains_key(job_index(info.class)) {
                    without_player(before.classes()[job_index(info.class)], info.player_id)
                } else {
                    Seq::<RankCharacterInfo>::empty()
                },
                info,
            ),
        ),
    ensures
        is_ranked(after.top()),
        is_ranked(after.classes()[job_index(info.class)]),
{
    lemma_without_player_keeps_ranked(before.top(), info.player_id);
    lemma_insert_ranked_keeps_ranked(without_player(before.top(), info.player_id), info);
    let c = job_index(info.class);
    let base = if before.classes().contains_key(c) {
        without_player(before.classes()[c], info.player_id)
    } else {
        Seq::<RankCharacterInfo>::empty()
    };
    if before.classes().contains_key(c) {
        lemma_without_player_keeps_ranked(before.classes()[c], info.player_id);
    }
    lemma_insert_ranked_keeps_ranked(base, info);
}

/// After an update a player has exactly one overall row, the new one, and
/// every other player's rows are kept, provided the player had at most one
/// row before.
pub proof fn law_add_or_update_single_row(before: RankingTables, after: RankingTables, info: RankCharacterInfo)
    requires
        at_most_one_row(before.top(), info.player_id),
        after.top() == insert_ranked(without_player(before.top(), info.player_id), info),
    ensures
        single_row_at(after.top(), info.player_id, player_pos(after.top(), info.player_id)),
        after.top()[player_pos(after.top(), info.player_id)] == info,
        forall|r: RankCharacterInfo| before.top().contains(r) && r.player_id != info.player_id ==> after.top().contains(r),
{
    let w = without_player(before.top(), info.player_id);
    lemma_without_player_drops_single(before.top(), info.player_id);
    lemma_insert_ranked_single(w, info);
    lemma_insert_index_bounds(w, info);
    let p = insert_index(w, info);
    let t = after.top();
    assert forall|j: int| 0 <= j < p implies (#[trigger] t[j]).player_id != info.player_id by {}
    lemma_player_pos_char(t, info.player_id, p);
}

/// Removing a player after an update leaves no overall row of that player.
pub proof fn law_remove_after_update(
    before: RankingTables,
    updated: RankingTables,
    removed: RankingTables,
    info: RankCharacterInfo,
)
    requires
        at_most_one_row(before.top(), info.player_id),
        updated.top() == insert_ranked(without_player(before.top(), info.player_id), info),
        removed.top() == updated.top().remove(player_pos(updated.top(), info.player_id)),
    ensures
        forall|j: int| 0 <= j < removed.top().len() ==> (#[trigger] removed.top()[j]).player_id != info.player_id,
{
    law_add_or_update_single_row(before, updated, info);
    let t = updated.top();
    let p = player_pos(t, info.player_id);
    let r = removed.top();
    assert forall|j: int| 0 <= j < r.len() implies (#[trigger] r[j]).player_id != info.player_id by {
        if j < p {
            assert(r[j] == t[j]);
        } else {
            assert(r[j] == t[j + 1]);
        }
    }
}


/// How many rows one rankings page shows.
pub const RANK_PAGE_SIZE: usize = 20;

/// One page of a leaderboard as the client asks for it.
#[derive(Clone, Debug)]
pub struct RankingPage {
    /// The asking player's place on the board (1 is first), 0 when absent.
    pub my_rank: i32,
    /// The board position of the first row shown.
    pub first: usize,
    /// The player ids of the rows shown, in board order.
    pub listings: Vec<i64>,
    /// The number of rows the client is told the board has.
    pub count: i32,
}

/// The first position on the board of a player, or the board's length.
pub open spec fn board_pos(board: Seq<RankCharacterInfo>, id: i64) -> int
    decreases board.len(),
{
    if board.len() == 0 {
        0
    } else if board[0].player_id == id {
        0
    } else {
        1 + board_pos(board.drop_first(), id)
    }
}

proof fn lemma_board_pos(board: Seq<RankCharacterInfo>, id: i64, p: int)
    requires
        0 <= p <= board.len(),
        forall|j: int| 0 <= j < p ==> (#[trigger] board[j]).player_id != id,
        p < board.len() ==> board[p].player_id == id,
    ensures
        board_pos(board, id) == p,
    decreases board.len(),
{
    if board.len() > 0 && p > 0 {
        let t = board.drop_first();
        assert forall|j: int| 0 <= j < p - 1 implies (#[trigger] t[j]).player_id != id by {
            assert(t[j] == board[j + 1]);
        }
        if p < board.len() {
            assert(t[p - 1] == board[p]);
        }
        lemma_board_pos(t, id, p - 1);
    }
}

/// The asking player's place: one past the board position of the character
/// with its index, 0 when it is not on the board or no character is in play.
pub open spec fn place_on_board(board: Seq<RankCharacterInfo>, me: Option<i32>) -> i32 {
    match me {
        Some(c) => {
            let p = board_pos(board, c as i64);
            if p < board.len() { (p + 1) as i32 } else { 0 }
        },
        None => 0,
    }
}

/// The page the client gets for a request from `rank_index`: none for an
/// index off a non-empty board; an empty page with count 0 for an empty
/// board; else up to twenty rows from the index, the asker's place, and the
/// count (the online total when asked for, else the board's length capped
/// at `i32::MAX`).
pub open spec fn page_fits(
    r: Option<RankingPage>,
    board: Seq<RankCharacterInfo>,
    rank_index: i32,
    me: Option<i32>,
    online_only: bool,
    online_total: i32,
) -> bool {
    if board.len() == 0 {
        r matches Some(p) && p.my_rank == 0 && p.listings@.len() == 0 && p.count == 0 && p.first == 0
    } else if rank_index < 0 || rank_index >= board.len() {
        r is None
    } else {
        let end = if rank_index + RANK_PAGE_SIZE < board.len() { rank_index + RANK_PAGE_SIZE } else { board.len() as int };
        r matches Some(p) && p.my_rank == place_on_board(board, me) && p.first == rank_index
            && p.listings@ == board.subrange(rank_index as int, end).map_values(|e: RankCharacterInfo| e.player_id)
            && p.count == (if online_only { online_total } else if board.len() > i32::MAX { i32::MAX } else { board.len() as i32 })
    }
}

/// One page of a leaderboard for a request.
pub fn ranking_page(board: &[RankCharacterInfo], rank_index: i32, me: Option<i32>, online_only: bool, online_total: i32) -> (r: Option<RankingPage>)
    ensures
        page_fits(r, board@, rank_index, me, online_only, online_total),
{
    let total = board.len();
    if total == 0 {
        return Some(RankingPage { my_rank: 0, first: 0, listings: Vec::new(), count: 0 });
    }
    if rank_index < 0 || rank_index as usize >= total {
        return None;
    }
    let start = rank_index as usize;
    let my_rank: i32 = match me {
        Some(c) => {
            let id = c as i64;
            let mut k: usize = 0;
            let mut found: Option<usize> = None;
            while k < total
                invariant_except_break
                    found is None,
                invariant
                    total == board@.len(),
                    0 <= k <= total,
                    forall|j: int| 0 <= j < k ==> (#[trigger] board@[j]).player_id != id,
                ensures
                    match found {
                        Some(p) => p < total && board_pos(board@, id) == p,
                        None => forall|j: int| 0 <= j < total ==> (#[trigger] board@[j]).player_id != id,
                    },
                decreases total - k,
            {
                if board[k].player_id == id {
                    proof {
                        lemma_board_pos(board@, id, k as int);
                    }
                    found = Some(k);
                    break;
                }
                k = k + 1;
            }
            proof {
                if found is None {
                    lemma_board_pos(board@, id, total as int);
                }
            }
            match found {
                Some(p) => (p + 1) as i32,
                None => 0,
            }
        },
        None => 0,
    };
    let end = if total - start > RANK_PAGE_SIZE { start + RANK_PAGE_SIZE } else { total };
    let mut listings: Vec<i64> = Vec::new();
    let mut i: usize = start;
    while i < end
        invariant
            start <= i <= end <= board@.len(),
            listings@ == board@.subrange(start as int, i as int).map_values(|e: RankCharacterInfo| e.player_id),
        decreases end - i,
    {
        listings.push(board[i].player_id);
        proof {
            assert(listings@ =~= board@.subrange(start as int, i + 1).map_values(|e: RankCharacterInfo| e.player_id));
        }
        i = i + 1;
    }
    let count: i32 = if online_only {
        online_total
    } else if total > 2147483647usize {
        i32::MAX
    } else {
        total as i32
    };
    Some(RankingPage { my_rank, first: start, listings, count })
}

/// The rows of a board whose class has the given number, in board order.
pub open spec fn of_class(s: Seq<RankCharacterInfo>, c: u8) -> Seq<RankCharacterInfo>
    decreases s.len(),
{
    if s.len() == 0 {
        Seq::empty()
    } else {
        of_class(s.drop_last(), c) + if job_index(s.last().class) == c {
            seq![s.last()]
        } else {
            Seq::<RankCharacterInfo>::empty()
        }
    }
}

/// No two rows of a board belong to the same player.
pub open spec fn ids_unique(s: Seq<RankCharacterInfo>) -> bool {
    forall|i: int, j: int|
        0 <= i < s.len() && 0 <= j < s.len() && i != j ==> (#[trigger] s[i]).player_id != (#[trigger] s[j]).player_id
}

/// A class's board, empty when the class has none.
pub open spec fn class_board(m: Map<u8, Seq<RankCharacterInfo>>, c: u8) -> Seq<RankCharacterInfo> {
    if m.contains_key(c) {
        m[c]
    } else {
        Seq::empty()
    }
}

/// How many classes there are; class numbers run from 0 below it.
pub const CLASS_COUNT: u8 = 5;

/// The boards agree: the overall board is ordered best first with one row
/// per player, and each of the five class boards is exactly the overall
/// rows of that class, in the same order (a missing board counts as
/// empty). Keys of the class map outside the class numbers are not looked
/// at.
pub open spec fn boards_agree(top: Seq<RankCharacterInfo>, m: Map<u8, Seq<RankCharacterInfo>>) -> bool {
    &&& is_ranked(top)
    &&& ids_unique(top)
    &&& forall|c: u8| c < CLASS_COUNT ==> #[trigger] class_board(m, c) == of_class(top, c)
}

proof fn lemma_of_class_add(a: Seq<RankCharacterInfo>, b: Seq<RankCharacterInfo>, c: u8)
    ensures
        of_class(a + b, c) == of_class(a, c) + of_class(b, c),
    decreases b.len(),
{
    if b.len() == 0 {
        assert(a + b =~= a);
        assert(of_class(a, c) + of_class(b, c) =~= of_class(a, c));
    } else {
        assert((a + b).drop_last() =~= a + b.drop_last());
        assert((a + b).last() == b.last());
        lemma_of_class_add(a, b.drop_last(), c);
        let tail = if job_index(b.last().class) == c { seq![b.last()] } else { Seq::<RankCharacterInfo>::empty() };
        assert(of_class(a, c) + of_class(b.drop_last(), c) + tail =~= of_class(a, c) + (of_class(b.drop_last(), c) + tail));
    }
}

proof fn lemma_of_class_one(x: RankCharacterInfo, c: u8)
    ensures
        of_class(seq![x], c) == if job_index(x.class) == c { seq![x] } else { Seq::<RankCharacterInfo>::empty() },
{
    assert(seq![x].drop_last() =~= Seq::<RankCharacterInfo>::empty());
    assert(of_class(Seq::<RankCharacterInfo>::empty(), c) == Seq::<RankCharacterInfo>::empty());
    assert(seq![x].last() == x);
    let tail = if job_index(x.class) == c { seq![x] } else { Seq::<RankCharacterInfo>::empty() };
    assert(Seq::<RankCharacterInfo>::empty() + tail =~= tail);
}

proof fn lemma_of_class_elems(s: Seq<RankCharacterInfo>, c: u8)
    ensures
        of_class(s, c).len() <= s.len(),
        forall|k: int| 0 <= k < of_class(s, c).len() ==> s.contains(#[trigger] of_class(s, c)[k]) && job_index(of_class(s, c)[k].class) == c,
    decreases s.len(),
{
    if s.len() > 0 {
        let d = s.drop_last();
        lemma_of_class_elems(d, c);
        let f = of_class(s, c);
        assert forall|k: int| 0 <= k < f.len() implies s.contains(#[trigger] f[k]) && job_index(f[k].class) == c by {
            if k < of_class(d, c).len() {
                assert(f[k] == of_class(d, c)[k]);
                let m = choose|m: int| 0 <= m < d.len() && d[m] == f[k];
                assert(s[m] == f[k]);
            } else {
                assert(f[k] == s.last());
                assert(s[s.len() - 1] == f[k]);
            }
        }
    }
}

proof fn lemma_split(s: Seq<RankCharacterInfo>, i: int)
    requires
        0 <= i <= s.len(),
    ensures
        s == s.take(i) + s.skip(i),
{
    assert(s =~= s.take(i) + s.skip(i));
}


proof fn lemma_no_id_in_class(t: Seq<RankCharacterInfo>, id: i64, c: u8)
    requires
        forall|j: int| 0 <= j < t.len() ==> (#[trigger] t[j]).player_id != id,
    ensures
        forall|k: int| 0 <= k < of_class(t, c).len() ==> (#[trigger] of_class(t, c)[k]).player_id != id,
{
    lemma_of_class_elems(t, c);
    let f = of_class(t, c);
    assert forall|k: int| 0 <= k < f.len() implies (#[trigger] f[k]).player_id != id by {
        assert(t.contains(f[k]));
        let m = choose|m: int| 0 <= m < t.len() && t[m] == f[k];
        assert(t[m].player_id != id);
    }
}

/// Taking a class's rows commutes with dropping a player's row, on a board
/// with one row per player.
proof fn lemma_of_class_without(s: Seq<RankCharacterInfo>, id: i64, c: u8)
    requires
        ids_unique(s),
    ensures
        of_class(without_player(s, id), c) == without_player(of_class(s, c), id),
{
    lemma_player_pos_bounds(s, id);
    let p = player_pos(s, id);
    let f = of_class(s, c);
    if p == s.len() {
        assert forall|j: int| 0 <= j < s.len() implies (#[trigger] s[j]).player_id != id by {}
        lemma_no_id_in_class(s, id, c);
        lemma_player_pos_char(f, id, f.len() as int);
    } else {
        let t = s.take(p);
        let u = s.skip(p + 1);
        assert(s.remove(p) =~= t + u);
        assert(s =~= t + seq![s[p]] + u);
        lemma_of_class_add(t + seq![s[p]], u, c);
        lemma_of_class_add(t, seq![s[p]], c);
        lemma_of_class_add(t, u, c);
        lemma_of_class_one(s[p], c);
        let a = of_class(t, c);
        let b = of_class(u, c);
        assert forall|j: int| 0 <= j < t.len() implies (#[trigger] t[j]).player_id != id by {
            assert(t[j] == s[j]);
        }
        assert forall|j: int| 0 <= j < u.len() implies (#[trigger] u[j]).player_id != id by {
            assert(u[j] == s[p + 1 + j]);
            assert(s[p + 1 + j].player_id != s[p].player_id);
        }
        lemma_no_id_in_class(t, id, c);
        lemma_no_id_in_class(u, id, c);
        if job_index(s[p].class) == c {
            assert(f =~= a + seq![s[p]] + b);
            assert forall|j: int| 0 <= j < a.len() implies (#[trigger] f[j]).player_id != id by {
                assert(f[j] == a[j]);
            }
            assert(f[a.len() as int] == s[p]);
            lemma_player_pos_char(f, id, a.len() as int);
            assert(f.remove(a.len() as int) =~= a + b);
        } else {
            assert(f =~= a + b);
            assert forall|j: int| 0 <= j < f.len() implies (#[trigger] f[j]).player_id != id by {
                if j < a.len() {
                    assert(f[j] == a[j]);
                } else {
                    assert(f[j] == b[j - a.len()]);
                }
            }
            lemma_player_pos_char(f, id, f.len() as int);
        }
    }
}

/// Taking a class's rows commutes with putting a row in its place on an
/// ordered board.
proof fn lemma_of_class_insert(w: Seq<RankCharacterInfo>, x: RankCharacterInfo, c: u8)
    requires
        is_ranked(w),
    ensures
        of_class(insert_ranked(w, x), c) == if job_index(x.class) == c {
            insert_ranked(of_class(w, c), x)
        } else {
            of_class(w, c)
        },
{
    lemma_insert_index_bounds(w, x);
    let i = insert_index(w, x);
    let t = w.take(i);
    let u = w.skip(i);
    assert(insert_ranked(w, x) =~= t + seq![x] + u);
    assert(w =~= t + u);
    lemma_of_class_add(t + seq![x], u, c);
    lemma_of_class_add(t, seq![x], c);
    lemma_of_class_add(t, u, c);
    lemma_of_class_one(x, c);
    let a = of_class(t, c);
    let b = of_class(u, c);
    if job_index(x.class) == c {
        let f = a + b;
        lemma_of_class_elems(t, c);
        lemma_of_class_elems(u, c);
        assert forall|j: int| 0 <= j < a.len() implies !ranks_below(#[trigger] f[j], x) by {
            assert(f[j] == a[j]);
            assert(t.contains(a[j]));
            let m = choose|m: int| 0 <= m < t.len() && t[m] == a[j];
            assert(w[m] == t[m]);
        }
        if a.len() < f.len() {
            assert(f[a.len() as int] == b[0]);
            assert(u.contains(b[0]));
            let m = choose|m: int| 0 <= m < u.len() && u[m] == b[0];
            assert(u[m] == w[i + m]);
            if m > 0 {
                assert(!ranks_below(w[i], w[i + m]));
            }
        }
        lemma_insert_index_char(f, x, a.len() as int);
        assert(f.insert(a.len() as int, x) =~= a + seq![x] + b);
    } else {
        assert(a + Seq::<RankCharacterInfo>::empty() + b =~= a + b);
    }
}


proof fn lemma_without_keeps_unique(s: Seq<RankCharacterInfo>, id: i64)
    requires
        ids_unique(s),
    ensures
        ids_unique(without_player(s, id)),
{
    lemma_player_pos_bounds(s, id);
    let p = player_pos(s, id);
    if p < s.len() {
        let w = s.remove(p);
        assert forall|i: int, j: int| 0 <= i < w.len() && 0 <= j < w.len() && i != j implies (#[trigger] w[i]).player_id != (#[trigger] w[j]).player_id by {
            let si = if i < p { i } else { i + 1 };
            let sj = if j < p { j } else { j + 1 };
            assert(w[i] == s[si]);
            assert(w[j] == s[sj]);
        }
    }
}

proof fn lemma_insert_keeps_unique(s: Seq<RankCharacterInfo>, x: RankCharacterInfo)
    requires
        ids_unique(s),
        forall|j: int| 0 <= j < s.len() ==> (#[trigger] s[j]).player_id != x.player_id,
    ensures
        ids_unique(insert_ranked(s, x)),
{
    lemma_insert_index_bounds(s, x);
    let p = insert_index(s, x);
    let r = s.insert(p, x);
    assert forall|i: int, j: int| 0 <= i < r.len() && 0 <= j < r.len() && i != j implies (#[trigger] r[i]).player_id != (#[trigger] r[j]).player_id by {
        if i != p {
            let si = if i < p { i } else { i - 1 };
            assert(r[i] == s[si]);
        }
        if j != p {
            let sj = if j < p { j } else { j - 1 };
            assert(r[j] == s[sj]);
        }
    }
}

/// A row is among the rows of its own class.
proof fn lemma_of_class_has(s: Seq<RankCharacterInfo>, i: int)
    requires
        0 <= i < s.len(),
    ensures
        of_class(s, job_index(s[i].class)).contains(s[i]),
{
    let c = job_index(s[i].class);
    let t = s.take(i);
    let u = s.skip(i + 1);
    assert(s =~= t + seq![s[i]] + u);
    lemma_of_class_add(t + seq![s[i]], u, c);
    lemma_of_class_add(t, seq![s[i]], c);
    lemma_of_class_one(s[i], c);
    let f = of_class(s, c);
    let a = of_class(t, c);
    assert(f[a.len() as int] == s[i]);
}

/// A class's rows hold no row of a player whose rows are all of other classes.
proof fn lemma_of_class_without_absent(t: Seq<RankCharacterInfo>, id: i64, c: u8)
    requires
        forall|j: int| 0 <= j < t.len() && (#[trigger] t[j]).player_id == id ==> job_index(t[j].class) != c,
    ensures
        without_player(of_class(t, c), id) == of_class(t, c),
        forall|k: int| 0 <= k < of_class(t, c).len() ==> (#[trigger] of_class(t, c)[k]).player_id != id,
{
    lemma_of_class_elems(t, c);
    let f = of_class(t, c);
    assert forall|k: int| 0 <= k < f.len() implies (#[trigger] f[k]).player_id != id by {
        assert(t.contains(f[k]));
        let m = choose|m: int| 0 <= m < t.len() && t[m] == f[k];
        assert(t[m].player_id == f[k].player_id);
    }
    lemma_player_pos_char(f, id, f.len() as int);
}

/// Updating a player keeps the boards in agreement. If the overall board
/// was ordered best first with one row per player, each class board held
/// exactly the overall rows of its class, and the player's existing row (if
/// any) is of the new row's class, then afterwards the same holds; the
/// player has exactly one overall row, the new one; the overall rows are the
/// old ones, less the player's old row, plus the new row; and the board of
/// the new row's class exists.
pub proof fn law_update_keeps_boards_agreeing(before: RankingTables, after: RankingTables, info: RankCharacterInfo)
    requires
        boards_agree(before.top(), before.classes()),
        forall|j: int| 0 <= j < before.top().len() && (#[trigger] before.top()[j]).player_id == info.player_id ==> before.top()[j].class == info.class,
        after.top() == insert_ranked(without_player(before.top(), info.player_id), info),
        after.classes() == with_class_list(
            before.classes(),
            job_index(info.class),
            insert_ranked(
                if before.classes().contains_key(job_index(info.class)) {
                    without_player(before.classes()[job_index(info.class)], info.player_id)
                } else {
                    Seq::<RankCharacterInfo>::empty()
                },
                info,
            ),
        ),
    ensures
        boards_agree(after.top(), after.classes()),
        single_row_at(after.top(), info.player_id, player_pos(after.top(), info.player_id)),
        after.top()[player_pos(after.top(), info.player_id)] == info,
        after.top().to_multiset() == (if player_pos(before.top(), info.player_id) < before.top().len() {
            before.top().to_multiset().remove(before.top()[player_pos(before.top(), info.player_id)])
        } else {
            before.top().to_multiset()
        }).insert(info),
        after.classes().contains_key(job_index(info.class)),
{
    let t = before.top();
    let m = before.classes();
    let id = info.player_id;
    let cls = job_index(info.class);
    let w = without_player(t, id);
    let n = after.top();
    assert(at_most_one_row(t, id));
    law_add_or_update_single_row(before, after, info);
    lemma_without_player_keeps_ranked(t, id);
    lemma_insert_ranked_keeps_ranked(w, info);
    lemma_without_keeps_unique(t, id);
    lemma_without_player_drops_single(t, id);
    lemma_insert_keeps_unique(w, info);
    lemma_player_pos_bounds(t, id);
    lemma_insert_index_bounds(w, info);
    if player_pos(t, id) < t.len() {
        vstd::seq_lib::to_multiset_remove(t, player_pos(t, id));
    }
    vstd::seq_lib::to_multiset_insert(w, insert_index(w, info), info);
    assert forall|c: u8| c < CLASS_COUNT implies #[trigger] class_board(after.classes(), c) == of_class(n, c) by {
        lemma_of_class_insert(w, info, c);
        lemma_of_class_without(t, id, c);
        assert(class_board(m, c) == of_class(t, c));
        if c == cls {
            if !m.contains_key(cls) {
                assert(of_class(t, cls) == Seq::<RankCharacterInfo>::empty());
                assert(player_pos(Seq::<RankCharacterInfo>::empty(), id) == 0);
                assert(without_player(Seq::<RankCharacterInfo>::empty(), id) == Seq::<RankCharacterInfo>::empty());
            }
        } else {
            assert forall|j: int| 0 <= j < t.len() && (#[trigger] t[j]).player_id == id implies job_index(t[j].class) != c by {
                assert(t[j].class == info.class);
            }
            lemma_of_class_without_absent(t, id, c);
            assert(class_board(after.classes(), c) == class_board(m, c));
        }
    }
}

/// Removing a player keeps the boards in agreement. If the overall board
/// was ordered best first with one row per player and each class board held
/// exactly the overall rows of its class, then afterwards the same holds;
/// the overall board is the old one without the player's row, the other
/// rows kept in order; neither it nor any class board holds a row of the
/// player; and a player without a row leaves every board as it was.
pub proof fn law_removal_keeps_boards_agreeing(before: RankingTables, after: RankingTables, player_id: i64)
    requires
        boards_agree(before.top(), before.classes()),
        ({
            let p = player_pos(before.top(), player_id);
            if p < before.top().len() {
                let c = job_index(before.top()[p].class);
                &&& after.top() == before.top().remove(p)
                &&& after.classes() == if before.classes().contains_key(c) {
                    with_class_list(
                        before.classes(),
                        c,
                        without_player(before.classes()[c], player_id),
                    )
                } else {
                    before.classes()
                }
            } else {
                &&& after.top() == before.top()
                &&& after.classes() == before.classes()
            }
        }),
    ensures
        boards_agree(after.top(), after.classes()),
        after.top() == without_player(before.top(), player_id),
        forall|j: int| 0 <= j < after.top().len() ==> (#[trigger] after.top()[j]).player_id != player_id,
        forall|c: u8, k: int| c < CLASS_COUNT && 0 <= k < class_board(after.classes(), c).len() ==> (#[trigger] class_board(after.classes(), c)[k]).player_id != player_id,
        player_pos(before.top(), player_id) == before.top().len() ==> after.top() == before.top() && after.classes() == before.classes(),
{
    let t = before.top();
    let m = before.classes();
    let id = player_id;
    lemma_player_pos_bounds(t, id);
    let p = player_pos(t, id);
    let n = after.top();
    assert(at_most_one_row(t, id));
    lemma_without_player_drops_single(t, id);
    if p < t.len() {
        let c0 = job_index(t[p].class);
        lemma_without_player_keeps_ranked(t, id);
        lemma_without_keeps_unique(t, id);
        lemma_of_class_has(t, p);
        assert(m.contains_key(c0)) by {
            if !m.contains_key(c0) {
                assert(class_board(m, c0) == of_class(t, c0));
            }
        }
        assert forall|c: u8| c < CLASS_COUNT implies #[trigger] class_board(after.classes(), c) == of_class(n, c) by {
            lemma_of_class_without(t, id, c);
            assert(class_board(m, c) == of_class(t, c));
            if c != c0 {
                assert forall|j: int| 0 <= j < t.len() && (#[trigger] t[j]).player_id == id implies job_index(t[j].class) != c by {
                    assert(j == p);
                }
                lemma_of_class_without_absent(t, id, c);
                assert(class_board(after.classes(), c) == class_board(m, c));
            }
        }
    }
    assert forall|c: u8, k: int| c < CLASS_COUNT && 0 <= k < class_board(after.classes(), c).len() implies (#[trigger] class_board(after.classes(), c)[k]).player_id != id by {
        assert(class_board(after.classes(), c) == of_class(n, c));
        lemma_no_id_in_class(n, id, c);
    }
}

} // verus!
