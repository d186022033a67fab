//! Quest definitions, their registry, and a player's progress on a quest.
use std::collections::HashMap;
use vstd::prelude::*;

use crate::item::{ItemInfoData, UserItemData};
use crate::text::{decimal, int_text, join, text};
use crate::maps::{lists_values, map_get_mut, values_of};

verus! {

broadcast use vstd::std_specs::hash::group_hash_axioms;

#[derive(Clone, Copy, Debug, PartialEq, Eq, Hash, Structural)]
pub struct QuestId(pub i32);

#[derive(Clone, Copy, Debug, PartialEq, Eq, Structural)]
pub struct QuestType(pub u8);

#[derive(Clone, Copy, Debug, PartialEq, Eq, Structural)]
pub struct RequiredClass(pub u8);

#[derive(Clone, Debug)]
pub struct QuestKillTask {
    pub monster_index: i32,
    pub count: i32,
    pub message: String,
}

#[derive(Clone, Debug)]
pub struct QuestItemTask {
    pub item_index: i32,
    pub count: u16,
    pub message: String,
}

#[derive(Clone, Debug)]
pub struct QuestFlagTask {
    pub number: i32,
    pub message: String,
}

#[derive(Clone, Debug)]
pub struct QuestItemReward {
    pub item_index: i32,
    pub count: u16,
}

#[derive(Clone, Debug)]
pub struct QuestInfo {
    pub id: QuestId,
    pub npc_index: u32,
    pub finish_npc_index: u32,
    pub name: String,
    pub group: String,
    pub file_name: String,
    pub goto_message: String,
    pub kill_message: String,
    pub item_message: String,
    pub flag_message: String,
    pub description: Vec<String>,
    pub task_description: Vec<String>,
    pub return_description: Vec<String>,
    pub completion_description: Vec<String>,
    pub required_min_level: i32,
    pub required_max_level: i32,
    pub required_quest: i32,
    pub required_class: RequiredClass,
    pub quest_type: QuestType,
    pub time_limit_seconds: i32,
    pub carry_items: Vec<QuestItemTask>,
    pub kill_tasks: Vec<QuestKillTask>,
    pub item_tasks: Vec<QuestItemTask>,
    pub flag_tasks: Vec<QuestFlagTask>,
    pub fixed_rewards: Vec<QuestItemReward>,
    pub select_rewards: Vec<QuestItemReward>,
    pub gold_reward: u32,
    pub exp_reward: u32,
    pub credit_reward: u32,
}

/// The loaded quests, keyed by id.
pub struct QuestManager {
    quests: HashMap<i32, QuestInfo>,
}

impl QuestManager {
    pub closed spec fn view(&self) -> Map<i32, QuestInfo> {
        self.quests@
    }

    /// An empty registry.
    pub fn new() -> (r: Self)
        ensures
            r@ == Map::<i32, QuestInfo>::empty(),
    {
        QuestManager { quests: HashMap::new() }
    }

    /// Every registered quest, once each.
    pub fn quests(&self) -> (r: Vec<&QuestInfo>)
        ensures
            exists|ks: Seq<i32>| #[trigger] lists_values(self@, ks, r@),
    {
        let r = values_of(&self.quests);
        proof {
            let ks = choose|ks: Seq<i32>| #[trigger] lists_values(self.quests@, ks, r@);
            assert(lists_values(self@, ks, r@));
        }
        r
    }

    /// The quest with an id.
    pub fn get(&self, id: QuestId) -> (r: Option<&QuestInfo>)
        ensures
            match r {
                Some(q) => self@.contains_key(id.0) && *q == self@[id.0],
                None => !self@.contains_key(id.0),
            },
    {
        self.quests.get(&id.0)
    }

    /// Mutable access to the quest with an id.
    pub fn get_mut(&mut self, id: QuestId) -> (r: Option<&mut QuestInfo>)
        ensures
            match r {
                Some(q) => {
                    &&& old(self)@.contains_key(id.0)
                    &&& *q == old(self)@[id.0]
                    &&& final(self)@ == old(self)@.insert(id.0, *final(q))
                },
                None => !old(self)@.contains_key(id.0) && final(self)@ == old(self)@,
            },
    {
        map_get_mut(&mut self.quests, &id.0)
    }

    /// Registers a quest under its own id, replacing any earlier one.
    pub fn insert(&mut self, info: QuestInfo)
        ensures
            final(self)@ == old(self)@.insert(info.id.0, info),
    {
        self.quests.insert(info.id.0, info);
    }

    /// Unregisters a quest and hands it back.
    pub fn remove(&mut self, id: QuestId) -> (r: Option<QuestInfo>)
        ensures
            final(self)@ == old(self)@.remove(id.0),
            match r {
                Some(q) => old(self)@.contains_key(id.0) && q == old(self)@[id.0],
                None => !old(self)@.contains_key(id.0),
            },
    {
        self.quests.remove(&id.0)
    }
}

/// Progress on a kill task.
#[derive(Clone, Copy, Debug)]
pub struct QuestKillTaskProgress {
    pub monster_index: i32,
    pub count: i32,
    pub required_count: i32,
}

impl QuestKillTaskProgress {
    /// Enough kills.
    pub fn is_complete(&self) -> (r: bool)
        ensures
            r == (self.count >= self.required_count),
    {
        self.count >= self.required_count
    }
}

/// Progress on an item task.
#[derive(Clone, Copy, Debug)]
pub struct QuestItemTaskProgress {
    pub item_index: i32,
    pub count: i32,
    pub required_count: i32,
}

impl QuestItemTaskProgress {
    /// Enough items carried.
    pub fn is_complete(&self) -> (r: bool)
        ensures
            r == (self.count >= self.required_count),
    {
        self.count >= self.required_count
    }
}

/// Progress on a flag task.
#[derive(Clone, Copy, Debug)]
pub struct QuestFlagTaskProgress {
    pub number: i32,
    pub state: bool,
}

impl QuestFlagTaskProgress {
    /// The flag has been seen set.
    pub fn is_complete(&self) -> (r: bool)
        ensures
            r == self.state,
    {
        self.state
    }
}

/// Milliseconds a taken quest counts as new.
pub const QUEST_NEW_WINDOW_MS: i64 = 86400000;

/// Flags at or above `flags.len() - 1000` are never read by flag tasks.
pub const FLAG_TAIL: usize = 1000;

/// A player's state on one quest.
#[derive(Clone, Debug)]
pub struct QuestProgress {
    pub quest_id: QuestId,
    pub start_time_ms: Option<i64>,
    pub end_time_ms: Option<i64>,
    pub kill_tasks: Vec<QuestKillTaskProgress>,
    pub item_tasks: Vec<QuestItemTaskProgress>,
    pub flag_tasks: Vec<QuestFlagTaskProgress>,
    pub task_list: Vec<String>,
}

/// How many rewards name an item kind that has a template.
pub open spec fn found_rewards(rs: Seq<QuestItemReward>, infos: Seq<ItemInfoData>) -> nat
    decreases rs.len(),
{
    if rs.len() == 0 {
        0
    } else {
        found_rewards(rs.drop_last(), infos) + if info_pos(infos, rs.last().item_index) < infos.len() {
            1nat
        } else {
            0nat
        }
    }
}

/// Each reward whose item kind has a template, as the template's encoding
/// (`encoded[p]` for the template at `p`) followed by the reward's count.
pub open spec fn reward_entries(rs: Seq<QuestItemReward>, infos: Seq<ItemInfoData>, encoded: Seq<Vec<u8>>) -> Seq<u8>
    decreases rs.len(),
{
    if rs.len() == 0 {
        seq![]
    } else {
        let p = info_pos(infos, rs.last().item_index);
        reward_entries(rs.drop_last(), infos, encoded) + if p < infos.len() {
            encoded[p]@ + crate::wire::le16(rs.last().count)
        } else {
            seq![]
        }
    }
}

/// A reward list as the client reads it: the count of rewards that have a
/// template, then their entries.
pub open spec fn rewards_record(rs: Seq<QuestItemReward>, infos: Seq<ItemInfoData>, encoded: Seq<Vec<u8>>) -> Seq<u8> {
    crate::wire::i32_bytes(crate::wire::capped_count(found_rewards(rs, infos))) + reward_entries(rs, infos, encoded)
}

/// The quest as the client reads it.
pub open spec fn quest_info_record(q: QuestInfo, infos: Seq<ItemInfoData>, encoded: Seq<Vec<u8>>) -> Seq<u8> {
    crate::wire::i32_bytes(q.id.0) + crate::wire::le32(q.npc_index as int) + crate::wire::string_bytes(q.name@)
        + crate::wire::string_bytes(q.group@)
        + crate::wire::counted_strings(texts(q.description@))
        + crate::wire::counted_strings(texts(q.task_description@))
        + crate::wire::counted_strings(texts(q.return_description@))
        + crate::wire::counted_strings(texts(q.completion_description@))
        + crate::wire::i32_bytes(q.required_min_level) + crate::wire::i32_bytes(q.required_max_level)
        + crate::wire::i32_bytes(q.required_quest) + seq![q.required_class.0, q.quest_type.0]
        + crate::wire::i32_bytes(q.time_limit_seconds) + crate::wire::le32(q.gold_reward as int)
        + crate::wire::le32(q.exp_reward as int) + crate::wire::le32(q.credit_reward as int)
        + rewards_record(q.fixed_rewards@, infos, encoded) + rewards_record(q.select_rewards@, infos, encoded)
        + crate::wire::le32(q.finish_npc_index as int)
}

/// Appends a reward list: the count of rewards whose item kind has a
/// template, then for each of them the template's encoding and the count.
fn write_rewards(buf: &mut Vec<u8>, rewards: &[QuestItemReward], item_infos: &[ItemInfoData], encoded: &[Vec<u8>])
    requires
        encoded@.len() == item_infos@.len(),
    ensures
        final(buf)@ == old(buf)@ + rewards_record(rewards@, item_infos@, encoded@),
{
    let mut entries: Vec<u8> = Vec::new();
    let mut found: usize = 0;
    let mut i: usize = 0;
    while i < rewards.len()
        invariant
            0 <= i <= rewards@.len(),
            encoded@.len() == item_infos@.len(),
            found == found_rewards(rewards@.subrange(0, i as int), item_infos@),
            found <= i,
            entries@ == reward_entries(rewards@.subrange(0, i as int), item_infos@, encoded@),
        decreases rewards@.len() - i,
    {
        let ghost done = rewards@.subrange(0, i as int);
        let ghost next = rewards@.subrange(0, i as int + 1);
        proof {
            assert(next.drop_last() =~= done);
            assert(next.last() == rewards@[i as int]);
        }
        let p = find_item_info(item_infos, rewards[i].item_index);
        if p < item_infos.len() {
            entries.extend_from_slice(encoded[p].as_slice());
            crate::wire::write_u16_le(&mut entries, rewards[i].count);
            found = found + 1;
        }
        proof {
            assert(entries@ =~= reward_entries(next, item_infos@, encoded@));
        }
        i = i + 1;
    }
    proof {
        assert(rewards@.subrange(0, rewards@.len() as int) =~= rewards@);
    }
    let count: i32 = if found > 2147483647usize {
        2147483647i32
    } else {
        found as i32
    };
    crate::wire::write_i32_le(buf, count);
    buf.extend_from_slice(entries.as_slice());
    proof {
        assert(final(buf)@ =~= old(buf)@ + rewards_record(rewards@, item_infos@, encoded@));
    }
}

impl QuestInfo {
    /// The quest as the client reads it. `encoded[p]` is the client encoding
    /// of the item template `item_infos[p]`; a reward whose item kind has no
    /// template is left out.
    pub fn encode_client_info_bytes(&self, item_infos: &[ItemInfoData], encoded: &[Vec<u8>]) -> (r: Vec<u8>)
        requires
            encoded@.len() == item_infos@.len(),
        ensures
            r@ == quest_info_record(*self, item_infos@, encoded@),
    {
        let mut buf: Vec<u8> = Vec::new();
        crate::wire::write_i32_le(&mut buf, self.id.0);
        crate::wire::write_u32_le(&mut buf, self.npc_index);
        crate::wire::write_string(&mut buf, self.name.as_str());
        crate::wire::write_string(&mut buf, self.group.as_str());
        crate::wire::write_counted_strings(&mut buf, self.description.as_slice());
        crate::wire::write_counted_strings(&mut buf, self.task_description.as_slice());
        crate::wire::write_counted_strings(&mut buf, self.return_description.as_slice());
        crate::wire::write_counted_strings(&mut buf, self.completion_description.as_slice());
        crate::wire::write_i32_le(&mut buf, self.required_min_level);
        crate::wire::write_i32_le(&mut buf, self.required_max_level);
        crate::wire::write_i32_le(&mut buf, self.required_quest);
        buf.push(self.required_class.0);
        buf.push(self.quest_type.0);
        crate::wire::write_i32_le(&mut buf, self.time_limit_seconds);
        crate::wire::write_u32_le(&mut buf, self.gold_reward);
        crate::wire::write_u32_le(&mut buf, self.exp_reward);
        crate::wire::write_u32_le(&mut buf, self.credit_reward);
        write_rewards(&mut buf, self.fixed_rewards.as_slice(), item_infos, encoded);
        write_rewards(&mut buf, self.select_rewards.as_slice(), item_infos, encoded);
        crate::wire::write_u32_le(&mut buf, self.finish_npc_index);
        proof {
            assert(buf@ =~= quest_info_record(*self, item_infos@, encoded@));
        }
        buf
    }
}

/// Kill progress at the start of a quest.
pub open spec fn fresh_kill(t: QuestKillTask) -> QuestKillTaskProgress {
    QuestKillTaskProgress { monster_index: t.monster_index, count: 0, required_count: t.count }
}

/// Item progress at the start of a quest.
pub open spec fn fresh_item(t: QuestItemTask) -> QuestItemTaskProgress {
    QuestItemTaskProgress { item_index: t.item_index, count: 0, required_count: t.count as i32 }
}

/// Flag progress at the start of a quest.
pub open spec fn fresh_flag(t: QuestFlagTask) -> QuestFlagTaskProgress {
    QuestFlagTaskProgress { number: t.number, state: false }
}

/// Index of the first kill task for a monster, or the length.
pub open spec fn kill_pos(s: Seq<QuestKillTaskProgress>, monster: i32) -> int
    decreases s.len(),
{
    if s.len() == 0 {
        0
    } else if s[0].monster_index == monster {
        0
    } else {
        1 + kill_pos(s.drop_first(), monster)
    }
}

proof fn lemma_kill_pos_char(s: Seq<QuestKillTaskProgress>, monster: i32, p: int)
    requires
        0 <= p <= s.len(),
        forall|j: int| 0 <= j < p ==> (#[trigger] s[j]).monster_index != monster,
        p < s.len() ==> s[p].monster_index == monster,
    ensures
        kill_pos(s, monster) == p,
    decreases s.len(),
{
    if s.len() > 0 && p > 0 {
        let t = s.drop_first();
        assert(s[0].monster_index != monster);
        assert forall|j: int| 0 <= j < p - 1 implies (#[trigger] t[j]).monster_index != monster by {
            assert(t[j] == s[j + 1]);
        }
        lemma_kill_pos_char(t, monster, p - 1);
    }
}

/// Kill progress after a kill: the first task for the monster counts it,
/// unless it is already complete.
pub open spec fn after_kill(s: Seq<QuestKillTaskProgress>, monster: i32) -> Seq<QuestKillTaskProgress> {
    let p = kill_pos(s, monster);
    if p < s.len() && s[p].count < s[p].required_count {
        s.update(p, QuestKillTaskProgress { count: (s[p].count + 1) as i32, ..s[p] })
    } else {
        s
    }
}

/// How many of an item the bag holds, over the given slots.
pub open spec fn carried(inv: Seq<Option<UserItemData>>, item_index: i32) -> int
    decreases inv.len(),
{
    if inv.len() == 0 {
        0
    } else {
        carried(inv.drop_last(), item_index) + match inv.last() {
            Some(it) => if it.item_index == item_index {
                it.count as int
            } else {
                0
            },
            None => 0,
        }
    }
}

/// A count capped at the largest `i32`.
pub open spec fn capped(n: int) -> i32 {
    if n > i32::MAX {
        i32::MAX
    } else {
        n as i32
    }
}

/// The flag a flag task reads is set and lies below the reserved tail.
pub open spec fn flag_seen(flags: Seq<bool>, number: i32) -> bool {
    let limit = if flags.len() >= FLAG_TAIL { flags.len() - FLAG_TAIL } else { 0 };
    number >= 0 && number < limit && flags[number as int]
}

/// An item task after the bag was counted.
pub open spec fn item_scanned(t: QuestItemTaskProgress, inv: Seq<Option<UserItemData>>) -> QuestItemTaskProgress {
    QuestItemTaskProgress { count: capped(carried(inv, t.item_index)), ..t }
}

/// A flag task after the flags were read.
pub open spec fn flag_scanned(t: QuestFlagTaskProgress, flags: Seq<bool>) -> QuestFlagTaskProgress {
    QuestFlagTaskProgress { state: t.state || flag_seen(flags, t.number), ..t }
}

impl QuestProgress {
    /// Untaken progress on a quest: every task at zero.
    pub fn new_from_quest(info: &QuestInfo) -> (r: Self)
        ensures
            r.quest_id == info.id,
            r.start_time_ms is None,
            r.end_time_ms is None,
            r.kill_tasks@ == info.kill_tasks@.map_values(|t: QuestKillTask| fresh_kill(t)),
            r.item_tasks@ == info.item_tasks@.map_values(|t: QuestItemTask| fresh_item(t)),
            r.flag_tasks@ == info.flag_tasks@.map_values(|t: QuestFlagTask| fresh_flag(t)),
            r.task_list@.len() == 0,
    {
        let mut kill_tasks: Vec<QuestKillTaskProgress> = Vec::new();
        let mut i: usize = 0;
        while i < info.kill_tasks.len()
            invariant
                0 <= i <= info.kill_tasks@.len(),
                kill_tasks@ == info.kill_tasks@.take(i as int).map_values(|t: QuestKillTask| fresh_kill(t)),
            decreases info.kill_tasks@.len() - i,
        {
            let t = &info.kill_tasks[i];
            kill_tasks.push(QuestKillTaskProgress { monster_index: t.monster_index, count: 0, required_count: t.count });
            proof {
                assert(info.kill_tasks@.take(i as int + 1) == info.kill_tasks@.take(i as int).push(*t));
                assert(kill_tasks@ =~= info.kill_tasks@.take(i as int + 1).map_values(|t: QuestKillTask| fresh_kill(t)));
            }
            i = i + 1;
        }
        let mut item_tasks: Vec<QuestItemTaskProgress> = Vec::new();
        let mut i: usize = 0;
        while i < info.item_tasks.len()
            invariant
                0 <= i <= info.item_tasks@.len(),
                item_tasks@ == info.item_tasks@.take(i as int).map_values(|t: QuestItemTask| fresh_item(t)),
            decreases info.item_tasks@.len() - i,
        {
            let t = &info.item_tasks[i];
            item_tasks.push(QuestItemTaskProgress { item_index: t.item_index, count: 0, required_count: t.count as i32 });
            proof {
                assert(info.item_tasks@.take(i as int + 1) == info.item_tasks@.take(i as int).push(*t));
                assert(item_tasks@ =~= info.item_tasks@.take(i as int + 1).map_values(|t: QuestItemTask| fresh_item(t)));
            }
            i = i + 1;
        }
        let mut flag_tasks: Vec<QuestFlagTaskProgress> = Vec::new();
        let mut i: usize = 0;
        while i < info.flag_tasks.len()
            invariant
                0 <= i <= info.flag_tasks@.len(),
                flag_tasks@ == info.flag_tasks@.take(i as int).map_values(|t: QuestFlagTask| fresh_flag(t)),
            decreases info.flag_tasks@.len() - i,
        {
            let t = &info.flag_tasks[i];
            flag_tasks.push(QuestFlagTaskProgress { number: t.number, state: false });
            proof {
                assert(info.flag_tasks@.take(i as int + 1) == info.flag_tasks@.take(i as int).push(*t));
                assert(flag_tasks@ =~= info.flag_tasks@.take(i as int + 1).map_values(|t: QuestFlagTask| fresh_flag(t)));
            }
            i = i + 1;
        }
        proof {
            assert(info.kill_tasks@.take(info.kill_tasks@.len() as int) == info.kill_tasks@);
            assert(info.item_tasks@.take(info.item_tasks@.len() as int) == info.item_tasks@);
            assert(info.flag_tasks@.take(info.flag_tasks@.len() as int) == info.flag_tasks@);
        }
        QuestProgress {
            quest_id: info.id,
            start_time_ms: None,
            end_time_ms: None,
            kill_tasks,
            item_tasks,
            flag_tasks,
            task_list: Vec::new(),
        }
    }

    /// Taken no more than a day before `now_ms`, the elapsed time saturating
    /// at the bounds of `i64`.
    pub open spec fn is_new_at(&self, now_ms: i64) -> bool {
        match self.start_time_ms {
            Some(start) => (if now_ms - start < i64::MIN {
                i64::MIN as int
            } else if now_ms - start > i64::MAX {
                i64::MAX as int
            } else {
                now_ms - start
            }) <= QUEST_NEW_WINDOW_MS,
            None => false,
        }
    }

    /// The quest has been taken.
    pub fn taken(&self) -> (r: bool)
        ensures
            r == self.start_time_ms is Some,
    {
        self.start_time_ms.is_some()
    }

    /// The quest has been completed.
    pub fn completed(&self) -> (r: bool)
        ensures
            r == self.end_time_ms is Some,
    {
        self.end_time_ms.is_some()
    }

    /// The quest was taken no more than a day before `now_ms`.
    pub fn is_new(&self, now_ms: i64) -> (r: bool)
        ensures
            r == self.is_new_at(now_ms),
    {
        match self.start_time_ms {
            Some(start) => {
                let diff: i128 = now_ms as i128 - start as i128;
                let clamped: i128 = if diff < i64::MIN as i128 {
                    i64::MIN as i128
                } else if diff > i64::MAX as i128 {
                    i64::MAX as i128
                } else {
                    diff
                };
                clamped <= QUEST_NEW_WINDOW_MS as i128
            },
            None => false,
        }
    }

    /// Counts a kill on the first task for the monster, if that task is not
    /// yet complete.
    pub fn process_kill(&mut self, monster_index: i32)
        ensures
            final(self).kill_tasks@ == after_kill(old(self).kill_tasks@, monster_index),
            final(self).item_tasks == old(self).item_tasks,
            final(self).flag_tasks == old(self).flag_tasks,
            final(self).task_list == old(self).task_list,
            final(self).quest_id == old(self).quest_id,
            final(self).start_time_ms == old(self).start_time_ms,
            final(self).end_time_ms == old(self).end_time_ms,
    {
        let mut i: usize = 0;
        while i < self.kill_tasks.len()
            invariant
                0 <= i <= self.kill_tasks@.len(),
                self.kill_tasks@ == old(self).kill_tasks@,
                self.item_tasks == old(self).item_tasks,
                self.flag_tasks == old(self).flag_tasks,
                self.task_list == old(self).task_list,
                self.quest_id == old(self).quest_id,
                self.start_time_ms == old(self).start_time_ms,
                self.end_time_ms == old(self).end_time_ms,
                forall|j: int| 0 <= j < i ==> (#[trigger] self.kill_tasks@[j]).monster_index != monster_index,
            decreases self.kill_tasks@.len() - i,
        {
            if self.kill_tasks[i].monster_index == monster_index {
                proof {
                    lemma_kill_pos_char(self.kill_tasks@, monster_index, i as int);
                }
                let t = self.kill_tasks[i];
                if t.count < t.required_count {
                    self.kill_tasks[i] = QuestKillTaskProgress { count: t.count + 1, ..t };
                }
                return;
            }
            i = i + 1;
        }
        proof {
            lemma_kill_pos_char(self.kill_tasks@, monster_index, i as int);
        }
    }

    /// Sets each item task's count to the number of its item in the bag
    /// (capped at the largest `i32`).
    pub fn process_item(&mut self, inventory: &[Option<UserItemData>])
        ensures
            final(self).item_tasks@.len() == old(self).item_tasks@.len(),
            forall|j: int| 0 <= j < old(self).item_tasks@.len() ==> #[trigger] final(self).item_tasks@[j] == item_scanned(old(self).item_tasks@[j], inventory@),
            final(self).kill_tasks == old(self).kill_tasks,
            final(self).flag_tasks == old(self).flag_tasks,
            final(self).task_list == old(self).task_list,
            final(self).quest_id == old(self).quest_id,
            final(self).start_time_ms == old(self).start_time_ms,
            final(self).end_time_ms == old(self).end_time_ms,
    {
        let mut i: usize = 0;
        while i < self.item_tasks.len()
            invariant
                0 <= i <= self.item_tasks@.len(),
                self.item_tasks@.len() == old(self).item_tasks@.len(),
                forall|j: int| 0 <= j < i ==> #[trigger] self.item_tasks@[j] == item_scanned(old(self).item_tasks@[j], inventory@),
                forall|j: int| i <= j < self.item_tasks@.len() ==> #[trigger] self.item_tasks@[j] == old(self).item_tasks@[j],
                self.kill_tasks == old(self).kill_tasks,
                self.flag_tasks == old(self).flag_tasks,
                self.task_list == old(self).task_list,
                self.quest_id == old(self).quest_id,
                self.start_time_ms == old(self).start_time_ms,
                self.end_time_ms == old(self).end_time_ms,
            decreases self.item_tasks@.len() - i,
        {
            let t = self.item_tasks[i];
            let total = count_carried(inventory, t.item_index);
            self.item_tasks[i] = QuestItemTaskProgress { count: total, ..t };
            i = i + 1;
        }
    }

    /// Marks each flag task whose flag is set (below the reserved tail).
    pub fn process_flag(&mut self, flags: &[bool])
        ensures
            final(self).flag_tasks@.len() == old(self).flag_tasks@.len(),
            forall|j: int| 0 <= j < old(self).flag_tasks@.len() ==> #[trigger] final(self).flag_tasks@[j] == flag_scanned(old(self).flag_tasks@[j], flags@),
            final(self).kill_tasks == old(self).kill_tasks,
            final(self).item_tasks == old(self).item_tasks,
            final(self).task_list == old(self).task_list,
            final(self).quest_id == old(self).quest_id,
            final(self).start_time_ms == old(self).start_time_ms,
            final(self).end_time_ms == old(self).end_time_ms,
    {
        let limit = flags.len().saturating_sub(FLAG_TAIL);
        let mut i: usize = 0;
        while i < self.flag_tasks.len()
            invariant
                0 <= i <= self.flag_tasks@.len(),
                limit == (if flags@.len() >= FLAG_TAIL { flags@.len() - FLAG_TAIL } else { 0 }),
                self.flag_tasks@.len() == old(self).flag_tasks@.len(),
                forall|j: int| 0 <= j < i ==> #[trigger] self.flag_tasks@[j] == flag_scanned(old(self).flag_tasks@[j], flags@),
                forall|j: int| i <= j < self.flag_tasks@.len() ==> #[trigger] self.flag_tasks@[j] == old(self).flag_tasks@[j],
                self.kill_tasks == old(self).kill_tasks,
                self.item_tasks == old(self).item_tasks,
                self.task_list == old(self).task_list,
                self.quest_id == old(self).quest_id,
                self.start_time_ms == old(self).start_time_ms,
                self.end_time_ms == old(self).end_time_ms,
            decreases self.flag_tasks@.len() - i,
        {
            let t = self.flag_tasks[i];
            let number = t.number;
            if number >= 0 {
                let idx = number as usize;
                if idx < limit && flags[idx] {
                    self.flag_tasks[i] = QuestFlagTaskProgress { state: true, ..t };
                }
            }
            i = i + 1;
        }
    }

    /// Some unfinished item task wants the item.
    pub fn need_item(&self, item_index: i32) -> (r: bool)
        ensures
            r == exists|j: int| 0 <= j < self.item_tasks@.len() && (#[trigger] self.item_tasks@[j]).item_index == item_index
                && self.item_tasks@[j].count < self.item_tasks@[j].required_count,
    {
        let mut i: usize = 0;
        while i < self.item_tasks.len()
            invariant
                0 <= i <= self.item_tasks@.len(),
                forall|j: int| 0 <= j < i ==> !((#[trigger] self.item_tasks@[j]).item_index == item_index
                    && self.item_tasks@[j].count < self.item_tasks@[j].required_count),
            decreases self.item_tasks@.len() - i,
        {
            let t = &self.item_tasks[i];
            if t.item_index == item_index && !t.is_complete() {
                return true;
            }
            i = i + 1;
        }
        false
    }

    /// Some unfinished kill task wants the monster.
    pub fn need_kill(&self, monster_index: i32) -> (r: bool)
        ensures
            r == exists|j: int| 0 <= j < self.kill_tasks@.len() && (#[trigger] self.kill_tasks@[j]).monster_index == monster_index
                && self.kill_tasks@[j].count < self.kill_tasks@[j].required_count,
    {
        let mut i: usize = 0;
        while i < self.kill_tasks.len()
            invariant
                0 <= i <= self.kill_tasks@.len(),
                forall|j: int| 0 <= j < i ==> !((#[trigger] self.kill_tasks@[j]).monster_index == monster_index
                    && self.kill_tasks@[j].count < self.kill_tasks@[j].required_count),
            decreases self.kill_tasks@.len() - i,
        {
            let t = &self.kill_tasks[i];
            if t.monster_index == monster_index && !t.is_complete() {
                return true;
            }
            i = i + 1;
        }
        false
    }

    /// Some unfinished flag task wants the flag.
    pub fn need_flag(&self, flag_number: i32) -> (r: bool)
        ensures
            r == exists|j: int| 0 <= j < self.flag_tasks@.len() && (#[trigger] self.flag_tasks@[j]).number == flag_number
                && !self.flag_tasks@[j].state,
    {
        let mut i: usize = 0;
        while i < self.flag_tasks.len()
            invariant
                0 <= i <= self.flag_tasks@.len(),
                forall|j: int| 0 <= j < i ==> !((#[trigger] self.flag_tasks@[j]).number == flag_number
                    && !self.flag_tasks@[j].state),
            decreases self.flag_tasks@.len() - i,
        {
            let t = &self.flag_tasks[i];
            if t.number == flag_number && !t.is_complete() {
                return true;
            }
            i = i + 1;
        }
        false
    }
}

/// Number of an item in a bag, capped at the largest `i32`.
fn count_carried(inventory: &[Option<UserItemData>], item_index: i32) -> (r: i32)
    ensures
        r == capped(carried(inventory@, item_index)),
{
    let mut total: i32 = 0;
    let mut i: usize = 0;
    while i < inventory.len()
        invariant
            0 <= i <= inventory@.len(),
            total == capped(carried(inventory@.take(i as int), item_index)),
            carried(inventory@.take(i as int), item_index) >= 0,
        decreases inventory@.len() - i,
    {
        proof {
            let t = inventory@.take(i as int + 1);
            assert(t.drop_last() == inventory@.take(i as int));
            assert(t.last() == inventory@[i as int]);
        }
        match &inventory[i] {
            Some(item) => {
                if item.item_index == item_index {
                    let sum: i64 = total as i64 + item.count as i64;
                    total = if sum > i32::MAX as i64 { i32::MAX } else { sum as i32 };
                }
            },
            None => {},
        }
        i = i + 1;
    }
    proof {
        assert(inventory@.take(inventory@.len() as int) == inventory@);
    }
    total
}

/// Every kill, item and flag task is done.
pub open spec fn all_tasks_done(p: QuestProgress) -> bool {
    &&& forall|k: int| 0 <= k < p.kill_tasks@.len() ==> (#[trigger] p.kill_tasks@[k]).count >= p.kill_tasks@[k].required_count
    &&& forall|k: int| 0 <= k < p.item_tasks@.len() ==> (#[trigger] p.item_tasks@[k]).count >= p.item_tasks@[k].required_count
    &&& forall|k: int| 0 <= k < p.flag_tasks@.len() ==> (#[trigger] p.flag_tasks@[k]).state
}

/// The mark appended to the line of a finished task.
pub open spec fn done_suffix(done: bool) -> Seq<char> {
    if done {
        " (Completed)"@
    } else {
        Seq::empty()
    }
}

/// The default line of a kill task.
pub open spec fn kill_counter_line(monster: i32, count: i32, required: i32, done: bool) -> Seq<char> {
    "Kill "@ + decimal(monster as int) + ": "@ + decimal(count as int) + "/"@ + decimal(required as int) + done_suffix(done)
}

/// The line shown for the i-th kill task.
pub open spec fn kill_line(info: QuestInfo, t: QuestKillTaskProgress, i: int) -> Seq<char> {
    let done = t.count >= t.required_count;
    if i < info.kill_tasks@.len() && info.kill_tasks@[i].message@.len() > 0 {
        info.kill_tasks@[i].message@ + done_suffix(done)
    } else {
        kill_counter_line(t.monster_index, t.count, t.required_count, done)
    }
}

/// The lines shown for the kill tasks: the quest's kill message once, when
/// it has one and there are kill tasks, else one line per task.
pub open spec fn kill_lines(info: QuestInfo, tasks: Seq<QuestKillTaskProgress>) -> Seq<Seq<char>> {
    if info.kill_message@.len() > 0 && tasks.len() > 0 {
        seq![info.kill_message@ + done_suffix(forall|j: int| 0 <= j < tasks.len() ==> (#[trigger] tasks[j]).count >= tasks[j].required_count)]
    } else {
        Seq::new(tasks.len(), |i: int| kill_line(info, tasks[i], i))
    }
}

/// Index of the first template of an item kind, or the length.
pub open spec fn info_pos(infos: Seq<ItemInfoData>, index: i32) -> int
    decreases infos.len(),
{
    if infos.len() == 0 {
        0
    } else if infos[0].index == index {
        0
    } else {
        1 + info_pos(infos.drop_first(), index)
    }
}

/// The name an item task shows: the template's friendly name, else "Item"
/// and the item number.
pub open spec fn item_name(infos: Seq<ItemInfoData>, index: i32) -> Seq<char> {
    let p = info_pos(infos, index);
    if p < infos.len() {
        infos[p].friendly_name@
    } else {
        "Item"@ + decimal(index as int)
    }
}

/// The line shown for the i-th item task.
pub open spec fn item_line(info: QuestInfo, infos: Seq<ItemInfoData>, t: QuestItemTaskProgress, i: int) -> Seq<char> {
    let done = t.count >= t.required_count;
    if i < info.item_tasks@.len() {
        let d = info.item_tasks@[i];
        if d.message@.len() == 0 {
            "Collect "@ + item_name(infos, d.item_index) + ": "@ + decimal(t.count as int) + "/"@ + decimal(d.count as int) + done_suffix(done)
        } else {
            d.message@ + done_suffix(done)
        }
    } else {
        "Collect Item"@ + decimal(t.item_index as int) + ": "@ + decimal(t.count as int) + "/"@ + decimal(t.required_count as int) + done_suffix(done)
    }
}

/// The lines shown for the item tasks.
pub open spec fn item_lines(info: QuestInfo, infos: Seq<ItemInfoData>, tasks: Seq<QuestItemTaskProgress>) -> Seq<Seq<char>> {
    if info.item_message@.len() > 0 && tasks.len() > 0 {
        seq![info.item_message@ + done_suffix(forall|j: int| 0 <= j < tasks.len() ==> (#[trigger] tasks[j]).count >= tasks[j].required_count)]
    } else {
        Seq::new(tasks.len(), |i: int| item_line(info, infos, tasks[i], i))
    }
}

/// The line shown for the i-th flag task.
pub open spec fn flag_line(info: QuestInfo, t: QuestFlagTaskProgress, i: int) -> Seq<char> {
    if i < info.flag_tasks@.len() {
        let d = info.flag_tasks@[i];
        if d.message@.len() == 0 {
            "Activate Flag "@ + decimal(d.number as int) + done_suffix(t.state)
        } else {
            d.message@ + done_suffix(t.state)
        }
    } else {
        "Activate Flag "@ + decimal(t.number as int) + done_suffix(t.state)
    }
}

/// The lines shown for the flag tasks.
pub open spec fn flag_lines(info: QuestInfo, tasks: Seq<QuestFlagTaskProgress>) -> Seq<Seq<char>> {
    if info.flag_message@.len() > 0 && tasks.len() > 0 {
        seq![info.flag_message@ + done_suffix(forall|j: int| 0 <= j < tasks.len() ==> (#[trigger] tasks[j]).state)]
    } else {
        Seq::new(tasks.len(), |i: int| flag_line(info, tasks[i], i))
    }
}

/// The line telling where to go, once the quest is completed.
pub open spec fn goto_lines(info: QuestInfo, completed: bool) -> Seq<Seq<char>> {
    if info.goto_message@.len() > 0 && completed {
        seq![info.goto_message@]
    } else {
        Seq::empty()
    }
}

/// The task list of a quest's progress.
pub open spec fn task_lines(info: QuestInfo, infos: Seq<ItemInfoData>, p: QuestProgress) -> Seq<Seq<char>> {
    kill_lines(info, p.kill_tasks@) + item_lines(info, infos, p.item_tasks@) + flag_lines(info, p.flag_tasks@)
        + goto_lines(info, p.end_time_ms is Some)
}

/// Texts as character sequences.
pub open spec fn texts(v: Seq<String>) -> Seq<Seq<char>> {
    crate::wire::string_texts(v)
}

proof fn lemma_texts_push(v: Seq<String>, s: String)
    ensures
        texts(v.push(s)) == texts(v).push(s@),
{
    assert(texts(v.push(s)) =~= texts(v).push(s@));
}

fn done_text(done: bool) -> (r: String)
    ensures
        r@ == done_suffix(done),
{
    if done {
        text(" (Completed)")
    } else {
        String::new()
    }
}

/// The template of an item kind, the first with that number.
fn find_item_info(infos: &[ItemInfoData], index: i32) -> (r: usize)
    ensures
        r == info_pos(infos@, index),
        r <= infos@.len(),
{
    let mut i: usize = 0;
    while i < infos.len()
        invariant
            0 <= i <= infos@.len(),
            forall|j: int| 0 <= j < i ==> (#[trigger] infos@[j]).index != index,
        decreases infos@.len() - i,
    {
        if infos[i].index == index {
            proof {
                lemma_info_pos_char(infos@, index, i as int);
            }
            return i;
        }
        i = i + 1;
    }
    proof {
        lemma_info_pos_char(infos@, index, i as int);
    }
    i
}

proof fn lemma_info_pos_char(s: Seq<ItemInfoData>, index: i32, p: int)
    requires
        0 <= p <= s.len(),
        forall|j: int| 0 <= j < p ==> (#[trigger] s[j]).index != index,
        p < s.len() ==> s[p].index == index,
    ensures
        info_pos(s, index) == p,
    decreases s.len(),
{
    if s.len() > 0 && p > 0 {
        let t = s.drop_first();
        assert(s[0].index != index);
        assert forall|j: int| 0 <= j < p - 1 implies (#[trigger] t[j]).index != index by {
            assert(t[j] == s[j + 1]);
        }
        lemma_info_pos_char(t, index, p - 1);
    }
}

impl QuestProgress {
    fn update_kill_tasks(&mut self, info: &QuestInfo)
        ensures
            texts(final(self).task_list@) == texts(old(self).task_list@) + kill_lines(*info, old(self).kill_tasks@),
            final(self).kill_tasks == old(self).kill_tasks,
            final(self).item_tasks == old(self).item_tasks,
            final(self).flag_tasks == old(self).flag_tasks,
            final(self).quest_id == old(self).quest_id,
            final(self).start_time_ms == old(self).start_time_ms,
            final(self).end_time_ms == old(self).end_time_ms,
    {
        if !info.kill_message.as_str().is_empty() && self.kill_tasks.len() > 0 {
            let mut all_complete = true;
            let mut j: usize = 0;
            while j < self.kill_tasks.len()
                invariant
                    0 <= j <= self.kill_tasks@.len(),
                    all_complete == forall|k: int| 0 <= k < j ==> (#[trigger] self.kill_tasks@[k]).count >= self.kill_tasks@[k].required_count,
                decreases self.kill_tasks@.len() - j,
            {
                if !self.kill_tasks[j].is_complete() {
                    all_complete = false;
                }
                j = j + 1;
            }
            let line = join(info.kill_message.clone(), done_text(all_complete).as_str());
            proof {
                lemma_texts_push(self.task_list@, line);
            }
            self.task_list.push(line);
            return;
        }
        let ghost base = texts(self.task_list@);
        let mut i: usize = 0;
        while i < self.kill_tasks.len()
            invariant
                0 <= i <= self.kill_tasks@.len(),
                !(info.kill_message@.len() > 0 && self.kill_tasks@.len() > 0),
                self.kill_tasks == old(self).kill_tasks,
                self.item_tasks == old(self).item_tasks,
                self.flag_tasks == old(self).flag_tasks,
                self.quest_id == old(self).quest_id,
                self.start_time_ms == old(self).start_time_ms,
                self.end_time_ms == old(self).end_time_ms,
                base == texts(old(self).task_list@),
                texts(self.task_list@) == base + Seq::new(i as nat, |k: int| kill_line(*info, self.kill_tasks@[k], k)),
            decreases self.kill_tasks@.len() - i,
        {
            let t = self.kill_tasks[i];
            let suffix = done_text(t.is_complete());
            let line = if i < info.kill_tasks.len() && !info.kill_tasks[i].message.as_str().is_empty() {
                join(info.kill_tasks[i].message.clone(), suffix.as_str())
            } else {
                let mut l = join(text("Kill "), int_text(t.monster_index as i64).as_str());
                l = join(l, ": ");
                l = join(l, int_text(t.count as i64).as_str());
                l = join(l, "/");
                l = join(l, int_text(t.required_count as i64).as_str());
                join(l, suffix.as_str())
            };
            proof {
                lemma_texts_push(self.task_list@, line);
                assert(line@ == kill_line(*info, t, i as int));
                assert(base + Seq::new((i + 1) as nat, |k: int| kill_line(*info, self.kill_tasks@[k], k)) =~=
                    (base + Seq::new(i as nat, |k: int| kill_line(*info, self.kill_tasks@[k], k))).push(line@));
            }
            self.task_list.push(line);
            i = i + 1;
        }
        proof {
            assert(Seq::new(i as nat, |k: int| kill_line(*info, self.kill_tasks@[k], k)) =~= kill_lines(*info, self.kill_tasks@));
        }
    }

    fn update_item_tasks(&mut self, info: &QuestInfo, item_infos: &[ItemInfoData])
        ensures
            texts(final(self).task_list@) == texts(old(self).task_list@) + item_lines(*info, item_infos@, old(self).item_tasks@),
            final(self).kill_tasks == old(self).kill_tasks,
            final(self).item_tasks == old(self).item_tasks,
            final(self).flag_tasks == old(self).flag_tasks,
            final(self).quest_id == old(self).quest_id,
            final(self).start_time_ms == old(self).start_time_ms,
            final(self).end_time_ms == old(self).end_time_ms,
    {
        if !info.item_message.as_str().is_empty() && self.item_tasks.len() > 0 {
            let mut all_complete = true;
            let mut j: usize = 0;
            while j < self.item_tasks.len()
                invariant
                    0 <= j <= self.item_tasks@.len(),
                    all_complete == forall|k: int| 0 <= k < j ==> (#[trigger] self.item_tasks@[k]).count >= self.item_tasks@[k].required_count,
                decreases self.item_tasks@.len() - j,
            {
                if !self.item_tasks[j].is_complete() {
                    all_complete = false;
                }
                j = j + 1;
            }
            let line = join(info.item_message.clone(), done_text(all_complete).as_str());
            proof {
                lemma_texts_push(self.task_list@, line);
            }
            self.task_list.push(line);
            return;
        }
        let ghost base = texts(self.task_list@);
        let mut i: usize = 0;
        while i < self.item_tasks.len()
            invariant
                0 <= i <= self.item_tasks@.len(),
                !(info.item_message@.len() > 0 && self.item_tasks@.len() > 0),
                self.kill_tasks == old(self).kill_tasks,
                self.item_tasks == old(self).item_tasks,
                self.flag_tasks == old(self).flag_tasks,
                self.quest_id == old(self).quest_id,
                self.start_time_ms == old(self).start_time_ms,
                self.end_time_ms == old(self).end_time_ms,
                base == texts(old(self).task_list@),
                texts(self.task_list@) == base + Seq::new(i as nat, |k: int| item_line(*info, item_infos@, self.item_tasks@[k], k)),
            decreases self.item_tasks@.len() - i,
        {
            let t = self.item_tasks[i];
            let suffix = done_text(t.is_complete());
            let line = if i < info.item_tasks.len() {
                let d = &info.item_tasks[i];
                if d.message.as_str().is_empty() {
                    let p = find_item_info(item_infos, d.item_index);
                    let name = if p < item_infos.len() {
                        item_infos[p].friendly_name.clone()
                    } else {
                        join(text("Item"), int_text(d.item_index as i64).as_str())
                    };
                    let mut l = join(text("Collect "), name.as_str());
                    l = join(l, ": ");
                    l = join(l, int_text(t.count as i64).as_str());
                    l = join(l, "/");
                    l = join(l, int_text(d.count as i64).as_str());
                    join(l, suffix.as_str())
                } else {
                    join(d.message.clone(), suffix.as_str())
                }
            } else {
                let mut l = join(text("Collect Item"), int_text(t.item_index as i64).as_str());
                l = join(l, ": ");
                l = join(l, int_text(t.count as i64).as_str());
                l = join(l, "/");
                l = join(l, int_text(t.required_count as i64).as_str());
                join(l, suffix.as_str())
            };
            proof {
                lemma_texts_push(self.task_list@, line);
                assert(line@ == item_line(*info, item_infos@, t, i as int));
                assert(base + Seq::new((i + 1) as nat, |k: int| item_line(*info, item_infos@, self.item_tasks@[k], k)) =~=
                    (base + Seq::new(i as nat, |k: int| item_line(*info, item_infos@, self.item_tasks@[k], k))).push(line@));
            }
            self.task_list.push(line);
            i = i + 1;
        }
        proof {
            assert(Seq::new(i as nat, |k: int| item_line(*info, item_infos@, self.item_tasks@[k], k)) =~= item_lines(*info, item_infos@, self.item_tasks@));
        }
    }

    fn update_flag_tasks(&mut self, info: &QuestInfo)
        ensures
            texts(final(self).task_list@) == texts(old(self).task_list@) + flag_lines(*info, old(self).flag_tasks@),
            final(self).kill_tasks == old(self).kill_tasks,
            final(self).item_tasks == old(self).item_tasks,
            final(self).flag_tasks == old(self).flag_tasks,
            final(self).quest_id == old(self).quest_id,
            final(self).start_time_ms == old(self).start_time_ms,
            final(self).end_time_ms == old(self).end_time_ms,
    {
        if !info.flag_message.as_str().is_empty() && self.flag_tasks.len() > 0 {
            let mut all_complete = true;
            let mut j: usize = 0;
            while j < self.flag_tasks.len()
                invariant
                    0 <= j <= self.flag_tasks@.len(),
                    all_complete == forall|k: int| 0 <= k < j ==> (#[trigger] self.flag_tasks@[k]).state,
                decreases self.flag_tasks@.len() - j,
            {
                if !self.flag_tasks[j].is_complete() {
                    all_complete = false;
                }
                j = j + 1;
            }
            let line = join(info.flag_message.clone(), done_text(all_complete).as_str());
            proof {
                lemma_texts_push(self.task_list@, line);
            }
            self.task_list.push(line);
            return;
        }
        let ghost base = texts(self.task_list@);
        let mut i: usize = 0;
        while i < self.flag_tasks.len()
            invariant
                0 <= i <= self.flag_tasks@.len(),
                !(info.flag_message@.len() > 0 && self.flag_tasks@.len() > 0),
                self.kill_tasks == old(self).kill_tasks,
                self.item_tasks == old(self).item_tasks,
                self.flag_tasks == old(self).flag_tasks,
                self.quest_id == old(self).quest_id,
                self.start_time_ms == old(self).start_time_ms,
                self.end_time_ms == old(self).end_time_ms,
                base == texts(old(self).task_list@),
                texts(self.task_list@) == base + Seq::new(i as nat, |k: int| flag_line(*info, self.flag_tasks@[k], k)),
            decreases self.flag_tasks@.len() - i,
        {
            let t = self.flag_tasks[i];
            let suffix = done_text(t.is_complete());
            let line = if i < info.flag_tasks.len() {
                let d = &info.flag_tasks[i];
                if d.message.as_str().is_empty() {
                    let l = join(text("Activate Flag "), int_text(d.number as i64).as_str());
                    join(l, suffix.as_str())
                } else {
                    join(d.message.clone(), suffix.as_str())
                }
            } else {
                let l = join(text("Activate Flag "), int_text(t.number as i64).as_str());
                join(l, suffix.as_str())
            };
            proof {
                lemma_texts_push(self.task_list@, line);
                assert(line@ == flag_line(*info, t, i as int));
                assert(base + Seq::new((i + 1) as nat, |k: int| flag_line(*info, self.flag_tasks@[k], k)) =~=
                    (base + Seq::new(i as nat, |k: int| flag_line(*info, self.flag_tasks@[k], k))).push(line@));
            }
            self.task_list.push(line);
            i = i + 1;
        }
        proof {
            assert(Seq::new(i as nat, |k: int| flag_line(*info, self.flag_tasks@[k], k)) =~= flag_lines(*info, self.flag_tasks@));
        }
    }

    fn update_goto_task(&mut self, info: &QuestInfo)
        ensures
            texts(final(self).task_list@) == texts(old(self).task_list@) + goto_lines(*info, old(self).end_time_ms is Some),
            final(self).kill_tasks == old(self).kill_tasks,
            final(self).item_tasks == old(self).item_tasks,
            final(self).flag_tasks == old(self).flag_tasks,
            final(self).quest_id == old(self).quest_id,
            final(self).start_time_ms == old(self).start_time_ms,
            final(self).end_time_ms == old(self).end_time_ms,
    {
        if info.goto_message.as_str().is_empty() {
            assert(texts(self.task_list@) + goto_lines(*info, self.end_time_ms is Some) =~= texts(self.task_list@));
            return;
        }
        if !self.completed() {
            assert(texts(self.task_list@) + goto_lines(*info, self.end_time_ms is Some) =~= texts(self.task_list@));
            return;
        }
        let line = info.goto_message.clone();
        proof {
            lemma_texts_push(self.task_list@, line);
            assert(texts(self.task_list@).push(line@) =~= texts(self.task_list@) + goto_lines(*info, self.end_time_ms is Some));
        }
        self.task_list.push(line);
    }

    /// Rebuilds the task list: kill, item and flag lines, then the go-to
    /// line of a completed quest.
    pub fn update_tasks(&mut self, info: &QuestInfo, item_infos: &[ItemInfoData])
        ensures
            texts(final(self).task_list@) == task_lines(*info, item_infos@, *old(self)),
            final(self).kill_tasks == old(self).kill_tasks,
            final(self).item_tasks == old(self).item_tasks,
            final(self).flag_tasks == old(self).flag_tasks,
            final(self).quest_id == old(self).quest_id,
            final(self).start_time_ms == old(self).start_time_ms,
            final(self).end_time_ms == old(self).end_time_ms,
    {
        self.task_list.clear();
        proof {
            assert(texts(self.task_list@) =~= Seq::<Seq<char>>::empty());
        }
        self.update_kill_tasks(info);
        self.update_item_tasks(info, item_infos);
        self.update_flag_tasks(info);
        self.update_goto_task(info);
        proof {
            assert(Seq::<Seq<char>>::empty() + kill_lines(*info, self.kill_tasks@) =~= kill_lines(*info, self.kill_tasks@));
        }
    }

    /// Checks whether every task is done. The task list is rebuilt first; a
    /// quest with every task done is completed at `now_ms` (unless it was
    /// completed before) and its task list rebuilt again.
    pub fn check_completed(&mut self, info: &QuestInfo, item_infos: &[ItemInfoData], now_ms: i64) -> (r: bool)
        ensures
            r == all_tasks_done(*old(self)),
            final(self).kill_tasks == old(self).kill_tasks,
            final(self).item_tasks == old(self).item_tasks,
            final(self).flag_tasks == old(self).flag_tasks,
            final(self).quest_id == old(self).quest_id,
            final(self).start_time_ms == old(self).start_time_ms,
            final(self).end_time_ms == if r && old(self).end_time_ms is None {
                Some(now_ms)
            } else {
                old(self).end_time_ms
            },
            texts(final(self).task_list@) == task_lines(*info, item_infos@, *final(self)),
    {
        self.update_tasks(info, item_infos);
        let mut can_complete = true;
        let mut i: usize = 0;
        while i < self.kill_tasks.len()
            invariant
                0 <= i <= self.kill_tasks@.len(),
                can_complete == forall|k: int| 0 <= k < i ==> (#[trigger] self.kill_tasks@[k]).count >= self.kill_tasks@[k].required_count,
            decreases self.kill_tasks@.len() - i,
        {
            if !self.kill_tasks[i].is_complete() {
                can_complete = false;
            }
            i = i + 1;
        }
        let kills_done = can_complete;
        let mut i: usize = 0;
        while i < self.item_tasks.len()
            invariant
                0 <= i <= self.item_tasks@.len(),
                can_complete == (kills_done && forall|k: int| 0 <= k < i ==> (#[trigger] self.item_tasks@[k]).count >= self.item_tasks@[k].required_count),
            decreases self.item_tasks@.len() - i,
        {
            if !self.item_tasks[i].is_complete() {
                can_complete = false;
            }
            i = i + 1;
        }
        let items_done = can_complete;
        let mut i: usize = 0;
        while i < self.flag_tasks.len()
            invariant
                0 <= i <= self.flag_tasks@.len(),
                can_complete == (items_done && forall|k: int| 0 <= k < i ==> (#[trigger] self.flag_tasks@[k]).state),
            decreases self.flag_tasks@.len() - i,
        {
            if !self.flag_tasks[i].is_complete() {
                can_complete = false;
            }
            i = i + 1;
        }
        if !can_complete {
            return false;
        }
        if !self.completed() {
            self.end_time_ms = Some(now_ms);
        }
        self.update_tasks(info, item_infos);
        true
    }

    /// The progress record as the client reads it: quest id, task list,
    /// taken, completed, and whether it is new at `now_ms`.
    pub fn to_client_progress_bytes(&self, now_ms: i64) -> (r: Vec<u8>)
        ensures
            r@ == crate::wire::progress_record(
                self.quest_id.0,
                texts(self.task_list@),
                self.start_time_ms is Some,
                self.end_time_ms is Some,
                self.is_new_at(now_ms),
            ),
    {
        let taken = self.taken();
        let completed = self.completed();
        let is_new = self.is_new(now_ms);
        crate::wire::encode_client_progress_bytes(self.quest_id.0, self.task_list.as_slice(), taken, completed, is_new)
    }
}

} // verus!

verus! {

/// A kill never pushes a task past its required count, never lowers a
/// count, and moves at most one count up by one.
pub proof fn law_kill_never_overshoots(s: Seq<QuestKillTaskProgress>, monster: i32)
    requires
        forall|k: int| 0 <= k < s.len() ==> (#[trigger] s[k]).count <= s[k].required_count,
    ensures
        after_kill(s, monster).len() == s.len(),
        forall|k: int| 0 <= k < s.len() ==> (#[trigger] after_kill(s, monster)[k]).count <= s[k].required_count,
        forall|k: int| 0 <= k < s.len() ==> s[k].count <= (#[trigger] after_kill(s, monster)[k]).count <= s[k].count + 1,
        forall|k: int, l: int| 0 <= k < l < s.len() && after_kill(s, monster)[k] != s[k] ==> after_kill(s, monster)[l] == s[l],
{
    lemma_kill_pos_range(s, monster);
}

proof fn lemma_kill_pos_range(s: Seq<QuestKillTaskProgress>, monster: i32)
    ensures
        0 <= kill_pos(s, monster) <= s.len(),
    decreases s.len(),
{
    if s.len() > 0 && s[0].monster_index != monster {
        lemma_kill_pos_range(s.drop_first(), monster);
    }
}

/// Reading the flags never clears a flag task that was already done.
pub proof fn law_flag_tasks_stay_done(t: QuestFlagTaskProgress, flags: Seq<bool>)
    ensures
        t.state ==> flag_scanned(t, flags).state,
        flag_scanned(t, flags).number == t.number,
{
}

} // verus!
