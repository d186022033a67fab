//! Item rental: owners deposit items for a period, players rent them, and
//! expired rentals go back to their owners.
use std::collections::HashMap;
use vstd::prelude::*;
use crate::item::{same_item, UserItemData};
use crate::maps::{derefs, keys_of, lemma_derefs_push, lemma_selected_step, map_get_mut, selected_values};
use crate::text::{is_err_with, text};

verus! {

broadcast use vstd::std_specs::hash::group_hash_axioms;

/// Seconds in a day.
pub const SECONDS_PER_DAY: u64 = 86400;

/// A deposited item and its rental terms.
#[derive(Clone, Debug)]
pub struct RentalItem {
    pub item: UserItemData,
    pub owner_id: i32,
    pub rental_price: u32,
    pub rental_period_days: u32,
    /// Unix time in seconds of the deposit.
    pub deposit_time: u64,
    /// Unix time in seconds when the rental runs out.
    pub expiry_time: u64,
    /// Set while a player rents the item.
    pub is_locked: bool,
    pub rental_fee: u32,
}

/// A fresh deposit made at `now`, running for the period.
pub open spec fn is_new_rental(r: RentalItem, item: UserItemData, owner_id: i32, rental_price: u32, rental_period_days: u32, rental_fee: u32, now: u64) -> bool {
    &&& r.item == item
    &&& r.owner_id == owner_id
    &&& r.rental_price == rental_price
    &&& r.rental_period_days == rental_period_days
    &&& r.deposit_time == now
    &&& r.expiry_time == now + rental_period_days * 86400
    &&& !r.is_locked
    &&& r.rental_fee == rental_fee
}

/// The rental has run out at `now`.
pub open spec fn rental_expired(r: RentalItem, now: u64) -> bool {
    now >= r.expiry_time
}

/// The rental after an extension.
pub open spec fn extended(r: RentalItem, additional_days: u32, extension_fee: u32) -> RentalItem {
    RentalItem {
        expiry_time: (r.expiry_time + additional_days * 86400) as u64,
        rental_period_days: (r.rental_period_days + additional_days) as u32,
        rental_fee: (r.rental_fee + extension_fee) as u32,
        ..r
    }
}

/// An extension can be computed without overflow.
pub open spec fn extension_fits(r: RentalItem, additional_days: u32, extension_fee: u32) -> bool {
    &&& r.expiry_time + additional_days * 86400 <= u64::MAX
    &&& r.rental_period_days + additional_days <= u32::MAX
    &&& r.rental_fee + extension_fee <= u32::MAX
}

impl RentalItem {
    /// A deposit made at `now`.
    pub fn new(item: UserItemData, owner_id: i32, rental_price: u32, rental_period_days: u32, rental_fee: u32, now: u64) -> (r: Self)
        requires
            now + rental_period_days * 86400 <= u64::MAX,
        ensures
            is_new_rental(r, item, owner_id, rental_price, rental_period_days, rental_fee, now),
    {
        let expiry_time = now + rental_period_days as u64 * SECONDS_PER_DAY;
        RentalItem {
            item,
            owner_id,
            rental_price,
            rental_period_days,
            deposit_time: now,
            expiry_time,
            is_locked: false,
            rental_fee,
        }
    }

    /// The rental has run out at `now`.
    pub fn is_expired(&self, now: u64) -> (r: bool)
        ensures
            r == rental_expired(*self, now),
    {
        now >= self.expiry_time
    }

    /// Whole days left at `now`, truncated to 32 bits.
    pub fn get_remaining_days(&self, now: u64) -> (r: u32)
        ensures
            r == if now >= self.expiry_time {
                0
            } else {
                ((self.expiry_time - now) / 86400) as u32
            },
    {
        if now >= self.expiry_time {
            0
        } else {
            ((self.expiry_time - now) / SECONDS_PER_DAY) as u32
        }
    }

    /// Adds days to the rental and the fee to what was paid.
    pub fn extend_rental(&mut self, additional_days: u32, extension_fee: u32)
        requires
            extension_fits(*old(self), additional_days, extension_fee),
        ensures
            *final(self) == extended(*old(self), additional_days, extension_fee),
    {
        self.expiry_time = self.expiry_time + additional_days as u64 * SECONDS_PER_DAY;
        self.rental_period_days = self.rental_period_days + additional_days;
        self.rental_fee = self.rental_fee + extension_fee;
    }
}

/// A list of rental ids without one id.
pub open spec fn without(s: Seq<u64>, id: u64) -> Seq<u64> {
    s.filter(other_than(id))
}

/// Every id but one.
pub open spec fn other_than(id: u64) -> spec_fn(u64) -> bool {
    |x: u64| x != id
}

/// A player's list of rental ids; none when the player has no list.
pub open spec fn list_of(m: Map<i32, Seq<u64>>, player: i32) -> Seq<u64> {
    if m.contains_key(player) {
        m[player]
    } else {
        Seq::empty()
    }
}

/// The lists after one id is taken from a player's list, if the player has
/// one.
pub open spec fn taken_from(m: Map<i32, Seq<u64>>, player: i32, id: u64) -> Map<i32, Seq<u64>> {
    if m.contains_key(player) {
        m.insert(player, without(m[player], id))
    } else {
        m
    }
}

/// The lists after an id is added to the end of a player's list.
pub open spec fn added_to(m: Map<i32, Seq<u64>>, player: i32, id: u64) -> Map<i32, Seq<u64>> {
    m.insert(player, list_of(m, player).push(id))
}

/// The views of the id lists.
pub open spec fn list_views(m: Map<i32, Vec<u64>>) -> Map<i32, Seq<u64>> {
    m.map_values(|v: Vec<u64>| v@)
}

proof fn lemma_without_push(s: Seq<u64>, x: u64, id: u64)
    ensures
        without(s.push(x), id) == if x != id {
            without(s, id).push(x)
        } else {
            without(s, id)
        },
{
    s.lemma_filter_push(x, other_than(id));
}

/// Removes every copy of an id from a list.
fn remove_id(v: &mut Vec<u64>, id: u64)
    ensures
        final(v)@ == without(old(v)@, id),
{
    let mut kept: Vec<u64> = Vec::new();
    let mut i: usize = 0;
    while i < v.len()
        invariant
            0 <= i <= v@.len(),
            v@ == old(v)@,
            kept@ == without(v@.take(i as int), id),
        decreases v@.len() - i,
    {
        proof {
            assert(v@.take(i as int + 1) == v@.take(i as int).push(v@[i as int]));
            lemma_without_push(v@.take(i as int), v@[i as int], id);
        }
        if v[i] != id {
            kept.push(v[i]);
        }
        i = i + 1;
    }
    proof {
        assert(v@.take(v@.len() as int) == v@);
    }
    *v = kept;
}

/// Takes an id from a player's list, if the player has one.
fn take_from(m: &mut HashMap<i32, Vec<u64>>, player: i32, id: u64)
    ensures
        list_views(final(m)@) == taken_from(list_views(old(m)@), player, id),
{
    match map_get_mut(m, &player) {
        Some(items) => {
            remove_id(items, id);
        },
        None => {},
    }
    proof {
        assert(list_views(m@) =~= taken_from(list_views(old(m)@), player, id));
    }
}

/// Adds an id to the end of a player's list, making the list if needed.
fn add_to(m: &mut HashMap<i32, Vec<u64>>, player: i32, id: u64)
    ensures
        list_views(final(m)@) == added_to(list_views(old(m)@), player, id),
{
    if !m.contains_key(&player) {
        m.insert(player, Vec::new());
    }
    match map_get_mut(m, &player) {
        Some(items) => {
            items.push(id);
        },
        None => {},
    }
    proof {
        assert(list_views(m@) =~= added_to(list_views(old(m)@), player, id));
    }
}

} // verus!

verus! {

/// The rental desk: every deposit, what each player rents, and what each
/// owner has deposited.
#[derive(Clone, Debug)]
pub struct ItemRentalSystem {
    rentals: HashMap<u64, RentalItem>,
    player_rentals: HashMap<i32, Vec<u64>>,
    deposited_items: HashMap<i32, Vec<u64>>,
    next_rental_id: u64,
    max_rentals_per_player: usize,
    min_rental_period_days: u32,
    max_rental_period_days: u32,
    deposit_fee_percent: u32,
}

impl ItemRentalSystem {
    /// Every deposit by rental id.
    pub closed spec fn deposits(&self) -> Map<u64, RentalItem> {
        self.rentals@
    }

    /// The rental ids each player rents.
    pub closed spec fn rented_lists(&self) -> Map<i32, Seq<u64>> {
        list_views(self.player_rentals@)
    }

    /// The rental ids each owner has deposited and not rented out.
    pub closed spec fn deposited_lists(&self) -> Map<i32, Seq<u64>> {
        list_views(self.deposited_items@)
    }

    /// The next rental id to hand out.
    pub closed spec fn next_id(&self) -> u64 {
        self.next_rental_id
    }

    /// The limits: deposits per owner (and rentals per player), and the
    /// shortest and longest rental period in days.
    pub closed spec fn limits(&self) -> (usize, u32, u32) {
        (self.max_rentals_per_player, self.min_rental_period_days, self.max_rental_period_days)
    }

    /// The deposit, in percent of an item's value.
    pub closed spec fn deposit_percent(&self) -> u32 {
        self.deposit_fee_percent
    }

    /// An empty desk: ids from 1, ten items per player, periods of 1 to 30
    /// days, a 10% deposit.
    pub fn new() -> (r: Self)
        ensures
            r.deposits() == Map::<u64, RentalItem>::empty(),
            r.rented_lists() == Map::<i32, Seq<u64>>::empty(),
            r.deposited_lists() == Map::<i32, Seq<u64>>::empty(),
            r.next_id() == 1,
            r.limits() == (10usize, 1u32, 30u32),
            r.deposit_percent() == 10,
    {
        let r = ItemRentalSystem {
            rentals: HashMap::new(),
            player_rentals: HashMap::new(),
            deposited_items: HashMap::new(),
            next_rental_id: 1,
            max_rentals_per_player: 10,
            min_rental_period_days: 1,
            max_rental_period_days: 30,
            deposit_fee_percent: 10,
        };
        proof {
            assert(r.rented_lists() =~= Map::<i32, Seq<u64>>::empty());
            assert(r.deposited_lists() =~= Map::<i32, Seq<u64>>::empty());
        }
        r
    }

    /// The deposit, in percent of an item's value.
    pub fn deposit_fee_percent(&self) -> (r: u32)
        ensures
            r == self.deposit_percent(),
    {
        self.deposit_fee_percent
    }

    fn rentals_listed(&self, ids: &Vec<u64>) -> (r: Vec<&RentalItem>)
        ensures
            derefs(r@) == selected_values(self.rentals@, ids@, |k: u64| self.rentals@.contains_key(k)),
    {
        let ghost m = self.rentals@;
        let ghost keep = |k: u64| m.contains_key(k);
        let mut out: Vec<&RentalItem> = Vec::new();
        let mut i: usize = 0;
        while i < ids.len()
            invariant
                0 <= i <= ids@.len(),
                m == self.rentals@,
                keep == (|k: u64| m.contains_key(k)),
                derefs(out@) == selected_values(m, ids@.take(i as int), keep),
            decreases ids@.len() - i,
        {
            let k = ids[i];
            proof {
                lemma_selected_step(m, ids@, i as int, keep);
            }
            match self.rentals.get(&k) {
                Some(t) => {
                    proof {
                        lemma_derefs_push(out@, t);
                    }
                    out.push(t);
                },
                None => {},
            }
            i = i + 1;
        }
        proof {
            assert(ids@.take(ids@.len() as int) == ids@);
        }
        out
    }

    /// The deposits a player rents, in renting order, skipping ids whose
    /// deposit is gone.
    pub fn get_player_rentals(&self, player_id: i32) -> (r: Vec<&RentalItem>)
        ensures
            derefs(r@) == selected_values(
                self.deposits(),
                list_of(self.rented_lists(), player_id),
                |k: u64| self.deposits().contains_key(k),
            ),
    {
        match self.player_rentals.get(&player_id) {
            Some(ids) => self.rentals_listed(ids),
            None => {
                let out: Vec<&RentalItem> = Vec::new();
                proof {
                    assert(derefs(out@) =~= Seq::<RentalItem>::empty());
                    assert(Seq::<u64>::empty().filter(|k: u64| self.deposits().contains_key(k)) =~= Seq::<u64>::empty()) by {
                        Seq::<u64>::empty().lemma_filter_len(|k: u64| self.deposits().contains_key(k));
                    }
                }
                out
            },
        }
    }

    /// The deposits an owner has not rented out, in deposit order, skipping
    /// ids whose deposit is gone.
    pub fn get_deposited_items(&self, player_id: i32) -> (r: Vec<&RentalItem>)
        ensures
            derefs(r@) == selected_values(
                self.deposits(),
                list_of(self.deposited_lists(), player_id),
                |k: u64| self.deposits().contains_key(k),
            ),
    {
        match self.deposited_items.get(&player_id) {
            Some(ids) => self.rentals_listed(ids),
            None => {
                let out: Vec<&RentalItem> = Vec::new();
                proof {
                    assert(derefs(out@) =~= Seq::<RentalItem>::empty());
                    assert(Seq::<u64>::empty().filter(|k: u64| self.deposits().contains_key(k)) =~= Seq::<u64>::empty()) by {
                        Seq::<u64>::empty().lemma_filter_len(|k: u64| self.deposits().contains_key(k));
                    }
                }
                out
            },
        }
    }

    /// A deposit by id.
    pub fn get_rental(&self, rental_id: u64) -> (r: Option<&RentalItem>)
        ensures
            match r {
                Some(t) => self.deposits().contains_key(rental_id) && *t == self.deposits()[rental_id],
                None => !self.deposits().contains_key(rental_id),
            },
    {
        self.rentals.get(&rental_id)
    }

    /// The player rents fewer items than the limit.
    pub fn can_rent_more(&self, player_id: i32) -> (r: bool)
        ensures
            r == (list_of(self.rented_lists(), player_id).len() < self.limits().0),
    {
        let count: usize = match self.player_rentals.get(&player_id) {
            Some(items) => items.len(),
            None => 0,
        };
        count < self.max_rentals_per_player
    }
}

} // verus!

verus! {

/// The lists after each listed id is taken from its owner's list, in order.
pub open spec fn taken_each(m: Map<i32, Seq<u64>>, ids: Seq<u64>, owners: Map<u64, RentalItem>) -> Map<i32, Seq<u64>>
    decreases ids.len(),
{
    if ids.len() == 0 {
        m
    } else {
        let k = ids.last();
        taken_from(taken_each(m, ids.drop_last(), owners), owners[k].owner_id, k)
    }
}

/// A deposit that has run out while rented at `now`: it goes back.
pub open spec fn rental_returns(r: RentalItem, now: u64) -> bool {
    rental_expired(r, now) && r.is_locked
}

impl ItemRentalSystem {
    /// Deposits an item for rent at `now` under the next id and returns the
    /// id. Errors: a period outside the limits, or the owner already has the
    /// most deposits allowed.
    pub fn deposit_item(&mut self, item: UserItemData, owner_id: i32, rental_price: u32, rental_period_days: u32, rental_fee: u32, now: u64) -> (r: Result<u64, String>)
        requires
            old(self).next_id() < u64::MAX,
            now + rental_period_days * 86400 <= u64::MAX,
        ensures
            final(self).limits() == old(self).limits(),
            final(self).deposit_percent() == old(self).deposit_percent(),
            final(self).rented_lists() == old(self).rented_lists(),
            rental_period_days < old(self).limits().1 || rental_period_days > old(self).limits().2 ==> is_err_with(
                r,
                "Invalid rental period"@,
            ),
            old(self).limits().1 <= rental_period_days <= old(self).limits().2 && list_of(old(self).deposited_lists(), owner_id).len()
                >= old(self).limits().0 ==> is_err_with(r, "Maximum deposited items reached"@),
            r is Ok <==> old(self).limits().1 <= rental_period_days <= old(self).limits().2 && list_of(
                old(self).deposited_lists(),
                owner_id,
            ).len() < old(self).limits().0,
            r is Err ==> final(self).deposits() == old(self).deposits() && final(self).deposited_lists() == old(
                self,
            ).deposited_lists() && final(self).next_id() == old(self).next_id(),
            r is Ok ==> {
                let id = old(self).next_id();
                &&& r == Ok::<u64, String>(id)
                &&& final(self).next_id() == id + 1
                &&& final(self).deposits().dom() == old(self).deposits().dom().insert(id)
                &&& is_new_rental(final(self).deposits()[id], item, owner_id, rental_price, rental_period_days, rental_fee, now)
                &&& forall|k: u64| k != id && old(self).deposits().contains_key(k) ==> #[trigger] final(self).deposits()[k]
                    == old(self).deposits()[k]
                &&& final(self).deposited_lists() == added_to(old(self).deposited_lists(), owner_id, id)
            },
    {
        if rental_period_days < self.min_rental_period_days || rental_period_days > self.max_rental_period_days {
            return Err(text("Invalid rental period"));
        }
        let deposit_count: usize = match self.deposited_items.get(&owner_id) {
            Some(items) => items.len(),
            None => 0,
        };
        if deposit_count >= self.max_rentals_per_player {
            return Err(text("Maximum deposited items reached"));
        }
        let rental_id = self.next_rental_id;
        self.next_rental_id = self.next_rental_id + 1;
        let rental = RentalItem::new(item, owner_id, rental_price, rental_period_days, rental_fee, now);
        self.rentals.insert(rental_id, rental);
        add_to(&mut self.deposited_items, owner_id, rental_id);
        Ok(rental_id)
    }

    /// A player rents a deposit at `now`: it is locked, leaves its owner's
    /// deposit list and joins the player's rentals, and a copy of the item
    /// comes back. Errors: no such deposit, it is rented, or it ran out.
    pub fn rent_item(&mut self, rental_id: u64, renter_id: i32, now: u64) -> (r: Result<UserItemData, String>)
        ensures
            final(self).limits() == old(self).limits(),
            final(self).next_id() == old(self).next_id(),
            !old(self).deposits().contains_key(rental_id) ==> is_err_with(r, "Rental not found"@),
            old(self).deposits().contains_key(rental_id) && old(self).deposits()[rental_id].is_locked ==> is_err_with(
                r,
                "Item is currently locked"@,
            ),
            old(self).deposits().contains_key(rental_id) && !old(self).deposits()[rental_id].is_locked && rental_expired(
                old(self).deposits()[rental_id],
                now,
            ) ==> is_err_with(r, "Rental has expired"@),
            r is Ok <==> old(self).deposits().contains_key(rental_id) && !old(self).deposits()[rental_id].is_locked
                && !rental_expired(old(self).deposits()[rental_id], now),
            r is Err ==> final(self).deposits() == old(self).deposits() && final(self).deposited_lists() == old(
                self,
            ).deposited_lists() && final(self).rented_lists() == old(self).rented_lists(),
            r is Ok ==> {
                let t = old(self).deposits()[rental_id];
                &&& r matches Ok(item) && same_item(item, t.item)
                &&& final(self).deposits() == old(self).deposits().insert(rental_id, RentalItem { is_locked: true, ..t })
                &&& final(self).deposited_lists() == taken_from(old(self).deposited_lists(), t.owner_id, rental_id)
                &&& final(self).rented_lists() == added_to(old(self).rented_lists(), renter_id, rental_id)
            },
    {
        let (owner_id, item) = match map_get_mut(&mut self.rentals, &rental_id) {
            None => {
                return Err(text("Rental not found"));
            },
            Some(rental) => {
                if rental.is_locked {
                    return Err(text("Item is currently locked"));
                }
                if rental.is_expired(now) {
                    return Err(text("Rental has expired"));
                }
                rental.is_locked = true;
                (rental.owner_id, rental.item.duplicate())
            },
        };
        take_from(&mut self.deposited_items, owner_id, rental_id);
        add_to(&mut self.player_rentals, renter_id, rental_id);
        Ok(item)
    }

    fn take_back(&mut self, rental_id: u64, owner_id: i32, locked_message: &str) -> (r: Result<UserItemData, String>)
        ensures
            final(self).limits() == old(self).limits(),
            final(self).next_id() == old(self).next_id(),
            final(self).rented_lists() == old(self).rented_lists(),
            !old(self).deposits().contains_key(rental_id) ==> is_err_with(r, "Rental not found"@),
            old(self).deposits().contains_key(rental_id) && old(self).deposits()[rental_id].owner_id != owner_id
                ==> is_err_with(r, "Not the owner"@),
            old(self).deposits().contains_key(rental_id) && old(self).deposits()[rental_id].owner_id == owner_id
                && old(self).deposits()[rental_id].is_locked ==> is_err_with(r, locked_message@),
            r is Ok <==> old(self).deposits().contains_key(rental_id) && old(self).deposits()[rental_id].owner_id
                == owner_id && !old(self).deposits()[rental_id].is_locked,
            r is Err ==> final(self).deposits() == old(self).deposits() && final(self).deposited_lists() == old(
                self,
            ).deposited_lists(),
            r is Ok ==> {
                &&& r matches Ok(item) && same_item(item, old(self).deposits()[rental_id].item)
                &&& final(self).deposits() == old(self).deposits().remove(rental_id)
                &&& final(self).deposited_lists() == taken_from(old(self).deposited_lists(), owner_id, rental_id)
            },
    {
        let item = match self.rentals.get(&rental_id) {
            None => {
                return Err(text("Rental not found"));
            },
            Some(rental) => {
                if rental.owner_id != owner_id {
                    return Err(text("Not the owner"));
                }
                if rental.is_locked {
                    return Err(text(locked_message));
                }
                rental.item.duplicate()
            },
        };
        self.rentals.remove(&rental_id);
        take_from(&mut self.deposited_items, owner_id, rental_id);
        Ok(item)
    }

    /// The owner takes a deposit back. Errors: no such deposit, another
    /// owner's deposit, or it is rented.
    pub fn retrieve_deposited_item(&mut self, rental_id: u64, owner_id: i32) -> (r: Result<UserItemData, String>)
        ensures
            final(self).limits() == old(self).limits(),
            final(self).next_id() == old(self).next_id(),
            final(self).rented_lists() == old(self).rented_lists(),
            !old(self).deposits().contains_key(rental_id) ==> is_err_with(r, "Rental not found"@),
            old(self).deposits().contains_key(rental_id) && old(self).deposits()[rental_id].owner_id != owner_id
                ==> is_err_with(r, "Not the owner"@),
            old(self).deposits().contains_key(rental_id) && old(self).deposits()[rental_id].owner_id == owner_id
                && old(self).deposits()[rental_id].is_locked ==> is_err_with(r, "Item is currently rented"@),
            r is Ok <==> old(self).deposits().contains_key(rental_id) && old(self).deposits()[rental_id].owner_id
                == owner_id && !old(self).deposits()[rental_id].is_locked,
            r is Err ==> final(self).deposits() == old(self).deposits() && final(self).deposited_lists() == old(
                self,
            ).deposited_lists(),
            r is Ok ==> {
                &&& r matches Ok(item) && same_item(item, old(self).deposits()[rental_id].item)
                &&& final(self).deposits() == old(self).deposits().remove(rental_id)
                &&& final(self).deposited_lists() == taken_from(old(self).deposited_lists(), owner_id, rental_id)
            },
    {
        self.take_back(rental_id, owner_id, "Item is currently rented")
    }

    /// The owner cancels a deposit that is not rented. Errors: no such
    /// deposit, another owner's deposit, or it is rented.
    pub fn cancel_rental(&mut self, rental_id: u64, owner_id: i32) -> (r: Result<UserItemData, String>)
        ensures
            final(self).limits() == old(self).limits(),
            final(self).next_id() == old(self).next_id(),
            final(self).rented_lists() == old(self).rented_lists(),
            !old(self).deposits().contains_key(rental_id) ==> is_err_with(r, "Rental not found"@),
            old(self).deposits().contains_key(rental_id) && old(self).deposits()[rental_id].owner_id != owner_id
                ==> is_err_with(r, "Not the owner"@),
            old(self).deposits().contains_key(rental_id) && old(self).deposits()[rental_id].owner_id == owner_id
                && old(self).deposits()[rental_id].is_locked ==> is_err_with(r, "Cannot cancel active rental"@),
            r is Ok <==> old(self).deposits().contains_key(rental_id) && old(self).deposits()[rental_id].owner_id
                == owner_id && !old(self).deposits()[rental_id].is_locked,
            r is Err ==> final(self).deposits() == old(self).deposits() && final(self).deposited_lists() == old(
                self,
            ).deposited_lists(),
            r is Ok ==> {
                &&& r matches Ok(item) && same_item(item, old(self).deposits()[rental_id].item)
                &&& final(self).deposits() == old(self).deposits().remove(rental_id)
                &&& final(self).deposited_lists() == taken_from(old(self).deposited_lists(), owner_id, rental_id)
            },
    {
        self.take_back(rental_id, owner_id, "Cannot cancel active rental")
    }

    fn rents(&self, renter_id: i32, rental_id: u64) -> (r: bool)
        ensures
            r == list_of(self.rented_lists(), renter_id).contains(rental_id),
    {
        match self.player_rentals.get(&renter_id) {
            Some(items) => {
                proof {
                    assert(list_views(self.player_rentals@).contains_key(renter_id));
                    assert(list_views(self.player_rentals@)[renter_id] == items@);
                }
                let mut i: usize = 0;
                while i < items.len()
                    invariant
                        0 <= i <= items@.len(),
                        list_of(self.rented_lists(), renter_id) == items@,
                        forall|j: int| 0 <= j < i ==> items@[j] != rental_id,
                    decreases items@.len() - i,
                {
                    if items[i] == rental_id {
                        proof {
                            assert(items@[i as int] == rental_id);
                        }
                        return true;
                    }
                    i = i + 1;
                }
                false
            },
            None => false,
        }
    }

    /// The renter gives a deposit back: it leaves the renter's list, returns
    /// to its owner's deposit list and is unlocked. Errors: no such deposit,
    /// or the player does not rent it.
    pub fn return_rented_item(&mut self, rental_id: u64, renter_id: i32) -> (r: Result<(), String>)
        ensures
            final(self).limits() == old(self).limits(),
            final(self).next_id() == old(self).next_id(),
            !old(self).deposits().contains_key(rental_id) ==> is_err_with(r, "Rental not found"@),
            old(self).deposits().contains_key(rental_id) && !list_of(old(self).rented_lists(), renter_id).contains(rental_id)
                ==> is_err_with(r, "Not renting this item"@),
            r is Ok <==> old(self).deposits().contains_key(rental_id) && list_of(old(self).rented_lists(), renter_id).contains(
                rental_id,
            ),
            r is Err ==> final(self).deposits() == old(self).deposits() && final(self).deposited_lists() == old(
                self,
            ).deposited_lists() && final(self).rented_lists() == old(self).rented_lists(),
            r is Ok ==> {
                let t = old(self).deposits()[rental_id];
                &&& final(self).deposits() == old(self).deposits().insert(rental_id, RentalItem { is_locked: false, ..t })
                &&& final(self).rented_lists() == taken_from(old(self).rented_lists(), renter_id, rental_id)
                &&& final(self).deposited_lists() == added_to(old(self).deposited_lists(), t.owner_id, rental_id)
            },
    {
        let owner_id = match self.rentals.get(&rental_id) {
            None => {
                return Err(text("Rental not found"));
            },
            Some(rental) => rental.owner_id,
        };
        if !self.rents(renter_id, rental_id) {
            return Err(text("Not renting this item"));
        }
        take_from(&mut self.player_rentals, renter_id, rental_id);
        add_to(&mut self.deposited_items, owner_id, rental_id);
        match map_get_mut(&mut self.rentals, &rental_id) {
            Some(rental) => {
                rental.is_locked = false;
            },
            None => {},
        }
        Ok(())
    }

    /// The renter extends a rental by some days for a fee. Errors: no such
    /// deposit, the player does not rent it, or the new period passes the
    /// longest allowed.
    pub fn extend_rental(&mut self, rental_id: u32, additional_days: u32, extension_fee: u32, renter_id: i32) -> (r: Result<(), String>)
        requires
            old(self).deposits().contains_key(rental_id as u64) && list_of(old(self).rented_lists(), renter_id).contains(
                rental_id as u64,
            ) ==> {
                let t = old(self).deposits()[rental_id as u64];
                &&& t.rental_period_days + additional_days <= u32::MAX
                &&& t.rental_period_days + additional_days <= old(self).limits().2 ==> extension_fits(t, additional_days, extension_fee)
            },
        ensures
            final(self).limits() == old(self).limits(),
            final(self).next_id() == old(self).next_id(),
            final(self).rented_lists() == old(self).rented_lists(),
            final(self).deposited_lists() == old(self).deposited_lists(),
            !old(self).deposits().contains_key(rental_id as u64) ==> is_err_with(r, "Rental not found"@),
            old(self).deposits().contains_key(rental_id as u64) && !list_of(old(self).rented_lists(), renter_id).contains(
                rental_id as u64,
            ) ==> is_err_with(r, "Not renting this item"@),
            old(self).deposits().contains_key(rental_id as u64) && list_of(old(self).rented_lists(), renter_id).contains(
                rental_id as u64,
            ) && old(self).deposits()[rental_id as u64].rental_period_days + additional_days > old(self).limits().2
                ==> is_err_with(r, "Rental period exceeds maximum"@),
            r is Ok <==> old(self).deposits().contains_key(rental_id as u64) && list_of(old(self).rented_lists(), renter_id).contains(
                rental_id as u64,
            ) && old(self).deposits()[rental_id as u64].rental_period_days + additional_days <= old(self).limits().2,
            r is Err ==> final(self).deposits() == old(self).deposits(),
            r is Ok ==> final(self).deposits() == old(self).deposits().insert(
                rental_id as u64,
                extended(old(self).deposits()[rental_id as u64], additional_days, extension_fee),
            ),
    {
        let key: u64 = rental_id as u64;
        if !self.rentals.contains_key(&key) {
            return Err(text("Rental not found"));
        }
        if !self.rents(renter_id, key) {
            return Err(text("Not renting this item"));
        }
        let max_days = self.max_rental_period_days;
        match map_get_mut(&mut self.rentals, &key) {
            Some(rental) => {
                let new_period = rental.rental_period_days + additional_days;
                if new_period > max_days {
                    return Err(text("Rental period exceeds maximum"));
                }
                rental.extend_rental(additional_days, extension_fee);
                Ok(())
            },
            None => Err(text("Rental not found")),
        }
    }
}

} // verus!

verus! {

/// `r` hands back, one each, the deposits listed under `gone`.
pub open spec fn rentals_handed_back(r: Seq<(u64, i32, UserItemData)>, m: Map<u64, RentalItem>, gone: Seq<u64>) -> bool {
    &&& r.len() == gone.len()
    &&& forall|j: int| 0 <= j < r.len() ==> {
        &&& r[j].0 == #[trigger] gone[j]
        &&& r[j].1 == m[gone[j]].owner_id
        &&& same_item(r[j].2, m[gone[j]].item)
    }
}

impl ItemRentalSystem {
    /// Removes a deposit and takes its id from its owner's rental and
    /// deposit lists.
    fn remove_rental(&mut self, rental_id: u64)
        ensures
            final(self).limits() == old(self).limits(),
            final(self).next_id() == old(self).next_id(),
            final(self).deposit_percent() == old(self).deposit_percent(),
            !old(self).deposits().contains_key(rental_id) ==> final(self).deposits() == old(self).deposits()
                && final(self).rented_lists() == old(self).rented_lists() && final(self).deposited_lists() == old(
                self,
            ).deposited_lists(),
            old(self).deposits().contains_key(rental_id) ==> {
                let owner = old(self).deposits()[rental_id].owner_id;
                &&& final(self).deposits() == old(self).deposits().remove(rental_id)
                &&& final(self).rented_lists() == taken_from(old(self).rented_lists(), owner, rental_id)
                &&& final(self).deposited_lists() == taken_from(old(self).deposited_lists(), owner, rental_id)
            },
    {
        match self.rentals.remove(&rental_id) {
            Some(rental) => {
                take_from(&mut self.player_rentals, rental.owner_id, rental_id);
                take_from(&mut self.deposited_items, rental.owner_id, rental_id);
            },
            None => {},
        }
    }

    /// Takes back every deposit that ran out while rented at `now`: each is
    /// removed, its id taken from its owner's lists, and it comes back as
    /// (id, owner, item), in the map's order.
    pub fn cleanup_expired_rentals(&mut self, now: u64) -> (r: Vec<(u64, i32, UserItemData)>)
        ensures
            final(self).limits() == old(self).limits(),
            final(self).next_id() == old(self).next_id(),
            exists|gone: Seq<u64>| {
                &&& gone.no_duplicates()
                &&& forall|k: u64| gone.contains(k) <==> old(self).deposits().contains_key(k) && rental_returns(
                    old(self).deposits()[k],
                    now,
                )
                &&& #[trigger] rentals_handed_back(r@, old(self).deposits(), gone)
                &&& final(self).deposits() == old(self).deposits().remove_keys(gone.to_set())
                &&& final(self).rented_lists() == taken_each(old(self).rented_lists(), gone, old(self).deposits())
                &&& final(self).deposited_lists() == taken_each(old(self).deposited_lists(), gone, old(self).deposits())
            },
    {
        let ks = keys_of(&self.rentals);
        let ghost start = self.rentals@;
        let mut expired: Vec<(u64, i32, UserItemData)> = Vec::new();
        let mut to_remove: Vec<u64> = Vec::new();
        let mut i: usize = 0;
        while i < ks.len()
            invariant
                0 <= i <= ks@.len(),
                ks@.no_duplicates(),
                forall|k: u64| ks@.contains(k) <==> start.contains_key(k),
                start == self.rentals@,
                to_remove@.no_duplicates(),
                forall|k: u64| #[trigger] to_remove@.contains(k) <==> ks@.take(i as int).contains(k) && rental_returns(start[k], now),
                rentals_handed_back(expired@, start, to_remove@),
            decreases ks@.len() - i,
        {
            let k = ks[i];
            assert(ks@.contains(k));
            let ghost before_remove = to_remove@;
            let ghost before_items = expired@;
            match self.rentals.get(&k) {
                Some(rental) => {
                    if rental.is_expired(now) && rental.is_locked {
                        expired.push((k, rental.owner_id, rental.item.duplicate()));
                        to_remove.push(k);
                    }
                },
                None => {
                    assert(false);
                },
            }
            proof {
                assert(!ks@.take(i as int).contains(k)) by {
                    if ks@.take(i as int).contains(k) {
                        let w = choose|w: int| 0 <= w < i && ks@.take(i as int)[w] == k;
                        assert(ks@[w] == ks@[i as int]);
                    }
                }
                assert(!before_remove.contains(k));
                let t = ks@.take(i as int);
                let t1 = ks@.take(i as int + 1);
                assert forall|y: u64| t1.contains(y) <==> t.contains(y) || y == k by {
                    if t1.contains(y) {
                        let w = choose|w: int| 0 <= w < t1.len() && t1[w] == y;
                        if w < i {
                            assert(t[w] == y);
                        }
                    }
                    if t.contains(y) {
                        let w = choose|w: int| 0 <= w < t.len() && t[w] == y;
                        assert(t1[w] == y);
                    }
                    if y == k {
                        assert(t1[i as int] == k);
                    }
                }
                let pushed = to_remove@.len() > before_remove.len();
                assert(pushed == rental_returns(start[k], now));
                assert forall|y: u64| #[trigger] to_remove@.contains(y) <==> before_remove.contains(y) || (pushed && y == k) by {
                    if to_remove@.contains(y) && !before_remove.contains(y) {
                        let w = choose|w: int| 0 <= w < to_remove@.len() && to_remove@[w] == y;
                        if w < before_remove.len() {
                            assert(before_remove[w] == y);
                        }
                    }
                    if before_remove.contains(y) {
                        let w = choose|w: int| 0 <= w < before_remove.len() && before_remove[w] == y;
                        assert(to_remove@[w] == y);
                    }
                    if pushed && y == k {
                        assert(to_remove@[before_remove.len() as int] == k);
                    }
                }
                if pushed {
                    assert forall|a: int, b: int| 0 <= a < to_remove@.len() && 0 <= b < to_remove@.len() && a != b implies to_remove@[a]
                        != to_remove@[b] by {
                        if a < before_remove.len() && b < before_remove.len() {
                            assert(before_remove[a] != before_remove[b]);
                        } else if a < before_remove.len() {
                            assert(before_remove.contains(before_remove[a]));
                        } else {
                            assert(before_remove.contains(before_remove[b]));
                        }
                    }
                }
                assert forall|y: u64| #[trigger] to_remove@.contains(y) <==> t1.contains(y) && rental_returns(start[y], now) by {
                    assert(before_remove.contains(y) <==> t.contains(y) && rental_returns(start[y], now));
                }
            }
            i = i + 1;
        }
        proof {
            assert(ks@.take(ks@.len() as int) == ks@);
        }
        let ghost rented0 = self.rented_lists();
        let ghost deposited0 = self.deposited_lists();
        let mut j: usize = 0;
        while j < to_remove.len()
            invariant
                0 <= j <= to_remove@.len(),
                to_remove@.no_duplicates(),
                forall|k: u64| to_remove@.contains(k) ==> start.contains_key(k),
                self.deposits() == start.remove_keys(to_remove@.take(j as int).to_set()),
                self.rented_lists() == taken_each(rented0, to_remove@.take(j as int), start),
                self.deposited_lists() == taken_each(deposited0, to_remove@.take(j as int), start),
                self.limits() == old(self).limits(),
                self.next_id() == old(self).next_id(),
            decreases to_remove@.len() - j,
        {
            let k = to_remove[j];
            proof {
                assert(to_remove@.contains(k));
                assert(!to_remove@.take(j as int).to_set().contains(k)) by {
                    if to_remove@.take(j as int).to_set().contains(k) {
                        assert(to_remove@.take(j as int).contains(k));
                        let w = choose|w: int| 0 <= w < j && to_remove@.take(j as int)[w] == k;
                        assert(to_remove@[w] == to_remove@[j as int]);
                    }
                }
                assert(self.deposits().contains_key(k));
                assert(self.deposits()[k] == start[k]);
            }
            self.remove_rental(k);
            proof {
                assert(to_remove@.take(j as int + 1) == to_remove@.take(j as int).push(k));
                assert(to_remove@.take(j as int + 1).drop_last() == to_remove@.take(j as int));
                assert(to_remove@.take(j as int + 1).to_set() == to_remove@.take(j as int).to_set().insert(k)) by {
                    to_remove@.take(j as int).lemma_push_to_set_commute(k);
                }
                assert(self.deposits() =~= start.remove_keys(to_remove@.take(j as int + 1).to_set()));
            }
            j = j + 1;
        }
        proof {
            assert(to_remove@.take(to_remove@.len() as int) == to_remove@);
            assert(rentals_handed_back(expired@, old(self).deposits(), to_remove@));
        }
        expired
    }
}

} // verus!

verus! {

/// Renting a deposit and giving it back leaves the deposits as they were:
/// the deposit is unlocked again and nothing else changed.
pub proof fn law_rent_then_return_restores(m: Map<u64, RentalItem>, rental_id: u64)
    requires
        m.contains_key(rental_id),
        !m[rental_id].is_locked,
    ensures
        ({
            let t = m[rental_id];
            let rented = m.insert(rental_id, RentalItem { is_locked: true, ..t });
            rented.insert(rental_id, RentalItem { is_locked: false, ..rented[rental_id] }) == m
        }),
{
    let t = m[rental_id];
    let rented = m.insert(rental_id, RentalItem { is_locked: true, ..t });
    assert(rented.insert(rental_id, RentalItem { is_locked: false, ..rented[rental_id] }) =~= m);
}

/// A deposit under a fresh id, cancelled right away, leaves the deposits
/// as they were.
pub proof fn law_deposit_then_cancel_restores(m: Map<u64, RentalItem>, rental_id: u64, r: RentalItem)
    requires
        !m.contains_key(rental_id),
    ensures
        m.insert(rental_id, r).remove(rental_id) == m,
{
    assert(m.insert(rental_id, r).remove(rental_id) =~= m);
}

/// An extension moves the expiry by whole days and lengthens the period
/// by as many days; owner, item and lock stay.
pub proof fn law_extension_adds_days(r: RentalItem, additional_days: u32, extension_fee: u32)
    requires
        extension_fits(r, additional_days, extension_fee),
    ensures
        extended(r, additional_days, extension_fee).expiry_time == r.expiry_time + additional_days * 86400,
        extended(r, additional_days, extension_fee).rental_period_days == r.rental_period_days + additional_days,
        extended(r, additional_days, extension_fee).rental_fee == r.rental_fee + extension_fee,
        extended(r, additional_days, extension_fee).owner_id == r.owner_id,
        extended(r, additional_days, extension_fee).item == r.item,
        extended(r, additional_days, extension_fee).is_locked == r.is_locked,
{
}

/// Taking an id from a list removes every copy of it and keeps the rest in
/// order.
pub proof fn law_taken_id_is_gone(s: Seq<u64>, id: u64)
    ensures
        !without(s, id).contains(id),
        forall|x: u64| x != id ==> (without(s, id).contains(x) <==> s.contains(x)),
{
    broadcast use vstd::seq_lib::group_filter_ensures;
    assert forall|x: u64| x != id implies (without(s, id).contains(x) <==> s.contains(x)) by {
        if s.contains(x) {
            let w = choose|w: int| 0 <= w < s.len() && s[w] == x;
            assert(other_than(id)(s[w]));
            s.lemma_filter_contains(other_than(id), w);
        }
        if without(s, id).contains(x) {
            s.lemma_filter_contains_rev(other_than(id), x);
        }
    }
    if without(s, id).contains(id) {
        let w = choose|w: int| 0 <= w < without(s, id).len() && without(s, id)[w] == id;
        assert(other_than(id)(without(s, id)[w]));
    }
}

} // verus!
