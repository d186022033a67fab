//! Account records, store errors, and password hashing.
use vstd::prelude::*;
use sha2::Digest;
use crate::item::UserItemData;

verus! {

/// `std::io::Error`, carried opaquely inside store errors.
#[verifier::external_type_specification]
#[verifier::external_body]
pub struct ExIoError(std::io::Error);

/// Why an account store call failed.
#[derive(Debug)]
pub enum StoreError {
    Io(std::io::Error),
    Serde(String),
    Sqlite(String),
}

impl From<std::io::Error> for StoreError {
    fn from(e: std::io::Error) -> (r: Self) {
        StoreError::Io(e)
    }
}

impl vstd::std_specs::convert::FromSpecImpl<std::io::Error> for StoreError {
    open spec fn obeys_from_spec() -> bool {
        true
    }

    open spec fn from_spec(e: std::io::Error) -> StoreError {
        StoreError::Io(e)
    }
}

/// A character as the selection screen lists it.
#[derive(Clone, Debug)]
pub struct CharacterSummary {
    pub index: i32,
    pub name: String,
    pub level: u16,
    pub class: u8,
    pub gender: u8,
    pub last_access_binary: i64,
    pub map_index: i32,
    pub x: i32,
    pub y: i32,
    pub direction: u8,
}

/// Where a character stands.
#[derive(Clone, Copy, Debug)]
pub struct CharacterPosition {
    pub map_index: i32,
    pub x: i32,
    pub y: i32,
    pub direction: u8,
}

/// A character's pools and purse.
#[derive(Clone, Copy, Debug)]
pub struct CharacterStats {
    pub hp: i32,
    pub mp: i32,
    pub experience: i64,
    pub gold: i64,
    pub credit: i64,
}

/// A character as the ranking query reads it.
#[derive(Clone, Debug)]
pub struct CharacterRankRow {
    pub account_id: String,
    pub index: i32,
    pub name: String,
    pub class: u8,
    pub level: u16,
    pub experience: i64,
}

/// An account's shared storage: every cell, and the expansion.
#[derive(Clone, Debug)]
pub struct AccountStorage {
    pub slots: Vec<Option<UserItemData>>,
    pub has_expanded_storage: bool,
    /// The expansion's end as .NET `DateTime` binary ticks.
    pub expanded_storage_expiry_binary: i64,
}

impl AccountStorage {
    /// At login, an expansion whose end has passed while the account was
    /// away is dropped. The end counts only when the stored ticks are
    /// positive and their time, `expiry_ms` in Unix milliseconds, is
    /// positive; it has passed when `now_ms` is later. Returns whether the
    /// expansion was dropped, that is, whether the storage must be saved.
    pub fn clear_expired_expansion(&mut self, expiry_ms: i64, now_ms: i64) -> (cleared: bool)
        ensures
            cleared == (old(self).has_expanded_storage && old(self).expanded_storage_expiry_binary > 0
                && expiry_ms > 0 && now_ms > expiry_ms),
            final(self).has_expanded_storage == (old(self).has_expanded_storage && !cleared),
            final(self).expanded_storage_expiry_binary == old(self).expanded_storage_expiry_binary,
            final(self).slots@ == old(self).slots@,
    {
        if self.has_expanded_storage && self.expanded_storage_expiry_binary > 0 && expiry_ms > 0 && now_ms > expiry_ms {
            self.has_expanded_storage = false;
            true
        } else {
            false
        }
    }
}

/// A stored letter.
#[derive(Clone, Debug)]
pub struct StoredMail {
    pub mail_id: u64,
    pub sender: String,
    pub message: String,
    pub gold: u32,
    /// Each attachment's encoded item bytes.
    pub items: Vec<Vec<u8>>,
    /// When it was sent, as .NET `DateTime` binary ticks.
    pub date_sent_binary: i64,
    pub opened: bool,
    pub locked: bool,
    pub collected: bool,
    pub can_reply: bool,
}

/// A stored friend entry.
#[derive(Clone, Debug)]
pub struct StoredFriend {
    pub friend_index: i32,
    pub name: String,
    pub memo: String,
    pub blocked: bool,
}

/// A stored account.
#[derive(Clone, Debug)]
pub struct StoredAccount {
    pub id: String,
    pub password_hash: String,
    pub created_at: i64,
    pub last_login_at: Option<i64>,
    pub next_char_index: i32,
    pub characters: Vec<CharacterSummary>,
}

/// An account's login flags.
#[derive(Clone, Debug)]
pub struct AccountStatus {
    pub id: String,
    pub banned: bool,
    pub ban_reason: String,
    /// Unix time in milliseconds until which the ban holds.
    pub ban_expires_at: i64,
    pub require_password_change: bool,
    pub wrong_password_count: i32,
}

/// The SHA-256 digest of some bytes.
pub uninterp spec fn sha256_digest(data: Seq<u8>) -> Seq<u8>;

/// `sha2::Sha256::digest`: the SHA-256 digest of the bytes, 32 bytes long.
#[verifier::external_body]
fn sha256(data: &[u8]) -> (r: Vec<u8>)
    ensures
        r@ == sha256_digest(data@),
        r@.len() == 32,
{
    sha2::Sha256::digest(data).to_vec()
}

/// The lowercase hex digit of a value below 16.
pub open spec fn hex_digit(v: int) -> char {
    if v < 10 {
        ('0' as int + v) as char
    } else {
        ('a' as int + v - 10) as char
    }
}

/// Bytes as lowercase hex, two digits per byte, high half first.
pub open spec fn hex_text(data: Seq<u8>) -> Seq<char>
    decreases data.len(),
{
    if data.len() == 0 {
        Seq::empty()
    } else {
        hex_text(data.drop_last()) + seq![hex_digit(data.last() as int / 16), hex_digit(data.last() as int % 16)]
    }
}

/// `hex::encode`: the bytes as lowercase hex, two digits per byte.
#[verifier::external_body]
fn hex_encode(data: &[u8]) -> (r: String)
    ensures
        r@ == hex_text(data@),
{
    hex::encode(data)
}

/// The stored form of a password: the lowercase hex of the SHA-256 digest
/// of its UTF-8 bytes.
pub open spec fn password_hash_text(password: Seq<char>) -> Seq<char> {
    hex_text(sha256_digest(vstd::utf8::encode_utf8(password)))
}

/// Hashes a password for storage.
pub fn hash_password(password: &str) -> (r: String)
    ensures
        r@ == password_hash_text(password@),
{
    let digest = sha256(password.as_bytes());
    hex_encode(digest.as_slice())
}

/// The password hashes to the stored hash.
pub fn verify_password_hash(password: &str, hash: &str) -> (r: bool)
    ensures
        r == (password_hash_text(password@) == hash@),
{
    let computed = hash_password(password);
    let stored = crate::text::text(hash);
    computed == stored
}

} // verus!

verus! {

/// Hex text has two lowercase hex digits per byte.
pub proof fn law_hex_doubles_length(data: Seq<u8>)
    ensures
        hex_text(data).len() == 2 * data.len(),
        forall|i: int| 0 <= i < hex_text(data).len() ==> {
            let c = #[trigger] hex_text(data)[i];
            ('0' <= c <= '9') || ('a' <= c <= 'f')
        },
    decreases data.len(),
{
    if data.len() > 0 {
        law_hex_doubles_length(data.drop_last());
        let rest = hex_text(data.drop_last());
        let last = data.last() as int;
        assert forall|i: int| 0 <= i < hex_text(data).len() implies {
            let c = #[trigger] hex_text(data)[i];
            ('0' <= c <= '9') || ('a' <= c <= 'f')
        } by {
            if i < rest.len() {
                assert(hex_text(data)[i] == rest[i]);
            } else if i == rest.len() {
                assert(hex_text(data)[i] == hex_digit(last / 16));
            } else {
                assert(hex_text(data)[i] == hex_digit(last % 16));
            }
        }
    }
}

} // verus!
