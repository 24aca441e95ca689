//! Writes to the key-value store, and a model of what the store holds after
//! them.
//!
//! The worker never talks to the store itself. It describes each write as a
//! `StoreWrite`, and whoever drives the worker carries it out: `SET key value`
//! when there is no expiry, `SET key value EX seconds` when there is one.

use vstd::prelude::*;
use vstd::string::*;
use crate::decimal::{decimal, decimal_u64, lemma_decimal_injective};

verus! {

/// One write to the key-value store. A write replaces whatever the key held.
#[derive(Clone, Debug, PartialEq, Eq)]
pub struct StoreWrite {
    /// The key to set.
    pub key: String,
    /// The bytes to store under it.
    pub value: Vec<u8>,
    /// Seconds after which the store drops the entry; `None` keeps it for
    /// good.
    pub expiry_seconds: Option<u64>,
}

/// The mathematical content of a `StoreWrite`.
pub struct StoreWriteView {
    pub key: Seq<char>,
    pub value: Seq<u8>,
    pub expiry_seconds: Option<u64>,
}

impl View for StoreWrite {
    type V = StoreWriteView;

    open spec fn view(&self) -> StoreWriteView {
        StoreWriteView { key: self.key@, value: self.value@, expiry_seconds: self.expiry_seconds }
    }
}

/// What the store holds under one key.
pub struct StoreEntry {
    pub value: Seq<u8>,
    pub expiry_seconds: Option<u64>,
}

/// The contents of the store: an entry for each key that was written.
pub type StoreModel = Map<Seq<char>, StoreEntry>;

/// The store after `write` was carried out: the key holds the new entry,
/// whatever it held before, and every other key is untouched.
pub open spec fn store_after(store: StoreModel, write: StoreWriteView) -> StoreModel {
    store.insert(
        write.key,
        StoreEntry { value: write.value, expiry_seconds: write.expiry_seconds },
    )
}

/// The text `notification:`, which starts every archive key.
pub open spec fn archive_prefix() -> Seq<char> {
    "notification:"@
}

/// The key under which the payload of the delivery `delivery_tag` is
/// archived: `notification:` and the tag in decimal.
pub open spec fn archive_key_text(delivery_tag: u64) -> Seq<char> {
    archive_prefix() + decimal(delivery_tag as nat)
}

/// The archive write for a delivery: the raw payload, byte for byte, under
/// the delivery's archive key, with no expiry.
pub open spec fn archive_write_of(delivery_tag: u64, body: Seq<u8>) -> StoreWriteView {
    StoreWriteView {
        key: archive_key_text(delivery_tag),
        value: body,
        expiry_seconds: None,
    }
}

/// Builds the archive key of a delivery.
pub fn archive_key(delivery_tag: u64) -> (key: String)
    ensures
        key@ == archive_key_text(delivery_tag),
{
    let mut key = String::from_str("notification:");
    let digits = decimal_u64(delivery_tag);
    key.append(digits.as_str());
    key
}

/// Describes the write that archives the raw payload of a delivery. The
/// payload is taken as it came: nothing is parsed or checked before.
pub fn archive_write(delivery_tag: u64, body: Vec<u8>) -> (write: StoreWrite)
    ensures
        write@ == archive_write_of(delivery_tag, body@),
{
    StoreWrite { key: archive_key(delivery_tag), value: body, expiry_seconds: None }
}

/// Two deliveries share an archive key only if they share the tag: within
/// one connection, where tags are unique, no archived payload is overwritten.
pub proof fn lemma_archive_key_injective(a: u64, b: u64)
    requires
        archive_key_text(a) == archive_key_text(b),
    ensures
        a == b,
{
    let ka = archive_key_text(a);
    let kb = archive_key_text(b);
    let n = archive_prefix().len() as int;
    assert(decimal(a as nat) =~= ka.subrange(n, ka.len() as int));
    assert(decimal(b as nat) =~= kb.subrange(n, kb.len() as int));
    lemma_decimal_injective(a as nat, b as nat);
}

/// After the archive write, the store holds the payload verbatim under the
/// delivery's key, without expiry, whatever the payload is and whatever the
/// store held before.
pub proof fn lemma_archive_is_stored(store: StoreModel, delivery_tag: u64, body: Seq<u8>)
    ensures
        ({
            let after = store_after(store, archive_write_of(delivery_tag, body));
            &&& after.dom().contains(archive_key_text(delivery_tag))
            &&& after[archive_key_text(delivery_tag)].value == body
            &&& after[archive_key_text(delivery_tag)].expiry_seconds is None
        }),
{
}

/// A later write to a key replaces an earlier one: of two payloads archived
/// under one tag, the store keeps the second. Writes to other keys leave an
/// entry as it is.
pub proof fn lemma_store_overwrites(store: StoreModel, first: StoreWriteView, second: StoreWriteView)
    ensures
        first.key == second.key ==> store_after(store_after(store, first), second) == store_after(
            store,
            second,
        ),
        first.key != second.key ==> store_after(store_after(store, first), second)[first.key]
            == store_after(store, first)[first.key],
{
    if first.key == second.key {
        assert(store_after(store_after(store, first), second) =~= store_after(store, second));
    }
}

} // verus!
