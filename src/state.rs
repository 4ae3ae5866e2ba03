use crate::error::ContractError;
use cosmwasm_std::{Addr, Order, StdError, StdResult};
use vstd::prelude::*;

verus! {

/// Storage namespace under which the entries are kept.
pub const DATA_NAMESPACE: &'static str = "data";

/// The longest owner, in UTF-8 bytes, that the two-byte length prefix of a
/// composite storage key can encode.
pub const MAX_OWNER_BYTES: usize = 65535;

/// A handle on the host's key-value storage, through which the entries are
/// read and written.
///
/// The entries live in the host's storage behind a trait object, which cannot
/// be declared to the verifier; the handle is therefore opaque, and what it
/// holds is given by `stored_entries` and `recorded_version`.
#[verifier::external_body]
pub struct CredentialStore<'a> {
    pub storage: &'a mut dyn cosmwasm_std::Storage,
}

/// A read-only handle on the host's key-value storage, for queries, where the
/// host hands out shared access only; opaque for the same reason.
#[verifier::external_body]
pub struct CredentialReader<'a> {
    pub storage: &'a dyn cosmwasm_std::Storage,
}

/// The entries held by a store, keyed by (owner, name).
pub uninterp spec fn stored_entries(s: CredentialStore) -> Map<(Seq<char>, Seq<char>), Seq<char>>;

/// The entries seen through a read-only handle, keyed by (owner, name).
pub uninterp spec fn readable_entries(s: CredentialReader) -> Map<
    (Seq<char>, Seq<char>),
    Seq<char>,
>;

impl<'a> CredentialStore<'a> {
    /// A read-only handle on the same storage. Relies on a shared reborrow of
    /// the `cosmwasm_std::Storage` trait object: both handles reach the same
    /// storage, so they hold the same entries.
    #[verifier::external_body]
    pub(crate) fn reader(&self) -> (r: CredentialReader<'_>)
        ensures
            readable_entries(r) == stored_entries(*self),
    {
        CredentialReader { storage: &*self.storage }
    }
}

/// The (contract, version) pair recorded in a store, if any.
pub uninterp spec fn recorded_version(s: CredentialStore) -> Option<(Seq<char>, Seq<char>)>;

/// The number of bytes of the UTF-8 encoding of a character.
pub open spec fn char_utf8_len(c: char) -> nat {
    if (c as u32) < 0x80 {
        1
    } else if (c as u32) < 0x800 {
        2
    } else if (c as u32) < 0x10000 {
        3
    } else {
        4
    }
}

/// The number of bytes of the UTF-8 encoding of a string.
pub open spec fn utf8_len(s: Seq<char>) -> nat
    decreases s.len(),
{
    if s.len() == 0 {
        0
    } else {
        char_utf8_len(s[0]) + utf8_len(s.drop_first())
    }
}

/// An owner whose composite storage key can be encoded.
pub open spec fn owner_fits(owner: Seq<char>) -> bool {
    utf8_len(owner) <= MAX_OWNER_BYTES
}

/// Strict lexicographic order on names, character by character by code point.
/// On valid strings this is the order of their UTF-8 encodings byte by byte.
pub open spec fn name_lt(a: Seq<char>, b: Seq<char>) -> bool
    decreases a.len(),
{
    if a.len() == 0 {
        b.len() > 0
    } else if b.len() == 0 {
        false
    } else if (a[0] as u32) < (b[0] as u32) {
        true
    } else if a[0] == b[0] {
        name_lt(a.drop_first(), b.drop_first())
    } else {
        false
    }
}

/// `s` lists the (name, value) pairs of `owner` in `m`, each once, by
/// ascending name.
pub open spec fn is_listing(
    m: Map<(Seq<char>, Seq<char>), Seq<char>>,
    owner: Seq<char>,
    s: Seq<(Seq<char>, Seq<char>)>,
) -> bool {
    &&& forall|i: int, j: int| 0 <= i < j < s.len() ==> name_lt(#[trigger] s[i].0, #[trigger] s[j].0)
    &&& forall|i: int|
        0 <= i < s.len() ==> m.contains_key((owner, #[trigger] s[i].0)) && m[(owner, s[i].0)]
            == s[i].1
    &&& forall|n: Seq<char>| #[trigger]
        m.contains_key((owner, n)) ==> exists|i: int| 0 <= i < s.len() && s[i].0 == n
}

/// The pairs of a listing as plain values.
pub open spec fn pairs_view(v: Seq<(String, String)>) -> Seq<(Seq<char>, Seq<char>)> {
    v.map_values(|p: (String, String)| (p.0@, p.1@))
}

/// Relies on cw_storage_plus::Map::has: whether a value is stored under the key.
#[verifier::external_body]
pub(crate) fn has_entry(s: &CredentialReader, owner: &str, name: &str) -> (r: bool)
    requires
        owner_fits(owner@),
    ensures
        r == readable_entries(*s).contains_key((owner@, name@)),
{
    let addr = Addr::unchecked(owner);
    let data = cw_storage_plus::Map::<(&Addr, &str), String>::new(DATA_NAMESPACE);
    data.has(&*s.storage, (&addr, name))
}

/// Relies on cw_storage_plus::Map::save: the value is encoded as JSON, which
/// for a string cannot fail, then stored under the key; nothing else in the
/// storage is touched.
#[verifier::external_body]
pub(crate) fn save_entry(s: &mut CredentialStore, owner: &str, name: &str, value: &String) -> (r:
    Result<(), StdError>)
    requires
        owner_fits(owner@),
    ensures
        r is Ok,
        stored_entries(*final(s)) == stored_entries(*old(s)).insert((owner@, name@), value@),
        recorded_version(*final(s)) == recorded_version(*old(s)),
{
    let addr = Addr::unchecked(owner);
    let data = cw_storage_plus::Map::<(&Addr, &str), String>::new(DATA_NAMESPACE);
    data.save(&mut *s.storage, (&addr, name), value)
}

/// Relies on cw_storage_plus::Map::remove: the key is removed from storage.
#[verifier::external_body]
pub(crate) fn remove_entry(s: &mut CredentialStore, owner: &str, name: &str)
    requires
        owner_fits(owner@),
    ensures
        stored_entries(*final(s)) == stored_entries(*old(s)).remove((owner@, name@)),
        recorded_version(*final(s)) == recorded_version(*old(s)),
{
    let addr = Addr::unchecked(owner);
    let data = cw_storage_plus::Map::<(&Addr, &str), String>::new(DATA_NAMESPACE);
    data.remove(&mut *s.storage, (&addr, name))
}

/// The action applied to the stored value by an edit: an absent entry is
/// refused, a present one gets the new value.
pub fn replace_existing(current: Option<String>, value: String) -> (r: Result<String, ContractError>)
    ensures
        current is None ==> r matches Err(ContractError::KeyDoesntExist {  }),
        current is Some ==> (r matches Ok(v) && v@ == value@),
{
    match current {
        None => Err(ContractError::KeyDoesntExist {  }),
        Some(_) => Ok(value),
    }
}

/// Relies on cw_storage_plus::Map::update with `replace_existing` as the
/// action: the stored value is loaded (a present value that does not decode is
/// an error), the action decides, and its value is saved. Every error leaves
/// the storage untouched.
#[verifier::external_body]
pub(crate) fn update_entry(s: &mut CredentialStore, owner: &str, name: &str, value: String) -> (r:
    Result<String, ContractError>)
    requires
        owner_fits(owner@),
    ensures
        r matches Ok(v) ==> v@ == value@ && stored_entries(*old(s)).contains_key((owner@, name@))
            && stored_entries(*final(s)) == stored_entries(*old(s)).insert(
            (owner@, name@),
            value@,
        ),
        r is Err ==> stored_entries(*final(s)) == stored_entries(*old(s)),
        recorded_version(*final(s)) == recorded_version(*old(s)),
        !stored_entries(*old(s)).contains_key((owner@, name@)) ==> r matches Err(
            ContractError::KeyDoesntExist {  },
        ),
        stored_entries(*old(s)).contains_key((owner@, name@)) ==> (r is Ok || r matches Err(
            ContractError::Std(_),
        )),
{
    let addr = Addr::unchecked(owner);
    let data = cw_storage_plus::Map::<(&Addr, &str), String>::new(DATA_NAMESPACE);
    data.update(&mut *s.storage, (&addr, name), |v| replace_existing(v, value))
}

/// Relies on cw_storage_plus::Prefix::range, ascending over the owner's prefix
/// of the composite key: each (name, value) of the owner once, by ascending
/// encoded name. A value or name that does not decode is an error.
#[verifier::external_body]
pub(crate) fn range_entries(s: &CredentialReader, owner: &str) -> (r: Result<
    Vec<(String, String)>,
    StdError,
>)
    requires
        owner_fits(owner@),
    ensures
        r matches Ok(v) ==> is_listing(readable_entries(*s), owner@, pairs_view(v@)),
{
    let addr = Addr::unchecked(owner);
    let data = cw_storage_plus::Map::<(&Addr, &str), String>::new(DATA_NAMESPACE);
    data.prefix(&addr).range(&*s.storage, None, None, Order::Ascending).collect::<StdResult<_>>()
}

/// Relies on cw2::set_contract_version: the pair is encoded as JSON, which
/// for two strings cannot fail, and stored under cw2's own key, apart from the
/// entries.
#[verifier::external_body]
pub(crate) fn record_version(s: &mut CredentialStore, contract: &str, version: &str) -> (r: Result<
    (),
    StdError,
>)
    ensures
        r is Ok,
        recorded_version(*final(s)) == Some((contract@, version@)),
        stored_entries(*final(s)) == stored_entries(*old(s)),
{
    cw2::set_contract_version(&mut *s.storage, contract, version)
}

} // verus!
