use crate::error::ContractError;
use crate::msg::{entries_view, Entry, ExecuteMsg, GetAllResponse, InstantiateMsg, QueryMsg};
use crate::state::{
    has_entry, is_listing, owner_fits, pairs_view, range_entries, record_version, recorded_version,
    readable_entries, remove_entry, save_entry, stored_entries, update_entry, CredentialReader,
    CredentialStore,
};
use cosmwasm_std::StdError;
use vstd::prelude::*;

verus! {

/// The contract name recorded at instantiation.
pub const CONTRACT_NAME: &'static str = "crates.io:cw-cyph";

/// The contract version recorded at instantiation.
pub const CONTRACT_VERSION: &'static str = "0.1.0";

/// The entries of a store as a map from (owner, name) to value.
pub type EntryMap = Map<(Seq<char>, Seq<char>), Seq<char>>;

/// What an add of `value` under (owner, name) does: a present key is refused
/// with `KeyAlreadyExists` and nothing changes; otherwise the entry is
/// inserted.
pub open spec fn add_post(
    before: EntryMap,
    after: EntryMap,
    owner: Seq<char>,
    name: Seq<char>,
    value: Seq<char>,
    r: Result<(), ContractError>,
) -> bool {
    if before.contains_key((owner, name)) {
        r matches Err(ContractError::KeyAlreadyExists {  }) && after == before
    } else {
        r is Ok && after == before.insert((owner, name), value)
    }
}

/// What an edit of (owner, name) to `value` does: an absent key is refused
/// with `KeyDoesntExist` and nothing changes; otherwise the value is replaced,
/// unless the host fails, in which case nothing changes.
pub open spec fn edit_post(
    before: EntryMap,
    after: EntryMap,
    owner: Seq<char>,
    name: Seq<char>,
    value: Seq<char>,
    r: Result<(), ContractError>,
) -> bool {
    if before.contains_key((owner, name)) {
        (r is Ok && after == before.insert((owner, name), value)) || (r matches Err(
            ContractError::Std(_),
        ) && after == before)
    } else {
        r matches Err(ContractError::KeyDoesntExist {  }) && after == before
    }
}

/// What a delete of (owner, name) does: an absent key is refused with
/// `KeyDoesntExist` and nothing changes; otherwise the entry is removed.
pub open spec fn delete_post(
    before: EntryMap,
    after: EntryMap,
    owner: Seq<char>,
    name: Seq<char>,
    r: Result<(), ContractError>,
) -> bool {
    if before.contains_key((owner, name)) {
        r is Ok && after == before.remove((owner, name))
    } else {
        r matches Err(ContractError::KeyDoesntExist {  }) && after == before
    }
}

/// What executing `msg` on behalf of `sender` does.
pub open spec fn execute_post(
    before: EntryMap,
    after: EntryMap,
    sender: Seq<char>,
    msg: ExecuteMsg,
    r: Result<(), ContractError>,
) -> bool {
    match msg {
        ExecuteMsg::Add { name, password } => add_post(before, after, sender, name@, password@, r),
        ExecuteMsg::Edit { name, password } => edit_post(before, after, sender, name@, password@, r),
        ExecuteMsg::Delete { name } => delete_post(before, after, sender, name@, r),
    }
}

/// Records the contract's name and version; the entries are untouched.
pub fn instantiate(store: &mut CredentialStore, msg: InstantiateMsg) -> (r: Result<(), ContractError>)
    ensures
        r is Ok,
        recorded_version(*final(store)) == Some((CONTRACT_NAME@, CONTRACT_VERSION@)),
        stored_entries(*final(store)) == stored_entries(*old(store)),
{
    match record_version(store, CONTRACT_NAME, CONTRACT_VERSION) {
        Ok(()) => Ok(()),
        Err(e) => Err(ContractError::Std(e)),
    }
}

/// Applies `msg` to the entries of `sender`.
pub fn execute(store: &mut CredentialStore, sender: &str, msg: ExecuteMsg) -> (r: Result<
    (),
    ContractError,
>)
    requires
        owner_fits(sender@),
    ensures
        execute_post(stored_entries(*old(store)), stored_entries(*final(store)), sender@, msg, r),
        recorded_version(*final(store)) == recorded_version(*old(store)),
{
    match msg {
        ExecuteMsg::Add { name, password } => try_add(store, sender, name, password),
        ExecuteMsg::Edit { name, password } => try_edit(store, sender, name, password),
        ExecuteMsg::Delete { name } => try_delete(store, sender, name),
    }
}

/// Adds the entry (sender, name) with value `password`, unless it exists.
pub fn try_add(store: &mut CredentialStore, sender: &str, name: String, password: String) -> (r:
    Result<(), ContractError>)
    requires
        owner_fits(sender@),
    ensures
        add_post(
            stored_entries(*old(store)),
            stored_entries(*final(store)),
            sender@,
            name@,
            password@,
            r,
        ),
        recorded_version(*final(store)) == recorded_version(*old(store)),
{
    if has_entry(&store.reader(), sender, name.as_str()) {
        return Err(ContractError::KeyAlreadyExists {  });
    }
    match save_entry(store, sender, name.as_str(), &password) {
        Ok(()) => Ok(()),
        Err(e) => Err(ContractError::Std(e)),
    }
}

/// Replaces the value of the existing entry (sender, name) by `password`.
pub fn try_edit(store: &mut CredentialStore, sender: &str, name: String, password: String) -> (r:
    Result<(), ContractError>)
    requires
        owner_fits(sender@),
    ensures
        edit_post(
            stored_entries(*old(store)),
            stored_entries(*final(store)),
            sender@,
            name@,
            password@,
            r,
        ),
        recorded_version(*final(store)) == recorded_version(*old(store)),
{
    match update_entry(store, sender, name.as_str(), password) {
        Ok(_) => Ok(()),
        Err(e) => Err(e),
    }
}

/// Removes the existing entry (sender, name).
pub fn try_delete(store: &mut CredentialStore, sender: &str, name: String) -> (r: Result<
    (),
    ContractError,
>)
    requires
        owner_fits(sender@),
    ensures
        delete_post(stored_entries(*old(store)), stored_entries(*final(store)), sender@, name@, r),
        recorded_version(*final(store)) == recorded_version(*old(store)),
{
    if !has_entry(&store.reader(), sender, name.as_str()) {
        return Err(ContractError::KeyDoesntExist {  });
    }
    remove_entry(store, sender, name.as_str());
    Ok(())
}

/// Answers `msg`, whose owner the host has validated.
pub fn query(store: &CredentialReader, msg: QueryMsg) -> (r: Result<GetAllResponse, StdError>)
    requires
        match msg {
            QueryMsg::GetAll { owner } => owner_fits(owner@),
        },
    ensures
        match msg {
            QueryMsg::GetAll { owner } => r matches Ok(resp) ==> is_listing(
                readable_entries(*store),
                owner@,
                entries_view(resp.entries@),
            ),
        },
{
    match msg {
        QueryMsg::GetAll { owner } => query_all(store, owner.as_str()),
    }
}

/// Every entry of `owner`, by ascending name; the host's error, if reading
/// the storage fails.
pub fn query_all(store: &CredentialReader, owner: &str) -> (r: Result<GetAllResponse, StdError>)
    requires
        owner_fits(owner@),
    ensures
        r matches Ok(resp) ==> is_listing(
            readable_entries(*store),
            owner@,
            entries_view(resp.entries@),
        ),
{
    match range_entries(store, owner) {
        Ok(pairs) => Ok(GetAllResponse { entries: entries_from_pairs(&pairs) }),
        Err(e) => Err(e),
    }
}

/// The entries made of (name, password) pairs, in the same order.
pub fn entries_from_pairs(pairs: &Vec<(String, String)>) -> (r: Vec<Entry>)
    ensures
        entries_view(r@) == pairs_view(pairs@),
{
    let mut out: Vec<Entry> = Vec::new();
    let mut i: usize = 0;
    while i < pairs.len()
        invariant
            i <= pairs.len(),
            entries_view(out@) == pairs_view(pairs@).take(i as int),
        decreases pairs.len() - i,
    {
        let e = Entry { name: pairs[i].0.clone(), password: pairs[i].1.clone() };
        let ghost before = out@;
        let ghost pair = (pairs@[i as int].0@, pairs@[i as int].1@);
        assert(e@ == pair);
        out.push(e);
        proof {
            assert(entries_view(out@) =~= entries_view(before).push(pair));
            assert(pairs_view(pairs@).take(i + 1) =~= pairs_view(pairs@).take(i as int).push(pair));
        }
        i = i + 1;
    }
    assert(pairs_view(pairs@).take(pairs@.len() as int) =~= pairs_view(pairs@));
    out
}

} // verus!
