use vstd::prelude::*;

verus! {

/// The message that initializes a store; it carries nothing.
#[derive(Clone, Debug, PartialEq, Eq)]
pub struct InstantiateMsg {}

/// The changes an owner can make to their own entries.
#[derive(Clone, Debug, PartialEq, Eq)]
pub enum ExecuteMsg {
    Add { name: String, password: String },
    Edit { name: String, password: String },
    Delete { name: String },
}

/// The read requests: every entry of one owner.
#[derive(Clone, Debug, PartialEq, Eq)]
pub enum QueryMsg {
    GetAll { owner: String },
}

/// One stored credential of an owner.
#[derive(Clone, Debug, PartialEq, Eq)]
pub struct Entry {
    pub name: String,
    pub password: String,
}

/// The entries of one owner, by ascending name.
#[derive(Clone, Debug, PartialEq, Eq)]
pub struct GetAllResponse {
    pub entries: Vec<Entry>,
}

impl View for Entry {
    type V = (Seq<char>, Seq<char>);

    open spec fn view(&self) -> (Seq<char>, Seq<char>) {
        (self.name@, self.password@)
    }
}

/// The (name, password) pairs of a sequence of entries.
pub open spec fn entries_view(v: Seq<Entry>) -> Seq<(Seq<char>, Seq<char>)> {
    v.map_values(|e: Entry| e@)
}

} // verus!
