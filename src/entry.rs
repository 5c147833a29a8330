//! Password entries and recipients, as held in memory.
use vstd::prelude::*;

verus! {

/// Outcome of checking the signature on an entry's last commit.
#[derive(Clone, Copy, Debug, PartialEq, Eq, Structural)]
pub enum SignatureStatus {
    GoodSignature,
    AlmostGoodSignature,
    BadSignature,
}

/// A calendar date, as shown for an entry's last update.
#[derive(Clone, Copy, Debug, PartialEq, Eq, Structural)]
pub struct CommitDate {
    pub year: u16,
    pub month: u8,
    pub day: u8,
}

impl CommitDate {
    /// A calendar date with a year of at most four digits.
    pub open spec fn wf(self) -> bool {
        &&& self.year <= 9999
        &&& 1 <= self.month <= 12
        &&& 1 <= self.day <= 31
    }
}

/// One password entry of the store, identified by its store-relative path.
#[derive(Debug)]
pub struct PasswordEntry {
    /// Display name.
    pub name: String,
    /// Store-relative path; unique within a list.
    pub path: String,
    pub committed_by: Option<String>,
    pub updated: Option<CommitDate>,
    pub signature_status: Option<SignatureStatus>,
}

pub fn clone_opt_string(s: &Option<String>) -> (r: Option<String>)
    ensures
        r == *s,
{
    match s {
        Some(v) => Some(v.clone()),
        None => None,
    }
}

impl Clone for PasswordEntry {
    fn clone(&self) -> (r: Self)
        ensures
            r == *self,
    {
        PasswordEntry {
            name: self.name.clone(),
            path: self.path.clone(),
            committed_by: clone_opt_string(&self.committed_by),
            updated: self.updated,
            signature_status: self.signature_status,
        }
    }
}

impl PasswordEntry {
    pub fn new(name: String, path: String) -> (r: Self)
        ensures
            r.name == name,
            r.path == path,
            r.committed_by is None,
            r.updated is None,
            r.signature_status is None,
    {
        PasswordEntry { name, path, committed_by: None, updated: None, signature_status: None }
    }
}

/// A key identity trusted to decrypt the store.
#[derive(Debug)]
pub struct Recipient {
    pub key_id: String,
    pub name: String,
}

impl Clone for Recipient {
    fn clone(&self) -> (r: Self)
        ensures
            r == *self,
    {
        Recipient { key_id: self.key_id.clone(), name: self.name.clone() }
    }
}

/// Copies every element of `v`.
pub fn clone_entries(v: &Vec<PasswordEntry>) -> (r: Vec<PasswordEntry>)
    ensures
        r@ == v@,
{
    let mut out: Vec<PasswordEntry> = Vec::new();
    let mut i: usize = 0;
    while i < v.len()
        invariant
            i <= v.len(),
            out@ == v@.take(i as int),
        decreases v.len() - i,
    {
        out.push(v[i].clone());
        i = i + 1;
    }
    assert(v@.take(v.len() as int) =~= v@);
    out
}

} // verus!
