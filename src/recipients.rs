//! The list of recipients shown in the team-members dialog.
//!
//! Removing a recipient does not re-encrypt existing entries: whatever was
//! encrypted for the removed key stays readable with it until each entry is
//! written again.
use vstd::prelude::*;

use crate::entry::Recipient;
use crate::notice::Notice;
use crate::text::{chars_of, push_all, string_from_chars};

verus! {

/// The recipients, in the order of the recipients file.
pub struct RecipientList {
    recipients: Vec<Recipient>,
}

impl View for RecipientList {
    type V = Seq<Recipient>;

    closed spec fn view(&self) -> Seq<Recipient> {
        self.recipients@
    }
}

/// The line shown for a recipient: its key id, a space, its name.
pub open spec fn recipient_label(r: Recipient) -> Seq<char> {
    r.key_id@ + seq![' '] + r.name@
}

impl RecipientList {
    /// The list read from the recipients file; a failed read gives no list
    /// at all, only a notice.
    pub fn from_loaded(loaded: Result<Vec<Recipient>, String>) -> (r: Result<RecipientList, Notice>)
        ensures
            loaded matches Ok(v) ==> r matches Ok(l) && l@ == v@,
            loaded matches Err(m) ==> r == Err::<RecipientList, Notice>(Notice::RecipientError(m)),
    {
        match loaded {
            Ok(v) => Ok(RecipientList { recipients: v }),
            Err(m) => Err(Notice::RecipientError(m)),
        }
    }

    pub fn len(&self) -> (r: usize)
        ensures
            r == self@.len(),
    {
        self.recipients.len()
    }

    /// The recipient at `index`.
    pub fn get(&self, index: usize) -> (r: &Recipient)
        requires
            index < self@.len(),
        ensures
            *r == self@[index as int],
    {
        &self.recipients[index]
    }

    /// After a recipient was appended to the recipients file: appends it to
    /// the list too, or, when that failed, leaves the list as it was.
    pub fn record_added(&mut self, added: Recipient, saved: &Result<(), String>) -> (r: Option<Notice>)
        ensures
            saved is Ok ==> final(self)@ == old(self)@.push(added) && r is None,
            (*saved) matches Err(m) ==> final(self)@ == old(self)@ && r == Some(
                Notice::RecipientError(m),
            ),
    {
        match saved {
            Ok(_) => {
                self.recipients.push(added);
                None
            },
            Err(m) => Some(Notice::RecipientError(m.clone())),
        }
    }

    /// After the recipient at `index` was removed from the recipients file:
    /// removes it from the list too, or, when that failed, leaves the list
    /// as it was.
    pub fn record_removed(&mut self, index: usize, removed: &Result<(), String>) -> (r: Option<Notice>)
        requires
            index < old(self)@.len(),
        ensures
            removed is Ok ==> final(self)@ == old(self)@.remove(index as int) && r is None,
            (*removed) matches Err(m) ==> final(self)@ == old(self)@ && r == Some(
                Notice::RecipientError(m),
            ),
    {
        match removed {
            Ok(_) => {
                self.recipients.remove(index);
                None
            },
            Err(m) => Some(Notice::RecipientError(m.clone())),
        }
    }

    /// The line shown for each recipient, in order.
    pub fn labels(&self) -> (r: Vec<String>)
        ensures
            r@.len() == self@.len(),
            forall|i: int| 0 <= i < r@.len() ==> #[trigger] r@[i]@ == recipient_label(self@[i]),
    {
        let mut out: Vec<String> = Vec::new();
        let mut i: usize = 0;
        while i < self.recipients.len()
            invariant
                i <= self@.len(),
                out@.len() == i,
                forall|j: int| 0 <= j < i ==> #[trigger] out@[j]@ == recipient_label(self@[j]),
            decreases self.recipients.len() - i,
        {
            let r = &self.recipients[i];
            let mut line = chars_of(r.key_id.as_str());
            line.push(' ');
            let name = chars_of(r.name.as_str());
            push_all(&mut line, name.as_slice());
            out.push(string_from_chars(line.as_slice()));
            i = i + 1;
        }
        out
    }
}

} // verus!
