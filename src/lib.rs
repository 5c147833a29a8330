//! Core of a terminal front-end for a password store: the shared entry
//! list, incremental search, the clipboard's exposure window, and the
//! decisions taken around store synchronisation and entry and recipient
//! changes. Reading and writing the store, the remote repository and the
//! clipboard itself are left to the caller, who hands the outcomes in.
use vstd::prelude::*;

pub mod catalog;
pub mod entry;
pub mod exposure;
pub mod form;
pub mod label;
pub mod list;
pub mod notice;
pub mod recipients;
pub mod search;
pub mod shared;
pub mod text;

pub use catalog::{catalog_candidates, push_catalog_files_for};
pub use entry::{CommitDate, PasswordEntry, Recipient, SignatureStatus};
pub use exposure::{ClipboardGuard, EXPOSURE_SECS};
pub use form::{
    CreateError, InputField, InputForm, NewEntry, entry_file_components, get_value_from_input,
    read_new_entry, validate_new_entry,
};
pub use label::create_label;
pub use list::{ChangeEvent, PasswordList};
pub use notice::{Notice, push_outcome, update_outcome};
pub use recipients::RecipientList;
pub use search::{
    contains_chars, delete_last_word, delete_last_word_and_search, matches_folded, search,
};
pub use shared::SharedPasswordList;
pub use text::substr;

verus! {

} // verus!
