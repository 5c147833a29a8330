//! Reading the fields of an input dialog, and checking a new entry before it
//! is written.
use vstd::prelude::*;

use crate::text::{chars_of, push_all, same_text, string_from_chars, texts_of};

verus! {

/// One named text field of a dialog.
pub struct InputField {
    pub name: String,
    pub content: String,
}

/// The text fields of a dialog, in order.
pub struct InputForm {
    pub fields: Vec<InputField>,
}

/// The first field of `fields` named `name` is at `k`.
pub open spec fn first_field(fields: Seq<InputField>, name: Seq<char>, k: int) -> bool {
    &&& 0 <= k < fields.len()
    &&& fields[k].name@ == name
    &&& forall|j: int| 0 <= j < k ==> #[trigger] fields[j].name@ != name
}

/// The content of the first field named `input_name`, if the form has one.
pub fn get_value_from_input(s: &InputForm, input_name: &str) -> (r: Option<String>)
    ensures
        r is None <==> forall|j: int| 0 <= j < s.fields@.len() ==> #[trigger] s.fields@[j].name@ != input_name@,
        r matches Some(v) ==> exists|k: int| first_field(s.fields@, input_name@, k) && v@ == #[trigger] s.fields@[k].content@,
{
    let mut i: usize = 0;
    while i < s.fields.len()
        invariant
            i <= s.fields@.len(),
            forall|j: int| 0 <= j < i ==> #[trigger] s.fields@[j].name@ != input_name@,
        decreases s.fields.len() - i,
    {
        if same_text(s.fields[i].name.as_str(), input_name) {
            let v = s.fields[i].content.clone();
            assert(first_field(s.fields@, input_name@, i as int) && v@ == s.fields@[i as int].content@);
            return Some(v);
        }
        i = i + 1;
    }
    None
}

/// Why a new entry was not written.
#[derive(Clone, Copy, Debug, PartialEq, Eq, Structural)]
pub enum CreateError {
    /// The dialog has no field of that name.
    MissingInput,
    EmptySecret,
    EmptyPath,
}

/// A new entry, checked and ready to be written.
pub struct NewEntry {
    pub path: String,
    pub secret: String,
}

/// The outcome of checking a new entry's path and secret; an empty secret is
/// reported before an empty path.
pub open spec fn validate_spec(path: Seq<char>, secret: Seq<char>) -> Result<(), CreateError> {
    if secret.len() == 0 {
        Err(CreateError::EmptySecret)
    } else if path.len() == 0 {
        Err(CreateError::EmptyPath)
    } else {
        Ok(())
    }
}

/// Checks that neither the path nor the secret of a new entry is empty.
pub fn validate_new_entry(path: &str, secret: &str) -> (r: Result<(), CreateError>)
    ensures
        r == validate_spec(path@, secret@),
{
    let p = chars_of(path);
    let s = chars_of(secret);
    if s.len() == 0 {
        Err(CreateError::EmptySecret)
    } else if p.len() == 0 {
        Err(CreateError::EmptyPath)
    } else {
        Ok(())
    }
}

/// Reads a new entry from the create dialog: the secret from field
/// `secret_field`, then the path from field `path_field`, each present and
/// not empty.
pub fn read_new_entry(form: &InputForm, path_field: &str, secret_field: &str) -> (r: Result<
    NewEntry,
    CreateError,
>)
    ensures
        r matches Ok(e) ==> validate_spec(e.path@, e.secret@) is Ok
            && (exists|k: int| first_field(form.fields@, path_field@, k) && e.path@ == #[trigger] form.fields@[k].content@)
            && (exists|k: int| first_field(form.fields@, secret_field@, k) && e.secret@ == #[trigger] form.fields@[k].content@),
        r is Err <==> (forall|j: int| 0 <= j < form.fields@.len() ==> #[trigger] form.fields@[j].name@ != secret_field@)
            || (forall|j: int| 0 <= j < form.fields@.len() ==> #[trigger] form.fields@[j].name@ != path_field@)
            || (exists|k: int| first_field(form.fields@, secret_field@, k) && #[trigger] form.fields@[k].content@.len() == 0)
            || (exists|k: int| first_field(form.fields@, path_field@, k) && #[trigger] form.fields@[k].content@.len() == 0),
{
    let secret = match get_value_from_input(form, secret_field) {
        Some(v) => v,
        None => {
            return Err(CreateError::MissingInput);
        },
    };
    if chars_of(secret.as_str()).len() == 0 {
        proof {
            let k = choose|k: int| first_field(form.fields@, secret_field@, k) && secret@ == #[trigger] form.fields@[k].content@;
            assert(form.fields@[k].content@.len() == 0);
        }
        return Err(CreateError::EmptySecret);
    }
    let path = match get_value_from_input(form, path_field) {
        Some(v) => v,
        None => {
            return Err(CreateError::MissingInput);
        },
    };
    if chars_of(path.as_str()).len() == 0 {
        proof {
            let k = choose|k: int| first_field(form.fields@, path_field@, k) && path@ == #[trigger] form.fields@[k].content@;
            assert(form.fields@[k].content@.len() == 0);
        }
        return Err(CreateError::EmptyPath);
    }
    proof {
        first_field_unique(form.fields@, secret_field@);
        first_field_unique(form.fields@, path_field@);
    }
    Ok(NewEntry { path, secret })
}

proof fn first_field_unique(fields: Seq<InputField>, name: Seq<char>)
    ensures
        forall|a: int, b: int| first_field(fields, name, a) && first_field(fields, name, b) ==> a == b,
{
    assert forall|a: int, b: int| first_field(fields, name, a) && first_field(fields, name, b) implies a == b by {
        if a < b {
            assert(fields[a].name@ != name);
        } else if b < a {
            assert(fields[b].name@ != name);
        }
    }
}

/// The parts of a store path split at each '/', the first `i` characters
/// read.
pub open spec fn split_prefix(s: Seq<char>, i: int) -> Seq<Seq<char>>
    decreases i,
{
    if i <= 0 {
        seq![Seq::empty()]
    } else {
        let p = split_prefix(s, i - 1);
        if s[i - 1] == '/' {
            p.push(Seq::empty())
        } else {
            p.update(p.len() - 1, p.last().push(s[i - 1]))
        }
    }
}

proof fn lemma_split_prefix_len(s: Seq<char>, i: int)
    ensures
        split_prefix(s, i).len() >= 1,
    decreases i,
{
    if i > 0 {
        lemma_split_prefix_len(s, i - 1);
    }
}

/// The file-name suffix of an encrypted entry.
pub open spec fn entry_suffix() -> Seq<char> {
    seq!['.', 'g', 'p', 'g']
}

/// The directory and file names under the store root that hold the entry
/// with store path `path`: its parts split at each '/', the last one with
/// the encrypted-file suffix.
pub open spec fn entry_file_parts(path: Seq<char>) -> Seq<Seq<char>> {
    let c = split_prefix(path, path.len() as int);
    c.update(c.len() - 1, c.last() + entry_suffix())
}

/// The directory and file names, under the store root, of the file of the
/// entry with store path `path`.
pub fn entry_file_components(path: &str) -> (r: Vec<String>)
    ensures
        texts_of(r@) == entry_file_parts(path@),
{
    let cs = chars_of(path);
    let mut done: Vec<String> = Vec::new();
    let mut cur: Vec<char> = Vec::new();
    let mut i: usize = 0;
    while i < cs.len()
        invariant
            i <= cs@.len(),
            cs@ == path@,
            texts_of(done@).push(cur@) == split_prefix(cs@, i as int),
        decreases cs.len() - i,
    {
        let c = cs[i];
        if c == '/' {
            let part = string_from_chars(cur.as_slice());
            done.push(part);
            cur = Vec::new();
            proof {
                assert(texts_of(done@) =~= split_prefix(cs@, i as int));
            }
        } else {
            cur.push(c);
            proof {
                let p = split_prefix(cs@, i as int);
                assert(texts_of(done@).push(cur@) =~= p.update(p.len() - 1, p.last().push(c)));
            }
        }
        i = i + 1;
    }
    let suffix: Vec<char> = vec!['.', 'g', 'p', 'g'];
    push_all(&mut cur, suffix.as_slice());
    let last = string_from_chars(cur.as_slice());
    done.push(last);
    proof {
        let c = split_prefix(cs@, cs@.len() as int);
        assert(suffix@ == entry_suffix());
        assert(texts_of(done@) =~= c.update(c.len() - 1, c.last() + entry_suffix()));
    }
    done
}

} // verus!
