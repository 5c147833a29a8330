//! Where to look for a translation catalog.
use vstd::prelude::*;

use crate::text::{chars_of, push_all, string_from_chars, texts_of};

verus! {

/// The language subtag that `unic_langid` reads from a locale tag, or `None`
/// when it does not parse as a language identifier.
pub uninterp spec fn language_subtag(tag: Seq<char>) -> Option<Seq<char>>;

/// Relies on `unic_langid::LanguageIdentifier`'s `FromStr` and its
/// `language` subtag: the result depends on the tag's characters alone.
#[verifier::external_body]
fn parse_language(tag: &str) -> (r: Option<String>)
    ensures
        match r {
            Some(l) => language_subtag(tag@) == Some(l@),
            None => language_subtag(tag@) is None,
        },
{
    tag.parse::<unic_langid::LanguageIdentifier>().ok().map(|id| id.language.as_str().to_string())
}

/// `dir/lang.mo`.
pub open spec fn catalog_file(dir: Seq<char>, lang: Seq<char>) -> Seq<char> {
    dir + seq!['/'] + lang + seq!['.', 'm', 'o']
}

/// The catalog files for language `lang`, one in each directory, in order.
pub open spec fn catalog_files_for(lang: Seq<char>, dirs: Seq<String>) -> Seq<Seq<char>> {
    Seq::new(dirs.len(), |i: int| catalog_file(dirs[i]@, lang))
}

/// The catalog files to try, in order: for each preferred tag that names a
/// language, that language's file in each directory.
pub open spec fn catalog_candidates_spec(tags: Seq<String>, dirs: Seq<String>) -> Seq<Seq<char>>
    decreases tags.len(),
{
    if tags.len() == 0 {
        Seq::empty()
    } else {
        catalog_candidates_spec(tags.drop_last(), dirs) + match language_subtag(tags.last()@) {
            Some(l) => catalog_files_for(l, dirs),
            None => Seq::empty(),
        }
    }
}

/// Appends, for each directory, the catalog file of language `lang`.
pub fn push_catalog_files_for(out: &mut Vec<String>, lang: &str, dirs: &Vec<String>)
    ensures
        texts_of(final(out)@) == texts_of(old(out)@) + catalog_files_for(lang@, dirs@),
{
    let lang_chars = chars_of(lang);
    let suffix: Vec<char> = vec!['.', 'm', 'o'];
    let mut i: usize = 0;
    while i < dirs.len()
        invariant
            i <= dirs@.len(),
            lang_chars@ == lang@,
            suffix@ == seq!['.', 'm', 'o'],
            texts_of(out@) == texts_of(old(out)@) + catalog_files_for(lang@, dirs@).take(i as int),
        decreases dirs.len() - i,
    {
        let mut file = chars_of(dirs[i].as_str());
        file.push('/');
        push_all(&mut file, lang_chars.as_slice());
        push_all(&mut file, suffix.as_slice());
        let ghost before = out@;
        out.push(string_from_chars(file.as_slice()));
        proof {
            assert(file@ == catalog_file(dirs@[i as int]@, lang@));
            assert(texts_of(out@) =~= texts_of(before).push(file@));
            assert(catalog_files_for(lang@, dirs@).take(i + 1) =~= catalog_files_for(
                lang@,
                dirs@,
            ).take(i as int).push(file@));
        }
        i = i + 1;
    }
    assert(catalog_files_for(lang@, dirs@).take(dirs@.len() as int) =~= catalog_files_for(
        lang@,
        dirs@,
    ));
}

/// The catalog files to try, in order, for the preferred locale tags `tags`
/// and the directories `dirs`.
pub fn catalog_candidates(tags: &Vec<String>, dirs: &Vec<String>) -> (r: Vec<String>)
    ensures
        texts_of(r@) == catalog_candidates_spec(tags@, dirs@),
{
    let mut out: Vec<String> = Vec::new();
    let mut i: usize = 0;
    assert(texts_of(out@) =~= catalog_candidates_spec(tags@.take(0), dirs@));
    while i < tags.len()
        invariant
            i <= tags@.len(),
            texts_of(out@) == catalog_candidates_spec(tags@.take(i as int), dirs@),
        decreases tags.len() - i,
    {
        proof {
            assert(tags@.take(i + 1).drop_last() =~= tags@.take(i as int));
            assert(tags@.take(i + 1).last() == tags@[i as int]);
        }
        match parse_language(tags[i].as_str()) {
            Some(l) => {
                push_catalog_files_for(&mut out, l.as_str(), dirs);
            },
            None => {
                assert(texts_of(out@) =~= texts_of(out@) + Seq::<Seq<char>>::empty());
            },
        }
        i = i + 1;
    }
    assert(tags@.take(tags@.len() as int) =~= tags@);
    out
}

} // verus!
