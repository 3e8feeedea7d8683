//! INI documents as a list of sections of the library's own.

use crate::text::str_eq;
use vstd::prelude::*;

verus! {

/// Why `ini` could not read a text.
#[verifier::external_type_specification]
#[verifier::external_body]
pub struct ExParseError(ini::ParseError);

/// One `key = value` line of a section.
pub struct IniProperty {
    pub key: String,
    pub value: String,
}

/// One section of an INI document. The lines before the first header make
/// up a section without a name.
pub struct IniSection {
    pub name: Option<String>,
    pub properties: Vec<IniProperty>,
}

/// The sections that `ini` reads from `text`, or `None` where it rejects
/// the text.
pub uninterp spec fn ini_document(text: Seq<char>) -> Option<Vec<IniSection>>;

/// The value of the first of `properties` whose key is `key`.
pub open spec fn property_of(properties: Seq<IniProperty>, key: Seq<char>) -> Option<Seq<char>>
    decreases properties.len(),
{
    if properties.len() == 0 {
        None
    } else if properties[0].key@ == key {
        Some(properties[0].value@)
    } else {
        property_of(properties.drop_first(), key)
    }
}

/// The value of the first of `properties` whose key is `key`.
pub fn find_property<'a>(properties: &'a Vec<IniProperty>, key: &str) -> (found: Option<
    &'a String,
>)
    ensures
        match found {
            Some(value) => property_of(properties@, key@) == Some(value@),
            None => property_of(properties@, key@) is None,
        },
{
    let mut i: usize = 0;
    assert(properties@.skip(0) == properties@);
    while i < properties.len()
        invariant
            i <= properties.len(),
            property_of(properties@, key@) == property_of(properties@.skip(i as int), key@),
        decreases properties.len() - i,
    {
        proof {
            let rest = properties@.skip(i as int);
            assert(rest[0] == properties@[i as int]);
            assert(rest.drop_first() == properties@.skip(i + 1));
        }
        if str_eq(properties[i].key.as_str(), key) {
            return Some(&properties[i].value);
        }
        i = i + 1;
    }
    None
}

/// Reads an INI document.
///
/// Wraps `ini::Ini::load_from_str` and copies what it read: the sections in
/// their order, each with its name and its lines in their order. The call
/// succeeds exactly on the texts that `ini` accepts, and what it gives
/// depends on the text alone.
#[verifier::external_body]
fn read_ini(text: &str) -> (r: Result<Vec<IniSection>, ini::ParseError>)
    ensures
        r is Ok <==> ini_document(text@) is Some,
        r is Ok ==> Some(r->Ok_0) == ini_document(text@),
{
    let document = ini::Ini::load_from_str(text)?;
    Ok(
        document.iter().map(
            |(name, properties)|
                IniSection {
                    name: name.map(String::from),
                    properties: properties.iter().map(
                        |(key, value)| IniProperty { key: key.to_owned(), value: value.to_owned() },
                    ).collect(),
                },
        ).collect(),
    )
}

/// Reads an INI document, or `None` where the text is not one.
pub fn parse_ini(text: &str) -> (r: Option<Vec<IniSection>>)
    ensures
        r == ini_document(text@),
{
    match read_ini(text) {
        Ok(sections) => Some(sections),
        Err(_) => None,
    }
}

} // verus!
