//! The metadata store of Gecko-family browsers: an INI document with one
//! section per profile.
//!
//! A section stands for a profile when it has a `Name` and a `Path`. The
//! profile is a default one when its `Default` is the number one.

use crate::metadata::ini::{find_property, ini_document, parse_ini, property_of, IniSection};
use crate::metadata::store::{MetadataView, ProfileMetadata};
use crate::profiles::record::{DiscoveryError, RawProfileRecord, RecordView};
use crate::text::chars_of;
use vstd::prelude::*;

verus! {

/// The digit that `c` is.
pub open spec fn digit_of(c: char) -> Option<nat> {
    if '0' <= c && c <= '9' {
        Some((c as u32 - '0' as u32) as nat)
    } else {
        None
    }
}

/// The number that the digits `s` write in base ten. There must be a digit,
/// and nothing but digits.
pub open spec fn digits_value(s: Seq<char>) -> Option<nat>
    decreases s.len(),
{
    if s.len() == 0 {
        None
    } else if s.len() == 1 {
        digit_of(s[0])
    } else {
        match (digits_value(s.drop_last()), digit_of(s.last())) {
            (Some(front), Some(digit)) => Some(front * 10 + digit),
            _ => None,
        }
    }
}

/// The number below 256 that `s` writes: digits, with or without a `+`
/// before them.
pub open spec fn decimal_u8(s: Seq<char>) -> Option<u8> {
    let digits = if s.len() > 0 && s[0] == '+' {
        s.drop_first()
    } else {
        s
    };
    match digits_value(digits) {
        Some(value) => if value <= 255 {
            Some(value as u8)
        } else {
            None
        },
        None => None,
    }
}

/// Whether a `Default` of this value marks a default profile.
pub open spec fn marks_default(value: Option<Seq<char>>) -> bool {
    match value {
        Some(text) => decimal_u8(text) == Some(1u8),
        None => false,
    }
}

/// The record that a section stands for, if it has a `Name` and a `Path`.
pub open spec fn section_record(section: IniSection) -> Option<RecordView> {
    match (
        property_of(section.properties@, "Name"@),
        property_of(section.properties@, "Path"@),
    ) {
        (Some(name), Some(path)) => Some(
            RecordView {
                name,
                relative_path: path,
                is_default: marks_default(property_of(section.properties@, "Default"@)),
            },
        ),
        _ => None,
    }
}

/// The records of the sections that stand for one, in order.
pub open spec fn section_records(sections: Seq<IniSection>) -> Seq<RecordView>
    decreases sections.len(),
{
    if sections.len() == 0 {
        Seq::empty()
    } else {
        match section_record(sections.last()) {
            Some(record) => section_records(sections.drop_last()).push(record),
            None => section_records(sections.drop_last()),
        }
    }
}

/// What the store with the text `text` says. It names no order and no
/// profiles in use.
pub open spec fn gecko_metadata(text: Seq<char>) -> Result<MetadataView, DiscoveryError> {
    match ini_document(text) {
        Some(sections) => Ok(
            MetadataView {
                records: section_records(sections@),
                order_hint: Seq::empty(),
                active_hint: Seq::empty(),
            },
        ),
        None => Err(DiscoveryError::Parse),
    }
}

/// Adding a digit at the end of a run of digits.
proof fn lemma_digits_push(s: Seq<char>, c: char)
    ensures
        digits_value(s.push(c)) == (if s.len() == 0 {
            digit_of(c)
        } else {
            match (digits_value(s), digit_of(c)) {
                (Some(front), Some(digit)) => Some(front * 10 + digit),
                _ => None,
            }
        }),
{
    let t = s.push(c);
    assert(t.last() == c);
    assert(t.drop_last() == s);
    if s.len() == 0 {
        assert(t[0] == c);
    }
}

/// Reads a number below 256 written in base ten, with or without a `+`
/// before the digits.
pub fn parse_u8(text: &str) -> (r: Option<u8>)
    ensures
        r == decimal_u8(text@),
{
    let chars = chars_of(text);
    let start: usize = if chars.len() > 0 && chars[0] == '+' {
        1
    } else {
        0
    };
    let ghost digits = chars@.skip(start as int);
    assert(digits == if text@.len() > 0 && text@[0] == '+' {
        text@.drop_first()
    } else {
        text@
    });
    if start == chars.len() {
        return None;
    }
    let mut value: u32 = 0;
    let mut i: usize = start;
    assert(digits.take(0) =~= Seq::<char>::empty());
    while i < chars.len()
        invariant
            start <= i <= chars.len(),
            start < chars.len(),
            digits == chars@.skip(start as int),
            digits == (if text@.len() > 0 && text@[0] == '+' {
                text@.drop_first()
            } else {
                text@
            }),
            value <= 255,
            i > start ==> digits_value(digits.take(i - start)) == Some(value as nat),
            i == start ==> value == 0,
        decreases chars.len() - i,
    {
        let c = chars[i];
        proof {
            assert(digits.take(i - start + 1) == digits.take(i - start).push(c));
            lemma_digits_push(digits.take(i - start), c);
        }
        if c < '0' || c > '9' {
            proof {
                assert(digits[i - start] == c);
                lemma_no_digit_spoils(digits, i - start);
            }
            return None;
        }
        let digit: u32 = c as u32 - '0' as u32;
        let next: u32 = value * 10 + digit;
        if next > 255 {
            proof {
                lemma_large_prefix_spoils(digits, i - start + 1);
            }
            return None;
        }
        value = next;
        i = i + 1;
    }
    assert(digits.take(chars.len() - start) == digits);
    Some(value as u8)
}

/// A run with a character that is no digit writes no number.
proof fn lemma_no_digit_spoils(s: Seq<char>, at: int)
    requires
        0 <= at < s.len(),
        digit_of(s[at]) is None,
    ensures
        digits_value(s) is None,
    decreases s.len(),
{
    if s.len() > 1 {
        if at < s.len() - 1 {
            assert(s.drop_last()[at] == s[at]);
            lemma_no_digit_spoils(s.drop_last(), at);
        }
    }
}

/// A run of digits is at least as large as each run that it starts with.
proof fn lemma_large_prefix_spoils(s: Seq<char>, n: int)
    requires
        0 < n <= s.len(),
        match digits_value(s.take(n)) {
            Some(value) => value > 255,
            None => true,
        },
    ensures
        match digits_value(s) {
            Some(value) => value > 255,
            None => true,
        },
    decreases s.len() - n,
{
    if n < s.len() {
        assert(s.take(n + 1) == s.take(n).push(s[n]));
        lemma_digits_push(s.take(n), s[n]);
        lemma_large_prefix_spoils(s, n + 1);
    } else {
        assert(s.take(n) == s);
    }
}

/// Whether a `Default` of this value marks a default profile.
fn is_default_mark(value: Option<&String>) -> (r: bool)
    ensures
        r == marks_default(
            match value {
                Some(text) => Some(text@),
                None => None,
            },
        ),
{
    match value {
        Some(text) => match parse_u8(text.as_str()) {
            Some(number) => number == 1,
            None => false,
        },
        None => false,
    }
}

/// The record that a section stands for, if it stands for one.
fn read_section(section: &IniSection) -> (record: Option<RawProfileRecord>)
    ensures
        record.deep_view() == section_record(*section),
{
    let name = find_property(&section.properties, "Name");
    let path = find_property(&section.properties, "Path");
    match (name, path) {
        (Some(name), Some(path)) => {
            let is_default = is_default_mark(find_property(&section.properties, "Default"));
            Some(RawProfileRecord::new(name.clone(), path.clone(), is_default))
        },
        _ => None,
    }
}

/// The records of the sections that stand for one, in order.
pub fn read_sections(sections: &Vec<IniSection>) -> (records: Vec<RawProfileRecord>)
    ensures
        records.deep_view() == section_records(sections@),
{
    let mut records: Vec<RawProfileRecord> = Vec::new();
    let mut i: usize = 0;
    assert(sections@.take(0) =~= Seq::<IniSection>::empty());
    assert(records.deep_view() =~= section_records(sections@.take(0)));
    while i < sections.len()
        invariant
            i <= sections.len(),
            records.deep_view() == section_records(sections@.take(i as int)),
        decreases sections.len() - i,
    {
        proof {
            let next = sections@.take(i + 1);
            assert(next.drop_last() == sections@.take(i as int));
            assert(next.last() == sections@[i as int]);
        }
        match read_section(&sections[i]) {
            Some(record) => {
                let ghost before = records.deep_view();
                records.push(record);
                assert(records.deep_view() =~= before.push(record.deep_view()));
            },
            None => {},
        }
        i = i + 1;
    }
    assert(sections@.take(sections.len() as int) == sections@);
    records
}

/// Reads what a store says.
///
/// A section that does not stand for a profile is passed over. Only a text
/// that is no INI document is refused.
pub fn read_gecko_metadata(text: &str) -> (r: Result<ProfileMetadata, DiscoveryError>)
    ensures
        match r {
            Ok(metadata) => gecko_metadata(text@) == Ok::<MetadataView, DiscoveryError>(
                metadata.deep_view(),
            ),
            Err(e) => gecko_metadata(text@) == Err::<MetadataView, DiscoveryError>(e),
        },
{
    match parse_ini(text) {
        Some(sections) => {
            let records = read_sections(&sections);
            let order_hint: Vec<String> = Vec::new();
            let active_hint: Vec<String> = Vec::new();
            assert(order_hint.deep_view() =~= Seq::<Seq<char>>::empty());
            assert(active_hint.deep_view() =~= Seq::<Seq<char>>::empty());
            Ok(ProfileMetadata { records, order_hint, active_hint })
        },
        None => Err(DiscoveryError::Parse),
    }
}

} // verus!
