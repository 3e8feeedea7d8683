//! Putting the program's own settings into a `user.js`.
//!
//! The file that is fetched has a block for overrides, headed by a line that
//! starts with `* START: MY OVERRIDE`. The program's settings go below the
//! comment that this line belongs to.

use crate::overwrite::Overwrite;
use crate::text::{
    chars_of, is_prefix, join_with, joined_with, lines, lines_of, starts_with, str_eq, string_of,
};
use vstd::prelude::*;

verus! {

/// How many lines below the heading of the overrides the settings go: past
/// the rest of the comment and one empty line.
pub const LINES_BELOW_HEADING: usize = 6;

/// Why a `user.js` could not be put together.
#[derive(Clone, Copy, Debug, PartialEq, Eq, Structural)]
pub enum UserJsError {
    /// No line is the heading of the overrides.
    NoHeading,
    /// The file ends before the place where the settings go.
    TooShort,
}

/// Whether `c` is white space as `char::is_whitespace` has it.
pub uninterp spec fn is_space(c: char) -> bool;

/// How many characters of white space `s` starts with.
pub open spec fn leading_space(s: Seq<char>) -> int
    decreases s.len(),
{
    if s.len() == 0 {
        0
    } else if is_space(s[0]) {
        1 + leading_space(s.drop_first())
    } else {
        0
    }
}

/// The line is the heading of the overrides: after any white space it starts
/// with the mark.
pub open spec fn is_heading(line: Seq<char>) -> bool {
    let n = leading_space(line);
    0 <= n <= line.len() && is_prefix("* START: MY OVERRIDE"@, line.skip(n))
}

/// The index of the last heading among `lines`.
pub open spec fn last_heading(lines: Seq<Seq<char>>) -> Option<int>
    decreases lines.len(),
{
    if lines.len() == 0 {
        None
    } else if is_heading(lines.last()) {
        Some(lines.len() - 1)
    } else {
        last_heading(lines.drop_last())
    }
}

/// The file `user_js` with `additional` put in as one more line,
/// `LINES_BELOW_HEADING` lines below the last heading. Where `additional`
/// is empty the lines stay as they are.
pub open spec fn configured(user_js: Seq<char>, additional: Seq<char>) -> Result<
    Seq<char>,
    UserJsError,
> {
    let all = lines_of(user_js);
    match last_heading(all) {
        None => Err(UserJsError::NoHeading),
        Some(heading) => {
            let at = heading + LINES_BELOW_HEADING;
            if additional.len() == 0 {
                Ok(joined_with(all, "\n"@))
            } else if at <= all.len() {
                Ok(joined_with(all.insert(at, additional), "\n"@))
            } else {
                Err(UserJsError::TooShort)
            }
        },
    }
}

/// What to do about a `user.js` that may be there already.
pub open spec fn user_js_choice(
    present: bool,
    auto_confirm: bool,
    existing: Seq<char>,
    configured: Seq<char>,
) -> Overwrite {
    if !present || auto_confirm {
        Overwrite::Write
    } else if existing == configured {
        Overwrite::Keep
    } else if existing.len() == 0 {
        Overwrite::Write
    } else {
        Overwrite::Ask
    }
}

/// Whether a character is white space.
///
/// Wraps `char::is_whitespace`, which depends on the character alone.
#[verifier::external_body]
fn is_whitespace(c: char) -> (r: bool)
    ensures
        r == is_space(c),
{
    c.is_whitespace()
}

/// Whether a line is the heading of the overrides.
pub fn is_heading_line(line: &str) -> (r: bool)
    ensures
        r == is_heading(line@),
{
    let chars = chars_of(line);
    let mut n: usize = 0;
    assert(chars@.skip(0) == chars@);
    while n < chars.len() && is_whitespace(chars[n])
        invariant
            n <= chars.len(),
            leading_space(chars@) == n + leading_space(chars@.skip(n as int)),
        decreases chars.len() - n,
    {
        proof {
            let rest = chars@.skip(n as int);
            assert(rest[0] == chars@[n as int]);
            assert(rest.drop_first() == chars@.skip(n + 1));
        }
        n = n + 1;
    }
    proof {
        let rest = chars@.skip(n as int);
        if n < chars.len() {
            assert(rest[0] == chars@[n as int]);
        }
        assert(leading_space(rest) == 0);
    }
    let mut rest: Vec<char> = Vec::new();
    let mut i: usize = n;
    while i < chars.len()
        invariant
            n <= i <= chars.len(),
            rest@ == chars@.subrange(n as int, i as int),
        decreases chars.len() - i,
    {
        rest.push(chars[i]);
        assert(chars@.subrange(n as int, i + 1) == chars@.subrange(n as int, i as int).push(
            chars@[i as int],
        ));
        i = i + 1;
    }
    assert(rest@ =~= chars@.skip(n as int));
    let tail = string_of(&rest);
    starts_with(tail.as_str(), "* START: MY OVERRIDE")
}

/// The index of the last heading among `lines`.
pub fn find_last_heading(lines: &Vec<String>) -> (r: Option<usize>)
    ensures
        match r {
            Some(i) => last_heading(lines.deep_view()) == Some(i as int) && i < lines.len(),
            None => last_heading(lines.deep_view()) is None,
        },
{
    let ghost all = lines.deep_view();
    let mut i: usize = lines.len();
    assert(all.take(lines.len() as int) == all);
    while i > 0
        invariant
            i <= lines.len(),
            all == lines.deep_view(),
            last_heading(all) == last_heading(all.take(i as int)),
        decreases i,
    {
        proof {
            let part = all.take(i as int);
            assert(part.last() == all[i - 1]);
            assert(part.drop_last() == all.take(i - 1));
        }
        if is_heading_line(lines[i - 1].as_str()) {
            return Some(i - 1);
        }
        i = i - 1;
    }
    None
}

/// Puts the program's settings into a `user.js`.
///
/// Fails where the file has no heading for overrides, and where it ends
/// before the place for the settings although there are settings to put in.
pub fn configure_user_js(user_js: &str, additional_snippets: &str) -> (r: Result<
    String,
    UserJsError,
>)
    ensures
        match r {
            Ok(text) => configured(user_js@, additional_snippets@) == Ok::<Seq<char>, UserJsError>(
                text@,
            ),
            Err(e) => configured(user_js@, additional_snippets@) == Err::<Seq<char>, UserJsError>(
                e,
            ),
        },
{
    let mut all = lines(user_js);
    let heading = match find_last_heading(&all) {
        Some(heading) => heading,
        None => {
            return Err(UserJsError::NoHeading);
        },
    };
    if additional_snippets.unicode_len() > 0 {
        if all.len() < LINES_BELOW_HEADING || heading > all.len() - LINES_BELOW_HEADING {
            return Err(UserJsError::TooShort);
        }
        let ghost before = all.deep_view();
        all.insert(heading + LINES_BELOW_HEADING, additional_snippets.to_owned());
        assert(all.deep_view() =~= before.insert(
            heading + LINES_BELOW_HEADING,
            additional_snippets@,
        ));
    }
    Ok(join_with(&all, "\n"))
}

/// What to do about a `user.js` that may be there already.
///
/// It is written where there is none, or every question is answered with
/// yes. One that says the same already is kept, an empty one is written
/// over, and about any other the user is asked.
pub fn should_write_user_js(present: bool, auto_confirm: bool, existing: &str, configured: &str) -> (r:
    Overwrite)
    ensures
        r == user_js_choice(present, auto_confirm, existing@, configured@),
{
    if !present || auto_confirm {
        Overwrite::Write
    } else if str_eq(existing, configured) {
        Overwrite::Keep
    } else if existing.unicode_len() == 0 {
        Overwrite::Write
    } else {
        Overwrite::Ask
    }
}

} // verus!
