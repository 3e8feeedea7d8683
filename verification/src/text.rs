//! Small verified helpers on strings, stated over their character sequences.

use vstd::prelude::*;

verus! {

/// `needle` occurs in `hay` as a contiguous run of characters.
pub open spec fn is_substring(needle: Seq<char>, hay: Seq<char>) -> bool {
    exists|i: int|
        0 <= i && i + needle.len() <= hay.len() && #[trigger] hay.subrange(
            i,
            i + needle.len(),
        ) == needle
}

/// `prefix` is an initial run of `s`.
pub open spec fn is_prefix(prefix: Seq<char>, s: Seq<char>) -> bool {
    prefix.len() <= s.len() && s.subrange(0, prefix.len() as int) == prefix
}

/// The characters of a string, in order.
pub fn chars_of(s: &str) -> (v: Vec<char>)
    ensures
        v@ == s@,
{
    let mut v: Vec<char> = Vec::new();
    for c in it: s.chars()
        invariant
            v@ == it.seq().take(it.index() as int),
    {
        v.push(c);
    }
    v
}

/// The string made of the given characters.
pub fn string_of(chars: &Vec<char>) -> (s: String)
    ensures
        s@ == chars@,
{
    let mut s = String::new();
    let mut i: usize = 0;
    while i < chars.len()
        invariant
            i <= chars.len(),
            s@ == chars@.take(i as int),
        decreases chars.len() - i,
    {
        push_char(&mut s, chars[i]);
        assert(chars@.take(i + 1) == chars@.take(i as int).push(chars@[i as int]));
        i = i + 1;
    }
    s
}

/// Appends one character to a string.
///
/// Wraps `String::push`, which std documents as appending the given character
/// to the end of the string.
#[verifier::external_body]
pub(crate) fn push_char(s: &mut String, c: char)
    ensures
        final(s)@ == old(s)@.push(c),
{
    s.push(c);
}

/// Whether two strings hold the same characters.
pub fn str_eq(a: &str, b: &str) -> (r: bool)
    ensures
        r == (a@ == b@),
{
    let x = a.to_owned();
    let y = b.to_owned();
    x == y
}

/// The two strings, one after the other.
pub fn append(a: &str, b: &str) -> (r: String)
    ensures
        r@ == a@ + b@,
{
    let mut r = a.to_owned();
    r.append(b);
    r
}

/// Whether `hay[at..]` begins with `needle`.
fn matches_at(hay: &Vec<char>, needle: &Vec<char>, at: usize) -> (r: bool)
    requires
        at + needle.len() <= hay.len(),
    ensures
        r == (hay@.subrange(at as int, at + needle.len()) == needle@),
{
    let mut j: usize = 0;
    while j < needle.len()
        invariant
            j <= needle.len(),
            at + needle.len() <= hay.len(),
            hay@.subrange(at as int, at + j) == needle@.take(j as int),
        decreases needle.len() - j,
    {
        if hay[at + j] != needle[j] {
            assert(hay@.subrange(at as int, at + needle.len())[j as int] != needle@[j as int]);
            return false;
        }
        assert(hay@.subrange(at as int, at + j + 1) == hay@.subrange(at as int, at + j).push(
            hay@[at + j],
        ));
        assert(needle@.take(j + 1) == needle@.take(j as int).push(needle@[j as int]));
        j = j + 1;
    }
    assert(needle@.take(needle.len() as int) == needle@);
    true
}

/// Whether `needle` occurs somewhere in `hay`.
///
/// The empty string occurs in every string.
pub fn contains(hay: &str, needle: &str) -> (r: bool)
    ensures
        r == is_substring(needle@, hay@),
{
    let h = chars_of(hay);
    let n = chars_of(needle);
    if n.len() > h.len() {
        return false;
    }
    let last: usize = h.len() - n.len();
    let mut i: usize = 0;
    loop
        invariant
            i <= last,
            last == h.len() - n.len(),
            n.len() <= h.len(),
            h@ == hay@,
            n@ == needle@,
            forall|k: int| 0 <= k < i ==> #[trigger] h@.subrange(k, k + n.len()) != n@,
        decreases last - i,
    {
        if matches_at(&h, &n, i) {
            return true;
        }
        if i == last {
            return false;
        }
        i = i + 1;
    }
}

/// Whether `s` begins with `prefix`.
pub fn starts_with(s: &str, prefix: &str) -> (r: bool)
    ensures
        r == is_prefix(prefix@, s@),
{
    let h = chars_of(s);
    let n = chars_of(prefix);
    if n.len() > h.len() {
        return false;
    }
    matches_at(&h, &n, 0)
}

/// The index of the first line feed of `s`, or the length of `s` where it
/// has none.
pub open spec fn first_newline(s: Seq<char>) -> int
    decreases s.len(),
{
    if s.len() == 0 {
        0
    } else if s[0] == '\n' {
        0
    } else {
        1 + first_newline(s.drop_first())
    }
}

/// `line` without the carriage return at its end, where it has one.
pub open spec fn without_cr(line: Seq<char>) -> Seq<char> {
    if line.len() > 0 && line.last() == '\r' {
        line.drop_last()
    } else {
        line
    }
}

/// The lines of `s`.
///
/// A line ends with a line feed, or with a carriage return and a line feed,
/// neither of which belongs to it. What follows the last line feed is a line
/// of its own unless it is empty.
pub open spec fn lines_of(s: Seq<char>) -> Seq<Seq<char>>
    decreases s.len(),
{
    if s.len() == 0 {
        Seq::empty()
    } else {
        let n = first_newline(s);
        if 0 <= n < s.len() {
            seq![without_cr(s.take(n))] + lines_of(s.skip(n + 1))
        } else {
            seq![s]
        }
    }
}

/// The entries of `lines` that are not empty, in order.
pub open spec fn non_empty(lines: Seq<Seq<char>>) -> Seq<Seq<char>>
    decreases lines.len(),
{
    if lines.len() == 0 {
        lines
    } else if lines.last().len() > 0 {
        non_empty(lines.drop_last()).push(lines.last())
    } else {
        non_empty(lines.drop_last())
    }
}

/// Where the first line feed of `s` is, when nothing before `k` is one and
/// `k` is one or the end.
pub proof fn lemma_first_newline(s: Seq<char>, k: int)
    requires
        0 <= k <= s.len(),
        forall|j: int| 0 <= j < k ==> s[j] != '\n',
        k < s.len() ==> s[k] == '\n',
    ensures
        first_newline(s) == k,
    decreases s.len(),
{
    if s.len() > 0 && k > 0 {
        let rest = s.drop_first();
        assert forall|j: int| 0 <= j < k - 1 implies rest[j] != '\n' by {
            assert(rest[j] == s[j + 1]);
        }
        lemma_first_newline(rest, k - 1);
    }
}

/// The characters `chars[from..to]` as a string.
fn slice_string(chars: &Vec<char>, from: usize, to: usize) -> (r: String)
    requires
        from <= to <= chars.len(),
    ensures
        r@ == chars@.subrange(from as int, to as int),
{
    let mut r = String::new();
    let mut i: usize = from;
    while i < to
        invariant
            from <= i <= to,
            to <= chars.len(),
            r@ == chars@.subrange(from as int, i as int),
        decreases to - i,
    {
        push_char(&mut r, chars[i]);
        assert(chars@.subrange(from as int, i + 1) == chars@.subrange(from as int, i as int).push(
            chars@[i as int],
        ));
        i = i + 1;
    }
    r
}

/// Splits a text into its lines.
pub fn lines(text: &str) -> (r: Vec<String>)
    ensures
        r.deep_view() == lines_of(text@),
{
    let chars = chars_of(text);
    let ghost s = chars@;
    let mut r: Vec<String> = Vec::new();
    let mut start: usize = 0;
    let mut i: usize = 0;
    assert(s.skip(0) == s);
    assert(r.deep_view() + lines_of(s) =~= lines_of(s));
    while i < chars.len()
        invariant
            start <= i <= chars.len(),
            s == chars@,
            lines_of(s) == r.deep_view() + lines_of(s.skip(start as int)),
            forall|j: int| start <= j < i ==> s[j] != '\n',
        decreases chars.len() - i,
    {
        if chars[i] == '\n' {
            let end: usize = if i > start && chars[i - 1] == '\r' {
                (i - 1) as usize
            } else {
                i
            };
            let line = slice_string(&chars, start, end);
            proof {
                let rest = s.skip(start as int);
                assert forall|j: int| 0 <= j < i - start implies rest[j] != '\n' by {
                    assert(rest[j] == s[start + j]);
                }
                lemma_first_newline(rest, i - start);
                assert(rest.take(i - start) =~= s.subrange(start as int, i as int));
                assert(rest.skip(i - start + 1) =~= s.skip(i + 1));
                assert(line@ =~= without_cr(s.subrange(start as int, i as int)));
            }
            let ghost before = r.deep_view();
            r.push(line);
            assert(r.deep_view() =~= before.push(line@));
            assert(before.push(line@) + lines_of(s.skip(i + 1)) =~= before + (seq![line@]
                + lines_of(s.skip(i + 1))));
            start = i + 1;
        }
        i = i + 1;
    }
    if start < chars.len() {
        let line = slice_string(&chars, start, chars.len());
        proof {
            let rest = s.skip(start as int);
            assert forall|j: int| 0 <= j < rest.len() implies rest[j] != '\n' by {
                assert(rest[j] == s[start + j]);
            }
            lemma_first_newline(rest, rest.len() as int);
            assert(line@ =~= rest);
        }
        let ghost before = r.deep_view();
        r.push(line);
        assert(r.deep_view() =~= before.push(line@));
        assert(before.push(line@) =~= before + seq![line@]);
    } else {
        assert(s.skip(start as int).len() == 0);
        assert(r.deep_view() + Seq::<Seq<char>>::empty() =~= r.deep_view());
    }
    r
}

/// The lines of a text that are not empty.
pub fn non_empty_lines(text: &str) -> (r: Vec<String>)
    ensures
        r.deep_view() == non_empty(lines_of(text@)),
{
    let all = lines(text);
    let ghost views = all.deep_view();
    let mut r: Vec<String> = Vec::new();
    let mut i: usize = 0;
    assert(views.take(0) =~= Seq::<Seq<char>>::empty());
    assert(r.deep_view() =~= non_empty(views.take(0)));
    while i < all.len()
        invariant
            i <= all.len(),
            views == all.deep_view(),
            r.deep_view() == non_empty(views.take(i as int)),
        decreases all.len() - i,
    {
        proof {
            let next = views.take(i + 1);
            assert(next.drop_last() == views.take(i as int));
            assert(next.last() == views[i as int]);
        }
        if all[i].as_str().unicode_len() > 0 {
            let ghost before = r.deep_view();
            r.push(all[i].clone());
            assert(r.deep_view() =~= before.push(views[i as int]));
        }
        i = i + 1;
    }
    assert(views.take(all.len() as int) == views);
    r
}

/// The entries of `parts` with `separator` between each two.
pub open spec fn joined_with(parts: Seq<Seq<char>>, separator: Seq<char>) -> Seq<char>
    decreases parts.len(),
{
    if parts.len() == 0 {
        Seq::empty()
    } else if parts.len() == 1 {
        parts[0]
    } else {
        joined_with(parts.drop_last(), separator) + separator + parts.last()
    }
}

/// Joins strings with a separator between each two.
pub fn join_with(parts: &Vec<String>, separator: &str) -> (r: String)
    ensures
        r@ == joined_with(parts.deep_view(), separator@),
{
    let ghost views = parts.deep_view();
    let mut r = String::new();
    let mut i: usize = 0;
    assert(views.take(0) =~= Seq::<Seq<char>>::empty());
    while i < parts.len()
        invariant
            i <= parts.len(),
            views == parts.deep_view(),
            r@ == joined_with(views.take(i as int), separator@),
        decreases parts.len() - i,
    {
        proof {
            let next = views.take(i + 1);
            assert(next.drop_last() == views.take(i as int));
            assert(next.last() == views[i as int]);
            if i == 0 {
                assert(next[0] == views[0]);
                assert(r@ =~= Seq::<char>::empty());
            }
        }
        if i > 0 {
            r = append(r.as_str(), separator);
        }
        r = append(r.as_str(), parts[i].as_str());
        assert(r@ =~= joined_with(views.take(i + 1), separator@));
        i = i + 1;
    }
    assert(views.take(parts.len() as int) == views);
    r
}

/// The index of the first `mark` of `s`, or the length of `s` where it has
/// none.
pub open spec fn first_mark(s: Seq<char>, mark: char) -> int
    decreases s.len(),
{
    if s.len() == 0 {
        0
    } else if s[0] == mark {
        0
    } else {
        1 + first_mark(s.drop_first(), mark)
    }
}

/// The pieces of `s` between its `mark`s. A text without a mark is one
/// piece, and so is the empty text.
pub open spec fn pieces_of(s: Seq<char>, mark: char) -> Seq<Seq<char>>
    decreases s.len(),
{
    let n = first_mark(s, mark);
    if 0 <= n < s.len() {
        seq![s.take(n)] + pieces_of(s.skip(n + 1), mark)
    } else {
        seq![s]
    }
}

/// Where the first `mark` of `s` is, when nothing before `k` is one and `k`
/// is one or the end.
pub proof fn lemma_first_mark(s: Seq<char>, mark: char, k: int)
    requires
        0 <= k <= s.len(),
        forall|j: int| 0 <= j < k ==> s[j] != mark,
        k < s.len() ==> s[k] == mark,
    ensures
        first_mark(s, mark) == k,
    decreases s.len(),
{
    if s.len() > 0 && k > 0 {
        let rest = s.drop_first();
        assert forall|j: int| 0 <= j < k - 1 implies rest[j] != mark by {
            assert(rest[j] == s[j + 1]);
        }
        lemma_first_mark(rest, mark, k - 1);
    }
}

/// Splits a text at every `mark`.
pub fn split_on(text: &str, mark: char) -> (r: Vec<String>)
    ensures
        r.deep_view() == pieces_of(text@, mark),
{
    let chars = chars_of(text);
    let ghost s = chars@;
    let mut r: Vec<String> = Vec::new();
    let mut start: usize = 0;
    let mut i: usize = 0;
    assert(s.skip(0) == s);
    assert(r.deep_view() + pieces_of(s, mark) =~= pieces_of(s, mark));
    while i < chars.len()
        invariant
            start <= i <= chars.len(),
            s == chars@,
            pieces_of(s, mark) == r.deep_view() + pieces_of(s.skip(start as int), mark),
            forall|j: int| start <= j < i ==> s[j] != mark,
        decreases chars.len() - i,
    {
        if chars[i] == mark {
            let piece = slice_string(&chars, start, i);
            proof {
                let rest = s.skip(start as int);
                assert forall|j: int| 0 <= j < i - start implies rest[j] != mark by {
                    assert(rest[j] == s[start + j]);
                }
                lemma_first_mark(rest, mark, i - start);
                assert(rest.take(i - start) =~= s.subrange(start as int, i as int));
                assert(rest.skip(i - start + 1) =~= s.skip(i + 1));
            }
            let ghost before = r.deep_view();
            r.push(piece);
            assert(r.deep_view() =~= before.push(piece@));
            assert(before.push(piece@) + pieces_of(s.skip(i + 1), mark) =~= before + (seq![piece@]
                + pieces_of(s.skip(i + 1), mark)));
            start = i + 1;
        }
        i = i + 1;
    }
    let piece = slice_string(&chars, start, chars.len());
    proof {
        let rest = s.skip(start as int);
        assert forall|j: int| 0 <= j < rest.len() implies rest[j] != mark by {
            assert(rest[j] == s[start + j]);
        }
        lemma_first_mark(rest, mark, rest.len() as int);
        assert(piece@ =~= rest);
    }
    let ghost before = r.deep_view();
    r.push(piece);
    assert(r.deep_view() =~= before.push(piece@));
    assert(before.push(piece@) =~= before + seq![piece@]);
    r
}

/// Some entry of `list` is `item`.
pub open spec fn lists(list: Seq<Seq<char>>, item: Seq<char>) -> bool {
    exists|k: int| 0 <= k < list.len() && #[trigger] list[k] == item
}

/// Whether `item` is an entry of `list`.
pub fn is_listed(list: &Vec<String>, item: &str) -> (r: bool)
    ensures
        r == lists(list.deep_view(), item@),
{
    let mut k: usize = 0;
    while k < list.len()
        invariant
            k <= list.len(),
            forall|j: int| 0 <= j < k ==> #[trigger] list.deep_view()[j] != item@,
        decreases list.len() - k,
    {
        if str_eq(list[k].as_str(), item) {
            assert(list.deep_view()[k as int] == item@);
            return true;
        }
        k = k + 1;
    }
    false
}

} // verus!
