//! Telling which running programs are instances of a browser.

use crate::text::{contains, is_listed, is_substring, join_with, joined_with, lists};
use vstd::prelude::*;

verus! {

/// `s` in lower case, as `str::to_lowercase` gives it.
pub uninterp spec fn lowercase(s: Seq<char>) -> Seq<char>;

/// A program of this name is an instance of the browser: the browser's
/// name occurs in it, whatever the case of the letters.
pub open spec fn is_instance(process: Seq<char>, browser: Seq<char>) -> bool {
    is_substring(lowercase(browser), lowercase(process))
}

/// The names among `processes` that are instances of `browser`, each once,
/// in the order in which they first occur.
pub open spec fn instances(processes: Seq<Seq<char>>, browser: Seq<char>) -> Seq<Seq<char>>
    decreases processes.len(),
{
    if processes.len() == 0 {
        processes
    } else {
        let front = instances(processes.drop_last(), browser);
        if is_instance(processes.last(), browser) && !lists(front, processes.last()) {
            front.push(processes.last())
        } else {
            front
        }
    }
}

/// A text in lower case.
///
/// Wraps `str::to_lowercase`, whose result depends on the text alone.
#[verifier::external_body]
fn to_lowercase(s: &str) -> (r: String)
    ensures
        r@ == lowercase(s@),
{
    s.to_lowercase()
}

/// Whether a program is an instance of a browser, given both names in
/// lower case.
pub fn matches_lowered(process: &str, browser: &str) -> (r: bool)
    ensures
        r == is_substring(browser@, process@),
{
    contains(process, browser)
}

/// The names of the running instances of a browser, with a comma and a
/// space between each two. Empty where none is running.
pub fn get_matching_running_processes(process_names: &Vec<String>, name: &str) -> (r: String)
    ensures
        r@ == joined_with(instances(process_names.deep_view(), name@), ", "@),
{
    let lower_name = to_lowercase(name);
    let ghost all = process_names.deep_view();
    let mut found: Vec<String> = Vec::new();
    let mut i: usize = 0;
    assert(all.take(0) =~= Seq::<Seq<char>>::empty());
    assert(found.deep_view() =~= instances(all.take(0), name@));
    while i < process_names.len()
        invariant
            i <= process_names.len(),
            all == process_names.deep_view(),
            lower_name@ == lowercase(name@),
            found.deep_view() == instances(all.take(i as int), name@),
        decreases process_names.len() - i,
    {
        proof {
            let next = all.take(i + 1);
            assert(next.drop_last() == all.take(i as int));
            assert(next.last() == all[i as int]);
        }
        let lowered = to_lowercase(process_names[i].as_str());
        if matches_lowered(lowered.as_str(), lower_name.as_str()) && !is_listed(
            &found,
            process_names[i].as_str(),
        ) {
            let ghost before = found.deep_view();
            found.push(process_names[i].clone());
            assert(found.deep_view() =~= before.push(all[i as int]));
        }
        i = i + 1;
    }
    assert(all.take(process_names.len() as int) == all);
    join_with(&found, ", ")
}

} // verus!
