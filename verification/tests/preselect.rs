use clenzy::browser_profile::BrowserProfile;
use clenzy::profiles::preselect::preselect;

fn profile(name: &str) -> BrowserProfile {
    BrowserProfile::new(name.to_string(), format!("/data/{name}"))
}

fn hint(names: &[&str]) -> Vec<String> {
    names.iter().map(|n| n.to_string()).collect()
}

#[test]
fn empty_hint_ticks_every_profile() {
    let profiles = vec![profile("Bob"), profile("Alice"), profile("Carol")];
    assert_eq!(preselect(&profiles, &Vec::new()), vec![0, 1, 2]);
}

#[test]
fn hint_ticks_the_named_profile() {
    let profiles = vec![profile("Bob"), profile("Alice")];
    assert_eq!(preselect(&profiles, &hint(&["Alice"])), vec![1]);
}

#[test]
fn hint_without_a_match_ticks_every_profile() {
    let profiles = vec![profile("Bob"), profile("Alice")];
    assert_eq!(preselect(&profiles, &hint(&["Zed", "Yan"])), vec![0, 1]);
}

#[test]
fn ticks_follow_the_order_of_the_hint() {
    let profiles = vec![profile("Bob"), profile("Alice"), profile("Carol")];
    assert_eq!(preselect(&profiles, &hint(&["Carol", "Nobody", "Bob"])), vec![2, 0]);
}

#[test]
fn no_profile_gives_no_tick() {
    assert_eq!(preselect(&Vec::new(), &hint(&["Alice"])), Vec::<usize>::new());
}
