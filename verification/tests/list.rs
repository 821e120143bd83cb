use gitid::error::GitIdError;
use gitid::identity::GitId;
use gitid::list::GitIds;
use gitid::order::email_not_after;

fn book(entries: &[(&str, &str)]) -> GitIds {
    GitIds { ids: entries.iter().map(|(e, n)| GitId::new(e, n)).collect() }
}

fn pairs(list: &GitIds) -> Vec<(String, String)> {
    list.ids.iter().map(|id| (id.email.clone(), id.name.clone())).collect()
}

fn owned(entries: &[(&str, &str)]) -> Vec<(String, String)> {
    entries.iter().map(|(e, n)| (e.to_string(), n.to_string())).collect()
}

#[test]
fn new_identity_keeps_both_fields() {
    let id = GitId::new("a@x.com", "A");
    assert_eq!(id.email, "a@x.com");
    assert_eq!(id.name, "A");
}

#[test]
fn identities_are_equal_when_both_fields_are() {
    assert_eq!(GitId::new("a@x.com", "A"), GitId::new("a@x.com", "A"));
    assert_ne!(GitId::new("a@x.com", "A"), GitId::new("a@x.com", "B"));
    assert_ne!(GitId::new("a@x.com", "A"), GitId::new("b@x.com", "A"));
}

#[test]
fn clone_of_identity_is_equal() {
    let id = GitId::new("a@x.com", "A");
    assert_eq!(id.clone(), id);
}

#[test]
fn new_list_is_empty() {
    assert_eq!(GitIds::new().len(), 0);
}

#[test]
fn add_to_empty_list_gives_one_entry() {
    let mut list = GitIds::new();
    list.add(GitId::new("a@x.com", "A"));
    assert_eq!(pairs(&list), owned(&[("a@x.com", "A")]));
}

#[test]
fn add_twice_is_add_once() {
    let mut once = book(&[("m@x.com", "M")]);
    once.add(GitId::new("a@x.com", "A"));
    let mut twice = book(&[("m@x.com", "M")]);
    twice.add(GitId::new("a@x.com", "A"));
    twice.add(GitId::new("a@x.com", "A"));
    assert_eq!(pairs(&once), pairs(&twice));
    assert_eq!(twice.len(), 2);
}

#[test]
fn add_keeps_identity_with_same_email_and_other_name() {
    let mut list = book(&[("a@x.com", "A")]);
    list.add(GitId::new("a@x.com", "B"));
    assert_eq!(pairs(&list), owned(&[("a@x.com", "A"), ("a@x.com", "B")]));
}

#[test]
fn add_puts_list_in_order_of_email() {
    let mut list = GitIds::new();
    list.add(GitId::new("c@x.com", "C"));
    list.add(GitId::new("a@x.com", "A"));
    list.add(GitId::new("b@x.com", "B"));
    assert_eq!(pairs(&list), owned(&[("a@x.com", "A"), ("b@x.com", "B"), ("c@x.com", "C")]));
}

#[test]
fn add_sorts_a_list_that_was_not_in_order() {
    let mut list = book(&[("z@x.com", "Z"), ("b@x.com", "B"), ("y@x.com", "Y")]);
    list.add(GitId::new("a@x.com", "A"));
    assert_eq!(
        pairs(&list),
        owned(&[("a@x.com", "A"), ("b@x.com", "B"), ("y@x.com", "Y"), ("z@x.com", "Z")])
    );
}

#[test]
fn add_of_an_entry_leaves_an_unordered_list_as_it_is() {
    let mut list = book(&[("z@x.com", "Z"), ("b@x.com", "B")]);
    list.add(GitId::new("b@x.com", "B"));
    assert_eq!(pairs(&list), owned(&[("z@x.com", "Z"), ("b@x.com", "B")]));
}

#[test]
fn sort_is_stable() {
    let mut list = book(&[("b@x.com", "2"), ("a@x.com", "9"), ("b@x.com", "1"), ("a@x.com", "3")]);
    list.sort_by_email();
    assert_eq!(
        pairs(&list),
        owned(&[("a@x.com", "9"), ("a@x.com", "3"), ("b@x.com", "2"), ("b@x.com", "1")])
    );
}

#[test]
fn sort_agrees_with_the_standard_stable_sort() {
    let entries = [
        ("bob@example.org", "Bob"),
        ("Bob@example.org", "Upper"),
        ("alice@example.org", "Alice"),
        ("", "Nobody"),
        ("bob@example.org", "Robert"),
        ("ärger@example.org", "Umlaut"),
        ("bob", "Short"),
        ("zed@example.org", "Zed"),
        ("alice@example.org", "Al"),
    ];
    let mut list = book(&entries);
    list.sort_by_email();
    let mut expected = owned(&entries);
    expected.sort_by(|a, b| a.0.cmp(&b.0));
    assert_eq!(pairs(&list), expected);
}

#[test]
fn email_order_is_the_order_of_strings() {
    let samples = ["", "a", "A", "ab", "b", "a@x.com", "a@x.co", "é", "z", "\u{10000}", "\u{ffff}"];
    for a in samples {
        for b in samples {
            assert_eq!(email_not_after(a, b), a <= b);
        }
    }
}

#[test]
fn contains_compares_both_fields() {
    let list = book(&[("a@x.com", "A"), ("b@x.com", "B")]);
    assert!(list.contains(&GitId::new("b@x.com", "B")));
    assert!(!list.contains(&GitId::new("b@x.com", "A")));
    assert!(!list.contains(&GitId::new("c@x.com", "B")));
}

#[test]
fn remove_takes_out_one_entry_and_keeps_the_order_of_the_others() {
    let mut list = book(&[("a@x.com", "A"), ("b@x.com", "B"), ("c@x.com", "C"), ("d@x.com", "D")]);
    assert_eq!(list.remove(1), Ok(()));
    assert_eq!(pairs(&list), owned(&[("a@x.com", "A"), ("c@x.com", "C"), ("d@x.com", "D")]));
    assert!(!list.contains(&GitId::new("b@x.com", "B")));
}

#[test]
fn remove_first_and_last() {
    let mut list = book(&[("a@x.com", "A"), ("b@x.com", "B"), ("c@x.com", "C")]);
    assert_eq!(list.remove(2), Ok(()));
    assert_eq!(list.remove(0), Ok(()));
    assert_eq!(pairs(&list), owned(&[("b@x.com", "B")]));
}

#[test]
fn remove_behind_the_end_fails_and_changes_nothing() {
    let mut list = book(&[("a@x.com", "A"), ("b@x.com", "B")]);
    assert_eq!(list.remove(2), Err(GitIdError::IndexError));
    assert_eq!(list.remove(usize::MAX), Err(GitIdError::IndexError));
    assert_eq!(pairs(&list), owned(&[("a@x.com", "A"), ("b@x.com", "B")]));
}

#[test]
fn remove_from_empty_list_fails() {
    let mut list = GitIds::new();
    assert_eq!(list.remove(0), Err(GitIdError::IndexError));
    assert_eq!(list.len(), 0);
}

#[test]
fn get_gives_the_entry_at_a_position() {
    let list = book(&[("a@x.com", "A"), ("b@x.com", "B")]);
    assert_eq!(list.get(1), Ok(&GitId::new("b@x.com", "B")));
    assert_eq!(list.get(0), Ok(&GitId::new("a@x.com", "A")));
}

#[test]
fn get_behind_the_end_fails() {
    let list = book(&[("a@x.com", "A")]);
    assert_eq!(list.get(1), Err(GitIdError::IndexError));
}
