use gitid::identity::GitId;
use gitid::list::GitIds;
use gitid::render::{list_ids, push_decimal};

#[test]
fn listing_of_empty_list_says_that_there_are_none() {
    assert_eq!(list_ids(&GitIds::new()), "Git IDs:\nno Git IDs have been added yet.\n");
}

#[test]
fn listing_shows_each_entry_on_two_lines_under_its_position() {
    let list = GitIds { ids: vec![GitId::new("a@x.com", "A"), GitId::new("b@x.com", "Bee Bee")] };
    assert_eq!(
        list_ids(&list),
        "Git IDs:\n0. Email: a@x.com\n   Name : A\n1. Email: b@x.com\n   Name : Bee Bee\n"
    );
}

#[test]
fn listing_counts_past_nine() {
    let ids: Vec<GitId> = (0..12).map(|i| GitId::new(&format!("{}@x", i), "n")).collect();
    let text = list_ids(&GitIds { ids });
    let mut expected = String::from("Git IDs:\n");
    for i in 0..12 {
        expected.push_str(&format!("{}. Email: {}@x\n   Name : n\n", i, i));
    }
    assert_eq!(text, expected);
    assert!(text.contains("\n10. Email: 10@x\n"));
    assert!(text.contains("\n11. Email: 11@x\n"));
}

#[test]
fn push_decimal_writes_the_digits_behind_what_is_there() {
    let mut text = String::from("n=");
    push_decimal(&mut text, 0);
    assert_eq!(text, "n=0");
    push_decimal(&mut text, 9);
    push_decimal(&mut text, 10);
    push_decimal(&mut text, 1203);
    assert_eq!(text, "n=09101203");
}

#[test]
fn push_decimal_writes_the_largest_number() {
    let mut text = String::new();
    push_decimal(&mut text, usize::MAX);
    assert_eq!(text, usize::MAX.to_string());
}
