use gitid::git::{email_report, name_report, set_email_arguments, set_name_arguments};
use gitid::identity::GitId;

#[test]
fn email_is_set_with_three_arguments() {
    let id = GitId::new("a@x.com", "Ann Lee");
    assert_eq!(set_email_arguments(&id), vec!["config", "user.email", "a@x.com"]);
}

#[test]
fn name_is_set_between_double_quotes() {
    let id = GitId::new("a@x.com", "Ann Lee");
    assert_eq!(set_name_arguments(&id), vec!["config", "user.name", "\"Ann Lee\""]);
}

#[test]
fn empty_name_is_set_as_two_double_quotes() {
    let id = GitId::new("a@x.com", "");
    assert_eq!(set_name_arguments(&id), vec!["config", "user.name", "\"\""]);
}

#[test]
fn each_call_is_reported_by_itself() {
    assert_eq!(email_report(true), "Set email in current repo.\n");
    assert_eq!(email_report(false), "Failed to set email in current repo.\n");
    assert_eq!(name_report(true), "Set name in current repo.\n");
    assert_eq!(name_report(false), "Failed to set name in current repo.\n");
}
