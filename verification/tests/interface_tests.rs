use docgen::interface::ask::{
    ask_for_transactions, ask_user, ask_user_nonempty, ask_user_parse, map_get_str_or_ask, Parsed,
    Recovered, TransactionEntry,
};
use docgen::interface::select_from_list;
use docgen::interface::select_list::ListKey::{Down, Enter, Other, Up};
use docgen::interface::select_list::{ListKey, SelectFromList};
use docgen::lang::import_lang_profile;

fn replies(list: &[&str]) -> Vec<String> {
    list.iter().map(|s| s.to_string()).collect()
}

#[test]
fn an_empty_description_ends_the_entry() {
    let tx = ask_for_transactions(&replies(&["Design", "2", "10.00", "Hosting", "1", "5", "", "ignored", "1", "1"]));
    assert_eq!(tx.len(), 2);
    assert_eq!(tx[0].0, "Design");
    assert_eq!(tx[0].1.raw(), 20_000);
    assert_eq!(tx[0].2.raw(), 100_000);
    assert_eq!(tx[1].0, "Hosting");
    assert_eq!(tx[1].2.raw(), 50_000);
    assert!(ask_for_transactions(&replies(&[""])).is_empty());
    assert!(ask_for_transactions(&[]).is_empty());
}

#[test]
fn a_reply_that_is_no_number_is_asked_again() {
    let tx = ask_for_transactions(&replies(&["Design", "two", "", "2", "ten", "", "10", ""]));
    assert_eq!(tx.len(), 1);
    assert_eq!(tx[0].1.raw(), 20_000);
    assert_eq!(tx[0].2.raw(), 100_000);
}

#[test]
fn an_unfinished_line_is_not_counted() {
    let tx = ask_for_transactions(&replies(&["Design", "2", "10", "Hosting", "1"]));
    assert_eq!(tx.len(), 1);
}

#[test]
fn questions_follow_the_stage_of_the_entry() {
    let (lang, _) = import_lang_profile(None).unwrap();
    let mut entry = TransactionEntry::new();
    assert!(!entry.finished());
    assert_eq!(entry.question(&lang).unwrap().unwrap(), "\nEnter data about transaction 1: \nDescription: ");
    entry.answer("Design");
    assert_eq!(entry.question(&lang).unwrap().unwrap(), "Units: ");
    entry.answer("x");
    assert_eq!(entry.question(&lang).unwrap().unwrap(), "Units: ");
    entry.answer("2");
    assert_eq!(entry.question(&lang).unwrap().unwrap(), "Price per unit: ");
    entry.answer("10");
    assert_eq!(entry.question(&lang).unwrap().unwrap(), "\nEnter data about transaction 2: \nDescription: ");
    entry.answer("");
    assert!(entry.finished());
    assert_eq!(entry.question(&lang).unwrap(), None);
    entry.answer("late");
    assert!(entry.finished());
    assert_eq!(entry.lines().len(), 1);
    let (poor, _) = import_lang_profile(Some("")).unwrap();
    assert!(TransactionEntry::new().question(&poor).is_err());
}

#[test]
fn replies_are_read_without_the_space_around_them() {
    assert_eq!(ask_user("  yes \n"), "yes");
    assert_eq!(ask_user("\n"), "");
    assert_eq!(ask_user("a b"), "a b");
}

#[test]
fn numbers_are_read_or_asked_again() {
    assert!(matches!(ask_user_parse(""), Parsed::Nothing));
    assert!(matches!(ask_user_parse("1.5"), Parsed::Number(d) if d.raw() == 15_000));
    assert!(matches!(ask_user_parse("one"), Parsed::Again));
    assert_eq!(ask_user_nonempty(""), None);
    assert_eq!(ask_user_nonempty("Bob").as_deref(), Some("Bob"));
}

#[test]
fn only_missing_fields_are_asked_for() {
    assert!(matches!(map_get_str_or_ask(Some("Bob".to_string()), true), Recovered::Kept(ref s) if s == "Bob"));
    assert!(matches!(map_get_str_or_ask(Some("".to_string()), true), Recovered::Kept(ref s) if s.is_empty()));
    assert!(matches!(map_get_str_or_ask(None, true), Recovered::AskNonEmpty));
    assert!(matches!(map_get_str_or_ask(None, false), Recovered::Ask));
}

#[test]
fn the_mark_moves_with_the_keys_and_stops_at_the_ends() {
    assert_eq!(select_from_list(3, &[Enter]), Some(0));
    assert_eq!(select_from_list(3, &[Down, Enter]), Some(1));
    assert_eq!(select_from_list(3, &[Down, Down, Down, Down, Enter]), Some(2));
    assert_eq!(select_from_list(3, &[Up, Enter]), Some(0));
    assert_eq!(select_from_list(3, &[Down, Down, Up, Other, Enter, Down, Enter]), Some(1));
    assert_eq!(select_from_list(3, &[Down, Down]), None);
    assert_eq!(select_from_list(3, &[]), None);
    assert_eq!(select_from_list(0, &[Down, Enter]), Some(0));
    assert_eq!(select_from_list(1, &[Down, Enter]), Some(0));
}

#[test]
fn a_list_takes_one_key_at_a_time() {
    let mut list = SelectFromList::init(2);
    assert_eq!(list.selected(), 0);
    assert!(!list.handle_events(None));
    assert!(!list.handle_events(Some(ListKey::Down)));
    assert_eq!(list.selected(), 1);
    assert!(!list.handle_events(Some(ListKey::Down)));
    assert_eq!(list.selected(), 1);
    assert!(list.handle_events(Some(ListKey::Enter)));
    assert_eq!(list.selected(), 1);
    assert!(!list.exec(&[ListKey::Up]));
    assert_eq!(list.selected(), 0);
    assert!(list.exec(&[ListKey::Down, ListKey::Enter, ListKey::Up]));
    assert_eq!(list.selected(), 1);
}
