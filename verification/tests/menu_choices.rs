use meroshare::menu::{
    confirmation, menu_action, menu_action_for_line, serial_index, tag_for_choice,
    user_has_tag, users_path_from_args, users_path_from_input, users_with_tag, wants_menu,
    Action, Confirmation, UsersPath,
};
use meroshare::models::{IPOAppliedResult, IPOResult, User};

fn tagged(name: &str, tags: &[&str]) -> User {
    User {
        dp: "1".to_string(),
        username: name.to_string(),
        password: "p".to_string(),
        crn: "c".to_string(),
        pin: "0".to_string(),
        name: name.to_string(),
        bank_index: 1,
        tags: tags.iter().map(|t| t.to_string()).collect(),
    }
}

#[test]
fn menu_keys() {
    assert_eq!(menu_action('1'), Ok(Action::ListOpenShares));
    assert_eq!(menu_action('2'), Ok(Action::ListResultShares));
    assert_eq!(menu_action('3'), Ok(Action::ViewPortfolio));
    assert_eq!(menu_action('4'), Ok(Action::ViewTransactions));
    assert_eq!(menu_action('5'), Ok(Action::CalculateProfit));
    assert_eq!(menu_action('6'), Err("Invalid Selection".to_string()));
    assert_eq!(menu_action('m'), Err("Invalid Selection".to_string()));
}

#[test]
fn menu_lines() {
    assert_eq!(menu_action_for_line(" 3\n"), Ok(Action::ViewPortfolio));
    assert_eq!(menu_action_for_line("12\n"), Err("Invalid Selection".to_string()));
    assert_eq!(menu_action_for_line("\n"), Err("Invalid Selection".to_string()));
    assert_eq!(menu_action_for_line("0"), Err("Invalid Selection".to_string()));
}

#[test]
fn menu_again_only_on_m() {
    assert!(wants_menu('m'));
    assert!(!wants_menu('M'));
    assert!(!wants_menu('q'));
}

#[test]
fn serial_numbers_count_from_one() {
    assert_eq!(serial_index(1, 3), Some(0));
    assert_eq!(serial_index(3, 3), Some(2));
    assert_eq!(serial_index(0, 3), None);
    assert_eq!(serial_index(4, 3), None);
    assert_eq!(serial_index(1, 0), None);
}

#[test]
fn confirmations() {
    assert_eq!(confirmation('y'), Confirmation::Yes);
    assert_eq!(confirmation('n'), Confirmation::No);
    assert_eq!(confirmation('Y'), Confirmation::Invalid);
}

#[test]
fn only_the_family_tag_is_offered() {
    assert_eq!(tag_for_choice('1'), Some("family".to_string()));
    assert_eq!(tag_for_choice('2'), None);
}

#[test]
fn tagged_users_in_order() {
    let users = vec![
        tagged("a", &["family"]),
        tagged("b", &[]),
        tagged("c", &["work", "family"]),
        tagged("d", &["Family"]),
    ];
    let family = "family".to_string();
    assert_eq!(users_with_tag(&users, &family), vec![0, 2]);
    assert!(user_has_tag(&users[2], &family));
    assert!(!user_has_tag(&users[3], &family));
    assert_eq!(users_with_tag(&vec![], &family), Vec::<usize>::new());
}

#[test]
fn application_status_colours() {
    let ok = IPOAppliedResult { message: "done".to_string(), status: "CREATED".to_string() };
    let bad = IPOAppliedResult { message: "x".to_string(), status: "Not Applied".to_string() };
    assert!(ok.succeeded());
    assert!(!bad.succeeded());
}

#[test]
fn result_status_colours() {
    assert!(IPOResult { status: "Alloted".to_string() }.succeeded());
    assert!(!IPOResult { status: "Not Alloted".to_string() }.succeeded());
    assert!(!IPOResult { status: "Rejected".to_string() }.succeeded());
    assert!(!IPOResult { status: "Application Rejected".to_string() }.succeeded());
}

#[test]
fn users_path_choice() {
    assert!(matches!(users_path_from_args(Some("x.json"), true), UsersPath::Use(p) if p == "x.json"));
    assert!(matches!(users_path_from_args(None, true), UsersPath::Use(p) if p == "users.json"));
    assert!(matches!(users_path_from_args(None, false), UsersPath::Ask));
    assert_eq!(users_path_from_input("  my/users.json \n"), Some("my/users.json".to_string()));
    assert_eq!(users_path_from_input("   \n"), None);
}

#[test]
fn users_file_defaults() {
    let s = |x: &str| x.to_string();
    let u = User::from_entry(s("13700"), s("u"), s("p"), s("c"), s("1"), s("N"), None, None);
    assert_eq!(u.bank_index, 1);
    assert!(u.tags.is_empty());
    let u = User::from_entry(s("13700"), s("u"), s("p"), s("c"), s("1"), s("N"), Some(2), Some(vec![s("family")]));
    assert_eq!(u.bank_index, 2);
    assert_eq!(u.tags, vec![s("family")]);
    assert_eq!(u.dp, "13700");
}

use meroshare::menu::{first_char, menu_step, tag_for_line, users_path_or_default, MenuEffect, MenuState};

#[test]
fn menu_loop_steps() {
    assert_eq!(
        menu_step(MenuState::AwaitingAction, '3'),
        (MenuState::AwaitingContinue, MenuEffect::Perform(Action::ViewPortfolio))
    );
    assert_eq!(
        menu_step(MenuState::AwaitingAction, 'x'),
        (MenuState::AwaitingAction, MenuEffect::InvalidChoice)
    );
    assert_eq!(
        menu_step(MenuState::AwaitingContinue, 'm'),
        (MenuState::AwaitingAction, MenuEffect::ShowMenu)
    );
    assert_eq!(menu_step(MenuState::AwaitingContinue, 'q'), (MenuState::Done, MenuEffect::Quit));
    assert_eq!(menu_step(MenuState::Done, '1'), (MenuState::Done, MenuEffect::Quit));
}

#[test]
fn one_shot_prompts() {
    assert_eq!(first_char(" y\n"), Some(' '));
    assert_eq!(first_char("y\n"), Some('y'));
    assert_eq!(first_char(""), None);
    assert_eq!(users_path_or_default("\n"), "users.json");
    assert_eq!(users_path_or_default(" a.json \n"), "a.json");
    assert_eq!(tag_for_line(" 1 \n"), Some("family".to_string()));
    assert_eq!(tag_for_line("1x\n"), None);
    assert_eq!(tag_for_line("\n"), None);
}
