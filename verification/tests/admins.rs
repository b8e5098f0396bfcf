use juno_bid::admins::{can_execute, AdminList};
use juno_bid::error::ContractError;
use juno_bid::host::Addr;
use juno_bid::state::State;

#[test]
fn is_admin() {
    let admins: Vec<Addr> = vec!["bob", "paul", "john"]
        .into_iter()
        .map(Addr::unchecked)
        .collect();
    let config = AdminList {
        admins: admins.clone(),
    };

    assert!(config.is_admin(admins[0].as_str()));
    assert!(config.is_admin(admins[2].as_str()));
    assert!(!config.is_admin("other"));
}

#[test]
fn is_admin_compares_exactly() {
    let config = AdminList {
        admins: vec![Addr::unchecked("Bob"), Addr::unchecked("paul ")],
    };
    assert!(config.is_admin("Bob"));
    assert!(!config.is_admin("bob"));
    assert!(!config.is_admin("paul"));
    assert!(config.is_admin("paul "));
    assert!(!config.is_admin(""));
}

#[test]
fn is_admin_of_an_empty_list() {
    let config = AdminList { admins: vec![] };
    assert!(!config.is_admin("bob"));
}

#[test]
fn can_execute_needs_the_admins_to_be_set() {
    let state = State::new();
    assert_eq!(
        can_execute(&state, "bob"),
        Err(ContractError::ConfigurationMissing {})
    );
}

#[test]
fn can_execute_tells_admins_from_others() {
    let mut state = State::new();
    state.admins = Some(AdminList {
        admins: vec![Addr::unchecked("bob"), Addr::unchecked("paul")],
    });
    assert_eq!(can_execute(&state, "bob"), Ok(true));
    assert_eq!(can_execute(&state, "paul"), Ok(true));
    assert_eq!(can_execute(&state, "john"), Ok(false));
}
