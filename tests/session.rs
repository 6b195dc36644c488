use regcli::context::{
    AppMessage, InputChoices,
    check_folded_name, key_name_validator, value_name_validator, AppContext, AppMessageType, InputConfirm,
    InputStageType, InputType, InputValidator, LastSelected, NameError, EntryKind, NamedValue,
    OpenRequest, StoreRequest, ViewState,
};
use regcli::listing::{create_subkeys, sorted_position};
use regcli::registry::{
    get_type_choices_vec, get_type_strings_vec, str_to_type, type_to_str, RegValue, ValueType,
};
use regcli::selection::ScrollableTableState;
use regcli::text::{is_blank, str_lt, to_lower, truncate_name};

fn names(v: &[&str]) -> Vec<String> {
    v.iter().map(|s| s.to_string()).collect()
}

fn value(name: &str) -> NamedValue {
    NamedValue::new(name.to_string(), RegValue { ty: ValueType::U32, data: vec![1, 0, 0, 0] })
}

/// A session with the first root opened and listing `children`.
fn opened(children: &[&str]) -> AppContext<u32> {
    let mut ctx = AppContext::<u32>::new();
    let name = match ctx.select() {
        Some(OpenRequest::Root { index, name }) => {
            assert_eq!(index, 0);
            name
        }
        _ => panic!("the root listing opens a root"),
    };
    ctx.push_key(7, name, names(children));
    ctx
}

fn move_to(ctx: &mut AppContext<u32>, i: usize) {
    while ctx.key_table.selected < i {
        ctx.next_row();
    }
}

#[test]
fn selection_clamps_at_both_ends() {
    let mut t = ScrollableTableState::new(3);
    t.move_prev();
    assert_eq!(t.selected, 0);
    t.move_next();
    t.move_next();
    assert_eq!(t.selected, 2);
    t.move_next();
    assert_eq!(t.selected, 2);
    let mut empty = ScrollableTableState::new(0);
    empty.move_next();
    assert_eq!(empty.selected, 0);
}

#[test]
fn resize_resets_selection() {
    let mut t = ScrollableTableState::new(5);
    t.select(4);
    assert_eq!(t.position, 4);
    t.resize(2);
    assert_eq!(t.selected, 0);
    assert_eq!(t.position, 0);
    assert_eq!(t.content_length, 2);
}

#[test]
fn new_session_lists_roots() {
    let ctx = AppContext::<u32>::new();
    assert_eq!(ctx.get_path(), "Computer");
    assert_eq!(
        ctx.get_subkeys(),
        &names(&[
            "HKEY_CLASSES_ROOT",
            "HKEY_CURRENT_USER",
            "HKEY_LOCAL_MACHINE",
            "HKEY_USERS",
            "HKEY_CURRENT_CONFIG"
        ])
    );
    assert_eq!(ctx.view_state, ViewState::Keys);
    assert!(ctx.current_key().is_none());
    assert!(ctx.get_values().is_none());
    assert!(ctx.values_to_fetch().is_none());
}

#[test]
fn open_root_then_up_round_trip() {
    let mut ctx = opened(&["gamma", "alpha"]);
    assert_eq!(ctx.get_path(), "Computer -> HKEY_CLASSES_ROOT");
    assert_eq!(ctx.get_subkeys(), &names(&["..", "alpha", "gamma"]));
    assert_eq!(ctx.current_key(), Some(&7));
    assert_eq!(ctx.key_table.selected, 0);
    assert!(ctx.select().is_none());
    assert_eq!(ctx.get_path(), "Computer");
    assert!(ctx.current_key().is_none());
    assert_eq!(ctx.get_subkeys().len(), 5);
    assert_eq!(ctx.key_table.content_length, 5);
}

#[test]
fn opening_a_child_extends_the_breadcrumb() {
    let mut ctx = opened(&["Software"]);
    ctx.next_row();
    match ctx.select() {
        Some(OpenRequest::Child { name }) => {
            assert_eq!(name, "Software");
            ctx.push_key(8, name, Vec::new());
        }
        _ => panic!("an entry below the way up opens a child"),
    }
    assert_eq!(ctx.get_path(), "Computer -> HKEY_CLASSES_ROOT -> Software");
    assert_eq!(ctx.get_subkeys(), &names(&[".."]));
    assert!(ctx.select().is_none());
    assert_eq!(ctx.get_path(), "Computer -> HKEY_CLASSES_ROOT");
}

#[test]
fn sorted_insert_position() {
    let list = names(&["alpha", "gamma"]);
    assert_eq!(sorted_position(&list, 0, "beta"), 1);
    assert_eq!(sorted_position(&list, 0, "a"), 0);
    assert_eq!(sorted_position(&list, 0, "zeta"), 2);
    assert_eq!(create_subkeys(names(&["gamma", "beta", "alpha"])), names(&["..", "alpha", "beta", "gamma"]));
}

#[test]
fn created_key_goes_where_it_sorts() {
    let mut ctx = opened(&["alpha", "gamma"]);
    ctx.create();
    assert_eq!(ctx.view_state, ViewState::Input(LastSelected::Keys));
    assert_eq!(ctx.input.label, "Enter Name:");
    ctx.input.buffer = "beta".to_string();
    assert_eq!(ctx.input.validate(), Some(Ok(())));
    let request = ctx.confirm_input();
    match &request {
        Some(StoreRequest::CreateKey { name }) => assert_eq!(name, "beta"),
        _ => panic!("creating a key asks the store"),
    }
    assert!(ctx.view_state.is_input());
    ctx.finish_request(request.unwrap(), Ok(()));
    assert_eq!(ctx.get_subkeys(), &names(&["..", "alpha", "beta", "gamma"]));
    assert_eq!(ctx.key_table.selected, 2);
    assert_eq!(ctx.view_state, ViewState::Message(LastSelected::Keys));
    let message = ctx.message.as_ref().unwrap();
    assert_eq!(message.ty, AppMessageType::Info);
    assert_eq!(message.message, "New key successfully created.");
    assert!(ctx.input.confirm_fn.is_none());
    ctx.cancel_message();
    assert_eq!(ctx.view_state, ViewState::Keys);
    assert!(ctx.message.is_none());
}

#[test]
fn failed_create_leaves_listing() {
    let mut ctx = opened(&["alpha"]);
    ctx.new_key();
    ctx.input.buffer = "beta".to_string();
    let request = ctx.confirm_input().unwrap();
    ctx.finish_request(request, Err("access denied".to_string()));
    assert_eq!(ctx.get_subkeys(), &names(&["..", "alpha"]));
    let message = ctx.message.as_ref().unwrap();
    assert_eq!(message.ty, AppMessageType::Error);
    assert_eq!(message.message, "Error when creating a new key: access denied");
}

#[test]
fn duplicate_names_rejected_ignoring_case() {
    let siblings = names(&["alpha"]);
    assert_eq!(key_name_validator("Alpha", &siblings, &Vec::new()), Err(NameError::Exists));
    assert_eq!(key_name_validator("Alpha", &siblings, &names(&["alpha"])), Ok(()));
    assert_eq!(key_name_validator("beta", &siblings, &Vec::new()), Ok(()));
    let values = vec![value("Count")];
    assert_eq!(value_name_validator("COUNT", &values, &Vec::new()), Err(NameError::Exists));
    assert_eq!(value_name_validator("size", &values, &Vec::new()), Ok(()));
}

#[test]
fn name_rules() {
    let none: Vec<String> = Vec::new();
    assert_eq!(key_name_validator("", &none, &none), Err(NameError::Empty));
    assert_eq!(key_name_validator(" \t ", &none, &none), Err(NameError::Empty));
    assert_eq!(key_name_validator("a/b", &none, &none), Err(NameError::HasSlash));
    let long = "x".repeat(256);
    assert_eq!(key_name_validator(&long, &none, &none), Err(NameError::TooLong));
    assert_eq!(key_name_validator(&"x".repeat(255), &none, &none), Ok(()));
    let no_values: Vec<NamedValue> = Vec::new();
    assert_eq!(value_name_validator(&long, &no_values, &no_values), Ok(()));
    assert_eq!(
        value_name_validator(&"y".repeat(16384), &no_values, &no_values),
        Err(NameError::TooLong)
    );
    assert_eq!(NameError::Exists.message(EntryKind::Key), "This key already exists");
    assert_eq!(NameError::Exists.message(EntryKind::Value), "This value already exists");
    assert_eq!(
        NameError::HasSlash.message(EntryKind::Key),
        "Name of a key can't contain forward slashes"
    );
}

#[test]
fn staged_value_creation_takes_three_prompts() {
    let mut ctx = opened(&["alpha"]);
    ctx.next_row();
    assert_eq!(ctx.values_to_fetch(), Some("alpha".to_string()));
    ctx.store_values("alpha".to_string(), Ok(vec![value("Count")]));
    ctx.swap_viewing_table();
    assert_eq!(ctx.view_state, ViewState::Values);
    ctx.create();
    assert_eq!(ctx.view_state, ViewState::Input(LastSelected::Values));
    ctx.input.buffer = "count".to_string();
    assert_eq!(ctx.input.validate(), Some(Err("This value already exists".to_string())));
    assert!(ctx.confirm_input().is_none());
    assert!(matches!(ctx.input.confirm_fn, Some(InputConfirm::NewValue)));
    ctx.input.buffer = "Size".to_string();
    assert!(ctx.confirm_input().is_none());
    assert_eq!(ctx.view_state, ViewState::Input(LastSelected::Values));
    assert_eq!(ctx.input.label, "Choose Type:");
    match &ctx.input.ty {
        InputType::Choice(c) => {
            assert_eq!(c.items, get_type_choices_vec());
            assert_eq!(c.selected, 0);
        }
        InputType::TextArea => panic!("the kind is chosen from a list"),
    }
    ctx.next_input_choice();
    assert!(ctx.confirm_input().is_none());
    assert_eq!(ctx.view_state, ViewState::Input(LastSelected::Values));
    assert_eq!(ctx.input.label, "Enter Value:");
    match &ctx.input.confirm_fn {
        Some(InputConfirm::Stage(InputStageType::NewValueData(stage))) => {
            assert_eq!(stage.name, "Size");
            assert_eq!(stage.ty, ValueType::String);
        }
        _ => panic!("the data is asked last"),
    }
    ctx.input.buffer = "hello".to_string();
    assert!(ctx.confirm_input().is_none());
    assert_eq!(ctx.view_state, ViewState::Values);
    assert!(ctx.input.confirm_fn.is_none());
    assert!(ctx.message.is_none());
}

#[test]
fn values_are_fetched_once() {
    let mut ctx = opened(&["alpha", "beta"]);
    assert_eq!(ctx.values_to_fetch(), Some("..".to_string()));
    ctx.next_row();
    assert_eq!(ctx.values_to_fetch(), Some("alpha".to_string()));
    ctx.store_values("alpha".to_string(), Ok(vec![value("A"), value("B")]));
    assert_eq!(ctx.values_to_fetch(), None);
    assert_eq!(ctx.get_values().map(|v| v.len()), Some(2));
    assert_eq!(ctx.value_table.content_length, 2);
    ctx.store_values("alpha".to_string(), Ok(Vec::new()));
    assert_eq!(ctx.get_values().map(|v| v.len()), Some(2));
    ctx.next_row();
    assert_eq!(ctx.values_to_fetch(), Some("beta".to_string()));
    assert!(ctx.get_values().is_none());
    ctx.prev_row();
    assert_eq!(ctx.values_to_fetch(), None);
    assert_eq!(ctx.value_table.content_length, 2);
}

#[test]
fn delete_moves_selection_back() {
    let mut ctx = opened(&["a", "b", "c"]);
    move_to(&mut ctx, 3);
    ctx.delete();
    assert_eq!(ctx.input.label, "Confirm Delete:");
    ctx.next_input_choice();
    let request = ctx.confirm_input().unwrap();
    match &request {
        StoreRequest::DeleteKey { name } => assert_eq!(name, "c"),
        _ => panic!("deleting a key asks the store"),
    }
    ctx.finish_request(request, Ok(()));
    assert_eq!(ctx.get_subkeys(), &names(&["..", "a", "b"]));
    assert_eq!(ctx.key_table.selected, 2);
    assert_eq!(ctx.message.as_ref().unwrap().message, "The key has been successfully deleted.");
}

#[test]
fn delete_first_child_selects_start() {
    let mut ctx = opened(&["a", "b", "c"]);
    move_to(&mut ctx, 1);
    ctx.delete_key();
    ctx.next_input_choice();
    let request = ctx.confirm_input().unwrap();
    ctx.finish_request(request, Ok(()));
    assert_eq!(ctx.get_subkeys(), &names(&["..", "b", "c"]));
    assert_eq!(ctx.key_table.selected, 0);
}

#[test]
fn answering_no_deletes_nothing() {
    let mut ctx = opened(&["a"]);
    move_to(&mut ctx, 1);
    ctx.delete_key();
    assert!(ctx.confirm_input().is_none());
    assert_eq!(ctx.view_state, ViewState::Keys);
    assert_eq!(ctx.get_subkeys(), &names(&["..", "a"]));
}

#[test]
fn rename_replaces_in_place() {
    let mut ctx = opened(&["alpha", "beta"]);
    move_to(&mut ctx, 1);
    ctx.rename();
    assert_eq!(ctx.input.label, "Enter New Name (alpha):");
    ctx.input.buffer = "alpha".to_string();
    assert_eq!(ctx.input.validate(), Some(Err("The name of the key must be new".to_string())));
    ctx.input.buffer = "BETA".to_string();
    assert_eq!(ctx.input.validate(), Some(Err("This key already exists".to_string())));
    ctx.input.buffer = "ALPHA".to_string();
    assert_eq!(ctx.input.validate(), Some(Ok(())));
    ctx.input.buffer = "zulu".to_string();
    let request = ctx.confirm_input().unwrap();
    ctx.finish_request(request, Ok(()));
    assert_eq!(ctx.get_subkeys(), &names(&["..", "zulu", "beta"]));
    assert_eq!(ctx.message.as_ref().unwrap().message, "The key has been successfully renamed.");
}

#[test]
fn commands_need_an_opened_node() {
    let mut ctx = AppContext::<u32>::new();
    ctx.create();
    assert_eq!(ctx.view_state, ViewState::Message(LastSelected::Keys));
    assert_eq!(ctx.message.as_ref().unwrap().message, "Can't create a key here.");
    ctx.cancel_message();
    ctx.rename();
    assert_eq!(ctx.message.as_ref().unwrap().message, "Can't rename a key here.");
    ctx.cancel_message();
    let mut ctx = opened(&["a"]);
    ctx.delete();
    assert_eq!(ctx.message.as_ref().unwrap().message, "No key selected.");
    assert_eq!(ctx.message.as_ref().unwrap().ty, AppMessageType::Error);
}

#[test]
fn cancel_input_restores_pane() {
    let mut ctx = opened(&["a"]);
    ctx.swap_viewing_table();
    ctx.set_textarea_input(InputValidator::AnyText, InputConfirm::NewKey);
    assert_eq!(ctx.view_state, ViewState::Input(LastSelected::Values));
    ctx.reset_input();
    assert_eq!(ctx.view_state, ViewState::Values);
    assert_eq!(ctx.input.label, "No Input Required");
    ctx.swap_viewing_table();
    assert_eq!(ctx.view_state, ViewState::Keys);
}

#[test]
fn choices_wrap_around() {
    let mut ctx = opened(&["a"]);
    ctx.set_choice_input(names(&["x", "y", "z"]), InputConfirm::NewKey);
    ctx.prev_input_choice();
    match &ctx.input.ty {
        InputType::Choice(c) => assert_eq!(c.selected, 2),
        _ => panic!(),
    }
    ctx.next_input_choice();
    match &ctx.input.ty {
        InputType::Choice(c) => assert_eq!(c.selected, 0),
        _ => panic!(),
    }
}

#[test]
fn type_labels_round_trip() {
    assert_eq!(get_type_strings_vec().len(), 7);
    assert_eq!(get_type_choices_vec().len(), 6);
    for t in [
        ValueType::Bytes,
        ValueType::String,
        ValueType::ExpandString,
        ValueType::MultiString,
        ValueType::U32,
        ValueType::U64,
    ] {
        assert_eq!(str_to_type(type_to_str(t)), t);
    }
    assert_eq!(type_to_str(ValueType::U32), "REG_DWORD");
    assert_eq!(type_to_str(ValueType::Other(9)), "REG_NONE");
    assert_eq!(str_to_type("REG_NONE"), ValueType::Other(0));
    assert_eq!(str_to_type("nonsense"), ValueType::Other(0));
}

#[test]
fn text_helpers() {
    assert_eq!(to_lower("HKEY_Users"), "hkey_users");
    assert!(is_blank("\u{3000}\u{a0}"));
    assert!(is_blank(" \t\n"));
    assert!(is_blank(""));
    assert!(!is_blank(" a "));
    assert!(str_lt("alpha", "beta"));
    assert!(str_lt("al", "alpha"));
    assert!(!str_lt("beta", "alpha"));
    assert!(!str_lt("same", "same"));
    assert_eq!(truncate_name("short", 10, 3), "short");
    assert_eq!(truncate_name("averyverylongname", 10, 3), "ave...ame");
}

#[test]
fn accessors_and_notices() {
    let mut ctx = opened(&["a"]);
    assert!(std::ptr::eq(ctx.get_selected_table().unwrap(), &ctx.key_table));
    assert!(std::ptr::eq(ctx.get_table_by_view(ViewState::Values).unwrap(), &ctx.value_table));
    assert!(ctx.get_table_by_view(ViewState::Input(LastSelected::Keys)).is_none());
    ctx.set_message(AppMessage::info("saved"));
    assert_eq!(ctx.view_state, ViewState::Message(LastSelected::Keys));
    assert!(ctx.view_state.is_message() && !ctx.view_state.is_input());
    assert!(ctx.get_selected_table().is_none());
    ctx.set_message_with_state(AppMessage::error("failed"), LastSelected::Values);
    assert_eq!(ctx.message.as_ref().unwrap().ty, AppMessageType::Error);
    ctx.cancel_message();
    assert_eq!(ctx.view_state, ViewState::Values);
    let choices = InputChoices::new(names(&["one", "two"]));
    assert_eq!(choices.selected, 0);
    assert!(InputType::Choice(choices).is_choice());
    assert!(InputType::TextArea.is_textarea());
    ctx.new_key();
    ctx.input.buffer = "typed".to_string();
    assert_eq!(ctx.input.text(), "typed");
    ctx.change_type();
    ctx.change_data();
    ctx.rename_value();
    ctx.delete_value();
    assert_eq!(ctx.input.text(), "typed");
}

#[test]
fn folded_duplicate_rule() {
    let taken = names(&["alpha"]);
    assert_eq!(check_folded_name("Alpha", 255, "alpha", &taken, &Vec::new()), Err(NameError::Exists));
    assert_eq!(check_folded_name("Alpha", 255, "alpha", &taken, &names(&["alpha"])), Ok(()));
    assert_eq!(check_folded_name("a/b", 255, "a/b", &taken, &Vec::new()), Err(NameError::HasSlash));
}

#[test]
fn failed_value_lookup_shows_no_values() {
    let mut ctx = opened(&["alpha"]);
    ctx.next_row();
    ctx.store_values("alpha".to_string(), Err("access denied".to_string()));
    assert_eq!(ctx.values_to_fetch(), None);
    assert_eq!(ctx.get_values().map(|v| v.len()), Some(0));
}

#[test]
fn can_apply_checks_the_listing() {
    let ctx = opened(&["a", "b"]);
    assert!(ctx.can_apply(&StoreRequest::CreateKey { name: "c".to_string() }));
    assert!(!ctx.can_apply(&StoreRequest::CreateKey { name: "a".to_string() }));
    assert!(ctx.can_apply(&StoreRequest::DeleteKey { name: "b".to_string() }));
    assert!(!ctx.can_apply(&StoreRequest::DeleteKey { name: "z".to_string() }));
    assert!(!ctx.can_apply(&StoreRequest::RenameKey {
        original: "..".to_string(),
        new: "x".to_string()
    }));
    assert!(!AppContext::<u32>::new().can_apply(&StoreRequest::CreateKey { name: "c".to_string() }));
}
