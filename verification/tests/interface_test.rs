use novelter::interface::{
    delete_command, filtered_commands, get_default_commands, page_for_header_index,
    process_sudo_command, redactor_add_command, AppSettings, CommandInfo, Config, Footer, Header,
    OutputState, Page, System,
};

#[test]
fn root_commands_need_no_elevation_helper() {
    let cmd = "apt update".to_string();
    assert_eq!(process_sudo_command(&cmd, true, &None), Ok(cmd.clone()));
    assert_eq!(
        process_sudo_command(&"pkexec apt update".to_string(), false, &None),
        Ok("pkexec apt update".to_string())
    );
    assert_eq!(
        process_sudo_command(&cmd, false, &Some("pkexec".to_string())),
        Ok("pkexec apt update".to_string())
    );
    assert!(process_sudo_command(&cmd, false, &None).is_err());
}

#[test]
fn system_matching_honours_the_wildcard() {
    assert!(System::Linux.matches_current(System::Linux));
    assert!(!System::Linux.matches_current(System::Windows));
    assert!(System::Any.matches_current(System::Linux));
    assert!(System::Any.matches_current(System::MacOS));
    assert!(!System::Windows.matches_current(System::MacOS));
}

#[test]
fn all_systems_in_display_order() {
    assert_eq!(System::all(), vec![System::Linux, System::Windows, System::MacOS, System::Any]);
}

#[test]
fn toggling_one_system_rederives_the_all_flag() {
    let mut settings = AppSettings::default();
    assert!(settings.show_all);
    settings.toggle_system(System::Linux);
    assert!(!settings.show_linux);
    assert!(settings.show_windows);
    assert!(!settings.show_all);
    settings.toggle_system(System::Linux);
    assert!(settings.show_linux);
    assert!(settings.show_all);
}

#[test]
fn toggling_all_flips_everything() {
    let mut settings = AppSettings::default();
    settings.toggle_all();
    assert!(!settings.show_linux && !settings.show_windows);
    assert!(!settings.show_macos && !settings.show_another && !settings.show_all);
    settings.toggle_all();
    assert!(settings.show_linux && settings.show_all);
}

#[test]
fn filtering_keeps_catalogue_order() {
    let commands = vec![
        CommandInfo::new("a", "a", System::Linux, true, false),
        CommandInfo::new("b", "b", System::Windows, true, false),
        CommandInfo::new("c", "c", System::Any, true, false),
        CommandInfo::new("d", "d", System::Linux, true, false),
    ];
    let mut settings = AppSettings::default();
    assert_eq!(filtered_commands(&commands, &settings), vec![0, 1, 2, 3]);
    settings.toggle_system(System::Linux);
    assert_eq!(filtered_commands(&commands, &settings), vec![1, 2]);
    settings.toggle_system(System::Any);
    assert_eq!(filtered_commands(&commands, &settings), vec![1]);
}

#[test]
fn default_catalogue_is_built_in() {
    let commands = get_default_commands();
    assert_eq!(commands.len(), 41);
    assert!(commands.iter().all(|c| c.default_command));
    assert_eq!(commands[0].title, "Create test file");
    assert_eq!(commands[0].command, "touch testfile.txt");
    assert_eq!(Config::default().commands.len(), 41);
}

#[test]
fn adding_a_command_requires_both_fields() {
    let mut commands = Vec::new();
    assert!(!redactor_add_command(
        &mut commands,
        &"".to_string(),
        &"ls".to_string(),
        System::Any,
        false
    ));
    assert!(!redactor_add_command(
        &mut commands,
        &"List".to_string(),
        &"".to_string(),
        System::Any,
        false
    ));
    assert_eq!(commands.len(), 0);
    assert!(redactor_add_command(
        &mut commands,
        &"List".to_string(),
        &"ls".to_string(),
        System::Linux,
        true
    ));
    assert_eq!(commands.len(), 1);
    assert_eq!(commands[0].title, "List");
    assert!(!commands[0].default_command);
    assert!(commands[0].need_root);
}

#[test]
fn only_user_commands_can_be_deleted() {
    let mut commands = vec![
        CommandInfo::new("built in", "x", System::Any, true, false),
        CommandInfo::new("mine", "y", System::Any, false, false),
    ];
    assert!(!delete_command(&mut commands, 0));
    assert_eq!(commands.len(), 2);
    assert!(delete_command(&mut commands, 1));
    assert_eq!(commands.len(), 1);
    assert!(!delete_command(&mut commands, 5));
}

#[test]
fn output_panel_text_lifecycle() {
    let mut output = OutputState::new();
    assert_eq!(output.get_text(), "");
    output.set_text("hello");
    assert_eq!(output.get_text(), "hello");
    output.append_text(" world");
    assert_eq!(output.get_text(), "hello world");
    output.clear();
    assert_eq!(output.get_text(), "");
}

#[test]
fn header_indices_navigate_pages() {
    assert_eq!(page_for_header_index(0), Some(Page::Home));
    assert_eq!(page_for_header_index(1), Some(Page::Redactor));
    assert_eq!(page_for_header_index(2), Some(Page::Settings));
    assert_eq!(page_for_header_index(3), Some(Page::About));
    assert_eq!(page_for_header_index(4), None);
}

#[test]
fn layout_defaults() {
    let header = Header::default();
    assert!(header.hovered_index.is_none());
    let footer = Footer::default();
    assert_eq!(footer.words, vec!["Privacy", "Terms", "Copyright"]);
    assert!(footer.hovered_index.is_none());
}
