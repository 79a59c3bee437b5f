use nd_secure::commands::{
    validate_command_input, validate_env_import_input, validate_environment_input, validate_project_root_input,
    validate_registration_input,
};

#[test]
fn project_command_inputs_are_bounded() {
    assert!(validate_project_root_input("/tmp/todo").is_ok());
    assert_eq!(validate_project_root_input(&"a".repeat(32 * 1024 + 1)), Err("project path is too long".to_string()));

    let environments = vec!["dev".to_string()];
    assert!(validate_registration_input("/tmp/todo", "todo", &environments).is_ok());
    assert_eq!(
        validate_registration_input("/tmp/todo", &"n".repeat(257), &environments),
        Err("project registration input is too large".to_string())
    );
    let many: Vec<String> = (0..33).map(|i| format!("env{i}")).collect();
    assert!(validate_registration_input("/tmp/todo", "todo", &many).is_err());

    assert!(validate_environment_input("prod").is_ok());
    assert_eq!(validate_environment_input(&"e".repeat(65)), Err("project environment name is too long".to_string()));

    assert!(validate_env_import_input("dev", ".env").is_ok());
    assert_eq!(
        validate_env_import_input("dev", &"f".repeat(513)),
        Err("project environment import input is too large".to_string())
    );

    let args = vec!["--flag".to_string()];
    assert!(validate_command_input("dev", "npm", &args).is_ok());
    let too_many: Vec<String> = (0..257).map(|i| i.to_string()).collect();
    assert_eq!(validate_command_input("dev", "npm", &too_many), Err("project command input is too large".to_string()));
    assert!(validate_command_input("dev", &"p".repeat(4097), &args).is_err());
}
