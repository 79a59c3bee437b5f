use nd_secure::env::{
    gitignore_update, is_plaintext_env_name, join, merge_env_example_keys, parse_env_assignment,
    parse_env_example_keys, parse_env_file_values, parse_env_value, partition_required_keys,
    plaintext_env_files, plan_env_import, require_all_secrets, suggested_project_name,
    validate_env_file_environment, validate_env_key, validate_environment_name, validate_environments,
    validate_program, validate_project_name, validate_registered_environment, value_free_env_example,
    ProjectCommandResult, ProjectEnvImportResult, ProjectEnvironmentStatus, ProjectRegistration,
};
use nd_secure::error::VaultError;

const MANAGED: &str = "# >>> ND Secure plaintext environment files >>>\n.env\n.env.*\n!.env.example\n# <<< ND Secure plaintext environment files <<<\n";

fn strings(items: &[&str]) -> Vec<String> {
    items.iter().map(|item| item.to_string()).collect()
}

fn pairs(items: &[(&str, &str)]) -> Vec<(String, String)> {
    items.iter().map(|(k, v)| (k.to_string(), v.to_string())).collect()
}

fn registration() -> ProjectRegistration {
    ProjectRegistration {
        id: "00000000-0000-0000-0000-000000000000".into(),
        name: "todo".into(),
        root: "/tmp/todo".into(),
        environments: vec!["dev".into(), "prod".into()],
        required_keys: strings(&["API_TOKEN", "DATABASE_URL"]),
        created_at: 1,
        updated_at: 1,
    }
}

fn invalid_detail(error: VaultError) -> String {
    match error {
        VaultError::InvalidInput(detail) => detail,
        other => panic!("unexpected error {other:?}"),
    }
}

#[test]
fn env_example_parser_only_returns_key_names() {
    let keys = parse_env_example_keys(
        "# safe schema\nDATABASE_URL=postgres://example.invalid\nexport API_TOKEN=placeholder\nEMPTY=\n",
    )
    .unwrap();
    assert_eq!(keys, vec!["API_TOKEN", "DATABASE_URL", "EMPTY"]);
}

#[test]
fn plaintext_env_detection_only_trusts_the_main_example_file() {
    let names = strings(&[".env", ".env.prod", ".env.example", ".env.prod.example", ".env.sample", "README.md"]);
    assert_eq!(
        plaintext_env_files(&names),
        vec![".env", ".env.prod", ".env.prod.example", ".env.sample"]
    );
    assert!(!is_plaintext_env_name(".env.example"));
    assert!(is_plaintext_env_name(".env"));
}

#[test]
fn sanitize_env_example_removes_all_values_and_untrusted_comments() {
    let keys = parse_env_example_keys(
        "# password=leaked-in-comment\nDATABASE_URL=postgres://secret\nAPI_TOKEN=secret-token\n",
    )
    .unwrap();
    let sanitized = value_free_env_example(&keys).unwrap();
    assert!(sanitized.contains("API_TOKEN=\n"));
    assert!(sanitized.contains("DATABASE_URL=\n"));
    assert!(!sanitized.contains("postgres://secret"));
    assert!(!sanitized.contains("secret-token"));
    assert!(!sanitized.contains("leaked-in-comment"));
}

#[test]
fn value_free_example_is_the_header_then_sorted_keys() {
    let text = value_free_env_example(&strings(&["B", "A", "B"])).unwrap();
    assert_eq!(
        text,
        "# Managed by ND Secure. This file intentionally contains key names only.\n# Real values live in the encrypted vault and are injected only when authorized.\nA=\nB=\n"
    );
    assert_eq!(
        invalid_detail(value_free_env_example(&strings(&["1BAD"])).unwrap_err()),
        "invalid environment key: 1BAD"
    );
}

#[test]
fn environment_specific_file_cannot_be_imported_into_another_environment() {
    let registration = registration();
    assert!(validate_env_file_environment(&registration, ".env.prod", "prod").is_ok());
    assert!(validate_env_file_environment(&registration, ".env.prod.local", "prod").is_ok());
    assert!(validate_env_file_environment(&registration, ".env.prod", "dev").is_err());
    assert!(validate_env_file_environment(&registration, ".env", "dev").is_ok());
}

#[test]
fn unquoted_inline_comments_are_not_migrated_as_secret_data() {
    assert_eq!(parse_env_value("secret-value # developer note").unwrap(), "secret-value");
    assert_eq!(parse_env_value("value#part").unwrap(), "value#part");
}

#[test]
fn quoted_values_are_unescaped() {
    assert_eq!(parse_env_value("\"a\\nb # kept\"").unwrap(), "a\nb # kept");
    assert_eq!(parse_env_value("'single # kept'").unwrap(), "single # kept");
}

#[test]
fn assignments_accept_export_and_skip_comments() {
    assert_eq!(
        parse_env_assignment("export KEY=value").unwrap(),
        Some(("KEY".to_string(), "value".to_string()))
    );
    assert_eq!(parse_env_assignment("# note").unwrap(), None);
    assert_eq!(parse_env_assignment("   ").unwrap(), None);
    assert!(parse_env_assignment("NOT AN ASSIGNMENT").is_err());
}

#[test]
fn env_file_values_are_read_in_key_order() {
    let values = parse_env_file_values("B=2\n# c\nA=1\n").unwrap();
    assert_eq!(values, pairs(&[("A", "1"), ("B", "2")]));
}

#[test]
fn keys_and_names_are_validated() {
    assert!(validate_env_key("API_TOKEN").is_ok());
    assert_eq!(invalid_detail(validate_env_key("").unwrap_err()), "invalid environment key");
    assert_eq!(invalid_detail(validate_env_key("A-B").unwrap_err()), "invalid environment key: A-B");
    assert!(validate_env_key("A-B").is_err());
    assert!(validate_environment_name("prod").is_ok());
    assert!(validate_environment_name("Prod.v2").is_ok());
    assert_eq!(invalid_detail(validate_environment_name("pr od").unwrap_err()), "invalid project environment name");
    assert_eq!(validate_project_name("  todo  ").unwrap(), "todo");
    assert!(validate_project_name("   ").is_err());
    assert!(validate_project_name("a\u{7}b").is_err());
}

#[test]
fn environments_are_validated_and_deduplicated() {
    assert_eq!(validate_environments(strings(&["prod", "dev", "prod"])).unwrap(), vec!["dev", "prod"]);
    assert!(validate_environments(Vec::new()).is_err());
}

#[test]
fn registered_environment_must_be_known() {
    let registration = registration();
    assert!(validate_registered_environment(&registration, "dev").is_ok());
    assert!(validate_registered_environment(&registration, "staging").is_err());
}

#[test]
fn example_keys_merge_into_a_sorted_set() {
    let merged = merge_env_example_keys(&strings(&["A", "C"]), &strings(&["B", "A"])).unwrap();
    assert_eq!(merged, vec!["A", "B", "C"]);
}

#[test]
fn gitignore_block_is_added_once_and_replaced_in_place() {
    assert_eq!(gitignore_update("").unwrap(), MANAGED);
    assert_eq!(gitignore_update("target").unwrap(), format!("target\n\n{MANAGED}"));
    let existing = format!("top\n# >>> ND Secure plaintext environment files >>>\nold\n# <<< ND Secure plaintext environment files <<<\n\nrest");
    assert_eq!(gitignore_update(&existing).unwrap(), format!("top\n{MANAGED}rest\n"));
    assert_eq!(
        invalid_detail(gitignore_update("# <<< ND Secure plaintext environment files <<<").unwrap_err()),
        "existing ND Secure .gitignore block is malformed"
    );
}

#[test]
fn import_refuses_conflicts_and_skips_stored_values() {
    let parsed = pairs(&[("A", "1"), ("B", "2"), ("C", "3")]);
    let existing = pairs(&[("B", "2")]);
    let plan = plan_env_import(&parsed, &existing).unwrap();
    assert_eq!(plan.to_save, pairs(&[("A", "1"), ("C", "3")]));
    assert_eq!(plan.existing_keys, vec!["B"]);
    let result = ProjectEnvImportResult::from_plan(&plan, true);
    assert_eq!(result.imported_keys, vec!["A", "C"]);
    assert_eq!(result.existing_keys, vec!["B"]);
    assert!(result.source_removed && result.rotation_recommended);

    let conflicting = pairs(&[("A", "9"), ("B", "8")]);
    let stored = pairs(&[("A", "1"), ("B", "2")]);
    assert_eq!(
        invalid_detail(plan_env_import(&conflicting, &stored).err().unwrap()),
        "vault already contains different values for: A, B"
    );
    assert_eq!(
        invalid_detail(plan_env_import(&Vec::new(), &stored).err().unwrap()),
        "environment file contains no values"
    );
}

#[test]
fn required_keys_are_split_by_presence() {
    let registration = registration();
    let secrets = pairs(&[("DATABASE_URL", "x")]);
    let (present, missing) = partition_required_keys(&registration.required_keys, &secrets);
    assert_eq!(present, vec!["DATABASE_URL"]);
    assert_eq!(missing, vec!["API_TOKEN"]);
    let status = ProjectEnvironmentStatus::new(&registration, "dev", &secrets, strings(&[".env"]));
    assert_eq!(status.present_keys, vec!["DATABASE_URL"]);
    assert_eq!(status.missing_keys, vec!["API_TOKEN"]);
    assert_eq!(status.environment, "dev");
    assert_eq!(
        invalid_detail(require_all_secrets(&registration.required_keys, &secrets).unwrap_err()),
        "missing project secrets: API_TOKEN"
    );
    let all = pairs(&[("API_TOKEN", "t"), ("DATABASE_URL", "x")]);
    assert!(require_all_secrets(&registration.required_keys, &all).is_ok());
    let started = ProjectCommandResult::started(42, &registration);
    assert_eq!(started.pid, 42);
    assert_eq!(started.injected_keys, registration.required_keys);
}

#[test]
fn programs_and_arguments_are_bounded() {
    assert!(validate_program("npm", &strings(&["run", "dev"])).is_ok());
    assert_eq!(invalid_detail(validate_program("  ", &Vec::new()).unwrap_err()), "invalid executable");
    assert_eq!(
        invalid_detail(validate_program("npm", &strings(&["a\0b"])).unwrap_err()),
        "invalid command arguments"
    );
}

#[test]
fn suggested_names_fall_back_to_project() {
    assert_eq!(suggested_project_name(Some("todo-app")), "todo-app");
    assert_eq!(suggested_project_name(Some("   ")), "project");
    assert_eq!(suggested_project_name(None), "project");
}

#[test]
fn lists_are_joined_with_separators() {
    assert_eq!(join(&strings(&["a", "b", "c"]), ", "), "a, b, c");
    assert_eq!(join(&Vec::new(), ", "), "");
}
