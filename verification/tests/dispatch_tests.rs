use session_actions::AppIdentity;
use session_actions::activation_script;
use session_actions::decimal_string;
use session_actions::interrupt_args;
use session_actions::open_plan;
use session_actions::project_display_name;
use session_actions::resume_args;
use session_actions::resume_input_bytes;
use session_actions::stop_result;
use session_actions::zed_cli_program;

#[test]
fn resume_input_is_prompt_then_newline() {
    assert_eq!(resume_input_bytes("Hello"), b"Hello\n".to_vec());
}

#[test]
fn resume_input_of_empty_prompt_is_bare_newline() {
    assert_eq!(resume_input_bytes(""), b"\n".to_vec());
}

#[test]
fn resume_input_keeps_non_ascii_prompts_intact() {
    assert_eq!(resume_input_bytes("héllo"), "héllo\n".as_bytes().to_vec());
}

#[test]
fn resume_args_continue_the_named_session() {
    let args = resume_args("test-session-id");
    assert_eq!(args, vec!["--continue", "--session-id", "test-session-id"]);
}

#[test]
fn decimal_strings_are_exact() {
    assert_eq!(decimal_string(0), "0");
    assert_eq!(decimal_string(7), "7");
    assert_eq!(decimal_string(10), "10");
    assert_eq!(decimal_string(999999), "999999");
    assert_eq!(decimal_string(u32::MAX), "4294967295");
}

#[test]
fn interrupt_args_name_signal_and_pid() {
    assert_eq!(interrupt_args(999999), vec!["-2", "999999"]);
}

#[test]
fn stop_result_succeeds_only_on_delivery() {
    assert_eq!(stop_result(42, true, ""), Ok(()));
    let r = stop_result(42, false, "No such process");
    assert_eq!(r, Err("Failed to stop process 42: No such process".to_string()));
}

#[test]
fn open_plan_for_zed_tries_the_cli_first() {
    let plan = open_plan(AppIdentity::Zed, "/Users/me/projects/widget");
    assert_eq!(plan.zed_cli.as_deref(), Some("/Users/me/projects/widget"));
    assert_eq!(plan.activate, "Zed");
    assert_eq!(zed_cli_program(), "/Applications/Zed.app/Contents/MacOS/cli");
}

#[test]
fn open_plan_for_others_only_activates() {
    let plan = open_plan(AppIdentity::Terminal, "/Users/me/projects/widget");
    assert_eq!(plan.zed_cli, None);
    assert_eq!(plan.activate, "Terminal");

    let plan = open_plan(AppIdentity::VsCode, "/tmp/p");
    assert_eq!(plan.zed_cli, None);
    assert_eq!(plan.activate, "Visual Studio Code");
}

#[test]
fn activation_script_addresses_the_display_name() {
    assert_eq!(activation_script("Zed"), "tell application \"Zed\" to activate");
    assert_eq!(activation_script("iTerm"), "tell application \"iTerm\" to activate");
}

#[test]
fn project_display_name_is_the_last_segment() {
    assert_eq!(project_display_name("/Users/me/projects/widget"), "widget");
    assert_eq!(project_display_name("widget"), "widget");
    assert_eq!(project_display_name("/Users/me/projects/"), "");
    assert_eq!(project_display_name(""), "");
}
