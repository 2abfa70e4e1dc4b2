use claude_provider::block::{
    append_provider_function, block_text, rc_update, remove_provider_function, upsert_block,
    FileEdit,
};
use claude_provider::listing::list_providers;
use claude_provider::profile::{
    build_env_object, get_config_dir, get_providers_dir, profile_file_name, prompt_password,
    setup_profile, EnvSettings, EnvValue, SetupError,
};
use claude_provider::shell::{detect_shell, Shell};

const CMD: &str = "helper-tool";
use claude_provider::swap::{SwapAction, SwapError, SwapEvent, SwapState};

fn text(k: &str, v: &str) -> (String, EnvValue) {
    (k.to_string(), EnvValue::Text(v.to_string()))
}

fn acme() -> EnvSettings {
    setup_profile("acme", "https://api.acme.test", "tok-123", "acme-large", "").unwrap()
}

#[test]
fn env_block_for_acme() {
    let block = build_env_object(&acme());
    let expected = vec![
        text("ANTHROPIC_BASE_URL", "https://api.acme.test"),
        text("ANTHROPIC_AUTH_TOKEN", "tok-123"),
        text("API_TIMEOUT_MS", "3000000"),
        ("CLAUDE_CODE_DISABLE_NONESSENTIAL_TRAFFIC".to_string(), EnvValue::Number(1)),
        text("ANTHROPIC_MODEL", "acme-large"),
        text("ANTHROPIC_SMALL_FAST_MODEL", "acme-large"),
        text("ANTHROPIC_DEFAULT_SONNET_MODEL", "acme-large"),
        text("ANTHROPIC_DEFAULT_OPUS_MODEL", "acme-large"),
    ];
    assert_eq!(block, expected);
    assert!(block.iter().all(|(k, _)| k != "ANTHROPIC_DEFAULT_HAIKU_MODEL"));
}

#[test]
fn haiku_without_default_model() {
    let e = setup_profile("p", "https://u", "k", "", "small-one").unwrap();
    let block = build_env_object(&e);
    assert!(block.contains(&text("ANTHROPIC_DEFAULT_HAIKU_MODEL", "small-one")));
    for key in [
        "ANTHROPIC_MODEL",
        "ANTHROPIC_SMALL_FAST_MODEL",
        "ANTHROPIC_DEFAULT_SONNET_MODEL",
        "ANTHROPIC_DEFAULT_OPUS_MODEL",
    ] {
        assert!(block.iter().all(|(k, _)| k != key));
    }
    assert_eq!(block.len(), 5);
}

#[test]
fn empty_fields_are_left_out_of_env_block() {
    let e = EnvSettings {
        anthropic_base_url: Some(String::new()),
        anthropic_auth_token: None,
        api_timeout_ms: None,
        claude_code_disable_nonessential_traffic: None,
        anthropic_model: Some("m".to_string()),
        anthropic_small_fast_model: None,
        anthropic_default_sonnet_model: None,
        anthropic_default_opus_model: None,
        anthropic_default_haiku_model: None,
    };
    assert_eq!(build_env_object(&e), vec![text("ANTHROPIC_MODEL", "m")]);
}

#[test]
fn setup_refuses_empty_answers() {
    assert_eq!(setup_profile("", "u", "k", "", "").unwrap_err(), SetupError::EmptyName);
    assert_eq!(setup_profile("n", "", "k", "", "").unwrap_err(), SetupError::EmptyBaseUrl);
    assert_eq!(setup_profile("n", "u", "", "", "").unwrap_err(), SetupError::EmptyApiKey);
    assert_eq!(setup_profile("", "", "", "", "").unwrap_err(), SetupError::EmptyName);
}

#[test]
fn list_of_empty_directory_is_empty() {
    assert!(list_providers(&Vec::new()).is_empty());
}

#[test]
fn list_keeps_json_files_sorted() {
    let files: Vec<String> = ["zai.json", "settings", "acme.json", ".json", "b.json.bak", "a.b.json", "Zed.json"]
        .iter()
        .map(|s| s.to_string())
        .collect();
    assert_eq!(list_providers(&files), vec!["Zed", "a.b", "acme", "zai"]);
}

#[test]
fn remove_of_only_block_deletes_file() {
    let content = block_text("acme", CMD);
    assert_eq!(remove_provider_function(Some(&content), "acme"), FileEdit::Delete);
    let with_space = format!("\n\n{}\n   \n", content);
    assert_eq!(remove_provider_function(Some(&with_space), "acme"), FileEdit::Delete);
}

#[test]
fn remove_of_missing_file_is_noop() {
    assert_eq!(remove_provider_function(None, "acme"), FileEdit::Keep);
}

#[test]
fn block_text_is_wrapper_function() {
    assert_eq!(
        block_text("acme", CMD),
        "# Provider function for acme\nacme() {\n    helper-tool use acme \"$@\"\n}\n"
    );
}

#[test]
fn upsert_into_empty_file() {
    assert_eq!(upsert_block("", "acme", CMD), block_text("acme", CMD));
}

#[test]
fn upsert_appends_after_blank_line() {
    let out = upsert_block("alias x=y\n\n", "acme", CMD);
    assert_eq!(out, format!("alias x=y\n\n{}", block_text("acme", CMD)));
}

#[test]
fn register_twice_is_register_once() {
    for start in ["", "alias x=y", "# note\nexport A=1\n"] {
        let once = upsert_block(start, "acme", CMD);
        let twice = upsert_block(&once, "acme", CMD);
        assert_eq!(once, twice);
    }
}

#[test]
fn remove_after_register_restores_content() {
    let start = "alias x=y\nexport A=1";
    let registered = upsert_block(start, "acme", CMD);
    assert_eq!(
        remove_provider_function(Some(&registered), "acme"),
        FileEdit::Write(start.to_string())
    );
}

#[test]
fn other_blocks_are_left_alone() {
    let a = upsert_block("", "alpha", CMD);
    let both = upsert_block(&a, "beta", CMD);
    assert_eq!(both, format!("{}\n{}", a, block_text("beta", CMD)));
    let again = upsert_block(&both, "beta", CMD);
    assert!(again.contains(&block_text("alpha", CMD)));
    match remove_provider_function(Some(&both), "beta") {
        FileEdit::Write(s) => assert_eq!(s, a.trim()),
        other => panic!("unexpected {:?}", other),
    }
    match remove_provider_function(Some(&both), "alpha") {
        FileEdit::Write(s) => assert_eq!(s, format!("\n{}", block_text("beta", CMD).trim_end())),
        other => panic!("unexpected {:?}", other),
    }
}

#[test]
fn upsert_replaces_block_in_the_middle() {
    let start = format!("top\n{}\nbottom", block_text("acme", CMD));
    let out = upsert_block(&start, "acme", CMD);
    assert_eq!(out, format!("top\n\nbottom\n\n{}", block_text("acme", CMD)));
}

#[test]
fn rc_file_gets_one_source_line() {
    let line = "source /h/.config/provider-functions.zsh";
    assert_eq!(rc_update(None, line), Some(format!("{}\n", line)));
    assert_eq!(rc_update(Some("export A=1\n\n"), line), Some(format!("export A=1\n{}\n", line)));
    let has = format!("x\n{}\n", line);
    assert_eq!(rc_update(Some(&has), line), None);
}

#[test]
fn append_builds_both_edits() {
    let edit = append_provider_function(None, Some("alias a=b"), "acme", CMD, Shell::Bash, "/h/f.bash");
    assert_eq!(edit.func_content, block_text("acme", CMD));
    assert_eq!(edit.rc_content, Some("alias a=b\nsource /h/f.bash\n".to_string()));
}

#[test]
fn shell_file_names() {
    assert_eq!(Shell::Bash.func_file_name(), "provider-functions.bash");
    assert_eq!(Shell::Zsh.func_file_name(), "provider-functions.zsh");
    assert_eq!(Shell::Bash.rc_file_name(), ".bashrc");
    assert_eq!(Shell::Zsh.rc_file_name(), ".zshrc");
    assert_eq!(Shell::Zsh.source_command("/a/b"), "source /a/b");
}

#[test]
fn shell_detection() {
    assert_eq!(detect_shell(Some("/bin/zsh")), Shell::Zsh);
    assert_eq!(detect_shell(Some("/usr/bin/bash")), Shell::Bash);
    assert_eq!(detect_shell(Some("/bin/fish")), Shell::Zsh);
    assert_eq!(detect_shell(None), Shell::Zsh);
}

#[test]
fn paths_under_home() {
    assert_eq!(get_config_dir("/home/u", ".tool"), "/home/u/.tool");
    assert_eq!(get_config_dir("", ".tool"), ".tool");
    assert_eq!(get_providers_dir("/home/u", ".tool"), "/home/u/.tool/providers");
    assert_eq!(get_providers_dir("/home/u/", ".tool"), "/home/u/.tool/providers");
    assert_eq!(profile_file_name("acme"), "acme.json");
}

#[test]
fn prompt_answer_is_trimmed() {
    assert_eq!(prompt_password("  secret \n"), "secret");
    assert_eq!(prompt_password("\u{3000}x\t"), "x");
}

fn drive(events: Vec<SwapEvent>) -> (Vec<SwapAction>, SwapState) {
    let mut st = SwapState::Idle;
    let mut actions = Vec::new();
    for ev in events {
        assert!(st.accepts(&ev));
        let (next, a) = st.step(ev);
        st = next;
        actions.push(a);
    }
    (actions, st)
}

fn read(original: &str) -> SwapEvent {
    SwapEvent::SettingsRead { original: original.to_string(), merged: "merged".to_string() }
}

#[test]
fn swap_restores_settings_whatever_the_child_does() {
    for (outcome, result) in [
        (SwapEvent::ChildExited { success: true }, Ok(())),
        (SwapEvent::ChildExited { success: false }, Err(SwapError::RunFailed)),
        (SwapEvent::ChildLaunchFailed, Err(SwapError::RunFailed)),
    ] {
        let (actions, st) = drive(vec![
            SwapEvent::Start,
            SwapEvent::ProfileLoaded,
            read("{\"a\":1}"),
            SwapEvent::Written,
            outcome,
            SwapEvent::Written,
        ]);
        assert_eq!(st, SwapState::Done);
        assert_eq!(
            actions,
            vec![
                SwapAction::LoadProfile,
                SwapAction::ReadSettings,
                SwapAction::WriteSettings("merged".to_string()),
                SwapAction::RunChild,
                SwapAction::WriteSettings("{\"a\":1}".to_string()),
                SwapAction::Finish(result),
            ]
        );
    }
}

#[test]
fn swap_aborts_before_touching_settings() {
    let (a, _) = drive(vec![SwapEvent::Start, SwapEvent::ProfileMissing]);
    assert_eq!(a[1], SwapAction::Finish(Err(SwapError::NotFound)));
    let (a, _) = drive(vec![SwapEvent::Start, SwapEvent::ProfileMalformed]);
    assert_eq!(a[1], SwapAction::Finish(Err(SwapError::Malformed)));
    let (a, _) = drive(vec![SwapEvent::Start, SwapEvent::ProfileLoaded, SwapEvent::SettingsMissing]);
    assert_eq!(a[2], SwapAction::Finish(Err(SwapError::NotFound)));
    let (a, _) = drive(vec![SwapEvent::Start, SwapEvent::ProfileLoaded, SwapEvent::SettingsMalformed]);
    assert_eq!(a[2], SwapAction::Finish(Err(SwapError::Malformed)));
    let (a, _) = drive(vec![SwapEvent::Start, SwapEvent::ProfileLoaded, SwapEvent::SettingsUnreadable]);
    assert_eq!(a[2], SwapAction::Finish(Err(SwapError::Io)));
}

#[test]
fn swap_reports_failed_writes() {
    let (a, st) = drive(vec![
        SwapEvent::Start,
        SwapEvent::ProfileLoaded,
        read("orig"),
        SwapEvent::WriteFailed,
        SwapEvent::Written,
    ]);
    assert_eq!(a[3], SwapAction::WriteSettings("orig".to_string()));
    assert_eq!(a[4], SwapAction::Finish(Err(SwapError::Io)));
    assert_eq!(st, SwapState::Done);
    let (a, _) = drive(vec![
        SwapEvent::Start,
        SwapEvent::ProfileLoaded,
        read("orig"),
        SwapEvent::Written,
        SwapEvent::ChildExited { success: true },
        SwapEvent::WriteFailed,
    ]);
    assert_eq!(a[5], SwapAction::Finish(Err(SwapError::RestoreFailed)));
    assert!(!SwapState::Done.accepts(&SwapEvent::Start));
}

#[test]
fn name_that_prefixes_another_leaves_its_block() {
    let foobar = block_text("foobar", CMD);
    assert_eq!(
        upsert_block(&foobar, "foo", CMD),
        format!("{}\n\n{}", foobar.trim_end(), block_text("foo", CMD))
    );
    assert_eq!(
        remove_provider_function(Some(&foobar), "foo"),
        FileEdit::Write(foobar.trim_end().to_string())
    );
    let both = upsert_block(&foobar, "foo", CMD);
    assert_eq!(
        remove_provider_function(Some(&both), "foo"),
        FileEdit::Write(foobar.trim_end().to_string())
    );
}

#[test]
fn indented_marker_is_not_a_block() {
    let content = "  # Provider function for acme";
    let once = remove_provider_function(Some(content), "acme");
    assert_eq!(once, FileEdit::Write(content.to_string()));
    let twice = remove_provider_function(Some(content), "acme");
    assert_eq!(once, twice);
    let up = upsert_block(content, "acme", CMD);
    assert_eq!(up, format!("{}\n\n{}", content, block_text("acme", CMD)));
    assert_eq!(upsert_block(&up, "acme", CMD), up);
}

#[test]
fn only_a_bare_brace_closes_a_block() {
    let content = "# Provider function for acme\n }\nx\n}\n";
    assert_eq!(remove_provider_function(Some(content), "acme"), FileEdit::Delete);
}

#[test]
fn remove_after_register_drops_only_trailing_whitespace() {
    let start = "  alias x=y\n\n";
    let registered = upsert_block(start, "acme", CMD);
    assert_eq!(registered, format!("  alias x=y\n\n{}", block_text("acme", CMD)));
    assert_eq!(
        remove_provider_function(Some(&registered), "acme"),
        FileEdit::Write("  alias x=y".to_string())
    );
    assert_eq!(upsert_block(&registered, "acme", CMD), registered);
}
