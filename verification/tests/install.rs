use famp::install::claude_code::{build_stop_array as claude_stop_array, mcp_server_entry};
use famp::install::codex::{
    build_stop_array, codex_command_hook_hash, codex_hook_key, codex_stop_command, famp_hook_command_patterns,
    shell_quote_path, CODEX_AWAIT_TIMEOUT_SEC,
};
use famp::install::codex_trust::{
    codex_mcp_table, famp_trusted_hashes, install_codex_mcp, remove_stale_codex_hook_trust, seed_codex_hook_trust,
};
use famp::install::json_merge::{remove_user_json, upsert_user_json, JsonMergeError, MergeOutcome};
use famp::install::slash_commands::slash_command_files;
use famp::install::stop_entry::{is_famp_command, remove_famp_hook_from_stop_entry};
use famp::install::toml_merge::{remove_codex_table, upsert_codex_table, TomlMergeError, TomlMergeOutcome};
use famp::json::{parse_json, render_json_compact, JsonValue};
use famp::toml_tree::{parse_toml, TomlValue};

const SHIM: &str = "/home/u/.cc/hooks/famp-await.sh";

fn shims() -> Vec<String> {
    vec![SHIM.to_string()]
}

fn json(text: &str) -> JsonValue {
    parse_json(text).unwrap()
}

fn bare_entry(command: &str) -> JsonValue {
    json(&format!(r#"{{"type": "command", "command": {}, "timeout": 30}}"#, quoted(command)))
}

fn wrapped_entry(command: &str) -> JsonValue {
    json(&format!(
        r#"{{"matcher": "", "hooks": [{{"type": "command", "command": {}, "timeout": 86400}}]}}"#,
        quoted(command)
    ))
}

fn quoted(s: &str) -> String {
    render_json_compact(&JsonValue::Str(s.to_string()))
}

#[test]
fn exact_match_bare_entry_is_dropped() {
    assert!(remove_famp_hook_from_stop_entry(bare_entry(SHIM), &shims()).is_none());
}

#[test]
fn prefix_match_with_args_is_dropped() {
    assert!(remove_famp_hook_from_stop_entry(bare_entry(&format!("{SHIM} --arg")), &shims()).is_none());
}

#[test]
fn bash_wrapped_form_is_dropped() {
    assert!(remove_famp_hook_from_stop_entry(bare_entry(&format!("bash {SHIM}")), &shims()).is_none());
}

#[test]
fn bin_bash_wrapped_with_args_is_dropped() {
    assert!(remove_famp_hook_from_stop_entry(bare_entry(&format!("/bin/bash {SHIM} --foo")), &shims()).is_none());
}

#[test]
fn sh_wrapped_form_is_dropped() {
    assert!(remove_famp_hook_from_stop_entry(bare_entry(&format!("sh {SHIM}")), &shims()).is_none());
}

#[test]
fn unrelated_same_basename_is_preserved() {
    assert!(remove_famp_hook_from_stop_entry(bare_entry("bash /tmp/other/famp-await.sh"), &shims()).is_some());
}

#[test]
fn bash_wrapped_form_in_inner_hooks_is_filtered() {
    assert!(remove_famp_hook_from_stop_entry(wrapped_entry(&format!("bash {SHIM}")), &shims()).is_none());
}

#[test]
fn non_famp_bash_wrapped_is_preserved() {
    let entry = bare_entry("bash /other/hook.sh");
    assert_eq!(remove_famp_hook_from_stop_entry(bare_entry("bash /other/hook.sh"), &shims()), Some(entry));
}

#[test]
fn empty_command_is_preserved() {
    assert_eq!(remove_famp_hook_from_stop_entry(bare_entry(""), &shims()), Some(bare_entry("")));
}

#[test]
fn empty_shims_slice_preserves_any_entry() {
    assert_eq!(remove_famp_hook_from_stop_entry(bare_entry(SHIM), &[]), Some(bare_entry(SHIM)));
}

#[test]
fn mixed_inner_hooks_keep_only_foreign_commands() {
    let entry = json(&format!(
        r#"{{"matcher": "", "hooks": [{{"type": "command", "command": "{SHIM}"}}, {{"type": "command", "command": "/other.sh"}}]}}"#
    ));
    let kept = remove_famp_hook_from_stop_entry(entry, &shims()).unwrap();
    assert_eq!(
        render_json_compact(&kept),
        r#"{"hooks":[{"command":"/other.sh","type":"command"}],"matcher":""}"#
    );
}

#[test]
fn famp_command_recognises_quoted_shims() {
    assert!(is_famp_command(&format!("'{SHIM}'"), &shims()));
    assert!(!is_famp_command("echo hi", &shims()));
}

#[test]
fn remove_returns_not_present_when_file_absent() {
    let (outcome, text) = remove_user_json(None, "mcpServers", "famp").unwrap();
    assert_eq!(outcome, MergeOutcome::NotPresent);
    assert_eq!(text, None);
}

#[test]
fn json_upsert_is_idempotent_and_keeps_siblings() {
    let existing = r#"{"numStartups":7,"mcpServers":{"other":{"command":"/y"}}}"#;
    let (o1, t1) = upsert_user_json(Some(existing), "mcpServers", "famp", mcp_server_entry("/opt/famp")).unwrap();
    assert_eq!(o1, MergeOutcome::Inserted);
    let t1 = t1.unwrap();
    let doc = parse_json(&t1).unwrap();
    let servers = doc.get("mcpServers").unwrap();
    assert!(servers.get("other").is_some());
    assert_eq!(servers.get("famp").unwrap().get("command").unwrap().as_str().unwrap(), "/opt/famp");
    assert_eq!(doc.get("numStartups").unwrap().as_i64(), Some(7));
    let (o2, t2) = upsert_user_json(Some(&t1), "mcpServers", "famp", mcp_server_entry("/opt/famp")).unwrap();
    assert_eq!(o2, MergeOutcome::AlreadyMatches);
    assert_eq!(t2, None);
    let (o3, _) = upsert_user_json(Some(&t1), "mcpServers", "famp", mcp_server_entry("/new/famp")).unwrap();
    assert_eq!(o3, MergeOutcome::Updated);
}

#[test]
fn json_merge_errors() {
    assert_eq!(upsert_user_json(Some("[1, 2, 3]"), "mcpServers", "famp", json("{}")), Err(JsonMergeError::NotObject));
    assert_eq!(upsert_user_json(Some("{not json"), "mcpServers", "famp", json("{}")), Err(JsonMergeError::Parse));
    assert_eq!(
        upsert_user_json(Some(r#"{"mcpServers": 3}"#), "mcpServers", "famp", json("{}")),
        Err(JsonMergeError::ParentNotObject)
    );
}

#[test]
fn remove_drops_only_target_leaf() {
    let existing = r#"{"numStartups":7,"mcpServers":{"famp":{"command":"/x"},"other":{"command":"/y"}}}"#;
    let (outcome, text) = remove_user_json(Some(existing), "mcpServers", "famp").unwrap();
    assert_eq!(outcome, MergeOutcome::Removed);
    let post = parse_json(&text.unwrap()).unwrap();
    assert!(post.get("mcpServers").unwrap().get("famp").is_none());
    assert!(post.get("mcpServers").unwrap().get("other").is_some());
}

#[test]
fn remove_returns_not_present_when_absent() {
    let (outcome, text) = remove_codex_table(None, "mcp_servers", "famp").unwrap();
    assert_eq!(outcome, TomlMergeOutcome::NotPresent);
    assert_eq!(text, None);
}

#[test]
fn toml_upsert_and_remove_round_trip() {
    let existing = "[mcp_servers.github]\ncommand = \"/x\"\n";
    let (o, text) = install_codex_mcp(Some(existing), "/opt/famp").unwrap();
    assert_eq!(o, TomlMergeOutcome::Inserted);
    let text = text.unwrap();
    let doc = parse_toml(&text).unwrap();
    let servers = doc.get("mcp_servers").unwrap();
    assert!(servers.get("github").is_some());
    assert_eq!(servers.get("famp").unwrap().get("command"), Some(&TomlValue::Str("/opt/famp".to_string())));
    let (again, none) = install_codex_mcp(Some(&text), "/opt/famp").unwrap();
    assert_eq!(again, TomlMergeOutcome::AlreadyMatches);
    assert_eq!(none, None);
    let (removed, after) = remove_codex_table(Some(&text), "mcp_servers", "famp").unwrap();
    assert_eq!(removed, TomlMergeOutcome::Removed);
    let after = parse_toml(&after.unwrap()).unwrap();
    assert!(after.get("mcp_servers").unwrap().get("famp").is_none());
    assert!(after.get("mcp_servers").unwrap().get("github").is_some());
}

#[test]
fn toml_merge_errors() {
    assert_eq!(upsert_codex_table(Some("x = [1"), "mcp_servers", "famp", codex_mcp_table("/f")), Err(TomlMergeError::Parse));
    assert_eq!(
        upsert_codex_table(Some("mcp_servers = 3\n"), "mcp_servers", "famp", codex_mcp_table("/f")),
        Err(TomlMergeError::TableExpected)
    );
    let (o, t) = upsert_codex_table(Some("  \n"), "mcp_servers", "famp", codex_mcp_table("/f")).unwrap();
    assert_eq!(o, TomlMergeOutcome::Inserted);
    assert!(t.unwrap().contains("[mcp_servers.famp]"));
}

#[test]
fn codex_hash_matches_codex_v0_144_observed_stop_hook() {
    let command = "\"/Users/benlamm/.nvm/versions/node/v22.14.0/bin/node\" \
                   \"/Users/benlamm/Workspace/FAMP/.codex/hooks/gsd-context-monitor.js\"";
    assert_eq!(
        codex_command_hook_hash("stop", command, 10),
        "sha256:e005a9ef3e941532a132d758bec3fb7f90dd6d21124650d365a472dd561d4351"
    );
}

#[test]
fn codex_command_and_key_shapes() {
    assert_eq!(shell_quote_path("/opt/bin/famp"), "/opt/bin/famp");
    assert_eq!(shell_quote_path("/opt/my bin/famp"), "'/opt/my bin/famp'");
    assert_eq!(codex_stop_command("/opt/my bin/famp"), "'/opt/my bin/famp' hook codex-stop");
    assert_eq!(codex_hook_key("/p/.codex/hooks.json", "stop", 2, 0), "/p/.codex/hooks.json:stop:2:0");
    let patterns = famp_hook_command_patterns("/opt/famp", "/p/.codex/hooks/famp-await.sh");
    assert_eq!(patterns.len(), 2);
    assert!(patterns.contains(&"/opt/famp hook codex-stop".to_string()));
    assert!(patterns.contains(&"/p/.codex/hooks/famp-await.sh".to_string()));
}

#[test]
fn codex_stop_array_replaces_famp_entries_and_keeps_others() {
    let shim = "/p/.codex/hooks/famp-await.sh";
    let existing = format!(
        r#"{{"hooks": {{"Stop": [{{"hooks": [{{"type": "command", "command": "/opt/famp hook codex-stop"}}]}}, {{"hooks": [{{"type": "command", "command": "/user/hook.sh"}}]}}, {{"hooks": [{{"type": "command", "command": "{shim}"}}]}}]}}}}"#
    );
    let command = codex_stop_command("/opt/famp");
    let array = build_stop_array(Some(&existing), "/opt/famp", shim, &command).unwrap();
    assert_eq!(array.len(), 2);
    assert_eq!(
        render_json_compact(&array[0]),
        r#"{"hooks":[{"command":"/user/hook.sh","type":"command"}]}"#
    );
    assert_eq!(
        render_json_compact(&array[1]),
        format!(r#"{{"hooks":[{{"command":"/opt/famp hook codex-stop","timeout":{CODEX_AWAIT_TIMEOUT_SEC},"type":"command"}}]}}"#)
    );
    assert!(matches!(build_stop_array(Some("{oops"), "/opt/famp", shim, &command), Err(JsonMergeError::Parse)));
    assert_eq!(build_stop_array(None, "/opt/famp", shim, &command).unwrap().len(), 1);
}

#[test]
fn claude_stop_array_appends_runner_then_await() {
    let array = claude_stop_array(None, "/h/.cc/hooks/hook-runner.sh", "/h/.cc/hooks/famp-await.sh").unwrap();
    assert_eq!(array.len(), 2);
    assert!(render_json_compact(&array[0]).contains("hook-runner.sh"));
    assert!(render_json_compact(&array[1]).contains("famp-await.sh"));
    let again_text = format!(
        r#"{{"hooks":{{"Stop":[{},{}]}}}}"#,
        render_json_compact(&array[0]),
        render_json_compact(&array[1])
    );
    let again = claude_stop_array(Some(&again_text), "/h/.cc/hooks/hook-runner.sh", "/h/.cc/hooks/famp-await.sh").unwrap();
    assert_eq!(again.len(), 2);
}

#[test]
fn trust_is_seeded_then_stale_famp_trust_is_pruned() {
    let hooks_path = "/p/.codex/hooks.json";
    let shim = "/p/.codex/hooks/famp-await.sh";
    let hashes = famp_trusted_hashes("stop", "/opt/famp", shim);
    assert_eq!(hashes.len(), 2);
    let old_key = codex_hook_key(hooks_path, "stop", 0, 0);
    let new_key = codex_hook_key(hooks_path, "stop", 1, 0);
    let user_key = codex_hook_key(hooks_path, "stop", 5, 0);
    let famp_hash = codex_command_hook_hash("stop", &codex_stop_command("/opt/famp"), CODEX_AWAIT_TIMEOUT_SEC);
    let (_, t) = seed_codex_hook_trust(None, &old_key, &famp_hash).unwrap();
    let (_, t) = seed_codex_hook_trust(Some(&t.unwrap()), &user_key, "sha256:user").unwrap();
    let t = t.unwrap();
    let (o, none) = seed_codex_hook_trust(Some(&t), &user_key, "sha256:user").unwrap();
    assert_eq!(o, TomlMergeOutcome::AlreadyMatches);
    assert_eq!(none, None);

    let (removed, text) = remove_stale_codex_hook_trust(Some(&t), hooks_path, Some(&new_key), &hashes).unwrap();
    assert_eq!(removed, vec![old_key.clone()]);
    let text = text.unwrap();
    let doc = parse_toml(&text).unwrap();
    let state = doc.get("hooks").unwrap().get("state").unwrap();
    assert!(state.get(&old_key).is_none());
    assert!(state.get(&user_key).is_some());

    let (nothing, unchanged) = remove_stale_codex_hook_trust(Some(&text), hooks_path, Some(&new_key), &hashes).unwrap();
    assert!(nothing.is_empty());
    assert_eq!(unchanged, None);
    let (kept, _) = remove_stale_codex_hook_trust(Some(&t), hooks_path, Some(&old_key), &hashes).unwrap();
    assert!(kept.is_empty());
    assert_eq!(remove_stale_codex_hook_trust(None, hooks_path, None, &hashes).unwrap(), (vec![], None));
}

#[test]
fn templates_count_is_seven() {
    assert_eq!(slash_command_files().len(), 7);
}

#[test]
fn famp_send_template_is_listed() {
    assert!(slash_command_files().iter().any(|n| n == "famp-send.md"));
}

use famp::install::grok::{grok_compat_stop_array, grok_stop_hook_text};
use famp::install::shim::{render_hook_template, replace_text};

#[test]
fn grok_stop_hook_file_runs_the_await_shim() {
    let text = grok_stop_hook_text("/h/.grok/hooks/famp-await.sh");
    assert!(text.ends_with("}\n"));
    let doc = parse_json(&text).unwrap();
    assert_eq!(
        render_json_compact(&doc),
        r#"{"hooks":{"Stop":[{"hooks":[{"command":"/h/.grok/hooks/famp-await.sh","timeout":86400,"type":"command"}]}]}}"#
    );
}

#[test]
fn grok_compat_entry_replaces_only_the_await_shim() {
    let shim = "/h/.cc/hooks/famp-await.sh";
    let existing = format!(
        r#"{{"hooks":{{"Stop":[{{"hooks":[{{"type":"command","command":"{shim}"}}]}},{{"hooks":[{{"type":"command","command":"/h/.cc/hooks/hook-runner.sh"}}]}}]}}}}"#
    );
    let array = grok_compat_stop_array(Some(&existing), shim).unwrap();
    assert_eq!(array.len(), 2);
    assert!(render_json_compact(&array[0]).contains("hook-runner.sh"));
    assert_eq!(
        render_json_compact(&array[1]),
        format!(r#"{{"hooks":[{{"command":"{shim}","timeout":86400,"type":"command"}}],"matcher":""}}"#)
    );
}

#[test]
fn token_is_replaced_by_a_quoted_path() {
    let template = "#!/usr/bin/env bash\nFAMP_BIN=@FAMP_BIN@\nexec \"$FAMP_BIN\" await\n";
    let rendered = render_hook_template(template, "/opt/famp's bin/famp");
    assert_eq!(rendered, "#!/usr/bin/env bash\nFAMP_BIN='/opt/famp'\\''s bin/famp'\nexec \"$FAMP_BIN\" await\n");
    assert_eq!(replace_text("aXXbXXX", "XX", "-"), "a-b-X");
    assert_eq!(replace_text("no token", "@FAMP_BIN@", "x"), "no token");
}
