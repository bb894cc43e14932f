use git_ai::blame::{parse_file_with_line_range, parse_u32, plan_blame};
use git_ai::commit_flow::{
    commit_action, commit_step, process_exit_code, CommitAction, CommitEvent, CommitState,
    ExitOutcome, NativeOutcome,
};
use git_ai::refspec::{
    augment_fetch_args, augment_push_args, fetch_aux_refspec, fetch_config_key,
    is_simple_invocation, push_aux_refspec, push_config_key, refspecs_from_config_output,
    remote_name,
};
use git_ai::router::{
    classify_subcommand, debug_logging_enabled, default_author, plan_intrinsic, proxy_kind,
    route_invocation, str_eq, usage_message, Disposition, IntrinsicCommand, IntrinsicPlan,
    ProxyKind, Route,
};

fn s(v: &str) -> String {
    v.to_string()
}

#[test]
fn blame_target_with_range() {
    let (path, range) = parse_file_with_line_range("file.rs:10-20");
    assert_eq!(path, "file.rs");
    assert_eq!(range, Some((10, 20)));
}

#[test]
fn blame_target_single_line() {
    let (path, range) = parse_file_with_line_range("file.rs:10");
    assert_eq!(path, "file.rs");
    assert_eq!(range, Some((10, 10)));
}

#[test]
fn blame_target_no_range() {
    let (path, range) = parse_file_with_line_range("file.rs");
    assert_eq!(path, "file.rs");
    assert_eq!(range, None);
}

#[test]
fn blame_target_last_colon_wins() {
    let (path, range) = parse_file_with_line_range("a:b:10-20");
    assert_eq!(path, "a:b");
    assert_eq!(range, Some((10, 20)));
}

#[test]
fn blame_target_non_numeric_falls_back() {
    let (path, range) = parse_file_with_line_range("file.rs:abc");
    assert_eq!(path, "file.rs:abc");
    assert_eq!(range, None);
}

#[test]
fn blame_target_empty_string() {
    let (path, range) = parse_file_with_line_range("");
    assert_eq!(path, "");
    assert_eq!(range, None);
}

#[test]
fn blame_target_empty_path() {
    let (path, range) = parse_file_with_line_range(":10");
    assert_eq!(path, "");
    assert_eq!(range, Some((10, 10)));
}

#[test]
fn blame_target_dangling_dash_falls_back() {
    let (path, range) = parse_file_with_line_range("file.rs:10-");
    assert_eq!(path, "file.rs:10-");
    assert_eq!(range, None);
}

#[test]
fn blame_target_inverted_range_passes_through() {
    let (path, range) = parse_file_with_line_range("file.rs:20-10");
    assert_eq!(path, "file.rs");
    assert_eq!(range, Some((20, 10)));
}

#[test]
fn blame_target_overflow_falls_back() {
    let (path, range) = parse_file_with_line_range("file.rs:4294967296");
    assert_eq!(path, "file.rs:4294967296");
    assert_eq!(range, None);
}

#[test]
fn blame_target_largest_line_number() {
    let (path, range) = parse_file_with_line_range("f:0-4294967295");
    assert_eq!(path, "f");
    assert_eq!(range, Some((0, 4294967295)));
}

#[test]
fn parse_u32_values() {
    assert_eq!(parse_u32("0"), Some(0));
    assert_eq!(parse_u32("007"), Some(7));
    assert_eq!(parse_u32("4294967295"), Some(4294967295));
    assert_eq!(parse_u32("4294967296"), None);
    assert_eq!(parse_u32(""), None);
    assert_eq!(parse_u32("12a"), None);
    assert_eq!(parse_u32("-1"), None);
}

#[test]
fn parse_u32_accepts_one_leading_plus() {
    assert_eq!(parse_u32("+10"), Some(10));
    assert_eq!(parse_u32("+0"), Some(0));
    assert_eq!(parse_u32("+4294967295"), Some(4294967295));
    assert_eq!(parse_u32("+"), None);
    assert_eq!(parse_u32("++1"), None);
    assert_eq!(parse_u32("1+"), None);
}

#[test]
fn blame_target_plus_signed_line_numbers() {
    let (path, range) = parse_file_with_line_range("file.rs:+10");
    assert_eq!(path, "file.rs");
    assert_eq!(range, Some((10, 10)));
    let (path, range) = parse_file_with_line_range("file.rs:+5-+8");
    assert_eq!(path, "file.rs");
    assert_eq!(range, Some((5, 8)));
}

#[test]
fn fetch_augmented_with_default_remote() {
    let args: Vec<String> = vec![];
    let configured = vec![s("+refs/heads/*:refs/remotes/origin/*"), s("refs/tags/*:refs/tags/*")];
    let out = augment_fetch_args(&args, Some(&configured));
    assert_eq!(
        out,
        vec![
            s("origin"),
            s("+refs/heads/*:refs/remotes/origin/*"),
            s("refs/tags/*:refs/tags/*"),
            s("+refs/ai/authorship/*:refs/remotes/origin/ai/authorship/*"),
        ]
    );
}

#[test]
fn fetch_augmented_with_named_remote() {
    let args = vec![s("upstream")];
    let configured = vec![s("+refs/heads/*:refs/remotes/upstream/*")];
    let out = augment_fetch_args(&args, Some(&configured));
    assert_eq!(
        out,
        vec![
            s("upstream"),
            s("+refs/heads/*:refs/remotes/upstream/*"),
            s("+refs/ai/authorship/*:refs/remotes/upstream/ai/authorship/*"),
        ]
    );
}

#[test]
fn fetch_with_flag_passes_through() {
    let args = vec![s("--tags")];
    let configured = vec![s("+refs/heads/*:refs/remotes/origin/*")];
    let out = augment_fetch_args(&args, Some(&configured));
    assert_eq!(out, args);
}

#[test]
fn fetch_with_two_args_passes_through() {
    let args = vec![s("origin"), s("main")];
    let out = augment_fetch_args(&args, Some(&vec![]));
    assert_eq!(out, args);
}

#[test]
fn fetch_without_repository_passes_through() {
    let args: Vec<String> = vec![];
    let out = augment_fetch_args(&args, None);
    assert_eq!(out, args);
}

#[test]
fn fetch_with_no_configured_refspecs() {
    let args: Vec<String> = vec![];
    let out = augment_fetch_args(&args, Some(&vec![]));
    assert_eq!(
        out,
        vec![s("origin"), s("+refs/ai/authorship/*:refs/remotes/origin/ai/authorship/*")]
    );
}

#[test]
fn push_augmented_with_default_remote() {
    let args: Vec<String> = vec![];
    let configured = vec![s("refs/heads/main:refs/heads/main"), s("refs/tags/*:refs/tags/*")];
    let out = augment_push_args(&args, Some(&configured));
    assert_eq!(
        out,
        vec![
            s("origin"),
            s("refs/heads/main:refs/heads/main"),
            s("refs/tags/*:refs/tags/*"),
            s("refs/ai/authorship/*:refs/ai/authorship/*"),
        ]
    );
}

#[test]
fn push_augmented_with_named_remote() {
    let args = vec![s("upstream")];
    let out = augment_push_args(&args, Some(&vec![]));
    assert_eq!(out, vec![s("upstream"), s("refs/ai/authorship/*:refs/ai/authorship/*")]);
}

#[test]
fn push_with_flag_passes_through() {
    let args = vec![s("--force")];
    let out = augment_push_args(&args, Some(&vec![]));
    assert_eq!(out, args);
}

#[test]
fn push_without_repository_passes_through() {
    let args = vec![s("upstream")];
    let out = augment_push_args(&args, None);
    assert_eq!(out, args);
}

#[test]
fn simple_invocation_rules() {
    assert!(is_simple_invocation(&vec![]));
    assert!(is_simple_invocation(&vec![s("origin")]));
    assert!(is_simple_invocation(&vec![s("")]));
    assert!(!is_simple_invocation(&vec![s("-v")]));
    assert!(!is_simple_invocation(&vec![s("--tags")]));
    assert!(!is_simple_invocation(&vec![s("origin"), s("main")]));
}

#[test]
fn remote_defaults_to_origin() {
    assert_eq!(remote_name(&vec![]), "origin");
    assert_eq!(remote_name(&vec![s("upstream")]), "upstream");
}

#[test]
fn aux_refspec_texts() {
    assert_eq!(
        fetch_aux_refspec("origin"),
        "+refs/ai/authorship/*:refs/remotes/origin/ai/authorship/*"
    );
    assert_eq!(push_aux_refspec(), "refs/ai/authorship/*:refs/ai/authorship/*");
}

#[test]
fn config_key_texts() {
    assert_eq!(fetch_config_key("origin"), "remote.origin.fetch");
    assert_eq!(push_config_key("upstream"), "remote.upstream.push");
}

#[test]
fn config_output_is_trimmed_and_filtered() {
    let out = refspecs_from_config_output(Some("  a \n\n\t b\r\n"));
    assert_eq!(out, vec![s("a"), s("b")]);
}

#[test]
fn config_output_single_line_without_newline() {
    let out = refspecs_from_config_output(Some("+refs/heads/*:refs/remotes/origin/*"));
    assert_eq!(out, vec![s("+refs/heads/*:refs/remotes/origin/*")]);
}

#[test]
fn config_output_trims_unicode_whitespace() {
    let out = refspecs_from_config_output(Some("a\u{B}\n\u{3000}b\u{A0}\n\u{C}c\u{85}\u{2003}"));
    assert_eq!(out, vec![s("a"), s("b"), s("c")]);
    assert_eq!(refspecs_from_config_output(Some("\u{2028}\u{202F}\u{205F}\n\u{1680}")), Vec::<String>::new());
}

#[test]
fn config_output_empty_or_failed() {
    assert_eq!(refspecs_from_config_output(Some("")), Vec::<String>::new());
    assert_eq!(refspecs_from_config_output(Some(" \n \n")), Vec::<String>::new());
    assert_eq!(refspecs_from_config_output(None), Vec::<String>::new());
}

#[test]
fn no_args_invocation_is_usage_error() {
    assert_eq!(route_invocation(false, &vec![]), Route::Usage);
    assert_eq!(usage_message(), "Usage: git-ai <git-command> or git-ai <git-ai-command>");
}

#[test]
fn routing_dispositions() {
    assert_eq!(route_invocation(true, &vec![]), Route::Intrinsic);
    assert_eq!(route_invocation(true, &vec![s("pull")]), Route::Intrinsic);
    assert_eq!(
        route_invocation(false, &vec![s("commit"), s("-m"), s("x")]),
        Route::Proxy(Disposition::WrappedCommit)
    );
    assert_eq!(route_invocation(false, &vec![s("blame")]), Route::Proxy(Disposition::WrappedBlame));
    assert_eq!(route_invocation(false, &vec![s("pull")]), Route::Proxy(Disposition::Transparent));
    assert_eq!(classify_subcommand("fetch"), Disposition::Transparent);
    assert_eq!(classify_subcommand("commit"), Disposition::WrappedCommit);
}

#[test]
fn proxy_kinds() {
    assert_eq!(proxy_kind("fetch"), ProxyKind::Fetch);
    assert_eq!(proxy_kind("push"), ProxyKind::Push);
    assert_eq!(proxy_kind("pull"), ProxyKind::Other);
    assert_eq!(proxy_kind("commit"), ProxyKind::Other);
}

#[test]
fn blame_plan_requires_an_argument() {
    assert_eq!(plan_blame(&vec![]), None);
    assert_eq!(plan_blame(&vec![s("file.rs:10-20")]), Some((s("file.rs"), Some((10, 20)))));
    assert_eq!(plan_blame(&vec![s("file.rs")]), Some((s("file.rs"), None)));
}

#[test]
fn string_equality() {
    assert!(str_eq("commit", "commit"));
    assert!(!str_eq("commit", "commits"));
    assert!(!str_eq("commit", "blame"));
    assert!(str_eq("", ""));
}

#[test]
fn exit_code_propagation() {
    assert_eq!(process_exit_code(ExitOutcome::Code(0)), 0);
    assert_eq!(process_exit_code(ExitOutcome::Code(1)), 1);
    assert_eq!(process_exit_code(ExitOutcome::Code(2)), 2);
    assert_eq!(process_exit_code(ExitOutcome::Code(127)), 127);
    assert_eq!(process_exit_code(ExitOutcome::Abnormal), 1);
}

#[test]
fn pre_hook_failure_aborts_before_native_commit() {
    let st = CommitState::Start;
    assert_eq!(commit_action(&st), CommitAction::RunPreHook);
    let st = commit_step(&st, &CommitEvent::PreHookDone { ok: false });
    assert_eq!(st, CommitState::Finished { code: 1 });
    assert_eq!(commit_action(&st), CommitAction::Exit { code: 1 });
}

#[test]
fn native_failure_skips_post_hook() {
    let st = commit_step(&CommitState::Start, &CommitEvent::PreHookDone { ok: true });
    assert_eq!(commit_action(&st), CommitAction::RunNativeCommit);
    let st = commit_step(
        &st,
        &CommitEvent::NativeDone { outcome: NativeOutcome::Exited(ExitOutcome::Code(2)) },
    );
    assert_eq!(st, CommitState::Finished { code: 2 });
    assert_eq!(commit_action(&st), CommitAction::Exit { code: 2 });
}

#[test]
fn spawn_failure_exits_with_one() {
    let st = commit_step(&CommitState::Start, &CommitEvent::PreHookDone { ok: true });
    let st = commit_step(&st, &CommitEvent::NativeDone { outcome: NativeOutcome::SpawnFailed });
    assert_eq!(st, CommitState::Finished { code: 1 });
}

#[test]
fn abnormal_native_termination_exits_with_one() {
    let st = commit_step(&CommitState::Start, &CommitEvent::PreHookDone { ok: true });
    let st = commit_step(
        &st,
        &CommitEvent::NativeDone { outcome: NativeOutcome::Exited(ExitOutcome::Abnormal) },
    );
    assert_eq!(st, CommitState::Finished { code: 1 });
}

#[test]
fn post_hook_failure_is_non_fatal() {
    let st = commit_step(&CommitState::Start, &CommitEvent::PreHookDone { ok: true });
    let st = commit_step(
        &st,
        &CommitEvent::NativeDone { outcome: NativeOutcome::Exited(ExitOutcome::Code(0)) },
    );
    assert_eq!(commit_action(&st), CommitAction::RunPostHook);
    let st = commit_step(&st, &CommitEvent::PostHookDone { ok: false });
    assert_eq!(st, CommitState::Finished { code: 0 });
    assert_eq!(commit_action(&st), CommitAction::Exit { code: 0 });
}

#[test]
fn successful_commit_flow_exits_zero() {
    let st = commit_step(&CommitState::Start, &CommitEvent::PreHookDone { ok: true });
    let st = commit_step(
        &st,
        &CommitEvent::NativeDone { outcome: NativeOutcome::Exited(ExitOutcome::Code(0)) },
    );
    let st = commit_step(&st, &CommitEvent::PostHookDone { ok: true });
    assert_eq!(st, CommitState::Finished { code: 0 });
}

#[test]
fn default_author_falls_back_to_unknown() {
    assert_eq!(default_author(Some(s("alice"))), "alice");
    assert_eq!(default_author(None), "unknown");
}

#[test]
fn checkpoint_plan_prefers_override() {
    let cmd = IntrinsicCommand::Checkpoint {
        author: Some(s("bot")),
        show_working_log: true,
        reset: false,
        model: Some(s("model-x")),
    };
    match plan_intrinsic(cmd, s("alice")) {
        IntrinsicPlan::Checkpoint { author, show_working_log, reset, is_amend, model, default_author } => {
            assert_eq!(author, "bot");
            assert!(show_working_log);
            assert!(!reset);
            assert!(!is_amend);
            assert_eq!(model, Some(s("model-x")));
            assert_eq!(default_author, "alice");
        }
        other => panic!("wrong plan: {:?}", other),
    }
}

#[test]
fn checkpoint_plan_uses_default_author() {
    let cmd = IntrinsicCommand::Checkpoint {
        author: None,
        show_working_log: false,
        reset: true,
        model: None,
    };
    match plan_intrinsic(cmd, s("alice")) {
        IntrinsicPlan::Checkpoint { author, reset, model, .. } => {
            assert_eq!(author, "alice");
            assert!(reset);
            assert_eq!(model, None);
        }
        other => panic!("wrong plan: {:?}", other),
    }
}

#[test]
fn blame_plan_splits_range() {
    let cmd = IntrinsicCommand::Blame { file: s("src/lib.rs:3-9") };
    match plan_intrinsic(cmd, s("alice")) {
        IntrinsicPlan::Blame { path, range } => {
            assert_eq!(path, "src/lib.rs");
            assert_eq!(range, Some((3, 9)));
        }
        other => panic!("wrong plan: {:?}", other),
    }
}

#[test]
fn stats_plan_defaults_to_head() {
    match plan_intrinsic(IntrinsicCommand::Stats { sha: None }, s("alice")) {
        IntrinsicPlan::Stats { sha } => assert_eq!(sha, "HEAD"),
        other => panic!("wrong plan: {:?}", other),
    }
    match plan_intrinsic(IntrinsicCommand::Stats { sha: Some(s("abc123")) }, s("alice")) {
        IntrinsicPlan::Stats { sha } => assert_eq!(sha, "abc123"),
        other => panic!("wrong plan: {:?}", other),
    }
}

#[test]
fn debug_logging_flag() {
    assert!(debug_logging_enabled(true, false, false));
    assert!(debug_logging_enabled(false, true, false));
    assert!(debug_logging_enabled(false, false, true));
    assert!(!debug_logging_enabled(false, false, false));
}
