use tmux_sidecar::tmux::hooks::{
    init_plugin_snippet, install_hook_commands, installed_hooks, managed_hooks, shell_quote, uninstall_hook_commands,
    window_monitoring_commands, HookCommandProgram, CLIENT_NAME_FORMAT, PANE_ID_FORMAT, SESSION_ID_FORMAT,
    TMUX_SOCKET_PATH_FORMAT, WINDOW_ID_FORMAT, WINDOW_INDEX_FORMAT,
};

#[test]
fn installed_hooks_cover_expected_names_and_reserved_indices() {
    let hooks = installed_hooks(&HookCommandProgram::default());
    let names: Vec<_> = hooks.iter().map(|hook| hook.name).collect();

    assert_eq!(
        names,
        vec![
            "session-created",
            "session-closed",
            "session-renamed",
            "session-window-changed",
            "window-linked",
            "window-unlinked",
            "window-renamed",
            "window-pane-changed",
            "window-layout-changed",
            "alert-bell",
            "client-attached",
            "client-detached",
            "client-session-changed",
            "after-new-session",
            "after-new-window",
            "after-rename-session",
            "after-rename-window",
            "after-kill-pane",
            "after-select-window",
        ]
    );

    let indices: Vec<_> = hooks.iter().map(|hook| hook.index).collect();
    assert_eq!(
        indices,
        vec![900, 901, 902, 903, 904, 905, 906, 907, 908, 910, 912, 913, 914, 915, 916, 917, 918, 919, 920,]
    );
    assert!(indices.last().copied().unwrap_or_default() <= 949);
}

#[test]
fn managed_hooks_include_disabled_activity_slots_for_cleanup() {
    let hooks = managed_hooks(&HookCommandProgram::default());

    assert!(hooks.iter().any(|hook| hook.qualified_name() == "alert-activity[909]"));
    assert!(hooks.iter().any(|hook| hook.qualified_name() == "alert-silence[911]"));
    assert!(!installed_hooks(&HookCommandProgram::default())
        .iter()
        .any(|hook| matches!(hook.name, "alert-activity" | "alert-silence")));
}

#[test]
fn alert_hook_commands_use_raw_q_tmux_formats() {
    let hooks = installed_hooks(&HookCommandProgram::default());
    let alert_hook = hooks.iter().find(|hook| hook.name == "alert-bell").expect("missing alert-bell hook");

    assert!(alert_hook.command.contains(TMUX_SOCKET_PATH_FORMAT));
    assert!(alert_hook.command.contains(SESSION_ID_FORMAT));
    assert!(alert_hook.command.contains(WINDOW_ID_FORMAT));
    assert!(alert_hook.command.contains(WINDOW_INDEX_FORMAT));
    assert!(alert_hook.command.contains(PANE_ID_FORMAT));
    assert!(!alert_hook.command.contains(&format!("'{TMUX_SOCKET_PATH_FORMAT}'")));
    assert!(!alert_hook.command.contains(&format!("'{SESSION_ID_FORMAT}'")));
    assert!(!alert_hook.command.contains(&format!("'{WINDOW_ID_FORMAT}'")));
    assert!(!alert_hook.command.contains(&format!("'{WINDOW_INDEX_FORMAT}'")));
    assert!(!alert_hook.command.contains(&format!("'{PANE_ID_FORMAT}'")));
    assert!(!alert_hook.command.contains("#{socket_path}"));
    assert!(!alert_hook.command.contains("#{session_id}"));
    assert!(!alert_hook.command.contains("#{window_id}"));
    assert!(!alert_hook.command.contains("#{window_index}"));
    assert!(!alert_hook.command.contains("#{pane_id}"));
}

#[test]
fn client_hook_commands_use_q_client_name() {
    let hooks = installed_hooks(&HookCommandProgram::default());
    let client_hook = hooks.iter().find(|hook| hook.name == "client-attached").expect("missing client-attached hook");

    assert!(client_hook.command.contains(CLIENT_NAME_FORMAT));
    assert!(!client_hook.command.contains("#{client_name}"));
}

#[test]
fn init_plugin_snippet_prints_run_shell_install_command() {
    let snippet = init_plugin_snippet(&HookCommandProgram::default());

    assert_eq!(
        snippet,
        "# tmux-sidecar hook/server rewrite\n# Installs or refreshes tmux-sidecar hooks for the current tmux server.\nrun-shell -b 'tmux-sidecar install-hooks'\n"
    );
}

#[test]
fn hook_program_shell_quotes_custom_binary_path() {
    let program = HookCommandProgram::new(vec![String::from("/opt/tmux sidecar/bin/tmux-sidecar")]);
    let hooks = installed_hooks(&program);
    let hook = hooks.iter().find(|hook| hook.name == "session-created").expect("missing session-created hook");

    assert!(hook.command.contains("'/opt/tmux sidecar/bin/tmux-sidecar' hook"));
}

#[test]
fn shell_quote_leaves_safe_words_and_escapes_single_quotes() {
    assert_eq!(shell_quote("tmux-sidecar"), "tmux-sidecar");
    assert_eq!(shell_quote(""), "''");
    assert_eq!(shell_quote("it's"), "'it'\"'\"'s'");
}

#[test]
fn every_installed_hook_index_is_reserved_and_increasing() {
    let hooks = installed_hooks(&HookCommandProgram::default());
    for pair in hooks.windows(2) {
        assert!(pair[0].index < pair[1].index);
    }
    assert!(hooks.iter().all(|hook| (900..=949).contains(&hook.index)));
}

#[test]
fn uninstall_commands_unset_every_managed_slot() {
    let managed = managed_hooks(&HookCommandProgram::default());
    let commands = uninstall_hook_commands();
    assert_eq!(commands.len(), managed.len());
    for (command, hook) in commands.iter().zip(managed.iter()) {
        assert!(command.contains(&hook.qualified_name()));
    }
    assert!(install_hook_commands(&HookCommandProgram::default()).len() >= installed_hooks(&HookCommandProgram::default()).len());
}

#[test]
fn window_monitoring_targets_the_window() {
    let commands = window_monitoring_commands("@7");
    assert!(!commands.is_empty());
    assert!(commands.iter().all(|command| command.iter().any(|arg| arg == "@7")));
}
