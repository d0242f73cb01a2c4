use tmuxtui::managed_config::{ManagedConfig, Settings, read_settings, render_settings, render_tmux_conf};

#[test]
fn renders_settings_file() {
    let settings = Settings { show_hints: false, show_status: true, sidebar_percent: 24, sidebar_auto: true };

    assert_eq!(
        render_settings(&settings),
        "show_hints=false\nshow_status=true\nsidebar_percent=24\nsidebar_auto=true\n"
    );
}

#[test]
fn renders_tmux_status_line_when_enabled() {
    let settings = Settings { show_hints: true, show_status: true, sidebar_percent: 24, sidebar_auto: false };

    let tmux_conf = render_tmux_conf(&settings);
    assert!(tmux_conf.contains("set -g status on"));
    assert!(tmux_conf.contains("status-left"));
    assert!(tmux_conf.contains("status-right"));
}

#[test]
fn renders_prefix_that_leaves_readline_start_key_alone() {
    let tmux_conf = render_tmux_conf(&Settings::default());

    assert!(tmux_conf.contains("set -g prefix C-g"));
    assert!(tmux_conf.contains("bind C-g send-prefix"));
    assert!(!tmux_conf.contains("set -g prefix C-a"));
}

#[test]
fn renders_detach_binding_that_persists_live_target() {
    let tmux_conf = render_tmux_conf(&Settings::default());

    assert!(tmux_conf.contains("@tmuxtui-session"));
    assert!(tmux_conf.contains("@tmuxtui-window"));
    assert!(tmux_conf.contains("@tmuxtui-pane"));
    assert!(tmux_conf.contains("detach-client"));
}

#[test]
fn renders_idempotent_tmux_options() {
    let tmux_conf = render_tmux_conf(&Settings::default());

    assert!(tmux_conf.contains("set -s terminal-features"));
    assert!(tmux_conf.contains("xterm*:clipboard:ccolour:cstyle:focus:title:RGB"));
    assert!(tmux_conf.contains("screen*:title:RGB"));
    assert!(tmux_conf.contains("set -g update-environment"));
    assert!(!tmux_conf.contains("set -as terminal-features"));
    assert!(!tmux_conf.contains("set -ga update-environment"));
}

#[test]
fn default_settings_hide_hints_and_show_status() {
    let s = Settings::default();
    assert!(!s.show_hints);
    assert!(s.show_status);
    assert_eq!(s.sidebar_percent, 12);
    assert!(!s.sidebar_auto);
}

#[test]
fn status_off_renders_status_off_line() {
    let s = Settings { show_hints: false, show_status: false, sidebar_percent: 12, sidebar_auto: false };
    let conf = render_tmux_conf(&s);
    assert!(conf.contains("set -g status off"));
    assert!(!conf.contains("set -g status on"));
}

#[test]
fn settings_read_back_what_was_written() {
    for (hints, status, percent, auto) in [(false, true, 24u8, true), (true, false, 0u8, false), (true, true, 100u8, true)] {
        let s = Settings { show_hints: hints, show_status: status, sidebar_percent: percent, sidebar_auto: auto };
        let back = read_settings(&render_settings(&s));
        assert_eq!(back.show_hints, hints);
        assert_eq!(back.show_status, status);
        assert_eq!(back.sidebar_percent, percent);
        assert_eq!(back.sidebar_auto, auto);
    }
}

#[test]
fn reading_settings_skips_blank_and_unknown_lines_and_clamps_percent() {
    let s = read_settings("\n  show_hints = true \nnonsense\ncolor=blue\nsidebar_percent=250\nshow_status=yes\n");
    assert!(s.show_hints);
    assert!(!s.show_status);
    assert_eq!(s.sidebar_percent, 100);
    assert!(!s.sidebar_auto);
}

#[test]
fn reading_settings_keeps_defaults_for_bad_numbers() {
    let s = read_settings("sidebar_percent=abc\nsidebar_percent=-3\n");
    assert_eq!(s.sidebar_percent, 12);
    let t = read_settings("sidebar_percent=+40\n");
    assert_eq!(t.sidebar_percent, 40);
}

#[test]
fn config_in_directory_writes_both_files() {
    let managed = ManagedConfig::from_dir("/tmp/tmuxtui-config", Some("show_hints=true\n"));
    assert!(managed.settings().show_hints);
    assert_eq!(managed.tmux_conf(), "/tmp/tmuxtui-config/tmux.conf");
    assert_eq!(managed.archive_dir(), "/tmp/tmuxtui-config/archive");
    let files = managed.sync_files();
    assert_eq!(files.len(), 2);
    assert_eq!(files[0].path, "/tmp/tmuxtui-config/settings.conf");
    assert_eq!(files[0].contents, render_settings(managed.settings()));
    assert_eq!(files[1].path, "/tmp/tmuxtui-config/tmux.conf");
    assert_eq!(files[1].contents, render_tmux_conf(managed.settings()));
}

#[test]
fn changing_settings_rewrites_files() {
    let mut managed = ManagedConfig::from_dir("/tmp/tmuxtui-config", None);
    let files = managed.set_sidebar_percent(150);
    assert_eq!(managed.settings().sidebar_percent, 100);
    assert!(!managed.settings().sidebar_auto);
    assert!(files[0].contents.contains("sidebar_percent=100\n"));
    let files = managed.set_sidebar_auto();
    assert!(managed.settings().sidebar_auto);
    assert!(files[0].contents.contains("sidebar_auto=true\n"));
    let files = managed.set_show_status(false);
    assert!(files[1].contents.contains("set -g status off"));
    let files = managed.set_show_hints(true);
    assert!(files[0].contents.starts_with("show_hints=true\n"));
}
