use mclocks::config::{
    df_clocks, df_color, df_disable_hover, df_epoch_clock_name, df_font, df_format, df_locale,
    df_margin, df_max_timer_clock_number, df_name, df_size, df_timer_icon, df_timezone,
    get_config_app_path, get_config_file, get_old_config_app_path, InFontSize,
};
use mclocks::web_server::{
    df_dump, df_open_browser_at_start, df_web_port, web_server_config, EditorConfig, WebConfig,
};
use mclocks::window_state::{get_window_state_app_path, get_window_state_file};

#[test]
fn config_paths() {
    let id = "com.example.app".to_string();
    assert_eq!(get_config_file(false), "config.json");
    assert_eq!(get_config_file(true), "dev.config.json");
    assert_eq!(get_old_config_app_path(false), "mclocks/config.json");
    assert_eq!(get_old_config_app_path(true), "mclocks.dev/dev.config.json");
    assert_eq!(get_config_app_path(&id, false), "com.example.app/config.json");
    assert_eq!(get_config_app_path(&id, true), "com.example.app/dev.config.json");
}

#[test]
fn window_state_paths() {
    let id = "com.example.app".to_string();
    assert_eq!(get_window_state_file(false), "window-state.json");
    assert_eq!(get_window_state_file(true), "dev.window-state.json");
    assert_eq!(get_window_state_app_path(&id, false), "com.example.app/window-state.json");
    assert_eq!(get_window_state_app_path(&id, true), "com.example.app/dev.window-state.json");
}

#[test]
fn defaults() {
    assert_eq!(df_name(), "UTC");
    assert_eq!(df_timezone(), "UTC");
    let clocks = df_clocks();
    assert_eq!(clocks.len(), 1);
    assert_eq!(clocks[0].name, "UTC");
    assert_eq!(clocks[0].timezone, "UTC");
    assert!(clocks[0].countdown.is_none() && clocks[0].target.is_none());
    assert_eq!(df_font(), "Courier, monospace");
    assert!(matches!(df_size(), InFontSize::Int(14)));
    assert_eq!(df_color(), "#fff");
    assert_eq!(df_format(), "MM-DD ddd HH:mm");
    assert_eq!(df_locale(), "en");
    assert_eq!(df_margin(), "1.65em");
    assert_eq!(df_timer_icon(), "\u{29D6} ");
    assert_eq!(df_max_timer_clock_number(), 5);
    assert_eq!(df_epoch_clock_name(), "Epoch");
    assert!(df_disable_hover());
    assert_eq!(df_web_port(), 3030);
    assert!(!df_open_browser_at_start());
    assert!(!df_dump());
}

#[test]
fn server_settings_are_taken_over() {
    let web = WebConfig {
        root: "/srv/www".to_string(),
        port: 8080,
        open_browser_at_start: true,
        dump: true,
        slow: false,
        status: true,
        editor: Some(EditorConfig {
            repos_dir: Some("~/src".to_string()),
            include_host: true,
            command: "code".to_string(),
            args: vec!["-g".to_string(), "{file}:{line}".to_string()],
        }),
    };
    let c = web_server_config(web);
    assert_eq!(c.root, "/srv/www");
    assert_eq!(c.port, 8080);
    assert!(c.open_browser_at_start && c.dump && !c.slow && c.status);
    let e = c.editor.unwrap();
    assert_eq!(e.repos_dir.as_deref(), Some("~/src"));
    assert!(e.include_host);
    assert_eq!(e.command, "code");
    assert_eq!(e.args, vec!["-g".to_string(), "{file}:{line}".to_string()]);
}
