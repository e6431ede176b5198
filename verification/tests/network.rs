use citybound::cli::{build_cli, matches_to_config, parse_cmd_line_args_from, ArgError};
use citybound::network::{
    display_url, error_body, error_console_text, error_file_content, panic_location,
    panic_message, push_recent_sample, start_message_lines, NetworkConfig,
};

#[test]
fn parses_default_local_args() {
    let (cfg, city_folder) = parse_cmd_line_args_from("0.0.0", vec!["citybound"]).unwrap();

    assert_eq!(cfg.mode, "local");
    assert_eq!(cfg.serve_host_port, "localhost:1234");
    assert_eq!(cfg.bind_sim, "localhost:9999");
    assert_eq!(cfg.batch_msg_bytes, 500000);
    assert_eq!(cfg.ok_turn_dist, 2);
    assert_eq!(cfg.skip_ratio, 5);
    assert_eq!(city_folder, "./city");
}

#[test]
fn parses_mode_internet_defaults() {
    let (cfg, _) =
        parse_cmd_line_args_from("0.0.0", vec!["citybound", "--mode", "internet"]).unwrap();

    assert_eq!(cfg.mode, "internet");
    assert_eq!(cfg.serve_host_port, "0.0.0.0:1234");
    assert_eq!(cfg.bind_sim, "0.0.0.0:9999");
    assert_eq!(cfg.ok_turn_dist, 30);
}

#[test]
fn parses_explicit_overrides() {
    let (cfg, city_folder) = parse_cmd_line_args_from(
        "0.0.0",
        vec![
            "citybound",
            "my_city",
            "--mode",
            "lan",
            "--bind",
            "127.0.0.1:8080",
            "--bind-sim",
            "127.0.0.1:9000",
            "--batch-msg-bytes",
            "12345",
            "--ok-turn-dist",
            "99",
            "--skip-ratio",
            "7",
        ],
    )
    .unwrap();

    assert_eq!(cfg.mode, "lan");
    assert_eq!(cfg.serve_host_port, "127.0.0.1:8080");
    assert_eq!(cfg.bind_sim, "127.0.0.1:9000");
    assert_eq!(cfg.batch_msg_bytes, 12345);
    assert_eq!(cfg.ok_turn_dist, 99);
    assert_eq!(cfg.skip_ratio, 7);
    assert_eq!(city_folder, "my_city");
}

#[test]
fn formats_display_url_for_all_modes() {
    let mut cfg = NetworkConfig {
        mode: "local".to_owned(),
        serve_host_port: "0.0.0.0:1234".to_owned(),
        bind_sim: "0.0.0.0:9999".to_owned(),
        batch_msg_bytes: 1,
        ok_turn_dist: 1,
        skip_ratio: 1,
    };

    assert_eq!(display_url(&cfg), "http://localhost:1234");

    cfg.mode = "lan".to_owned();
    assert_eq!(display_url(&cfg), "http://<your LAN IP>:1234");

    cfg.mode = "internet".to_owned();
    assert_eq!(display_url(&cfg), "http://<your public IP>:1234");
}

#[test]
fn parse_rejects_invalid_mode() {
    let result = parse_cmd_line_args_from("0.0.0", vec!["citybound", "--mode", "invalid"]);
    assert!(result.is_err());
}

#[test]
fn lan_mode_defaults() {
    let (cfg, _) = parse_cmd_line_args_from("1.0", vec!["citybound", "--mode=lan"]).unwrap();
    assert_eq!(cfg.serve_host_port, "0.0.0.0:1234");
    assert_eq!(cfg.ok_turn_dist, 10);
}

#[test]
fn option_values_are_read_like_str_parse() {
    let (cfg, folder) = parse_cmd_line_args_from(
        "1.0",
        vec!["citybound", "--batch-msg-bytes", "+12", "--ok-turn-dist=0", "--skip-ratio", "007", "--", "-town"],
    )
    .unwrap();
    assert_eq!(cfg.batch_msg_bytes, 12);
    assert_eq!(cfg.ok_turn_dist, 0);
    assert_eq!(cfg.skip_ratio, 7);
    assert_eq!(folder, "-town");
}

#[test]
fn lan_mode_gives_its_defaults_to_every_argument() {
    let cli = build_cli("1.0");
    let m = cli.get_matches_from_safe(&vec!["citybound", "--mode", "lan"]).unwrap();
    assert_eq!(m.value_of("mode"), Some("lan"));
    assert_eq!(m.value_of("bind"), Some("0.0.0.0:1234"));
    assert_eq!(m.value_of("bind-sim"), Some("0.0.0.0:9999"));
    assert_eq!(m.value_of("ok-turn-dist"), Some("10"));
    assert_eq!(m.value_of("batch-msg-b"), Some("500000"));
    assert_eq!(m.value_of("skip-ratio"), Some("5"));
    assert_eq!(m.value_of("CITY_FOLDER"), Some("./city"));
    assert_eq!(m.value_of("batch-msg-bytes"), None);
    let (cfg, folder) = matches_to_config(&m);
    assert_eq!(cfg.mode, "lan");
    assert_eq!(cfg.batch_msg_bytes, 500000);
    assert_eq!(folder, "./city");
}

#[test]
fn version_line_shows_the_trimmed_version() {
    assert_eq!(build_cli(" 0.3.1\n").version_line(), "citybound 0.3.1");
}

#[test]
fn refused_command_lines() {
    let refused = |args: Vec<&str>| parse_cmd_line_args_from("1.0", args).err();
    assert_eq!(refused(vec!["citybound", "--help"]), Some(ArgError::HelpRequested));
    assert_eq!(refused(vec!["citybound", "-h"]), Some(ArgError::HelpRequested));
    assert_eq!(refused(vec!["citybound", "--version"]), Some(ArgError::VersionRequested));
    assert_eq!(refused(vec!["citybound", "-V"]), Some(ArgError::VersionRequested));
    assert_eq!(refused(vec!["citybound", "--port", "1"]), Some(ArgError::UnknownArgument));
    assert_eq!(refused(vec!["citybound", "-x"]), Some(ArgError::UnknownArgument));
    assert_eq!(
        refused(vec!["citybound", "--bind", "a:1", "--bind", "b:2"]),
        Some(ArgError::RepeatedArgument)
    );
    assert_eq!(refused(vec!["citybound", "--bind"]), Some(ArgError::MissingValue));
    assert_eq!(refused(vec!["citybound", "--bind", "--mode", "lan"]), Some(ArgError::MissingValue));
    assert_eq!(refused(vec!["citybound", "one", "two"]), Some(ArgError::ExtraValue));
    assert_eq!(refused(vec!["citybound", "--mode", "moon"]), Some(ArgError::InvalidMode));
    assert_eq!(refused(vec!["citybound", "--mode=lan"]), None);
    assert_eq!(refused(vec![]), None);
}

#[test]
fn display_url_takes_the_part_after_the_last_colon() {
    let cfg = NetworkConfig {
        mode: "local".to_owned(),
        serve_host_port: "[::1]:8080".to_owned(),
        bind_sim: String::new(),
        batch_msg_bytes: 1,
        ok_turn_dist: 1,
        skip_ratio: 1,
    };
    assert_eq!(display_url(&cfg), "http://localhost:8080");
}

#[test]
fn start_message_centres_its_lines() {
    let cfg = NetworkConfig {
        mode: "local".to_owned(),
        serve_host_port: "localhost:1234".to_owned(),
        bind_sim: String::new(),
        batch_msg_bytes: 1,
        ok_turn_dist: 1,
        skip_ratio: 1,
    };
    let lines = start_message_lines(" 0.1.2\n", &cfg);
    assert_eq!(lines.len(), 8);
    assert_eq!(lines[0], format!("  {: ^41}  ", "Citybound 0.1.2"));
    assert_eq!(lines[1], "");
    assert_eq!(lines[2], format!("  {: ^41}  ", "This is the simulation server."));
    assert_eq!(lines[5], "╭───────────────────────────────────────────╮");
    assert_eq!(lines[6], format!("│ {: ^41} │", "http://localhost:1234"));
    assert_eq!(lines[7], "╰───────────────────────────────────────────╯");
}

#[test]
fn recent_samples_keep_the_last_ten() {
    let mut samples: Vec<u32> = Vec::new();
    for i in 0..15 {
        push_recent_sample(&mut samples, i);
    }
    assert_eq!(samples, vec![5, 6, 7, 8, 9, 10, 11, 12, 13, 14]);
}

#[test]
fn crash_report_texts() {
    assert_eq!(panic_message(Some("boom-string"), None), "boom-string");
    assert_eq!(panic_message(None, Some("boom")), "boom");
    assert_eq!(panic_message(None, None), "Weird error type");
    assert_eq!(panic_location(Some("src/a.rs"), Some(42)), "at src/a.rs, line 42");
    assert_eq!(panic_location(None, None), "at unknown, line 0");
    let body = error_body("boom", "at x, line 1", "bt");
    assert_eq!(body, "WHAT HAPPENED:\nboom\n\nWHERE IT HAPPENED:\nat x, line 1\n\nWHERE EXACTLY:\nbt");
    let console = error_console_text(&body, "\"/tmp/cb_last_error.txt\"");
    assert!(console.starts_with("SIMULATION BROKE :(\n\nWHAT HAPPENED:\nboom"));
    assert!(console.ends_with("ERROR ALSO SAVED AT \"/tmp/cb_last_error.txt\"\nTHIS CRASH PROBABLY CORRUPTED YOUR SAVEGAME :("));
    let file = error_file_content(&body);
    assert!(file.starts_with("SIMULATION BROKE :(\r\n\r\nHOW TO REPORT BUGS:\r\nhttps://github.com/citybound/citybound/blob/master/CONTRIBUTING.md#reporting-bugs\r\n\r\nWHAT HAPPENED:\r\nboom"));
    assert!(!file.replace("\r\n", "").contains('\n'));
}
