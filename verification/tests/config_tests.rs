use grokchat::config::{listen_address, parse_config, parse_startup_args, plan_startup, render_config, AppConfig};

fn args(list: &[&str]) -> Vec<String> {
    list.iter().map(|s| s.to_string()).collect()
}

#[test]
fn parse_config_reads_both_keys() {
    let cfg = parse_config("# comment\nbootstrap_addr=/ip4/10.0.0.1/tcp/4001\nlisten_port=4001\n");
    assert_eq!(cfg.bootstrap_addr, Some("/ip4/10.0.0.1/tcp/4001".to_string()));
    assert_eq!(cfg.listen_port, Some(4001));
}

#[test]
fn parse_config_trims_keys_values_and_crlf() {
    let cfg = parse_config("  bootstrap_addr =  /ip4/1.2.3.4/tcp/1  \r\n\tlisten_port= 80\r\n");
    assert_eq!(cfg.bootstrap_addr, Some("/ip4/1.2.3.4/tcp/1".to_string()));
    assert_eq!(cfg.listen_port, Some(80));
}

#[test]
fn parse_config_ignores_comments_blank_unknown_and_bad_values() {
    let cfg = parse_config("\n   \n# bootstrap_addr=x\nother=1\nno equals sign\nlisten_port=70000\nlisten_port=abc\nbootstrap_addr=\n");
    assert_eq!(cfg.bootstrap_addr, None);
    assert_eq!(cfg.listen_port, None);
}

#[test]
fn parse_config_later_line_wins_and_empty_value_keeps_earlier() {
    let cfg = parse_config("listen_port=1\nlisten_port=2\nbootstrap_addr=a=b\nlisten_port=\n");
    assert_eq!(cfg.listen_port, Some(2));
    assert_eq!(cfg.bootstrap_addr, Some("a=b".to_string()));
}

#[test]
fn parse_config_port_accepts_plus_and_leading_zeros() {
    assert_eq!(parse_config("listen_port=+65535").listen_port, Some(65535));
    assert_eq!(parse_config("listen_port=000080").listen_port, Some(80));
    assert_eq!(parse_config("listen_port=-1").listen_port, None);
    assert_eq!(parse_config("listen_port=+").listen_port, None);
    assert_eq!(parse_config("listen_port=65536").listen_port, None);
}

#[test]
fn parse_config_empty_text() {
    let cfg = parse_config("");
    assert_eq!(cfg.bootstrap_addr, None);
    assert_eq!(cfg.listen_port, None);
}

#[test]
fn render_config_writes_three_lines() {
    let cfg = AppConfig { bootstrap_addr: Some("/ip4/127.0.0.1/tcp/9".to_string()), listen_port: Some(4001) };
    assert_eq!(
        render_config(&cfg),
        "# grokchat startup config\nbootstrap_addr=/ip4/127.0.0.1/tcp/9\nlisten_port=4001"
    );
    let empty = AppConfig::default();
    assert_eq!(render_config(&empty), "# grokchat startup config\nbootstrap_addr=\nlisten_port=");
}

#[test]
fn config_roundtrip_on_concrete_values() {
    for (addr, port) in [
        (Some("/ip4/192.168.1.10/tcp/4001"), Some(0u16)),
        (None, Some(65535u16)),
        (Some("x"), None),
        (None, None),
    ] {
        let cfg = AppConfig { bootstrap_addr: addr.map(|s| s.to_string()), listen_port: port };
        let back = parse_config(&render_config(&cfg));
        assert_eq!(back.bootstrap_addr, cfg.bootstrap_addr);
        assert_eq!(back.listen_port, cfg.listen_port);
    }
}

#[test]
fn startup_args_peer_and_port() {
    let r = parse_startup_args(&args(&["--peer", "/ip4/1.1.1.1/tcp/1", "--port", "4001"])).unwrap();
    assert_eq!(r, (Some("/ip4/1.1.1.1/tcp/1".to_string()), Some(4001)));
}

#[test]
fn startup_args_positional_is_peer_only_when_unset() {
    let r = parse_startup_args(&args(&["/a", "/b"])).unwrap();
    assert_eq!(r, (Some("/a".to_string()), None));
    let r = parse_startup_args(&args(&["--peer", "/p", "/q"])).unwrap();
    assert_eq!(r, (Some("/p".to_string()), None));
    let r = parse_startup_args(&args(&["/q", "--peer", "/p"])).unwrap();
    assert_eq!(r, (Some("/p".to_string()), None));
    let r = parse_startup_args(&args(&[])).unwrap();
    assert_eq!(r, (None, None));
}

#[test]
fn startup_args_errors() {
    assert_eq!(parse_startup_args(&args(&["--peer"])).unwrap_err(), "Ожидается значение после --peer");
    assert_eq!(parse_startup_args(&args(&["--port"])).unwrap_err(), "Ожидается значение после --port");
    assert_eq!(
        parse_startup_args(&args(&["--port", "99999"])).unwrap_err(),
        "Порт должен быть числом 0..65535"
    );
    assert_eq!(parse_startup_args(&args(&["-x"])).unwrap_err(), "Неизвестный аргумент: -x");
    assert_eq!(parse_startup_args(&args(&["/a", "--verbose"])).unwrap_err(), "Неизвестный аргумент: --verbose");
}

#[test]
fn plan_startup_first_run_and_overrides() {
    let p = plan_startup(None, None, None);
    assert!(p.first_run);
    assert!(p.save_config);
    assert_eq!(p.config.bootstrap_addr, None);

    let loaded = AppConfig { bootstrap_addr: Some("/old".to_string()), listen_port: Some(1) };
    let p = plan_startup(Some(loaded.clone()), None, None);
    assert!(!p.first_run);
    assert!(!p.save_config);
    assert_eq!(p.config.bootstrap_addr, Some("/old".to_string()));
    assert_eq!(p.config.listen_port, Some(1));

    let p = plan_startup(Some(loaded), Some("/new".to_string()), None);
    assert!(p.save_config);
    assert_eq!(p.config.bootstrap_addr, Some("/new".to_string()));
    assert_eq!(p.config.listen_port, Some(1));
}

#[test]
fn listen_address_uses_port_or_zero() {
    assert_eq!(listen_address(Some(4001)), "/ip4/0.0.0.0/tcp/4001");
    assert_eq!(listen_address(None), "/ip4/0.0.0.0/tcp/0");
}
