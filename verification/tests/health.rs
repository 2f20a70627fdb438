use twine_daemon::health::{
    after_connect, already_connected, channel_for_peer, connect_request, existing_channel,
    format_ckb, funding_amount, health_report, is_ready_state, opened_channel, parse_u128,
    twine_info, Channel, ChannelList, Config, NodeInfo, DEFAULT_FUNDING_SHANNONS,
};

fn channel(id: &str, pubkey: &str, ckb: bool, state: &str) -> Channel {
    Channel {
        channel_id: Some(id.to_string()),
        pubkey: Some(pubkey.to_string()),
        ckb,
        state_name: Some(state.to_string()),
    }
}

fn config() -> Config {
    Config::from_env(None, None, None, None)
}

#[test]
fn formats_one_ckb() {
    assert_eq!(format_ckb("0x5f5e100").as_deref(), Some("1.00000000"));
}

#[test]
fn prefers_ready_ckb_channel_for_the_peer() {
    let list = ChannelList {
        channels: Some(vec![
            channel("0xpending", "02AA", true, "AwaitingChannelReady"),
            channel("0xudt", "02aa", false, "ChannelReady"),
            channel("0xready", "0x02aa", true, "ChannelReady"),
        ]),
    };
    let found = channel_for_peer(&list, "02aa").unwrap().unwrap();
    assert_eq!(found.channel_id.as_deref(), Some("0xready"));
}

#[test]
fn falls_back_to_the_first_channel_when_none_is_ready() {
    let list = ChannelList {
        channels: Some(vec![
            channel("0xother", "03bb", true, "ChannelReady"),
            channel("0xfirst", "02aa", true, "NegotiatingFunding"),
            channel("0xsecond", "02AA", true, "AwaitingChannelReady"),
        ]),
    };
    let found = channel_for_peer(&list, " 0x02aa ").unwrap().unwrap();
    assert_eq!(found.channel_id.as_deref(), Some("0xfirst"));
    assert!(channel_for_peer(&list, "04cc").unwrap().is_none());
    let missing = ChannelList { channels: None };
    assert_eq!(
        channel_for_peer(&missing, "02aa").unwrap_err(),
        "list_channels response has no channels array"
    );
}

#[test]
fn formats_and_parses_shannon_counts() {
    assert_eq!(format_ckb("150000000").as_deref(), Some("1.50000000"));
    assert_eq!(format_ckb(" 0X0 ").as_deref(), Some("0.00000000"));
    assert_eq!(format_ckb("0x").as_deref(), Some("0.00000000"));
    assert_eq!(format_ckb("0xzz"), None);
    assert_eq!(format_ckb("-1"), None);
    assert_eq!(parse_u128("+42"), Some(42));
    assert_eq!(parse_u128("0xFF"), Some(255));
    assert_eq!(parse_u128(""), None);
    assert_eq!(parse_u128("340282366920938463463374607431768211456"), None);
}

#[test]
fn config_defaults_and_overrides() {
    let c = config();
    assert_eq!(c.listen, "127.0.0.1:8080");
    assert_eq!(c.twine_rpc, "http://127.0.0.1:8237");
    assert_eq!(c.twine_p2p, "/ip4/127.0.0.1/tcp/8238");
    assert_eq!(c.funding_shannons, DEFAULT_FUNDING_SHANNONS);
    let c = Config::from_env(
        Some("0.0.0.0:9000".to_string()),
        Some(String::new()),
        None,
        Some("0x5f5e100".to_string()),
    );
    assert_eq!(c.listen, "0.0.0.0:9000");
    assert_eq!(c.twine_rpc, "http://127.0.0.1:8237");
    assert_eq!(c.funding_shannons, 100_000_000);
    let c = Config::from_env(None, None, None, Some("lots".to_string()));
    assert_eq!(c.funding_shannons, DEFAULT_FUNDING_SHANNONS);
    assert_eq!(funding_amount(&c), "0xba43b7400");
}

#[test]
fn health_is_ready_when_twine_answers_with_a_key() {
    let c = config();
    let ok = health_report(
        &c,
        Ok(NodeInfo { pubkey: Some("02aa".to_string()), node_name: Some("twine".to_string()) }),
    );
    assert!(ok.ready);
    assert_eq!(ok.twine.rpc, "http://127.0.0.1:8237");
    assert_eq!(ok.twine.pubkey.as_deref(), Some("02aa"));
    let down = health_report(&c, Err("connection refused".to_string()));
    assert!(!down.ready);
    assert_eq!(down.twine.error.as_deref(), Some("connection refused"));
    let info = twine_info(&c, Ok(NodeInfo { pubkey: None, node_name: None }));
    assert_eq!(info.p2p_address, "/ip4/127.0.0.1/tcp/8238");
    assert!(info.pubkey.is_none());
    assert!(info.error.is_none());
}

#[test]
fn connect_checks_and_answers() {
    assert_eq!(connect_request(" ", "/ip4/x").unwrap_err(), "pubkey is required");
    assert_eq!(connect_request("02aa", "").unwrap_err(), "address is required");
    assert_eq!(
        connect_request(" 02aa ", " /ip4/1 ").unwrap(),
        ("02aa".to_string(), "/ip4/1".to_string())
    );
    assert!(already_connected("Peer ALREADY known"));
    assert!(already_connected("session connected"));
    assert!(!already_connected("timeout"));
    assert!(after_connect(Err("already connected".to_string())).is_ok());
    assert_eq!(after_connect(Err("refused".to_string())).unwrap_err(), "refused");
    assert!(is_ready_state("CHANNEL_READY"));
    assert!(!is_ready_state("channelready"));

    let list = ChannelList {
        channels: Some(vec![channel("0xpending", "02aa", true, "AwaitingChannelReady")]),
    };
    let answer = existing_channel(&list, "02aa").unwrap().unwrap();
    assert!(answer.connected);
    assert!(!answer.channel_open);
    assert_eq!(answer.channel_id.as_deref(), Some("0xpending"));
    assert_eq!(answer.message, "Twine is already opening a channel to this node");
    assert!(existing_channel(&list, "03bb").unwrap().is_none());

    let opened = opened_channel(Some(list), "02aa");
    assert!(opened.channel_open);
    assert_eq!(opened.channel_id.as_deref(), Some("0xpending"));
    assert_eq!(opened.message, "Twine connected and opened a channel toward this node");
    assert!(opened_channel(None, "02aa").channel_id.is_none());
}
