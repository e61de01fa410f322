use chainpulse::config::{
    comet_version, comet_version_str, deserialize, ibc_version, ibc_versions, resolve_endpoint, serialize, ChainInfo,
    ChainsReference, CometVersion, Config, ConfigError, Database, Global, Metrics, RawChains, RawConfig, RawEndpoint,
};

fn raw(url: &str, version: &str) -> RawEndpoint {
    RawEndpoint {
        url: url.to_string(),
        comet_version: version.to_string(),
        ibc_version: "v1".to_string(),
        username: None,
        password: None,
    }
}

fn reference() -> ChainsReference {
    ChainsReference {
        chains: vec![(
            "osmosis".to_string(),
            ChainInfo {
                chain_id: "osmosis-1".to_string(),
                rpc: "https://rpc.example".to_string(),
                websocket: "wss://ws.example/websocket".to_string(),
                username: "u".to_string(),
                password: "p".to_string(),
                comet_version: "0.37".to_string(),
            },
        )],
    }
}

#[test]
fn defaults() {
    assert_eq!(comet_version(), CometVersion::V0_34);
    assert_eq!(comet_version_str(), "0.34");
    assert_eq!(ibc_version(), "v1");
    assert_eq!(ibc_versions(), vec!["v1".to_string()]);
    assert_eq!(Global::default().ibc_versions, vec!["v1".to_string()]);
}

#[test]
fn version_tags() {
    assert_eq!(deserialize("0.34"), Ok(CometVersion::V0_34));
    assert_eq!(deserialize("0.37"), Ok(CometVersion::V0_37));
    assert_eq!(deserialize("0.38"), Ok(CometVersion::V0_34));
    assert_eq!(deserialize("0.39"), Err(ConfigError::UnsupportedVersion("0.39".to_string())));
    assert_eq!(serialize(CometVersion::V0_37), "0.37");
    assert_eq!(serialize(CometVersion::V0_34), "0.34");
}

#[test]
fn plain_endpoint() {
    let e = resolve_endpoint(&raw("wss://node.example/websocket", "0.37"), &None).unwrap();
    assert_eq!(e.url, "wss://node.example/websocket");
    assert_eq!(e.comet_version, CometVersion::V0_37);
    assert_eq!(e.version_string(), "0.37");
    let e = resolve_endpoint(&raw("ws://node.example/websocket", "0.38"), &None).unwrap();
    assert_eq!(e.comet_version, CometVersion::V0_34);
    assert_eq!(e.version, "0.38");
}

#[test]
fn reference_endpoint() {
    let e = resolve_endpoint(&raw("ref:osmosis", "0.34"), &Some(reference())).unwrap();
    assert_eq!(e.url, "wss://ws.example/websocket");
    assert_eq!(e.version, "0.37");
    assert_eq!(e.comet_version, CometVersion::V0_37);
    assert_eq!(e.username.as_deref(), Some("u"));
    assert_eq!(e.password.as_deref(), Some("p"));
}

#[test]
fn reference_errors() {
    assert_eq!(
        resolve_endpoint(&raw("ref:osmosis", "0.34"), &None),
        Err(ConfigError::MissingReferenceFile("osmosis".to_string()))
    );
    assert_eq!(
        resolve_endpoint(&raw("ref:cosmoshub", "0.34"), &Some(reference())),
        Err(ConfigError::UnknownReference("cosmoshub".to_string()))
    );
    assert_eq!(
        resolve_endpoint(&raw("https://not-a-websocket", "0.34"), &None),
        Err(ConfigError::InvalidUrl("https://not-a-websocket".to_string()))
    );
}

#[test]
fn whole_config_expands_in_order() {
    let rawc = RawConfig {
        global: Global::default(),
        chains: RawChains {
            endpoints: vec![
                ("a-1".to_string(), raw("wss://a.example/websocket", "0.34")),
                ("b-1".to_string(), raw("ref:osmosis", "0.34")),
            ],
        },
        database: Database { path: "./data.db".to_string() },
        metrics: Metrics { enabled: true, port: 3000, populate_on_start: false },
    };
    let c = Config::from_raw(rawc.clone(), Some(reference())).unwrap();
    assert_eq!(c.chains.endpoints.len(), 2);
    assert_eq!(c.chains.endpoints[1].1.url, "wss://ws.example/websocket");
    assert!(Config::from_raw(rawc, None).is_err());
}
