use capability_host::manifest::{
    Capability, Config, EnvVar, ManifestError, Opt, Route, Topic,
};
use capability_host::naming::{handler_name, to_snake_case};

fn route(path: &str, method: &str, request: &str, reply: &str) -> Route {
    Route {
        path: path.to_string(),
        method: method.to_string(),
        request_type: request.to_string(),
        reply_type: reply.to_string(),
    }
}

fn var(name: &str, default: Option<&str>) -> EnvVar {
    EnvVar { name: name.to_string(), ty: "String".to_string(), default: default.map(String::from) }
}

fn capabilities(names: &[&str]) -> Option<Vec<Capability>> {
    names.iter().map(|name| Capability::from_name(name)).collect()
}

#[test]
fn parse_capabilities() {
    let parsed = capabilities(&["HttpRequest", "Identity", "Publisher", "StateStore"])
        .expect("should parse");
    assert_eq!(parsed.len(), 4);
    assert_eq!(parsed[0], Capability::HttpRequest);
    assert_eq!(parsed[1], Capability::Identity);
    assert_eq!(parsed[2], Capability::Publisher);
    assert_eq!(parsed[3], Capability::StateStore);
}

#[test]
fn parse_single_capability() {
    let parsed = capabilities(&["HttpRequest"]).expect("should parse");
    assert_eq!(parsed.len(), 1);
    assert_eq!(parsed[0], Capability::HttpRequest);
}

#[test]
fn unknown_capabilities_are_no_capabilities() {
    assert_eq!(Capability::from_name("Config"), None);
    assert_eq!(Capability::from_name("httprequest"), None);
    assert_eq!(Capability::from_name(""), None);
    assert_eq!(capabilities(&["HttpRequest", "Teleport"]), None);
}

#[test]
fn parse_environment() {
    let vars = vec![var("ENV", Some("dev")), var("BLOCK_MGT_URL", None), var("CC_STATIC_URL", None)];
    let parsed = Config::from_options(vec![
        Opt::Owner("at".to_string()),
        Opt::Provider("MyProvider".to_string()),
        Opt::Environment(vars),
    ])
    .expect("should parse");
    let vars = parsed.environment.expect("should have environment");
    assert_eq!(vars.len(), 3);

    assert_eq!(vars[0].name, "ENV");
    assert!(vars[0].default.is_some());
    assert_eq!(vars[0].default.as_ref().unwrap(), "dev");

    assert_eq!(vars[1].name, "BLOCK_MGT_URL");
    assert!(vars[1].default.is_none());
    assert_eq!(to_snake_case(&vars[1].name), "block_mgt_url");
}

#[test]
fn parse_config() {
    let parsed = Config::from_options(vec![
        Opt::Owner("at".to_string()),
        Opt::Provider("MyProvider".to_string()),
        Opt::Http(vec![route("/jobs/detector", "get", "DetectionRequest", "DetectionReply")]),
        Opt::Messaging(vec![Topic {
            pattern: "realtime-r9k.v1".to_string(),
            message_type: "R9kMessage".to_string(),
        }]),
    ])
    .expect("should parse");

    let http = parsed.http.expect("should have http");
    assert_eq!(http.len(), 1);
    assert_eq!(handler_name(&http[0].path), "jobs_detector");

    let messaging = parsed.messaging.expect("should have messaging");
    assert_eq!(messaging.len(), 1);
    assert_eq!(messaging[0].pattern, "realtime-r9k.v1");
    assert_eq!(parsed.owner, "at");
    assert_eq!(parsed.provider, "MyProvider");
    assert_eq!(parsed.capabilities, None);
    assert_eq!(parsed.environment, None);
}

#[test]
fn parse_http_path_params() {
    let parsed = Config::from_options(vec![
        Opt::Owner("at".to_string()),
        Opt::Provider("MyProvider".to_string()),
        Opt::Http(vec![route(
            "/god-mode/set-trip/{vehicle_id}/{trip_id}",
            "get",
            "SetTripRequest",
            "SetTripReply",
        )]),
    ])
    .expect("should parse");
    let http = parsed.http.expect("should have http");
    assert_eq!(http.len(), 1);
    assert_eq!(handler_name(&http[0].path), "god_mode_set_trip_vehicle_id_trip_id");
}

#[test]
fn a_manifest_needs_one_owner_and_one_provider() {
    let owner = || Opt::Owner("at".to_string());
    let provider = || Opt::Provider("P".to_string());
    assert_eq!(Config::from_options(vec![]), Err(ManifestError::MissingOwner));
    assert_eq!(Config::from_options(vec![provider()]), Err(ManifestError::MissingOwner));
    assert_eq!(Config::from_options(vec![owner()]), Err(ManifestError::MissingProvider));
    assert_eq!(
        Config::from_options(vec![owner(), provider(), owner()]),
        Err(ManifestError::SecondOwner)
    );
    assert_eq!(
        Config::from_options(vec![provider(), provider(), owner(), owner()]),
        Err(ManifestError::SecondProvider)
    );
    assert_eq!(
        Config::from_options(vec![owner(), owner(), provider(), provider()]),
        Err(ManifestError::SecondOwner)
    );
    assert_eq!(ManifestError::SecondOwner.to_string(), "cannot specify second owner");
    assert_eq!(ManifestError::SecondProvider.to_string(), "cannot specify second provider");
    assert_eq!(ManifestError::MissingOwner.to_string(), "missing `owner`");
    assert_eq!(ManifestError::MissingProvider.to_string(), "missing `provider`");
}

#[test]
fn of_the_lists_of_a_manifest_the_last_one_counts() {
    let parsed = Config::from_options(vec![
        Opt::Capabilities(vec![Capability::Identity]),
        Opt::Owner("at".to_string()),
        Opt::Capabilities(vec![Capability::Publisher, Capability::StateStore]),
        Opt::Provider("P".to_string()),
        Opt::Environment(vec![var("A", None)]),
        Opt::Environment(vec![]),
    ])
    .unwrap();
    assert_eq!(parsed.capabilities, Some(vec![Capability::Publisher, Capability::StateStore]));
    assert_eq!(parsed.environment, Some(vec![]));
    assert_eq!(parsed.http, None);
}
