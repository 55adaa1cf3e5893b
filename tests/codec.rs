use crabbysoccer::client::{parse_input, tokenize_line, ClientCommand};
use crabbysoccer::common::{parse_input_action, InputAction};
use crabbysoccer::requests::{
    clone_authoritative_endpoint_by_uri, parse_request, Endpoint, ParseError, QueryPVMap,
    REQUEST_TERMINATOR, TERMINATOR_CHAR,
};

fn strings(v: &[&str]) -> Vec<String> {
    v.iter().map(|s| s.to_string()).collect()
}

fn endpoint(uri: &str, params: &[(&str, &[&str])]) -> Endpoint {
    let map: QueryPVMap = params.iter().map(|(n, vs)| (n.to_string(), strings(vs))).collect();
    Endpoint::new(uri, map)
}

fn wire(path: &str) -> String {
    format!(
        "GET {} HTTP/1.1\nUser-Agent: crabbysoccer/1.0.0\nHost: 127.0.0.1:7878\n\n{}",
        path, TERMINATOR_CHAR
    )
}

#[test]
fn terminator_char_is_terminator_byte() {
    assert_eq!(TERMINATOR_CHAR as u32, REQUEST_TERMINATOR as u32);
}

#[test]
fn lookup_finds_registry_entries() {
    let e = clone_authoritative_endpoint_by_uri("get-player").unwrap();
    assert_eq!(e.uri, "get-player");
    assert_eq!(e.query_pv_map.len(), 2);
    assert_eq!(e.query_pv_map[0].0, "player_id");
    assert_eq!(e.query_pv_map[1].0, "statistics");
    assert!(e.query_pv_map.iter().all(|(_, v)| v.is_empty()));
    let e = clone_authoritative_endpoint_by_uri("get-all-players").unwrap();
    assert_eq!(e.query_pv_map.len(), 1);
    assert_eq!(e.query_pv_map[0].0, "name");
    assert!(clone_authoritative_endpoint_by_uri("frobnicate").is_none());
    assert!(clone_authoritative_endpoint_by_uri("get-player ").is_none());
}

#[test]
fn valued_uri_without_values_is_bare() {
    let e = endpoint("get-player", &[]);
    assert_eq!(e.get_valued_uri().unwrap(), "/get-player");
    let e = endpoint("get-player", &[("player_id", &[]), ("statistics", &[])]);
    assert_eq!(e.get_valued_uri().unwrap(), "/get-player");
}

#[test]
fn valued_uri_lists_pairs_in_order() {
    let e = endpoint(
        "get-player",
        &[("player_id", &["7"]), ("statistics", &[]), ("x", &["goals", "assists"])],
    );
    assert_eq!(e.get_valued_uri().unwrap(), "/get-player?player_id=7&x=goals,assists");
}

#[test]
fn request_string_envelope() {
    let e = endpoint("get-player", &[("player_id", &["7"])]);
    assert_eq!(e.get_request_string(), wire("/get-player?player_id=7"));
}

#[test]
fn round_trip_keeps_uri_and_values() {
    let e = endpoint(
        "get-player",
        &[("statistics", &["goals", "assists", ""]), ("player_id", &["12345"])],
    );
    let d = parse_request(&e.get_request_string()).unwrap();
    assert_eq!(d.uri, "get-player");
    assert_eq!(d.query_pv_map, e.query_pv_map);
}

#[test]
fn round_trip_drops_parameters_without_values() {
    let e = endpoint("get-all-players", &[("name", &[])]);
    let d = parse_request(&e.get_request_string()).unwrap();
    assert_eq!(d.uri, "get-all-players");
    assert!(d.query_pv_map.is_empty());
}

#[test]
fn decode_without_query_has_empty_map() {
    let d = parse_request(&wire("/get-all-players")).unwrap();
    assert_eq!(d.uri, "get-all-players");
    assert!(d.query_pv_map.is_empty());
}

#[test]
fn decode_without_query_unknown_uri() {
    assert_eq!(parse_request(&wire("/frobnicate")).unwrap_err(), ParseError::UnknownEndpoint);
}

#[test]
fn decode_entry_without_equals() {
    let r = parse_request(&wire("/get-player?player_id"));
    assert_eq!(r.unwrap_err(), ParseError::MalformedParameter);
}

#[test]
fn decode_entry_with_two_equals() {
    let r = parse_request(&wire("/get-player?player_id=7=8"));
    assert_eq!(r.unwrap_err(), ParseError::MalformedParameter);
}

#[test]
fn decode_unknown_parameter() {
    let r = parse_request(&wire("/get-player?name=Smith"));
    assert_eq!(r.unwrap_err(), ParseError::UnknownParameter);
}

#[test]
fn decode_malformed_request_line() {
    assert_eq!(parse_request("GET").unwrap_err(), ParseError::MalformedRequestLine);
    assert_eq!(parse_request("").unwrap_err(), ParseError::MalformedRequestLine);
    assert_eq!(
        parse_request("GET get-player HTTP/1.1\n").unwrap_err(),
        ParseError::MalformedRequestLine
    );
}

#[test]
fn decode_later_duplicate_replaces_earlier() {
    let d = parse_request(&wire("/get-player?player_id=1&player_id=2,3")).unwrap();
    assert_eq!(d.query_pv_map.len(), 1);
    assert_eq!(d.query_pv_map[0].1, strings(&["2", "3"]));
}

#[test]
fn parse_error_messages() {
    assert_eq!(ParseError::UnknownEndpoint.message(), "no such endpoint");
    assert_eq!(ParseError::MalformedParameter.message(), "malformed query parameter");
}

#[test]
fn input_action_words() {
    assert_eq!(parse_input_action(&strings(&["quit"])), Some(InputAction::Quit));
    assert_eq!(parse_input_action(&strings(&["q"])), Some(InputAction::Quit));
    assert_eq!(parse_input_action(&strings(&["h", "x"])), Some(InputAction::Help));
    assert_eq!(parse_input_action(&strings(&["please-help"])), Some(InputAction::Help));
    assert_eq!(parse_input_action(&strings(&["lc"])), Some(InputAction::ListConnections));
    assert_eq!(
        parse_input_action(&strings(&["list-connections"])),
        Some(InputAction::ListConnections)
    );
    assert_eq!(parse_input_action(&strings(&["qq"])), None);
    assert_eq!(parse_input_action(&strings(&[])), None);
}

#[test]
fn tokenize_merges_quoted_words() {
    assert_eq!(tokenize_line("a b"), strings(&["a", "b"]));
    assert_eq!(
        tokenize_line("get-all-players name=\"Joe Smith\" x"),
        strings(&["get-all-players", "name=\"Joe Smith\"", "x"])
    );
    assert_eq!(tokenize_line("a \"b c"), strings(&["a", "\"b c"]));
}

#[test]
fn client_input_builds_request() {
    match parse_input("get-player player_id=7").unwrap() {
        ClientCommand::Send(s) => assert_eq!(s, wire("/get-player?player_id=7")),
        other => panic!("unexpected {:?}", other),
    }
    match parse_input("get-player player_id=12345 statistics=goals,assists").unwrap() {
        ClientCommand::Send(s) => {
            assert_eq!(s, wire("/get-player?player_id=12345&statistics=goals,assists"))
        }
        other => panic!("unexpected {:?}", other),
    }
}

#[test]
fn client_input_control_commands() {
    assert!(matches!(parse_input("quit"), Ok(ClientCommand::Control(InputAction::Quit))));
    assert!(matches!(parse_input("h"), Ok(ClientCommand::Control(InputAction::Help))));
    assert!(matches!(parse_input("lc"), Ok(ClientCommand::Control(InputAction::ListConnections))));
}

#[test]
fn client_input_errors() {
    assert_eq!(parse_input("frobnicate x=1").unwrap_err(), ParseError::UnknownEndpoint);
    assert_eq!(parse_input("get-player player_id").unwrap_err(), ParseError::MalformedParameter);
    assert_eq!(parse_input("get-player a=b=c").unwrap_err(), ParseError::MalformedParameter);
    assert_eq!(parse_input("get-all-players team=x").unwrap_err(), ParseError::UnknownParameter);
}
