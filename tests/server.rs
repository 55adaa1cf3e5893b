use crabbysoccer::client::{parse_input, ClientCommand};
use crabbysoccer::common::{InputAction, StatefulFormat};
use crabbysoccer::database::{get_all_players_sql, get_ignored_columns, get_player_sql, parsed_rows_to_string};
use crabbysoccer::queries::{
    get_predefined_query, PredefinedQuery, PredefinedQueryTrait, TableAttributes, TableName,
    TableNameTrait, TablePlayerAttributes, TablePositionAttributes, TableStatisticsAttributes,
};
use crabbysoccer::requests::{parse_request, TERMINATOR_CHAR};
use crabbysoccer::server::{
    dispatch_request, frame_response, parse_server_input, route_request, ConnectionRegistry,
    Dispatch, QueryCall, NO_RESPONSE_PAYLOAD,
};

fn sent(line: &str) -> String {
    match parse_input(line).unwrap() {
        ClientCommand::Send(s) => s,
        other => panic!("unexpected {:?}", other),
    }
}

fn strings(v: &[&str]) -> Vec<String> {
    v.iter().map(|s| s.to_string()).collect()
}

#[test]
fn get_player_routes_to_one_player_without_statistics() {
    match dispatch_request(&sent("get-player player_id=7")) {
        Dispatch::Query(QueryCall::Player { player_id, statistics }) => {
            assert_eq!(player_id.as_deref(), Some("7"));
            assert!(statistics.is_none());
            assert_eq!(
                get_player_sql(player_id.as_deref(), statistics.as_ref()),
                "SELECT player.id, player.name, position.name as position  FROM player JOIN statistics ON player.id = statistics.player_id JOIN position ON player.id = position.player_id WHERE player.id = 7;"
            );
        }
        other => panic!("unexpected {:?}", other),
    }
}

#[test]
fn get_player_with_statistics_columns() {
    let stats = strings(&["goals", "assists"]);
    assert_eq!(
        get_player_sql(None, Some(&stats)),
        "SELECT player.id, player.name, position.name as position ,statistics.goals,statistics.assists FROM player JOIN statistics ON player.id = statistics.player_id JOIN position ON player.id = position.player_id ;"
    );
}

#[test]
fn get_all_players_routes_name_filter() {
    match dispatch_request(&sent("get-all-players name=Smith")) {
        Dispatch::Query(QueryCall::AllPlayers { name }) => {
            assert_eq!(name.as_deref(), Some("Smith"));
            assert_eq!(
                get_all_players_sql(name.as_deref()),
                "SELECT * FROM player WHERE player.name LIKE \"%Smith%\""
            );
        }
        other => panic!("unexpected {:?}", other),
    }
    assert_eq!(get_all_players_sql(None), "SELECT * FROM player");
}

#[test]
fn name_filter_reads_plus_as_space() {
    let e = parse_request(&sent("get-all-players name=Joe+Smith")).unwrap();
    match route_request(&e) {
        Some(QueryCall::AllPlayers { name }) => assert_eq!(name.as_deref(), Some("Joe Smith")),
        other => panic!("unexpected {:?}", other),
    }
    let e = parse_request(&sent("get-all-players name=a,b")).unwrap();
    match route_request(&e) {
        Some(QueryCall::AllPlayers { name }) => assert!(name.is_none()),
        other => panic!("unexpected {:?}", other),
    }
}

#[test]
fn unknown_endpoint_gets_fixed_payload() {
    let request = format!(
        "GET /frobnicate?x=1 HTTP/1.1\nUser-Agent: crabbysoccer/1.0.0\nHost: 127.0.0.1:7878\n\n{}",
        TERMINATOR_CHAR
    );
    match dispatch_request(&request) {
        Dispatch::Reply(s) => assert_eq!(s, format!("{}{}", NO_RESPONSE_PAYLOAD, TERMINATOR_CHAR)),
        other => panic!("unexpected {:?}", other),
    }
    match dispatch_request("garbage") {
        Dispatch::Reply(s) => assert_eq!(s, format!("{}{}", NO_RESPONSE_PAYLOAD, TERMINATOR_CHAR)),
        other => panic!("unexpected {:?}", other),
    }
}

#[test]
fn response_is_framed() {
    assert_eq!(frame_response("rows"), format!("rows{}", TERMINATOR_CHAR));
    assert_eq!(frame_response(""), TERMINATOR_CHAR.to_string());
}

#[test]
fn operator_commands_ignore_case() {
    assert_eq!(parse_server_input("QUIT now"), Some(InputAction::Quit));
    assert_eq!(parse_server_input("LC"), Some(InputAction::ListConnections));
    assert_eq!(parse_server_input("Help"), Some(InputAction::Help));
    assert_eq!(parse_server_input("status"), None);
}

#[test]
fn registry_keeps_handles_stable() {
    let mut r = ConnectionRegistry::new();
    let a = r.register("127.0.0.1:1".to_string());
    let b = r.register("127.0.0.1:2".to_string());
    let c = r.register("127.0.0.1:3".to_string());
    assert_eq!((a, b, c), (0, 1, 2));
    assert!(r.deregister(b));
    assert!(!r.deregister(b));
    assert!(!r.deregister(9));
    assert_eq!(r.live_names(), strings(&["127.0.0.1:1", "127.0.0.1:3"]));
    assert_eq!(r.live_handles(), vec![0, 2]);
    assert_eq!(r.register("127.0.0.1:4".to_string()), 3);
}

#[test]
fn rows_text_layout() {
    let cols = strings(&["id", "name"]);
    let rows = vec![strings(&["1", "Joe"]), strings(&["2", "Ann"])];
    assert_eq!(parsed_rows_to_string(&cols, &rows), "id\t|\tname\n1\t|\tJoe\n2\t|\tAnn");
    assert_eq!(parsed_rows_to_string(&cols, &vec![]), "id\t|\tname\n");
}

#[test]
fn ignored_columns_found_with_positions() {
    let header = strings(&["Name", "Recoveries", "Goals", "Sweeper clearances"]);
    let r = get_ignored_columns(&header);
    assert_eq!(r, vec![(1, "Recoveries".to_string()), (3, "Sweeper clearances".to_string())]);
}

#[test]
fn table_names_and_columns() {
    assert_eq!(TableName::Statistics.as_str(), "statistics");
    assert_eq!(TablePlayerAttributes::JerseyNumber.as_str(), "jersey_number");
    assert_eq!(TableStatisticsAttributes::Offsides.as_str(), "offsides");
    assert_eq!(TablePositionAttributes::PlayerID.as_str(), "player_id");
    assert_eq!(TableStatisticsAttributes::all().len(), 41);
}

#[test]
fn predefined_queries_fill_column_names() {
    let q = get_predefined_query(PredefinedQuery::CreateTablePlayer);
    assert!(q.starts_with("CREATE TABLE player (\n"));
    assert!(q.contains("id INTEGER PRIMARY KEY AUTO_INCREMENT"));
    assert!(q.contains("age INTEGER NOT NULL);"));
    assert!(!q.contains("{}"));
    let q = get_predefined_query(PredefinedQuery::CreateTablePosition);
    assert!(q.contains("player_id INTEGER FOREIGN KEY"));
    assert!(q.contains("name VARCHAR(10) FOREIGN KEY"));
    let all = PredefinedQuery::get_all_strings();
    assert_eq!(all.len(), 3);
    assert!(all[1].contains("offsides INTEGER NOT NULL"));
    assert_eq!(PredefinedQuery::get_string(PredefinedQuery::CreateTablePlayer), all[0]);
}

#[test]
fn stateful_format_fills_in_order() {
    let f = StatefulFormat::new("a{}b{}c", Some(vec!["1", "2", "3"]));
    assert_eq!(f.get(), "a1b2c");
    let mut f = StatefulFormat::new("a{}b{}c", None);
    assert_eq!(f.get(), "abc");
    f.assign(vec!["x"]);
    assert_eq!(f.get(), "axb{}c");
    f.insert(0, "y");
    assert_eq!(f.get(), "aybxc");
}
