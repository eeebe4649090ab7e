use rpsql::chars::split_lines;
use rpsql::connection_options::ConnectionOptions;
use rpsql::parse_args::{build_config, Config};
use rpsql::profile::{find_profile, interpret_choice, parse_usize, ProfileChoice};
use rpsql::sql::format_table;

fn chars(s: &str) -> Vec<char> {
    s.chars().collect()
}

fn strings(lines: Vec<Vec<char>>) -> Vec<String> {
    lines.into_iter().map(|l| l.into_iter().collect()).collect()
}

#[test]
fn format_table_centers_cells() {
    let names = vec![chars("id"), chars("name")];
    let rows = vec![
        vec![Some(chars("1")), Some(chars("alice"))],
        vec![Some(chars("23")), None],
    ];
    let out = strings(format_table(&names, &rows));
    assert_eq!(
        out,
        vec![
            " id | name  |".to_string(),
            "----+-------+".to_string(),
            " 1  | alice |".to_string(),
            " 23 | None  |".to_string(),
        ]
    );
}

#[test]
fn format_table_widens_to_longest_value() {
    let names = vec![chars("c")];
    let rows = vec![vec![Some(chars("wide value"))]];
    let out = strings(format_table(&names, &rows));
    assert_eq!(
        out,
        vec![
            "     c      |".to_string(),
            "------------+".to_string(),
            " wide value |".to_string(),
        ]
    );
}

#[test]
fn format_table_shows_missing_cells_as_none() {
    let names = vec![chars("a"), chars("b")];
    let rows = vec![vec![Some(chars("1"))]]; // row shorter than the header
    let out = strings(format_table(&names, &rows));
    assert_eq!(out[2], " 1 | None |".to_string());
}

#[test]
fn connection_string_joins_the_options() {
    let o = ConnectionOptions {
        dbname: "mydb".to_string(),
        host: "db.example".to_string(),
        port: "5433".to_string(),
        user: "me".to_string(),
    };
    assert_eq!(
        o.to_connection_string(),
        "host=db.example port=5433 user=me dbname=mydb"
    );
}

#[test]
fn build_config_prefers_the_profile() {
    let c = build_config(
        Some("work".to_string()),
        Some("db".to_string()),
        None,
        None,
        None,
        Some("me".to_string()),
    );
    assert!(matches!(c, Config::Profile(p) if p == "work"));
}

#[test]
fn build_config_fills_defaults() {
    let c = build_config(
        None,
        Some("db".to_string()),
        None,
        None,
        None,
        Some("me".to_string()),
    );
    match c {
        Config::ConnectionOptions(o) => {
            assert_eq!(o.dbname, "db");
            assert_eq!(o.host, "localhost");
            assert_eq!(o.port, "5432");
            assert_eq!(o.user, "me");
        },
        _ => panic!("expected connection options"),
    }
}

#[test]
fn build_config_without_flags_selects_nothing() {
    let c = build_config(None, None, None, None, None, None);
    assert!(matches!(c, Config::Nothing));
}

#[test]
fn build_config_falls_back_to_postgres_user() {
    let c = build_config(None, None, Some("h".to_string()), None, None, None);
    match c {
        Config::ConnectionOptions(o) => {
            assert_eq!(o.user, "postgres");
            assert_eq!(o.dbname, "postgres");
        },
        _ => panic!("expected connection options"),
    }
}

#[test]
fn parse_usize_reads_digit_runs_only() {
    assert_eq!(parse_usize("123"), Some(123));
    assert_eq!(parse_usize("0"), Some(0));
    assert_eq!(parse_usize(""), None);
    assert_eq!(parse_usize("12a"), None);
    assert_eq!(parse_usize("-3"), None);
    assert_eq!(parse_usize("99999999999999999999999999"), None);
}

#[test]
fn interpret_choice_selects_profiles() {
    let profiles = vec!["dev.json".to_string(), "prod.json".to_string()];
    assert!(matches!(interpret_choice("0", &profiles), ProfileChoice::CreateNew));
    assert!(matches!(interpret_choice("1", &profiles), ProfileChoice::Existing(0)));
    assert!(matches!(interpret_choice("2", &profiles), ProfileChoice::Existing(1)));
    assert!(matches!(interpret_choice("3", &profiles), ProfileChoice::Invalid));
    assert!(matches!(interpret_choice("dev", &profiles), ProfileChoice::Existing(0)));
    assert!(matches!(interpret_choice("prod", &profiles), ProfileChoice::Existing(1)));
    assert!(matches!(interpret_choice("stage", &profiles), ProfileChoice::Invalid));
}

#[test]
fn find_profile_appends_json() {
    let profiles = vec!["dev.json".to_string(), "prod.json".to_string()];
    assert_eq!(find_profile(&profiles, "prod"), Some(1));
    assert_eq!(find_profile(&profiles, "stage"), None);
}

#[test]
fn split_lines_handles_line_endings() {
    let lines: Vec<&str> = split_lines("a\r\nb\nc");
    assert_eq!(lines, vec!["a", "b", "c"]);
    assert_eq!(split_lines(""), Vec::<&str>::new());
    assert_eq!(split_lines("\n"), vec![""]);
    assert_eq!(split_lines("x\n"), vec!["x"]);
}
