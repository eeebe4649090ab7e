use rpsql::connection_options::ConnectionOptions;
use rpsql::pgpass::{mode_is_safe, parse, Entry, FieldSplit, Line};

fn collect_fields(input: &str) -> Vec<String> {
    let mut fields = FieldSplit::new(input);
    let mut out: Vec<String> = Vec::new();
    while let Some(f) = fields.next() {
        out.push(f);
    }
    out
}

#[test]
fn rpsql_localhost_5432_rpsql() {
    let contents = "# default development credentials\n\
                    otherhost:5432:otherdb:otheruser:otherpass\n\
                    localhost:5432:rpsql:rpsql:defaultpass\n\
                    *:*:*:*:fallback\n";
    let password = parse(
        contents,
        &ConnectionOptions {
            dbname: "rpsql".to_string(),
            host: "localhost".to_string(),
            port: "5432".to_string(),
            user: "rpsql".to_string(),
        },
    );

    assert_eq!(password, Some("defaultpass".to_string()))
}

#[test]
fn field_iterator_easy() {
    let input = "one:two:three:four:five:six:seven";
    let fields: Vec<String> = collect_fields(input);

    assert_eq!(fields, vec!["one", "two", "three", "four", "five", "six", "seven"]);
}

#[test]
fn field_iterator_escaped_colon() {
    let input = r"one\:two:three:four:five";
    let fields: Vec<String> = collect_fields(input);

    assert_eq!(fields, vec!["one:two", "three", "four", "five"]);
}

#[test]
fn field_iterator_escaped_backslash() {
    let input = r"one:two\\:three:four:five";
    let fields: Vec<String> = collect_fields(input);

    assert_eq!(fields, vec!["one", r"two\", "three", "four", "five"]);
}

#[test]
fn field_iterator_escaped_mess() {
    let input = r"\one\:two\\:three:four\\\:five\";
    let fields: Vec<String> = collect_fields(input);

    assert_eq!(fields, vec![r"\one:two\", "three", r"four\:five\"]);
}

#[test]
fn entry_needs_exactly_five_fields() {
    assert!(Entry::parse("h:5432:db:user:pw").is_some());
    assert!(Entry::parse("h:5432:db:user").is_none());
    assert!(Entry::parse("h:5432:db:user:pw:extra").is_none());

    let e = Entry::parse("h:5432:db:user:pw").unwrap();
    assert_eq!(e.hostname, "h");
    assert_eq!(e.port, "5432");
    assert_eq!(e.database, "db");
    assert_eq!(e.username, "user");
    assert_eq!(e.password, "pw");
}

#[test]
fn entry_wildcards_match_anything() {
    let e = Entry::parse("*:*:mydb:*:pw").unwrap();
    assert!(e.matches("anyhost", "1234", "mydb", "anyone"));
    assert!(!e.matches("anyhost", "1234", "otherdb", "anyone"));
}

#[test]
fn line_classification() {
    assert!(matches!(Line::parse("  # comment"), Line::Commented));
    assert!(matches!(Line::parse("   "), Line::Empty));
    assert!(matches!(Line::parse(""), Line::Empty));
    assert!(matches!(Line::parse("h:1:d:u:pw"), Line::Parsed(_)));
    assert!(matches!(Line::parse("not an entry"), Line::Malformed));
}

#[test]
fn parse_takes_first_matching_entry() {
    let contents = "\n# header\nbad line\n*:*:*:*:first\n*:*:*:*:second\n";
    let opts = ConnectionOptions {
        dbname: "db".to_string(),
        host: "h".to_string(),
        port: "1".to_string(),
        user: "u".to_string(),
    };
    assert_eq!(parse(contents, &opts), Some("first".to_string()));
}

#[test]
fn parse_without_match_yields_nothing() {
    let contents = "otherhost:5432:otherdb:otheruser:pw\n";
    let opts = ConnectionOptions {
        dbname: "db".to_string(),
        host: "h".to_string(),
        port: "1".to_string(),
        user: "u".to_string(),
    };
    assert_eq!(parse(contents, &opts), None);
}

#[test]
fn mode_safety_bounds() {
    assert!(mode_is_safe(0o600));
    assert!(mode_is_safe(0o400));
    assert!(!mode_is_safe(0o644));
    assert!(!mode_is_safe(0o601));
    assert!(!mode_is_safe(0o700));
}
