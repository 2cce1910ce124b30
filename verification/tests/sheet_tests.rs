use normal_oj::error::{DomainError, ValidationIssue};
use normal_oj::sheet::parse_signup_sheet;

fn expect_malformed(text: &str) {
    match parse_signup_sheet(text) {
        Err(DomainError::Validation(v)) => {
            assert_eq!(v, vec![ValidationIssue::SheetMalformed]);
        }
        other => panic!("expected a malformed-sheet error, got {:?}", other),
    }
}

#[test]
fn parses_the_minimal_schema() {
    let text = "username,email,password\nuser3,user3@noj.tw,pw3\nuser4,user4@noj.tw,pw4";
    let items = parse_signup_sheet(text).unwrap();
    assert_eq!(items.len(), 2);
    assert_eq!(items[0].username, "user3");
    assert_eq!(items[0].email, "user3@noj.tw");
    assert_eq!(items[0].password, "pw3");
    assert_eq!(items[0].displayed_name, None);
    assert_eq!(items[0].role, None);
    assert_eq!(items[1].username, "user4");
}

#[test]
fn parses_optional_columns() {
    let text = "username,email,password,displayed_name,role\n\
                ann,ann@noj.tw,pw,Ann Example,2\n\
                bob,bob@noj.tw,pw,,\n";
    let items = parse_signup_sheet(text).unwrap();
    assert_eq!(items.len(), 2);
    assert_eq!(items[0].displayed_name.as_deref(), Some("Ann Example"));
    assert_eq!(items[0].role, Some(2));
    assert_eq!(items[1].displayed_name, None);
    assert_eq!(items[1].role, None);
}

#[test]
fn tolerates_carriage_returns_and_trailing_newline() {
    let text = "username,email,password\r\nuser3,user3@noj.tw,pw3\r\n";
    let items = parse_signup_sheet(text).unwrap();
    assert_eq!(items.len(), 1);
    assert_eq!(items[0].username, "user3");
}

#[test]
fn rejects_a_wrong_header() {
    expect_malformed("name,email,password\na,b,c");
    expect_malformed("username,email\na,b");
    expect_malformed("");
}

#[test]
fn rejects_a_row_of_the_wrong_width() {
    expect_malformed("username,email,password\nuser3,user3@noj.tw");
    expect_malformed("username,email,password\nuser3,user3@noj.tw,pw,extra");
}

#[test]
fn rejects_a_non_numeric_role() {
    expect_malformed(
        "username,email,password,displayed_name,role\nann,ann@noj.tw,pw,Ann,teacher",
    );
}

#[test]
fn negative_and_large_roles_parse_as_integers() {
    let text = "username,email,password,displayed_name,role\nann,ann@noj.tw,pw,,-5\n";
    let items = parse_signup_sheet(text).unwrap();
    assert_eq!(items[0].role, Some(-5));
    // a value beyond i32 is not an integer for this schema
    expect_malformed(
        "username,email,password,displayed_name,role\nann,ann@noj.tw,pw,,99999999999\n",
    );
}
