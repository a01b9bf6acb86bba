use sdef::emit::{push_flag_attr, push_flag_opt_attr};
use sdef::yorn::{de, de_opt, is_false, ser, ser_opt};
use sdef::Error;

fn flag_xml(flag: bool) -> String {
    let mut out = String::from("<probe");
    push_flag_attr(&mut out, "flag", flag);
    out.push_str("/>");
    out
}

fn flag_opt_xml(flag: Option<bool>) -> String {
    let mut out = String::from("<probe");
    push_flag_opt_attr(&mut out, "flag", flag);
    out.push_str("/>");
    out
}

#[test]
fn parses_yes() {
    assert!(de(Some("yes")).expect("yes reads"));
}

#[test]
fn parses_no() {
    assert!(!de(Some("no")).expect("no reads"));
}

#[test]
fn missing_defaults_to_false() {
    assert!(!de(None).expect("absent reads"));
}

#[test]
fn rejects_garbage() {
    match de(Some("maybe")) {
        Err(Error::Xml(e)) => assert!(e.to_string().contains("expected 'yes' or 'no'")),
        other => panic!("expected Error::Xml, got {other:?}"),
    }
}

#[test]
fn serializes_true_as_yes() {
    let xml = flag_xml(true);
    assert!(xml.contains(r#"flag="yes""#), "got {xml}");
}

#[test]
fn serializes_false_omits_attribute() {
    let xml = flag_xml(false);
    assert!(!xml.contains("flag="), "expected attribute omitted, got {xml}");
}

#[test]
fn opt_serializes_distinct_states() {
    let yes = flag_opt_xml(Some(true));
    let no = flag_opt_xml(Some(false));
    let none = flag_opt_xml(None);
    assert!(yes.contains(r#"flag="yes""#), "got {yes}");
    assert!(no.contains(r#"flag="no""#), "got {no}");
    assert!(!none.contains("flag="), "got {none}");
}

#[test]
fn optional_flag_reads_three_states() {
    assert_eq!(de_opt(Some("yes")).unwrap(), Some(true));
    assert_eq!(de_opt(Some("no")).unwrap(), Some(false));
    assert_eq!(de_opt(None).unwrap(), None);
    assert!(matches!(de_opt(Some("YES")), Err(Error::Xml(_))));
}

#[test]
fn flag_literals_read_back() {
    for b in [true, false] {
        assert_eq!(de(Some(ser(b))).unwrap(), b);
        assert_eq!(de_opt(ser_opt(Some(b))).unwrap(), Some(b));
        assert_eq!(is_false(&b), !b);
    }
    assert_eq!(ser_opt(None), None);
}

#[test]
fn rejection_message_quotes_the_value() {
    match de_opt(Some("Yes")) {
        Err(Error::Xml(e)) => assert_eq!(e.to_string(), r#"expected 'yes' or 'no', got "Yes""#),
        other => panic!("expected Error::Xml, got {other:?}"),
    }
    match de(Some("a\"b")) {
        Err(e) => assert_eq!(
            e.message(),
            r#"XML deserialization error: expected 'yes' or 'no', got "a\"b""#
        ),
        other => panic!("expected an error, got {other:?}"),
    }
}
