use sdef::{Dictionary, Error};

const VENDOR_EXTENDED_DICT: &str = r#"<?xml version="1.0"?>
<dictionary>
    <suite name="X" code="SUIT">
        <command name="foo" code="SUITfoo1">
            <vendor-extension/>
        </command>
    </suite>
</dictionary>"#;

#[test]
fn malformed_xml_surfaces_error() {
    let err: Error = "<dictionary".parse::<Dictionary>().expect_err("must fail");
    assert!(matches!(err, Error::Xml(_)));
}

#[test]
fn strict_mode_rejects_unknown_element_with_typed_payload() {
    let err = Dictionary::from_str_strict(VENDOR_EXTENDED_DICT)
        .expect_err("strict mode must reject <vendor-extension>");
    match &err {
        Error::UnknownElement { name } => {
            assert_eq!(
                name, "vendor-extension",
                "the unknown-element payload must carry the local name so callers can route on it"
            );
        }
        other => panic!("expected Error::UnknownElement, got {other:?}"),
    }
    let rendered = err.message();
    assert!(
        rendered.contains("vendor-extension"),
        "the error text must include the offending element name; got: {rendered}"
    );
}

#[test]
fn lenient_mode_silently_drops_unknown_element() {
    let dict = VENDOR_EXTENDED_DICT
        .parse::<Dictionary>()
        .expect("lenient mode tolerates unknown child elements");
    let cmd = dict
        .command("foo")
        .expect("foo parses despite vendor-extension");
    assert_eq!(cmd.code, "SUITfoo1");
}

#[test]
fn strict_mode_rejects_xi_include_with_prefix() {
    let xml = r#"<?xml version="1.0"?>
<dictionary xmlns:xi="http://www.w3.org/2001/XInclude">
    <suite name="X" code="SUIT">
        <xi:include href="other.sdef"/>
    </suite>
</dictionary>"#;
    let err = Dictionary::from_str_strict(xml).expect_err("strict mode must reject <xi:include>");
    assert!(
        matches!(err, Error::XIncludeUnsupported),
        "expected Error::XIncludeUnsupported, got {err:?}"
    );
}

#[test]
fn strict_mode_forwards_malformed_xml_errors_as_xml_variant() {
    let err =
        Dictionary::from_str_strict("<dictionary").expect_err("truncated document must error");
    assert!(
        matches!(err, Error::Xml(_)),
        "malformed XML must surface as Error::Xml under strict mode, got {err:?}"
    );
}

#[test]
fn suite_with_interleaved_commands_and_enumerations_parses() {
    let xml = r#"<?xml version="1.0"?>
<dictionary>
    <suite name="X" code="SUIT">
        <command name="c1" code="SUITcmd1"/>
        <enumeration name="e1" code="enm1">
            <enumerator name="a" code="aaaa"/>
        </enumeration>
        <command name="c2" code="SUITcmd2"/>
        <enumeration name="e2" code="enm2">
            <enumerator name="b" code="bbbb"/>
        </enumeration>
        <command name="c3" code="SUITcmd3"/>
    </suite>
</dictionary>"#;
    let dict: Dictionary = xml.parse().expect("interleaved suite parses");
    let suite = &dict.suites[0];

    assert_eq!(suite.commands.len(), 3, "all three commands survive interleaving");
    let cmd_names: Vec<&str> = suite.commands.iter().map(|c| c.name.as_str()).collect();
    assert_eq!(cmd_names, ["c1", "c2", "c3"]);

    assert_eq!(suite.enumerations.len(), 2, "both enumerations survive interleaving");
    let enum_names: Vec<&str> = suite.enumerations.iter().map(|e| e.name.as_str()).collect();
    assert_eq!(enum_names, ["e1", "e2"]);
}
