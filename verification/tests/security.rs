use sdef::{Dictionary, Error};

#[test]
fn lenient_drops_xi_include_without_following_href() {
    let xml = r#"<?xml version="1.0"?>
        <dictionary xmlns:xi="http://www.w3.org/2001/XInclude">
            <suite name="probe" code="SUIT">
                <xi:include href="/this/path/intentionally/does/not/exist.sdef"/>
                <command name="c" code="SUITcmd1"/>
            </suite>
        </dictionary>"#;

    let dict: Dictionary = xml
        .parse()
        .expect("lenient parse must succeed without trying to open the include href");
    assert_eq!(dict.suites.len(), 1);
    assert_eq!(dict.suites[0].commands.len(), 1);
    assert_eq!(dict.suites[0].commands[0].name, "c");
}

#[test]
fn lenient_drops_xi_include_with_path_traversal_href() {
    let xml = r#"<?xml version="1.0"?>
        <dictionary xmlns:xi="http://www.w3.org/2001/XInclude">
            <suite name="probe" code="SUIT">
                <xi:include href="../../../../../../etc/passwd"/>
                <command name="c" code="SUITcmd1"/>
            </suite>
        </dictionary>"#;

    let dict: Dictionary = xml
        .parse()
        .expect("lenient parse must not resolve traversal href");
    assert_eq!(dict.suites[0].commands.len(), 1);
}

#[test]
fn strict_rejects_xi_include_with_traversal_href() {
    let xml = r#"<?xml version="1.0"?>
        <dictionary xmlns:xi="http://www.w3.org/2001/XInclude">
            <suite name="probe" code="SUIT">
                <xi:include href="../../../../../../etc/passwd"/>
                <command name="c" code="SUITcmd1"/>
            </suite>
        </dictionary>"#;

    let err = Dictionary::from_str_strict(xml).expect_err("strict mode must reject xi:include");
    assert!(
        matches!(err, Error::XIncludeUnsupported),
        "expected Error::XIncludeUnsupported, got {err:?}"
    );
}

#[test]
fn external_doctype_system_id_is_not_fetched() {
    let xml = r#"<?xml version="1.0"?>
<!DOCTYPE dictionary SYSTEM "/this/path/intentionally/does/not/exist.dtd">
<dictionary>
    <suite name="probe" code="SUIT">
        <command name="c" code="SUITcmd1"/>
    </suite>
</dictionary>"#;

    let dict: Dictionary = xml
        .parse()
        .expect("DOCTYPE SYSTEM reference must not be fetched");
    assert_eq!(dict.suites[0].commands[0].name, "c");
}

#[test]
fn external_doctype_http_system_id_is_not_fetched() {
    let xml = r#"<?xml version="1.0"?>
<!DOCTYPE dictionary SYSTEM "http://invalid.example.test/sdef.dtd">
<dictionary>
    <suite name="probe" code="SUIT">
        <command name="c" code="SUITcmd1"/>
    </suite>
</dictionary>"#;

    let dict: Dictionary = xml
        .parse()
        .expect("DOCTYPE HTTP SYSTEM reference must not be fetched");
    assert_eq!(dict.suites[0].commands[0].name, "c");
}

#[test]
fn external_entity_declaration_alone_does_not_fetch() {
    let xml = r#"<?xml version="1.0"?>
<!DOCTYPE dictionary [
    <!ENTITY xxe SYSTEM "/this/path/intentionally/does/not/exist">
]>
<dictionary>
    <suite name="probe" code="SUIT">
        <command name="c" code="SUITcmd1"/>
    </suite>
</dictionary>"#;

    let dict: Dictionary = xml
        .parse()
        .expect("declaring an external entity (without referencing it) must not fetch");
    assert_eq!(dict.suites[0].name, "probe");
}

#[test]
fn external_entity_reference_does_not_leak_system_path() {
    let xml = r#"<?xml version="1.0"?>
<!DOCTYPE dictionary [
    <!ENTITY xxe SYSTEM "/this/path/intentionally/does/not/exist">
]>
<dictionary>
    <suite name="x&xxe;y" code="SUIT">
        <command name="c" code="SUITcmd1"/>
    </suite>
</dictionary>"#;

    match xml.parse::<Dictionary>() {
        Ok(dict) => {
            let name = &dict.suites[0].name;
            assert!(
                !name.contains("intentionally/does/not/exist"),
                "external entity body must not appear in AST: name = {name:?}"
            );
        }
        Err(Error::Xml(_)) => {}
        Err(other) => panic!(
            "expected Ok or Error::Xml; got {other:?} \
             — an I/O error here would indicate the SYSTEM path was opened"
        ),
    }
}

#[test]
fn internal_entity_expansion_is_bounded() {
    let xml = r#"<?xml version="1.0"?>
<!DOCTYPE dictionary [
    <!ENTITY lol "lol">
    <!ENTITY lol2 "&lol;&lol;&lol;&lol;&lol;&lol;&lol;&lol;&lol;&lol;">
    <!ENTITY lol3 "&lol2;&lol2;&lol2;&lol2;&lol2;&lol2;&lol2;&lol2;&lol2;&lol2;">
    <!ENTITY lol4 "&lol3;&lol3;&lol3;&lol3;&lol3;&lol3;&lol3;&lol3;&lol3;&lol3;">
]>
<dictionary>
    <suite name="x&lol4;y" code="SUIT">
        <command name="c" code="SUITcmd1"/>
    </suite>
</dictionary>"#;

    match xml.parse::<Dictionary>() {
        Ok(dict) => {
            let name = &dict.suites[0].name;
            assert!(
                name.len() < 1024,
                "internal-entity expansion was not bounded: suite name is {} chars",
                name.len()
            );
        }
        Err(Error::Xml(_)) => {}
        Err(other) => panic!("unexpected error variant: {other:?}"),
    }
}
