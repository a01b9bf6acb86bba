use sdef::{Access, AccessorStyle, CocoaBooleanValue, Dictionary, Error};

const TWO_SUITES: &str = r#"<?xml version="1.0"?>
<dictionary title="Two">
    <suite name="First" code="FRST">
        <command name="dup" code="FRSTdup1"/>
        <class name="thing" code="thg1"/>
        <enumeration name="mode" code="mod1">
            <enumerator name="on" code="on  "/>
        </enumeration>
    </suite>
    <suite name="Second" code="SCND">
        <command name="dup" code="SCNDdup2"/>
        <command name="only" code="SCNDonly"/>
        <class name="thing" code="thg2"/>
        <class name="other" code="othr"/>
        <enumeration name="mode" code="mod2"/>
    </suite>
</dictionary>"#;

fn two_suites() -> Dictionary {
    TWO_SUITES.parse().expect("two-suite fixture parses")
}

#[test]
fn command_lookup_returns_first_in_document_order() {
    let d = two_suites();
    assert_eq!(d.command("dup").expect("dup exists").code, "FRSTdup1");
    assert_eq!(d.command("only").expect("only exists").code, "SCNDonly");
    assert!(d.command("absent").is_none());
    assert!(d.command("").is_none());
}

#[test]
fn class_lookup_returns_first_in_document_order() {
    let d = two_suites();
    assert_eq!(d.class("thing").expect("thing exists").code, "thg1");
    assert_eq!(d.class("other").expect("other exists").code, "othr");
    assert!(d.class("dup").is_none());
}

#[test]
fn suite_and_enumeration_lookups() {
    let d = two_suites();
    assert_eq!(d.suite("Second").expect("suite exists").code, "SCND");
    assert!(d.suite("Third").is_none());
    let mode = d.enumeration("mode").expect("mode exists");
    assert_eq!(mode.code, "mod1");
    assert_eq!(mode.enumerators.len(), 1);
    assert!(d.enumeration("on").is_none());
    assert_eq!(d.title.as_deref(), Some("Two"));
}

#[test]
fn typed_enum_spellings() {
    assert_eq!(Access::Read.as_str(), "r");
    assert_eq!(Access::Write.as_str(), "w");
    assert_eq!(Access::ReadWrite.as_str(), "rw");
    assert_eq!(Access::Other("x".to_owned()).as_str(), "x");
    assert_eq!(CocoaBooleanValue::Yes.as_str(), "YES");
    assert_eq!(CocoaBooleanValue::No.as_str(), "NO");
    assert_eq!(CocoaBooleanValue::Other("yes".to_owned()).as_str(), "yes");
    let styles = [
        (AccessorStyle::Index, "index"),
        (AccessorStyle::Name, "name"),
        (AccessorStyle::Id, "id"),
        (AccessorStyle::Range, "range"),
        (AccessorStyle::Relative, "relative"),
        (AccessorStyle::Test, "test"),
    ];
    for (style, text) in styles {
        assert_eq!(style.as_str(), text);
        assert_eq!(AccessorStyle::from_dtd(text), style);
        assert_eq!(text.parse::<AccessorStyle>().unwrap(), style);
    }
}

#[test]
fn typed_enum_text_reads_back() {
    for a in [
        Access::Read,
        Access::Write,
        Access::ReadWrite,
        Access::Other("execute".to_owned()),
    ] {
        assert_eq!(Access::from_dtd(a.as_str()), a);
        assert_eq!(a.as_str().parse::<Access>().unwrap(), a);
    }
    for b in [
        CocoaBooleanValue::Yes,
        CocoaBooleanValue::No,
        CocoaBooleanValue::Other("true".to_owned()),
    ] {
        assert_eq!(CocoaBooleanValue::from_dtd(b.as_str()), b);
    }
    let other = AccessorStyle::Other("hyper-relative".to_owned());
    assert_eq!(AccessorStyle::from_dtd(other.as_str()), other);
    // An `Other` wrapping a canonical spelling reads back as that variant.
    assert_eq!(Access::from_dtd(Access::Other("rw".to_owned()).as_str()), Access::ReadWrite);
}

#[test]
fn responds_to_prefers_command_over_legacy_name() {
    let xml = r#"<dictionary>
    <suite name="S" code="SUIT">
        <class name="thing" code="thng">
            <responds-to command="open" name="legacy"/>
            <responds-to name="close"/>
            <responds-to hidden="yes"/>
        </class>
    </suite>
</dictionary>"#;
    let d: Dictionary = xml.parse().expect("parses");
    let r = &d.suites[0].classes[0].responds_to;
    assert_eq!(r[0].resolved_command(), Some("open"));
    assert_eq!(r[1].resolved_command(), Some("close"));
    assert_eq!(r[2].resolved_command(), None);
    assert!(r[2].hidden);
}

#[test]
fn emitted_xml_is_exact() {
    let xml = r#"<?xml version="1.0"?>
<dictionary title="T &amp; co">
    <suite name="S" code="SUIT" hidden="no">
        <command name="a&lt;b" code="SUITcmd1" hidden="yes">
            <documentation><html>  x &amp; y  </html></documentation>
        </command>
    </suite>
</dictionary>"#;
    let d: Dictionary = xml.parse().expect("parses");
    assert_eq!(d.title.as_deref(), Some("T & co"));
    assert_eq!(d.suites[0].commands[0].name, "a<b");
    assert_eq!(d.suites[0].commands[0].documentation[0].html, vec!["x & y".to_owned()]);
    let out = d.to_xml_string().expect("writing never fails");
    assert_eq!(
        out,
        [
            r#"<dictionary title="T &amp; co">"#,
            r#"<suite name="S" code="SUIT">"#,
            r#"<command name="a&lt;b" code="SUITcmd1" hidden="yes">"#,
            r#"<documentation><html>x &amp; y</html></documentation>"#,
            r#"</command></suite></dictionary>"#,
        ]
        .join("")
    );
    let again: Dictionary = out.parse().expect("reparses");
    assert_eq!(again, d);
}

#[test]
fn emitted_xml_of_types_and_optional_flags() {
    let xml = r#"<dictionary><suite name="S" code="SUIT">
        <record-type name="r" code="rect">
            <property name="p" code="prop" in-properties="no" access="rw">
                <type type="text" list="yes"><type type="integer"/></type>
            </property>
        </record-type>
    </suite></dictionary>"#;
    let d: Dictionary = xml.parse().expect("parses");
    let p = &d.suites[0].record_types[0].properties[0];
    assert_eq!(p.in_properties, Some(false));
    assert_eq!(p.types[0].types[0].ty, "integer");
    let out = d.to_xml_string().unwrap();
    assert!(out.contains(r#"in-properties="no""#), "got {out}");
    assert!(out.contains(r#"access="rw""#), "got {out}");
    assert!(
        out.contains(r#"<type type="text" list="yes"><type type="integer"/></type>"#),
        "got {out}"
    );
    let again: Dictionary = out.parse().expect("reparses");
    assert_eq!(again, d);
}

#[test]
fn empty_html_and_whitespace_are_read_as_text() {
    let xml = r#"<dictionary><documentation><html/><html>  </html><html> a <![CDATA[ b ]]> c </html></documentation></dictionary>"#;
    let d: Dictionary = xml.parse().expect("parses");
    assert_eq!(
        d.documentation[0].html,
        vec!["".to_owned(), "".to_owned(), "a  b  c".to_owned()]
    );
}

#[test]
fn element_inside_html_is_an_error() {
    let xml = r#"<dictionary><documentation><html>a<b>bold</b></html></documentation></dictionary>"#;
    assert!(matches!(xml.parse::<Dictionary>(), Err(Error::Xml(_))));
}

#[test]
fn bad_flag_value_is_an_xml_error() {
    let xml = r#"<dictionary><suite name="S" code="SUIT" hidden="maybe"/></dictionary>"#;
    match xml.parse::<Dictionary>() {
        Err(Error::Xml(e)) => assert!(e.to_string().contains("expected 'yes' or 'no'")),
        other => panic!("expected Error::Xml, got {other:?}"),
    }
}

#[test]
fn duplicate_attribute_and_duplicate_child_are_errors() {
    let dup_attr = r#"<dictionary><suite name="S" name="T" code="SUIT"/></dictionary>"#;
    assert!(matches!(dup_attr.parse::<Dictionary>(), Err(Error::Xml(_))));
    let dup_cocoa =
        r#"<dictionary><suite name="S" code="SUIT"><cocoa/><cocoa/></suite></dictionary>"#;
    assert!(matches!(dup_cocoa.parse::<Dictionary>(), Err(Error::Xml(_))));
}

#[test]
fn unknown_attributes_and_namespaced_elements_are_passed_over() {
    let xml = r#"<dictionary xmlns:v="urn:vendor"><suite name="S" code="SUIT" extra="1">
        <v:command name="ignored" code="nope"/>
        <command name="kept" code="SUITkept" v:note="x"/>
    </suite></dictionary>"#;
    let d: Dictionary = xml.parse().expect("parses");
    let names: Vec<&str> = d.suites[0].commands.iter().map(|c| c.name.as_str()).collect();
    assert_eq!(names, vec!["ignored", "kept"]);
}

#[test]
fn text_before_root_or_truncated_document_is_an_error() {
    assert!(matches!("".parse::<Dictionary>(), Err(Error::Xml(_))));
    assert!(matches!("   ".parse::<Dictionary>(), Err(Error::Xml(_))));
    assert!(matches!("<dictionary><suite name='S' code='C'>".parse::<Dictionary>(), Err(Error::Xml(_))));
    assert!(matches!("<dictionary></suite>".parse::<Dictionary>(), Err(Error::Xml(_))));
}

#[test]
fn strict_mode_checks_every_closed_attribute() {
    let cases = [
        (r#"<access-group identifier="*" access="x"/>"#, "access-group", "access"),
        (r#"<contents access="x"/>"#, "contents", "access"),
        (r#"<direct-parameter requires-access="x"/>"#, "direct-parameter", "requires-access"),
        (r#"<parameter name="p" code="c" requires-access="x"/>"#, "parameter", "requires-access"),
        (r#"<property name="p" code="c" access="x"/>"#, "property", "access"),
        (r#"<cocoa boolean-value="x"/>"#, "cocoa", "boolean-value"),
    ];
    for (inner, element_name, attribute_name) in cases {
        let xml = format!("<dictionary>{inner}</dictionary>");
        match Dictionary::from_str_strict(&xml) {
            Err(Error::UnknownAttributeValue { element, attribute, value }) => {
                assert_eq!(element, element_name);
                assert_eq!(attribute, attribute_name);
                assert_eq!(value, "x");
            }
            other => panic!("expected UnknownAttributeValue for {inner}, got {other:?}"),
        }
    }
}

#[test]
fn strict_mode_passes_then_parses_as_lenient() {
    let strict = Dictionary::from_str_strict(TWO_SUITES).expect("strict accepts");
    assert_eq!(strict, two_suites());
}

#[test]
fn error_messages() {
    let unknown = Error::UnknownElement { name: "vendor-thing".to_owned() };
    assert_eq!(
        unknown.message(),
        "unknown XML element <vendor-thing> rejected by strict-mode validation"
    );
    assert_eq!(
        Error::XIncludeUnsupported.message(),
        "<xi:include> is not supported by this parser; resolve includes before parsing"
    );
    let bad = Error::UnknownAttributeValue {
        element: "accessor".to_owned(),
        attribute: "style".to_owned(),
        value: "we\"ird".to_owned(),
    };
    assert_eq!(
        bad.message(),
        r#"<accessor style="we\"ird"> is outside the DTD's closed enumeration"#
    );
    let xml_err = "<dictionary".parse::<Dictionary>().unwrap_err();
    assert!(xml_err.message().starts_with("XML deserialization error: "));
    let io = Error::Io(std::io::Error::new(std::io::ErrorKind::NotFound, "gone"));
    assert_eq!(io.message(), "I/O error: gone");
}

#[test]
fn escaping_in_attributes_and_text() {
    let xml = r#"<dictionary><suite name="&quot;q&quot; &apos;a&apos; &gt;" code="SUIT"/></dictionary>"#;
    let d: Dictionary = xml.parse().expect("parses");
    assert_eq!(d.suites[0].name, r#""q" 'a' >"#);
    let out = d.to_xml_string().unwrap();
    assert!(out.contains(r#"name="&quot;q&quot; &apos;a&apos; &gt;""#), "got {out}");
}

#[test]
fn bad_entity_is_an_xml_error() {
    let xml = r#"<dictionary><suite name="a&bogus;b" code="SUIT"/></dictionary>"#;
    assert!(matches!(xml.parse::<Dictionary>(), Err(Error::Xml(_))));
}

#[test]
fn written_document_reads_back_and_passes_strict_mode() {
    let xml = r#"<dictionary title="Grüße">
    <documentation><html>Top &amp; level</html></documentation>
    <suite name="S" code="SUIT" description="d">
        <cocoa name="n" boolean-value="NO" insert-at-beginning="yes"/>
        <access-group identifier="*" access="w"/>
        <command name="c" code="SUITcmd1" id="cid">
            <synonym name="alias" hidden="yes"><cocoa key="k"/></synonym>
            <direct-parameter type="file" optional="yes" requires-access="r"/>
            <parameter name="p" code="prm1" type="text"/>
            <result type="integer"/>
            <xref target="other" hidden="yes"/>
        </command>
        <event name="e" code="SUITevt1"/>
        <class name="thing" code="thng" plural="things" inherits="item">
            <contents name="c" code="cnts" type="text" access="r"/>
            <element type="bit" access="rw"><accessor style="index"/></element>
            <property name="p" code="prop" type="text" access="w" in-properties="yes"/>
            <responds-to command="open"/>
        </class>
        <class-extension extends="application" title="ext"/>
        <enumeration name="mode" code="mode" inline="2">
            <enumerator name="on" code="on  " description="On."/>
        </enumeration>
        <record-type name="r" code="rect"/>
        <value-type name="v" code="valu"/>
    </suite>
</dictionary>"#;
    let d: Dictionary = xml.parse().expect("parses");
    let out = d.to_xml_string().unwrap();
    let strict = Dictionary::from_str_strict(&out).expect("the written document passes strict mode");
    assert_eq!(strict, d);
    let again: Dictionary = out.parse().unwrap();
    assert_eq!(again, d);
    assert_eq!(d.title.as_deref(), Some("Grüße"));
}

#[test]
fn other_wrapping_a_canonical_spelling_reads_back_as_the_variant() {
    let xml = r#"<dictionary><suite name="S" code="SUIT">
        <class name="thing" code="thng"><element type="bit" access="rw"/></class>
    </suite></dictionary>"#;
    let d: Dictionary = xml.parse().unwrap();
    assert_eq!(d.suites[0].classes[0].elements[0].access, Some(Access::ReadWrite));
    let other = Access::Other("rw".to_owned());
    assert_ne!(Access::from_dtd(other.as_str()), other);
}

#[test]
fn missing_attribute_is_reported_as_a_missing_field() {
    let xml = r#"<dictionary><suite name="S"/></dictionary>"#;
    match xml.parse::<Dictionary>() {
        Err(Error::Xml(e)) => assert_eq!(e.to_string(), "missing field `@code`"),
        other => panic!("expected Error::Xml, got {other:?}"),
    }
}

#[test]
fn second_single_child_is_reported_as_a_duplicate_field() {
    let xml = r#"<dictionary><suite name="S" code="SUIT"><cocoa name="a"/><cocoa name="b"/></suite></dictionary>"#;
    match xml.parse::<Dictionary>() {
        Err(Error::Xml(e)) => assert_eq!(e.to_string(), "duplicate field `cocoa`"),
        other => panic!("expected Error::Xml, got {other:?}"),
    }
}

#[test]
fn unreadable_attribute_is_an_invalid_xml_error() {
    let xml = r#"<dictionary><suite name="S" name="T" code="SUIT"/></dictionary>"#;
    match xml.parse::<Dictionary>() {
        Err(Error::Xml(quick_xml::DeError::InvalidXml(quick_xml::Error::InvalidAttr(_)))) => {}
        other => panic!("expected an attribute error, got {other:?}"),
    }
}
