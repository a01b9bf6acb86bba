use std::time::{Duration, Instant};

use sdef::{Access, Dictionary};

#[test]
fn deeply_nested_type_does_not_stack_overflow() {
    const DEPTH: usize = 100;

    let mut inner = String::from(r#"<type type="text"/>"#);
    for _ in 0..DEPTH {
        inner = format!(r#"<type type="text">{inner}</type>"#);
    }
    let xml = format!(
        r#"<?xml version="1.0"?>
        <dictionary>
            <suite name="S" code="SUIT">
                <command name="c" code="SUITcmd1">
                    <parameter name="p" code="prm1">
                        {inner}
                    </parameter>
                </command>
            </suite>
        </dictionary>"#
    );

    // Either outcome is acceptable; the load-bearing claim is "parse
    // returns", within the wall-clock budget.
    let start = Instant::now();
    let _ok_or_err = xml.parse::<Dictionary>().is_ok();
    assert!(
        start.elapsed() < Duration::from_secs(10),
        "{DEPTH}-deep nested <type> took >10s to parse"
    );
}

#[test]
fn thousand_sibling_commands_parse_linearly() {
    const COUNT: usize = 1_000;

    let mut body = String::with_capacity(COUNT * 64);
    for i in 0..COUNT {
        body.push_str(&format!(
            r#"<command name="c{i}" code="SUITcm{:02}"/>"#,
            i % 100
        ));
    }
    let xml = format!(
        r#"<?xml version="1.0"?>
        <dictionary>
            <suite name="S" code="SUIT">
                {body}
            </suite>
        </dictionary>"#
    );

    let start = Instant::now();
    let parsed = xml.parse::<Dictionary>();
    assert!(
        start.elapsed() < Duration::from_secs(10),
        "{COUNT} sibling commands took >10s to parse — possible quadratic regression"
    );
    match parsed {
        Ok(dict) => {
            assert_eq!(
                dict.suites[0].commands.len(),
                COUNT,
                "all {COUNT} sibling commands must round-trip into the AST"
            );
        }
        Err(e) => panic!("parse of {COUNT}-sibling document failed: {}", e.message()),
    }
}

#[test]
fn megabyte_other_string_in_lenient_mode_round_trips() {
    const SIZE: usize = 1024 * 1024;

    let garbage = "x".repeat(SIZE);
    let xml = format!(
        r#"<?xml version="1.0"?>
        <dictionary>
            <suite name="S" code="SUIT">
                <class name="thing" code="thng">
                    <element type="bit" access="{garbage}"/>
                </class>
            </suite>
        </dictionary>"#
    );

    let dict: Dictionary = xml
        .parse()
        .expect("lenient parse of megabyte Other(_) must succeed");

    let elem_access = dict.suites[0].classes[0].elements[0]
        .access
        .as_ref()
        .expect("element has @access");
    match elem_access {
        Access::Other(s) => assert_eq!(
            s.len(),
            SIZE,
            "Access::Other must preserve a {SIZE}-byte value verbatim"
        ),
        other => panic!("expected Access::Other(_), got {other:?}"),
    }

    let emitted = dict.to_xml_string().expect("serialize");
    let reparsed: Dictionary = emitted.parse().expect("reparse");
    assert_eq!(
        dict, reparsed,
        "megabyte Other(_) value must survive parse->emit->parse identity"
    );
}
