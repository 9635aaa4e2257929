use veryl_ipxact::builder::{collect_parameters, TopLevelItem};
use veryl_ipxact::model::{ModuleProperty, Parameter, ParameterKind, Symbol, SymbolKind};
use veryl_ipxact::text::{decimal_string, escape, parse_u128, trim};

#[test]
fn escape_handles_xml_entities() {
    assert_eq!(escape("a<b&c>\"d'"), "a&lt;b&amp;c&gt;&quot;d&apos;");
    assert_eq!(escape("plain"), "plain");
}

#[test]
fn escape_of_empty_and_non_ascii_text() {
    assert_eq!(escape(""), "");
    assert_eq!(escape("&&"), "&amp;&amp;");
    assert_eq!(escape("黑<風>"), "黑&lt;風&gt;");
    assert_eq!(escape("&amp;"), "&amp;amp;");
}

#[test]
fn escape_distributes_over_concatenation() {
    let a = "x<y";
    let b = "'z'&";
    assert_eq!(escape(&format!("{a}{b}")), format!("{}{}", escape(a), escape(b)));
}

#[test]
fn escaped_text_has_no_raw_markup() {
    let e = escape("<tag attr=\"v\" other='w'>&</tag>");
    assert!(!e.contains('<') && !e.contains('>') && !e.contains('"') && !e.contains('\''));
}

#[test]
fn trim_removes_unicode_whitespace() {
    assert_eq!(trim("  a b \t\n"), "a b");
    assert_eq!(trim("\u{3000}x\u{A0}"), "x");
    assert_eq!(trim("   "), "");
    assert_eq!(trim(""), "");
}

#[test]
fn parse_u128_matches_std() {
    for s in ["0", "12", "+7", "-7", "", "+", "1_0", " 1", "340282366920938463463374607431768211455", "340282366920938463463374607431768211456", "99999999999999999999999999999999999999999"] {
        assert_eq!(parse_u128(s), s.parse::<u128>().ok(), "{s:?}");
    }
}

#[test]
fn decimal_round_trip() {
    for n in [0u128, 1, 9, 10, 99, 100, 12345, u128::MAX] {
        let s = decimal_string(n);
        assert_eq!(s, n.to_string());
        assert_eq!(parse_u128(&s), Some(n));
    }
}

#[test]
fn only_param_kind_parameters_are_collected() {
    let property = ModuleProperty {
        parameters: vec![
            Parameter { name: "A".to_string(), kind: ParameterKind::Param, value: Some(" 1 + 2 ".to_string()) },
            Parameter { name: "B".to_string(), kind: ParameterKind::Const, value: Some("3".to_string()) },
            Parameter { name: "C".to_string(), kind: ParameterKind::Param, value: None },
        ],
        ports: Vec::new(),
    };
    let ps = collect_parameters(&property);
    assert_eq!(
        ps,
        vec![("A".to_string(), "1 + 2".to_string()), ("C".to_string(), String::new())]
    );
    // A non-module item builds nothing.
    let _ = TopLevelItem {
        file_name: "p".to_string(),
        symbol: Symbol { namespace: "demo".to_string(), public: true, kind: SymbolKind::Package },
    };
}
