use veryl_ipxact::builder::{skipped_ports, IpxactBuilder, TopLevelItem};
use veryl_ipxact::command::{CmdIpxact, OptIpxact, SymbolEntry};
use veryl_ipxact::metadata::{Build, Ipxact, IpxactVersion, Metadata, Project, Version};
use veryl_ipxact::model::{
    Direction, ModuleProperty, Parameter, ParameterKind, Port, Symbol, SymbolKind,
};

fn metadata(version: IpxactVersion, omit_prefix: bool) -> Metadata {
    let mut ipxact = Ipxact::default();
    ipxact.version = version;
    Metadata {
        project: Project {
            name: "demo".to_string(),
            version: Some(Version {
                major: 1,
                minor: 2,
                patch: 3,
                pre: String::new(),
                build: String::new(),
            }),
            repository: Some("https://github.com/foo/bar".to_string()),
        },
        build: Build {
            omit_project_prefix: omit_prefix,
        },
        ipxact,
    }
}

fn strings(v: &[&str]) -> Vec<String> {
    v.iter().map(|s| s.to_string()).collect()
}

fn port(name: &str, direction: Direction, width: &[&str], array: &[&str]) -> Port {
    Port {
        name: name.to_string(),
        direction,
        width: strings(width),
        array: strings(array),
    }
}

fn adder() -> ModuleProperty {
    ModuleProperty {
        parameters: vec![
            Parameter {
                name: "WIDTH".to_string(),
                kind: ParameterKind::Param,
                value: Some(" 8 ".to_string()),
            },
            Parameter {
                name: "DEPTH".to_string(),
                kind: ParameterKind::Const,
                value: Some("4".to_string()),
            },
            Parameter {
                name: "N".to_string(),
                kind: ParameterKind::Param,
                value: None,
            },
        ],
        ports: vec![
            port("a", Direction::Input, &["WIDTH"], &[]),
            port("b", Direction::Output, &["4", "8"], &["2"]),
            port("bus", Direction::Interface, &[], &[]),
            port("c", Direction::Inout, &[], &[]),
            port("d", Direction::Import, &[], &[]),
            port("m", Direction::Modport, &["8"], &[]),
        ],
    }
}

fn module(property: ModuleProperty) -> Symbol {
    Symbol {
        namespace: "demo".to_string(),
        public: true,
        kind: SymbolKind::Module(property),
    }
}

fn lines(v: &[&str]) -> String {
    let mut s = String::new();
    for l in v {
        s.push_str(l);
        s.push('\n');
    }
    s
}

const NS2014: &str = "http://www.accellera.org/XMLSchema/IPXACT/1685-2014";
const NS2009: &str = "http://www.spiritconsortium.org/XMLSchema/SPIRIT/1685-2009";

fn expected_2014() -> String {
    let head = format!(
        r#"<ipxact:component xmlns:ipxact="{NS2014}" xmlns:xsi="http://www.w3.org/2001/XMLSchema-instance" xsi:schemaLocation="{NS2014} {NS2014}/index.xsd">"#
    );
    lines(&[
        r#"<?xml version="1.0" encoding="UTF-8"?>"#,
        &head,
        "  <ipxact:vendor>github.com</ipxact:vendor>",
        "  <ipxact:library>demo</ipxact:library>",
        "  <ipxact:name>adder</ipxact:name>",
        "  <ipxact:version>1.2.3</ipxact:version>",
        "  <ipxact:model>",
        "    <ipxact:views>",
        "      <ipxact:view>",
        "        <ipxact:name>rtl</ipxact:name>",
        "        <ipxact:componentInstantiationRef>rtl</ipxact:componentInstantiationRef>",
        "      </ipxact:view>",
        "    </ipxact:views>",
        "    <ipxact:instantiations>",
        "      <ipxact:componentInstantiation>",
        "        <ipxact:name>rtl</ipxact:name>",
        "        <ipxact:moduleName>demo_adder</ipxact:moduleName>",
        "        <ipxact:moduleParameters>",
        r#"          <ipxact:moduleParameter parameterId="WIDTH">"#,
        "            <ipxact:name>WIDTH</ipxact:name>",
        "            <ipxact:value>8</ipxact:value>",
        "          </ipxact:moduleParameter>",
        r#"          <ipxact:moduleParameter parameterId="N">"#,
        "            <ipxact:name>N</ipxact:name>",
        "            <ipxact:value></ipxact:value>",
        "          </ipxact:moduleParameter>",
        "        </ipxact:moduleParameters>",
        "      </ipxact:componentInstantiation>",
        "    </ipxact:instantiations>",
        "    <ipxact:ports>",
        "      <ipxact:port>",
        "        <ipxact:name>a</ipxact:name>",
        "        <ipxact:wire>",
        "          <ipxact:direction>in</ipxact:direction>",
        "          <ipxact:vectors>",
        "            <ipxact:vector>",
        "              <ipxact:left>WIDTH-1</ipxact:left>",
        "              <ipxact:right>0</ipxact:right>",
        "            </ipxact:vector>",
        "          </ipxact:vectors>",
        "        </ipxact:wire>",
        "      </ipxact:port>",
        "      <ipxact:port>",
        "        <ipxact:name>b</ipxact:name>",
        "        <ipxact:wire>",
        "          <ipxact:direction>out</ipxact:direction>",
        "          <ipxact:vectors>",
        "            <ipxact:vector>",
        "              <ipxact:left>3</ipxact:left>",
        "              <ipxact:right>0</ipxact:right>",
        "            </ipxact:vector>",
        "            <ipxact:vector>",
        "              <ipxact:left>7</ipxact:left>",
        "              <ipxact:right>0</ipxact:right>",
        "            </ipxact:vector>",
        "          </ipxact:vectors>",
        "        </ipxact:wire>",
        "        <ipxact:arrays>",
        "          <ipxact:array>",
        "            <ipxact:left>1</ipxact:left>",
        "            <ipxact:right>0</ipxact:right>",
        "          </ipxact:array>",
        "        </ipxact:arrays>",
        "      </ipxact:port>",
        "      <ipxact:port>",
        "        <ipxact:name>c</ipxact:name>",
        "        <ipxact:wire>",
        "          <ipxact:direction>inout</ipxact:direction>",
        "        </ipxact:wire>",
        "      </ipxact:port>",
        "      <ipxact:port>",
        "        <ipxact:name>d</ipxact:name>",
        "        <ipxact:wire>",
        "          <ipxact:direction>in</ipxact:direction>",
        "        </ipxact:wire>",
        "      </ipxact:port>",
        "    </ipxact:ports>",
        "  </ipxact:model>",
        "  <ipxact:parameters>",
        r#"    <ipxact:parameter parameterId="WIDTH">"#,
        "      <ipxact:name>WIDTH</ipxact:name>",
        "      <ipxact:value>8</ipxact:value>",
        "    </ipxact:parameter>",
        r#"    <ipxact:parameter parameterId="N">"#,
        "      <ipxact:name>N</ipxact:name>",
        "      <ipxact:value></ipxact:value>",
        "    </ipxact:parameter>",
        "  </ipxact:parameters>",
        "</ipxact:component>",
    ])
}

fn expected_2009() -> String {
    let head = format!(
        r#"<spirit:component xmlns:spirit="{NS2009}" xmlns:xsi="http://www.w3.org/2001/XMLSchema-instance" xsi:schemaLocation="{NS2009} {NS2009}/index.xsd">"#
    );
    lines(&[
        r#"<?xml version="1.0" encoding="UTF-8"?>"#,
        &head,
        "  <spirit:vendor>github.com</spirit:vendor>",
        "  <spirit:library>demo</spirit:library>",
        "  <spirit:name>adder</spirit:name>",
        "  <spirit:version>1.2.3</spirit:version>",
        "  <spirit:model>",
        "    <spirit:views>",
        "      <spirit:view>",
        "        <spirit:name>rtl</spirit:name>",
        "        <spirit:envIdentifier>::</spirit:envIdentifier>",
        "        <spirit:language>verilog</spirit:language>",
        "        <spirit:modelName>adder</spirit:modelName>",
        "      </spirit:view>",
        "    </spirit:views>",
        "    <spirit:ports>",
        "      <spirit:port>",
        "        <spirit:name>a</spirit:name>",
        "        <spirit:wire>",
        "          <spirit:direction>in</spirit:direction>",
        "          <spirit:vector>",
        "            <spirit:left>WIDTH-1</spirit:left>",
        "            <spirit:right>0</spirit:right>",
        "          </spirit:vector>",
        "        </spirit:wire>",
        "      </spirit:port>",
        "      <spirit:port>",
        "        <spirit:name>b</spirit:name>",
        "        <spirit:wire>",
        "          <spirit:direction>out</spirit:direction>",
        "          <spirit:vector>",
        "            <spirit:left>31</spirit:left>",
        "            <spirit:right>0</spirit:right>",
        "          </spirit:vector>",
        "        </spirit:wire>",
        "      </spirit:port>",
        "      <spirit:port>",
        "        <spirit:name>c</spirit:name>",
        "        <spirit:wire>",
        "          <spirit:direction>inout</spirit:direction>",
        "        </spirit:wire>",
        "      </spirit:port>",
        "      <spirit:port>",
        "        <spirit:name>d</spirit:name>",
        "        <spirit:wire>",
        "          <spirit:direction>in</spirit:direction>",
        "        </spirit:wire>",
        "      </spirit:port>",
        "    </spirit:ports>",
        "    <spirit:modelParameters>",
        "      <spirit:modelParameter>",
        "        <spirit:name>WIDTH</spirit:name>",
        r#"        <spirit:value spirit:resolve="user" spirit:id="WIDTH">8</spirit:value>"#,
        "      </spirit:modelParameter>",
        "      <spirit:modelParameter>",
        "        <spirit:name>N</spirit:name>",
        r#"        <spirit:value spirit:resolve="user" spirit:id="N"></spirit:value>"#,
        "      </spirit:modelParameter>",
        "    </spirit:modelParameters>",
        "  </spirit:model>",
        "</spirit:component>",
    ])
}

#[test]
fn component_2014_layout() {
    let builder = IpxactBuilder::new(&metadata(IpxactVersion::V2014, false), Vec::new());
    let xml = builder.build_component("adder", &module(adder())).unwrap();
    assert_eq!(xml, expected_2014());
}

#[test]
fn component_2022_differs_only_in_namespace() {
    let builder = IpxactBuilder::new(&metadata(IpxactVersion::V2022, false), Vec::new());
    let xml = builder.build_component("adder", &module(adder())).unwrap();
    assert_eq!(xml, expected_2014().replace("1685-2014", "1685-2022"));
}

#[test]
fn component_2009_layout() {
    let builder = IpxactBuilder::new(&metadata(IpxactVersion::V2009, true), Vec::new());
    let xml = builder.build_component("adder", &module(adder())).unwrap();
    assert_eq!(xml, expected_2009());
}

#[test]
fn component_without_parameters_has_no_parameter_sections() {
    let builder = IpxactBuilder::new(&metadata(IpxactVersion::V2014, false), Vec::new());
    let property = ModuleProperty {
        parameters: Vec::new(),
        ports: Vec::new(),
    };
    let xml = builder.build_component("top", &module(property)).unwrap();
    assert!(!xml.contains("moduleParameters"));
    assert!(!xml.contains("<ipxact:parameters>"));
    assert!(xml.contains("    <ipxact:ports>\n    </ipxact:ports>\n"));
    assert!(xml.starts_with("<?xml version=\"1.0\" encoding=\"UTF-8\"?>\n"));
    assert!(xml.ends_with("</ipxact:component>\n"));
}

#[test]
fn component_text_is_escaped() {
    let mut m = metadata(IpxactVersion::V2014, true);
    m.ipxact.vendor = Some("A&B <co>".to_string());
    let builder = IpxactBuilder::new(&m, Vec::new());
    let property = ModuleProperty {
        parameters: vec![Parameter {
            name: "P".to_string(),
            kind: ParameterKind::Param,
            value: Some("\"x\" < 'y'".to_string()),
        }],
        ports: Vec::new(),
    };
    let xml = builder.build_component("top", &module(property)).unwrap();
    assert!(xml.contains("  <ipxact:vendor>A&amp;B &lt;co&gt;</ipxact:vendor>\n"));
    assert!(xml.contains("<ipxact:value>&quot;x&quot; &lt; &apos;y&apos;</ipxact:value>"));
}

#[test]
fn non_module_symbol_builds_nothing() {
    let builder = IpxactBuilder::new(&metadata(IpxactVersion::V2014, false), Vec::new());
    let symbol = Symbol {
        namespace: "demo".to_string(),
        public: true,
        kind: SymbolKind::Interface,
    };
    assert!(builder.build_component("bus", &symbol).is_none());
}

#[test]
fn sv_module_name_prefix() {
    let b = IpxactBuilder::new(&metadata(IpxactVersion::V2014, false), Vec::new());
    assert_eq!(b.sv_module_name("adder"), "demo_adder");
    let b = IpxactBuilder::new(&metadata(IpxactVersion::V2014, true), Vec::new());
    assert_eq!(b.sv_module_name("adder"), "adder");
}

fn entry(text: &str, namespace: &str, public: bool, kind: SymbolKind) -> SymbolEntry {
    SymbolEntry {
        text: text.to_string(),
        symbol: Symbol {
            namespace: namespace.to_string(),
            public,
            kind,
        },
    }
}

fn empty_module() -> SymbolKind {
    SymbolKind::Module(ModuleProperty {
        parameters: Vec::new(),
        ports: Vec::new(),
    })
}

#[test]
fn modules_are_selected_sorted_and_last_wins() {
    let m = metadata(IpxactVersion::V2014, false);
    let with_port = SymbolKind::Module(ModuleProperty {
        parameters: Vec::new(),
        ports: vec![port("x", Direction::Input, &[], &[])],
    });
    let symbols = vec![
        entry("zeta", "demo", true, empty_module()),
        entry("alpha", "demo", true, empty_module()),
        entry("hidden", "demo", false, empty_module()),
        entry("other", "lib", true, empty_module()),
        entry("bus", "demo", true, SymbolKind::Interface),
        entry("pkg", "demo", true, SymbolKind::Package),
        entry("Beta", "demo", true, empty_module()),
        entry("alpha", "demo", true, with_port),
        entry("alpha", "demo", false, empty_module()),
    ];
    let items = CmdIpxact::select_modules(&m, symbols);
    let names: Vec<&str> = items.iter().map(|i| i.file_name.as_str()).collect();
    assert_eq!(names, vec!["Beta", "alpha", "zeta"]);
    match &items[1].symbol.kind {
        SymbolKind::Module(p) => assert_eq!(p.ports.len(), 1),
        _ => panic!("alpha is a module"),
    }
}

#[test]
fn exec_renders_one_file_per_public_module() {
    let m = metadata(IpxactVersion::V2014, false);
    let cmd = CmdIpxact::new(OptIpxact { files: Vec::new() });
    assert!(cmd.opt().files.is_empty());
    let symbols = vec![
        entry("b", "demo", true, empty_module()),
        entry("a", "demo", true, SymbolKind::Module(adder())),
        entry("c", "demo", true, SymbolKind::Other),
    ];
    let files = cmd.exec(&m, symbols);
    assert_eq!(files.len(), 2);
    assert_eq!(files[0].file_name, "a.xml");
    assert_eq!(files[1].file_name, "b.xml");
    assert_eq!(files[0].skipped_ports, vec!["bus".to_string(), "m".to_string()]);
    assert!(files[1].skipped_ports.is_empty());
    assert_eq!(
        files[0].xml,
        expected_2014()
            .replace("<ipxact:name>adder</ipxact:name>", "<ipxact:name>a</ipxact:name>")
            .replace("demo_adder", "demo_a")
    );
}

#[test]
fn build_skips_items_that_are_not_modules() {
    let m = metadata(IpxactVersion::V2009, false);
    let items = vec![
        TopLevelItem {
            file_name: "x".to_string(),
            symbol: Symbol {
                namespace: "demo".to_string(),
                public: true,
                kind: SymbolKind::Package,
            },
        },
        TopLevelItem {
            file_name: "y".to_string(),
            symbol: module(ModuleProperty {
                parameters: Vec::new(),
                ports: Vec::new(),
            }),
        },
    ];
    let builder = IpxactBuilder::new(&m, items);
    let files = builder.build();
    assert_eq!(files.len(), 1);
    assert_eq!(files[0].file_name, "y.xml");
    assert!(files[0].xml.contains("<spirit:modelName>demo_y</spirit:modelName>"));
    assert!(!files[0].xml.contains("modelParameters"));
}

#[test]
fn skipped_ports_are_the_interface_and_modport_ports() {
    assert_eq!(
        skipped_ports(&adder()),
        vec!["bus".to_string(), "m".to_string()]
    );
    let none = ModuleProperty {
        parameters: Vec::new(),
        ports: vec![port("x", Direction::Output, &["2"], &[])],
    };
    assert!(skipped_ports(&none).is_empty());
}
