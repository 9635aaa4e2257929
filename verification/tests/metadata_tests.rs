use veryl_ipxact::metadata::{
    default_path, repository_host, Build, Ipxact, IpxactVersion, Metadata, Project, Version,
};

#[test]
fn version_namespace_and_prefix() {
    assert_eq!(IpxactVersion::V2009.prefix(), "spirit");
    assert_eq!(IpxactVersion::V2014.prefix(), "ipxact");
    assert_eq!(IpxactVersion::V2022.prefix(), "ipxact");
    assert!(IpxactVersion::V2009.namespace().contains("SPIRIT/1685-2009"));
    assert!(IpxactVersion::V2014.namespace().contains("IPXACT/1685-2014"));
    assert!(IpxactVersion::V2022.namespace().contains("IPXACT/1685-2022"));
    assert!(IpxactVersion::V2014
        .schema_location()
        .ends_with("index.xsd"));
}

#[test]
fn default_version_is_2014() {
    assert_eq!(IpxactVersion::default(), IpxactVersion::V2014);
}

#[test]
fn repository_host_extraction() {
    assert_eq!(
        repository_host("https://github.com/foo/bar"),
        Some("github.com".to_string())
    );
    assert_eq!(
        repository_host("git@gitlab.com:foo/bar.git"),
        Some("gitlab.com".to_string())
    );
    assert_eq!(
        repository_host("ssh://git@example.org/foo"),
        Some("example.org".to_string())
    );
    assert_eq!(repository_host("not a url"), None);
}

#[test]
fn repository_host_other_forms() {
    assert_eq!(
        repository_host("http://host.example:8080/x"),
        Some("host.example".to_string())
    );
    assert_eq!(
        repository_host("git://a@b@c.org/repo"),
        Some("c.org".to_string())
    );
    assert_eq!(repository_host("https://"), None);
    assert_eq!(repository_host("https:///path"), None);
    assert_eq!(repository_host("https://user@/path"), None);
    assert_eq!(repository_host("git@:foo"), None);
    assert_eq!(repository_host("git@"), None);
    assert_eq!(repository_host("git@host"), Some("host".to_string()));
    assert_eq!(repository_host("HTTPS://github.com/x"), None);
    assert_eq!(repository_host(""), None);
}

#[test]
fn schema_location_pairs_namespace_with_index() {
    for v in [IpxactVersion::V2009, IpxactVersion::V2014, IpxactVersion::V2022] {
        let ns = v.namespace();
        assert_eq!(v.schema_location(), format!("{ns} {ns}/index.xsd"));
    }
    assert_eq!(
        IpxactVersion::V2022.namespace(),
        "http://www.accellera.org/XMLSchema/IPXACT/1685-2022"
    );
    assert_eq!(
        IpxactVersion::V2009.namespace(),
        "http://www.spiritconsortium.org/XMLSchema/SPIRIT/1685-2009"
    );
}

#[test]
fn ipxact_section_defaults() {
    let d = Ipxact::default();
    assert_eq!(d.path, "ipxact");
    assert_eq!(default_path(), "ipxact");
    assert_eq!(d.version, IpxactVersion::V2014);
    assert!(d.vendor.is_none());
    assert!(d.library.is_none());
    assert!(d.component_version.is_none());
}

fn metadata(repository: Option<&str>, version: Option<Version>) -> Metadata {
    Metadata {
        project: Project {
            name: "demo".to_string(),
            version,
            repository: repository.map(|s| s.to_string()),
        },
        build: Build {
            omit_project_prefix: false,
        },
        ipxact: Ipxact::default(),
    }
}

fn version(pre: &str, build: &str) -> Version {
    Version {
        major: 1,
        minor: 20,
        patch: 300,
        pre: pre.to_string(),
        build: build.to_string(),
    }
}

#[test]
fn vendor_falls_back_to_host_then_name() {
    let mut m = metadata(Some("https://github.com/veryl-lang/veryl"), None);
    assert_eq!(m.ipxact_vendor(), "github.com");
    m.ipxact.vendor = Some("acme".to_string());
    assert_eq!(m.ipxact_vendor(), "acme");
    let m = metadata(Some("file:///tmp/repo"), None);
    assert_eq!(m.ipxact_vendor(), "demo");
    let m = metadata(None, None);
    assert_eq!(m.ipxact_vendor(), "demo");
}

#[test]
fn library_falls_back_to_project_name() {
    let mut m = metadata(None, None);
    assert_eq!(m.ipxact_library(), "demo");
    m.ipxact.library = Some("ip".to_string());
    assert_eq!(m.ipxact_library(), "ip");
}

#[test]
fn component_version_falls_back_to_project_version() {
    let m = metadata(None, None);
    assert_eq!(m.ipxact_component_version(), "0.0.0");
    let m = metadata(None, Some(version("", "")));
    assert_eq!(m.ipxact_component_version(), "1.20.300");
    let m = metadata(None, Some(version("rc.1", "")));
    assert_eq!(m.ipxact_component_version(), "1.20.300-rc.1");
    let m = metadata(None, Some(version("", "git.abc")));
    assert_eq!(m.ipxact_component_version(), "1.20.300+git.abc");
    let mut m = metadata(None, Some(version("alpha", "7")));
    assert_eq!(m.ipxact_component_version(), "1.20.300-alpha+7");
    m.ipxact.component_version = Some("9.9".to_string());
    assert_eq!(m.ipxact_component_version(), "9.9");
}

#[test]
fn version_text_of_zero_and_large_numbers() {
    let v = Version {
        major: 0,
        minor: u64::MAX,
        patch: 10,
        pre: String::new(),
        build: String::new(),
    };
    assert_eq!(v.to_text(), format!("0.{}.10", u64::MAX));
}
