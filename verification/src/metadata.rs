//! The `[ipxact]` section of a project's metadata and the VLNV (vendor,
//! library, name, version) values resolved from it.
use vstd::prelude::*;

use crate::text::{chars_of, decimal, has_prefix_at, owned, push_decimal, string_of};

verus! {

/// IP-XACT version emitted by `veryl ipxact`.
///
/// Each variant corresponds to a published IEEE 1685 schema. The XML namespace
/// and the layout of some elements (most notably `vectors`/`moduleParameters`)
/// differ between versions, so the emitter branches on this value.
#[derive(Clone, Copy, Debug, PartialEq, Eq, Structural)]
pub enum IpxactVersion {
    /// IEEE 1685-2009 (SPIRIT namespace).
    V2009,
    /// IEEE 1685-2014 (Accellera namespace). Default, widest tool support.
    V2014,
    /// IEEE 1685-2022 (Accellera namespace).
    V2022,
}

impl Default for IpxactVersion {
    fn default() -> (res: Self)
        ensures
            res == IpxactVersion::V2014,
    {
        IpxactVersion::V2014
    }
}

/// XML namespace URI of each IP-XACT version.
pub open spec fn spec_namespace(v: IpxactVersion) -> Seq<char> {
    match v {
        IpxactVersion::V2009 => "http://www.spiritconsortium.org/XMLSchema/SPIRIT/1685-2009"@,
        IpxactVersion::V2014 => "http://www.accellera.org/XMLSchema/IPXACT/1685-2014"@,
        IpxactVersion::V2022 => "http://www.accellera.org/XMLSchema/IPXACT/1685-2022"@,
    }
}

/// XML namespace prefix of each IP-XACT version.
pub open spec fn spec_prefix(v: IpxactVersion) -> Seq<char> {
    match v {
        IpxactVersion::V2009 => "spirit"@,
        _ => "ipxact"@,
    }
}

/// `xsi:schemaLocation` value: the namespace, a space, and the namespace's
/// `index.xsd`.
pub open spec fn spec_schema_location(v: IpxactVersion) -> Seq<char> {
    spec_namespace(v) + " "@ + spec_namespace(v) + "/index.xsd"@
}

impl IpxactVersion {
    /// XML namespace URI for this IP-XACT version.
    pub fn namespace(&self) -> (res: &'static str)
        ensures
            res@ == spec_namespace(*self),
    {
        match self {
            IpxactVersion::V2009 => "http://www.spiritconsortium.org/XMLSchema/SPIRIT/1685-2009",
            IpxactVersion::V2014 => "http://www.accellera.org/XMLSchema/IPXACT/1685-2014",
            IpxactVersion::V2022 => "http://www.accellera.org/XMLSchema/IPXACT/1685-2022",
        }
    }

    /// XML namespace prefix. 1685-2009 uses `spirit`; later revisions use `ipxact`.
    pub fn prefix(&self) -> (res: &'static str)
        ensures
            res@ == spec_prefix(*self),
    {
        match self {
            IpxactVersion::V2009 => "spirit",
            IpxactVersion::V2014 => "ipxact",
            IpxactVersion::V2022 => "ipxact",
        }
    }

    /// `xsi:schemaLocation` value pairing the namespace with its index schema.
    pub fn schema_location(&self) -> (res: String)
        ensures
            res@ == spec_schema_location(*self),
    {
        let ns = self.namespace();
        let mut out = owned(ns);
        out.append(" ");
        out.append(ns);
        out.append("/index.xsd");
        out
    }
}

/// The `[ipxact]` section of the project metadata.
#[derive(Debug)]
pub struct Ipxact {
    /// Output directory for the generated `*.xml` component files.
    pub path: String,
    /// IP-XACT schema version to emit.
    pub version: IpxactVersion,
    /// VLNV vendor field. Falls back to a value derived from the project when
    /// unset (see `Metadata::ipxact_vendor`).
    pub vendor: Option<String>,
    /// VLNV library field. Falls back to the project name when unset.
    pub library: Option<String>,
    /// VLNV version field. Falls back to the project version when unset.
    pub component_version: Option<String>,
}

/// The output directory used when `[ipxact] path` is not given.
pub open spec fn spec_default_path() -> Seq<char> {
    "ipxact"@
}

/// The output directory used when `[ipxact] path` is not given: `ipxact`.
pub fn default_path() -> (res: String)
    ensures
        res@ == spec_default_path(),
{
    owned("ipxact")
}

impl Default for Ipxact {
    fn default() -> (res: Self)
        ensures
            res.path@ == spec_default_path(),
            res.version == IpxactVersion::V2014,
            res.vendor is None,
            res.library is None,
            res.component_version is None,
    {
        Ipxact {
            path: default_path(),
            version: IpxactVersion::default(),
            vendor: None,
            library: None,
            component_version: None,
        }
    }
}

/// A copy of an optional string.
fn clone_opt(s: &Option<String>) -> (res: Option<String>)
    ensures
        res == *s,
{
    match s {
        Some(x) => Some(x.clone()),
        None => None,
    }
}

impl Ipxact {
    /// A copy of this section.
    pub fn duplicate(&self) -> (res: Self)
        ensures
            res == *self,
    {
        Ipxact {
            path: self.path.clone(),
            version: self.version,
            vendor: clone_opt(&self.vendor),
            library: clone_opt(&self.library),
            component_version: clone_opt(&self.component_version),
        }
    }
}

/// A semantic version of a project: `major.minor.patch`, an optional
/// pre-release part and optional build metadata.
#[derive(Debug)]
pub struct Version {
    pub major: u64,
    pub minor: u64,
    pub patch: u64,
    /// Pre-release identifiers, without the leading `-` (empty when absent).
    pub pre: String,
    /// Build metadata, without the leading `+` (empty when absent).
    pub build: String,
}

/// The text of a semantic version: `major.minor.patch`, then `-pre` when
/// there is a pre-release part and `+build` when there is build metadata.
pub open spec fn spec_version_text(v: Version) -> Seq<char> {
    let core = decimal(v.major as nat) + "."@ + decimal(v.minor as nat) + "."@ + decimal(
        v.patch as nat,
    );
    let with_pre = if v.pre@.len() == 0 {
        core
    } else {
        core + "-"@ + v.pre@
    };
    if v.build@.len() == 0 {
        with_pre
    } else {
        with_pre + "+"@ + v.build@
    }
}

impl Version {
    /// The text of this version, as `semver` displays it.
    pub fn to_text(&self) -> (res: String)
        ensures
            res@ == spec_version_text(*self),
    {
        let mut out = String::new();
        push_decimal(&mut out, self.major as u128);
        out.append(".");
        push_decimal(&mut out, self.minor as u128);
        out.append(".");
        push_decimal(&mut out, self.patch as u128);
        if self.pre.as_str().unicode_len() != 0 {
            out.append("-");
            out.append(self.pre.as_str());
        }
        if self.build.as_str().unicode_len() != 0 {
            out.append("+");
            out.append(self.build.as_str());
        }
        proof {
            let v = *self;
            let core = decimal(v.major as nat) + "."@ + decimal(v.minor as nat) + "."@ + decimal(
                v.patch as nat,
            );
            let with_pre = if v.pre@.len() == 0 {
                core
            } else {
                core + "-"@ + v.pre@
            };
            if v.build@.len() == 0 {
                assert(out@ =~= with_pre);
            } else {
                assert(out@ =~= with_pre + "+"@ + v.build@);
            }
        }
        out
    }

    /// A copy of this version.
    pub fn duplicate(&self) -> (res: Self)
        ensures
            res == *self,
    {
        Version {
            major: self.major,
            minor: self.minor,
            patch: self.patch,
            pre: self.pre.clone(),
            build: self.build.clone(),
        }
    }
}

/// The `[project]` section of the metadata.
#[derive(Debug)]
pub struct Project {
    pub name: String,
    pub version: Option<Version>,
    pub repository: Option<String>,
}

/// The `[build]` section of the metadata, as far as IP-XACT output reads it.
#[derive(Debug)]
pub struct Build {
    /// When set, generated HDL module names carry no project-name prefix.
    pub omit_project_prefix: bool,
}

/// Project metadata, as far as IP-XACT output reads it.
#[derive(Debug)]
pub struct Metadata {
    pub project: Project,
    pub build: Build,
    pub ipxact: Ipxact,
}

impl Metadata {
    /// A copy of this metadata.
    pub fn duplicate(&self) -> (res: Self)
        ensures
            res == *self,
    {
        let version = match &self.project.version {
            Some(v) => Some(v.duplicate()),
            None => None,
        };
        Metadata {
            project: Project {
                name: self.project.name.clone(),
                version,
                repository: clone_opt(&self.project.repository),
            },
            build: Build { omit_project_prefix: self.build.omit_project_prefix },
            ipxact: self.ipxact.duplicate(),
        }
    }
}

// ---------------------------------------------------------------------------
// Resolved VLNV fields
// ---------------------------------------------------------------------------

/// Resolved VLNV vendor: the configured vendor, else the host of the
/// project repository, else the project name.
pub open spec fn spec_ipxact_vendor(m: Metadata) -> Seq<char> {
    match m.ipxact.vendor {
        Some(v) => v@,
        None => match m.project.repository {
            Some(r) => match spec_repository_host(r@) {
                Some(h) => h,
                None => m.project.name@,
            },
            None => m.project.name@,
        },
    }
}

/// Resolved VLNV library: the configured library, else the project name.
pub open spec fn spec_ipxact_library(m: Metadata) -> Seq<char> {
    match m.ipxact.library {
        Some(l) => l@,
        None => m.project.name@,
    }
}

/// Resolved VLNV version: the configured component version, else the text
/// of the project version, else `0.0.0`.
pub open spec fn spec_ipxact_component_version(m: Metadata) -> Seq<char> {
    match m.ipxact.component_version {
        Some(v) => v@,
        None => match m.project.version {
            Some(v) => spec_version_text(v),
            None => "0.0.0"@,
        },
    }
}

impl Metadata {
    /// Resolved VLNV vendor for IP-XACT output.
    ///
    /// Uses `[ipxact] vendor` when set. Otherwise derives a vendor from the
    /// project repository host (e.g. `github.com` from a repository URL), and
    /// finally falls back to the project name.
    pub fn ipxact_vendor(&self) -> (res: String)
        ensures
            res@ == spec_ipxact_vendor(*self),
    {
        if let Some(vendor) = &self.ipxact.vendor {
            return vendor.clone();
        }
        if let Some(repo) = &self.project.repository {
            if let Some(host) = repository_host(repo.as_str()) {
                return host;
            }
        }
        self.project.name.clone()
    }

    /// Resolved VLNV library for IP-XACT output. Defaults to the project name.
    pub fn ipxact_library(&self) -> (res: String)
        ensures
            res@ == spec_ipxact_library(*self),
    {
        match &self.ipxact.library {
            Some(l) => l.clone(),
            None => self.project.name.clone(),
        }
    }

    /// Resolved VLNV version for IP-XACT output. Defaults to the project
    /// version, or `0.0.0` when the project has no version.
    pub fn ipxact_component_version(&self) -> (res: String)
        ensures
            res@ == spec_ipxact_component_version(*self),
    {
        if let Some(version) = &self.ipxact.component_version {
            return version.clone();
        }
        match &self.project.version {
            Some(v) => v.to_text(),
            None => owned("0.0.0"),
        }
    }
}

// ---------------------------------------------------------------------------
// Repository host
// ---------------------------------------------------------------------------

/// `s` up to (not including) its first `/` or `:`; all of `s` when it has
/// neither.
pub open spec fn before_path_separator(s: Seq<char>) -> Seq<char>
    decreases s.len(),
{
    if s.len() == 0 {
        s
    } else if s[0] == '/' || s[0] == ':' {
        Seq::<char>::empty()
    } else {
        seq![s[0]] + before_path_separator(s.drop_first())
    }
}

/// `s` up to (not including) its first `:`; all of `s` when it has none.
pub open spec fn before_colon(s: Seq<char>) -> Seq<char>
    decreases s.len(),
{
    if s.len() == 0 {
        s
    } else if s[0] == ':' {
        Seq::<char>::empty()
    } else {
        seq![s[0]] + before_colon(s.drop_first())
    }
}

/// `s` after its last `@`; all of `s` when it has none.
pub open spec fn after_last_at(s: Seq<char>) -> Seq<char>
    decreases s.len(),
{
    if s.len() == 0 {
        s
    } else if s.last() == '@' {
        Seq::<char>::empty()
    } else {
        after_last_at(s.drop_last()).push(s.last())
    }
}

/// `s` without the prefix `p`, when `s` starts with `p`.
pub open spec fn strip_prefix(s: Seq<char>, p: Seq<char>) -> Option<Seq<char>> {
    if p.is_prefix_of(s) {
        Some(s.skip(p.len() as int))
    } else {
        None
    }
}

/// What follows the scheme of a `https://`, `http://`, `git://` or `ssh://`
/// URL.
pub open spec fn url_after_scheme(r: Seq<char>) -> Option<Seq<char>> {
    if strip_prefix(r, "https://"@) is Some {
        strip_prefix(r, "https://"@)
    } else if strip_prefix(r, "http://"@) is Some {
        strip_prefix(r, "http://"@)
    } else if strip_prefix(r, "git://"@) is Some {
        strip_prefix(r, "git://"@)
    } else {
        strip_prefix(r, "ssh://"@)
    }
}

/// The host of a repository URL.
///
/// For a `https://`, `http://`, `git://` or `ssh://` URL: the authority up to
/// the first `/` or `:`, without any user part (up to the last `@`). For a
/// `git@host:path` address: the text between `git@` and the first `:`.
/// `None` when the host would be empty or the form is neither of these.
pub open spec fn spec_repository_host(r: Seq<char>) -> Option<Seq<char>> {
    match url_after_scheme(r) {
        Some(rest) => {
            let host = after_last_at(before_path_separator(rest));
            if host.len() == 0 {
                None
            } else {
                Some(host)
            }
        },
        None => match strip_prefix(r, "git@"@) {
            Some(rest) => {
                let host = before_colon(rest);
                if host.len() == 0 {
                    None
                } else {
                    Some(host)
                }
            },
            None => None,
        },
    }
}

/// The position just after `p` when `v` starts with `p`.
fn prefix_end(v: &Vec<char>, p: &str) -> (res: Option<usize>)
    ensures
        res is Some <==> p@.is_prefix_of(v@),
        res matches Some(k) ==> k == p@.len(),
{
    proof {
        assert(v@.subrange(0, v@.len() as int) =~= v@);
    }
    if has_prefix_at(v, 0, p) {
        Some(p.unicode_len())
    } else {
        None
    }
}

/// End of the text before the first `/` or `:` (or the first `:` alone when
/// `colon_only`), starting at `from`.
fn separator_index(v: &Vec<char>, from: usize, colon_only: bool) -> (k: usize)
    requires
        from <= v@.len(),
    ensures
        from <= k <= v@.len(),
        colon_only ==> v@.subrange(from as int, k as int) == before_colon(
            v@.subrange(from as int, v@.len() as int),
        ),
        !colon_only ==> v@.subrange(from as int, k as int) == before_path_separator(
            v@.subrange(from as int, v@.len() as int),
        ),
{
    let ghost s = v@.subrange(from as int, v@.len() as int);
    let mut k = from;
    while k < v.len() && v[k] != ':' && (colon_only || v[k] != '/')
        invariant
            from <= k <= v@.len(),
            s == v@.subrange(from as int, v@.len() as int),
            colon_only ==> before_colon(s) == v@.subrange(from as int, k as int) + before_colon(
                v@.subrange(k as int, v@.len() as int),
            ),
            !colon_only ==> before_path_separator(s) == v@.subrange(from as int, k as int)
                + before_path_separator(v@.subrange(k as int, v@.len() as int)),
        decreases v@.len() - k,
    {
        proof {
            let t = v@.subrange(k as int, v@.len() as int);
            assert(t.drop_first() =~= v@.subrange(k + 1, v@.len() as int));
            assert(v@.subrange(from as int, k + 1) =~= v@.subrange(from as int, k as int) + seq![
                t[0],
            ]);
        }
        k += 1;
    }
    proof {
        let t = v@.subrange(k as int, v@.len() as int);
        if colon_only {
            assert(before_colon(t) =~= Seq::<char>::empty());
        } else {
            assert(before_path_separator(t) =~= Seq::<char>::empty());
        }
        assert(v@.subrange(from as int, k as int) + Seq::<char>::empty() =~= v@.subrange(
            from as int,
            k as int,
        ));
    }
    k
}

/// Start of the text after the last `@` in `v[from..to]`.
fn after_at_index(v: &Vec<char>, from: usize, to: usize) -> (j: usize)
    requires
        from <= to <= v@.len(),
    ensures
        from <= j <= to,
        v@.subrange(j as int, to as int) == after_last_at(v@.subrange(from as int, to as int)),
{
    let mut j = to;
    while j > from && v[j - 1] != '@'
        invariant
            from <= j <= to <= v@.len(),
            after_last_at(v@.subrange(from as int, to as int)) == after_last_at(
                v@.subrange(from as int, j as int),
            ) + v@.subrange(j as int, to as int),
        decreases j - from,
    {
        proof {
            let t = v@.subrange(from as int, j as int);
            assert(t.drop_last() =~= v@.subrange(from as int, j - 1));
            assert(after_last_at(t) == after_last_at(t.drop_last()).push(t.last()));
            assert(after_last_at(t.drop_last()).push(t.last()) + v@.subrange(j as int, to as int)
                =~= after_last_at(t.drop_last()) + v@.subrange(j - 1, to as int));
        }
        j -= 1;
    }
    proof {
        let t = v@.subrange(from as int, j as int);
        assert(after_last_at(t) =~= Seq::<char>::empty());
        assert(Seq::<char>::empty() + v@.subrange(j as int, to as int) =~= v@.subrange(
            j as int,
            to as int,
        ));
    }
    j
}

/// Extract the host portion of a repository URL for use as an IP-XACT vendor.
///
/// Handles both `https://host/...` and `git@host:...` forms. Returns `None`
/// when no host can be determined.
pub fn repository_host(repo: &str) -> (res: Option<String>)
    ensures
        res matches Some(h) ==> spec_repository_host(repo@) == Some(h@),
        res is None ==> spec_repository_host(repo@) is None,
{
    let v = chars_of(repo);
    let mut start = prefix_end(&v, "https://");
    if start.is_none() {
        start = prefix_end(&v, "http://");
    }
    if start.is_none() {
        start = prefix_end(&v, "git://");
    }
    if start.is_none() {
        start = prefix_end(&v, "ssh://");
    }
    proof {
        match url_after_scheme(v@) {
            Some(rest) => {
                assert(start is Some);
                assert(rest =~= v@.subrange(start->0 as int, v@.len() as int));
            },
            None => {
                assert(start is None);
            },
        }
    }
    if let Some(s) = start {
        let k = separator_index(&v, s, false);
        let j = after_at_index(&v, s, k);
        if j == k {
            None
        } else {
            Some(string_of(&v, j, k))
        }
    } else if let Some(s) = prefix_end(&v, "git@") {
        proof {
            assert(v@.skip(s as int) =~= v@.subrange(s as int, v@.len() as int));
        }
        let k = separator_index(&v, s, true);
        if k == s {
            None
        } else {
            Some(string_of(&v, s, k))
        }
    } else {
        None
    }
}

} // verus!
