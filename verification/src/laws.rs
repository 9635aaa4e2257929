//! Properties that hold of every input: of escaping, of dimension bounds,
//! of repository hosts and of the shape of a component description.
use vstd::prelude::*;

use crate::bounds::{
    constant_product, is_bare, minus_one, saturating_product, spec_combined_left_bound,
    spec_left_bound,
};
use crate::builder::{
    array_entries, array_entry, component_open, component_parameters, port_entries, port_entry,
    spec_arrays, spec_component, spec_parameters, value_text, spec_ports, spec_sv_module_name, spec_vectors, vector_entries,
    vector_entry,
};
use crate::metadata::{
    after_last_at, before_colon, before_path_separator, spec_prefix, spec_repository_host,
    spec_ipxact_component_version, spec_ipxact_library, spec_ipxact_vendor, spec_version_text,
    strip_prefix, url_after_scheme, IpxactVersion, Metadata,
};
use crate::model::{Direction, ModuleProperty, Parameter, ParameterKind, Port};
use crate::text::{
    decimal, escape_char, is_digit, is_white_space, lemma_decimal_digits,
    lemma_parse_decimal, spec_escape, spec_trim, trim_end, trim_start,
};
use crate::xml::{close_line, open_line};

verus! {

/// A character that escaping replaces by an entity.
pub open spec fn is_special(c: char) -> bool {
    c == '&' || c == '<' || c == '>' || c == '"' || c == '\''
}

/// A character that may not appear raw in escaped text.
pub open spec fn is_markup(c: char) -> bool {
    c == '<' || c == '>' || c == '"' || c == '\''
}

/// Escaping leaves text without special characters unchanged.
pub proof fn lemma_escape_plain(s: Seq<char>)
    requires
        forall|i: int| 0 <= i < s.len() ==> !is_special(#[trigger] s[i]),
    ensures
        spec_escape(s) == s,
    decreases s.len(),
{
    if s.len() > 0 {
        lemma_escape_plain(s.drop_last());
        assert(!is_special(s[s.len() - 1]));
        assert(spec_escape(s) =~= s.drop_last() + seq![s.last()]);
        assert(s =~= s.drop_last() + seq![s.last()]);
    }
}

/// Escaping a concatenation escapes each part.
pub proof fn lemma_escape_concat(a: Seq<char>, b: Seq<char>)
    ensures
        spec_escape(a + b) == spec_escape(a) + spec_escape(b),
    decreases b.len(),
{
    if b.len() == 0 {
        assert(a + b =~= a);
        assert(spec_escape(a) + spec_escape(b) =~= spec_escape(a));
    } else {
        lemma_escape_concat(a, b.drop_last());
        assert((a + b).drop_last() =~= a + b.drop_last());
        assert((a + b).last() == b.last());
        assert(spec_escape(a + b) =~= spec_escape(a) + spec_escape(b.drop_last()) + escape_char(
            b.last(),
        ));
    }
}

/// The replacement of a single character holds no raw markup character.
proof fn lemma_escape_char_no_markup(c: char)
    ensures
        forall|i: int| 0 <= i < escape_char(c).len() ==> !is_markup(#[trigger] escape_char(c)[i]),
{
    reveal_strlit("&amp;");
    reveal_strlit("&lt;");
    reveal_strlit("&gt;");
    reveal_strlit("&quot;");
    reveal_strlit("&apos;");
}

/// Escaped text holds none of `<`, `>`, `"` and `'`, so it can stand in
/// element text and in attribute values.
pub proof fn lemma_escape_no_markup(s: Seq<char>)
    ensures
        forall|i: int| 0 <= i < spec_escape(s).len() ==> !is_markup(#[trigger] spec_escape(s)[i]),
    decreases s.len(),
{
    if s.len() > 0 {
        lemma_escape_no_markup(s.drop_last());
        lemma_escape_char_no_markup(s.last());
        let a = spec_escape(s.drop_last());
        let b = escape_char(s.last());
        assert forall|i: int| 0 <= i < spec_escape(s).len() implies !is_markup(
            #[trigger] spec_escape(s)[i],
        ) by {
            if i < a.len() {
                assert(spec_escape(s)[i] == a[i]);
            } else {
                assert(spec_escape(s)[i] == b[i - a.len()]);
            }
        }
    }
}

/// Text whose first and last characters are not whitespace is its own
/// trimmed form.
proof fn lemma_trim_unchanged(s: Seq<char>)
    requires
        s.len() > 0,
        !is_white_space(s[0]),
        !is_white_space(s.last()),
    ensures
        spec_trim(s) == s,
{
    assert(trim_start(s) == s);
    assert(trim_end(s) == s);
}

/// Digits are not whitespace, so a decimal text is its own trimmed form.
proof fn lemma_trim_decimal(n: nat)
    ensures
        spec_trim(decimal(n)) == decimal(n),
{
    lemma_decimal_digits(n);
    let d = decimal(n);
    assert(is_digit(d[0]));
    assert(is_digit(d[d.len() - 1]));
    lemma_trim_unchanged(d);
}

/// A constant width is folded: the left bound of the width `n` is the
/// literal `n - 1` (`0` for a zero width).
pub proof fn lemma_left_bound_constant(n: u128)
    ensures
        spec_left_bound(decimal(n as nat)) == decimal(minus_one(n as nat)),
{
    lemma_trim_decimal(n as nat);
    lemma_parse_decimal(n);
}

/// A width that is not a constant keeps its text, followed by `-1`.
pub proof fn lemma_left_bound_parametric(e: Seq<char>)
    requires
        crate::text::spec_parse_u128(spec_trim(e)) is None,
    ensures
        spec_left_bound(e) == (if is_bare(spec_trim(e)) {
            spec_trim(e) + "-1"@
        } else {
            "("@ + spec_trim(e) + ")-1"@
        }),
{
}

/// With a single packed dimension, the combined 1685-2009 bound is the
/// bound of that dimension.
pub proof fn lemma_combined_single(w: Seq<char>)
    ensures
        spec_combined_left_bound(seq![w]) == spec_left_bound(w),
{
    let ws = seq![w];
    assert(ws.drop_last() =~= Seq::<Seq<char>>::empty());
    assert(constant_product(ws.drop_last()) == Some(1u128));
    assert(ws.last() == w);
    match crate::text::spec_parse_u128(spec_trim(w)) {
        Some(n) => {
            assert(saturating_product(1u128, n) == n);
        },
        None => {
            assert(ws[0] == w);
        },
    }
}

/// Widths that are all constants combine to the saturating product of the
/// widths, and a single non-constant width makes the bound that of the first
/// dimension.
pub proof fn lemma_combined_pair(a: u128, b: u128)
    ensures
        spec_combined_left_bound(seq![decimal(a as nat), decimal(b as nat)]) == decimal(
            minus_one(saturating_product(a, b) as nat),
        ),
{
    lemma_trim_decimal(a as nat);
    lemma_trim_decimal(b as nat);
    lemma_parse_decimal(a);
    lemma_parse_decimal(b);
    let ws = seq![decimal(a as nat), decimal(b as nat)];
    assert(ws.drop_last() =~= seq![decimal(a as nat)]);
    assert(ws.drop_last().drop_last() =~= Seq::<Seq<char>>::empty());
    assert(constant_product(ws.drop_last().drop_last()) == Some(1u128));
    assert(ws.drop_last().last() == decimal(a as nat));
    assert(ws.last() == decimal(b as nat));
    assert(constant_product(ws.drop_last()) == Some(saturating_product(1u128, a)));
    assert(saturating_product(1u128, a) == a);
}

/// The text before the first separator holds no `/` or `:`.
proof fn lemma_before_path_separator(s: Seq<char>)
    ensures
        forall|i: int|
            0 <= i < before_path_separator(s).len() ==> #[trigger] before_path_separator(s)[i]
                != '/' && before_path_separator(s)[i] != ':',
    decreases s.len(),
{
    if s.len() > 0 && !(s[0] == '/' || s[0] == ':') {
        lemma_before_path_separator(s.drop_first());
        let r = before_path_separator(s.drop_first());
        assert forall|i: int| 0 <= i < before_path_separator(s).len() implies #[trigger] before_path_separator(s)[i]
            != '/' && before_path_separator(s)[i] != ':' by {
            if i > 0 {
                assert(before_path_separator(s)[i] == r[i - 1]);
            }
        }
    }
}

/// The text before the first `:` holds no `:`.
proof fn lemma_before_colon(s: Seq<char>)
    ensures
        forall|i: int| 0 <= i < before_colon(s).len() ==> #[trigger] before_colon(s)[i] != ':',
    decreases s.len(),
{
    if s.len() > 0 && s[0] != ':' {
        lemma_before_colon(s.drop_first());
        let r = before_colon(s.drop_first());
        assert forall|i: int| 0 <= i < before_colon(s).len() implies #[trigger] before_colon(s)[i]
            != ':' by {
            if i > 0 {
                assert(before_colon(s)[i] == r[i - 1]);
            }
        }
    }
}

/// The text after the last `@` holds no `@`, and is a suffix of the text.
proof fn lemma_after_last_at(s: Seq<char>)
    ensures
        after_last_at(s).len() <= s.len(),
        after_last_at(s) == s.subrange(s.len() - after_last_at(s).len(), s.len() as int),
        forall|i: int| 0 <= i < after_last_at(s).len() ==> #[trigger] after_last_at(s)[i] != '@',
    decreases s.len(),
{
    if s.len() > 0 && s.last() != '@' {
        lemma_after_last_at(s.drop_last());
        let r = after_last_at(s.drop_last());
        assert(after_last_at(s) =~= s.subrange(s.len() - after_last_at(s).len(), s.len() as int));
    } else if s.len() > 0 {
        assert(after_last_at(s) =~= s.subrange(s.len() as int, s.len() as int));
    } else {
        assert(after_last_at(s) =~= s.subrange(0, 0));
    }
}

/// A repository host, when there is one, is non-empty and holds no `:`;
/// from a URL it holds no `/` and no `@` either.
pub proof fn lemma_repository_host_shape(r: Seq<char>)
    ensures
        spec_repository_host(r) matches Some(h) ==> {
            &&& h.len() > 0
            &&& forall|i: int| 0 <= i < h.len() ==> #[trigger] h[i] != ':'
        },
        url_after_scheme(r) is Some ==> (spec_repository_host(r) matches Some(h) ==> forall|i: int|
            0 <= i < h.len() ==> #[trigger] h[i] != '/' && h[i] != '@'),
{
    match url_after_scheme(r) {
        Some(rest) => {
            let b = before_path_separator(rest);
            lemma_before_path_separator(rest);
            lemma_after_last_at(b);
            let h = after_last_at(b);
            assert forall|i: int| 0 <= i < h.len() implies #[trigger] h[i] != ':' && h[i] != '/'
                && h[i] != '@' by {
                assert(h[i] == b[b.len() - h.len() + i]);
            }
        },
        None => {
            match strip_prefix(r, "git@"@) {
                Some(rest) => {
                    lemma_before_colon(rest);
                },
                None => {},
            }
        },
    }
}

/// A component description is an XML document: it opens with the XML
/// declaration and the `<component>` tag and closes with `</component>`.
pub proof fn lemma_component_frame(m: Metadata, name: Seq<char>, prop: ModuleProperty)
    ensures
        component_open(m.ipxact.version).is_prefix_of(spec_component(m, name, prop)),
        spec_component(m, name, prop).subrange(
            spec_component(m, name, prop).len() - close_line(
                ""@,
                spec_prefix(m.ipxact.version),
                "component"@,
            ).len(),
            spec_component(m, name, prop).len() as int,
        ) == close_line(""@, spec_prefix(m.ipxact.version), "component"@),
{
    let c = spec_component(m, name, prop);
    let o = component_open(m.ipxact.version);
    let e = close_line(""@, spec_prefix(m.ipxact.version), "component"@);
    assert(c.subrange(0, o.len() as int) =~= o);
    assert(c.subrange(c.len() - e.len(), c.len() as int) =~= e);
}

/// 1685-2009 has no component-level parameters.
pub proof fn lemma_no_component_parameters_2009(ps: Seq<(Seq<char>, Seq<char>)>)
    ensures
        component_parameters(IpxactVersion::V2009, ps) == Seq::<char>::empty(),
{
}

// ---------------------------------------------------------------------------
// Ports, vectors and arrays
// ---------------------------------------------------------------------------

/// 1685-2009 ports have no `<arrays>`, and neither has a port without
/// unpacked dimensions.
pub proof fn lemma_arrays_absent(v: IpxactVersion, as_: Seq<Seq<char>>)
    requires
        v == IpxactVersion::V2009 || as_.len() == 0,
    ensures
        spec_arrays(v, as_) == Seq::<char>::empty(),
{
}

/// For 1685-2014/2022, one unpacked dimension gives an `<arrays>` element
/// holding one `<array>` entry for it.
pub proof fn lemma_arrays_single(v: IpxactVersion, a: Seq<char>)
    requires
        v != IpxactVersion::V2009,
    ensures
        spec_arrays(v, seq![a]) == open_line("        "@, spec_prefix(v), "arrays"@) + array_entry(
            spec_prefix(v),
            a,
        ) + close_line("        "@, spec_prefix(v), "arrays"@),
{
    let s = seq![a];
    assert(s.drop_last() =~= Seq::<Seq<char>>::empty());
    assert(s.last() == a);
    assert(array_entries(spec_prefix(v), Seq::<Seq<char>>::empty()) == Seq::<char>::empty());
    assert(array_entries(spec_prefix(v), s) =~= array_entry(spec_prefix(v), a));
}

/// For 1685-2014/2022, each further unpacked dimension adds one `<array>`
/// entry, for that dimension, just before `</arrays>`: the `<arrays>` element
/// holds one entry per dimension, in source order.
pub proof fn lemma_arrays_push(v: IpxactVersion, as_: Seq<Seq<char>>, a: Seq<char>)
    requires
        v != IpxactVersion::V2009,
        as_.len() > 0,
    ensures
        ({
            let p = spec_prefix(v);
            let c = close_line("        "@, p, "arrays"@);
            let before = spec_arrays(v, as_);
            spec_arrays(v, as_.push(a)) == before.subrange(0, before.len() - c.len())
                + array_entry(p, a) + c
        }),
{
    let p = spec_prefix(v);
    let c = close_line("        "@, p, "arrays"@);
    let o = open_line("        "@, p, "arrays"@);
    assert(as_.push(a).drop_last() =~= as_);
    let e = array_entries(p, as_);
    assert(array_entries(p, as_.push(a)) == e + array_entry(p, a));
    let before = spec_arrays(v, as_);
    assert(before == o + e + c);
    assert(before.subrange(0, before.len() - c.len()) =~= o + e);
    assert(spec_arrays(v, as_.push(a)) =~= o + e + array_entry(p, a) + c);
}

/// A scalar wire (no packed dimension) has no vector.
pub proof fn lemma_vectors_scalar(v: IpxactVersion)
    ensures
        spec_vectors(v, Seq::<Seq<char>>::empty()) == Seq::<char>::empty(),
{
}

/// For 1685-2014/2022, one packed dimension gives a `<vectors>` element
/// holding one `<vector>` entry for it.
pub proof fn lemma_vectors_single(v: IpxactVersion, w: Seq<char>)
    requires
        v != IpxactVersion::V2009,
    ensures
        spec_vectors(v, seq![w]) == open_line("          "@, spec_prefix(v), "vectors"@)
            + vector_entry(spec_prefix(v), w) + close_line(
            "          "@,
            spec_prefix(v),
            "vectors"@,
        ),
{
    let s = seq![w];
    assert(s.drop_last() =~= Seq::<Seq<char>>::empty());
    assert(s.last() == w);
    assert(vector_entries(spec_prefix(v), Seq::<Seq<char>>::empty()) == Seq::<char>::empty());
    assert(vector_entries(spec_prefix(v), s) =~= vector_entry(spec_prefix(v), w));
}

/// For 1685-2014/2022, each further packed dimension adds one `<vector>`
/// entry, for that dimension, just before `</vectors>`.
pub proof fn lemma_vectors_push(v: IpxactVersion, ws: Seq<Seq<char>>, w: Seq<char>)
    requires
        v != IpxactVersion::V2009,
        ws.len() > 0,
    ensures
        ({
            let p = spec_prefix(v);
            let c = close_line("          "@, p, "vectors"@);
            let before = spec_vectors(v, ws);
            spec_vectors(v, ws.push(w)) == before.subrange(0, before.len() - c.len())
                + vector_entry(p, w) + c
        }),
{
    let p = spec_prefix(v);
    let c = close_line("          "@, p, "vectors"@);
    let o = open_line("          "@, p, "vectors"@);
    assert(ws.push(w).drop_last() =~= ws);
    let e = vector_entries(p, ws);
    assert(vector_entries(p, ws.push(w)) == e + vector_entry(p, w));
    let before = spec_vectors(v, ws);
    assert(before == o + e + c);
    assert(before.subrange(0, before.len() - c.len()) =~= o + e);
    assert(spec_vectors(v, ws.push(w)) =~= o + e + vector_entry(p, w) + c);
}

/// Each further port adds its `<port>` element just before `</ports>`; an
/// interface or modport port adds nothing.
pub proof fn lemma_ports_push(v: IpxactVersion, ports: Seq<Port>, x: Port)
    ensures
        ({
            let p = spec_prefix(v);
            let c = close_line("    "@, p, "ports"@);
            let before = spec_ports(v, ports);
            spec_ports(v, ports.push(x)) == before.subrange(0, before.len() - c.len())
                + port_entry(v, x) + c
        }),
        x.direction == Direction::Interface || x.direction == Direction::Modport ==> spec_ports(
            v,
            ports.push(x),
        ) == spec_ports(v, ports),
{
    let p = spec_prefix(v);
    let c = close_line("    "@, p, "ports"@);
    let o = open_line("    "@, p, "ports"@);
    assert(ports.push(x).drop_last() =~= ports);
    let e = port_entries(v, ports);
    assert(port_entries(v, ports.push(x)) == e + port_entry(v, x));
    let before = spec_ports(v, ports);
    assert(before == o + e + c);
    assert(before.subrange(0, before.len() - c.len()) =~= o + e);
    assert(spec_ports(v, ports.push(x)) =~= o + e + port_entry(v, x) + c);
    if x.direction == Direction::Interface || x.direction == Direction::Modport {
        assert(port_entry(v, x) == Seq::<char>::empty());
        assert(spec_ports(v, ports.push(x)) =~= spec_ports(v, ports));
    }
}

// ---------------------------------------------------------------------------
// VLNV values
// ---------------------------------------------------------------------------

/// A configured `[ipxact] vendor` is the vendor, whatever the repository.
pub proof fn lemma_vendor_configured(m: Metadata, v: String)
    requires
        m.ipxact.vendor == Some(v),
    ensures
        spec_ipxact_vendor(m) == v@,
{
}

/// Without a configured vendor, the host of the repository URL is the
/// vendor.
pub proof fn lemma_vendor_from_repository(m: Metadata, r: String, h: Seq<char>)
    requires
        m.ipxact.vendor is None,
        m.project.repository == Some(r),
        spec_repository_host(r@) == Some(h),
    ensures
        spec_ipxact_vendor(m) == h,
{
}

/// Without a configured vendor and without a repository host, the project
/// name is the vendor.
pub proof fn lemma_vendor_fallback(m: Metadata)
    requires
        m.ipxact.vendor is None,
        m.project.repository is None || spec_repository_host(m.project.repository->0@) is None,
    ensures
        spec_ipxact_vendor(m) == m.project.name@,
{
}

/// The library is the configured `[ipxact] library`, else the project name;
/// no other setting takes part.
pub proof fn lemma_library(m: Metadata)
    ensures
        m.ipxact.library matches Some(l) ==> spec_ipxact_library(m) == l@,
        m.ipxact.library is None ==> spec_ipxact_library(m) == m.project.name@,
{
}

/// The component version is the configured `[ipxact] component_version`
/// whether or not the project has a version; else the project version's
/// text; else `0.0.0`.
pub proof fn lemma_component_version(m: Metadata)
    ensures
        m.ipxact.component_version matches Some(c) ==> spec_ipxact_component_version(m) == c@,
        m.ipxact.component_version is None ==> (m.project.version matches Some(v)
            ==> spec_ipxact_component_version(m) == spec_version_text(v)),
        m.ipxact.component_version is None && m.project.version is None
            ==> spec_ipxact_component_version(m) == "0.0.0"@,
{
}

/// The HDL module name is the project name, `_` and the module name for
/// every module name (also one that already starts with the project name),
/// unless `[build] omit_project_prefix` is set, when it is the module name.
pub proof fn lemma_sv_module_name(m: Metadata, name: Seq<char>)
    ensures
        !m.build.omit_project_prefix ==> spec_sv_module_name(m, name) == m.project.name@ + "_"@
            + name,
        !m.build.omit_project_prefix ==> spec_sv_module_name(m, name).len() == m.project.name@.len()
            + "_"@.len() + name.len(),
        m.build.omit_project_prefix ==> spec_sv_module_name(m, name) == name,
{
}

/// A further `param` parameter adds one (name, trimmed value) pair at the
/// end of the emitted parameters; a further `const` parameter adds nothing.
pub proof fn lemma_parameters_push(ps: Seq<Parameter>, x: Parameter)
    ensures
        x.kind == ParameterKind::Param ==> spec_parameters(ps.push(x)) == spec_parameters(ps).push(
            (x.name@, spec_trim(value_text(x.value))),
        ),
        x.kind == ParameterKind::Const ==> spec_parameters(ps.push(x)) == spec_parameters(ps),
        spec_parameters(ps.push(x)).len() == spec_parameters(ps).len() + (if x.kind
            == ParameterKind::Param {
            1int
        } else {
            0int
        }),
{
    assert(ps.push(x).drop_last() =~= ps);
}

} // verus!
