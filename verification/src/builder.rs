//! IEEE 1685 (IP-XACT) component descriptions of the public modules of a
//! project.
use vstd::prelude::*;
use vstd::seq_lib::lemma_concat_associative;

use crate::bounds::{combined_left_bound, left_bound, spec_combined_left_bound, spec_left_bound, views};
use crate::metadata::{
    spec_ipxact_component_version, spec_ipxact_library, spec_ipxact_vendor, spec_namespace,
    spec_prefix, spec_schema_location, IpxactVersion, Metadata,
};
use crate::model::{Direction, ModuleProperty, Parameter, ParameterKind, Port, Symbol, SymbolKind};
use crate::text::{escape, owned, spec_escape, spec_trim, trim};
use crate::xml::{close_line, element_line, open_line, write_close, write_element, write_open};

verus! {

// ---------------------------------------------------------------------------
// Ports
// ---------------------------------------------------------------------------

/// The IP-XACT direction of a wire port; `None` for interface and modport
/// ports, which IP-XACT models through bus interfaces instead.
pub open spec fn direction_text(d: Direction) -> Option<Seq<char>> {
    match d {
        Direction::Input => Some("in"@),
        Direction::Import => Some("in"@),
        Direction::Output => Some("out"@),
        Direction::Inout => Some("inout"@),
        Direction::Interface => None,
        Direction::Modport => None,
    }
}

/// One `<vector>` of the 1685-2014/2022 `<vectors>` list.
pub open spec fn vector_entry(p: Seq<char>, w: Seq<char>) -> Seq<char> {
    open_line("            "@, p, "vector"@) + element_line(
        "              "@,
        p,
        "left"@,
        spec_escape(spec_left_bound(w)),
    ) + element_line("              "@, p, "right"@, "0"@) + close_line("            "@, p, "vector"@)
}

/// The `<vector>` entries of the widths `ws`, in order.
pub open spec fn vector_entries(p: Seq<char>, ws: Seq<Seq<char>>) -> Seq<char>
    decreases ws.len(),
{
    if ws.len() == 0 {
        Seq::<char>::empty()
    } else {
        vector_entries(p, ws.drop_last()) + vector_entry(p, ws.last())
    }
}

/// The vector(s) of a wire with packed widths `ws`: nothing for a scalar;
/// for 1685-2009 a single `<vector>` whose left bound combines all widths;
/// otherwise a `<vectors>` list with one `<vector>` per width.
pub open spec fn spec_vectors(v: IpxactVersion, ws: Seq<Seq<char>>) -> Seq<char> {
    let p = spec_prefix(v);
    if ws.len() == 0 {
        Seq::<char>::empty()
    } else if v == IpxactVersion::V2009 {
        open_line("          "@, p, "vector"@) + element_line(
            "            "@,
            p,
            "left"@,
            spec_escape(spec_combined_left_bound(ws)),
        ) + element_line("            "@, p, "right"@, "0"@) + close_line("          "@, p, "vector"@)
    } else {
        open_line("          "@, p, "vectors"@) + vector_entries(p, ws) + close_line(
            "          "@,
            p,
            "vectors"@,
        )
    }
}

/// One `<array>` of a port's `<arrays>` list.
pub open spec fn array_entry(p: Seq<char>, a: Seq<char>) -> Seq<char> {
    open_line("          "@, p, "array"@) + element_line(
        "            "@,
        p,
        "left"@,
        spec_escape(spec_left_bound(a)),
    ) + element_line("            "@, p, "right"@, "0"@) + close_line("          "@, p, "array"@)
}

/// The `<array>` entries of the array sizes `as_`, in order.
pub open spec fn array_entries(p: Seq<char>, as_: Seq<Seq<char>>) -> Seq<char>
    decreases as_.len(),
{
    if as_.len() == 0 {
        Seq::<char>::empty()
    } else {
        array_entries(p, as_.drop_last()) + array_entry(p, as_.last())
    }
}

/// The `<arrays>` of a port with unpacked dimensions `as_`: only for
/// 1685-2014/2022, and only when there are any.
pub open spec fn spec_arrays(v: IpxactVersion, as_: Seq<Seq<char>>) -> Seq<char> {
    let p = spec_prefix(v);
    if v == IpxactVersion::V2009 || as_.len() == 0 {
        Seq::<char>::empty()
    } else {
        open_line("        "@, p, "arrays"@) + array_entries(p, as_) + close_line(
            "        "@,
            p,
            "arrays"@,
        )
    }
}

/// The opening of a wire `<port>`: its name, and the wire's direction `d`.
pub open spec fn port_head(p: Seq<char>, name: Seq<char>, d: Seq<char>) -> Seq<char> {
    open_line("      "@, p, "port"@) + element_line("        "@, p, "name"@, spec_escape(name))
        + open_line("        "@, p, "wire"@) + element_line("          "@, p, "direction"@, d)
}

/// The `<port>` element of a wire port with direction `d`.
pub open spec fn wire_port(v: IpxactVersion, port: Port, d: Seq<char>) -> Seq<char> {
    let p = spec_prefix(v);
    port_head(p, port.name@, d) + spec_vectors(v, views(port.width@)) + close_line(
        "        "@,
        p,
        "wire"@,
    ) + spec_arrays(v, views(port.array@)) + close_line("      "@, p, "port"@)
}

/// The `<port>` element of a port; nothing for an interface or modport port.
pub open spec fn port_entry(v: IpxactVersion, port: Port) -> Seq<char> {
    match direction_text(port.direction) {
        None => Seq::<char>::empty(),
        Some(d) => wire_port(v, port, d),
    }
}

/// The `<port>` elements of the ports, in order.
pub open spec fn port_entries(v: IpxactVersion, ports: Seq<Port>) -> Seq<char>
    decreases ports.len(),
{
    if ports.len() == 0 {
        Seq::<char>::empty()
    } else {
        port_entries(v, ports.drop_last()) + port_entry(v, ports.last())
    }
}

/// The `<ports>` element of a module.
pub open spec fn spec_ports(v: IpxactVersion, ports: Seq<Port>) -> Seq<char> {
    let p = spec_prefix(v);
    open_line("    "@, p, "ports"@) + port_entries(v, ports) + close_line("    "@, p, "ports"@)
}

/// Writes the `<vector>` entries of the 1685-2014/2022 `<vectors>` list.
fn write_vector_entries(out: &mut String, p: &str, widths: &[String])
    ensures
        final(out)@ == old(out)@ + vector_entries(p@, views(widths@)),
{
    let ghost ws = views(widths@);
    let mut i: usize = 0;
    proof {
        assert(ws.take(0) =~= Seq::<Seq<char>>::empty());
        assert(old(out)@ + Seq::<char>::empty() =~= old(out)@);
    }
    while i < widths.len()
        invariant
            ws == views(widths@),
            i <= widths@.len(),
            out@ == old(out)@ + vector_entries(p@, ws.take(i as int)),
        decreases widths@.len() - i,
    {
        let ghost before = out@;
        write_open(out, "            ", p, "vector");
        let left = escape(left_bound(widths[i].as_str()).as_str());
        write_element(out, "              ", p, "left", left.as_str());
        write_element(out, "              ", p, "right", "0");
        write_close(out, "            ", p, "vector");
        proof {
            let next = ws.take(i + 1);
            assert(next.drop_last() =~= ws.take(i as int));
            assert(next.last() == widths@[i as int]@);
            assert(out@ =~= before + vector_entry(p@, widths@[i as int]@));
        }
        i += 1;
    }
    proof {
        assert(ws.take(i as int) =~= ws);
    }
}

/// Writes the `<array>` entries of a port's `<arrays>` list.
fn write_array_entries(out: &mut String, p: &str, arrays: &[String])
    ensures
        final(out)@ == old(out)@ + array_entries(p@, views(arrays@)),
{
    let ghost as_ = views(arrays@);
    let mut i: usize = 0;
    proof {
        assert(as_.take(0) =~= Seq::<Seq<char>>::empty());
        assert(old(out)@ + Seq::<char>::empty() =~= old(out)@);
    }
    while i < arrays.len()
        invariant
            as_ == views(arrays@),
            i <= arrays@.len(),
            out@ == old(out)@ + array_entries(p@, as_.take(i as int)),
        decreases arrays@.len() - i,
    {
        let ghost before = out@;
        write_open(out, "          ", p, "array");
        let left = escape(left_bound(arrays[i].as_str()).as_str());
        write_element(out, "            ", p, "left", left.as_str());
        write_element(out, "            ", p, "right", "0");
        write_close(out, "          ", p, "array");
        proof {
            let next = as_.take(i + 1);
            assert(next.drop_last() =~= as_.take(i as int));
            assert(next.last() == arrays@[i as int]@);
            assert(out@ =~= before + array_entry(p@, arrays@[i as int]@));
        }
        i += 1;
    }
    proof {
        assert(as_.take(i as int) =~= as_);
    }
}

/// Emit the packed-dimension vector(s) for a wire port.
fn write_vectors(out: &mut String, version: IpxactVersion, widths: &[String])
    ensures
        final(out)@ == old(out)@ + spec_vectors(version, views(widths@)),
{
    let p = version.prefix();
    if widths.len() == 0 {
        proof {
            assert(out@ =~= old(out)@ + spec_vectors(version, views(widths@)));
        }
        return;
    }
    if version == IpxactVersion::V2009 {
        // 1685-2009 has no `vectors` wrapper and supports a single vector.
        // Combine when the dimensions are all constant; otherwise fall back
        // to the first (most-significant) dimension.
        let left = escape(combined_left_bound(widths).as_str());
        write_open(out, "          ", p, "vector");
        write_element(out, "            ", p, "left", left.as_str());
        write_element(out, "            ", p, "right", "0");
        write_close(out, "          ", p, "vector");
    } else {
        write_open(out, "          ", p, "vectors");
        write_vector_entries(out, p, widths);
        write_close(out, "          ", p, "vectors");
    }
    proof {
        assert(out@ =~= old(out)@ + spec_vectors(version, views(widths@)));
    }
}

/// Emit the unpacked dimensions (`<arrays>`) of a port, 1685-2014/2022 only.
fn write_arrays(out: &mut String, version: IpxactVersion, arrays: &[String])
    ensures
        final(out)@ == old(out)@ + spec_arrays(version, views(arrays@)),
{
    let p = version.prefix();
    if version == IpxactVersion::V2009 || arrays.len() == 0 {
        proof {
            assert(out@ =~= old(out)@ + spec_arrays(version, views(arrays@)));
        }
        return;
    }
    write_open(out, "        ", p, "arrays");
    write_array_entries(out, p, arrays);
    write_close(out, "        ", p, "arrays");
    proof {
        assert(out@ =~= old(out)@ + spec_arrays(version, views(arrays@)));
    }
}

/// Writes `port_head`.
fn write_port_head(out: &mut String, p: &str, name: &str, dir: &str)
    ensures
        final(out)@ == old(out)@ + port_head(p@, name@, dir@),
{
    write_open(out, "      ", p, "port");
    let escaped = escape(name);
    write_element(out, "        ", p, "name", escaped.as_str());
    write_open(out, "        ", p, "wire");
    write_element(out, "          ", p, "direction", dir);
    proof {
        assert(out@ =~= old(out)@ + port_head(p@, name@, dir@));
    }
}

/// Writes the `<port>` element of a wire port with direction `dir`.
fn write_wire_port(out: &mut String, version: IpxactVersion, port: &Port, dir: &str)
    ensures
        final(out)@ == old(out)@ + wire_port(version, *port, dir@),
{
    let p = version.prefix();
    write_port_head(out, p, port.name.as_str(), dir);
    // Packed widths -> vector(s). An empty width list is a scalar wire.
    write_vectors(out, version, port.width.as_slice());
    write_close(out, "        ", p, "wire");
    // Unpacked dimensions -> arrays (2014/2022 only).
    write_arrays(out, version, port.array.as_slice());
    write_close(out, "      ", p, "port");
    proof {
        assert(out@ =~= old(out)@ + wire_port(version, *port, dir@));
    }
}

/// Emit the `<port>` element of one port, or nothing for an interface or
/// modport port.
fn write_port(out: &mut String, version: IpxactVersion, port: &Port)
    ensures
        final(out)@ == old(out)@ + port_entry(version, *port),
{
    let dir = match port.direction {
        Direction::Input => "in",
        Direction::Import => "in",
        Direction::Output => "out",
        Direction::Inout => "inout",
        Direction::Interface => {
            proof {
                assert(out@ =~= old(out)@ + port_entry(version, *port));
            }
            return;
        },
        Direction::Modport => {
            proof {
                assert(out@ =~= old(out)@ + port_entry(version, *port));
            }
            return;
        },
    };
    write_wire_port(out, version, port, dir);
}

/// Emit the `<ports>` element. Only wire-style ports (`input`/`output`/
/// `inout`) are representable; interface/modport ports are skipped since
/// IP-XACT models those via bus interfaces instead.
fn write_ports(out: &mut String, version: IpxactVersion, property: &ModuleProperty)
    ensures
        final(out)@ == old(out)@ + spec_ports(version, property.ports@),
{
    let p = version.prefix();
    write_open(out, "    ", p, "ports");
    let ghost start = out@;
    let ghost ports = property.ports@;
    let mut i: usize = 0;
    proof {
        assert(ports.take(0) =~= Seq::<Port>::empty());
        assert(start + Seq::<char>::empty() =~= start);
    }
    while i < property.ports.len()
        invariant
            ports == property.ports@,
            i <= ports.len(),
            out@ == start + port_entries(version, ports.take(i as int)),
        decreases ports.len() - i,
    {
        let ghost before = out@;
        write_port(out, version, &property.ports[i]);
        proof {
            let next = ports.take(i + 1);
            assert(next.drop_last() =~= ports.take(i as int));
            assert(next.last() == ports[i as int]);
            lemma_concat_associative(
                start,
                port_entries(version, ports.take(i as int)),
                port_entry(version, ports[i as int]),
            );
        }
        i += 1;
    }
    proof {
        assert(ports.take(i as int) =~= ports);
    }
    write_close(out, "    ", p, "ports");
    proof {
        assert(out@ =~= old(out)@ + spec_ports(version, property.ports@));
    }
}

// ---------------------------------------------------------------------------
// Parameters
// ---------------------------------------------------------------------------

/// The source text of an optional value expression; empty when absent.
pub open spec fn value_text(v: Option<String>) -> Seq<char> {
    match v {
        Some(s) => s@,
        None => Seq::<char>::empty(),
    }
}

/// The `param`-kind parameters, in order, as (name, trimmed value text)
/// pairs. `const` parameters are HDL-internal and left out.
pub open spec fn spec_parameters(ps: Seq<Parameter>) -> Seq<(Seq<char>, Seq<char>)>
    decreases ps.len(),
{
    if ps.len() == 0 {
        Seq::<(Seq<char>, Seq<char>)>::empty()
    } else {
        let rest = spec_parameters(ps.drop_last());
        let x = ps.last();
        if x.kind == ParameterKind::Param {
            rest.push((x.name@, spec_trim(value_text(x.value))))
        } else {
            rest
        }
    }
}

/// The character views of (name, value) string pairs.
pub open spec fn pair_views(v: Seq<(String, String)>) -> Seq<(Seq<char>, Seq<char>)> {
    v.map_values(|x: (String, String)| (x.0@, x.1@))
}

/// The `param`-kind parameters of a module with their trimmed values.
pub fn collect_parameters(property: &ModuleProperty) -> (res: Vec<(String, String)>)
    ensures
        pair_views(res@) == spec_parameters(property.parameters@),
{
    let ghost ps = property.parameters@;
    let mut res: Vec<(String, String)> = Vec::new();
    let mut i: usize = 0;
    proof {
        assert(ps.take(0) =~= Seq::<Parameter>::empty());
        assert(pair_views(res@) =~= spec_parameters(ps.take(0)));
    }
    while i < property.parameters.len()
        invariant
            ps == property.parameters@,
            i <= ps.len(),
            pair_views(res@) == spec_parameters(ps.take(i as int)),
        decreases ps.len() - i,
    {
        let x = &property.parameters[i];
        let ghost next = ps.take(i + 1);
        proof {
            assert(next.drop_last() =~= ps.take(i as int));
            assert(next.last() == ps[i as int]);
        }
        if x.kind == ParameterKind::Param {
            let value = match &x.value {
                Some(e) => trim(e.as_str()),
                None => trim(""),
            };
            proof {
                if x.value is None {
                    assert(""@ =~= value_text(x.value)) by {
                        reveal_strlit("");
                    }
                }
            }
            res.push((x.name.clone(), value));
            proof {
                assert(pair_views(res@) =~= spec_parameters(next));
            }
        } else {
            proof {
                assert(pair_views(res@) =~= spec_parameters(next));
            }
        }
        i += 1;
    }
    proof {
        assert(ps.take(i as int) =~= ps);
    }
    res
}

/// How a list of parameters is laid out.
pub enum ParameterStyle {
    /// 1685-2009 `<modelParameter>`s of the model.
    ModelParameter,
    /// 1685-2014/2022 `<moduleParameter>`s of the component instantiation.
    ModuleParameter,
    /// 1685-2014/2022 component-level `<parameter>`s.
    ComponentParameter,
}

/// One 1685-2009 `<modelParameter>`.
pub open spec fn model_parameter_entry(p: Seq<char>, x: (Seq<char>, Seq<char>)) -> Seq<char> {
    open_line("      "@, p, "modelParameter"@) + element_line(
        "        "@,
        p,
        "name"@,
        spec_escape(x.0),
    ) + "        <"@ + p + ":value "@ + p + ":resolve=\"user\" "@ + p + ":id=\""@ + spec_escape(
        x.0,
    ) + "\">"@ + spec_escape(x.1) + "</"@ + p + ":value>\n"@ + close_line(
        "      "@,
        p,
        "modelParameter"@,
    )
}

/// One 1685-2014/2022 `<moduleParameter>`.
pub open spec fn module_parameter_entry(p: Seq<char>, x: (Seq<char>, Seq<char>)) -> Seq<char> {
    "          <"@ + p + ":moduleParameter parameterId=\""@ + spec_escape(x.0) + "\">\n"@
        + element_line("            "@, p, "name"@, spec_escape(x.0)) + element_line(
        "            "@,
        p,
        "value"@,
        spec_escape(x.1),
    ) + close_line("          "@, p, "moduleParameter"@)
}

/// One 1685-2014/2022 component-level `<parameter>`.
pub open spec fn component_parameter_entry(p: Seq<char>, x: (Seq<char>, Seq<char>)) -> Seq<char> {
    "    <"@ + p + ":parameter parameterId=\""@ + spec_escape(x.0) + "\">\n"@ + element_line(
        "      "@,
        p,
        "name"@,
        spec_escape(x.0),
    ) + element_line("      "@, p, "value"@, spec_escape(x.1)) + close_line(
        "    "@,
        p,
        "parameter"@,
    )
}

/// One parameter entry in the given layout.
pub open spec fn parameter_entry(
    style: ParameterStyle,
    p: Seq<char>,
    x: (Seq<char>, Seq<char>),
) -> Seq<char> {
    match style {
        ParameterStyle::ModelParameter => model_parameter_entry(p, x),
        ParameterStyle::ModuleParameter => module_parameter_entry(p, x),
        ParameterStyle::ComponentParameter => component_parameter_entry(p, x),
    }
}

/// The parameter entries of `ps`, in order.
pub open spec fn parameter_entries(
    style: ParameterStyle,
    p: Seq<char>,
    ps: Seq<(Seq<char>, Seq<char>)>,
) -> Seq<char>
    decreases ps.len(),
{
    if ps.len() == 0 {
        Seq::<char>::empty()
    } else {
        parameter_entries(style, p, ps.drop_last()) + parameter_entry(style, p, ps.last())
    }
}

/// Writes `model_parameter_entry`.
fn write_model_parameter_entry(out: &mut String, p: &str, n: &str, v: &str)
    ensures
        final(out)@ == old(out)@ + (open_line("      "@, p@, "modelParameter"@)
            + element_line("        "@, p@, "name"@, n@) + "        <"@ + p@ + ":value "@ + p@
            + ":resolve=\"user\" "@ + p@ + ":id=\""@ + n@ + "\">"@ + v@ + "</"@ + p@
            + ":value>\n"@ + close_line("      "@, p@, "modelParameter"@)),
{
    write_open(out, "      ", p, "modelParameter");
    write_element(out, "        ", p, "name", n);
    out.append("        <");
    out.append(p);
    out.append(":value ");
    out.append(p);
    out.append(":resolve=\"user\" ");
    out.append(p);
    out.append(":id=\"");
    out.append(n);
    out.append("\">");
    out.append(v);
    out.append("</");
    out.append(p);
    out.append(":value>\n");
    write_close(out, "      ", p, "modelParameter");
    proof {
        assert(out@ =~= old(out)@ + (open_line("      "@, p@, "modelParameter"@)
            + element_line("        "@, p@, "name"@, n@) + "        <"@ + p@ + ":value "@ + p@
            + ":resolve=\"user\" "@ + p@ + ":id=\""@ + n@ + "\">"@ + v@ + "</"@ + p@
            + ":value>\n"@ + close_line("      "@, p@, "modelParameter"@)));
    }
}

/// Writes `module_parameter_entry` of already escaped texts.
fn write_module_parameter_entry(out: &mut String, p: &str, n: &str, v: &str)
    ensures
        final(out)@ == old(out)@ + ("          <"@ + p@ + ":moduleParameter parameterId=\""@ + n@
            + "\">\n"@ + element_line("            "@, p@, "name"@, n@) + element_line(
            "            "@,
            p@,
            "value"@,
            v@,
        ) + close_line("          "@, p@, "moduleParameter"@)),
{
    out.append("          <");
    out.append(p);
    out.append(":moduleParameter parameterId=\"");
    out.append(n);
    out.append("\">\n");
    write_element(out, "            ", p, "name", n);
    write_element(out, "            ", p, "value", v);
    write_close(out, "          ", p, "moduleParameter");
    proof {
        assert(out@ =~= old(out)@ + ("          <"@ + p@ + ":moduleParameter parameterId=\""@ + n@
            + "\">\n"@ + element_line("            "@, p@, "name"@, n@) + element_line(
            "            "@,
            p@,
            "value"@,
            v@,
        ) + close_line("          "@, p@, "moduleParameter"@)));
    }
}

/// Writes `component_parameter_entry` of already escaped texts.
fn write_component_parameter_entry(out: &mut String, p: &str, n: &str, v: &str)
    ensures
        final(out)@ == old(out)@ + ("    <"@ + p@ + ":parameter parameterId=\""@ + n@ + "\">\n"@
            + element_line("      "@, p@, "name"@, n@) + element_line("      "@, p@, "value"@, v@)
            + close_line("    "@, p@, "parameter"@)),
{
    out.append("    <");
    out.append(p);
    out.append(":parameter parameterId=\"");
    out.append(n);
    out.append("\">\n");
    write_element(out, "      ", p, "name", n);
    write_element(out, "      ", p, "value", v);
    write_close(out, "    ", p, "parameter");
    proof {
        assert(out@ =~= old(out)@ + ("    <"@ + p@ + ":parameter parameterId=\""@ + n@ + "\">\n"@
            + element_line("      "@, p@, "name"@, n@) + element_line("      "@, p@, "value"@, v@)
            + close_line("    "@, p@, "parameter"@)));
    }
}

/// Writes one parameter entry.
fn write_parameter_entry(
    out: &mut String,
    style: &ParameterStyle,
    p: &str,
    name: &str,
    value: &str,
)
    ensures
        final(out)@ == old(out)@ + parameter_entry(*style, p@, (name@, value@)),
{
    let n = escape(name);
    let v = escape(value);
    match style {
        ParameterStyle::ModelParameter => {
            write_model_parameter_entry(out, p, n.as_str(), v.as_str());
            proof {
                assert(out@ =~= old(out)@ + model_parameter_entry(p@, (name@, value@)));
            }
        },
        ParameterStyle::ModuleParameter => {
            write_module_parameter_entry(out, p, n.as_str(), v.as_str());
            proof {
                assert(out@ =~= old(out)@ + module_parameter_entry(p@, (name@, value@)));
            }
        },
        ParameterStyle::ComponentParameter => {
            write_component_parameter_entry(out, p, n.as_str(), v.as_str());
            proof {
                assert(out@ =~= old(out)@ + component_parameter_entry(p@, (name@, value@)));
            }
        },
    }
}

/// Writes the parameter entries of `params`, in order.
fn write_parameter_entries(
    out: &mut String,
    style: &ParameterStyle,
    p: &str,
    params: &[(String, String)],
)
    ensures
        final(out)@ == old(out)@ + parameter_entries(*style, p@, pair_views(params@)),
{
    let ghost ps = pair_views(params@);
    let mut i: usize = 0;
    proof {
        assert(ps.take(0) =~= Seq::<(Seq<char>, Seq<char>)>::empty());
        assert(old(out)@ + Seq::<char>::empty() =~= old(out)@);
    }
    while i < params.len()
        invariant
            ps == pair_views(params@),
            i <= params@.len(),
            out@ == old(out)@ + parameter_entries(*style, p@, ps.take(i as int)),
        decreases params@.len() - i,
    {
        let ghost before = out@;
        write_parameter_entry(out, style, p, params[i].0.as_str(), params[i].1.as_str());
        proof {
            let next = ps.take(i + 1);
            assert(next.drop_last() =~= ps.take(i as int));
            assert(next.last() == ps[i as int]);
            lemma_concat_associative(
                old(out)@,
                parameter_entries(*style, p@, ps.take(i as int)),
                parameter_entry(*style, p@, ps[i as int]),
            );
        }
        i += 1;
    }
    proof {
        assert(ps.take(i as int) =~= ps);
    }
}

// ---------------------------------------------------------------------------
// Model
// ---------------------------------------------------------------------------

/// The 1685-2009 `<views>` of a model: one `rtl` view naming the HDL module.
pub open spec fn views_2009(p: Seq<char>, sv_module_name: Seq<char>) -> Seq<char> {
    open_line("    "@, p, "views"@) + open_line("      "@, p, "view"@) + element_line(
        "        "@,
        p,
        "name"@,
        "rtl"@,
    ) + element_line("        "@, p, "envIdentifier"@, "::"@) + element_line(
        "        "@,
        p,
        "language"@,
        "verilog"@,
    ) + element_line("        "@, p, "modelName"@, spec_escape(sv_module_name)) + close_line(
        "      "@,
        p,
        "view"@,
    ) + close_line("    "@, p, "views"@)
}

/// The 1685-2009 `<modelParameters>`; nothing when there are no parameters.
pub open spec fn model_parameters_2009(p: Seq<char>, ps: Seq<(Seq<char>, Seq<char>)>) -> Seq<
    char,
> {
    if ps.len() == 0 {
        Seq::<char>::empty()
    } else {
        open_line("    "@, p, "modelParameters"@) + parameter_entries(
            ParameterStyle::ModelParameter,
            p,
            ps,
        ) + close_line("    "@, p, "modelParameters"@)
    }
}

/// The 1685-2014/2022 `<views>`: one `rtl` view referring to the `rtl`
/// component instantiation.
pub open spec fn views_2014(p: Seq<char>) -> Seq<char> {
    open_line("    "@, p, "views"@) + open_line("      "@, p, "view"@) + element_line(
        "        "@,
        p,
        "name"@,
        "rtl"@,
    ) + element_line("        "@, p, "componentInstantiationRef"@, "rtl"@) + close_line(
        "      "@,
        p,
        "view"@,
    ) + close_line("    "@, p, "views"@)
}

/// The 1685-2014/2022 `<moduleParameters>`; nothing when there are no
/// parameters.
pub open spec fn module_parameters(p: Seq<char>, ps: Seq<(Seq<char>, Seq<char>)>) -> Seq<char> {
    if ps.len() == 0 {
        Seq::<char>::empty()
    } else {
        open_line("        "@, p, "moduleParameters"@) + parameter_entries(
            ParameterStyle::ModuleParameter,
            p,
            ps,
        ) + close_line("        "@, p, "moduleParameters"@)
    }
}

/// The 1685-2014/2022 `<instantiations>`: the `rtl` component instantiation
/// naming the HDL module and its parameters.
pub open spec fn instantiations_2014(
    p: Seq<char>,
    sv_module_name: Seq<char>,
    ps: Seq<(Seq<char>, Seq<char>)>,
) -> Seq<char> {
    open_line("    "@, p, "instantiations"@) + open_line("      "@, p, "componentInstantiation"@)
        + element_line("        "@, p, "name"@, "rtl"@) + element_line(
        "        "@,
        p,
        "moduleName"@,
        spec_escape(sv_module_name),
    ) + module_parameters(p, ps) + close_line("      "@, p, "componentInstantiation"@)
        + close_line("    "@, p, "instantiations"@)
}

/// The `<model>` element. 1685-2009: views, ports, model parameters;
/// 1685-2014/2022: views, instantiations, ports.
pub open spec fn spec_model(
    v: IpxactVersion,
    sv_module_name: Seq<char>,
    ports: Seq<Port>,
    ps: Seq<(Seq<char>, Seq<char>)>,
) -> Seq<char> {
    let p = spec_prefix(v);
    let body = if v == IpxactVersion::V2009 {
        views_2009(p, sv_module_name) + spec_ports(v, ports) + model_parameters_2009(p, ps)
    } else {
        views_2014(p) + instantiations_2014(p, sv_module_name, ps) + spec_ports(v, ports)
    };
    open_line("  "@, p, "model"@) + body + close_line("  "@, p, "model"@)
}

/// Writes `views_2009`.
fn write_views_2009(out: &mut String, p: &str, sv_module_name: &str)
    ensures
        final(out)@ == old(out)@ + views_2009(p@, sv_module_name@),
{
    write_open(out, "    ", p, "views");
    write_open(out, "      ", p, "view");
    write_element(out, "        ", p, "name", "rtl");
    write_element(out, "        ", p, "envIdentifier", "::");
    write_element(out, "        ", p, "language", "verilog");
    let sv = escape(sv_module_name);
    write_element(out, "        ", p, "modelName", sv.as_str());
    write_close(out, "      ", p, "view");
    write_close(out, "    ", p, "views");
    proof {
        assert(out@ =~= old(out)@ + views_2009(p@, sv_module_name@));
    }
}

/// Writes `model_parameters_2009`.
fn write_model_parameters_2009(out: &mut String, p: &str, params: &[(String, String)])
    ensures
        final(out)@ == old(out)@ + model_parameters_2009(p@, pair_views(params@)),
{
    if params.len() == 0 {
        proof {
            assert(out@ =~= old(out)@ + model_parameters_2009(p@, pair_views(params@)));
        }
        return;
    }
    write_open(out, "    ", p, "modelParameters");
    write_parameter_entries(out, &ParameterStyle::ModelParameter, p, params);
    write_close(out, "    ", p, "modelParameters");
    proof {
        assert(out@ =~= old(out)@ + model_parameters_2009(p@, pair_views(params@)));
    }
}

/// Writes `views_2014`.
fn write_views_2014(out: &mut String, p: &str)
    ensures
        final(out)@ == old(out)@ + views_2014(p@),
{
    write_open(out, "    ", p, "views");
    write_open(out, "      ", p, "view");
    write_element(out, "        ", p, "name", "rtl");
    write_element(out, "        ", p, "componentInstantiationRef", "rtl");
    write_close(out, "      ", p, "view");
    write_close(out, "    ", p, "views");
    proof {
        assert(out@ =~= old(out)@ + views_2014(p@));
    }
}

/// Writes `module_parameters`.
fn write_module_parameters(out: &mut String, p: &str, params: &[(String, String)])
    ensures
        final(out)@ == old(out)@ + module_parameters(p@, pair_views(params@)),
{
    if params.len() == 0 {
        proof {
            assert(out@ =~= old(out)@ + module_parameters(p@, pair_views(params@)));
        }
        return;
    }
    write_open(out, "        ", p, "moduleParameters");
    write_parameter_entries(out, &ParameterStyle::ModuleParameter, p, params);
    write_close(out, "        ", p, "moduleParameters");
    proof {
        assert(out@ =~= old(out)@ + module_parameters(p@, pair_views(params@)));
    }
}

/// Writes `instantiations_2014`.
fn write_instantiations_2014(
    out: &mut String,
    p: &str,
    sv_module_name: &str,
    params: &[(String, String)],
)
    ensures
        final(out)@ == old(out)@ + instantiations_2014(p@, sv_module_name@, pair_views(params@)),
{
    write_open(out, "    ", p, "instantiations");
    write_open(out, "      ", p, "componentInstantiation");
    write_element(out, "        ", p, "name", "rtl");
    let sv = escape(sv_module_name);
    write_element(out, "        ", p, "moduleName", sv.as_str());
    write_module_parameters(out, p, params);
    write_close(out, "      ", p, "componentInstantiation");
    write_close(out, "    ", p, "instantiations");
    proof {
        assert(out@ =~= old(out)@ + instantiations_2014(p@, sv_module_name@, pair_views(params@)));
    }
}

/// The HDL (SystemVerilog) module name of a module named `name`: the name
/// itself when `[build] omit_project_prefix` is set, otherwise the project
/// name, `_`, and the name.
pub open spec fn spec_sv_module_name(m: Metadata, name: Seq<char>) -> Seq<char> {
    if m.build.omit_project_prefix {
        name
    } else {
        m.project.name@ + "_"@ + name
    }
}

/// The XML declaration and the opening `<component>` tag with its namespace
/// and schema location.
pub open spec fn component_open(v: IpxactVersion) -> Seq<char> {
    let p = spec_prefix(v);
    "<?xml version=\"1.0\" encoding=\"UTF-8\"?>\n"@ + "<"@ + p + ":component xmlns:"@ + p
        + "=\""@ + spec_namespace(v)
        + "\" xmlns:xsi=\"http://www.w3.org/2001/XMLSchema-instance\" xsi:schemaLocation=\""@
        + spec_schema_location(v) + "\">\n"@
}

/// The VLNV (vendor, library, name, version) elements of a component.
pub open spec fn vlnv_lines(
    p: Seq<char>,
    vendor: Seq<char>,
    library: Seq<char>,
    name: Seq<char>,
    version: Seq<char>,
) -> Seq<char> {
    element_line("  "@, p, "vendor"@, spec_escape(vendor)) + element_line(
        "  "@,
        p,
        "library"@,
        spec_escape(library),
    ) + element_line("  "@, p, "name"@, spec_escape(name)) + element_line(
        "  "@,
        p,
        "version"@,
        spec_escape(version),
    )
}

/// The component-level `<parameters>`: 1685-2014/2022 expose the HDL
/// parameters again so bus/abstraction definitions can refer to them;
/// nothing for 1685-2009 or when there are no parameters.
pub open spec fn component_parameters(v: IpxactVersion, ps: Seq<(Seq<char>, Seq<char>)>) -> Seq<
    char,
> {
    let p = spec_prefix(v);
    if v != IpxactVersion::V2009 && ps.len() > 0 {
        open_line("  "@, p, "parameters"@) + parameter_entries(
            ParameterStyle::ComponentParameter,
            p,
            ps,
        ) + close_line("  "@, p, "parameters"@)
    } else {
        Seq::<char>::empty()
    }
}

/// The IP-XACT component description of the module `name` with interface
/// `prop`, under metadata `m`.
pub open spec fn spec_component(m: Metadata, name: Seq<char>, prop: ModuleProperty) -> Seq<char> {
    let v = m.ipxact.version;
    let p = spec_prefix(v);
    let ps = spec_parameters(prop.parameters@);
    component_open(v) + vlnv_lines(
        p,
        spec_ipxact_vendor(m),
        spec_ipxact_library(m),
        name,
        spec_ipxact_component_version(m),
    ) + spec_model(v, spec_sv_module_name(m, name), prop.ports@, ps) + component_parameters(v, ps)
        + close_line(""@, p, "component"@)
}

/// Writes `component_open`.
fn write_component_open(out: &mut String, version: IpxactVersion)
    ensures
        final(out)@ == old(out)@ + component_open(version),
{
    let p = version.prefix();
    let loc = version.schema_location();
    out.append("<?xml version=\"1.0\" encoding=\"UTF-8\"?>\n");
    out.append("<");
    out.append(p);
    out.append(":component xmlns:");
    out.append(p);
    out.append("=\"");
    out.append(version.namespace());
    out.append(
        "\" xmlns:xsi=\"http://www.w3.org/2001/XMLSchema-instance\" xsi:schemaLocation=\"",
    );
    out.append(loc.as_str());
    out.append("\">\n");
    proof {
        assert(out@ =~= old(out)@ + component_open(version));
    }
}

/// Writes `vlnv_lines`.
fn write_vlnv(out: &mut String, p: &str, vendor: &str, library: &str, name: &str, version: &str)
    ensures
        final(out)@ == old(out)@ + vlnv_lines(p@, vendor@, library@, name@, version@),
{
    let e = escape(vendor);
    write_element(out, "  ", p, "vendor", e.as_str());
    let e = escape(library);
    write_element(out, "  ", p, "library", e.as_str());
    let e = escape(name);
    write_element(out, "  ", p, "name", e.as_str());
    let e = escape(version);
    write_element(out, "  ", p, "version", e.as_str());
    proof {
        assert(out@ =~= old(out)@ + vlnv_lines(p@, vendor@, library@, name@, version@));
    }
}

/// Writes `component_parameters`.
fn write_component_parameters(
    out: &mut String,
    version: IpxactVersion,
    params: &[(String, String)],
)
    ensures
        final(out)@ == old(out)@ + component_parameters(version, pair_views(params@)),
{
    let p = version.prefix();
    if version != IpxactVersion::V2009 && params.len() != 0 {
        write_open(out, "  ", p, "parameters");
        write_parameter_entries(out, &ParameterStyle::ComponentParameter, p, params);
        write_close(out, "  ", p, "parameters");
    }
    proof {
        assert(out@ =~= old(out)@ + component_parameters(version, pair_views(params@)));
    }
}

/// A public module collected from the project, to be emitted as one IP-XACT
/// component description.
pub struct TopLevelItem {
    /// Base file name (the Veryl module name) used for the output `*.xml` file.
    pub file_name: String,
    /// The resolved module symbol.
    pub symbol: Symbol,
}

/// The names of the ports that IP-XACT output leaves out, in order: the
/// interface and modport ports, which are no wire ports.
pub open spec fn skipped_port_names(ports: Seq<Port>) -> Seq<Seq<char>>
    decreases ports.len(),
{
    if ports.len() == 0 {
        Seq::<Seq<char>>::empty()
    } else {
        let rest = skipped_port_names(ports.drop_last());
        if direction_text(ports.last().direction) is None {
            rest.push(ports.last().name@)
        } else {
            rest
        }
    }
}

/// The names of the interface and modport ports of a module, which its
/// `<ports>` element skips, in port order.
pub fn skipped_ports(property: &ModuleProperty) -> (res: Vec<String>)
    ensures
        views(res@) == skipped_port_names(property.ports@),
{
    let ghost ports = property.ports@;
    let mut res: Vec<String> = Vec::new();
    let mut i: usize = 0;
    proof {
        assert(ports.take(0) =~= Seq::<Port>::empty());
        assert(views(res@) =~= skipped_port_names(ports.take(0)));
    }
    while i < property.ports.len()
        invariant
            ports == property.ports@,
            i <= ports.len(),
            views(res@) == skipped_port_names(ports.take(i as int)),
        decreases ports.len() - i,
    {
        let port = &property.ports[i];
        let ghost next = ports.take(i + 1);
        proof {
            assert(next.drop_last() =~= ports.take(i as int));
            assert(next.last() == ports[i as int]);
        }
        match port.direction {
            Direction::Interface | Direction::Modport => {
                res.push(port.name.clone());
            },
            _ => {},
        }
        proof {
            assert(views(res@) =~= skipped_port_names(next));
        }
        i += 1;
    }
    proof {
        assert(ports.take(i as int) =~= ports);
    }
    res
}

/// One component description to be written: its file name (relative to the
/// output directory), its XML text, and the names of the module's ports that
/// the description leaves out (interface and modport ports), so the caller
/// can warn of each.
pub struct GeneratedFile {
    pub file_name: String,
    pub xml: String,
    pub skipped_ports: Vec<String>,
}

/// What is generated for the modules `items`, in order: for each item that
/// is a module, the file name `<name>.xml`, the component description, and
/// the names of the skipped ports.
pub open spec fn spec_generated(m: Metadata, items: Seq<TopLevelItem>) -> Seq<
    (Seq<char>, Seq<char>, Seq<Seq<char>>),
>
    decreases items.len(),
{
    if items.len() == 0 {
        Seq::<(Seq<char>, Seq<char>, Seq<Seq<char>>)>::empty()
    } else {
        let rest = spec_generated(m, items.drop_last());
        let item = items.last();
        match item.symbol.kind {
            SymbolKind::Module(prop) => rest.push(
                (
                    item.file_name@ + ".xml"@,
                    spec_component(m, item.file_name@, prop),
                    skipped_port_names(prop.ports@),
                ),
            ),
            _ => rest,
        }
    }
}

/// The character views of generated files.
pub open spec fn generated_views(files: Seq<GeneratedFile>) -> Seq<
    (Seq<char>, Seq<char>, Seq<Seq<char>>),
> {
    files.map_values(|f: GeneratedFile| (f.file_name@, f.xml@, views(f.skipped_ports@)))
}

/// Generates IEEE 1685 (IP-XACT) component descriptions for the public modules
/// of a project.
pub struct IpxactBuilder {
    metadata: Metadata,
    modules: Vec<TopLevelItem>,
}

impl IpxactBuilder {
    /// The project metadata this builder renders with.
    pub closed spec fn spec_metadata(self) -> Metadata {
        self.metadata
    }

    /// The modules this builder renders.
    pub closed spec fn spec_modules(self) -> Seq<TopLevelItem> {
        self.modules@
    }

    /// A builder for the given modules, with a copy of the metadata.
    pub fn new(metadata: &Metadata, modules: Vec<TopLevelItem>) -> (res: Self)
        ensures
            res.spec_metadata() == *metadata,
            res.spec_modules() == modules@,
    {
        IpxactBuilder { metadata: metadata.duplicate(), modules }
    }

    /// The project metadata this builder renders with.
    pub fn metadata(&self) -> (res: &Metadata)
        ensures
            *res == self.spec_metadata(),
    {
        &self.metadata
    }

    /// Renders one `<module>.xml` file per public module, in the order of the
    /// modules, with the ports each one skips; the caller writes them into the configured output directory
    /// (`[ipxact] path`, default `ipxact/`).
    pub fn build(&self) -> (res: Vec<GeneratedFile>)
        ensures
            generated_views(res@) == spec_generated(self.spec_metadata(), self.spec_modules()),
    {
        let ghost items = self.modules@;
        let ghost m = self.metadata;
        let mut res: Vec<GeneratedFile> = Vec::new();
        let mut i: usize = 0;
        proof {
            assert(items.take(0) =~= Seq::<TopLevelItem>::empty());
            assert(generated_views(res@) =~= spec_generated(m, items.take(0)));
        }
        while i < self.modules.len()
            invariant
                items == self.modules@,
                m == self.metadata,
                i <= items.len(),
                generated_views(res@) == spec_generated(m, items.take(i as int)),
            decreases items.len() - i,
        {
            let item = &self.modules[i];
            let ghost next = items.take(i + 1);
            proof {
                assert(next.drop_last() =~= items.take(i as int));
                assert(next.last() == items[i as int]);
            }
            match self.build_component(item.file_name.as_str(), &item.symbol) {
                Some(xml) => {
                    let mut file_name = item.file_name.clone();
                    file_name.append(".xml");
                    let skipped = match &item.symbol.kind {
                        SymbolKind::Module(property) => skipped_ports(property),
                        _ => Vec::new(),
                    };
                    res.push(GeneratedFile { file_name, xml, skipped_ports: skipped });
                    proof {
                        assert(generated_views(res@) =~= spec_generated(m, next));
                    }
                },
                None => {
                    proof {
                        assert(generated_views(res@) =~= spec_generated(m, next));
                    }
                },
            }
            i += 1;
        }
        proof {
            assert(items.take(i as int) =~= items);
        }
        res
    }

    /// Build the IP-XACT component XML for a single module symbol.
    ///
    /// Returns `None` when the symbol is not a module (defensive; the caller
    /// only passes modules).
    pub fn build_component(&self, name: &str, symbol: &Symbol) -> (res: Option<String>)
        ensures
            res is Some <==> symbol.kind is Module,
            res matches Some(xml) ==> xml@ == spec_component(
                self.spec_metadata(),
                name@,
                symbol.kind->Module_0,
            ),
    {
        let property = match &symbol.kind {
            SymbolKind::Module(property) => property,
            _ => {
                return None;
            },
        };
        let version = self.metadata.ipxact.version;
        let p = version.prefix();

        let vendor = self.metadata.ipxact_vendor();
        let library = self.metadata.ipxact_library();
        let component_version = self.metadata.ipxact_component_version();
        let sv_module_name = self.sv_module_name(name);

        // `param`-kind parameters become module parameters (HDL view) and
        // top-level component parameters. `const`/localparam are HDL-internal
        // and intentionally excluded.
        let parameters = collect_parameters(property);

        let mut out = String::new();
        write_component_open(&mut out, version);
        write_vlnv(
            &mut out,
            p,
            vendor.as_str(),
            library.as_str(),
            name,
            component_version.as_str(),
        );
        self.build_model(
            &mut out,
            version,
            sv_module_name.as_str(),
            property,
            parameters.as_slice(),
        );
        write_component_parameters(&mut out, version, parameters.as_slice());
        write_close(&mut out, "", p, "component");
        proof {
            assert(out@ =~= spec_component(self.metadata, name@, *property));
        }
        Some(out)
    }

    /// Emit the `<model>` element. 1685-2014/2022 nest HDL details in a
    /// `componentInstantiation`; 1685-2009 places `modelName`/`modelParameters`
    /// directly inside the view/model.
    pub fn build_model(
        &self,
        out: &mut String,
        version: IpxactVersion,
        sv_module_name: &str,
        property: &ModuleProperty,
        parameters: &[(String, String)],
    )
        ensures
            final(out)@ == old(out)@ + spec_model(
                version,
                sv_module_name@,
                property.ports@,
                pair_views(parameters@),
            ),
    {
        let p = version.prefix();
        write_open(out, "  ", p, "model");
        if version == IpxactVersion::V2009 {
            // --- 1685-2009 layout ---
            write_views_2009(out, p, sv_module_name);
            self.build_ports(out, version, property);
            write_model_parameters_2009(out, p, parameters);
        } else {
            // --- 1685-2014 / 1685-2022 layout ---
            write_views_2014(out, p);
            write_instantiations_2014(out, p, sv_module_name, parameters);
            self.build_ports(out, version, property);
        }
        write_close(out, "  ", p, "model");
        proof {
            assert(out@ =~= old(out)@ + spec_model(
                version,
                sv_module_name@,
                property.ports@,
                pair_views(parameters@),
            ));
        }
    }

    /// Emit the `<ports>` element. Only wire-style ports (`input`/`output`/
    /// `inout`) are representable; interface/modport ports are skipped since
    /// IP-XACT models those via bus interfaces instead.
    pub fn build_ports(&self, out: &mut String, version: IpxactVersion, property: &ModuleProperty)
        ensures
            final(out)@ == old(out)@ + spec_ports(version, property.ports@),
    {
        write_ports(out, version, property)
    }

    /// Emit the packed-dimension vector(s) for a wire port.
    pub fn build_vectors(&self, out: &mut String, version: IpxactVersion, widths: &[String])
        ensures
            final(out)@ == old(out)@ + spec_vectors(version, views(widths@)),
    {
        write_vectors(out, version, widths)
    }

    /// The HDL (SystemVerilog) module name as emitted by `veryl build`.
    ///
    /// Veryl prefixes the project name unless `[build] omit_project_prefix` is
    /// set. The IP-XACT component `name` keeps the logical Veryl name, while
    /// `moduleName` must match the generated HDL so tools can elaborate it.
    pub fn sv_module_name(&self, name: &str) -> (res: String)
        ensures
            res@ == spec_sv_module_name(self.spec_metadata(), name@),
    {
        if self.metadata.build.omit_project_prefix {
            owned(name)
        } else {
            let mut out = self.metadata.project.name.clone();
            out.append("_");
            out.append(name);
            out
        }
    }
}

} // verus!
