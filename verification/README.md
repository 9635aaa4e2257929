# veryl_ipxact

IP-XACT (IEEE 1685-2009/2014/2022) component descriptions for the public
modules of a Veryl project, verified with Verus.

- `src/metadata.rs`: the `[ipxact]` section, schema versions, and the VLNV
  values resolved from project metadata (including the repository host).
- `src/bounds.rs`: `left` bounds of packed and unpacked dimensions.
- `src/builder.rs`: the XML of a component, specified line by line.
- `src/command.rs`: which symbols become components, ordered by name.
- `src/text.rs`, `src/xml.rs`: escaping, trimming, decimal numbers, XML lines.
- `src/laws.rs`: properties proved for all inputs.
- `app/lib.rs`: reading the configuration with serde and writing the files.
