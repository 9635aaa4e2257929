//! Lines of IP-XACT XML: opening tags, closing tags and text elements, each
//! namespaced by a prefix and indented.
use vstd::prelude::*;

verus! {

/// `<p:tag>` on a line of its own.
#[verifier::opaque]
pub open spec fn open_line(indent: Seq<char>, p: Seq<char>, tag: Seq<char>) -> Seq<char> {
    indent + "<"@ + p + ":"@ + tag + ">\n"@
}

/// `</p:tag>` on a line of its own.
#[verifier::opaque]
pub open spec fn close_line(indent: Seq<char>, p: Seq<char>, tag: Seq<char>) -> Seq<char> {
    indent + "</"@ + p + ":"@ + tag + ">\n"@
}

/// `<p:tag>text</p:tag>` on a line of its own.
#[verifier::opaque]
pub open spec fn element_line(
    indent: Seq<char>,
    p: Seq<char>,
    tag: Seq<char>,
    text: Seq<char>,
) -> Seq<char> {
    indent + "<"@ + p + ":"@ + tag + ">"@ + text + "</"@ + p + ":"@ + tag + ">\n"@
}

/// Writes `open_line`.
pub fn write_open(out: &mut String, indent: &str, p: &str, tag: &str)
    ensures
        final(out)@ == old(out)@ + open_line(indent@, p@, tag@),
{
    out.append(indent);
    out.append("<");
    out.append(p);
    out.append(":");
    out.append(tag);
    out.append(">\n");
    proof {
        reveal(open_line);
        assert(out@ =~= old(out)@ + open_line(indent@, p@, tag@));
    }
}

/// Writes `close_line`.
pub fn write_close(out: &mut String, indent: &str, p: &str, tag: &str)
    ensures
        final(out)@ == old(out)@ + close_line(indent@, p@, tag@),
{
    out.append(indent);
    out.append("</");
    out.append(p);
    out.append(":");
    out.append(tag);
    out.append(">\n");
    proof {
        reveal(close_line);
        assert(out@ =~= old(out)@ + close_line(indent@, p@, tag@));
    }
}

/// Writes `element_line`.
pub fn write_element(out: &mut String, indent: &str, p: &str, tag: &str, text: &str)
    ensures
        final(out)@ == old(out)@ + element_line(indent@, p@, tag@, text@),
{
    out.append(indent);
    out.append("<");
    out.append(p);
    out.append(":");
    out.append(tag);
    out.append(">");
    out.append(text);
    out.append("</");
    out.append(p);
    out.append(":");
    out.append(tag);
    out.append(">\n");
    proof {
        reveal(element_line);
        assert(out@ =~= old(out)@ + element_line(indent@, p@, tag@, text@));
    }
}

} // verus!
