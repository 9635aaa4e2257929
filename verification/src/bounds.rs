//! The `left` bound of a vector or array dimension.
use vstd::prelude::*;

use crate::text::{
    chars_of, decimal, decimal_string, owned, parse_u128, spec_parse_u128,
    spec_trim, trim,
};

verus! {

/// A character that may appear in a bare identifier or number.
pub open spec fn is_word_char(c: char) -> bool {
    ('0' <= c && c <= '9') || ('a' <= c && c <= 'z') || ('A' <= c && c <= 'Z') || c == '_'
}

/// Whether `t` is a non-empty bare identifier or number, which needs no
/// parentheses before `-1` is appended.
pub open spec fn is_bare(t: Seq<char>) -> bool {
    t.len() > 0 && forall|i: int| 0 <= i < t.len() ==> is_word_char(#[trigger] t[i])
}

/// `n - 1`, or `0` when `n` is `0`.
pub open spec fn minus_one(n: nat) -> nat {
    if n == 0 {
        0
    } else {
        (n - 1) as nat
    }
}

/// The `left` bound (`width - 1`) of one dimension whose width expression is
/// `e`: the folded literal when the trimmed expression is a `u128` constant,
/// otherwise the expression followed by `-1`, parenthesised unless it is bare.
pub open spec fn spec_left_bound(e: Seq<char>) -> Seq<char> {
    let t = spec_trim(e);
    match spec_parse_u128(t) {
        Some(n) => decimal(minus_one(n as nat)),
        None => if is_bare(t) {
            t + "-1"@
        } else {
            "("@ + t + ")-1"@
        },
    }
}

/// `a * b`, saturated at `u128::MAX`.
pub open spec fn saturating_product(a: u128, b: u128) -> u128 {
    if a * b > u128::MAX {
        u128::MAX
    } else {
        (a * b) as u128
    }
}

/// The product (saturating) of the widths when every one of them is a
/// constant; `None` when some width is not.
pub open spec fn constant_product(ws: Seq<Seq<char>>) -> Option<u128>
    decreases ws.len(),
{
    if ws.len() == 0 {
        Some(1u128)
    } else {
        match (constant_product(ws.drop_last()), spec_parse_u128(spec_trim(ws.last()))) {
            (Some(p), Some(n)) => Some(saturating_product(p, n)),
            _ => None,
        }
    }
}

/// The character views of a list of strings.
pub open spec fn views(ws: Seq<String>) -> Seq<Seq<char>> {
    ws.map_values(|w: String| w@)
}

/// The single `left` bound of several packed dimensions (1685-2009 allows one
/// vector only): `product - 1` when all widths are constants, else the
/// `left` bound of the first (most significant) dimension.
pub open spec fn spec_combined_left_bound(ws: Seq<Seq<char>>) -> Seq<char> {
    match constant_product(ws) {
        Some(p) => decimal(minus_one(p as nat)),
        None => spec_left_bound(ws[0]),
    }
}

/// Whether every character of `t` may appear in a bare identifier or number.
fn bare(t: &str) -> (res: bool)
    ensures
        res == is_bare(t@),
{
    let v = chars_of(t);
    if v.len() == 0 {
        return false;
    }
    let mut i: usize = 0;
    while i < v.len()
        invariant
            v@ == t@,
            i <= v@.len(),
            forall|j: int| 0 <= j < i ==> is_word_char(#[trigger] v@[j]),
        decreases v@.len() - i,
    {
        let c = v[i];
        if !(('0' <= c && c <= '9') || ('a' <= c && c <= 'z') || ('A' <= c && c <= 'Z') || c
            == '_') {
            return false;
        }
        i += 1;
    }
    true
}

/// Compute the `left` bound (`width - 1`) for a single dimension expression.
///
/// Constant widths are folded to a literal; parametric widths are emitted as an
/// IP-XACT expression that references the parameter by name (parentheses are
/// added when the source text is not a bare identifier/number to keep `- 1`
/// precedence correct).
pub fn left_bound(expr_text: &str) -> (res: String)
    ensures
        res@ == spec_left_bound(expr_text@),
{
    let t = trim(expr_text);
    if let Some(n) = parse_u128(t.as_str()) {
        return decimal_string(n.saturating_sub(1));
    }
    if bare(t.as_str()) {
        let mut out = t.clone();
        out.append("-1");
        out
    } else {
        let mut out = owned("(");
        out.append(t.as_str());
        out.append(")-1");
        out
    }
}

/// Once some width is not a constant, adding widths keeps it so.
proof fn lemma_constant_product_prefix(ws: Seq<Seq<char>>, j: int)
    requires
        0 <= j <= ws.len(),
        constant_product(ws.take(j)) is None,
    ensures
        constant_product(ws) is None,
    decreases ws.len(),
{
    if j < ws.len() {
        assert(ws.drop_last().take(j) =~= ws.take(j));
        lemma_constant_product_prefix(ws.drop_last(), j);
    } else {
        assert(ws.take(j) =~= ws);
    }
}

/// Combine multiple packed dimensions into a single `left` bound for the
/// 1685-2009 schema (which permits only one vector). Constant dimensions are
/// multiplied; if any dimension is non-constant, the most-significant dimension
/// is used as a best-effort approximation.
pub fn combined_left_bound(widths: &[String]) -> (res: String)
    ensures
        res@ == spec_combined_left_bound(views(widths@)),
{
    let ghost ws = views(widths@);
    let mut product: u128 = 1;
    let mut all_const = true;
    let mut i: usize = 0;
    proof {
        assert(ws.take(0) =~= Seq::<Seq<char>>::empty());
    }
    while i < widths.len() && all_const
        invariant
            ws == views(widths@),
            i <= widths@.len(),
            all_const ==> constant_product(ws.take(i as int)) == Some(product),
            !all_const ==> constant_product(ws) is None,
        decreases widths@.len() - i,
    {
        let t = trim(widths[i].as_str());
        let ghost next = ws.take(i + 1);
        proof {
            assert(next.drop_last() =~= ws.take(i as int));
            assert(next.last() == widths@[i as int]@);
        }
        match parse_u128(t.as_str()) {
            Some(n) => {
                product = match product.checked_mul(n) {
                    Some(m) => m,
                    None => u128::MAX,
                };
            },
            None => {
                all_const = false;
                proof {
                    lemma_constant_product_prefix(ws, i + 1);
                }
            },
        }
        i += 1;
    }
    if all_const {
        proof {
            assert(ws.take(i as int) =~= ws);
        }
        decimal_string(product.saturating_sub(1))
    } else {
        proof {
            assert(ws.len() > 0);
        }
        left_bound(widths[0].as_str())
    }
}

} // verus!
