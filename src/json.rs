use vstd::prelude::*;

use crate::catalog::{Pack, PackView, packs_view, spec_catalog};

verus! {

/// The text of one decimal digit `d < 10`.
pub open spec fn digit_text(d: nat) -> Seq<char> {
    "0123456789"@.subrange(d as int, d as int + 1)
}

/// The text of one hexadecimal digit `d < 16`, lower case.
pub open spec fn hex_text(d: nat) -> Seq<char> {
    "0123456789abcdef"@.subrange(d as int, d as int + 1)
}

/// `n` in decimal, without leading zeros.
pub open spec fn decimal(n: nat) -> Seq<char>
    decreases n,
{
    if n < 10 {
        digit_text(n)
    } else {
        decimal(n / 10) + digit_text(n % 10)
    }
}

/// How one character stands inside a JSON string: quote, backslash and
/// control characters are escaped, everything else stands as it is.
pub open spec fn escape_char(c: char) -> Seq<char> {
    if c == '"' {
        "\\\""@
    } else if c == '\\' {
        "\\\\"@
    } else if c == '\u{8}' {
        "\\b"@
    } else if c == '\u{c}' {
        "\\f"@
    } else if c == '\n' {
        "\\n"@
    } else if c == '\r' {
        "\\r"@
    } else if c == '\t' {
        "\\t"@
    } else if (c as u32) < 0x20 {
        "\\u00"@ + hex_text((c as u32 / 16) as nat) + hex_text((c as u32 % 16) as nat)
    } else {
        seq![c]
    }
}

/// The escaped form of a whole sequence of characters.
pub open spec fn escaped(s: Seq<char>) -> Seq<char>
    decreases s.len(),
{
    if s.len() == 0 {
        Seq::empty()
    } else {
        escaped(s.drop_last()) + escape_char(s.last())
    }
}

/// A JSON string literal holding `s`.
pub open spec fn json_string(s: Seq<char>) -> Seq<char> {
    "\""@ + escaped(s) + "\""@
}

/// The wire form of one pack: a JSON object with the keys `id`, `name`,
/// `roleCount` and `stringCount`, in that order.
pub open spec fn pack_json(p: PackView) -> Seq<char> {
    "{\"id\":"@ + decimal(p.id as nat) + ",\"name\":"@ + json_string(p.name) + ",\"roleCount\":"@
        + decimal(p.role_count as nat) + ",\"stringCount\":"@ + decimal(p.string_count as nat)
        + "}"@
}

/// The packs of `c`, each in its wire form, separated by commas.
pub open spec fn packs_joined(c: Seq<PackView>) -> Seq<char>
    decreases c.len(),
{
    if c.len() == 0 {
        Seq::empty()
    } else if c.len() == 1 {
        pack_json(c[0])
    } else {
        packs_joined(c.drop_last()) + ","@ + pack_json(c.last())
    }
}

/// The wire form of a catalog: a JSON array of its packs, in order.
pub open spec fn catalog_json(c: Seq<PackView>) -> Seq<char> {
    "["@ + packs_joined(c) + "]"@
}

/// Appends `n` in decimal.
pub fn push_decimal(out: &mut String, n: u64)
    ensures
        final(out)@ == old(out)@ + decimal(n as nat),
    decreases n,
{
    proof {
        reveal_strlit("0123456789");
    }
    if n >= 10 {
        push_decimal(out, n / 10);
    }
    let d: usize = (n % 10) as usize;
    out.append("0123456789".substring_char(d, d + 1));
    assert(out@ =~= old(out)@ + decimal(n as nat));
}

/// Appends the hexadecimal digit `d`.
fn push_hex_digit(out: &mut String, d: u32)
    requires
        d < 16,
    ensures
        final(out)@ == old(out)@ + hex_text(d as nat),
{
    proof {
        reveal_strlit("0123456789abcdef");
    }
    let i: usize = d as usize;
    out.append("0123456789abcdef".substring_char(i, i + 1));
}

/// Appends `s` as a JSON string literal, quotes included.
pub fn push_json_string(out: &mut String, s: &str)
    ensures
        final(out)@ == old(out)@ + json_string(s@),
{
    out.append("\"");
    let n: usize = s.unicode_len();
    let ghost start = out@;
    let mut i: usize = 0;
    while i < n
        invariant
            n == s@.len(),
            i <= n,
            start == old(out)@ + "\""@,
            out@ == start + escaped(s@.subrange(0, i as int)),
        decreases n - i,
    {
        let c: char = s.get_char(i);
        let ghost before = out@;
        if c == '"' {
            out.append("\\\"");
        } else if c == '\\' {
            out.append("\\\\");
        } else if c == '\u{8}' {
            out.append("\\b");
        } else if c == '\u{c}' {
            out.append("\\f");
        } else if c == '\n' {
            out.append("\\n");
        } else if c == '\r' {
            out.append("\\r");
        } else if c == '\t' {
            out.append("\\t");
        } else if (c as u32) < 0x20 {
            out.append("\\u00");
            push_hex_digit(out, c as u32 / 16);
            push_hex_digit(out, c as u32 % 16);
            assert(out@ =~= before + escape_char(c));
        } else {
            out.append(s.substring_char(i, i + 1));
            assert(s@.subrange(i as int, i + 1) =~= seq![c]);
        }
        assert(out@ == before + escape_char(c));
        assert(s@.subrange(0, i + 1).drop_last() =~= s@.subrange(0, i as int));
        i = i + 1;
        assert(out@ =~= start + escaped(s@.subrange(0, i as int)));
    }
    assert(s@.subrange(0, n as int) =~= s@);
    out.append("\"");
    assert(out@ =~= old(out)@ + json_string(s@));
}

/// Appends the wire form of one pack.
pub fn push_pack(out: &mut String, p: &Pack)
    ensures
        final(out)@ == old(out)@ + pack_json(p@),
{
    let ghost o = old(out)@;
    out.append("{\"id\":");
    push_decimal(out, p.id);
    out.append(",\"name\":");
    push_json_string(out, p.name.as_str());
    out.append(",\"roleCount\":");
    push_decimal(out, p.role_count as u64);
    out.append(",\"stringCount\":");
    push_decimal(out, p.string_count as u64);
    out.append("}");
    assert(out@ =~= o + pack_json(p@));
}

/// The wire form of a list of packs: a JSON array of objects, in order.
pub fn encode_catalog(packs: &Vec<Pack>) -> (r: String)
    ensures
        r@ == catalog_json(packs_view(packs@)),
{
    let mut out = String::new();
    out.append("[");
    let ghost c = packs_view(packs@);
    let mut i: usize = 0;
    while i < packs.len()
        invariant
            c == packs_view(packs@),
            i <= packs.len(),
            out@ == "["@ + packs_joined(c.subrange(0, i as int)),
        decreases packs.len() - i,
    {
        if i > 0 {
            out.append(",");
        }
        push_pack(&mut out, &packs[i]);
        assert(c.subrange(0, i + 1).drop_last() =~= c.subrange(0, i as int));
        assert(c.subrange(0, i + 1).last() == packs[i as int]@);
        i = i + 1;
        assert(out@ =~= "["@ + packs_joined(c.subrange(0, i as int)));
    }
    assert(c.subrange(0, packs.len() as int) =~= c);
    out.append("]");
    out
}

/// The fixed catalog goes on the wire as an array of its two entries, in
/// order, each an object whose keys are exactly `id`, `name`, `roleCount` and
/// `stringCount`.
pub proof fn lemma_catalog_wire_form()
    ensures
        catalog_json(spec_catalog()) == "["@ + pack_json(spec_catalog()[0]) + ","@ + pack_json(spec_catalog()[1])
            + "]"@,
        forall|i: int| 0 <= i < spec_catalog().len() ==> #[trigger] pack_json(spec_catalog()[i]) == "{\"id\":"@
            + decimal(spec_catalog()[i].id as nat) + ",\"name\":"@ + json_string(spec_catalog()[i].name)
            + ",\"roleCount\":"@ + decimal(spec_catalog()[i].role_count as nat) + ",\"stringCount\":"@
            + decimal(spec_catalog()[i].string_count as nat) + "}"@,
{
    let c = spec_catalog();
    assert(c.drop_last() =~= seq![c[0]]);
    assert(packs_joined(c.drop_last()) == pack_json(c[0]));
    assert(packs_joined(c) == pack_json(c[0]) + ","@ + pack_json(c[1]));
    assert(catalog_json(c) =~= "["@ + pack_json(c[0]) + ","@ + pack_json(c[1]) + "]"@);
}

} // verus!
