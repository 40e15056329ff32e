//! The canonical serialized form of a product: a compact JSON rendering
//! with alphabetically ordered keys and the marketplace's escaping rules.
//! The content-derived identity of a product is a digest of exactly this
//! form, so two products with the same data always canonicalize to the
//! same character sequence.

use vstd::prelude::*;
use vstd::string::{StrSliceExecFns, StringExecFns};
use crate::entities::attribute::{Attribute, AttributeValue};
use crate::entities::product::{Product, ProductImage};
use crate::text::push_char;

verus! {

/// The sixteen lowercase hexadecimal digits, in order.
pub open spec fn hex_digits() -> Seq<char> {
    "0123456789abcdef"@
}

/// How one character appears inside a JSON string literal: the short
/// escapes for quote, backslash and the common control characters, a
/// `\u00xx` escape for the remaining control characters, and the character
/// itself otherwise.
pub open spec fn escaped_char(c: char) -> Seq<char> {
    if c == '"' {
        "\\\""@
    } else if c == '\\' {
        "\\\\"@
    } else if c == '\u{8}' {
        "\\b"@
    } else if c == '\u{c}' {
        "\\f"@
    } else if c == '\n' {
        "\\n"@
    } else if c == '\r' {
        "\\r"@
    } else if c == '\t' {
        "\\t"@
    } else if (c as u32) < 32 {
        "\\u00"@ + seq![hex_digits()[(c as u32) as int / 16], hex_digits()[(c as u32) as int % 16]]
    } else {
        seq![c]
    }
}

/// A character sequence escaped character by character.
pub open spec fn escaped(s: Seq<char>) -> Seq<char>
    decreases s.len(),
{
    if s.len() == 0 {
        Seq::empty()
    } else {
        escaped(s.drop_last()) + escaped_char(s.last())
    }
}

/// A JSON string literal: the escaped content between double quotes.
pub open spec fn quoted(s: Seq<char>) -> Seq<char> {
    "\""@ + escaped(s) + "\""@
}

/// The canonical rendering of an attribute value.
pub open spec fn value_form(v: AttributeValue) -> Seq<char> {
    match v {
        AttributeValue::Text(s) => quoted(s@),
        AttributeValue::Boolean(b) => if b {
            "true"@
        } else {
            "false"@
        },
    }
}

/// The canonical rendering of one attribute object.
pub open spec fn attribute_form(a: Attribute) -> Seq<char> {
    "{\"code\":"@ + quoted(a.code@) + ",\"value\":"@ + value_form(a.value) + "}"@
}

/// The canonical rendering of one image object.
pub open spec fn image_form(i: ProductImage) -> Seq<char> {
    "{\"url\":"@ + quoted(i.url@) + "}"@
}

/// Sequence parts joined by commas.
pub open spec fn joined(parts: Seq<Seq<char>>) -> Seq<char>
    decreases parts.len(),
{
    if parts.len() == 0 {
        Seq::empty()
    } else if parts.len() == 1 {
        parts.last()
    } else {
        joined(parts.drop_last()) + ","@ + parts.last()
    }
}

/// A JSON array of the given parts.
pub open spec fn array_form(parts: Seq<Seq<char>>) -> Seq<char> {
    "["@ + joined(parts) + "]"@
}

/// The canonical rendering of the attribute list.
pub open spec fn attributes_form(attrs: Seq<Attribute>) -> Seq<char> {
    array_form(attrs.map_values(|a: Attribute| attribute_form(a)))
}

/// The canonical rendering of the image list.
pub open spec fn images_form(imgs: Seq<ProductImage>) -> Seq<char> {
    array_form(imgs.map_values(|i: ProductImage| image_form(i)))
}

/// The canonical serialized form of a product: one JSON object whose keys
/// appear in alphabetical order.
pub open spec fn canonical_form(p: Product) -> Seq<char> {
    "{\"attributes\":"@ + attributes_form(p.attributes@) + ",\"brand\":"@ + quoted(p.brand@)
        + ",\"category\":"@ + quoted(p.category@) + ",\"description\":"@ + quoted(p.description@)
        + ",\"images\":"@ + images_form(p.images@) + ",\"sku\":"@ + quoted(p.sku@) + ",\"title\":"@
        + quoted(p.title@) + "}"@
}

/// The lowercase hexadecimal digit of a value below sixteen.
fn hex_digit(d: u32) -> (r: char)
    requires
        d < 16,
    ensures
        r == hex_digits()[d as int],
{
    let digits = "0123456789abcdef";
    proof {
        reveal_strlit("0123456789abcdef");
    }
    digits.get_char(d as usize)
}

/// Appends the escaped form of `s` to `out`.
fn append_escaped(out: &mut String, s: &str)
    ensures
        final(out)@ == old(out)@ + escaped(s@),
{
    let n = s.unicode_len();
    let mut i: usize = 0;
    while i < n
        invariant
            n == s@.len(),
            i <= n,
            out@ == old(out)@ + escaped(s@.take(i as int)),
        decreases n - i,
    {
        let c = s.get_char(i);
        if c == '"' {
            out.append("\\\"");
        } else if c == '\\' {
            out.append("\\\\");
        } else if c == '\u{8}' {
            out.append("\\b");
        } else if c == '\u{c}' {
            out.append("\\f");
        } else if c == '\n' {
            out.append("\\n");
        } else if c == '\r' {
            out.append("\\r");
        } else if c == '\t' {
            out.append("\\t");
        } else if (c as u32) < 32 {
            out.append("\\u00");
            let hi = hex_digit((c as u32) / 16);
            let lo = hex_digit((c as u32) % 16);
            push_char(out, hi);
            push_char(out, lo);
        } else {
            push_char(out, c);
        }
        proof {
            let t = s@.take(i + 1);
            assert(t.drop_last() =~= s@.take(i as int));
            assert(t.last() == s@[i as int]);
            assert(out@ =~= old(out)@ + escaped(s@.take(i + 1)));
        }
        i += 1;
    }
    proof {
        assert(s@.take(n as int) =~= s@);
    }
}

/// Appends the quoted form of `s` to `out`.
fn append_quoted(out: &mut String, s: &str)
    ensures
        final(out)@ == old(out)@ + quoted(s@),
{
    out.append("\"");
    append_escaped(out, s);
    out.append("\"");
    proof {
        assert(out@ =~= old(out)@ + quoted(s@));
    }
}

/// Appends the canonical form of one attribute to `out`.
fn append_attribute(out: &mut String, a: &Attribute)
    ensures
        final(out)@ == old(out)@ + attribute_form(*a),
{
    out.append("{\"code\":");
    append_quoted(out, a.code.as_str());
    out.append(",\"value\":");
    match &a.value {
        AttributeValue::Text(s) => {
            append_quoted(out, s.as_str());
        },
        AttributeValue::Boolean(b) => {
            if *b {
                out.append("true");
            } else {
                out.append("false");
            }
        },
    }
    out.append("}");
    proof {
        assert(out@ =~= old(out)@ + attribute_form(*a));
    }
}

/// Appends the canonical form of one image to `out`.
fn append_image(out: &mut String, img: &ProductImage)
    ensures
        final(out)@ == old(out)@ + image_form(*img),
{
    out.append("{\"url\":");
    append_quoted(out, img.url.as_str());
    out.append("}");
    proof {
        assert(out@ =~= old(out)@ + image_form(*img));
    }
}

/// Appends the canonical attribute array to `out`.
fn append_attributes(out: &mut String, attrs: &Vec<Attribute>)
    ensures
        final(out)@ == old(out)@ + attributes_form(attrs@),
{
    out.append("[");
    let mut i: usize = 0;
    while i < attrs.len()
        invariant
            i <= attrs@.len(),
            out@ == old(out)@ + "["@ + joined(attrs@.take(i as int).map_values(|a: Attribute| attribute_form(a))),
        decreases attrs@.len() - i,
    {
        if i > 0 {
            out.append(",");
        }
        append_attribute(out, &attrs[i]);
        proof {
            let prev = attrs@.take(i as int).map_values(|a: Attribute| attribute_form(a));
            let cur = attrs@.take(i + 1).map_values(|a: Attribute| attribute_form(a));
            assert(cur.drop_last() =~= prev);
            assert(cur.last() == attribute_form(attrs@[i as int]));
            assert(out@ =~= old(out)@ + "["@ + joined(cur));
        }
        i += 1;
    }
    out.append("]");
    proof {
        assert(attrs@.take(attrs@.len() as int) =~= attrs@);
        assert(out@ =~= old(out)@ + attributes_form(attrs@));
    }
}

/// Appends the canonical image array to `out`.
fn append_images(out: &mut String, imgs: &Vec<ProductImage>)
    ensures
        final(out)@ == old(out)@ + images_form(imgs@),
{
    out.append("[");
    let mut i: usize = 0;
    while i < imgs.len()
        invariant
            i <= imgs@.len(),
            out@ == old(out)@ + "["@ + joined(imgs@.take(i as int).map_values(|im: ProductImage| image_form(im))),
        decreases imgs@.len() - i,
    {
        if i > 0 {
            out.append(",");
        }
        append_image(out, &imgs[i]);
        proof {
            let prev = imgs@.take(i as int).map_values(|im: ProductImage| image_form(im));
            let cur = imgs@.take(i + 1).map_values(|im: ProductImage| image_form(im));
            assert(cur.drop_last() =~= prev);
            assert(cur.last() == image_form(imgs@[i as int]));
            assert(out@ =~= old(out)@ + "["@ + joined(cur));
        }
        i += 1;
    }
    out.append("]");
    proof {
        assert(imgs@.take(imgs@.len() as int) =~= imgs@);
        assert(out@ =~= old(out)@ + images_form(imgs@));
    }
}

/// Renders the canonical form of one attribute object on its own.
pub fn attribute_json(a: &Attribute) -> (r: String)
    ensures
        r@ == attribute_form(*a),
{
    let mut out = String::new();
    append_attribute(&mut out, a);
    proof {
        assert(out@ =~= attribute_form(*a));
    }
    out
}

/// Renders the canonical serialized form of a product.
pub fn canonical_json(p: &Product) -> (r: String)
    ensures
        r@ == canonical_form(*p),
{
    let mut out = String::new();
    out.append("{\"attributes\":");
    append_attributes(&mut out, &p.attributes);
    out.append(",\"brand\":");
    append_quoted(&mut out, p.brand.as_str());
    out.append(",\"category\":");
    append_quoted(&mut out, p.category.as_str());
    out.append(",\"description\":");
    append_quoted(&mut out, p.description.as_str());
    out.append(",\"images\":");
    append_images(&mut out, &p.images);
    out.append(",\"sku\":");
    append_quoted(&mut out, p.sku.as_str());
    out.append(",\"title\":");
    append_quoted(&mut out, p.title.as_str());
    out.append("}");
    proof {
        assert(out@ =~= canonical_form(*p));
    }
    out
}

} // verus!
