//! The wire encoding: a sparse, self-describing binary tag structure. Each
//! node is a compound of length-prefixed UTF-8 names; unset style fields are
//! omitted entirely, and `extra` is omitted when there are no children.

use vstd::prelude::*;
use vstd::utf8::encode_utf8;
use crate::color::{color_text, color_text_spec, ARGBColor};
use crate::component::{
    custom_free_seq, custom_free_v, hover_custom_free, lemma_custom_free_seq, lemma_nodes_view,
    node_view, nodes_view, style_custom_free, ContentV, NodeV, TextComponent, TextComponentBase,
    TextContent,
};
use crate::style::{ClickEvent, ClickV, HoverEvent, HoverV, Style, StyleV};

verus! {

/// The low sixteen bits of a length, as two big-endian bytes.
pub open spec fn be16(n: int) -> Seq<u8> {
    seq![((n / 256) % 256) as u8, (n % 256) as u8]
}

/// The low thirty-two bits of a length, as four big-endian bytes.
pub open spec fn be32(n: int) -> Seq<u8> {
    seq![
        ((n / 0x1000000) % 256) as u8,
        ((n / 0x10000) % 256) as u8,
        ((n / 256) % 256) as u8,
        (n % 256) as u8,
    ]
}

/// A string payload: big-endian length of the UTF-8 bytes, then the bytes.
pub open spec fn nbt_str_bytes(s: Seq<char>) -> Seq<u8> {
    be16(encode_utf8(s).len() as int) + encode_utf8(s)
}

/// A string field: tag, name, value.
pub open spec fn str_field(name: Seq<char>, val: Seq<char>) -> Seq<u8> {
    seq![8u8] + nbt_str_bytes(name) + nbt_str_bytes(val)
}

/// A boolean style field: byte tag, name, one byte.
pub open spec fn flag_field(name: Seq<char>, b: bool) -> Seq<u8> {
    seq![1u8] + nbt_str_bytes(name) + seq![
        if b {
            1u8
        } else {
            0u8
        },
    ]
}

/// The payloads of a list of node compounds, in order.
pub open spec fn nbt_bodies(s: Seq<NodeV>) -> Seq<u8>
    decreases s, 0int,
{
    if s.len() == 0 {
        Seq::empty()
    } else {
        nbt_body(s[0]) + nbt_bodies(s.drop_first())
    }
}

/// A list field of node compounds: list tag, name, element tag, count, then
/// each element's payload.
pub open spec fn list_field(name: Seq<char>, items: Seq<NodeV>) -> Seq<u8>
    decreases items, 1int,
{
    seq![9u8] + nbt_str_bytes(name) + seq![10u8] + be32(items.len() as int) + nbt_bodies(items)
}

/// The content fields of a node, mirroring the content variant.
pub open spec fn content_bytes(c: ContentV) -> Seq<u8>
    decreases c, 0int,
{
    match c {
        ContentV::Text { text } => str_field("text"@, text),
        ContentV::Translate { translate, with } => str_field("translate"@, translate) + if with.len()
            == 0 {
            Seq::<u8>::empty()
        } else {
            list_field("with"@, with)
        },
        ContentV::EntityNames { selector, separator } => str_field("selector"@, selector) + match separator {
            Some(s) => str_field("separator"@, s),
            None => Seq::<u8>::empty(),
        },
        ContentV::Keybind { keybind } => str_field("keybind"@, keybind),
        ContentV::Custom { .. } => Seq::empty(),
    }
}

/// The fields of a click action's compound.
pub open spec fn click_body(c: ClickV) -> Seq<u8> {
    match c {
        ClickV::OpenUrl { url } => str_field("action"@, "open_url"@) + str_field("url"@, url),
        ClickV::OpenFile { path } => str_field("action"@, "open_file"@) + str_field("path"@, path),
        ClickV::RunCommand { command } => str_field("action"@, "run_command"@) + str_field(
            "command"@,
            command,
        ),
        ClickV::SuggestCommand { command } => str_field("action"@, "suggest_command"@) + str_field(
            "command"@,
            command,
        ),
        ClickV::ChangePage { page } => str_field("action"@, "change_page"@) + str_field(
            "page"@,
            page,
        ),
        ClickV::CopyToClipboard { value } => str_field("action"@, "copy_to_clipboard"@)
            + str_field("value"@, value),
    }
}

/// The fields of a hover action's compound.
pub open spec fn hover_body(h: HoverV) -> Seq<u8>
    decreases h, 0int,
{
    match h {
        HoverV::ShowText { value } => str_field("action"@, "show_text"@) + list_field(
            "value"@,
            value,
        ),
        HoverV::ShowItem { id, count } => str_field("action"@, "show_item"@) + str_field(
            "id"@,
            id,
        ) + match count {
            Some(c) => seq![3u8] + nbt_str_bytes("count"@) + be32(c as int),
            None => Seq::<u8>::empty(),
        },
        HoverV::ShowEntity { id, name, uuid } => str_field("action"@, "show_entity"@) + str_field(
            "id"@,
            id,
        ) + (match name {
            Some(v) => list_field("name"@, v),
            None => Seq::<u8>::empty(),
        }) + (match uuid {
            Some(u) => str_field("uuid"@, u),
            None => Seq::<u8>::empty(),
        }),
    }
}

/// The color field, when set.
pub open spec fn opt_color_bytes(st: StyleV) -> Seq<u8> {
    match st.color {
        Some(c) => str_field("color"@, color_text_spec(c)),
        None => Seq::<u8>::empty(),
    }
}

/// The bold field, when set.
pub open spec fn opt_bold_bytes(st: StyleV) -> Seq<u8> {
    match st.bold {
        Some(b) => flag_field("bold"@, b),
        None => Seq::<u8>::empty(),
    }
}

/// The italic field, when set.
pub open spec fn opt_italic_bytes(st: StyleV) -> Seq<u8> {
    match st.italic {
        Some(b) => flag_field("italic"@, b),
        None => Seq::<u8>::empty(),
    }
}

/// The underlined field, when set.
pub open spec fn opt_underlined_bytes(st: StyleV) -> Seq<u8> {
    match st.underlined {
        Some(b) => flag_field("underlined"@, b),
        None => Seq::<u8>::empty(),
    }
}

/// The strikethrough field, when set.
pub open spec fn opt_strikethrough_bytes(st: StyleV) -> Seq<u8> {
    match st.strikethrough {
        Some(b) => flag_field("strikethrough"@, b),
        None => Seq::<u8>::empty(),
    }
}

/// The obfuscated field, when set.
pub open spec fn opt_obfuscated_bytes(st: StyleV) -> Seq<u8> {
    match st.obfuscated {
        Some(b) => flag_field("obfuscated"@, b),
        None => Seq::<u8>::empty(),
    }
}

/// The insertion field, when set.
pub open spec fn opt_insertion_bytes(st: StyleV) -> Seq<u8> {
    match st.insertion {
        Some(s) => str_field("insertion"@, s),
        None => Seq::<u8>::empty(),
    }
}

/// The click action compound, when set.
pub open spec fn opt_click_bytes(st: StyleV) -> Seq<u8> {
    match st.click_event {
        Some(c) => seq![10u8] + nbt_str_bytes("clickEvent"@) + click_body(c) + seq![0u8],
        None => Seq::<u8>::empty(),
    }
}

/// The hover action compound, when set.
pub open spec fn opt_hover_bytes(st: StyleV) -> Seq<u8>
    decreases st, 1int,
{
    match st.hover_event {
        Some(h) => seq![10u8] + nbt_str_bytes("hoverEvent"@) + hover_body(h) + seq![0u8],
        None => Seq::<u8>::empty(),
    }
}

/// The font field, when set.
pub open spec fn opt_font_bytes(st: StyleV) -> Seq<u8> {
    match st.font {
        Some(f) => str_field("font"@, f),
        None => Seq::<u8>::empty(),
    }
}

/// The shadow color field, when set.
pub open spec fn opt_shadow_bytes(st: StyleV) -> Seq<u8> {
    match st.shadow_color {
        Some(a) => seq![3u8] + nbt_str_bytes("shadowColor"@) + seq![a.alpha, a.red, a.green, a.blue],
        None => Seq::<u8>::empty(),
    }
}

/// The color and emphasis fields of a node, each present only when set.
pub open spec fn style_bytes_a(st: StyleV) -> Seq<u8> {
    opt_color_bytes(st) + opt_bold_bytes(st) + opt_italic_bytes(st) + opt_underlined_bytes(st)
        + opt_strikethrough_bytes(st) + opt_obfuscated_bytes(st)
}

/// The remaining style fields of a node, each present only when set.
pub open spec fn style_bytes_b(st: StyleV) -> Seq<u8>
    decreases st, 2int,
{
    opt_insertion_bytes(st) + opt_click_bytes(st) + opt_hover_bytes(st) + opt_font_bytes(st)
        + opt_shadow_bytes(st)
}

/// The style fields of a node, each present only when set, in the fixed
/// field order.
pub open spec fn style_bytes(st: StyleV) -> Seq<u8>
    decreases st, 3int,
{
    style_bytes_a(st) + style_bytes_b(st)
}

/// The payload of one node's compound: content fields, style fields, the
/// children as an `extra` list when there are any, then the end marker.
pub open spec fn nbt_body(n: NodeV) -> Seq<u8>
    decreases n, 2int,
{
    content_bytes(n.content) + style_bytes(n.style) + (if n.extra.len() == 0 {
        Seq::<u8>::empty()
    } else {
        list_field("extra"@, n.extra)
    }) + seq![0u8]
}

/// A whole tree as an unnamed root compound.
pub open spec fn nbt_node(n: NodeV) -> Seq<u8> {
    seq![10u8] + nbt_body(n)
}

/// A push is a one-element concatenation.
proof fn push_app(s: Seq<u8>, x: u8)
    ensures
        s.push(x) == s + seq![x],
{
    assert(s.push(x) =~= s + seq![x]);
}

/// Concatenation of byte strings is associative.
proof fn app_assoc(a: Seq<u8>, b: Seq<u8>, c: Seq<u8>)
    ensures
        (a + b) + c == a + (b + c),
{
    vstd::seq_lib::lemma_concat_associative(a, b, c);
}

/// Append a big-endian sixteen-bit length.
fn write_be16(out: &mut Vec<u8>, n: usize)
    ensures
        final(out)@ == old(out)@ + be16(n as int),
{
    out.push(((n / 256) % 256) as u8);
    out.push((n % 256) as u8);
    proof {
        assert(final(out)@ =~= old(out)@ + be16(n as int));
    }
}

/// Append a big-endian thirty-two-bit length.
fn write_be32(out: &mut Vec<u8>, n: usize)
    ensures
        final(out)@ == old(out)@ + be32(n as int),
{
    out.push(((n / 0x1000000) % 256) as u8);
    out.push(((n / 0x10000) % 256) as u8);
    out.push(((n / 256) % 256) as u8);
    out.push((n % 256) as u8);
    proof {
        assert(final(out)@ =~= old(out)@ + be32(n as int));
    }
}

/// Append a length-prefixed string payload.
fn write_nbt_str(out: &mut Vec<u8>, s: &str)
    ensures
        final(out)@ == old(out)@ + nbt_str_bytes(s@),
{
    let bytes = s.as_bytes();
    write_be16(out, bytes.len());
    out.extend_from_slice(bytes);
    proof {
        assert(final(out)@ =~= old(out)@ + nbt_str_bytes(s@));
    }
}

/// Append a string field.
fn write_str_field(out: &mut Vec<u8>, name: &str, val: &str)
    ensures
        final(out)@ == old(out)@ + str_field(name@, val@),
{
    out.push(8u8);
    write_nbt_str(out, name);
    write_nbt_str(out, val);
    proof {
        assert(final(out)@ =~= old(out)@ + str_field(name@, val@));
    }
}

/// Append a boolean field.
fn write_flag_field(out: &mut Vec<u8>, name: &str, b: bool)
    ensures
        final(out)@ == old(out)@ + flag_field(name@, b),
{
    out.push(1u8);
    write_nbt_str(out, name);
    out.push(if b {
        1u8
    } else {
        0u8
    });
    proof {
        assert(final(out)@ =~= old(out)@ + flag_field(name@, b));
    }
}

/// Append a list field of node compounds.
fn write_node_list(out: &mut Vec<u8>, name: &str, items: &Vec<TextComponentBase>)
    requires
        custom_free_seq(nodes_view(items@)),
    ensures
        final(out)@ == old(out)@ + list_field(name@, nodes_view(items@)),
    decreases *items, 0int,
{
    let ghost views = nodes_view(items@);
    out.push(9u8);
    write_nbt_str(out, name);
    out.push(10u8);
    write_be32(out, items.len());
    proof {
        lemma_nodes_view(items@);
        lemma_custom_free_seq(views);
    }
    let ghost mid = out@;
    let mut i: usize = 0;
    proof {
        assert(views.skip(0) =~= views);
    }
    while i < items.len()
        invariant
            0 <= i <= items@.len(),
            views == nodes_view(items@),
            views.len() == items@.len(),
            forall|j: int| 0 <= j < items@.len() ==> views[j] == node_view(items@[j]),
            forall|j: int| 0 <= j < views.len() ==> custom_free_v(views[j]),
            out@ + nbt_bodies(views.skip(i as int)) == mid + nbt_bodies(views),
        decreases items@.len() - i,
    {
        let ghost tail = views.skip(i as int);
        proof {
            assert(tail[0] == views[i as int]);
            assert(tail.drop_first() =~= views.skip(i + 1));
        }
        write_node_body(&items[i], out);
        i = i + 1;
    }
    proof {
        assert(nbt_bodies(views.skip(items@.len() as int)) =~= Seq::<u8>::empty());
        assert(out@ =~= out@ + nbt_bodies(views.skip(items@.len() as int)));
        assert(out@ =~= old(out)@ + list_field(name@, views));
    }
}

/// Append the fields of a click action's compound.
fn write_click(out: &mut Vec<u8>, c: &ClickEvent)
    ensures
        final(out)@ == old(out)@ + click_body(c@),
{
    match c {
        ClickEvent::OpenUrl { url } => {
            write_str_field(out, "action", "open_url");
            write_str_field(out, "url", url.as_str());
        },
        ClickEvent::OpenFile { path } => {
            write_str_field(out, "action", "open_file");
            write_str_field(out, "path", path.as_str());
        },
        ClickEvent::RunCommand { command } => {
            write_str_field(out, "action", "run_command");
            write_str_field(out, "command", command.as_str());
        },
        ClickEvent::SuggestCommand { command } => {
            write_str_field(out, "action", "suggest_command");
            write_str_field(out, "command", command.as_str());
        },
        ClickEvent::ChangePage { page } => {
            write_str_field(out, "action", "change_page");
            write_str_field(out, "page", page.as_str());
        },
        ClickEvent::CopyToClipboard { value } => {
            write_str_field(out, "action", "copy_to_clipboard");
            write_str_field(out, "value", value.as_str());
        },
    }
    proof {
        assert(final(out)@ =~= old(out)@ + click_body(c@));
    }
}

/// Append the fields of a hover action's compound.
fn write_hover(out: &mut Vec<u8>, h: &HoverEvent)
    requires
        hover_custom_free(h@),
    ensures
        final(out)@ == old(out)@ + hover_body(h@),
    decreases *h, 0int,
{
    let ghost b0 = old(out)@;
    match h {
        HoverEvent::ShowText { value } => {
            write_str_field(out, "action", "show_text");
            write_node_list(out, "value", value);
            proof {
                app_assoc(
                    b0,
                    str_field("action"@, "show_text"@),
                    list_field("value"@, nodes_view(value@)),
                );
                assert(out@ == b0 + hover_body(h@));
            }
        },
        HoverEvent::ShowItem { id, count } => {
            write_str_field(out, "action", "show_item");
            write_str_field(out, "id", id.as_str());
            let ghost a = str_field("action"@, "show_item"@) + str_field("id"@, id@);
            proof {
                app_assoc(b0, str_field("action"@, "show_item"@), str_field("id"@, id@));
                assert(out@ == b0 + a);
            }
            match count {
                Some(c) => {
                    let ghost e0 = out@;
                    out.push(3u8);
                    proof {
                        push_app(e0, 3u8);
                    }
                    write_nbt_str(out, "count");
                    write_be32(out, (*c) as usize);
                    proof {
                        let s3 = seq![3u8];
                        let ns = nbt_str_bytes("count"@);
                        let be = be32((*c) as int);
                        app_assoc(e0, s3, ns);
                        app_assoc(e0, s3 + ns, be);
                        app_assoc(b0, a, (s3 + ns) + be);
                        assert(out@ == b0 + hover_body(h@));
                    }
                },
                None => {
                    proof {
                        Seq::<u8>::add_empty_right(a, Seq::<u8>::empty());
                        assert(out@ == b0 + hover_body(h@));
                    }
                },
            }
        },
        HoverEvent::ShowEntity { id, name, uuid } => {
            write_str_field(out, "action", "show_entity");
            write_str_field(out, "id", id.as_str());
            let ghost a = str_field("action"@, "show_entity"@) + str_field("id"@, id@);
            proof {
                app_assoc(b0, str_field("action"@, "show_entity"@), str_field("id"@, id@));
                assert(out@ == b0 + a);
            }
            let ghost nm: Seq<u8> = match h@ {
                HoverV::ShowEntity { name: nv, .. } => match nv {
                    Some(v) => list_field("name"@, v),
                    None => Seq::<u8>::empty(),
                },
                _ => Seq::<u8>::empty(),
            };
            match name {
                Some(v) => {
                    write_node_list(out, "name", v);
                    proof {
                        app_assoc(b0, a, nm);
                    }
                },
                None => {
                    proof {
                        Seq::<u8>::add_empty_right(a, nm);
                    }
                },
            }
            proof {
                assert(out@ == b0 + (a + nm));
            }
            match uuid {
                Some(u) => {
                    write_str_field(out, "uuid", u.as_str());
                    proof {
                        app_assoc(b0, a + nm, str_field("uuid"@, u@));
                        assert(out@ == b0 + hover_body(h@));
                    }
                },
                None => {
                    proof {
                        Seq::<u8>::add_empty_right(a + nm, Seq::<u8>::empty());
                        assert(out@ == b0 + hover_body(h@));
                    }
                },
            }
        },
    }
}

/// Append the color and emphasis fields that are set.
fn write_style_a(out: &mut Vec<u8>, st: &Style)
    ensures
        final(out)@ == old(out)@ + style_bytes_a(st@),
{
    let ghost b0 = old(out)@;
    if let Some(c) = &st.color {
        let ct = color_text(c);
        write_str_field(out, "color", ct.as_str());
    }
    let ghost q1 = opt_color_bytes(st@);
    proof {
        if st@.color is None {
            Seq::<u8>::add_empty_right(b0, q1);
        }
        assert(out@ == b0 + q1);
    }
    if let Some(b) = st.bold {
        write_flag_field(out, "bold", b);
    }
    let ghost q2 = q1 + opt_bold_bytes(st@);
    proof {
        if st@.bold is None {
            Seq::<u8>::add_empty_right(q1, opt_bold_bytes(st@));
        } else {
            app_assoc(b0, q1, opt_bold_bytes(st@));
        }
        assert(out@ == b0 + q2);
    }
    if let Some(b) = st.italic {
        write_flag_field(out, "italic", b);
    }
    let ghost q3 = q2 + opt_italic_bytes(st@);
    proof {
        if st@.italic is None {
            Seq::<u8>::add_empty_right(q2, opt_italic_bytes(st@));
        } else {
            app_assoc(b0, q2, opt_italic_bytes(st@));
        }
        assert(out@ == b0 + q3);
    }
    if let Some(b) = st.underlined {
        write_flag_field(out, "underlined", b);
    }
    let ghost q4 = q3 + opt_underlined_bytes(st@);
    proof {
        if st@.underlined is None {
            Seq::<u8>::add_empty_right(q3, opt_underlined_bytes(st@));
        } else {
            app_assoc(b0, q3, opt_underlined_bytes(st@));
        }
        assert(out@ == b0 + q4);
    }
    if let Some(b) = st.strikethrough {
        write_flag_field(out, "strikethrough", b);
    }
    let ghost q5 = q4 + opt_strikethrough_bytes(st@);
    proof {
        if st@.strikethrough is None {
            Seq::<u8>::add_empty_right(q4, opt_strikethrough_bytes(st@));
        } else {
            app_assoc(b0, q4, opt_strikethrough_bytes(st@));
        }
        assert(out@ == b0 + q5);
    }
    if let Some(b) = st.obfuscated {
        write_flag_field(out, "obfuscated", b);
    }
    proof {
        if st@.obfuscated is None {
            Seq::<u8>::add_empty_right(q5, opt_obfuscated_bytes(st@));
        } else {
            app_assoc(b0, q5, opt_obfuscated_bytes(st@));
        }
        assert(out@ == b0 + style_bytes_a(st@));
    }
}

/// Append a click action as a named nested compound.
fn write_click_compound(out: &mut Vec<u8>, c: &ClickEvent)
    ensures
        final(out)@ == old(out)@ + (seq![10u8] + nbt_str_bytes("clickEvent"@) + click_body(c@)
            + seq![0u8]),
{
    let ghost e0 = out@;
    out.push(10u8);
    proof {
        push_app(e0, 10u8);
    }
    write_nbt_str(out, "clickEvent");
    write_click(out, c);
    let ghost e3 = out@;
    out.push(0u8);
    proof {
        push_app(e3, 0u8);
        let s10 = seq![10u8];
        let ns = nbt_str_bytes("clickEvent"@);
        let cb = click_body(c@);
        app_assoc(e0, s10, ns);
        app_assoc(e0, s10 + ns, cb);
        app_assoc(e0, (s10 + ns) + cb, seq![0u8]);
    }
}

/// Append a hover action as a named nested compound.
fn write_hover_compound(out: &mut Vec<u8>, h: &HoverEvent)
    requires
        hover_custom_free(h@),
    ensures
        final(out)@ == old(out)@ + (seq![10u8] + nbt_str_bytes("hoverEvent"@) + hover_body(h@)
            + seq![0u8]),
    decreases *h, 1int,
{
    let ghost e0 = out@;
    out.push(10u8);
    proof {
        push_app(e0, 10u8);
    }
    write_nbt_str(out, "hoverEvent");
    write_hover(out, h);
    let ghost e3 = out@;
    out.push(0u8);
    proof {
        push_app(e3, 0u8);
        let s10 = seq![10u8];
        let ns = nbt_str_bytes("hoverEvent"@);
        let hb = hover_body(h@);
        app_assoc(e0, s10, ns);
        app_assoc(e0, s10 + ns, hb);
        app_assoc(e0, (s10 + ns) + hb, seq![0u8]);
    }
}

/// Append a shadow color as an integer field.
fn write_shadow(out: &mut Vec<u8>, a: ARGBColor)
    ensures
        final(out)@ == old(out)@ + (seq![3u8] + nbt_str_bytes("shadowColor"@) + seq![
            a.alpha,
            a.red,
            a.green,
            a.blue,
        ]),
{
    let ghost e0 = out@;
    out.push(3u8);
    proof {
        push_app(e0, 3u8);
    }
    write_nbt_str(out, "shadowColor");
    let ghost e2 = out@;
    out.push(a.alpha);
    out.push(a.red);
    out.push(a.green);
    out.push(a.blue);
    proof {
        assert(out@ =~= e2 + seq![a.alpha, a.red, a.green, a.blue]);
        let s3 = seq![3u8];
        let ns = nbt_str_bytes("shadowColor"@);
        app_assoc(e0, s3, ns);
        app_assoc(e0, s3 + ns, seq![a.alpha, a.red, a.green, a.blue]);
    }
}

/// Append the insertion, click, hover, font and shadow fields that are set.
fn write_style_b(out: &mut Vec<u8>, st: &Style)
    requires
        style_custom_free(st@),
    ensures
        final(out)@ == old(out)@ + style_bytes_b(st@),
    decreases *st, 2int,
{
    let ghost b0 = old(out)@;
    if let Some(s) = &st.insertion {
        write_str_field(out, "insertion", s.as_str());
    }
    let ghost q1 = opt_insertion_bytes(st@);
    proof {
        if st@.insertion is None {
            Seq::<u8>::add_empty_right(b0, q1);
        }
        assert(out@ == b0 + q1);
    }
    if let Some(c) = &st.click_event {
        write_click_compound(out, c);
    }
    let ghost q2 = q1 + opt_click_bytes(st@);
    proof {
        if st@.click_event is None {
            Seq::<u8>::add_empty_right(q1, opt_click_bytes(st@));
        } else {
            app_assoc(b0, q1, opt_click_bytes(st@));
        }
        assert(out@ == b0 + q2);
    }
    if let Some(h) = &st.hover_event {
        write_hover_compound(out, h);
    }
    let ghost q3 = q2 + opt_hover_bytes(st@);
    proof {
        if st@.hover_event is None {
            Seq::<u8>::add_empty_right(q2, opt_hover_bytes(st@));
        } else {
            app_assoc(b0, q2, opt_hover_bytes(st@));
        }
        assert(out@ == b0 + q3);
    }
    if let Some(f) = &st.font {
        write_str_field(out, "font", f.as_str());
    }
    let ghost q4 = q3 + opt_font_bytes(st@);
    proof {
        if st@.font is None {
            Seq::<u8>::add_empty_right(q3, opt_font_bytes(st@));
        } else {
            app_assoc(b0, q3, opt_font_bytes(st@));
        }
        assert(out@ == b0 + q4);
    }
    if let Some(a) = st.shadow_color {
        write_shadow(out, a);
    }
    proof {
        if st@.shadow_color is None {
            Seq::<u8>::add_empty_right(q4, opt_shadow_bytes(st@));
        } else {
            app_assoc(b0, q4, opt_shadow_bytes(st@));
        }
        assert(out@ == b0 + style_bytes_b(st@));
    }
}

/// Append the style fields that are set, in the fixed field order.
fn write_style(out: &mut Vec<u8>, st: &Style)
    requires
        style_custom_free(st@),
    ensures
        final(out)@ == old(out)@ + style_bytes(st@),
    decreases *st, 3int,
{
    write_style_a(out, st);
    write_style_b(out, st);
    proof {
        assert(final(out)@ =~= old(out)@ + style_bytes(st@));
    }
}

/// Append the payload of one node's compound.
fn write_node_body(n: &TextComponentBase, out: &mut Vec<u8>)
    requires
        custom_free_v(n@),
    ensures
        final(out)@ == old(out)@ + nbt_body(n@),
    decreases *n, 3int,
{
    let ghost b0 = old(out)@;
    match &n.content {
        TextContent::Text { text } => {
            write_str_field(out, "text", text.as_str());
        },
        TextContent::Translate { translate, with } => {
            write_str_field(out, "translate", translate.as_str());
            let ghost sf = str_field("translate"@, translate@);
            if with.len() > 0 {
                write_node_list(out, "with", with);
                proof {
                    app_assoc(b0, sf, list_field("with"@, nodes_view(with@)));
                }
            } else {
                proof {
                    crate::component::lemma_nodes_view(with@);
                    Seq::<u8>::add_empty_right(sf, Seq::<u8>::empty());
                }
            }
        },
        TextContent::EntityNames { selector, separator } => {
            write_str_field(out, "selector", selector.as_str());
            let ghost sf = str_field("selector"@, selector@);
            match separator {
                Some(sep) => {
                    write_str_field(out, "separator", sep.as_str());
                    proof {
                        app_assoc(b0, sf, str_field("separator"@, sep@));
                    }
                },
                None => {
                    proof {
                        Seq::<u8>::add_empty_right(sf, Seq::<u8>::empty());
                    }
                },
            }
        },
        TextContent::Keybind { keybind } => {
            write_str_field(out, "keybind", keybind.as_str());
        },
        TextContent::Custom { .. } => {
            proof {
                assert(false);
            }
        },
    }
    let ghost cb = content_bytes(n@.content);
    proof {
        assert(out@ == b0 + cb);
    }
    write_style(out, &n.style);
    let ghost q = cb + style_bytes(n@.style);
    proof {
        app_assoc(b0, cb, style_bytes(n@.style));
        assert(out@ == b0 + q);
    }
    if n.extra.len() > 0 {
        proof {
            lemma_nodes_view(n.extra@);
        }
        write_node_list(out, "extra", &n.extra);
    }
    let ghost q2 = q + (if n@.extra.len() == 0 {
        Seq::<u8>::empty()
    } else {
        list_field("extra"@, n@.extra)
    });
    proof {
        lemma_nodes_view(n.extra@);
        if n@.extra.len() == 0 {
            Seq::<u8>::add_empty_right(q, Seq::<u8>::empty());
        } else {
            app_assoc(b0, q, list_field("extra"@, n@.extra));
        }
        assert(out@ == b0 + q2);
    }
    let ghost e = out@;
    out.push(0u8);
    proof {
        push_app(e, 0u8);
        app_assoc(b0, q2, seq![0u8]);
        assert(out@ == b0 + nbt_body(n@));
    }
}

impl TextComponent {
    /// Encode a resolved tree to its wire bytes: an unnamed root compound.
    pub fn encode(&self) -> (r: Vec<u8>)
        requires
            custom_free_v(self@),
        ensures
            r@ == nbt_node(self@),
    {
        let mut out: Vec<u8> = Vec::new();
        out.push(10u8);
        write_node_body(&self.0, &mut out);
        proof {
            assert(out@ =~= nbt_node(self@));
        }
        out
    }
}

} // verus!
