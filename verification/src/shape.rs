//! The decoder's three accepted external shapes — bare string, ordered list,
//! structured object — and the shape encoding that the decoder inverts.

use vstd::prelude::*;
use vstd::string::StringExecFns;
use crate::color::{
    color_text, color_text_spec, lemma_color_text_round_trip, parse_color, parse_color_spec,
    ARGBColor, Color,
};
use crate::component::{
    content_custom_free, custom_free_seq, custom_free_v, hover_custom_free, lemma_custom_free_seq,
    lemma_nodes_view, node_view, nodes_view, ContentV, NodeV, TextComponentBase, TextContent,
};
use crate::strutil::clone_opt_str;
use crate::style::{
    default_style_v, style_view, ClickEvent, ClickV, HoverEvent, HoverV, Style, StyleV,
};

verus! {

/// Why a shape failed to decode.
#[derive(Clone, Copy, PartialEq, Eq, Structural, Debug)]
pub enum DecodeError {
    /// A structured object holds none of the recognized content key sets.
    UnknownContent,
    /// A color string is neither a color name nor a hex color.
    BadColor,
}

/// A tooltip in an external shape.
#[derive(Debug)]
pub enum HoverShape {
    ShowText { value: Vec<Shape> },
    ShowItem { id: String, count: Option<u32> },
    ShowEntity { id: String, name: Option<Vec<Shape>>, uuid: Option<String> },
}

/// A structured object shape: mutually exclusive content key sets, flattened
/// style fields, and `extra` for children.
#[derive(Debug)]
pub struct ObjectShape {
    pub text: Option<String>,
    pub translate: Option<String>,
    pub with: Option<Vec<Shape>>,
    pub selector: Option<String>,
    pub separator: Option<String>,
    pub keybind: Option<String>,
    pub extra: Option<Vec<Shape>>,
    pub color: Option<String>,
    pub bold: Option<bool>,
    pub italic: Option<bool>,
    pub underlined: Option<bool>,
    pub strikethrough: Option<bool>,
    pub obfuscated: Option<bool>,
    pub insertion: Option<String>,
    pub click_event: Option<ClickEvent>,
    pub hover_event: Option<HoverShape>,
    pub font: Option<String>,
    pub shadow_color: Option<ARGBColor>,
}

/// One of the three accepted external shapes.
#[derive(Debug)]
pub enum Shape {
    Str(String),
    List(Vec<Shape>),
    Obj(ObjectShape),
}

/// The mathematical value of a tooltip shape.
#[verifier::ext_equal]
pub enum HoverShapeV {
    ShowText { value: Seq<ShapeV> },
    ShowItem { id: Seq<char>, count: Option<u32> },
    ShowEntity { id: Seq<char>, name: Option<Seq<ShapeV>>, uuid: Option<Seq<char>> },
}

/// The mathematical value of an object shape.
#[verifier::ext_equal]
pub struct ObjV {
    pub text: Option<Seq<char>>,
    pub translate: Option<Seq<char>>,
    pub with: Option<Seq<ShapeV>>,
    pub selector: Option<Seq<char>>,
    pub separator: Option<Seq<char>>,
    pub keybind: Option<Seq<char>>,
    pub extra: Option<Seq<ShapeV>>,
    pub color: Option<Seq<char>>,
    pub bold: Option<bool>,
    pub italic: Option<bool>,
    pub underlined: Option<bool>,
    pub strikethrough: Option<bool>,
    pub obfuscated: Option<bool>,
    pub insertion: Option<Seq<char>>,
    pub click_event: Option<ClickV>,
    pub hover_event: Option<HoverShapeV>,
    pub font: Option<Seq<char>>,
    pub shadow_color: Option<ARGBColor>,
}

/// The mathematical value of a shape.
#[verifier::ext_equal]
pub enum ShapeV {
    Str(Seq<char>),
    List(Seq<ShapeV>),
    Obj(ObjV),
}

/// The mathematical value of a shape.
pub open spec fn shape_view(sh: Shape) -> ShapeV
    decreases sh,
{
    match sh {
        Shape::Str(s) => ShapeV::Str(s@),
        Shape::List(items) => ShapeV::List(shapes_view(items@)),
        Shape::Obj(o) => ShapeV::Obj(obj_view(o)),
    }
}

/// The mathematical values of a list of shapes.
pub open spec fn shapes_view(s: Seq<Shape>) -> Seq<ShapeV>
    decreases s,
{
    if s.len() == 0 {
        Seq::empty()
    } else {
        seq![shape_view(s[0])] + shapes_view(s.drop_first())
    }
}

/// The mathematical value of a tooltip shape.
pub open spec fn hover_shape_view(h: HoverShape) -> HoverShapeV
    decreases h,
{
    match h {
        HoverShape::ShowText { value } => HoverShapeV::ShowText { value: shapes_view(value@) },
        HoverShape::ShowItem { id, count } => HoverShapeV::ShowItem { id: id@, count },
        HoverShape::ShowEntity { id, name, uuid } => HoverShapeV::ShowEntity {
            id: id@,
            name: match name {
                Some(v) => Some(shapes_view(v@)),
                None => None,
            },
            uuid: match uuid {
                Some(u) => Some(u@),
                None => None,
            },
        },
    }
}

/// The mathematical value of an object shape.
pub open spec fn obj_view(o: ObjectShape) -> ObjV
    decreases o,
{
    ObjV {
        text: match o.text {
            Some(s) => Some(s@),
            None => None,
        },
        translate: match o.translate {
            Some(s) => Some(s@),
            None => None,
        },
        with: match o.with {
            Some(v) => Some(shapes_view(v@)),
            None => None,
        },
        selector: match o.selector {
            Some(s) => Some(s@),
            None => None,
        },
        separator: match o.separator {
            Some(s) => Some(s@),
            None => None,
        },
        keybind: match o.keybind {
            Some(s) => Some(s@),
            None => None,
        },
        extra: match o.extra {
            Some(v) => Some(shapes_view(v@)),
            None => None,
        },
        color: match o.color {
            Some(s) => Some(s@),
            None => None,
        },
        bold: o.bold,
        italic: o.italic,
        underlined: o.underlined,
        strikethrough: o.strikethrough,
        obfuscated: o.obfuscated,
        insertion: match o.insertion {
            Some(s) => Some(s@),
            None => None,
        },
        click_event: match o.click_event {
            Some(c) => Some(c@),
            None => None,
        },
        hover_event: match o.hover_event {
            Some(h) => Some(hover_shape_view(h)),
            None => None,
        },
        font: match o.font {
            Some(s) => Some(s@),
            None => None,
        },
        shadow_color: o.shadow_color,
    }
}

impl View for Shape {
    type V = ShapeV;

    open spec fn view(&self) -> ShapeV {
        shape_view(*self)
    }
}

/// `shapes_view` is the elementwise view.
pub proof fn lemma_shapes_view(s: Seq<Shape>)
    ensures
        shapes_view(s).len() == s.len(),
        forall|i: int| 0 <= i < s.len() ==> shapes_view(s)[i] == shape_view(s[i]),
    decreases s.len(),
{
    if s.len() > 0 {
        lemma_shapes_view(s.drop_first());
    }
}

/// A plain text node.
pub open spec fn text_node(t: Seq<char>) -> NodeV {
    NodeV { content: ContentV::Text { text: t }, style: default_style_v(), extra: Seq::empty() }
}

/// What a list of shapes decodes to: the first failure, or every node.
pub open spec fn decode_seq_spec(items: Seq<ShapeV>) -> Result<Seq<NodeV>, DecodeError>
    decreases items, 0int,
{
    if items.len() == 0 {
        Ok(Seq::empty())
    } else {
        match decode_spec(items[0]) {
            Err(e) => Err(e),
            Ok(n) => match decode_seq_spec(items.drop_first()) {
                Err(e) => Err(e),
                Ok(rest) => Ok(seq![n] + rest),
            },
        }
    }
}

/// What a tooltip shape decodes to.
pub open spec fn decode_hover_spec(h: HoverShapeV) -> Result<HoverV, DecodeError>
    decreases h, 0int,
{
    match h {
        HoverShapeV::ShowText { value } => match decode_seq_spec(value) {
            Err(e) => Err(e),
            Ok(nodes) => Ok(HoverV::ShowText { value: nodes }),
        },
        HoverShapeV::ShowItem { id, count } => Ok(HoverV::ShowItem { id, count }),
        HoverShapeV::ShowEntity { id, name, uuid } => match name {
            None => Ok(HoverV::ShowEntity { id, name: None, uuid }),
            Some(v) => match decode_seq_spec(v) {
                Err(e) => Err(e),
                Ok(nodes) => Ok(HoverV::ShowEntity { id, name: Some(nodes), uuid }),
            },
        },
    }
}

/// What an object shape decodes to: the content keys are tried in the fixed
/// order text, translate, selector, keybind; then the style fields and the
/// children are decoded.
pub open spec fn decode_obj_spec(o: ObjV) -> Result<NodeV, DecodeError>
    decreases o, 1int,
{
    let content_r: Result<ContentV, DecodeError> = if o.text is Some {
        Ok(ContentV::Text { text: o.text->0 })
    } else if o.translate is Some {
        let with_r: Result<Seq<NodeV>, DecodeError> = match o.with {
            None => Ok(Seq::empty()),
            Some(w) => decode_seq_spec(w),
        };
        match with_r {
            Err(e) => Err(e),
            Ok(ws) => Ok(ContentV::Translate { translate: o.translate->0, with: ws }),
        }
    } else if o.selector is Some {
        Ok(ContentV::EntityNames { selector: o.selector->0, separator: o.separator })
    } else if o.keybind is Some {
        Ok(ContentV::Keybind { keybind: o.keybind->0 })
    } else {
        Err(DecodeError::UnknownContent)
    };
    match content_r {
        Err(e) => Err(e),
        Ok(content) => {
            let color_r: Result<Option<Color>, DecodeError> = match o.color {
                None => Ok(None),
                Some(cs) => match parse_color_spec(cs) {
                    Some(c) => Ok(Some(c)),
                    None => Err(DecodeError::BadColor),
                },
            };
            match color_r {
                Err(e) => Err(e),
                Ok(color) => {
                    let hover_r: Result<Option<HoverV>, DecodeError> = match o.hover_event {
                        None => Ok(None),
                        Some(h) => match decode_hover_spec(h) {
                            Err(e) => Err(e),
                            Ok(hh) => Ok(Some(hh)),
                        },
                    };
                    match hover_r {
                        Err(e) => Err(e),
                        Ok(hover) => {
                            let extra_r: Result<Seq<NodeV>, DecodeError> = match o.extra {
                                None => Ok(Seq::empty()),
                                Some(x) => decode_seq_spec(x),
                            };
                            match extra_r {
                                Err(e) => Err(e),
                                Ok(extra) => Ok(
                                    NodeV {
                                        content,
                                        style: StyleV {
                                            color,
                                            bold: o.bold,
                                            italic: o.italic,
                                            underlined: o.underlined,
                                            strikethrough: o.strikethrough,
                                            obfuscated: o.obfuscated,
                                            insertion: o.insertion,
                                            click_event: o.click_event,
                                            hover_event: hover,
                                            font: o.font,
                                            shadow_color: o.shadow_color,
                                        },
                                        extra,
                                    },
                                ),
                            }
                        },
                    }
                },
            }
        },
    }
}

/// What a shape decodes to, trying the three shapes in the fixed priority
/// order: bare string, ordered list, structured object.
pub open spec fn decode_spec(sh: ShapeV) -> Result<NodeV, DecodeError>
    decreases sh, 2int,
{
    match sh {
        ShapeV::Str(t) => Ok(text_node(t)),
        ShapeV::List(items) => match decode_seq_spec(items) {
            Err(e) => Err(e),
            Ok(kids) => Ok(
                NodeV {
                    content: ContentV::Text { text: Seq::empty() },
                    style: default_style_v(),
                    extra: kids,
                },
            ),
        },
        ShapeV::Obj(o) => decode_obj_spec(o),
    }
}

/// The shapes of a list of nodes.
pub open spec fn encode_seq_spec(s: Seq<NodeV>) -> Seq<ShapeV>
    decreases s, 2int,
{
    if s.len() == 0 {
        Seq::empty()
    } else {
        seq![encode_shape_spec(s[0])] + encode_seq_spec(s.drop_first())
    }
}

/// The tooltip shape of a hover action.
pub open spec fn encode_hover_spec(h: HoverV) -> HoverShapeV
    decreases h, 0int,
{
    match h {
        HoverV::ShowText { value } => HoverShapeV::ShowText { value: encode_seq_spec(value) },
        HoverV::ShowItem { id, count } => HoverShapeV::ShowItem { id, count },
        HoverV::ShowEntity { id, name, uuid } => HoverShapeV::ShowEntity {
            id,
            name: match name {
                Some(v) => Some(encode_seq_spec(v)),
                None => None,
            },
            uuid,
        },
    }
}

/// The object shape of a node.
pub open spec fn obj_of(n: NodeV) -> ObjV
    decreases n, 0int,
{
    ObjV {
        text: match n.content {
            ContentV::Text { text } => Some(text),
            _ => None,
        },
        translate: match n.content {
            ContentV::Translate { translate, .. } => Some(translate),
            _ => None,
        },
        with: match n.content {
            ContentV::Translate { with, .. } => if with.len() == 0 {
                None
            } else {
                Some(encode_seq_spec(with))
            },
            _ => None,
        },
        selector: match n.content {
            ContentV::EntityNames { selector, .. } => Some(selector),
            _ => None,
        },
        separator: match n.content {
            ContentV::EntityNames { separator, .. } => separator,
            _ => None,
        },
        keybind: match n.content {
            ContentV::Keybind { keybind } => Some(keybind),
            _ => None,
        },
        extra: if n.extra.len() == 0 {
            None
        } else {
            Some(encode_seq_spec(n.extra))
        },
        color: match n.style.color {
            Some(c) => Some(color_text_spec(c)),
            None => None,
        },
        bold: n.style.bold,
        italic: n.style.italic,
        underlined: n.style.underlined,
        strikethrough: n.style.strikethrough,
        obfuscated: n.style.obfuscated,
        insertion: n.style.insertion,
        click_event: n.style.click_event,
        hover_event: match n.style.hover_event {
            Some(h) => Some(encode_hover_spec(h)),
            None => None,
        },
        font: n.style.font,
        shadow_color: n.style.shadow_color,
    }
}

/// The external shape of a node: a bare string when it is plain unstyled
/// text with no children, an ordered list when it is an unstyled empty-text
/// parent, a structured object otherwise.
pub open spec fn encode_shape_spec(n: NodeV) -> ShapeV
    decreases n, 1int,
{
    if n.content is Text && n.style == default_style_v() && n.extra.len() == 0 {
        ShapeV::Str(n.content->Text_text)
    } else if n.content is Text && n.content->Text_text.len() == 0 && n.style == default_style_v()
        && n.extra.len() > 0 {
        ShapeV::List(encode_seq_spec(n.extra))
    } else {
        ShapeV::Obj(obj_of(n))
    }
}

/// Decoding inverts shape encoding on every custom-free tree.
pub proof fn lemma_shape_round_trip(n: NodeV)
    requires
        custom_free_v(n),
    ensures
        decode_spec(encode_shape_spec(n)) == Ok::<NodeV, DecodeError>(n),
    decreases n,
{
    if n.content is Text && n.style == default_style_v() && n.extra.len() == 0 {
        assert(n.extra =~= Seq::<NodeV>::empty());
        assert(decode_spec(encode_shape_spec(n)) == Ok::<NodeV, DecodeError>(text_node(n.content->Text_text)));
        assert(text_node(n.content->Text_text) =~= n);
    } else if n.content is Text && n.content->Text_text.len() == 0 && n.style == default_style_v()
        && n.extra.len() > 0 {
        lemma_round_trip_seq(n.extra);
        assert(n.content->Text_text =~= Seq::<char>::empty());
        assert((NodeV {
            content: ContentV::Text { text: Seq::empty() },
            style: default_style_v(),
            extra: n.extra,
        }) =~= n);
    } else {
        let o = obj_of(n);
        match n.content {
            ContentV::Text { text } => {},
            ContentV::Translate { translate, with } => {
                if with.len() == 0 {
                    assert(with =~= Seq::<NodeV>::empty());
                } else {
                    lemma_round_trip_seq(with);
                }
            },
            ContentV::EntityNames { .. } => {},
            ContentV::Keybind { .. } => {},
            ContentV::Custom { .. } => {},
        }
        match n.style.color {
            Some(c) => {
                lemma_color_text_round_trip(c);
            },
            None => {},
        }
        match n.style.hover_event {
            Some(h) => {
                lemma_round_trip_hover(h);
            },
            None => {},
        }
        if n.extra.len() == 0 {
            assert(n.extra =~= Seq::<NodeV>::empty());
        } else {
            lemma_round_trip_seq(n.extra);
        }
        match decode_obj_spec(o) {
            Ok(m) => {
                assert(m.style =~= n.style);
                assert(m =~= n);
            },
            Err(e) => {
                assert(false);
            },
        }
    }
}

/// `encode_seq_spec` is the elementwise `encode_shape_spec`.
pub proof fn lemma_encode_seq(s: Seq<NodeV>)
    ensures
        encode_seq_spec(s).len() == s.len(),
        forall|i: int| 0 <= i < s.len() ==> encode_seq_spec(s)[i] == encode_shape_spec(s[i]),
    decreases s.len(),
{
    if s.len() > 0 {
        lemma_encode_seq(s.drop_first());
    }
}

/// Decode every shape of a list from position `i` on, stopping at the first
/// failure.
fn decode_items(v: &Vec<Shape>, i: usize) -> (r: Result<Vec<TextComponentBase>, DecodeError>)
    requires
        i <= v@.len(),
    ensures
        match r {
            Ok(ns) => decode_seq_spec(shapes_view(v@).skip(i as int)) == Ok::<
                Seq<NodeV>,
                DecodeError,
            >(nodes_view(ns@)),
            Err(e) => decode_seq_spec(shapes_view(v@).skip(i as int)) == Err::<
                Seq<NodeV>,
                DecodeError,
            >(e),
        },
    decreases *v, v@.len() - i, 0int,
{
    proof {
        lemma_shapes_view(v@);
    }
    let ghost tail = shapes_view(v@).skip(i as int);
    if i == v.len() {
        let empty: Vec<TextComponentBase> = Vec::new();
        proof {
            assert(tail =~= Seq::<ShapeV>::empty());
            assert(nodes_view(empty@) =~= Seq::<NodeV>::empty());
            assert(decode_seq_spec(tail) == Ok::<Seq<NodeV>, DecodeError>(nodes_view(empty@)));
        }
        return Ok(empty);
    }
    proof {
        assert(tail[0] == shapes_view(v@)[i as int]);
        assert(tail.drop_first() =~= shapes_view(v@).skip(i + 1));
    }
    match decode(&v[i]) {
        Err(e) => Err(e),
        Ok(node) => {
            match decode_items(v, i + 1) {
                Err(e) => Err(e),
                Ok(rest) => {
                    let ghost restv = nodes_view(rest@);
                    let mut out: Vec<TextComponentBase> = Vec::new();
                    out.push(node);
                    let mut rest2 = rest;
                    out.append(&mut rest2);
                    proof {
                        lemma_nodes_view(out@);
                        lemma_nodes_view(rest@);
                        assert(nodes_view(out@) =~= seq![node_view(out@[0])] + restv);
                        assert(decode_seq_spec(tail) == Ok::<Seq<NodeV>, DecodeError>(
                            nodes_view(out@),
                        ));
                    }
                    Ok(out)
                },
            }
        },
    }
}

/// Decode a tooltip shape.
fn decode_hover_shape(h: &HoverShape) -> (r: Result<HoverEvent, DecodeError>)
    ensures
        match r {
            Ok(hh) => decode_hover_spec(hover_shape_view(*h)) == Ok::<HoverV, DecodeError>(hh@),
            Err(e) => decode_hover_spec(hover_shape_view(*h)) == Err::<HoverV, DecodeError>(e),
        },
    decreases *h, 0int, 0int,
{
    match h {
        HoverShape::ShowText { value } => match decode_items(value, 0) {
            Err(e) => {
                proof {
                    assert(shapes_view(value@).skip(0) =~= shapes_view(value@));
                }
                Err(e)
            },
            Ok(ns) => {
                proof {
                    assert(shapes_view(value@).skip(0) =~= shapes_view(value@));
                }
                Ok(HoverEvent::ShowText { value: ns })
            },
        },
        HoverShape::ShowItem { id, count } => Ok(
            HoverEvent::ShowItem { id: id.clone(), count: *count },
        ),
        HoverShape::ShowEntity { id, name, uuid } => match name {
            None => Ok(
                HoverEvent::ShowEntity {
                    id: id.clone(),
                    name: None,
                    uuid: clone_opt_str(uuid),
                },
            ),
            Some(v) => match decode_items(v, 0) {
                Err(e) => {
                    proof {
                        assert(shapes_view(v@).skip(0) =~= shapes_view(v@));
                    }
                    Err(e)
                },
                Ok(ns) => {
                    proof {
                        assert(shapes_view(v@).skip(0) =~= shapes_view(v@));
                    }
                    Ok(
                        HoverEvent::ShowEntity {
                            id: id.clone(),
                            name: Some(ns),
                            uuid: clone_opt_str(uuid),
                        },
                    )
                },
            },
        },
    }
}

/// Decode a structured object shape.
fn decode_obj(o: &ObjectShape) -> (r: Result<TextComponentBase, DecodeError>)
    ensures
        match r {
            Ok(b) => decode_obj_spec(obj_view(*o)) == Ok::<NodeV, DecodeError>(b@),
            Err(e) => decode_obj_spec(obj_view(*o)) == Err::<NodeV, DecodeError>(e),
        },
    decreases *o, 0int, 0int,
{
    let content: TextContent = if let Some(t) = &o.text {
        TextContent::Text { text: t.clone() }
    } else if let Some(k) = &o.translate {
        let ws: Vec<TextComponentBase> = match &o.with {
            None => Vec::new(),
            Some(w) => {
                proof {
                    assert(shapes_view(w@).skip(0) =~= shapes_view(w@));
                }
                match decode_items(w, 0) {
                    Err(e) => {
                        return Err(e);
                    },
                    Ok(x) => x,
                }
            },
        };
        proof {
            if o.with is None {
                assert(nodes_view(Seq::<TextComponentBase>::empty()) =~= Seq::<NodeV>::empty());
            }
        }
        TextContent::Translate { translate: k.clone(), with: ws }
    } else if let Some(sel) = &o.selector {
        TextContent::EntityNames {
            selector: sel.clone(),
            separator: clone_opt_str(&o.separator),
        }
    } else if let Some(k) = &o.keybind {
        TextContent::Keybind { keybind: k.clone() }
    } else {
        return Err(DecodeError::UnknownContent);
    };
    let color: Option<Color> = match &o.color {
        None => None,
        Some(cs) => match parse_color(cs.as_str()) {
            Some(c) => Some(c),
            None => {
                return Err(DecodeError::BadColor);
            },
        },
    };
    let hover: Option<HoverEvent> = match &o.hover_event {
        None => None,
        Some(h) => match decode_hover_shape(h) {
            Err(e) => {
                return Err(e);
            },
            Ok(hh) => Some(hh),
        },
    };
    let extra: Vec<TextComponentBase> = match &o.extra {
        None => Vec::new(),
        Some(x) => {
            proof {
                assert(shapes_view(x@).skip(0) =~= shapes_view(x@));
            }
            match decode_items(x, 0) {
                Err(e) => {
                    return Err(e);
                },
                Ok(ns) => ns,
            }
        },
    };
    proof {
        if o.extra is None {
            assert(nodes_view(Seq::<TextComponentBase>::empty()) =~= Seq::<NodeV>::empty());
        }
    }
    let b = TextComponentBase {
        content,
        style: Style {
            color,
            bold: o.bold,
            italic: o.italic,
            underlined: o.underlined,
            strikethrough: o.strikethrough,
            obfuscated: o.obfuscated,
            insertion: clone_opt_str(&o.insertion),
            click_event: match &o.click_event {
                Some(c) => Some(c.clone()),
                None => None,
            },
            hover_event: hover,
            font: clone_opt_str(&o.font),
            shadow_color: o.shadow_color,
        },
        extra,
    };
    proof {
        assert(decode_obj_spec(obj_view(*o)) == Ok::<NodeV, DecodeError>(b@)) by {
            assert(b@.style =~= (match decode_obj_spec(obj_view(*o)) {
                Ok(m) => m.style,
                Err(_) => b@.style,
            }));
            assert(b@ =~= (match decode_obj_spec(obj_view(*o)) {
                Ok(m) => m,
                Err(_) => b@,
            }));
        }
    }
    Ok(b)
}

/// Decode an external shape, trying the three accepted shapes in the fixed
/// priority order.
pub fn decode(sh: &Shape) -> (r: Result<TextComponentBase, DecodeError>)
    ensures
        match r {
            Ok(b) => decode_spec(sh@) == Ok::<NodeV, DecodeError>(b@),
            Err(e) => decode_spec(sh@) == Err::<NodeV, DecodeError>(e),
        },
    decreases *sh, 0int, 0int,
{
    match sh {
        Shape::Str(s) => {
            let b = TextComponentBase {
                content: TextContent::Text { text: s.clone() },
                style: Style::default(),
                extra: Vec::new(),
            };
            proof {
                assert(b@ =~= text_node(s@));
            }
            Ok(b)
        },
        Shape::List(items) => {
            proof {
                assert(shapes_view(items@).skip(0) =~= shapes_view(items@));
            }
            match decode_items(items, 0) {
                Err(e) => Err(e),
                Ok(kids) => {
                    let b = TextComponentBase {
                        content: TextContent::Text { text: String::new() },
                        style: Style::default(),
                        extra: kids,
                    };
                    proof {
                        assert(decode_spec(sh@) == Ok::<NodeV, DecodeError>(b@)) by {
                            assert(b@ =~= (match decode_spec(sh@) {
                                Ok(m) => m,
                                Err(_) => b@,
                            }));
                        }
                    }
                    Ok(b)
                },
            }
        },
        Shape::Obj(o) => decode_obj(o),
    }
}

/// Whether every style field is unset.
fn style_is_default(st: &Style) -> (r: bool)
    ensures
        r == (st@ == default_style_v()),
{
    let r = st.color.is_none() && st.bold.is_none() && st.italic.is_none()
        && st.underlined.is_none() && st.strikethrough.is_none() && st.obfuscated.is_none()
        && st.insertion.is_none() && st.click_event.is_none() && st.hover_event.is_none()
        && st.font.is_none() && st.shadow_color.is_none();
    proof {
        if r {
            assert(st@ =~= default_style_v());
        }
    }
    r
}

/// Encode every node of a list as a shape.
fn encode_items(v: &Vec<TextComponentBase>) -> (r: Vec<Shape>)
    ensures
        shapes_view(r@) == encode_seq_spec(nodes_view(v@)),
    decreases *v, 0int,
{
    let mut out: Vec<Shape> = Vec::new();
    let mut i: usize = 0;
    proof {
        lemma_nodes_view(v@);
    }
    while i < v.len()
        invariant
            0 <= i <= v@.len(),
            out@.len() == i,
            nodes_view(v@).len() == v@.len(),
            forall|j: int| 0 <= j < v@.len() ==> nodes_view(v@)[j] == node_view(v@[j]),
            forall|j: int| 0 <= j < i ==> shape_view(out@[j]) == encode_shape_spec(
                node_view(v@[j]),
            ),
        decreases v@.len() - i,
    {
        let sh = v[i].encode_to_shape();
        out.push(sh);
        i = i + 1;
    }
    proof {
        lemma_shapes_view(out@);
        lemma_encode_seq(nodes_view(v@));
        assert(shapes_view(out@) =~= encode_seq_spec(nodes_view(v@)));
    }
    out
}

/// Encode a hover action as a tooltip shape.
fn encode_hover_shape(h: &HoverEvent) -> (r: HoverShape)
    ensures
        hover_shape_view(r) == encode_hover_spec(h@),
    decreases *h, 1int,
{
    match h {
        HoverEvent::ShowText { value } => {
            let r = HoverShape::ShowText { value: encode_items(value) };
            proof {
                assert(hover_shape_view(r) =~= encode_hover_spec(h@));
            }
            r
        },
        HoverEvent::ShowItem { id, count } => {
            let r = HoverShape::ShowItem { id: id.clone(), count: *count };
            proof {
                assert(hover_shape_view(r) =~= encode_hover_spec(h@));
            }
            r
        },
        HoverEvent::ShowEntity { id, name, uuid } => {
            let r = HoverShape::ShowEntity {
                id: id.clone(),
                name: match name {
                    Some(v) => Some(encode_items(v)),
                    None => None,
                },
                uuid: clone_opt_str(uuid),
            };
            proof {
                assert(hover_shape_view(r) =~= encode_hover_spec(h@));
            }
            r
        },
    }
}

impl TextComponentBase {
    /// Encode this tree as an external shape: a bare string, an ordered
    /// list, or a structured object.
    pub fn encode_to_shape(&self) -> (r: Shape)
        ensures
            r@ == encode_shape_spec(self@),
        decreases *self, 2int,
    {
        let dflt = style_is_default(&self.style);
        if let TextContent::Text { text } = &self.content {
            if dflt && self.extra.len() == 0 {
                let r = Shape::Str(text.clone());
                proof {
                    assert(r@ =~= encode_shape_spec(self@));
                }
                return r;
            }
            if dflt && text.as_str().is_empty() {
                let r = Shape::List(encode_items(&self.extra));
                proof {
                    assert(r@ =~= encode_shape_spec(self@));
                }
                return r;
            }
        }
        let obj = ObjectShape {
            text: match &self.content {
                TextContent::Text { text } => Some(text.clone()),
                _ => None,
            },
            translate: match &self.content {
                TextContent::Translate { translate, .. } => Some(translate.clone()),
                _ => None,
            },
            with: match &self.content {
                TextContent::Translate { with, .. } => if with.len() == 0 {
                    proof {
                        lemma_nodes_view(with@);
                    }
                    None
                } else {
                    Some(encode_items(with))
                },
                _ => None,
            },
            selector: match &self.content {
                TextContent::EntityNames { selector, .. } => Some(selector.clone()),
                _ => None,
            },
            separator: match &self.content {
                TextContent::EntityNames { separator, .. } => clone_opt_str(separator),
                _ => None,
            },
            keybind: match &self.content {
                TextContent::Keybind { keybind } => Some(keybind.clone()),
                _ => None,
            },
            extra: if self.extra.len() == 0 {
                proof {
                    lemma_nodes_view(self.extra@);
                }
                None
            } else {
                Some(encode_items(&self.extra))
            },
            color: match &self.style.color {
                Some(c) => Some(color_text(c)),
                None => None,
            },
            bold: self.style.bold,
            italic: self.style.italic,
            underlined: self.style.underlined,
            strikethrough: self.style.strikethrough,
            obfuscated: self.style.obfuscated,
            insertion: clone_opt_str(&self.style.insertion),
            click_event: match &self.style.click_event {
                Some(c) => Some(c.clone()),
                None => None,
            },
            hover_event: match &self.style.hover_event {
                Some(h) => Some(encode_hover_shape(h)),
                None => None,
            },
            font: clone_opt_str(&self.style.font),
            shadow_color: self.style.shadow_color,
        };
        let r = Shape::Obj(obj);
        proof {
            assert(obj_view(match r {
                Shape::Obj(ref oo) => *oo,
                _ => obj,
            }) =~= obj_of(self@));
            assert(r@ =~= encode_shape_spec(self@));
        }
        r
    }
}

/// Decoding inverts shape encoding elementwise.
proof fn lemma_round_trip_seq(s: Seq<NodeV>)
    requires
        custom_free_seq(s),
    ensures
        decode_seq_spec(encode_seq_spec(s)) == Ok::<Seq<NodeV>, DecodeError>(s),
    decreases s,
{
    if s.len() > 0 {
        lemma_shape_round_trip(s[0]);
        lemma_round_trip_seq(s.drop_first());
        let es = encode_seq_spec(s);
        assert(es[0] == encode_shape_spec(s[0]));
        assert(es.drop_first() =~= encode_seq_spec(s.drop_first()));
        assert(seq![s[0]] + s.drop_first() =~= s);
    } else {
        assert(s =~= Seq::<NodeV>::empty());
    }
}

/// Decoding inverts shape encoding on tooltips.
proof fn lemma_round_trip_hover(h: HoverV)
    requires
        hover_custom_free(h),
    ensures
        decode_hover_spec(encode_hover_spec(h)) == Ok::<HoverV, DecodeError>(h),
    decreases h,
{
    match h {
        HoverV::ShowText { value } => {
            lemma_round_trip_seq(value);
        },
        HoverV::ShowItem { .. } => {},
        HoverV::ShowEntity { name, .. } => {
            match name {
                Some(v) => {
                    lemma_round_trip_seq(v);
                },
                None => {},
            }
        },
    }
}

} // verus!
