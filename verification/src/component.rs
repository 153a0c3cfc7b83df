//! The component tree: a recursive value tree of styled text fragments.

use vstd::prelude::*;
use crate::catalog::Locale;
use crate::color::{ARGBColor, Color, NamedColor, RGBColor};
use crate::strutil::{lower_of, push_char, replace_all, replace_spec};
use crate::style::{
    default_style_v, style_view, ClickEvent, HoverEvent, HoverV, Style, StyleV,
};
use vstd::string::StringExecFns;

verus! {

/// The content of one node, exactly one variant per node.
#[derive(Debug)]
pub enum TextContent {
    /// Raw text.
    Text { text: String },
    /// A template key the game client resolves itself.
    Translate { translate: String, with: Vec<TextComponentBase> },
    /// The names of the entities a selector finds; the selector is carried
    /// as an opaque string and never expanded here.
    EntityNames { selector: String, separator: Option<String> },
    /// A keybind identifier, carried as an opaque string.
    Keybind { keybind: String },
    /// A custom translation key, resolved locally before encoding; only
    /// application code constructs this variant.
    Custom { key: String, locale: Locale, with: Vec<TextComponentBase> },
}

/// The mathematical value of a `TextContent`.
#[verifier::ext_equal]
pub enum ContentV {
    Text { text: Seq<char> },
    Translate { translate: Seq<char>, with: Seq<NodeV> },
    EntityNames { selector: Seq<char>, separator: Option<Seq<char>> },
    Keybind { keybind: Seq<char> },
    Custom { key: Seq<char>, locale: Locale, with: Seq<NodeV> },
}

/// One node of the component tree.
#[derive(Debug)]
pub struct TextComponentBase {
    /// The node's own content.
    pub content: TextContent,
    /// The node's own style; unset fields inherit.
    pub style: Style,
    /// The ordered child nodes.
    pub extra: Vec<TextComponentBase>,
}

/// The mathematical value of a node: content, style and children.
#[verifier::ext_equal]
pub struct NodeV {
    pub content: ContentV,
    pub style: StyleV,
    pub extra: Seq<NodeV>,
}

/// The mathematical value of a node.
pub open spec fn node_view(n: TextComponentBase) -> NodeV
    decreases n,
{
    NodeV {
        content: content_view(n.content),
        style: style_view(n.style),
        extra: nodes_view(n.extra@),
    }
}

/// The mathematical values of a list of nodes.
pub open spec fn nodes_view(s: Seq<TextComponentBase>) -> Seq<NodeV>
    decreases s,
{
    if s.len() == 0 {
        Seq::empty()
    } else {
        seq![node_view(s[0])] + nodes_view(s.drop_first())
    }
}

/// The mathematical value of a content variant.
pub open spec fn content_view(c: TextContent) -> ContentV
    decreases c,
{
    match c {
        TextContent::Text { text } => ContentV::Text { text: text@ },
        TextContent::Translate { translate, with } => ContentV::Translate {
            translate: translate@,
            with: nodes_view(with@),
        },
        TextContent::EntityNames { selector, separator } => ContentV::EntityNames {
            selector: selector@,
            separator: match separator {
                Some(s) => Some(s@),
                None => None,
            },
        },
        TextContent::Keybind { keybind } => ContentV::Keybind { keybind: keybind@ },
        TextContent::Custom { key, locale, with } => ContentV::Custom {
            key: key@,
            locale,
            with: nodes_view(with@),
        },
    }
}

impl View for TextComponentBase {
    type V = NodeV;

    open spec fn view(&self) -> NodeV {
        node_view(*self)
    }
}

/// `nodes_view` is the elementwise `node_view`.
pub proof fn lemma_nodes_view(s: Seq<TextComponentBase>)
    ensures
        nodes_view(s).len() == s.len(),
        forall|i: int| 0 <= i < s.len() ==> nodes_view(s)[i] == node_view(s[i]),
    decreases s.len(),
{
    if s.len() > 0 {
        lemma_nodes_view(s.drop_first());
    }
}

/// Appending a node to a list appends its view.
pub proof fn lemma_nodes_view_push(s: Seq<TextComponentBase>, x: TextComponentBase)
    ensures
        nodes_view(s.push(x)) == nodes_view(s).push(node_view(x)),
{
    lemma_nodes_view(s);
    lemma_nodes_view(s.push(x));
    assert(nodes_view(s.push(x)) =~= nodes_view(s).push(node_view(x)));
}

/// Whether a whole subtree, tooltips and template arguments included, holds
/// no `Custom` content.
pub open spec fn custom_free_v(n: NodeV) -> bool
    decreases n,
{
    &&& content_custom_free(n.content)
    &&& style_custom_free(n.style)
    &&& custom_free_seq(n.extra)
}

/// Whether every node of a list is custom-free.
pub open spec fn custom_free_seq(s: Seq<NodeV>) -> bool
    decreases s,
{
    s.len() == 0 || (custom_free_v(s[0]) && custom_free_seq(s.drop_first()))
}

/// Whether a content variant is custom-free.
pub open spec fn content_custom_free(c: ContentV) -> bool
    decreases c,
{
    match c {
        ContentV::Custom { .. } => false,
        ContentV::Translate { with, .. } => custom_free_seq(with),
        _ => true,
    }
}

/// Whether the tooltip payloads of a style are custom-free.
pub open spec fn style_custom_free(st: StyleV) -> bool
    decreases st,
{
    match st.hover_event {
        None => true,
        Some(h) => hover_custom_free(h),
    }
}

/// Whether a tooltip payload is custom-free.
pub open spec fn hover_custom_free(h: HoverV) -> bool
    decreases h,
{
    match h {
        HoverV::ShowText { value } => custom_free_seq(value),
        HoverV::ShowItem { .. } => true,
        HoverV::ShowEntity { name, .. } => match name {
            Some(v) => custom_free_seq(v),
            None => true,
        },
    }
}

/// A list is custom-free exactly when each of its nodes is.
pub proof fn lemma_custom_free_seq(s: Seq<NodeV>)
    ensures
        custom_free_seq(s) <==> (forall|i: int| 0 <= i < s.len() ==> custom_free_v(s[i])),
    decreases s.len(),
{
    if s.len() > 0 {
        lemma_custom_free_seq(s.drop_first());
        if custom_free_v(s[0]) && custom_free_seq(s.drop_first()) {
            assert forall|i: int| 0 <= i < s.len() implies custom_free_v(s[i]) by {
                if i > 0 {
                    assert(s[i] == s.drop_first()[i - 1]);
                }
            }
        }
        if forall|i: int| 0 <= i < s.len() ==> custom_free_v(s[i]) {
            assert forall|i: int| 0 <= i < s.drop_first().len() implies custom_free_v(
                s.drop_first()[i],
            ) by {
                assert(s.drop_first()[i] == s[i + 1]);
            }
        }
    }
}

/// The number of nodes in a subtree, tooltip payloads included; the measure
/// the console renderer's recursion decreases.
pub open spec fn node_size(n: NodeV) -> nat
    decreases n,
{
    1 + seq_node_size(n.extra) + opt_hover_size(n.style.hover_event)
}

/// The total size of a list of nodes.
pub open spec fn seq_node_size(s: Seq<NodeV>) -> nat
    decreases s,
{
    if s.len() == 0 {
        0
    } else {
        node_size(s[0]) + seq_node_size(s.drop_first())
    }
}

/// The size of a tooltip payload.
pub open spec fn hover_size(h: HoverV) -> nat
    decreases h,
{
    match h {
        HoverV::ShowText { value } => 1 + seq_node_size(value),
        HoverV::ShowItem { .. } => 1,
        HoverV::ShowEntity { name, .. } => match name {
            Some(v) => 1 + seq_node_size(v),
            None => 1,
        },
    }
}

/// The size of an optional tooltip payload.
pub open spec fn opt_hover_size(h: Option<HoverV>) -> nat
    decreases h,
{
    match h {
        None => 0,
        Some(hh) => hover_size(hh),
    }
}

impl Clone for TextContent {
    fn clone(&self) -> (res: Self)
        ensures
            content_view(res) == content_view(*self),
        decreases *self,
    {
        match self {
            TextContent::Text { text } => TextContent::Text { text: text.clone() },
            TextContent::Translate { translate, with } => TextContent::Translate {
                translate: translate.clone(),
                with: crate::style::clone_bases(with),
            },
            TextContent::EntityNames { selector, separator } => TextContent::EntityNames {
                selector: selector.clone(),
                separator: match separator {
                    Some(s) => Some(s.clone()),
                    None => None,
                },
            },
            TextContent::Keybind { keybind } => TextContent::Keybind { keybind: keybind.clone() },
            TextContent::Custom { key, locale, with } => TextContent::Custom {
                key: key.clone(),
                locale: *locale,
                with: crate::style::clone_bases(with),
            },
        }
    }
}

impl Clone for TextComponentBase {
    fn clone(&self) -> (res: Self)
        ensures
            res@ == self@,
        decreases *self,
    {
        TextComponentBase {
            content: self.content.clone(),
            style: self.style.clone(),
            extra: crate::style::clone_bases(&self.extra),
        }
    }
}

/// A component tree handed to the encoders and renderers.
#[derive(Debug)]
pub struct TextComponent(pub TextComponentBase);

impl View for TextComponent {
    type V = NodeV;

    open spec fn view(&self) -> NodeV {
        node_view(self.0)
    }
}

impl Clone for TextComponent {
    fn clone(&self) -> (res: Self)
        ensures
            res@ == self@,
    {
        TextComponent(self.0.clone())
    }
}

/// The mathematical values of a list of components.
pub open spec fn comp_views(s: Seq<TextComponent>) -> Seq<NodeV>
    decreases s,
{
    if s.len() == 0 {
        Seq::empty()
    } else {
        seq![node_view(s[0].0)] + comp_views(s.drop_first())
    }
}

/// `comp_views` is the elementwise view.
pub proof fn lemma_comp_views(s: Seq<TextComponent>)
    ensures
        comp_views(s).len() == s.len(),
        forall|i: int| 0 <= i < s.len() ==> comp_views(s)[i] == node_view(s[i].0),
    decreases s.len(),
{
    if s.len() > 0 {
        lemma_comp_views(s.drop_first());
    }
}

/// The inner nodes of a list of components, as a fresh list.
fn bases_of(v: &Vec<TextComponent>) -> (r: Vec<TextComponentBase>)
    ensures
        nodes_view(r@) == comp_views(v@),
{
    let mut out: Vec<TextComponentBase> = Vec::new();
    let mut i: usize = 0;
    while i < v.len()
        invariant
            0 <= i <= v.len(),
            out@.len() == i,
            forall|j: int| 0 <= j < i ==> node_view(out@[j]) == node_view(v@[j].0),
        decreases v.len() - i,
    {
        let c = v[i].0.clone();
        out.push(c);
        i = i + 1;
    }
    proof {
        lemma_nodes_view(out@);
        lemma_comp_views(v@);
        assert(nodes_view(out@) =~= comp_views(v@));
    }
    out
}

impl TextComponent {
    /// A plain-text node with no style and no children.
    pub fn text(plain: &str) -> (r: Self)
        ensures
            r@ == (NodeV {
                content: ContentV::Text { text: plain@ },
                style: default_style_v(),
                extra: Seq::empty(),
            }),
    {
        let r = TextComponent(
            TextComponentBase {
                content: TextContent::Text { text: plain.to_owned() },
                style: Style::default(),
                extra: Vec::new(),
            },
        );
        proof {
            assert(r@ =~= (NodeV {
                content: ContentV::Text { text: plain@ },
                style: default_style_v(),
                extra: Seq::empty(),
            }));
        }
        r
    }

    /// A client-resolved translation node for `key` with arguments `with`.
    pub fn translate(key: &str, with: Vec<TextComponent>) -> (r: Self)
        ensures
            r@ == (NodeV {
                content: ContentV::Translate { translate: key@, with: comp_views(with@) },
                style: default_style_v(),
                extra: Seq::empty(),
            }),
    {
        let r = TextComponent(
            TextComponentBase {
                content: TextContent::Translate {
                    translate: key.to_owned(),
                    with: bases_of(&with),
                },
                style: Style::default(),
                extra: Vec::new(),
            },
        );
        proof {
            assert(r@ =~= (NodeV {
                content: ContentV::Translate { translate: key@, with: comp_views(with@) },
                style: default_style_v(),
                extra: Seq::empty(),
            }));
        }
        r
    }

    /// A locally-resolved translation node; the key is namespaced and
    /// lowercased as std's str::to_lowercase has it.
    pub fn custom(namespace: &str, key: &str, locale: Locale, with: Vec<TextComponent>) -> (r: Self)
        ensures
            r@ == (NodeV {
                content: ContentV::Custom {
                    key: lower_of(namespace@ + seq![':'] + key@),
                    locale,
                    with: comp_views(with@),
                },
                style: default_style_v(),
                extra: Seq::empty(),
            }),
    {
        let mut full = namespace.to_owned();
        push_char(&mut full, ':');
        full.append(key);
        proof {
            assert(full@ =~= namespace@ + seq![':'] + key@);
        }
        let lowered = crate::strutil::lowercase(full.as_str());
        let r = TextComponent(
            TextComponentBase {
                content: TextContent::Custom { key: lowered, locale, with: bases_of(&with) },
                style: Style::default(),
                extra: Vec::new(),
            },
        );
        proof {
            assert(r@ =~= (NodeV {
                content: ContentV::Custom {
                    key: lower_of(namespace@ + seq![':'] + key@),
                    locale,
                    with: comp_views(with@),
                },
                style: default_style_v(),
                extra: Seq::empty(),
            }));
        }
        r
    }

    /// Append a child node.
    pub fn add_child(self, child: TextComponent) -> (r: Self)
        ensures
            r@ == (NodeV { extra: self@.extra.push(child@), ..self@ }),
    {
        let ghost before = self.0.extra@;
        let mut inner = self.0;
        inner.extra.push(child.0);
        proof {
            lemma_nodes_view_push(before, child.0);
        }
        TextComponent(inner)
    }

    /// A node with the given content, no style and no children.
    pub fn from_content(content: TextContent) -> (r: Self)
        ensures
            r@ == (NodeV {
                content: content_view(content),
                style: default_style_v(),
                extra: Seq::empty(),
            }),
    {
        let r = TextComponent(
            TextComponentBase { content, style: Style::default(), extra: Vec::new() },
        );
        proof {
            assert(r@.extra =~= Seq::<NodeV>::empty());
        }
        r
    }

    /// Append a plain-text child node.
    pub fn add_text(self, text: &str) -> (r: Self)
        ensures
            r@ == (NodeV {
                extra: self@.extra.push(
                    NodeV {
                        content: ContentV::Text { text: text@ },
                        style: default_style_v(),
                        extra: Seq::empty(),
                    },
                ),
                ..self@
            }),
    {
        let child = TextComponentBase {
            content: TextContent::Text { text: text.to_owned() },
            style: Style::default(),
            extra: Vec::new(),
        };
        proof {
            assert(node_view(child).extra =~= Seq::<NodeV>::empty());
        }
        let ghost before = self.0.extra@;
        let mut inner = self.0;
        inner.extra.push(child);
        proof {
            lemma_nodes_view_push(before, child);
        }
        TextComponent(inner)
    }

    /// A plain-text chat line: `&` becomes the legacy formatting marker and
    /// the name and message placeholders are filled in.
    pub fn chat_decorated(template: String, player_name: String, content: String) -> (r: Self)
        ensures
            r@ == (NodeV {
                content: ContentV::Text {
                    text: replace_spec(
                        replace_spec(
                            replace_spec(template@, "&"@, "\u{a7}"@),
                            "{DISPLAYNAME}"@,
                            player_name@,
                        ),
                        "{MESSAGE}"@,
                        content@,
                    ),
                },
                style: default_style_v(),
                extra: Seq::empty(),
            }),
    {
        proof {
            reveal_strlit("&");
            reveal_strlit("{DISPLAYNAME}");
            reveal_strlit("{MESSAGE}");
        }
        let s1 = replace_all(template.as_str(), "&", "\u{a7}");
        let s2 = replace_all(s1.as_str(), "{DISPLAYNAME}", player_name.as_str());
        let s3 = replace_all(s2.as_str(), "{MESSAGE}", content.as_str());
        let r = TextComponent(
            TextComponentBase {
                content: TextContent::Text { text: s3 },
                style: Style::default(),
                extra: Vec::new(),
            },
        );
        proof {
            assert(r@.extra =~= Seq::<NodeV>::empty());
        }
        r
    }

    /// Set the color.
    pub fn color(self, color: Color) -> (r: Self)
        ensures
            r@ == (NodeV { style: StyleV { color: Some(color), ..self@.style }, ..self@ }),
    {
        let mut inner = self.0;
        inner.style.color = Some(color);
        TextComponent(inner)
    }

    /// Set a named color.
    pub fn color_named(self, color: NamedColor) -> (r: Self)
        ensures
            r@ == (NodeV {
                style: StyleV { color: Some(Color::Named(color)), ..self@.style },
                ..self@
            }),
    {
        let mut inner = self.0;
        inner.style.color = Some(Color::Named(color));
        TextComponent(inner)
    }

    /// Set an RGB color.
    pub fn color_rgb(self, color: RGBColor) -> (r: Self)
        ensures
            r@ == (NodeV {
                style: StyleV { color: Some(Color::Rgb(color)), ..self@.style },
                ..self@
            }),
    {
        let mut inner = self.0;
        inner.style.color = Some(Color::Rgb(color));
        TextComponent(inner)
    }

    /// Make the text bold.
    pub fn bold(self) -> (r: Self)
        ensures
            r@ == (NodeV { style: StyleV { bold: Some(true), ..self@.style }, ..self@ }),
    {
        let mut inner = self.0;
        inner.style.bold = Some(true);
        TextComponent(inner)
    }

    /// Make the text italic.
    pub fn italic(self) -> (r: Self)
        ensures
            r@ == (NodeV { style: StyleV { italic: Some(true), ..self@.style }, ..self@ }),
    {
        let mut inner = self.0;
        inner.style.italic = Some(true);
        TextComponent(inner)
    }

    /// Make the text underlined.
    pub fn underlined(self) -> (r: Self)
        ensures
            r@ == (NodeV { style: StyleV { underlined: Some(true), ..self@.style }, ..self@ }),
    {
        let mut inner = self.0;
        inner.style.underlined = Some(true);
        TextComponent(inner)
    }

    /// Strike the text through.
    pub fn strikethrough(self) -> (r: Self)
        ensures
            r@ == (NodeV {
                style: StyleV { strikethrough: Some(true), ..self@.style },
                ..self@
            }),
    {
        let mut inner = self.0;
        inner.style.strikethrough = Some(true);
        TextComponent(inner)
    }

    /// Obfuscate the text: the console renderer scrambles it.
    pub fn obfuscated(self) -> (r: Self)
        ensures
            r@ == (NodeV { style: StyleV { obfuscated: Some(true), ..self@.style }, ..self@ }),
    {
        let mut inner = self.0;
        inner.style.obfuscated = Some(true);
        TextComponent(inner)
    }

    /// Text inserted into the chat input when the node is shift-clicked.
    pub fn insertion(self, text: String) -> (r: Self)
        ensures
            r@ == (NodeV { style: StyleV { insertion: Some(text@), ..self@.style }, ..self@ }),
    {
        let mut inner = self.0;
        inner.style.insertion = Some(text);
        TextComponent(inner)
    }

    /// Attach a click action.
    pub fn click_event(self, event: ClickEvent) -> (r: Self)
        ensures
            r@ == (NodeV {
                style: StyleV { click_event: Some(event@), ..self@.style },
                ..self@
            }),
    {
        let mut inner = self.0;
        inner.style.click_event = Some(event);
        TextComponent(inner)
    }

    /// Attach a hover tooltip.
    pub fn hover_event(self, event: HoverEvent) -> (r: Self)
        ensures
            r@ == (NodeV {
                style: StyleV { hover_event: Some(event@), ..self@.style },
                ..self@
            }),
    {
        let mut inner = self.0;
        inner.style.hover_event = Some(event);
        TextComponent(inner)
    }

    /// Set the font resource location.
    pub fn font(self, resource_location: String) -> (r: Self)
        ensures
            r@ == (NodeV {
                style: StyleV { font: Some(resource_location@), ..self@.style },
                ..self@
            }),
    {
        let mut inner = self.0;
        inner.style.font = Some(resource_location);
        TextComponent(inner)
    }

    /// Override the text shadow color.
    pub fn shadow_color(self, color: ARGBColor) -> (r: Self)
        ensures
            r@ == (NodeV {
                style: StyleV { shadow_color: Some(color), ..self@.style },
                ..self@
            }),
    {
        let mut inner = self.0;
        inner.style.shadow_color = Some(color);
        TextComponent(inner)
    }
}

impl TextComponentBase {
    /// Whether the whole subtree is free of `Custom` content.
    pub fn is_custom_free(&self) -> (r: bool)
        ensures
            r == custom_free_v(self@),
        decreases *self,
    {
        let content_ok: bool = match &self.content {
            TextContent::Custom { .. } => false,
            TextContent::Translate { with, .. } => bases_custom_free(with),
            _ => true,
        };
        let hover_ok: bool = match &self.style.hover_event {
            Some(h) => hover_free(h),
            None => true,
        };
        let extra_ok = bases_custom_free(&self.extra);
        proof {
            assert(content_ok == content_custom_free(self@.content));
            assert(hover_ok == style_custom_free(self@.style));
        }
        content_ok && hover_ok && extra_ok
    }
}

/// Whether a tooltip payload is free of `Custom` content.
fn hover_free(h: &HoverEvent) -> (r: bool)
    ensures
        r == hover_custom_free(crate::style::hover_view(*h)),
    decreases *h,
{
    match h {
        HoverEvent::ShowText { value } => bases_custom_free(value),
        HoverEvent::ShowItem { .. } => true,
        HoverEvent::ShowEntity { name, .. } => match name {
            Some(v) => bases_custom_free(v),
            None => true,
        },
    }
}

/// Whether every node of a list is free of `Custom` content.
pub fn bases_custom_free(v: &Vec<TextComponentBase>) -> (r: bool)
    ensures
        r == custom_free_seq(nodes_view(v@)),
    decreases *v,
{
    proof {
        lemma_nodes_view(v@);
        lemma_custom_free_seq(nodes_view(v@));
    }
    let mut i: usize = 0;
    while i < v.len()
        invariant
            0 <= i <= v.len(),
            nodes_view(v@).len() == v@.len(),
            forall|j: int| 0 <= j < v@.len() ==> nodes_view(v@)[j] == node_view(v@[j]),
            custom_free_seq(nodes_view(v@)) <==> (forall|j: int|
                0 <= j < v@.len() ==> custom_free_v(nodes_view(v@)[j])),
            forall|j: int| 0 <= j < i ==> custom_free_v(nodes_view(v@)[j]),
        decreases v.len() - i,
    {
        if !v[i].is_custom_free() {
            proof {
                assert(!custom_free_v(nodes_view(v@)[i as int]));
            }
            return false;
        }
        i = i + 1;
    }
    true
}

} // verus!
