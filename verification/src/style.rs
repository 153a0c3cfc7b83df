//! Style attributes of a text node and their parent-to-child cascade.

use vstd::prelude::*;
use crate::color::{ARGBColor, Color};
use crate::component::{nodes_view, NodeV, TextComponentBase};
use crate::inherit;
use crate::strutil::clone_opt_str;

verus! {

/// What happens when styled text is clicked.
#[derive(Debug)]
pub enum ClickEvent {
    OpenUrl { url: String },
    OpenFile { path: String },
    RunCommand { command: String },
    SuggestCommand { command: String },
    ChangePage { page: String },
    CopyToClipboard { value: String },
}

/// The mathematical value of a `ClickEvent`.
#[verifier::ext_equal]
pub enum ClickV {
    OpenUrl { url: Seq<char> },
    OpenFile { path: Seq<char> },
    RunCommand { command: Seq<char> },
    SuggestCommand { command: Seq<char> },
    ChangePage { page: Seq<char> },
    CopyToClipboard { value: Seq<char> },
}

impl View for ClickEvent {
    type V = ClickV;

    open spec fn view(&self) -> ClickV {
        match self {
            ClickEvent::OpenUrl { url } => ClickV::OpenUrl { url: url@ },
            ClickEvent::OpenFile { path } => ClickV::OpenFile { path: path@ },
            ClickEvent::RunCommand { command } => ClickV::RunCommand { command: command@ },
            ClickEvent::SuggestCommand { command } => ClickV::SuggestCommand {
                command: command@,
            },
            ClickEvent::ChangePage { page } => ClickV::ChangePage { page: page@ },
            ClickEvent::CopyToClipboard { value } => ClickV::CopyToClipboard { value: value@ },
        }
    }
}

impl Clone for ClickEvent {
    fn clone(&self) -> (res: Self)
        ensures
            res@ == self@,
    {
        match self {
            ClickEvent::OpenUrl { url } => ClickEvent::OpenUrl { url: url.clone() },
            ClickEvent::OpenFile { path } => ClickEvent::OpenFile { path: path.clone() },
            ClickEvent::RunCommand { command } => ClickEvent::RunCommand {
                command: command.clone(),
            },
            ClickEvent::SuggestCommand { command } => ClickEvent::SuggestCommand {
                command: command.clone(),
            },
            ClickEvent::ChangePage { page } => ClickEvent::ChangePage { page: page.clone() },
            ClickEvent::CopyToClipboard { value } => ClickEvent::CopyToClipboard {
                value: value.clone(),
            },
        }
    }
}

/// A tooltip shown when styled text is hovered.
#[derive(Debug)]
pub enum HoverEvent {
    ShowText { value: Vec<TextComponentBase> },
    ShowItem { id: String, count: Option<u32> },
    ShowEntity { id: String, name: Option<Vec<TextComponentBase>>, uuid: Option<String> },
}

/// The mathematical value of a `HoverEvent`.
#[verifier::ext_equal]
pub enum HoverV {
    ShowText { value: Seq<NodeV> },
    ShowItem { id: Seq<char>, count: Option<u32> },
    ShowEntity { id: Seq<char>, name: Option<Seq<NodeV>>, uuid: Option<Seq<char>> },
}

/// The mathematical value of a `HoverEvent`.
pub open spec fn hover_view(h: HoverEvent) -> HoverV
    decreases h,
{
    match h {
        HoverEvent::ShowText { value } => HoverV::ShowText { value: nodes_view(value@) },
        HoverEvent::ShowItem { id, count } => HoverV::ShowItem { id: id@, count },
        HoverEvent::ShowEntity { id, name, uuid } => HoverV::ShowEntity {
            id: id@,
            name: match name {
                Some(v) => Some(nodes_view(v@)),
                None => None,
            },
            uuid: match uuid {
                Some(u) => Some(u@),
                None => None,
            },
        },
    }
}

impl View for HoverEvent {
    type V = HoverV;

    open spec fn view(&self) -> HoverV {
        hover_view(*self)
    }
}

/// The style attributes of a node; an unset field inherits from the nearest
/// ancestor that sets it, or stays unset at the root.
#[derive(Debug)]
pub struct Style {
    pub color: Option<Color>,
    pub bold: Option<bool>,
    pub italic: Option<bool>,
    pub underlined: Option<bool>,
    pub strikethrough: Option<bool>,
    pub obfuscated: Option<bool>,
    pub insertion: Option<String>,
    pub click_event: Option<ClickEvent>,
    pub hover_event: Option<HoverEvent>,
    pub font: Option<String>,
    pub shadow_color: Option<ARGBColor>,
}

/// The mathematical value of a `Style`.
#[verifier::ext_equal]
pub struct StyleV {
    pub color: Option<Color>,
    pub bold: Option<bool>,
    pub italic: Option<bool>,
    pub underlined: Option<bool>,
    pub strikethrough: Option<bool>,
    pub obfuscated: Option<bool>,
    pub insertion: Option<Seq<char>>,
    pub click_event: Option<ClickV>,
    pub hover_event: Option<HoverV>,
    pub font: Option<Seq<char>>,
    pub shadow_color: Option<ARGBColor>,
}

/// The mathematical value of a `Style`.
pub open spec fn style_view(st: Style) -> StyleV
    decreases st,
{
    StyleV {
        color: st.color,
        bold: st.bold,
        italic: st.italic,
        underlined: st.underlined,
        strikethrough: st.strikethrough,
        obfuscated: st.obfuscated,
        insertion: match st.insertion {
            Some(s) => Some(s@),
            None => None,
        },
        click_event: match st.click_event {
            Some(c) => Some(c@),
            None => None,
        },
        hover_event: match st.hover_event {
            Some(h) => Some(hover_view(h)),
            None => None,
        },
        font: match st.font {
            Some(f) => Some(f@),
            None => None,
        },
        shadow_color: st.shadow_color,
    }
}

impl View for Style {
    type V = StyleV;

    open spec fn view(&self) -> StyleV {
        style_view(*self)
    }
}

/// The style with every field unset.
pub open spec fn default_style_v() -> StyleV {
    StyleV {
        color: None,
        bold: None,
        italic: None,
        underlined: None,
        strikethrough: None,
        obfuscated: None,
        insertion: None,
        click_event: None,
        hover_event: None,
        font: None,
        shadow_color: None,
    }
}

impl Default for Style {
    /// The style with every field unset.
    fn default() -> (r: Style)
        ensures
            r@ == default_style_v(),
    {
        Style {
            color: None,
            bold: None,
            italic: None,
            underlined: None,
            strikethrough: None,
            obfuscated: None,
            insertion: None,
            click_event: None,
            hover_event: None,
            font: None,
            shadow_color: None,
        }
    }
}

/// The cascade of one inheritance step: each field of the child that is set
/// wins; each that is unset is taken from the parent.
pub open spec fn merge_spec(parent: StyleV, child: StyleV) -> StyleV {
    StyleV {
        color: inherit(child.color, parent.color),
        bold: inherit(child.bold, parent.bold),
        italic: inherit(child.italic, parent.italic),
        underlined: inherit(child.underlined, parent.underlined),
        strikethrough: inherit(child.strikethrough, parent.strikethrough),
        obfuscated: inherit(child.obfuscated, parent.obfuscated),
        insertion: inherit(child.insertion, parent.insertion),
        click_event: inherit(child.click_event, parent.click_event),
        hover_event: inherit(child.hover_event, parent.hover_event),
        font: inherit(child.font, parent.font),
        shadow_color: inherit(child.shadow_color, parent.shadow_color),
    }
}

impl Clone for HoverEvent {
    fn clone(&self) -> (res: Self)
        ensures
            res@ == self@,
        decreases *self,
    {
        match self {
            HoverEvent::ShowText { value } => {
                let v = clone_bases(value);
                proof {
                    assert(hover_view(HoverEvent::ShowText { value: v }) =~= self@);
                }
                HoverEvent::ShowText { value: v }
            },
            HoverEvent::ShowItem { id, count } => HoverEvent::ShowItem {
                id: id.clone(),
                count: *count,
            },
            HoverEvent::ShowEntity { id, name, uuid } => {
                let n = match name {
                    Some(v) => Some(clone_bases(v)),
                    None => None,
                };
                let r = HoverEvent::ShowEntity {
                    id: id.clone(),
                    name: n,
                    uuid: clone_opt_str(uuid),
                };
                proof {
                    assert(hover_view(r) =~= self@);
                }
                r
            },
        }
    }
}

/// A deep copy of a node list whose views are unchanged.
pub fn clone_bases(v: &Vec<TextComponentBase>) -> (r: Vec<TextComponentBase>)
    ensures
        nodes_view(r@) == nodes_view(v@),
    decreases *v,
{
    let mut out: Vec<TextComponentBase> = Vec::new();
    let mut i: usize = 0;
    while i < v.len()
        invariant
            0 <= i <= v.len(),
            out@.len() == i,
            forall|j: int| 0 <= j < i ==> crate::component::node_view(out@[j])
                == crate::component::node_view(v@[j]),
        decreases v.len() - i,
    {
        let c = v[i].clone();
        out.push(c);
        i = i + 1;
    }
    proof {
        crate::component::lemma_nodes_view(out@);
        crate::component::lemma_nodes_view(v@);
        assert(nodes_view(out@) =~= nodes_view(v@));
    }
    out
}

impl Clone for Style {
    fn clone(&self) -> (res: Self)
        ensures
            res@ == self@,
        decreases *self,
    {
        let r = Style {
            color: self.color,
            bold: self.bold,
            italic: self.italic,
            underlined: self.underlined,
            strikethrough: self.strikethrough,
            obfuscated: self.obfuscated,
            insertion: clone_opt_str(&self.insertion),
            click_event: match &self.click_event {
                Some(c) => Some(c.clone()),
                None => None,
            },
            hover_event: match &self.hover_event {
                Some(h) => Some(h.clone()),
                None => None,
            },
            font: clone_opt_str(&self.font),
            shadow_color: self.shadow_color,
        };
        proof {
            assert(r@ =~= self@);
        }
        r
    }
}

impl Style {
    /// One cascade step: fields set on `child` win over `self`.
    pub fn merge(&self, child: &Style) -> (r: Style)
        ensures
            r@ == merge_spec(self@, child@),
    {
        let r = Style {
            color: if child.color.is_some() {
                child.color
            } else {
                self.color
            },
            bold: if child.bold.is_some() {
                child.bold
            } else {
                self.bold
            },
            italic: if child.italic.is_some() {
                child.italic
            } else {
                self.italic
            },
            underlined: if child.underlined.is_some() {
                child.underlined
            } else {
                self.underlined
            },
            strikethrough: if child.strikethrough.is_some() {
                child.strikethrough
            } else {
                self.strikethrough
            },
            obfuscated: if child.obfuscated.is_some() {
                child.obfuscated
            } else {
                self.obfuscated
            },
            insertion: if child.insertion.is_some() {
                clone_opt_str(&child.insertion)
            } else {
                clone_opt_str(&self.insertion)
            },
            click_event: match (&child.click_event, &self.click_event) {
                (Some(c), _) => Some(c.clone()),
                (None, Some(c)) => Some(c.clone()),
                (None, None) => None,
            },
            hover_event: match (&child.hover_event, &self.hover_event) {
                (Some(h), _) => Some(h.clone()),
                (None, Some(h)) => Some(h.clone()),
                (None, None) => None,
            },
            font: if child.font.is_some() {
                clone_opt_str(&child.font)
            } else {
                clone_opt_str(&self.font)
            },
            shadow_color: if child.shadow_color.is_some() {
                child.shadow_color
            } else {
                self.shadow_color
            },
        };
        proof {
            assert(r@ =~= merge_spec(self@, child@));
        }
        r
    }
}

/// Merging with the all-unset style on either side changes nothing.
pub proof fn lemma_merge_default(x: StyleV)
    ensures
        merge_spec(default_style_v(), x) == x,
        merge_spec(x, default_style_v()) == x,
{
    assert(merge_spec(default_style_v(), x) =~= x);
    assert(merge_spec(x, default_style_v()) =~= x);
}

/// The cascade is associative along an inheritance chain.
pub proof fn lemma_merge_assoc(a: StyleV, b: StyleV, c: StyleV)
    ensures
        merge_spec(merge_spec(a, b), c) == merge_spec(a, merge_spec(b, c)),
{
    assert(merge_spec(merge_spec(a, b), c) =~= merge_spec(a, merge_spec(b, c)));
}

/// Along a grandparent-parent-child chain the nearest node that sets a field
/// decides its effective value; shown here for the `bold` field.
pub proof fn lemma_nearest_wins(grandparent: StyleV, parent: StyleV, child: StyleV)
    ensures
        child.bold is Some ==> merge_spec(merge_spec(grandparent, parent), child).bold
            == child.bold,
        child.bold is None && parent.bold is Some ==> merge_spec(
            merge_spec(grandparent, parent),
            child,
        ).bold == parent.bold,
        child.bold is None && parent.bold is None ==> merge_spec(
            merge_spec(grandparent, parent),
            child,
        ).bold == grandparent.bold,
{
}

} // verus!
