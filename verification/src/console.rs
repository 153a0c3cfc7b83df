//! The depth-first console renderer: cascaded styles, hover tooltips, and
//! newline-separated children.

use vstd::prelude::*;
use vstd::string::{StringExecFns, StrSliceExecFns};
use crate::catalog::{Catalog, Locale};
use crate::component::{
    hover_size, lemma_nodes_view, node_size, node_view, nodes_view, opt_hover_size, seq_node_size,
    NodeV, TextComponent, TextComponentBase,
};
use crate::flatten::flatten_spec;
use crate::render::{ansi_rel, click_target_spec, osc8_spec, osc8_wrap, wrap_click_event_osc8};
use crate::resolve::CatV;
use crate::strutil::{dec_spec, dec_u32, push_char};
use crate::style::{default_style_v, merge_spec, HoverEvent, HoverV, Style, StyleV};

verus! {

/// All the strings of a list, concatenated.
pub open spec fn concat_all(parts: Seq<Seq<char>>) -> Seq<char>
    decreases parts,
{
    if parts.len() == 0 {
        Seq::empty()
    } else {
        parts[0] + concat_all(parts.drop_first())
    }
}

/// The strings of a list, each but the first preceded by a newline.
pub open spec fn join_nl(parts: Seq<Seq<char>>) -> Seq<char>
    decreases parts,
{
    if parts.len() == 0 {
        Seq::empty()
    } else {
        parts[0] + join_tail(parts.drop_first())
    }
}

/// The strings of a list, each preceded by a newline.
pub open spec fn join_tail(parts: Seq<Seq<char>>) -> Seq<char>
    decreases parts,
{
    if parts.len() == 0 {
        Seq::empty()
    } else {
        seq!['\n'] + parts[0] + join_tail(parts.drop_first())
    }
}

/// Appending a string to the list appends it to the concatenation.
pub proof fn lemma_concat_push(parts: Seq<Seq<char>>, x: Seq<char>)
    ensures
        concat_all(parts.push(x)) == concat_all(parts) + x,
    decreases parts.len(),
{
    if parts.len() == 0 {
        assert(parts.push(x).drop_first() =~= Seq::<Seq<char>>::empty());
        assert(parts.push(x)[0] == x);
        assert(concat_all(parts.push(x).drop_first()) =~= Seq::<char>::empty());
        assert(concat_all(parts.push(x)) =~= concat_all(parts) + x);
    } else {
        lemma_concat_push(parts.drop_first(), x);
        assert(parts.push(x).drop_first() =~= parts.drop_first().push(x));
        assert(parts.push(x)[0] == parts[0]);
        assert(concat_all(parts.push(x).drop_first()) == concat_all(parts.drop_first()) + x);
        assert(concat_all(parts.push(x)) =~= concat_all(parts) + x);
    }
}

/// Appending a string appends a newline-prefixed piece.
pub proof fn lemma_join_tail_push(parts: Seq<Seq<char>>, x: Seq<char>)
    ensures
        join_tail(parts.push(x)) == join_tail(parts) + seq!['\n'] + x,
    decreases parts.len(),
{
    if parts.len() == 0 {
        assert(parts.push(x).drop_first() =~= Seq::<Seq<char>>::empty());
        assert(parts.push(x)[0] == x);
        assert(join_tail(parts.push(x).drop_first()) =~= Seq::<char>::empty());
        assert(join_tail(parts.push(x)) =~= join_tail(parts) + seq!['\n'] + x);
    } else {
        lemma_join_tail_push(parts.drop_first(), x);
        assert(parts.push(x).drop_first() =~= parts.drop_first().push(x));
        assert(parts.push(x)[0] == parts[0]);
        assert(join_tail(parts.push(x).drop_first()) == join_tail(parts.drop_first()) + seq!['\n']
            + x);
        assert(join_tail(parts.push(x)) =~= join_tail(parts) + seq!['\n'] + x);
    }
}

/// Appending a string appends it, after a newline unless it is the first.
pub proof fn lemma_join_push(parts: Seq<Seq<char>>, x: Seq<char>)
    ensures
        parts.len() == 0 ==> join_nl(parts.push(x)) == x,
        parts.len() > 0 ==> join_nl(parts.push(x)) == join_nl(parts) + seq!['\n'] + x,
{
    if parts.len() == 0 {
        assert(parts.push(x).drop_first() =~= Seq::<Seq<char>>::empty());
        assert(parts.push(x)[0] == x);
        assert(join_tail(parts.push(x).drop_first()) =~= Seq::<char>::empty());
        assert(join_nl(parts.push(x)) =~= x);
    } else {
        lemma_join_tail_push(parts.drop_first(), x);
        assert(parts.push(x).drop_first() =~= parts.drop_first().push(x));
        assert(parts.push(x)[0] == parts[0]);
        assert(join_tail(parts.push(x).drop_first()) == join_tail(parts.drop_first()) + seq!['\n']
            + x);
        assert(join_nl(parts.push(x)) =~= join_nl(parts) + seq!['\n'] + x);
    }
}

/// A trace of one node's rendering: the intermediate strings the renderer
/// went through, with the traces of tooltip nodes and children.
#[verifier::ext_equal]
pub struct TraceV {
    /// The node's own text after ANSI styling.
    pub styled: Seq<char>,
    /// The styled text after click and hover wrapping.
    pub hov: Seq<char>,
    /// The tooltip text (meaningful only when a hover action applies).
    pub tip: Seq<char>,
    /// The traces of the tooltip's nodes.
    pub tip_traces: Seq<TraceV>,
    /// The outputs of the tooltip's nodes.
    pub tip_outs: Seq<Seq<char>>,
    /// The traces of the children.
    pub kid_traces: Seq<TraceV>,
    /// The outputs of the children.
    pub kid_outs: Seq<Seq<char>>,
}

/// Whether `tr` witnesses that rendering `n` under effective parent style
/// `ps` appends `out`: ANSI styling of the node's own text, click and hover
/// wrapping, then each child in order, every child but the first preceded by
/// one newline.
pub open spec fn trace_ok(n: NodeV, ps: StyleV, cat: CatV, out: Seq<char>, tr: TraceV) -> bool
    decreases tr, 0int,
{
    let merged = merge_spec(ps, n.style);
    let own = flatten_spec(n, cat, Locale::EnUs);
    let clicked = match merged.click_event {
        Some(c) => osc8_spec(click_target_spec(c), tr.styled),
        None => tr.styled,
    };
    &&& ansi_rel(merged, own, tr.styled)
    &&& match merged.hover_event {
        None => tr.hov == clicked,
        Some(hh) => tooltip_ok(hh, cat, tr.tip, tr.tip_traces, tr.tip_outs) && tr.hov == osc8_spec(
            "tooltip:"@ + tr.tip,
            clicked,
        ),
    }
    &&& seq_trace_ok(n.extra, merged, cat, tr.kid_outs, tr.kid_traces)
    &&& out == tr.hov + join_nl(tr.kid_outs)
}

/// Whether `trs` witnesses that rendering the nodes of `s`, each under the
/// same effective parent style, gives the outputs `outs`, one per node.
pub open spec fn seq_trace_ok(
    s: Seq<NodeV>,
    ps: StyleV,
    cat: CatV,
    outs: Seq<Seq<char>>,
    trs: Seq<TraceV>,
) -> bool
    decreases trs, 0int,
{
    if trs.len() == 0 {
        s.len() == 0 && outs.len() == 0
    } else {
        &&& s.len() == trs.len()
        &&& outs.len() == trs.len()
        &&& trace_ok(s[0], ps, cat, outs[0], trs[0])
        &&& seq_trace_ok(s.drop_first(), ps, cat, outs.drop_first(), trs.drop_first())
    }
}

/// Whether `trs` and `outs` witness the tooltip text `tip` of hover action
/// `h`: concatenated renderings for text and entity tooltips, a fixed line
/// for item tooltips.
pub open spec fn tooltip_ok(
    h: HoverV,
    cat: CatV,
    tip: Seq<char>,
    trs: Seq<TraceV>,
    outs: Seq<Seq<char>>,
) -> bool
    decreases trs, 1int,
{
    match h {
        HoverV::ShowText { value } => {
            &&& seq_trace_ok(value, default_style_v(), cat, outs, trs)
            &&& tip == concat_all(outs)
        },
        HoverV::ShowItem { id, count } => tip == "Item: "@ + id + " x"@ + (match count {
            Some(c) => dec_spec(c as nat),
            None => "?"@,
        }),
        HoverV::ShowEntity { id, name, .. } => match name {
            Some(v) => {
                &&& seq_trace_ok(v, default_style_v(), cat, outs, trs)
                &&& tip == "Entity: "@ + id + " "@ + concat_all(outs)
            },
            None => tip == "Entity: "@ + id + " "@,
        },
    }
}

/// How a rendered node relates to its output: some trace witnesses it.
pub open spec fn rendered_rel(n: NodeV, ps: StyleV, cat: CatV, out: Seq<char>) -> bool {
    exists|tr: TraceV| trace_ok(n, ps, cat, out, tr)
}

/// How hover wrapping relates its input to its output: some tooltip text,
/// witnessed by traces, forms the hyperlink target.
pub open spec fn hover_wrapped(h: HoverV, base: Seq<char>, cat: CatV, out: Seq<char>) -> bool {
    exists|tip: Seq<char>, trs: Seq<TraceV>, outs: Seq<Seq<char>>|
        tooltip_ok(h, cat, tip, trs, outs) && out == osc8_spec("tooltip:"@ + tip, base)
}

/// A node's size is at most its list's total size.
pub proof fn lemma_seq_node_size_elem(s: Seq<NodeV>, i: int)
    requires
        0 <= i < s.len(),
    ensures
        node_size(s[i]) <= seq_node_size(s),
    decreases s.len(),
{
    if i > 0 {
        lemma_seq_node_size_elem(s.drop_first(), i - 1);
        assert(s.drop_first()[i - 1] == s[i]);
    }
}

/// Pointwise traces of a list give the list relation.
pub proof fn lemma_seq_trace_intro(
    s: Seq<NodeV>,
    ps: StyleV,
    cat: CatV,
    outs: Seq<Seq<char>>,
    trs: Seq<TraceV>,
)
    requires
        outs.len() == s.len(),
        trs.len() == s.len(),
        forall|i: int| 0 <= i < s.len() ==> trace_ok(s[i], ps, cat, outs[i], trs[i]),
    ensures
        seq_trace_ok(s, ps, cat, outs, trs),
    decreases s.len(),
{
    if s.len() > 0 {
        assert forall|i: int| 0 <= i < s.drop_first().len() implies trace_ok(
            s.drop_first()[i],
            ps,
            cat,
            outs.drop_first()[i],
            trs.drop_first()[i],
        ) by {
            assert(s.drop_first()[i] == s[i + 1]);
            assert(outs.drop_first()[i] == outs[i + 1]);
            assert(trs.drop_first()[i] == trs[i + 1]);
        }
        lemma_seq_trace_intro(s.drop_first(), ps, cat, outs.drop_first(), trs.drop_first());
    }
}

/// An empty trace, used where no hover tooltip applies.
pub open spec fn empty_trace() -> TraceV {
    TraceV {
        styled: Seq::empty(),
        hov: Seq::empty(),
        tip: Seq::empty(),
        tip_traces: Seq::empty(),
        tip_outs: Seq::empty(),
        kid_traces: Seq::empty(),
        kid_outs: Seq::empty(),
    }
}

/// Wrap `visible_text` in a hyperlink whose target carries the rendered
/// tooltip of the hover action.
pub fn wrap_hover_event_osc8(hover: &HoverEvent, visible_text: &str, cat: &Catalog) -> (r: String)
    ensures
        hover_wrapped(hover@, visible_text@, cat@, r@),
    decreases hover_size(hover@), 1int,
{
    let ghost mut gtrs: Seq<TraceV> = Seq::empty();
    let ghost mut gouts: Seq<Seq<char>> = Seq::empty();
    let tip: String = match hover {
        HoverEvent::ShowText { value } => {
            let (t, gw) = render_all(value, cat);
            proof {
                gtrs = gw@.0;
                gouts = gw@.1;
            }
            t
        },
        HoverEvent::ShowItem { id, count } => {
            let mut t = "Item: ".to_owned();
            t.append(id.as_str());
            t.append(" x");
            match count {
                Some(c) => {
                    let d = dec_u32(*c);
                    t.append(d.as_str());
                },
                None => {
                    t.append("?");
                },
            }
            t
        },
        HoverEvent::ShowEntity { id, name, .. } => {
            let mut t = "Entity: ".to_owned();
            t.append(id.as_str());
            t.append(" ");
            match name {
                Some(v) => {
                    let (rendered, gw) = render_all(v, cat);
                    t.append(rendered.as_str());
                    proof {
                        gtrs = gw@.0;
                        gouts = gw@.1;
                    }
                },
                None => {},
            }
            t
        },
    };
    proof {
        assert(tooltip_ok(hover@, cat@, tip@, gtrs, gouts));
    }
    let mut target = "tooltip:".to_owned();
    target.append(tip.as_str());
    let r = osc8_wrap(target.as_str(), visible_text);
    r
}

/// Render every node of a list with the default parent style and no
/// separators, as tooltips are rendered; the ghost result carries the
/// traces and the output of each node.
fn render_all(v: &Vec<TextComponentBase>, cat: &Catalog) -> (res: (
    String,
    Ghost<(Seq<TraceV>, Seq<Seq<char>>)>,
))
    ensures
        seq_trace_ok(nodes_view(v@), default_style_v(), cat@, res.1@.1, res.1@.0),
        res.0@ == concat_all(res.1@.1),
    decreases seq_node_size(nodes_view(v@)), 3int,
{
    let mut out = String::new();
    let ghost mut trs: Seq<TraceV> = Seq::empty();
    let ghost mut parts: Seq<Seq<char>> = Seq::empty();
    let mut i: usize = 0;
    proof {
        lemma_nodes_view(v@);
    }
    while i < v.len()
        invariant
            0 <= i <= v.len(),
            nodes_view(v@).len() == v@.len(),
            forall|j: int| 0 <= j < v@.len() ==> nodes_view(v@)[j] == node_view(v@[j]),
            parts.len() == i,
            trs.len() == i,
            forall|j: int| 0 <= j < i ==> trace_ok(
                nodes_view(v@)[j],
                default_style_v(),
                cat@,
                parts[j],
                trs[j],
            ),
            out@ == concat_all(parts),
        decreases v.len() - i,
    {
        proof {
            lemma_seq_node_size_elem(nodes_view(v@), i as int);
        }
        let (piece, gtr) = v[i].render_one(cat);
        out.append(piece.as_str());
        proof {
            lemma_concat_push(parts, piece@);
            parts = parts.push(piece@);
            trs = trs.push(gtr@);
        }
        i = i + 1;
    }
    proof {
        lemma_seq_trace_intro(nodes_view(v@), default_style_v(), cat@, parts, trs);
    }
    (out, Ghost((trs, parts)))
}

impl TextComponentBase {
    /// Render the whole tree as ANSI and OSC-8 console output.
    pub fn to_pretty_console(&self, cat: &Catalog) -> (r: String)
        ensures
            rendered_rel(self@, default_style_v(), cat@, r@),
        decreases node_size(self@), 4int,
    {
        let (r, _) = self.render_one(cat);
        r
    }

    /// Render the whole tree, returning the trace that witnesses the output.
    fn render_one(&self, cat: &Catalog) -> (res: (String, Ghost<TraceV>))
        ensures
            trace_ok(self@, default_style_v(), cat@, res.0@, res.1@),
            rendered_rel(self@, default_style_v(), cat@, res.0@),
        decreases node_size(self@), 2int,
    {
        let mut out = String::new();
        let gtr = Self::render_component(self, &mut out, &Style::default(), cat);
        proof {
            assert(out@.skip(0) =~= out@);
        }
        (out, gtr)
    }

    /// Render one node and its children into `out`, cascading styles: the
    /// returned trace witnesses what the call appends.
    fn render_component(
        component: &TextComponentBase,
        out: &mut String,
        parent_style: &Style,
        cat: &Catalog,
    ) -> (gtr: Ghost<TraceV>)
        ensures
            final(out)@ == old(out)@ + final(out)@.skip(old(out)@.len() as int),
            trace_ok(
                component@,
                parent_style@,
                cat@,
                final(out)@.skip(old(out)@.len() as int),
                gtr@,
            ),
        decreases node_size(component@) + opt_hover_size(parent_style@.hover_event), 0int,
    {
        let ghost base = out@;
        let merged = parent_style.merge(&component.style);
        let own = component.get_text(cat, Locale::EnUs);
        let styled = merged.apply_ansi(own.as_str());
        let ghost styledv = styled@;
        let mut rendered = styled;
        if let Some(click) = &merged.click_event {
            rendered = wrap_click_event_osc8(click, rendered.as_str());
        }
        let ghost clickedv = rendered@;
        let ghost mut tipv: Seq<char> = Seq::empty();
        let ghost mut tip_trs: Seq<TraceV> = Seq::empty();
        let ghost mut tip_outs: Seq<Seq<char>> = Seq::empty();
        if let Some(hover) = &merged.hover_event {
            proof {
                assert(hover_size(hover@) < node_size(component@) + opt_hover_size(
                    parent_style@.hover_event,
                ));
            }
            rendered = wrap_hover_event_osc8(hover, rendered.as_str(), cat);
            proof {
                let (tip, trs, outs): (Seq<char>, Seq<TraceV>, Seq<Seq<char>>) = choose|
                    tip: Seq<char>,
                    trs: Seq<TraceV>,
                    outs: Seq<Seq<char>>,
                |
                    tooltip_ok(hover@, cat@, tip, trs, outs) && rendered@ == osc8_spec(
                        "tooltip:"@ + tip,
                        clickedv,
                    );
                tipv = tip;
                tip_trs = trs;
                tip_outs = outs;
            }
        }
        let ghost hovv = rendered@;
        out.append(rendered.as_str());
        let ghost mut kid_trs: Seq<TraceV> = Seq::empty();
        let ghost mut parts: Seq<Seq<char>> = Seq::empty();
        let mut i: usize = 0;
        proof {
            lemma_nodes_view(component.extra@);
            assert(out@ =~= base + hovv + join_nl(parts));
        }
        while i < component.extra.len()
            invariant
                0 <= i <= component.extra@.len(),
                component@.extra.len() == component.extra@.len(),
                forall|j: int| 0 <= j < component.extra@.len() ==> component@.extra[j] == node_view(
                    component.extra@[j],
                ),
                merged@ == merge_spec(parent_style@, component@.style),
                parts.len() == i,
                kid_trs.len() == i,
                forall|j: int| 0 <= j < i ==> trace_ok(
                    component@.extra[j],
                    merged@,
                    cat@,
                    parts[j],
                    kid_trs[j],
                ),
                out@ == base + hovv + join_nl(parts),
            decreases component.extra@.len() - i,
        {
            if i > 0 {
                push_char(out, '\n');
            }
            let ghost pre = out@;
            proof {
                lemma_seq_node_size_elem(component@.extra, i as int);
                assert(node_size(component@) == 1 + seq_node_size(component@.extra)
                    + opt_hover_size(component@.style.hover_event));
                assert(node_size(component@.extra[i as int]) + opt_hover_size(merged@.hover_event)
                    < node_size(component@) + opt_hover_size(parent_style@.hover_event));
            }
            let gk = Self::render_component(&component.extra[i], out, &merged, cat);
            let ghost app = out@.skip(pre.len() as int);
            proof {
                lemma_join_push(parts, app);
                parts = parts.push(app);
                kid_trs = kid_trs.push(gk@);
                assert(out@ =~= base + hovv + join_nl(parts));
            }
            i = i + 1;
        }
        let ghost tr = TraceV {
            styled: styledv,
            hov: hovv,
            tip: tipv,
            tip_traces: tip_trs,
            tip_outs: tip_outs,
            kid_traces: kid_trs,
            kid_outs: parts,
        };
        proof {
            lemma_seq_trace_intro(component@.extra, merged@, cat@, parts, kid_trs);
            let app_all = out@.skip(base.len() as int);
            assert(app_all =~= hovv + join_nl(parts));
            assert(out@ =~= base + app_all);
            assert(trace_ok(component@, parent_style@, cat@, app_all, tr));
        }
        Ghost(tr)
    }
}

impl TextComponent {
    /// Render the whole tree as ANSI and OSC-8 console output.
    pub fn to_pretty_console(self, cat: &Catalog) -> (r: String)
        ensures
            rendered_rel(self@, default_style_v(), cat@, r@),
    {
        self.0.to_pretty_console(cat)
    }
}

} // verus!
