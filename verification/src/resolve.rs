//! Tree resolution: expanding every locally-resolved (`Custom`) translation
//! node of a tree, tooltips included, into plain nodes.

use vstd::prelude::*;
use vstd::string::{StringExecFns, StrSliceExecFns};
use crate::catalog::{lookup_spec, Catalog, Locale};
use crate::component::{
    custom_free_seq, custom_free_v, content_custom_free, hover_custom_free, lemma_custom_free_seq,
    lemma_nodes_view, lemma_nodes_view_push, node_view, nodes_view, ContentV, NodeV, TextComponent,
    TextComponentBase, TextContent,
};
use crate::strutil::clone_opt_str;
use crate::style::{default_style_v, HoverEvent, HoverV, Style, StyleV};
use crate::template::{scan_spec, scan_template, toks_view, toks_wf, lemma_scan_wf, TokV};

verus! {

/// The catalog's mathematical value.
pub type CatV = Seq<(Seq<char>, Locale, Seq<char>)>;

/// A plain-text node with no style and no children.
pub open spec fn plain_node(t: Seq<char>) -> NodeV {
    NodeV { content: ContentV::Text { text: t }, style: default_style_v(), extra: Seq::empty() }
}

/// The node an occurrence is replaced by: the argument it names, or an empty
/// text node when the index is out of range.
pub open spec fn arg_node(args: Seq<NodeV>, a: int) -> NodeV {
    if 0 <= a < args.len() {
        args[a]
    } else {
        plain_node(Seq::empty())
    }
}

/// The literal text between occurrence `k` and the next occurrence (or the
/// template's end).
pub open spec fn lit_after(tmpl: Seq<char>, toks: Seq<TokV>, k: int) -> Seq<char> {
    tmpl.subrange(
        toks[k].end,
        if k + 1 < toks.len() {
            toks[k + 1].start
        } else {
            tmpl.len() as int
        },
    )
}

/// The children an expansion produces from occurrence `k` on: each
/// occurrence's argument node, then the literal between it and the next
/// occurrence when that literal is not empty.
pub open spec fn expand_children(tmpl: Seq<char>, toks: Seq<TokV>, args: Seq<NodeV>, k: int) -> Seq<
    NodeV,
>
    decreases toks.len() - k,
    when 0 <= k
{
    if k >= toks.len() {
        Seq::empty()
    } else {
        seq![arg_node(args, toks[k].arg)] + (if lit_after(tmpl, toks, k).len() > 0 {
            seq![plain_node(lit_after(tmpl, toks, k))]
        } else {
            Seq::<NodeV>::empty()
        }) + expand_children(tmpl, toks, args, k + 1)
    }
}

/// The resolved node's own text: the literal before the first occurrence, or
/// the whole template when there is none.
pub open spec fn head_text(tmpl: Seq<char>, toks: Seq<TokV>) -> Seq<char> {
    if toks.len() == 0 {
        tmpl
    } else {
        tmpl.take(toks[0].start)
    }
}

/// Resolution of one node: a `Custom` node is expanded through its template,
/// every other node keeps its content; children, translation arguments and
/// tooltip payloads are resolved throughout.
pub open spec fn resolve_spec(n: NodeV, cat: CatV) -> NodeV
    decreases n,
{
    match n.content {
        ContentV::Custom { key, locale, with } => {
            let tmpl = lookup_spec(cat, key, locale);
            let toks = scan_spec(tmpl, 0, 0);
            NodeV {
                content: ContentV::Text { text: head_text(tmpl, toks) },
                style: resolve_style(n.style, cat),
                extra: expand_children(tmpl, toks, resolve_seq(with, cat), 0) + resolve_seq(
                    n.extra,
                    cat,
                ),
            }
        },
        _ => NodeV {
            content: resolve_content(n.content, cat),
            style: resolve_style(n.style, cat),
            extra: resolve_seq(n.extra, cat),
        },
    }
}

/// Elementwise resolution of a node list.
pub open spec fn resolve_seq(s: Seq<NodeV>, cat: CatV) -> Seq<NodeV>
    decreases s,
{
    if s.len() == 0 {
        Seq::empty()
    } else {
        seq![resolve_spec(s[0], cat)] + resolve_seq(s.drop_first(), cat)
    }
}

/// Resolution of a non-`Custom` content variant: translation arguments are
/// resolved, everything else is kept.
pub open spec fn resolve_content(c: ContentV, cat: CatV) -> ContentV
    decreases c,
{
    match c {
        ContentV::Translate { translate, with } => ContentV::Translate {
            translate,
            with: resolve_seq(with, cat),
        },
        _ => c,
    }
}

/// Resolution of a style: only tooltip payloads hold nodes.
pub open spec fn resolve_style(st: StyleV, cat: CatV) -> StyleV
    decreases st,
{
    StyleV {
        hover_event: match st.hover_event {
            None => None,
            Some(h) => Some(resolve_hover(h, cat)),
        },
        ..st
    }
}

/// Resolution of a tooltip payload.
pub open spec fn resolve_hover(h: HoverV, cat: CatV) -> HoverV
    decreases h,
{
    match h {
        HoverV::ShowText { value } => HoverV::ShowText { value: resolve_seq(value, cat) },
        HoverV::ShowItem { .. } => h,
        HoverV::ShowEntity { id, name, uuid } => HoverV::ShowEntity {
            id,
            name: match name {
                Some(v) => Some(resolve_seq(v, cat)),
                None => None,
            },
            uuid,
        },
    }
}

/// `resolve_seq` is the elementwise `resolve_spec`.
pub proof fn lemma_resolve_seq(s: Seq<NodeV>, cat: CatV)
    ensures
        resolve_seq(s, cat).len() == s.len(),
        forall|i: int| 0 <= i < s.len() ==> resolve_seq(s, cat)[i] == resolve_spec(s[i], cat),
    decreases s.len(),
{
    if s.len() > 0 {
        lemma_resolve_seq(s.drop_first(), cat);
    }
}

/// An empty text node used for out-of-range argument references.
fn empty_plain() -> (r: TextComponentBase)
    ensures
        r@ == plain_node(Seq::<char>::empty()),
{
    let r = TextComponentBase {
        content: TextContent::Text { text: String::new() },
        style: Style::default(),
        extra: Vec::new(),
    };
    proof {
        assert(r@ =~= plain_node(Seq::<char>::empty()));
    }
    r
}

/// Resolve every node of a list.
fn resolve_bases(v: &Vec<TextComponentBase>, cat: &Catalog) -> (r: Vec<TextComponentBase>)
    ensures
        nodes_view(r@) == resolve_seq(nodes_view(v@), cat@),
    decreases *v,
{
    let mut out: Vec<TextComponentBase> = Vec::new();
    let mut i: usize = 0;
    while i < v.len()
        invariant
            0 <= i <= v.len(),
            out@.len() == i,
            forall|j: int| 0 <= j < i ==> node_view(out@[j]) == resolve_spec(
                node_view(v@[j]),
                cat@,
            ),
        decreases v.len() - i,
    {
        let x = v[i].to_translated(cat);
        out.push(x);
        i = i + 1;
    }
    proof {
        lemma_nodes_view(out@);
        lemma_nodes_view(v@);
        lemma_resolve_seq(nodes_view(v@), cat@);
        assert(nodes_view(out@) =~= resolve_seq(nodes_view(v@), cat@));
    }
    out
}

/// Resolve a tooltip payload.
fn resolve_hover_exec(h: &HoverEvent, cat: &Catalog) -> (r: HoverEvent)
    ensures
        r@ == resolve_hover(h@, cat@),
    decreases *h,
{
    match h {
        HoverEvent::ShowText { value } => {
            let r = HoverEvent::ShowText { value: resolve_bases(value, cat) };
            proof {
                assert(r@ =~= resolve_hover(h@, cat@));
            }
            r
        },
        HoverEvent::ShowItem { id, count } => {
            let r = HoverEvent::ShowItem { id: id.clone(), count: *count };
            proof {
                assert(r@ =~= resolve_hover(h@, cat@));
            }
            r
        },
        HoverEvent::ShowEntity { id, name, uuid } => {
            let r = HoverEvent::ShowEntity {
                id: id.clone(),
                name: match name {
                    Some(v) => Some(resolve_bases(v, cat)),
                    None => None,
                },
                uuid: clone_opt_str(uuid),
            };
            proof {
                assert(r@ =~= resolve_hover(h@, cat@));
            }
            r
        },
    }
}

impl TextComponentBase {
    /// Resolution never mutates its input: it returns a new tree whose value
    /// is `resolve_spec` of this one, and that tree holds no `Custom` node.
    pub fn to_translated(&self, cat: &Catalog) -> (r: Self)
        ensures
            r@ == resolve_spec(self@, cat@),
            custom_free_v(r@),
        decreases *self,
    {
        proof {
            lemma_resolve_free(self@, cat@);
        }
        let hov: Option<HoverEvent> = match &self.style.hover_event {
            None => None,
            Some(h) => Some(resolve_hover_exec(h, cat)),
        };
        let mut st = self.style.clone();
        st.hover_event = hov;
        proof {
            assert(st@ =~= resolve_style(self@.style, cat@));
        }
        match &self.content {
            TextContent::Custom { key, locale, with } => {
                let tmpl = cat.lookup(key, *locale);
                let toks = scan_template(tmpl.as_str());
                let ghost tv = toks_view(toks@);
                let n = tmpl.unicode_len();
                proof {
                    lemma_scan_wf(tmpl@, 0, 0);
                    assert(forall|k: int| 0 <= k < toks@.len() ==> tv[k] == crate::template::tok_of(
                        toks@[k],
                    ));
                }
                let head: String = if toks.len() > 0 {
                    let h = tmpl.as_str().substring_char(0, toks[0].start).to_owned();
                    proof {
                        assert(h@ =~= head_text(tmpl@, tv));
                    }
                    h
                } else {
                    tmpl.clone()
                };
                let rargs = resolve_bases(with, cat);
                let ghost rav = nodes_view(rargs@);
                let mut kids: Vec<TextComponentBase> = Vec::new();
                let mut k: usize = 0;
                proof {
                    lemma_nodes_view(rargs@);
                    assert(nodes_view(kids@) + expand_children(tmpl@, tv, rav, 0)
                        =~= expand_children(tmpl@, tv, rav, 0));
                }
                while k < toks.len()
                    invariant
                        0 <= k <= toks@.len(),
                        n == tmpl@.len(),
                        tv == toks_view(toks@),
                        tv == scan_spec(tmpl@, 0, 0),
                        toks_wf(tmpl@, tv, 0),
                        forall|j: int| 0 <= j < toks@.len() ==> tv[j]
                            == crate::template::tok_of(toks@[j]),
                        rav == nodes_view(rargs@),
                        rargs@.len() == rav.len(),
                        forall|j: int| 0 <= j < rav.len() ==> rav[j] == node_view(rargs@[j]),
                        nodes_view(kids@) + expand_children(tmpl@, tv, rav, k as int)
                            == expand_children(tmpl@, tv, rav, 0),
                    decreases toks@.len() - k,
                {
                    let ghost kids0 = kids@;
                    let t = toks[k];
                    let child: TextComponentBase = if t.arg < rargs.len() {
                        rargs[t.arg].clone()
                    } else {
                        empty_plain()
                    };
                    proof {
                        assert(node_view(child) == arg_node(rav, tv[k as int].arg));
                    }
                    kids.push(child);
                    let litend: usize = if k + 1 < toks.len() {
                        toks[k + 1].start
                    } else {
                        n
                    };
                    proof {
                        assert(tv[k as int].end <= litend as int);
                        assert(litend <= n);
                    }
                    if litend > t.end {
                        let lit = tmpl.as_str().substring_char(t.end, litend).to_owned();
                        let litnode = TextComponentBase {
                            content: TextContent::Text { text: lit },
                            style: Style::default(),
                            extra: Vec::new(),
                        };
                        proof {
                            assert(node_view(litnode) =~= plain_node(lit_after(tmpl@, tv, k as int)));
                        }
                        kids.push(litnode);
                        proof {
                            lemma_nodes_view_push(kids0, child);
                            lemma_nodes_view_push(kids0.push(child), litnode);
                            assert(lit_after(tmpl@, tv, k as int).len() > 0);
                            assert(nodes_view(kids@) + expand_children(tmpl@, tv, rav, k + 1)
                                =~= expand_children(tmpl@, tv, rav, 0));
                        }
                    } else {
                        proof {
                            lemma_nodes_view_push(kids0, child);
                            assert(lit_after(tmpl@, tv, k as int).len() == 0);
                            assert(nodes_view(kids@) + expand_children(tmpl@, tv, rav, k + 1)
                                =~= expand_children(tmpl@, tv, rav, 0));
                        }
                    }
                    k = k + 1;
                }
                let mut rest = resolve_bases(&self.extra, cat);
                let ghost kidseq = kids@;
                let ghost restseq = rest@;
                kids.append(&mut rest);
                proof {
                    assert(nodes_view(kidseq) + expand_children(tmpl@, tv, rav, toks@.len() as int)
                        =~= nodes_view(kidseq));
                    lemma_nodes_view_concat(kidseq, restseq);
                }
                let r = TextComponentBase {
                    content: TextContent::Text { text: head },
                    style: st,
                    extra: kids,
                };
                proof {
                    assert(r@ =~= resolve_spec(self@, cat@));
                }
                r
            },
            TextContent::Text { text } => {
                let r = TextComponentBase {
                    content: TextContent::Text { text: text.clone() },
                    style: st,
                    extra: resolve_bases(&self.extra, cat),
                };
                proof {
                    assert(r@ =~= resolve_spec(self@, cat@));
                }
                r
            },
            TextContent::Translate { translate, with } => {
                let r = TextComponentBase {
                    content: TextContent::Translate {
                        translate: translate.clone(),
                        with: resolve_bases(with, cat),
                    },
                    style: st,
                    extra: resolve_bases(&self.extra, cat),
                };
                proof {
                    assert(r@ =~= resolve_spec(self@, cat@));
                }
                r
            },
            TextContent::EntityNames { selector, separator } => {
                let r = TextComponentBase {
                    content: TextContent::EntityNames {
                        selector: selector.clone(),
                        separator: clone_opt_str(separator),
                    },
                    style: st,
                    extra: resolve_bases(&self.extra, cat),
                };
                proof {
                    assert(r@ =~= resolve_spec(self@, cat@));
                }
                r
            },
            TextContent::Keybind { keybind } => {
                let r = TextComponentBase {
                    content: TextContent::Keybind { keybind: keybind.clone() },
                    style: st,
                    extra: resolve_bases(&self.extra, cat),
                };
                proof {
                    assert(r@ =~= resolve_spec(self@, cat@));
                }
                r
            },
        }
    }
}

/// Every argument node an expansion can pick is custom-free, so the
/// expansion is.
proof fn lemma_expand_free(tmpl: Seq<char>, toks: Seq<TokV>, args: Seq<NodeV>, k: int, cat: CatV)
    requires
        0 <= k,
        forall|i: int| 0 <= i < args.len() ==> custom_free_v(args[i]),
    ensures
        custom_free_seq(expand_children(tmpl, toks, args, k)),
    decreases toks.len() - k,
{
    if k < toks.len() {
        lemma_expand_free(tmpl, toks, args, k + 1, cat);
        let a = toks[k].arg;
        let head = arg_node(args, a);
        if 0 <= a < args.len() {
            assert(custom_free_v(args[a]));
        } else {
            assert(custom_free_v(plain_node(Seq::<char>::empty())));
        }
        let whole = expand_children(tmpl, toks, args, k);
        let rest = expand_children(tmpl, toks, args, k + 1);
        if lit_after(tmpl, toks, k).len() > 0 {
            let lit = plain_node(lit_after(tmpl, toks, k));
            assert(custom_free_v(lit));
            assert(whole =~= seq![head] + seq![lit] + rest);
            assert(whole[0] == head);
            assert(whole.drop_first() =~= seq![lit] + rest);
            assert((seq![lit] + rest)[0] == lit);
            assert((seq![lit] + rest).drop_first() =~= rest);
            assert(custom_free_seq(seq![lit] + rest));
            assert(custom_free_seq(whole));
        } else {
            assert(whole =~= seq![head] + rest);
            assert(whole[0] == head);
            assert(whole.drop_first() =~= rest);
            assert(custom_free_seq(whole));
        }
    }
}

/// Resolution leaves no `Custom` content anywhere in its output.
pub proof fn lemma_resolve_free(n: NodeV, cat: CatV)
    ensures
        custom_free_v(resolve_spec(n, cat)),
    decreases n,
{
    match n.style.hover_event {
        Some(h) => lemma_resolve_hover_free(h, cat),
        None => {},
    }
    lemma_resolve_seq_free(n.extra, cat);
    match n.content {
        ContentV::Custom { key, locale, with } => {
            let tmpl = lookup_spec(cat, key, locale);
            let toks = scan_spec(tmpl, 0, 0);
            lemma_resolve_seq_free(with, cat);
            lemma_custom_free_seq(resolve_seq(with, cat));
            lemma_expand_free(tmpl, toks, resolve_seq(with, cat), 0, cat);
            let ex = expand_children(tmpl, toks, resolve_seq(with, cat), 0);
            let rs = resolve_seq(n.extra, cat);
            lemma_custom_free_seq(ex);
            lemma_custom_free_seq(rs);
            lemma_custom_free_seq(ex + rs);
            assert(forall|i: int| 0 <= i < (ex + rs).len() ==> custom_free_v((ex + rs)[i]));
        },
        ContentV::Translate { translate, with } => {
            lemma_resolve_seq_free(with, cat);
        },
        _ => {},
    }
}

/// Resolution of a list leaves no `Custom` content.
proof fn lemma_resolve_seq_free(s: Seq<NodeV>, cat: CatV)
    ensures
        custom_free_seq(resolve_seq(s, cat)),
    decreases s,
{
    if s.len() > 0 {
        lemma_resolve_free(s[0], cat);
        lemma_resolve_seq_free(s.drop_first(), cat);
        assert(resolve_seq(s, cat).drop_first() =~= resolve_seq(s.drop_first(), cat));
    }
}

/// Resolution of a tooltip payload leaves no `Custom` content.
proof fn lemma_resolve_hover_free(h: HoverV, cat: CatV)
    ensures
        hover_custom_free(resolve_hover(h, cat)),
    decreases h,
{
    match h {
        HoverV::ShowText { value } => lemma_resolve_seq_free(value, cat),
        HoverV::ShowItem { .. } => {},
        HoverV::ShowEntity { name, .. } => match name {
            Some(v) => lemma_resolve_seq_free(v, cat),
            None => {},
        },
    }
}

/// Resolving a custom-free node changes nothing.
pub proof fn lemma_resolve_id(n: NodeV, cat: CatV)
    requires
        custom_free_v(n),
    ensures
        resolve_spec(n, cat) == n,
    decreases n,
{
    match n.style.hover_event {
        Some(h) => lemma_resolve_hover_id(h, cat),
        None => {},
    }
    lemma_resolve_seq_id(n.extra, cat);
    match n.content {
        ContentV::Translate { translate, with } => {
            lemma_resolve_seq_id(with, cat);
        },
        _ => {},
    }
    assert(resolve_style(n.style, cat) =~= n.style);
    assert(resolve_content(n.content, cat) =~= n.content);
    assert(resolve_spec(n, cat) =~= n);
}

/// Resolving a custom-free list changes nothing.
proof fn lemma_resolve_seq_id(s: Seq<NodeV>, cat: CatV)
    requires
        custom_free_seq(s),
    ensures
        resolve_seq(s, cat) == s,
    decreases s,
{
    if s.len() > 0 {
        lemma_resolve_id(s[0], cat);
        lemma_resolve_seq_id(s.drop_first(), cat);
        assert(resolve_seq(s, cat) =~= s);
    }
}

/// Resolving a custom-free tooltip payload changes nothing.
proof fn lemma_resolve_hover_id(h: HoverV, cat: CatV)
    requires
        hover_custom_free(h),
    ensures
        resolve_hover(h, cat) == h,
    decreases h,
{
    match h {
        HoverV::ShowText { value } => {
            lemma_resolve_seq_id(value, cat);
            assert(resolve_hover(h, cat) =~= h);
        },
        HoverV::ShowItem { .. } => {},
        HoverV::ShowEntity { name, .. } => {
            match name {
                Some(v) => lemma_resolve_seq_id(v, cat),
                None => {},
            }
            assert(resolve_hover(h, cat) =~= h);
        },
    }
}

/// Resolution is idempotent: resolving an already-resolved tree is a no-op.
pub proof fn lemma_resolve_idempotent(n: NodeV, cat: CatV)
    ensures
        resolve_spec(resolve_spec(n, cat), cat) == resolve_spec(n, cat),
{
    lemma_resolve_free(n, cat);
    lemma_resolve_id(resolve_spec(n, cat), cat);
}

/// The view of a concatenation of node lists is the concatenation of views.
pub proof fn lemma_nodes_view_concat(a: Seq<TextComponentBase>, b: Seq<TextComponentBase>)
    ensures
        nodes_view(a + b) == nodes_view(a) + nodes_view(b),
{
    lemma_nodes_view(a);
    lemma_nodes_view(b);
    lemma_nodes_view(a + b);
    assert(nodes_view(a + b) =~= nodes_view(a) + nodes_view(b));
}

} // verus!
