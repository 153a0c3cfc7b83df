//! Plain-text flattening: the locale-aware reduction of a node's own content
//! to a single string, independent of styling and children.

use vstd::prelude::*;
use vstd::string::{StringExecFns, StrSliceExecFns};
use crate::catalog::{lookup_spec, Catalog, Locale};
use crate::component::{node_view, nodes_view, ContentV, NodeV, TextComponent, TextComponentBase, TextContent};
use crate::resolve::{head_text, lit_after, CatV};
use crate::template::{scan_spec, scan_template, toks_view, toks_wf, lemma_scan_wf, TokV};

verus! {

/// The mathematical values of a list of strings.
pub open spec fn strs_view(s: Seq<String>) -> Seq<Seq<char>> {
    s.map(|i: int, x: String| x@)
}

/// The text an occurrence contributes: the flattened argument it names, or
/// nothing when the index is out of range.
pub open spec fn arg_text(texts: Seq<Seq<char>>, a: int) -> Seq<char> {
    if 0 <= a < texts.len() {
        texts[a]
    } else {
        Seq::empty()
    }
}

/// The text the occurrences from `k` on contribute: each argument's text,
/// then the literal up to the next occurrence.
pub open spec fn subst_rest(tmpl: Seq<char>, toks: Seq<TokV>, texts: Seq<Seq<char>>, k: int) -> Seq<
    char,
>
    decreases toks.len() - k,
    when 0 <= k
{
    if k >= toks.len() {
        Seq::empty()
    } else {
        arg_text(texts, toks[k].arg) + lit_after(tmpl, toks, k) + subst_rest(
            tmpl,
            toks,
            texts,
            k + 1,
        )
    }
}

/// A template with every occurrence replaced by its argument's text.
pub open spec fn subst_text(tmpl: Seq<char>, toks: Seq<TokV>, texts: Seq<Seq<char>>) -> Seq<char> {
    head_text(tmpl, toks) + subst_rest(tmpl, toks, texts, 0)
}

/// The flattened text of a node: its own content only, arguments flattened
/// recursively, children ignored.
pub open spec fn flatten_spec(n: NodeV, cat: CatV, locale: Locale) -> Seq<char>
    decreases n,
{
    match n.content {
        ContentV::Text { text } => text,
        ContentV::Translate { translate, with } => {
            let tmpl = lookup_spec(cat, "minecraft:"@ + translate, locale);
            subst_text(tmpl, scan_spec(tmpl, 0, 0), flatten_seq(with, cat, locale))
        },
        ContentV::EntityNames { selector, .. } => selector,
        ContentV::Keybind { keybind } => keybind,
        ContentV::Custom { key, with, .. } => {
            let tmpl = lookup_spec(cat, key, locale);
            subst_text(tmpl, scan_spec(tmpl, 0, 0), flatten_seq(with, cat, locale))
        },
    }
}

/// Elementwise flattening of a node list.
pub open spec fn flatten_seq(s: Seq<NodeV>, cat: CatV, locale: Locale) -> Seq<Seq<char>>
    decreases s,
{
    if s.len() == 0 {
        Seq::empty()
    } else {
        seq![flatten_spec(s[0], cat, locale)] + flatten_seq(s.drop_first(), cat, locale)
    }
}

/// `flatten_seq` is the elementwise `flatten_spec`.
pub proof fn lemma_flatten_seq(s: Seq<NodeV>, cat: CatV, locale: Locale)
    ensures
        flatten_seq(s, cat, locale).len() == s.len(),
        forall|i: int|
            0 <= i < s.len() ==> flatten_seq(s, cat, locale)[i] == flatten_spec(s[i], cat, locale),
    decreases s.len(),
{
    if s.len() > 0 {
        lemma_flatten_seq(s.drop_first(), cat, locale);
    }
}

/// Flatten every node of a list.
fn flatten_bases(v: &Vec<TextComponentBase>, cat: &Catalog, locale: Locale) -> (r: Vec<String>)
    ensures
        strs_view(r@) == flatten_seq(nodes_view(v@), cat@, locale),
    decreases *v,
{
    let mut out: Vec<String> = Vec::new();
    let mut i: usize = 0;
    while i < v.len()
        invariant
            0 <= i <= v.len(),
            out@.len() == i,
            forall|j: int| 0 <= j < i ==> out@[j]@ == flatten_spec(node_view(v@[j]), cat@, locale),
        decreases v.len() - i,
    {
        let x = v[i].get_text(cat, locale);
        out.push(x);
        i = i + 1;
    }
    proof {
        crate::component::lemma_nodes_view(v@);
        lemma_flatten_seq(nodes_view(v@), cat@, locale);
        assert(strs_view(out@) =~= flatten_seq(nodes_view(v@), cat@, locale));
    }
    out
}

/// Fill the placeholders of `tmpl` with the given texts.
fn subst_exec(tmpl: &String, texts: &Vec<String>) -> (r: String)
    ensures
        r@ == subst_text(tmpl@, scan_spec(tmpl@, 0, 0), strs_view(texts@)),
{
    let toks = scan_template(tmpl.as_str());
    let ghost tv = toks_view(toks@);
    let ghost txv = strs_view(texts@);
    let n = tmpl.unicode_len();
    proof {
        lemma_scan_wf(tmpl@, 0, 0);
        assert(forall|k: int| 0 <= k < toks@.len() ==> tv[k] == crate::template::tok_of(toks@[k]));
        assert(forall|k: int| 0 <= k < texts@.len() ==> txv[k] == texts@[k]@);
    }
    let mut out: String = if toks.len() > 0 {
        proof {
            assert(tv[0].start + 2 <= tv[0].end && tv[0].end <= tmpl@.len());
        }
        let h = tmpl.as_str().substring_char(0, toks[0].start).to_owned();
        proof {
            assert(h@ =~= head_text(tmpl@, tv));
        }
        h
    } else {
        tmpl.clone()
    };
    let mut k: usize = 0;
    proof {
        assert(out@ + subst_rest(tmpl@, tv, txv, 0) =~= subst_text(tmpl@, tv, txv));
    }
    while k < toks.len()
        invariant
            0 <= k <= toks@.len(),
            n == tmpl@.len(),
            tv == toks_view(toks@),
            tv == scan_spec(tmpl@, 0, 0),
            toks_wf(tmpl@, tv, 0),
            forall|j: int| 0 <= j < toks@.len() ==> tv[j] == crate::template::tok_of(toks@[j]),
            txv == strs_view(texts@),
            texts@.len() == txv.len(),
            forall|j: int| 0 <= j < txv.len() ==> txv[j] == texts@[j]@,
            out@ + subst_rest(tmpl@, tv, txv, k as int) == subst_text(tmpl@, tv, txv),
        decreases toks@.len() - k,
    {
        let ghost out0 = out@;
        let t = toks[k];
        if t.arg < texts.len() {
            out.append(texts[t.arg].as_str());
        }
        proof {
            assert(out@ =~= out0 + arg_text(txv, tv[k as int].arg));
        }
        let ghost out1 = out@;
        let litend: usize = if k + 1 < toks.len() {
            toks[k + 1].start
        } else {
            n
        };
        proof {
            assert(tv[k as int].end <= litend as int);
            assert(litend <= n);
        }
        if litend > t.end {
            let lit = tmpl.as_str().substring_char(t.end, litend);
            out.append(lit);
        }
        proof {
            assert(out@ =~= out1 + lit_after(tmpl@, tv, k as int));
            assert(out@ + subst_rest(tmpl@, tv, txv, k + 1) =~= subst_text(tmpl@, tv, txv));
        }
        k = k + 1;
    }
    proof {
        assert(out@ =~= out@ + subst_rest(tmpl@, tv, txv, k as int));
    }
    out
}

impl TextComponentBase {
    /// The flattened text of this node's own content for `locale`.
    pub fn get_text(&self, cat: &Catalog, locale: Locale) -> (r: String)
        ensures
            r@ == flatten_spec(self@, cat@, locale),
        decreases *self,
    {
        match &self.content {
            TextContent::Text { text } => text.clone(),
            TextContent::Translate { translate, with } => {
                let mut key = "minecraft:".to_owned();
                key.append(translate.as_str());
                let tmpl = cat.lookup(&key, locale);
                let texts = flatten_bases(with, cat, locale);
                subst_exec(&tmpl, &texts)
            },
            TextContent::EntityNames { selector, .. } => selector.clone(),
            TextContent::Keybind { keybind } => keybind.clone(),
            TextContent::Custom { key, with, .. } => {
                let tmpl = cat.lookup(key, locale);
                let texts = flatten_bases(with, cat, locale);
                subst_exec(&tmpl, &texts)
            },
        }
    }
}

impl TextComponent {
    /// The flattened text of this component's own content, in the fixed
    /// console locale.
    pub fn get_text(self, cat: &Catalog) -> (r: String)
        ensures
            r@ == flatten_spec(self@, cat@, Locale::EnUs),
    {
        self.0.get_text(cat, Locale::EnUs)
    }
}

} // verus!
