//! Terminal color decoration for the renderer.
//!
//! The decorated renderer produces the same markup as
//! [`Node::render`](crate::node::Node) but passes the tag name, each
//! attribute key and each quoted attribute value through the `colored`
//! crate first. Whether the markers actually appear depends on the terminal
//! environment at run time, so no exact output can be promised. What is
//! promised instead, and proved, is the [`decorates`] relation: whenever no
//! tag name, attribute key or attribute value in the tree holds an escape
//! character, the output is the tree's rendering with each decorated
//! fragment embedded unchanged between optional marker sequences, assembled
//! exactly as the plain renderer assembles its fragments (through
//! [`assemble_tag`](crate::render::assemble_tag) and
//! [`assemble_attr`](crate::render::assemble_attr)).

use colored::Colorize;
use vstd::prelude::*;

use crate::attrs::imap_entries;
use crate::node::lemma_children_view_index;
use crate::node::Node;
use crate::node::NodeV;
use crate::node::Tag;
use crate::node::TagV;
use crate::render::assemble_attr;
use crate::render::assemble_tag;
use crate::render::quote_value;
use crate::render::spec_assemble_attr;
use crate::render::spec_assemble_tag;
use crate::render::spec_render;
use crate::render::spec_render_attrs;
use crate::render::spec_render_children;
use crate::render::spec_render_tag;

verus! {

/// `frag` holds `plain` unchanged between an optional marker prefix and an
/// optional marker suffix.
pub open spec fn embeds(frag: Seq<char>, plain: Seq<char>) -> bool {
    exists|pre: Seq<char>, post: Seq<char>| frag == pre + plain + post
}

/// No character of `s` is the escape character that introduces terminal
/// markers.
pub open spec fn esc_free(s: Seq<char>) -> bool {
    forall|i: int| 0 <= i < s.len() ==> s[i] != '\u{1b}'
}

/// No attribute key or value among the entries holds an escape character.
pub open spec fn attrs_esc_free(es: Seq<(Seq<char>, Seq<char>)>) -> bool {
    forall|i: int| 0 <= i < es.len() ==> esc_free((#[trigger] es[i]).0) && esc_free(es[i].1)
}

/// No tag name, attribute key or attribute value anywhere in the tree
/// holds an escape character.
pub open spec fn node_esc_free(n: NodeV) -> bool
    decreases n,
{
    match n {
        NodeV::Tag(t) => tag_esc_free(t),
        NodeV::Text(_) => true,
    }
}

/// Escape-freedom of a tag's name, attributes and children.
pub open spec fn tag_esc_free(t: TagV) -> bool
    decreases t,
{
    esc_free(t.name) && attrs_esc_free(t.attrs) && children_esc_free(t.children)
}

/// Escape-freedom of every node of a child sequence.
pub open spec fn children_esc_free(cs: Seq<NodeV>) -> bool
    decreases cs,
{
    if cs.len() == 0 {
        true
    } else {
        children_esc_free(cs.drop_last()) && node_esc_free(cs.last())
    }
}

/// `out` is a decorated rendering of the attribute entries: for each entry
/// in order, a fragment embedding the key and a fragment embedding the
/// quoted value, assembled as ` key="value"` markup.
pub open spec fn decorates_attrs(es: Seq<(Seq<char>, Seq<char>)>, out: Seq<char>) -> bool
    decreases es,
{
    if es.len() == 0 {
        out == Seq::<char>::empty()
    } else {
        exists|front: Seq<char>, kf: Seq<char>, vf: Seq<char>|
            decorates_attrs(es.drop_last(), front) && embeds(kf, es.last().0) && embeds(
                vf,
                "\""@ + es.last().1 + "\""@,
            ) && out == front + spec_assemble_attr(kf, vf)
    }
}

/// `out` is a decorated rendering of the node at the given indentation: the
/// rendering of [`Node::render`], with the tag name, each attribute key and
/// each quoted attribute value replaced by a fragment that embeds it
/// between optional markers. A text leaf is never decorated.
pub open spec fn decorates(n: NodeV, ind: Seq<char>, out: Seq<char>) -> bool
    decreases n,
{
    match n {
        NodeV::Text(v) => out == ind + v,
        NodeV::Tag(t) => decorates_tag(t, ind, out),
    }
}

/// `out` is a decorated rendering of the tag at the given indentation.
pub open spec fn decorates_tag(t: TagV, ind: Seq<char>, out: Seq<char>) -> bool
    decreases t,
{
    if t.is_self_close {
        exists|nf: Seq<char>, ao: Seq<char>|
            embeds(nf, t.name) && decorates_attrs(t.attrs, ao) && out == spec_assemble_tag(
                ind,
                nf,
                ao,
                true,
                None,
            )
    } else if t.children.len() == 0 {
        exists|nf: Seq<char>, ao: Seq<char>|
            embeds(nf, t.name) && decorates_attrs(t.attrs, ao) && out == spec_assemble_tag(
                ind,
                nf,
                ao,
                false,
                None,
            )
    } else {
        exists|nf: Seq<char>, ao: Seq<char>, ko: Seq<char>|
            embeds(nf, t.name) && decorates_attrs(t.attrs, ao) && decorates_children(
                t.children,
                ind + "   "@,
                ko,
            ) && out == spec_assemble_tag(ind, nf, ao, false, Some(ko))
    }
}

/// `out` is the decorated renderings of the children in order, joined by
/// single newlines.
pub open spec fn decorates_children(cs: Seq<NodeV>, ind: Seq<char>, out: Seq<char>) -> bool
    decreases cs,
{
    if cs.len() == 0 {
        out == Seq::<char>::empty()
    } else if cs.len() == 1 {
        decorates(cs[0], ind, out)
    } else {
        exists|front: Seq<char>, lastout: Seq<char>|
            decorates_children(cs.drop_last(), ind, front) && decorates(cs.last(), ind, lastout)
                && out == front + "\n"@ + lastout
    }
}

/// Each node of an escape-free child sequence is escape-free.
proof fn lemma_children_esc_free_index(cs: Seq<NodeV>)
    requires
        children_esc_free(cs),
    ensures
        forall|i: int| 0 <= i < cs.len() ==> node_esc_free(#[trigger] cs[i]),
    decreases cs,
{
    if cs.len() > 0 {
        lemma_children_esc_free_index(cs.drop_last());
        assert(forall|i: int| 0 <= i < cs.len() - 1 ==> cs.drop_last()[i] == #[trigger] cs[i]);
    }
}

/// Every sequence embeds itself, between empty markers.
proof fn lemma_embeds_self(s: Seq<char>)
    ensures
        embeds(s, s),
{
    assert(s =~= Seq::<char>::empty() + s + Seq::<char>::empty());
}

/// The plain attribute markup is itself a decorated attribute markup, with
/// empty markers around every fragment.
pub proof fn lemma_plain_attrs_decorate(es: Seq<(Seq<char>, Seq<char>)>)
    ensures
        decorates_attrs(es, spec_render_attrs(es)),
    decreases es,
{
    if es.len() > 0 {
        lemma_plain_attrs_decorate(es.drop_last());
        lemma_embeds_self(es.last().0);
        lemma_embeds_self("\""@ + es.last().1 + "\""@);
        assert(spec_render_attrs(es) =~= spec_render_attrs(es.drop_last()) + spec_assemble_attr(
            es.last().0,
            "\""@ + es.last().1 + "\""@,
        ));
    }
}

/// The plain rendering of a node is itself a decorated rendering, with
/// empty markers around every fragment: for every tree some output
/// satisfies the decorated renderer's contract, and with colors disabled
/// the decorated renderer's output is exactly this one.
pub proof fn lemma_plain_render_decorates(n: NodeV, ind: Seq<char>)
    ensures
        decorates(n, ind, spec_render(n, ind)),
    decreases n,
{
    match n {
        NodeV::Text(_) => {},
        NodeV::Tag(t) => lemma_plain_render_tag_decorates(t, ind),
    }
}

/// The plain rendering of a tag is itself a decorated rendering.
pub proof fn lemma_plain_render_tag_decorates(t: TagV, ind: Seq<char>)
    ensures
        decorates_tag(t, ind, spec_render_tag(t, ind)),
    decreases t,
{
    lemma_embeds_self(t.name);
    lemma_plain_attrs_decorate(t.attrs);
    let ao = spec_render_attrs(t.attrs);
    if t.is_self_close {
        assert(spec_render_tag(t, ind) == spec_assemble_tag(ind, t.name, ao, true, None));
    } else if t.children.len() == 0 {
        assert(spec_render_tag(t, ind) == spec_assemble_tag(ind, t.name, ao, false, None));
    } else {
        lemma_plain_children_decorate(t.children, ind + "   "@);
        assert(spec_render_tag(t, ind) == spec_assemble_tag(
            ind,
            t.name,
            ao,
            false,
            Some(spec_render_children(t.children, ind + "   "@)),
        ));
    }
}

/// The plain renderings of a child sequence are themselves decorated
/// renderings.
pub proof fn lemma_plain_children_decorate(cs: Seq<NodeV>, ind: Seq<char>)
    ensures
        decorates_children(cs, ind, spec_render_children(cs, ind)),
    decreases cs,
{
    if cs.len() == 1 {
        lemma_plain_render_decorates(cs[0], ind);
    } else if cs.len() > 1 {
        lemma_plain_children_decorate(cs.drop_last(), ind);
        lemma_plain_render_decorates(cs.last(), ind);
    }
}

/// Relies on `Colorize::red` and `ColoredString`'s `Display`: with colors
/// enabled the output is a style prefix, the text unchanged, and a reset
/// suffix; with colors disabled it is the text itself. Either way an input
/// without an escape character comes back embedded unchanged.
#[verifier::external_body]
fn paint_tag_name(s: &str) -> (r: String)
    ensures
        esc_free(s@) ==> embeds(r@, s@),
{
    s.red().to_string()
}

/// Relies on `Colorize::green` and `ColoredString`'s `Display`, as for the
/// tag name.
#[verifier::external_body]
fn paint_attr_key(s: &str) -> (r: String)
    ensures
        esc_free(s@) ==> embeds(r@, s@),
{
    s.green().to_string()
}

/// Relies on `Colorize::yellow` and `ColoredString`'s `Display`, as for the
/// tag name.
#[verifier::external_body]
fn paint_attr_value(s: &str) -> (r: String)
    ensures
        esc_free(s@) ==> embeds(r@, s@),
{
    s.yellow().to_string()
}

fn render_attrs_colored(m: &indexmap::IndexMap<String, String>) -> (r: String)
    ensures
        attrs_esc_free(crate::attrs::attr_entries(*m)) ==> decorates_attrs(
            crate::attrs::attr_entries(*m),
            r@,
        ),
{
    let es = imap_entries(m);
    let ghost aes = crate::attrs::attr_entries(*m);
    let mut s = String::new();
    let mut i: usize = 0;
    while i < es.len()
        invariant
            i <= es.len(),
            es@.len() == aes.len(),
            forall|j: int|
                0 <= j < es@.len() ==> (#[trigger] es@[j]).0@ == aes[j].0 && es@[j].1@ == aes[j].1,
            aes == crate::attrs::attr_entries(*m),
            attrs_esc_free(aes) ==> decorates_attrs(aes.take(i as int), s@),
        decreases es.len() - i,
    {
        let ghost s_old = s@;
        let kv = &es[i];
        let key = paint_attr_key(kv.0.as_str());
        let quoted = quote_value(kv.1.as_str());
        proof {
            reveal_strlit("\"");
            if attrs_esc_free(aes) {
                assert(esc_free(aes[i as int].0));
                assert forall|j: int| 0 <= j < quoted@.len() implies quoted@[j] != '\u{1b}' by {
                    assert(esc_free(aes[i as int].1));
                    assert(quoted@ == "\""@ + aes[i as int].1 + "\""@);
                }
                assert(esc_free(quoted@));
            }
        }
        let val = paint_attr_value(quoted.as_str());
        let pair = assemble_attr(key.as_str(), val.as_str());
        s.append(pair.as_str());
        proof {
            assert(aes.take(i + 1).drop_last() =~= aes.take(i as int));
            assert(aes.take(i + 1).last() == aes[i as int]);
            if attrs_esc_free(aes) {
                assert(embeds(key@, aes[i as int].0));
                assert(embeds(val@, "\""@ + aes[i as int].1 + "\""@));
                assert(s@ == s_old + spec_assemble_attr(key@, val@));
                assert(decorates_attrs(aes.take(i + 1), s@));
            }
        }
        i += 1;
    }
    proof {
        assert(aes.take(aes.len() as int) =~= aes);
    }
    s
}

fn render_nodes_colored(cs: &Vec<Node>, ind: &str) -> (r: String)
    ensures
        children_esc_free(crate::node::children_view(cs@)) ==> decorates_children(
            crate::node::children_view(cs@),
            ind@,
            r@,
        ),
    decreases cs@,
{
    proof {
        lemma_children_view_index(cs@);
    }
    let ghost cv = crate::node::children_view(cs@);
    let mut s = String::new();
    let mut i: usize = 0;
    while i < cs.len()
        invariant
            i <= cs.len(),
            cv == crate::node::children_view(cs@),
            cv.len() == cs@.len(),
            forall|j: int| 0 <= j < cs@.len() ==> cv[j] == crate::node::node_view(#[trigger] cs@[j]),
            children_esc_free(cv) ==> decorates_children(cv.take(i as int), ind@, s@),
        decreases cs.len() - i,
    {
        let ghost s_old = s@;
        if i > 0 {
            s.append("\n");
        }
        let c = render_colored_at(&cs[i], ind);
        s.append(c.as_str());
        proof {
            assert(cv.take(i + 1).drop_last() =~= cv.take(i as int));
            assert(cv.take(i + 1).last() == cv[i as int]);
            if children_esc_free(cv) {
                lemma_children_esc_free_index(cv);
                assert(node_esc_free(cv[i as int]));
                assert(decorates(cv[i as int], ind@, c@));
                if i == 0 {
                    assert(Seq::<char>::empty() + c@ =~= c@);
                    assert(s@ == c@);
                } else {
                    assert(s@ == s_old + "\n"@ + c@);
                }
                assert(decorates_children(cv.take(i + 1), ind@, s@));
            }
        }
        i += 1;
    }
    proof {
        assert(cv.take(cv.len() as int) =~= cv);
    }
    s
}

fn render_tag_colored(t: &Tag, ind: &str) -> (r: String)
    ensures
        tag_esc_free(t@) ==> decorates_tag(t@, ind@, r@),
    decreases *t,
{
    proof {
        lemma_children_view_index(t.children@);
    }
    let name = paint_tag_name(t.name.as_str());
    let attrs = render_attrs_colored(&t.attrs);
    if t.is_self_close {
        let r = assemble_tag(ind, name.as_str(), attrs.as_str(), true, None);
        proof {
            if tag_esc_free(t@) {
                assert(embeds(name@, t@.name));
                assert(decorates_attrs(t@.attrs, attrs@));
                assert(r@ == spec_assemble_tag(ind@, name@, attrs@, true, None));
                assert(decorates_tag(t@, ind@, r@));
            }
        }
        r
    } else if t.children.len() == 0 {
        let r = assemble_tag(ind, name.as_str(), attrs.as_str(), false, None);
        proof {
            if tag_esc_free(t@) {
                assert(embeds(name@, t@.name));
                assert(decorates_attrs(t@.attrs, attrs@));
                assert(r@ == spec_assemble_tag(ind@, name@, attrs@, false, None));
                assert(decorates_tag(t@, ind@, r@));
            }
        }
        r
    } else {
        let mut ci = ind.to_owned();
        ci.append("   ");
        let kids = render_nodes_colored(&t.children, ci.as_str());
        let r = assemble_tag(ind, name.as_str(), attrs.as_str(), false, Some(&kids));
        proof {
            if tag_esc_free(t@) {
                assert(embeds(name@, t@.name));
                assert(decorates_attrs(t@.attrs, attrs@));
                assert(decorates_children(t@.children, ind@ + "   "@, kids@));
                assert(r@ == spec_assemble_tag(ind@, name@, attrs@, false, Some(kids@)));
                assert(decorates_tag(t@, ind@, r@));
            }
        }
        r
    }
}

fn render_colored_at(n: &Node, ind: &str) -> (r: String)
    ensures
        node_esc_free(n@) ==> decorates(n@, ind@, r@),
    decreases *n,
{
    match n {
        Node::Text(x) => {
            let mut s = ind.to_owned();
            s.append(x.value.as_str());
            s
        },
        Node::Tag(t) => render_tag_colored(t, ind),
    }
}

impl Node {
    /// Renders the tree like [`Node::render`], with the tag name, each
    /// attribute key and each quoted attribute value passed through terminal
    /// color decoration. The markers depend on the terminal environment;
    /// with colors disabled the output is exactly that of `render`. Whenever
    /// no tag name, attribute key or attribute value in the tree holds an
    /// escape character, the output decorates the plain rendering: same
    /// assembly, each fragment embedded between optional markers.
    pub fn render_colored(&self) -> (r: String)
        ensures
            node_esc_free(self@) ==> decorates(self@, Seq::empty(), r@),
    {
        proof {
            reveal_strlit("");
            assert(""@ =~= Seq::<char>::empty());
        }
        render_colored_at(self, "")
    }
}

} // verus!
