//! Rendering a tree as indented markup text.
//!
//! Rendering is a pure function of the tree model: the specification
//! functions below define the exact output, and the executable renderer is
//! proved to produce it. A node's indentation is one unit of three spaces
//! per level of depth; children render one unit deeper than their parent.
//! A self-closing tag renders as `<name .../>` and never visits its
//! children; a childless tag renders as `<name ...></name>` on one line; a
//! tag with children renders as an open-tag line, each child's rendering
//! joined by newlines, and a closing-tag line. A text leaf always renders
//! on its own indented line.

use vstd::prelude::*;

use crate::attrs::attr_entries;
use crate::attrs::imap_entries;
use crate::attrs::keys_unique;
use crate::node::children_view;
use crate::node::lemma_children_view_index;
use crate::node::spec_attr_merge;
use crate::node::Node;
use crate::node::NodeV;
use crate::node::Tag;
use crate::node::TagV;

verus! {

/// The indentation sequence for a node at the given depth: one three-space
/// unit per level.
pub open spec fn spec_indent(depth: nat) -> Seq<char>
    decreases depth,
{
    if depth == 0 {
        Seq::empty()
    } else {
        spec_indent((depth - 1) as nat) + "   "@
    }
}

/// The rendering of attribute entries: ` key="value"` for each entry, in
/// order, with nothing between the pairs beyond each leading space.
pub open spec fn spec_render_attrs(es: Seq<(Seq<char>, Seq<char>)>) -> Seq<char>
    decreases es,
{
    if es.len() == 0 {
        Seq::empty()
    } else {
        spec_render_attrs(es.drop_last()) + " "@ + es.last().0 + "="@ + "\""@ + es.last().1
            + "\""@
    }
}

/// The rendering of a node with the given indentation.
pub open spec fn spec_render(n: NodeV, ind: Seq<char>) -> Seq<char>
    decreases n,
{
    match n {
        NodeV::Text(v) => ind + v,
        NodeV::Tag(t) => spec_render_tag(t, ind),
    }
}

/// The rendering of a tag with the given indentation.
pub open spec fn spec_render_tag(t: TagV, ind: Seq<char>) -> Seq<char>
    decreases t,
{
    if t.is_self_close {
        ind + "<"@ + t.name + spec_render_attrs(t.attrs) + "/>"@
    } else if t.children.len() == 0 {
        ind + "<"@ + t.name + spec_render_attrs(t.attrs) + ">"@ + "</"@ + t.name + ">"@
    } else {
        ind + "<"@ + t.name + spec_render_attrs(t.attrs) + ">"@ + "\n"@ + spec_render_children(
            t.children,
            ind + "   "@,
        ) + "\n"@ + ind + "</"@ + t.name + ">"@
    }
}

/// The renderings of a child sequence, joined by single newlines.
pub open spec fn spec_render_children(cs: Seq<NodeV>, ind: Seq<char>) -> Seq<char>
    decreases cs,
{
    if cs.len() == 0 {
        Seq::empty()
    } else if cs.len() == 1 {
        spec_render(cs[0], ind)
    } else {
        spec_render_children(cs.drop_last(), ind) + "\n"@ + spec_render(cs.last(), ind)
    }
}

/// The markup assembled around a tag's fragments: the indentation, the
/// name fragment, the attribute markup, and the children markup when there
/// is one. This is the one assembly rule both renderers use; the decorated
/// renderer hands it decorated fragments.
pub open spec fn spec_assemble_tag(
    ind: Seq<char>,
    name: Seq<char>,
    attrs: Seq<char>,
    self_close: bool,
    kids: Option<Seq<char>>,
) -> Seq<char> {
    if self_close {
        ind + "<"@ + name + attrs + "/>"@
    } else {
        match kids {
            None => ind + "<"@ + name + attrs + ">"@ + "</"@ + name + ">"@,
            Some(km) => ind + "<"@ + name + attrs + ">"@ + "\n"@ + km + "\n"@ + ind + "</"@ + name
                + ">"@,
        }
    }
}

/// Assembles a tag's rendered form from its fragments: exact for every
/// value of the fragments, so it carries the assembly logic for decorated
/// fragments too, whatever the decoration produced.
pub fn assemble_tag(ind: &str, name: &str, attrs: &str, self_close: bool, kids: Option<&String>) -> (r:
    String)
    ensures
        r@ == spec_assemble_tag(
            ind@,
            name@,
            attrs@,
            self_close,
            match kids {
                Some(km) => Some(km@),
                None => None,
            },
        ),
{
    let mut s = ind.to_owned();
    s.append("<");
    s.append(name);
    s.append(attrs);
    if self_close {
        s.append("/>");
        s
    } else {
        match kids {
            None => {
                s.append(">");
                s.append("</");
                s.append(name);
                s.append(">");
                s
            },
            Some(km) => {
                s.append(">");
                s.append("\n");
                s.append(km.as_str());
                s.append("\n");
                s.append(ind);
                s.append("</");
                s.append(name);
                s.append(">");
                s
            },
        }
    }
}

/// The markup of one attribute from its fragments: a space, the key
/// fragment, an equals sign and the quoted-value fragment.
pub open spec fn spec_assemble_attr(key: Seq<char>, quoted: Seq<char>) -> Seq<char> {
    " "@ + key + "="@ + quoted
}

/// Assembles one attribute's markup from its fragments, exact for every
/// value of the fragments.
pub fn assemble_attr(key: &str, quoted: &str) -> (r: String)
    ensures
        r@ == spec_assemble_attr(key@, quoted@),
{
    let mut s = String::new();
    proof {
        assert(Seq::<char>::empty() + " "@ =~= " "@);
    }
    s.append(" ");
    s.append(key);
    s.append("=");
    s.append(quoted);
    s
}

/// Wraps an attribute value in double quotes.
pub fn quote_value(v: &str) -> (r: String)
    ensures
        r@ == "\""@ + v@ + "\""@,
{
    let mut s = String::new();
    proof {
        assert(Seq::<char>::empty() + "\""@ =~= "\""@);
    }
    s.append("\"");
    s.append(v);
    s.append("\"");
    s
}

fn render_attrs(m: &indexmap::IndexMap<String, String>) -> (r: String)
    ensures
        r@ == spec_render_attrs(attr_entries(*m)),
{
    let es = imap_entries(m);
    let ghost aes = attr_entries(*m);
    let mut s = String::new();
    let mut i: usize = 0;
    while i < es.len()
        invariant
            i <= es.len(),
            es@.len() == aes.len(),
            forall|j: int|
                0 <= j < es@.len() ==> (#[trigger] es@[j]).0@ == aes[j].0 && es@[j].1@ == aes[j].1,
            aes == attr_entries(*m),
            s@ == spec_render_attrs(aes.take(i as int)),
        decreases es.len() - i,
    {
        let kv = &es[i];
        s.append(" ");
        s.append(kv.0.as_str());
        s.append("=");
        s.append("\"");
        s.append(kv.1.as_str());
        s.append("\"");
        proof {
            assert(aes.take(i + 1).drop_last() =~= aes.take(i as int));
            assert(aes.take(i + 1).last() == aes[i as int]);
        }
        i += 1;
    }
    proof {
        assert(aes.take(aes.len() as int) =~= aes);
    }
    s
}

fn render_nodes(cs: &Vec<Node>, ind: &str) -> (r: String)
    ensures
        r@ == spec_render_children(children_view(cs@), ind@),
    decreases cs@,
{
    proof {
        lemma_children_view_index(cs@);
    }
    let ghost cv = children_view(cs@);
    let mut s = String::new();
    let mut i: usize = 0;
    while i < cs.len()
        invariant
            i <= cs.len(),
            cv == children_view(cs@),
            cv.len() == cs@.len(),
            forall|j: int| 0 <= j < cs@.len() ==> cv[j] == crate::node::node_view(#[trigger] cs@[j]),
            s@ == spec_render_children(cv.take(i as int), ind@),
        decreases cs.len() - i,
    {
        if i > 0 {
            s.append("\n");
        }
        let c = render_at(&cs[i], ind);
        s.append(c.as_str());
        proof {
            assert(cv.take(i + 1).drop_last() =~= cv.take(i as int));
            assert(cv.take(i + 1).last() == cv[i as int]);
            if i == 0 {
                assert(Seq::<char>::empty() + c@ =~= c@);
            }
        }
        i += 1;
    }
    proof {
        assert(cv.take(cv.len() as int) =~= cv);
    }
    s
}

fn render_tag(t: &Tag, ind: &str) -> (r: String)
    ensures
        r@ == spec_render_tag(t@, ind@),
    decreases *t,
{
    proof {
        lemma_children_view_index(t.children@);
    }
    let attrs = render_attrs(&t.attrs);
    if t.is_self_close {
        assemble_tag(ind, t.name.as_str(), attrs.as_str(), true, None)
    } else if t.children.len() == 0 {
        assemble_tag(ind, t.name.as_str(), attrs.as_str(), false, None)
    } else {
        let mut ci = ind.to_owned();
        ci.append("   ");
        let kids = render_nodes(&t.children, ci.as_str());
        assemble_tag(ind, t.name.as_str(), attrs.as_str(), false, Some(&kids))
    }
}

fn render_at(n: &Node, ind: &str) -> (r: String)
    ensures
        r@ == spec_render(n@, ind@),
    decreases *n,
{
    match n {
        Node::Text(x) => {
            let mut s = ind.to_owned();
            s.append(x.value.as_str());
            s
        },
        Node::Tag(t) => render_tag(t, ind),
    }
}

impl Node {
    /// Renders the tree rooted at this node as plain indented markup text.
    /// The output is a pure function of the tree: rendering the same tree
    /// again yields the identical text.
    pub fn render(&self) -> (r: String)
        ensures
            r@ == spec_render(self@, Seq::empty()),
    {
        proof {
            reveal_strlit("");
            assert(""@ =~= Seq::<char>::empty());
        }
        render_at(self, "")
    }
}

/// No character of `s` is a newline.
pub open spec fn no_newline(s: Seq<char>) -> bool {
    forall|i: int| 0 <= i < s.len() ==> s[i] != '\n'
}

/// No key or value among the entries holds a newline.
pub open spec fn attrs_no_newline(es: Seq<(Seq<char>, Seq<char>)>) -> bool {
    forall|i: int|
        0 <= i < es.len() ==> no_newline((#[trigger] es[i]).0) && no_newline(es[i].1)
}

proof fn lemma_render_attrs_no_newline(es: Seq<(Seq<char>, Seq<char>)>)
    requires
        attrs_no_newline(es),
    ensures
        no_newline(spec_render_attrs(es)),
    decreases es,
{
    reveal_strlit(" ");
    reveal_strlit("=");
    reveal_strlit("\"");
    if es.len() > 0 {
        lemma_render_attrs_no_newline(es.drop_last());
        assert(es.last() == es[es.len() - 1]);
    }
}

/// Rendering is deterministic: two renderings of the same tree model with
/// the same indentation are byte-identical.
pub proof fn lemma_render_deterministic(n: NodeV, ind: Seq<char>, r1: Seq<char>, r2: Seq<char>)
    requires
        r1 == spec_render(n, ind),
        r2 == spec_render(n, ind),
    ensures
        r1 == r2,
{
}

/// The root renders with no indentation: the indentation at depth zero is
/// the empty sequence.
pub proof fn lemma_root_indent()
    ensures
        spec_indent(0) == Seq::<char>::empty(),
{
}

/// Each attached child of a tag at depth `d` renders at depth `d + 1`: a
/// block tag rendered with the indentation of depth `d` renders its
/// children with the indentation of depth `d + 1`.
pub proof fn lemma_child_indent(t: TagV, d: nat)
    requires
        !t.is_self_close,
        t.children.len() > 0,
    ensures
        spec_render_tag(t, spec_indent(d)) == spec_indent(d) + "<"@ + t.name + spec_render_attrs(
            t.attrs,
        ) + ">"@ + "\n"@ + spec_render_children(t.children, spec_indent(d + 1)) + "\n"@
            + spec_indent(d) + "</"@ + t.name + ">"@,
{
    assert(spec_indent(d + 1) == spec_indent(d) + "   "@);
}

/// A self-closing tag renders as `<name .../>` alone: the output holds no
/// children markup and no closing tag, and does not depend on the children
/// at all, however many were attached.
pub proof fn lemma_self_closing_suppresses_children(t: TagV, ind: Seq<char>)
    requires
        t.is_self_close,
    ensures
        spec_render_tag(t, ind) == ind + "<"@ + t.name + spec_render_attrs(t.attrs) + "/>"@,
        spec_render_tag(t, ind) == spec_render_tag(TagV { children: Seq::empty(), ..t }, ind),
{
}

/// A tag with no children that is not self-closing renders as one line:
/// the open tag immediately followed by the closing tag. When neither the
/// indentation, the name nor the attributes hold a newline, the line holds
/// none either.
pub proof fn lemma_empty_tag_single_line(t: TagV, ind: Seq<char>)
    requires
        !t.is_self_close,
        t.children.len() == 0,
    ensures
        spec_render_tag(t, ind) == ind + "<"@ + t.name + spec_render_attrs(t.attrs) + ">"@ + "</"@
            + t.name + ">"@,
        no_newline(ind) && no_newline(t.name) && attrs_no_newline(t.attrs) ==> no_newline(
            spec_render_tag(t, ind),
        ),
{
    if no_newline(ind) && no_newline(t.name) && attrs_no_newline(t.attrs) {
        reveal_strlit("<");
        reveal_strlit(">");
        reveal_strlit("</");
        lemma_render_attrs_no_newline(t.attrs);
    }
}

/// A tag with children, not self-closing, renders as the open-tag line, a
/// newline, the children's renderings one indentation unit deeper, a
/// newline, and the indented closing tag.
pub proof fn lemma_block_tag_shape(t: TagV, ind: Seq<char>)
    requires
        !t.is_self_close,
        t.children.len() > 0,
    ensures
        spec_render_tag(t, ind) == ind + "<"@ + t.name + spec_render_attrs(t.attrs) + ">"@ + "\n"@
            + spec_render_children(t.children, ind + "   "@) + "\n"@ + ind + "</"@ + t.name
            + ">"@,
{
}

/// Children render in order: with two or more children, the rendering of
/// the sequence is the rendering of all but the last, a newline, and the
/// rendering of the last.
pub proof fn lemma_children_joined(cs: Seq<NodeV>, ind: Seq<char>)
    requires
        cs.len() > 1,
    ensures
        spec_render_children(cs, ind) == spec_render_children(cs.drop_last(), ind) + "\n"@
            + spec_render(cs.last(), ind),
{
}

/// Setting the same key twice merges the values: after `attr(k, a)` then
/// `attr(k, b)` on attributes that did not hold `k`, the entries hold one
/// entry for `k`, last in order, whose value is `a`, a space, `b` — never
/// `b` alone and never two entries for `k`.
pub proof fn lemma_attr_merge_twice(
    es: Seq<(Seq<char>, Seq<char>)>,
    k: Seq<char>,
    a: Seq<char>,
    b: Seq<char>,
)
    requires
        keys_unique(es),
        forall|i: int| 0 <= i < es.len() ==> (#[trigger] es[i]).0 != k,
    ensures
        spec_attr_merge(spec_attr_merge(es, k, a), k, b) == es.push((k, a + " "@ + b)),
{
    let es1 = spec_attr_merge(es, k, a);
    assert(es1 == es.push((k, a)));
    assert(es1[es.len() as int] == (k, a));
    assert(exists|i: int| 0 <= i < es1.len() && (#[trigger] es1[i]).0 == k);
    let j = choose|i: int| 0 <= i < es1.len() && (#[trigger] es1[i]).0 == k;
    assert(forall|i: int| 0 <= i < es.len() ==> (#[trigger] es1[i]) == es[i]);
    assert(j == es.len());
    assert(es1.update(j, (k, a + " "@ + b)) =~= es.push((k, a + " "@ + b)));
}

} // verus!
