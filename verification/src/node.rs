//! The tree model and the fluent builder.
//!
//! A tree is a [`Node`]: either a [`Tag`] element with a name, classification
//! flags fixed at construction, ordered attributes and an ordered child
//! sequence, or a [`Text`] leaf. The builder operations `tag`, `text`,
//! `child` and `attr` grow the tree; each takes the receiver by value and
//! hands it back, so calls chain. Calls that do not apply to a text leaf are
//! silent no-ops, never errors.
//!
//! The mathematical model of a tree is [`NodeV`], reached through `@`.

use vstd::prelude::*;

use crate::attrs::attr_entries;
use crate::attrs::imap_get;
use crate::attrs::imap_insert;
use crate::attrs::imap_new;
use crate::attrs::keys_unique;
use crate::classify::is_inline;
use crate::classify::is_self_closing;
use crate::classify::spec_is_inline;
use crate::classify::spec_is_self_closing;

verus! {

/// The model of a tag element: name, classification flags, attribute
/// entries in insertion order, and child models in order.
pub struct TagV {
    pub name: Seq<char>,
    pub is_inline: bool,
    pub is_self_close: bool,
    pub attrs: Seq<(Seq<char>, Seq<char>)>,
    pub children: Seq<NodeV>,
}

/// The model of a node: a tag element or a text leaf.
pub enum NodeV {
    Tag(TagV),
    Text(Seq<char>),
}

/// A markup element with a name, attributes and owned children.
pub struct Tag {
    pub name: String,
    pub is_inline: bool,
    pub is_self_close: bool,
    pub attrs: indexmap::IndexMap<String, String>,
    pub children: Vec<Node>,
}

/// A literal text leaf.
pub struct Text {
    pub value: String,
}

/// A node of the tree: a tag element or a text leaf. A tag exclusively owns
/// its children, so a tree is finite and free of cycles by construction.
pub enum Node {
    Tag(Tag),
    Text(Text),
}

/// The models of a child sequence, in order.
pub open spec fn children_view(cs: Seq<Node>) -> Seq<NodeV>
    decreases cs,
{
    if cs.len() == 0 {
        Seq::empty()
    } else {
        children_view(cs.drop_last()).push(node_view(cs.last()))
    }
}

/// The model of a tag.
pub open spec fn tag_view(t: Tag) -> TagV
    decreases t,
{
    TagV {
        name: t.name@,
        is_inline: t.is_inline,
        is_self_close: t.is_self_close,
        attrs: attr_entries(t.attrs),
        children: children_view(t.children@),
    }
}

/// The model of a node.
pub open spec fn node_view(n: Node) -> NodeV
    decreases n,
{
    match n {
        Node::Tag(t) => NodeV::Tag(tag_view(t)),
        Node::Text(x) => NodeV::Text(x.value@),
    }
}

impl View for Tag {
    type V = TagV;

    open spec fn view(&self) -> TagV {
        tag_view(*self)
    }
}

impl View for Node {
    type V = NodeV;

    open spec fn view(&self) -> NodeV {
        node_view(*self)
    }
}

/// Well-formedness of every node of a child sequence.
pub open spec fn children_wf(cs: Seq<Node>) -> bool
    decreases cs,
{
    if cs.len() == 0 {
        true
    } else {
        children_wf(cs.drop_last()) && node_wf(cs.last())
    }
}

/// Well-formedness of a tag: the classification flags are the pure function
/// of the name that the classifier gives, attribute keys are unique, and all
/// children are well formed.
pub open spec fn tag_wf(t: Tag) -> bool
    decreases t,
{
    &&& t.is_inline == spec_is_inline(t.name@)
    &&& t.is_self_close == spec_is_self_closing(t.name@)
    &&& keys_unique(attr_entries(t.attrs))
    &&& children_wf(t.children@)
}

/// Well-formedness of a node. Every node the builder hands out satisfies it.
pub open spec fn node_wf(n: Node) -> bool
    decreases n,
{
    match n {
        Node::Tag(t) => tag_wf(t),
        Node::Text(_) => true,
    }
}

/// Appending a child extends the modelled child sequence by its model.
pub proof fn lemma_children_view_push(cs: Seq<Node>, n: Node)
    ensures
        children_view(cs.push(n)) == children_view(cs).push(node_view(n)),
{
    assert(cs.push(n).drop_last() =~= cs);
    assert(cs.push(n).last() == n);
}

/// Appending a well-formed child keeps a well-formed child sequence.
pub proof fn lemma_children_wf_push(cs: Seq<Node>, n: Node)
    requires
        children_wf(cs),
        node_wf(n),
    ensures
        children_wf(cs.push(n)),
{
    assert(cs.push(n).drop_last() =~= cs);
    assert(cs.push(n).last() == n);
}

/// Each element of a modelled child sequence is the model of the
/// corresponding child.
pub proof fn lemma_children_view_index(cs: Seq<Node>)
    ensures
        children_view(cs).len() == cs.len(),
        forall|i: int| 0 <= i < cs.len() ==> children_view(cs)[i] == node_view(#[trigger] cs[i]),
    decreases cs,
{
    if cs.len() > 0 {
        lemma_children_view_index(cs.drop_last());
        assert(forall|i: int| 0 <= i < cs.len() - 1 ==> cs.drop_last()[i] == #[trigger] cs[i]);
    }
}

/// Merging an attribute into a sequence of entries: an existing key keeps
/// its place and its value grows by a space and the new value; a new key is
/// appended last with the given value.
pub open spec fn spec_attr_merge(
    es: Seq<(Seq<char>, Seq<char>)>,
    k: Seq<char>,
    v: Seq<char>,
) -> Seq<(Seq<char>, Seq<char>)> {
    if exists|i: int| 0 <= i < es.len() && (#[trigger] es[i]).0 == k {
        let i = choose|i: int| 0 <= i < es.len() && (#[trigger] es[i]).0 == k;
        es.update(i, (k, es[i].1 + " "@ + v))
    } else {
        es.push((k, v))
    }
}

/// The model of `text` applied to a node: a tag gains a text leaf as its
/// last child; a text leaf is left unchanged.
pub open spec fn spec_with_text(n: NodeV, txt: Seq<char>) -> NodeV {
    match n {
        NodeV::Tag(t) => NodeV::Tag(TagV { children: t.children.push(NodeV::Text(txt)), ..t }),
        NodeV::Text(_) => n,
    }
}

/// The model of `child` applied to a node: a tag gains the given node as
/// its last child; a text leaf is left unchanged.
pub open spec fn spec_with_child(n: NodeV, c: NodeV) -> NodeV {
    match n {
        NodeV::Tag(t) => NodeV::Tag(TagV { children: t.children.push(c), ..t }),
        NodeV::Text(_) => n,
    }
}

/// The model of `attr` applied to a node: a tag's attributes are merged
/// with the given pair; a text leaf is left unchanged.
pub open spec fn spec_with_attr(n: NodeV, k: Seq<char>, v: Seq<char>) -> NodeV {
    match n {
        NodeV::Tag(t) => NodeV::Tag(TagV { attrs: spec_attr_merge(t.attrs, k, v), ..t }),
        NodeV::Text(_) => n,
    }
}

impl Node {
    /// Allocates a fresh tag element named `name`: its classification flags
    /// are computed from the name once and for all, it has no attributes, no
    /// children and no enclosing parent yet.
    pub fn tag(name: &str) -> (r: Node)
        ensures
            r@ == NodeV::Tag(
                TagV {
                    name: name@,
                    is_inline: spec_is_inline(name@),
                    is_self_close: spec_is_self_closing(name@),
                    attrs: Seq::empty(),
                    children: Seq::empty(),
                },
            ),
            node_wf(r),
    {
        let t = Tag {
            name: name.to_owned(),
            is_inline: is_inline(name),
            is_self_close: is_self_closing(name),
            attrs: imap_new(),
            children: Vec::new(),
        };
        Node::Tag(t)
    }

    /// Appends a text leaf holding `text` to a tag's children; on a text
    /// leaf this is a no-op. Returns the receiver for chaining.
    pub fn text(self, text: &str) -> (r: Node)
        requires
            node_wf(self),
        ensures
            r@ == spec_with_text(self@, text@),
            node_wf(r),
    {
        match self {
            Node::Tag(mut t) => {
                let leaf = Node::Text(Text { value: text.to_owned() });
                proof {
                    lemma_children_view_push(t.children@, leaf);
                    lemma_children_wf_push(t.children@, leaf);
                }
                t.children.push(leaf);
                Node::Tag(t)
            },
            Node::Text(x) => Node::Text(x),
        }
    }

    /// Appends `c` to a tag's children; on a text leaf this is a no-op and
    /// the argument is discarded. Returns the receiver for chaining.
    pub fn child(self, c: Node) -> (r: Node)
        requires
            node_wf(self),
            node_wf(c),
        ensures
            r@ == spec_with_child(self@, c@),
            node_wf(r),
    {
        match self {
            Node::Tag(mut t) => {
                proof {
                    lemma_children_view_push(t.children@, c);
                    lemma_children_wf_push(t.children@, c);
                }
                t.children.push(c);
                Node::Tag(t)
            },
            Node::Text(x) => Node::Text(x),
        }
    }

    /// Sets or merges an attribute on a tag: a new key is inserted last in
    /// order; an existing key keeps its place and its value grows by a
    /// space and `value`. On a text leaf this is a no-op. Returns the
    /// receiver for chaining.
    pub fn attr(self, name: &str, value: &str) -> (r: Node)
        requires
            node_wf(self),
        ensures
            r@ == spec_with_attr(self@, name@, value@),
            node_wf(r),
    {
        match self {
            Node::Tag(mut t) => {
                let prev: Option<String> = match imap_get(&t.attrs, name) {
                    Some(v) => Some(v.clone()),
                    None => None,
                };
                match prev {
                    Some(mut merged) => {
                        merged.append(" ");
                        merged.append(value);
                        imap_insert(&mut t.attrs, name.to_owned(), merged);
                    },
                    None => {
                        imap_insert(&mut t.attrs, name.to_owned(), value.to_owned());
                    },
                }
                Node::Tag(t)
            },
            Node::Text(x) => Node::Text(x),
        }
    }
}

} // verus!
