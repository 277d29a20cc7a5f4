use emmet::is_inline;
use emmet::is_self_closing;
use emmet::Node;
use emmet::Text;

#[test]
fn classify_self_closing_members() {
    assert!(is_self_closing("img"));
    assert!(is_self_closing("br"));
    assert!(is_self_closing("meta"));
    assert!(is_self_closing("wbr"));
    assert!(!is_self_closing("div"));
    assert!(!is_self_closing("a"));
    assert!(!is_self_closing(""));
    assert!(!is_self_closing("IMG"));
}

#[test]
fn classify_inline_members() {
    assert!(is_inline("a"));
    assert!(is_inline("span"));
    assert!(is_inline("img"));
    assert!(is_inline("var"));
    assert!(!is_inline("div"));
    assert!(!is_inline("ul"));
    assert!(!is_inline(""));
}

#[test]
fn empty_tag_renders_on_one_line() {
    let n = Node::tag("div");
    assert_eq!(n.render(), "<div></div>");
}

#[test]
fn empty_tag_with_attrs_renders_on_one_line() {
    let n = Node::tag("nav").attr("class", "menu").attr("id", "main-menu");
    assert_eq!(n.render(), "<nav class=\"menu\" id=\"main-menu\"></nav>");
}

#[test]
fn self_closing_tag_renders_bare() {
    let n = Node::tag("img");
    assert_eq!(n.render(), "<img/>");
}

#[test]
fn self_closing_tag_suppresses_children() {
    let n = Node::tag("img").child(Node::tag("span"));
    assert_eq!(n.render(), "<img/>");
    let m = Node::tag("br").text("ignored").attr("k", "v");
    assert_eq!(m.render(), "<br k=\"v\"/>");
}

#[test]
fn attr_on_same_key_merges_values() {
    let n = Node::tag("a").attr("href", "a").attr("href", "b");
    assert_eq!(n.render(), "<a href=\"a b\"></a>");
}

#[test]
fn attr_keeps_insertion_order_when_merging() {
    let n = Node::tag("p")
        .attr("one", "1")
        .attr("two", "2")
        .attr("one", "3");
    assert_eq!(n.render(), "<p one=\"1 3\" two=\"2\"></p>");
}

#[test]
fn nested_tag_with_text_renders_indented() {
    let n = Node::tag("li").child(Node::tag("a").attr("href", "/home").text("Home"));
    assert_eq!(
        n.render(),
        "<li>\n   <a href=\"/home\">\n      Home\n   </a>\n</li>"
    );
}

#[test]
fn text_leaves_render_each_on_own_line() {
    let n = Node::tag("p").text("hello").text("world");
    assert_eq!(n.render(), "<p>\n   hello\n   world\n</p>");
}

#[test]
fn siblings_render_in_order() {
    let n = Node::tag("ul")
        .child(Node::tag("li").text("one"))
        .child(Node::tag("li").text("two"));
    assert_eq!(
        n.render(),
        "<ul>\n   <li>\n      one\n   </li>\n   <li>\n      two\n   </li>\n</ul>"
    );
}

#[test]
fn rendering_is_deterministic() {
    let n = Node::tag("ul")
        .child(Node::tag("li").child(Node::tag("a").attr("href", "/x").text("X")))
        .child(Node::tag("li").child(Node::tag("img")));
    let first = n.render();
    let second = n.render();
    assert_eq!(first, second);
}

#[test]
fn builder_calls_on_text_are_no_ops() {
    let leaf = Node::Text(Text {
        value: String::from("plain"),
    });
    let leaf = leaf.text("ignored").attr("k", "v").child(Node::tag("div"));
    assert_eq!(leaf.render(), "plain");
}

#[test]
fn deep_nesting_indents_by_three_spaces_per_level() {
    let n = Node::tag("ul").child(Node::tag("li").child(Node::tag("ul").child(
        Node::tag("li").text("deep"),
    )));
    assert_eq!(
        n.render(),
        "<ul>\n   <li>\n      <ul>\n         <li>\n            deep\n         </li>\n      </ul>\n   </li>\n</ul>"
    );
}

#[test]
fn colored_rendering_wraps_fragments_only() {
    colored::control::set_override(true);
    let n = Node::tag("img").attr("alt", "x");
    assert_eq!(
        n.render_colored(),
        "<\u{1b}[31mimg\u{1b}[0m \u{1b}[32malt\u{1b}[0m=\u{1b}[33m\"x\"\u{1b}[0m/>"
    );
    colored::control::set_override(false);
    let m = Node::tag("li").child(Node::tag("a").attr("href", "/home").text("Home"));
    assert_eq!(m.render_colored(), m.render());
    colored::control::unset_override();
}

#[test]
fn unknown_name_is_neither_inline_nor_self_closing() {
    assert!(!is_self_closing("custom-widget"));
    assert!(!is_inline("custom-widget"));
    let n = Node::tag("custom-widget");
    assert_eq!(n.render(), "<custom-widget></custom-widget>");
}

#[test]
fn empty_name_renders_as_empty_element() {
    assert_eq!(Node::tag("").render(), "<></>");
}

#[test]
fn mixed_text_and_tag_children_keep_order() {
    let n = Node::tag("h1")
        .text("hello world")
        .child(Node::tag("img"));
    assert_eq!(n.render(), "<h1>\n   hello world\n   <img/>\n</h1>");
}
