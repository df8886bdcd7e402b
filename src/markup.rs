use vstd::prelude::*;
use crate::style::{lemma_add_modifier_keeps, Color, Style, BOLD, ITALIC, UNDERLINED};
use crate::text::{all_spans, append_spans, Line, Span, Text, TextModel};
use html5ever::tendril::TendrilSink;

verus! {

broadcast use vstd::std_specs::vec::group_vec_axioms, vstd::seq::group_seq_axioms;

/// A node of a parsed markup tree.
pub enum MarkupNode {
    /// Character data.
    Text(String),
    /// An element: its tag name and its children.
    Element(String, Vec<MarkupNode>),
    /// The root of a document.
    Document(Vec<MarkupNode>),
    /// Any other kind of node: a comment, a doctype, a processing instruction.
    Other,
}

/// The tags whose content starts a new paragraph.
pub open spec fn block_tag(tag: Seq<char>) -> bool {
    tag == "h1"@ || tag == "p"@ || tag == "br"@ || tag == "main"@ || tag == "div"@
        || tag == "html"@ || tag == "body"@
}

/// Whether a node, as a child, starts a new paragraph.
pub open spec fn block_node(node: MarkupNode) -> bool {
    match node {
        MarkupNode::Element(tag, _) => block_tag(tag@),
        _ => false,
    }
}

/// The style that an element's children inherit from `style`.
pub open spec fn tag_style(tag: Seq<char>, style: Style) -> Style {
    if tag == "h1"@ {
        style.with_modifier(BOLD).with_modifier(UNDERLINED)
    } else if tag == "b"@ || tag == "strong"@ {
        style.with_modifier(BOLD)
    } else if tag == "em"@ {
        style.with_modifier(ITALIC)
    } else if tag == "a"@ {
        style.with_modifier(UNDERLINED).with_fg(Color::Blue)
    } else {
        style
    }
}

/// What a node that cannot be laid out shows.
pub open spec fn placeholder() -> TextModel {
    seq![seq![("Could not read"@, Style::plain())]]
}

/// A child's lines merged into a parent's: a non-empty block child comes
/// after a blank line, a non-empty inline child continues the last line.
pub open spec fn merge_child(acc: TextModel, child: TextModel, block: bool) -> TextModel {
    if child.len() == 0 {
        acc
    } else if block {
        acc.push(Seq::empty()) + child
    } else {
        append_spans(acc, all_spans(child))
    }
}

/// The styled document of a node laid out in `style`.
pub open spec fn layout(node: MarkupNode, style: Style) -> TextModel
    decreases node, 0nat,
{
    match node {
        MarkupNode::Text(s) => seq![seq![(s@, style)]],
        MarkupNode::Element(tag, children) => {
            if tag@ == "style"@ {
                Seq::empty()
            } else {
                layout_children(children@, tag_style(tag@, style), children@.len())
            }
        },
        MarkupNode::Document(children) => layout_document(children@, style, children@.len()),
        MarkupNode::Other => placeholder(),
    }
}

/// The first `n` children of an element laid out and merged in order.
pub open spec fn layout_children(children: Seq<MarkupNode>, style: Style, n: nat) -> TextModel
    decreases children, n,
{
    if n == 0 || n > children.len() {
        Seq::empty()
    } else {
        let c = children[n - 1];
        merge_child(layout_children(children, style, (n - 1) as nat), layout(c, style), block_node(c))
    }
}

/// The lines of the first `n` children of a document root, one after another.
pub open spec fn layout_document(children: Seq<MarkupNode>, style: Style, n: nat) -> TextModel
    decreases children, n,
{
    if n == 0 || n > children.len() {
        Seq::empty()
    } else {
        layout_document(children, style, (n - 1) as nat) + layout(children[n - 1], style)
    }
}

/// The style a whole post is laid out in.
pub open spec fn root_style() -> Style {
    Style::plain().with_fg(Color::Red)
}

/// Whether two strings hold the same characters.
pub fn same_text(a: &str, b: &str) -> (r: bool)
    ensures
        r == (a@ == b@),
{
    let n = a.unicode_len();
    if n != b.unicode_len() {
        return false;
    }
    let mut i: usize = 0;
    while i < n
        invariant
            n == a@.len(),
            n == b@.len(),
            i <= n,
            a@.subrange(0, i as int) == b@.subrange(0, i as int),
        decreases n - i,
    {
        if a.get_char(i) != b.get_char(i) {
            return false;
        }
        proof {
            assert(a@.subrange(0, i + 1) =~= a@.subrange(0, i as int).push(a@[i as int]));
            assert(b@.subrange(0, i + 1) =~= b@.subrange(0, i as int).push(b@[i as int]));
        }
        i = i + 1;
    }
    proof {
        assert(a@ =~= a@.subrange(0, n as int));
        assert(b@ =~= b@.subrange(0, n as int));
    }
    true
}

/// Whether an element with this tag starts a new paragraph.
pub fn is_block_tag(tag: &str) -> (r: bool)
    ensures
        r == block_tag(tag@),
{
    same_text(tag, "h1") || same_text(tag, "p") || same_text(tag, "br") || same_text(tag, "main")
        || same_text(tag, "div") || same_text(tag, "html") || same_text(tag, "body")
}

/// Whether a node, as a child, starts a new paragraph.
pub fn is_block(node: &MarkupNode) -> (r: bool)
    ensures
        r == block_node(*node),
{
    match node {
        MarkupNode::Element(tag, _) => is_block_tag(tag.as_str()),
        _ => false,
    }
}

/// The style that the children of an element with this tag inherit.
pub fn style_for_tag(tag: &str, style: Style) -> (r: Style)
    ensures
        r == tag_style(tag@, style),
{
    if same_text(tag, "h1") {
        style.add_modifier(BOLD).add_modifier(UNDERLINED)
    } else if same_text(tag, "b") || same_text(tag, "strong") {
        style.add_modifier(BOLD)
    } else if same_text(tag, "em") {
        style.add_modifier(ITALIC)
    } else if same_text(tag, "a") {
        style.add_modifier(UNDERLINED).fg(Color::Blue)
    } else {
        style
    }
}

/// Lays a markup tree out as a styled document, its text drawn in
/// `parent_style` or in what the enclosing tags make of it.
pub fn dom_to_ratatui(node: &MarkupNode, parent_style: Style) -> (r: Text)
    ensures
        r@ == layout(*node, parent_style),
    decreases node,
{
    match node {
        MarkupNode::Text(s) => {
            let mut text = Text::new();
            text.push_line(Line::from_span(Span::styled(s.clone(), parent_style)));
            proof {
                assert(text@ =~= seq![seq![(s@, parent_style)]]);
            }
            text
        },
        MarkupNode::Element(tag, children) => {
            if same_text(tag.as_str(), "style") {
                return Text::new();
            }
            let style = style_for_tag(tag.as_str(), parent_style);
            let mut text = Text::new();
            let mut i: usize = 0;
            while i < children.len()
                invariant
                    i <= children@.len(),
                    text@ == layout_children(children@, style, i as nat),
                    *node == MarkupNode::Element(*tag, *children),
                decreases children@.len() - i,
            {
                let child = &children[i];
                proof {
                    assert(decreases_to!(*node => node->Element_1));
                    assert(decreases_to!(*children => children[i as int]));
                }
                let block = is_block(child);
                let child_text = dom_to_ratatui(child, style);
                if !child_text.is_empty() {
                    if block {
                        text.push_line(Line::new());
                        text.append_lines(child_text);
                    } else {
                        text.append_spans_of(&child_text);
                    }
                }
                i = i + 1;
            }
            text
        },
        MarkupNode::Document(children) => {
            let mut text = Text::new();
            let mut i: usize = 0;
            while i < children.len()
                invariant
                    i <= children@.len(),
                    text@ == layout_document(children@, parent_style, i as nat),
                    *node == MarkupNode::Document(*children),
                decreases children@.len() - i,
            {
                proof {
                    assert(decreases_to!(*node => node->Document_0));
                    assert(decreases_to!(*children => children[i as int]));
                }
                let child_text = dom_to_ratatui(&children[i], parent_style);
                text.append_lines(child_text);
                i = i + 1;
            }
            text
        },
        MarkupNode::Other => {
            let mut text = Text::new();
            text.push_line(Line::from_span(Span::styled(String::from_str("Could not read"), Style::new())));
            proof {
                assert(text@ =~= placeholder());
            }
            text
        },
    }
}

/// Layout is a function of the tree and the style alone: equal trees laid
/// out in equal styles give equal documents.
pub proof fn lemma_layout_deterministic(t1: MarkupNode, t2: MarkupNode, s1: Style, s2: Style)
    requires
        t1 == t2,
        s1 == s2,
    ensures
        layout(t1, s1) == layout(t2, s2),
{
}

/// Children that lay out to nothing leave nothing behind: an element whose
/// first `n` children all have empty documents gets no line from them, not
/// even a blank separator.
pub proof fn lemma_empty_children_collapse(children: Seq<MarkupNode>, style: Style, n: nat)
    requires
        n <= children.len(),
        forall|i: int| 0 <= i < n ==> #[trigger] layout(children[i], style).len() == 0,
    ensures
        layout_children(children, style, n).len() == 0,
    decreases n,
{
    if n > 0 {
        lemma_empty_children_collapse(children, style, (n - 1) as nat);
        assert(layout(children[n - 1], style).len() == 0);
    }
}

/// Tags compose styles: the style an element passes on keeps every modifier
/// of the style it inherited.
pub proof fn lemma_tag_style_keeps_modifiers(tag: Seq<char>, style: Style, m: u16)
    requires
        style.has_modifier(m),
    ensures
        tag_style(tag, style).has_modifier(m),
{
    lemma_add_modifier_keeps(style, BOLD, m);
    lemma_add_modifier_keeps(style, ITALIC, m);
    lemma_add_modifier_keeps(style, UNDERLINED, m);
    lemma_add_modifier_keeps(style.with_modifier(BOLD), UNDERLINED, m);
    lemma_add_modifier_keeps(style.with_modifier(BOLD), UNDERLINED, BOLD);
    lemma_add_modifier_keeps(style.with_modifier(BOLD), BOLD, m);
}

/// The style a whole post is laid out in: red text.
pub fn post_style() -> (r: Style)
    ensures
        r == root_style(),
{
    Style::new().fg(Color::Red)
}

/// The parser's tree node, carried through opaquely.
#[verifier::external_type_specification]
#[verifier::external_body]
pub struct ExDomNode(markup5ever_rcdom::Node);

/// The tree that the HTML parser builds from these bytes.
pub uninterp spec fn parsed_markup(html: Seq<u8>) -> MarkupNode;

/// Relies on html5ever::parse_document into a markup5ever_rcdom::RcDom: the
/// HTML parser's document tree for the bytes (read as UTF-8, invalid
/// sequences replaced), which depends on the bytes alone.
#[verifier::external_body]
fn parse_markup(html: &[u8]) -> (r: MarkupNode)
    ensures
        r == parsed_markup(html@),
{
    let sink = markup5ever_rcdom::RcDom::default();
    let dom = html5ever::parse_document(sink, Default::default()).from_utf8().one(html);
    markup_of_handle(&dom.document)
}

/// The conversion half of `parse_markup`, relying on markup5ever_rcdom's
/// Node: copies a node of the parser's tree one for one into a MarkupNode
/// (text, element with its local tag name, document root, anything else as
/// `Other`), children in order. It states nothing of its own: the contract
/// of `parse_markup` covers the whole tree.
#[verifier::external_body]
fn markup_of_handle(h: &markup5ever_rcdom::Handle) -> MarkupNode {
    match &h.data {
        markup5ever_rcdom::NodeData::Text { contents } => MarkupNode::Text(contents.borrow().to_string()),
        markup5ever_rcdom::NodeData::Element { name, .. } => MarkupNode::Element(
            name.local.to_string(),
            h.children.borrow().iter().map(markup_of_handle).collect(),
        ),
        markup5ever_rcdom::NodeData::Document => MarkupNode::Document(
            h.children.borrow().iter().map(markup_of_handle).collect(),
        ),
        _ => MarkupNode::Other,
    }
}

/// Parses post HTML and lays it out in the post style.
pub fn html_to_ratatui(html: &[u8]) -> (r: Text)
    ensures
        r@ == layout(parsed_markup(html@), root_style()),
{
    let tree = parse_markup(html);
    dom_to_ratatui(&tree, post_style())
}

} // verus!
