use russ::markup::{dom_to_ratatui, html_to_ratatui, is_block_tag, same_text, style_for_tag, MarkupNode};
use russ::style::{Color, Style, BOLD, ITALIC, UNDERLINED};
use russ::text::{Line, Span, Text};

fn el(tag: &str, children: Vec<MarkupNode>) -> MarkupNode {
    MarkupNode::Element(tag.to_string(), children)
}

fn txt(s: &str) -> MarkupNode {
    MarkupNode::Text(s.to_string())
}

fn line_text(line: &Line) -> String {
    line.spans.iter().map(|s| s.content.as_str()).collect()
}

fn lines_of(t: &Text) -> Vec<String> {
    t.lines.iter().map(line_text).collect()
}

fn red() -> Style {
    Style::new().fg(Color::Red)
}

#[test]
fn style_child_leaves_no_blank_line() {
    let tree = el("div", vec![el("style", vec![txt("body { color: red }")])]);
    let t = dom_to_ratatui(&tree, red());
    assert_eq!(t.lines.len(), 0);
}

#[test]
fn style_element_alone_is_empty() {
    let t = dom_to_ratatui(&el("style", vec![txt("x")]), Style::new());
    assert!(t.is_empty());
}

#[test]
fn block_siblings_each_follow_a_blank_line() {
    let tree = el("div", vec![el("p", vec![txt("a")]), el("p", vec![txt("b")])]);
    let t = dom_to_ratatui(&tree, red());
    assert_eq!(lines_of(&t), vec!["", "a", "", "b"]);
    assert_eq!(t.lines[0].spans.len(), 0);
    assert_eq!(t.lines[2].spans.len(), 0);
    let non_blank: Vec<String> = lines_of(&t).into_iter().filter(|l| !l.is_empty()).collect();
    assert_eq!(non_blank, vec!["a", "b"]);
}

#[test]
fn inline_siblings_share_one_line() {
    let tree = el("div", vec![el("span", vec![txt("a")]), el("span", vec![txt("b")])]);
    let t = dom_to_ratatui(&tree, red());
    assert_eq!(t.lines.len(), 1);
    assert_eq!(t.lines[0].spans.len(), 2);
    assert_eq!(t.lines[0].spans[0].content, "a");
    assert_eq!(t.lines[0].spans[1].content, "b");
}

#[test]
fn heading_and_emphasis_styles_compose() {
    let tree = el("h1", vec![el("em", vec![txt("x")])]);
    let t = dom_to_ratatui(&tree, red());
    assert_eq!(t.lines.len(), 1);
    assert_eq!(t.lines[0].spans.len(), 1);
    let span = &t.lines[0].spans[0];
    assert_eq!(span.content, "x");
    assert_eq!(span.style.add_modifier & BOLD, BOLD);
    assert_eq!(span.style.add_modifier & UNDERLINED, UNDERLINED);
    assert_eq!(span.style.add_modifier & ITALIC, ITALIC);
    assert_eq!(span.style.add_modifier, BOLD | UNDERLINED | ITALIC);
    assert_eq!(span.style.fg, Some(Color::Red));
}

#[test]
fn layout_is_repeatable() {
    let tree = el("div", vec![el("p", vec![txt("a"), el("b", vec![txt("c")])]), txt("d")]);
    let a = dom_to_ratatui(&tree, red());
    let b = dom_to_ratatui(&tree, red());
    assert_eq!(lines_of(&a), lines_of(&b));
    assert_eq!(a.lines.len(), b.lines.len());
    for (la, lb) in a.lines.iter().zip(b.lines.iter()) {
        assert_eq!(la.spans.len(), lb.spans.len());
        for (sa, sb) in la.spans.iter().zip(lb.spans.iter()) {
            assert_eq!(sa.content, sb.content);
            assert_eq!(sa.style, sb.style);
        }
    }
    let h1 = html_to_ratatui(b"<p>x<em>y</em></p>");
    let h2 = html_to_ratatui(b"<p>x<em>y</em></p>");
    assert_eq!(lines_of(&h1), lines_of(&h2));
}

#[test]
fn text_node_is_one_span_in_parent_style() {
    let t = dom_to_ratatui(&txt("hello"), red());
    assert_eq!(t.lines.len(), 1);
    assert_eq!(t.lines[0].spans.len(), 1);
    assert_eq!(t.lines[0].spans[0].content, "hello");
    assert_eq!(t.lines[0].spans[0].style, red());
}

#[test]
fn unknown_node_shows_placeholder() {
    let t = dom_to_ratatui(&MarkupNode::Other, red());
    assert_eq!(lines_of(&t), vec!["Could not read"]);
    assert_eq!(t.lines[0].spans[0].style, Style::new());
}

#[test]
fn document_root_concatenates_children() {
    let tree = MarkupNode::Document(vec![el("p", vec![txt("a")]), el("p", vec![txt("b")])]);
    let t = dom_to_ratatui(&tree, red());
    assert_eq!(lines_of(&t), vec!["a", "b"]);
}

#[test]
fn inline_child_with_lines_joins_last_line() {
    let tree = el("div", vec![txt("a"), el("span", vec![el("p", vec![txt("b")]), el("p", vec![txt("c")])])]);
    let t = dom_to_ratatui(&tree, red());
    assert_eq!(lines_of(&t), vec!["abc"]);
    assert_eq!(t.lines[0].spans.len(), 3);
}

#[test]
fn link_is_underlined_blue() {
    let t = dom_to_ratatui(&el("a", vec![txt("go")]), red());
    let s = &t.lines[0].spans[0];
    assert_eq!(s.style.fg, Some(Color::Blue));
    assert_eq!(s.style.add_modifier, UNDERLINED);
}

#[test]
fn tag_table_values() {
    let base = Style::new();
    assert_eq!(style_for_tag("b", base).add_modifier, BOLD);
    assert_eq!(style_for_tag("strong", base).add_modifier, BOLD);
    assert_eq!(style_for_tag("em", base).add_modifier, ITALIC);
    assert_eq!(style_for_tag("h1", base).add_modifier, BOLD | UNDERLINED);
    assert_eq!(style_for_tag("span", base), base);
    let off = Style { fg: None, add_modifier: 0, sub_modifier: BOLD | ITALIC };
    assert_eq!(style_for_tag("b", off).sub_modifier, ITALIC);
    assert!(is_block_tag("p"));
    assert!(is_block_tag("body"));
    assert!(!is_block_tag("span"));
    assert!(same_text("div", "div"));
    assert!(!same_text("div", "dig"));
    assert!(!same_text("div", "di"));
}

#[test]
fn parsed_html_lays_out_paragraph() {
    let t = html_to_ratatui(b"<p>World</p>");
    let non_blank: Vec<&Line> = t.lines.iter().filter(|l| !line_text(l).is_empty()).collect();
    assert_eq!(non_blank.len(), 1);
    assert_eq!(line_text(non_blank[0]), "World");
    assert_eq!(non_blank[0].spans[0].style, red());
    assert!(t.lines.len() > 1);
}

#[test]
fn parsed_html_strips_style_blocks() {
    let t = html_to_ratatui(b"<html><head><style>p{}</style></head><body><p>a</p></body></html>");
    let texts: Vec<String> = lines_of(&t).into_iter().filter(|l| !l.is_empty()).collect();
    assert_eq!(texts, vec!["a"]);
}

#[test]
fn text_push_span_makes_first_line() {
    let mut t = Text::new();
    t.push_span(Span::styled("a".to_string(), Style::new()));
    t.push_span(Span::styled("b".to_string(), Style::new()));
    assert_eq!(lines_of(&t), vec!["ab"]);
    t.push_line(Line::new());
    t.push_span(Span::styled("c".to_string(), Style::new()));
    assert_eq!(lines_of(&t), vec!["ab", "c"]);
}
