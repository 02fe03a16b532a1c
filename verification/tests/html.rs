use email_irc_bridge::html::{
    extract_html_body, is_parsable, parse_document, DomNode, DomTree, MAX_DEPTH, MAX_HTML_TAGS,
};

fn element(first_child: Option<usize>, last_child: Option<usize>, next: Option<usize>) -> DomNode {
    DomNode { first_child, last_child, next, text: None }
}

fn text(content: &str, next: Option<usize>) -> DomNode {
    DomNode { first_child: None, last_child: None, next, text: Some(content.to_string()) }
}

// html(0) > [head(1), body(2)]; body > [text " "(3), span(4), br(6)]; span > [text "42"(5)]
fn sample_nodes() -> Vec<DomNode> {
    vec![
        element(Some(1), Some(2), None),
        element(None, None, Some(2)),
        element(Some(3), Some(6), None),
        text(" ", Some(4)),
        element(Some(5), Some(5), Some(6)),
        text("42", None),
        element(None, None, None),
    ]
}

#[test]
fn body_text_follows_the_fixed_path() {
    let tree = DomTree::from_nodes(sample_nodes()).unwrap();
    assert_eq!(tree.len(), 7);
    assert_eq!(tree.body_text(), Some("42".to_string()));
}

#[test]
fn flat_text_is_in_document_order() {
    // div(0) > [text "a"(1), b(2) > [text "b"(3), i(4) > [text "c"(5)]], text "d"(6)]
    let nodes = vec![
        element(Some(1), Some(6), None),
        text("a", Some(2)),
        element(Some(3), Some(4), Some(6)),
        text("b", Some(4)),
        element(Some(5), Some(5), None),
        text("c", None),
        text("d", None),
    ];
    let tree = DomTree::from_nodes(nodes).unwrap();
    assert_eq!(tree.flat_text(0), Some("abcd".to_string()));
    assert_eq!(tree.flat_text(2), Some("bc".to_string()));
    assert_eq!(tree.flat_text(6), Some("d".to_string()));
    assert_eq!(tree.flat_text(4), Some("c".to_string()));
    assert_eq!(tree.flat_text(1), Some("a".to_string()));
}

#[test]
fn body_text_of_an_element_is_flattened() {
    // root(0) > [a(1)]; a > [x(2), y(3)]; y > [z(4)]; z > [text "p"(5), q(6) > [text "r"(7)]]
    let nodes = vec![
        element(Some(1), Some(1), None),
        element(Some(2), Some(3), None),
        element(None, None, Some(3)),
        element(Some(4), Some(4), None),
        element(Some(5), Some(6), None),
        text("p", Some(6)),
        element(Some(7), Some(7), None),
        text("r", None),
    ];
    let tree = DomTree::from_nodes(nodes).unwrap();
    assert_eq!(tree.body_text(), Some("pr".to_string()));
}

#[test]
fn body_text_breaks_at_each_step() {
    assert_eq!(DomTree::from_nodes(vec![]).unwrap().body_text(), None);
    // No last child on the first node.
    assert_eq!(DomTree::from_nodes(vec![element(None, None, None)]).unwrap().body_text(), None);
    // The last child has no child.
    let nodes = vec![element(Some(1), Some(1), None), element(None, None, None)];
    assert_eq!(DomTree::from_nodes(nodes).unwrap().body_text(), None);
    // Its first child has no next sibling.
    let nodes = vec![
        element(Some(1), Some(1), None),
        element(Some(2), Some(2), None),
        text("only", None),
    ];
    assert_eq!(DomTree::from_nodes(nodes).unwrap().body_text(), None);
    // The sibling has no child.
    let nodes = vec![
        element(Some(1), Some(1), None),
        element(Some(2), Some(3), None),
        text(" ", Some(3)),
        text("sibling", None),
    ];
    assert_eq!(DomTree::from_nodes(nodes).unwrap().body_text(), None);
}

#[test]
fn body_text_may_be_empty() {
    let nodes = vec![
        element(Some(1), Some(1), None),
        element(Some(2), Some(3), None),
        text(" ", Some(3)),
        element(Some(4), Some(4), None),
        element(None, None, None),
    ];
    assert_eq!(DomTree::from_nodes(nodes).unwrap().body_text(), Some(String::new()));
}

#[test]
fn from_nodes_rejects_links_that_do_not_point_forward() {
    assert!(DomTree::from_nodes(vec![element(Some(0), None, None)]).is_none());
    assert!(DomTree::from_nodes(vec![element(None, Some(0), None)]).is_none());
    assert!(DomTree::from_nodes(vec![element(None, None, Some(0))]).is_none());
    assert!(DomTree::from_nodes(vec![element(Some(1), None, None)]).is_none());
    assert!(DomTree::from_nodes(vec![element(None, None, Some(7))]).is_none());
    let backward = vec![element(Some(1), Some(1), None), element(None, None, Some(0))];
    assert!(DomTree::from_nodes(backward).is_none());
    let cycle = vec![element(Some(1), Some(1), None), text("x", Some(1))];
    assert!(DomTree::from_nodes(cycle).is_none());
    assert!(DomTree::from_nodes(sample_nodes()).is_some());
    assert!(DomTree::from_nodes(vec![]).is_some());
}

#[test]
fn parse_document_builds_the_table() {
    let tree = parse_document("<html><head></head><body><p>hi</p></body></html>").unwrap();
    // html, head, body, p, text
    assert_eq!(tree.len(), 5);
    assert_eq!(tree.flat_text(0), Some("hi".to_string()));
    assert_eq!(parse_document("").unwrap().len(), 3);
}

#[test]
fn extract_html_body_reads_the_message() {
    let html = "<html x-block=\"true\"> \r\n <head x-block=\"true\"></head> \r\n <body x-block=\"true\"> <span style=\"font-family:sans-serif\">42</span> \r\n  <br>  \r\n </body>\r\n</html>";
    assert_eq!(extract_html_body(html), Some("42".to_string()));
    assert_eq!(
        extract_html_body("<html><head></head><body> <span>body :)</span></body></html>"),
        Some("body :)".to_string())
    );
    assert_eq!(
        extract_html_body("<html><head></head><body> <span>&lt;caf&eacute;&gt; &amp; \u{1f600}</span></body></html>"),
        Some("<caf\u{e9}> & \u{1f600}".to_string())
    );
}

#[test]
fn extract_html_body_without_the_path() {
    assert_eq!(extract_html_body(""), None);
    assert_eq!(extract_html_body("plain text"), None);
    assert_eq!(extract_html_body("<html><head></head><body><span>42</span></body></html>"), None);
    assert_eq!(extract_html_body("<html><head></head><body> <br></body></html>"), None);
}

#[test]
fn input_is_parsable_up_to_the_tag_limit() {
    assert_eq!(MAX_HTML_TAGS, 332);
    assert!(is_parsable(""));
    assert!(is_parsable("no markup at all"));
    assert!(is_parsable(&"<br>".repeat(332)));
    assert!(!is_parsable(&"<br>".repeat(333)));
    assert!(is_parsable(&"<B>".repeat(332)));
    assert!(!is_parsable(&"<Z>".repeat(333)));
    assert!(is_parsable(&format!("{}{}", "x".repeat(100_000), "<i>".repeat(332))));
    assert!(!is_parsable(&format!("{}{}", "<i>".repeat(333), "x".repeat(100_000))));
    assert!(is_parsable(&"\u{e9}\u{1f600}>".repeat(1000)));
}

#[test]
fn only_tag_openers_count() {
    assert!(is_parsable(&"<".repeat(10_000)));
    assert!(is_parsable(&"a < b ".repeat(10_000)));
    assert!(is_parsable(&"</p>".repeat(10_000)));
    assert!(is_parsable(&"<!-- note -->".repeat(10_000)));
    assert!(is_parsable(&"<1><?x><@><[>".repeat(10_000)));
    assert!(is_parsable(&format!("{}{}", "<b>x</b>".repeat(332), "</i><!--c--> 1 < 2 ".repeat(1000))));
    assert!(!is_parsable(&format!("{}<a", "<b>x</b>".repeat(332))));
    assert!(is_parsable(&format!("{}<", "<b>x</b>".repeat(332))));
}

#[test]
fn deepest_admitted_nesting_is_parsed() {
    let divs = "<div>".repeat(332);
    assert_eq!(parse_document(&divs).unwrap().len(), 3 + 332);
    let cells = "<table><td>".repeat(166);
    assert_eq!(parse_document(&cells).unwrap().len(), 3 + 166 * 4);
    let marked = format!("<html><head></head><body> <b>{}deep{}</b></body></html>", "<i>".repeat(300), "</i>".repeat(300));
    assert_eq!(extract_html_body(&marked), Some("deep".to_string()));
}

#[test]
fn input_beyond_the_tag_limit_is_not_parsed() {
    assert!(parse_document(&"<div>".repeat(333)).is_none());
    assert!(parse_document(&"<div>".repeat(100_000)).is_none());
    let wide = format!("<html><head></head><body> <b>x</b>{}</body></html>", "<br>".repeat(329));
    assert_eq!(extract_html_body(&wide), None);
    let lean = format!("<html><head></head><body> <b>x</b>{}</body></html>", "<br>".repeat(328));
    assert_eq!(extract_html_body(&lean), Some("x".to_string()));
}

#[test]
fn markup_rich_in_end_tags_and_comments_is_parsed() {
    let html = format!(
        "<html><head></head><body> <b>x</b>{}</body></html>",
        "<p>line</p><!-- c --></span></div>".repeat(300)
    );
    assert_eq!(extract_html_body(&html), Some("x".to_string()));
}

// root(0) > a(1) > [text " "(2), c(3)]; c > d(4); below d a chain of `levels`
// elements, each the only child of the one before, ending in the text "deep".
fn chain_below_body(levels: usize) -> Vec<DomNode> {
    let mut nodes = vec![
        element(Some(1), Some(1), None),
        element(Some(2), Some(3), None),
        text(" ", Some(3)),
        element(Some(4), Some(4), None),
    ];
    for k in 0..levels {
        let child = 4 + k + 1;
        nodes.push(element(Some(child), Some(child), None));
    }
    nodes.push(text("deep", None));
    nodes
}

#[test]
fn text_is_gathered_down_to_the_depth_limit() {
    assert_eq!(MAX_DEPTH, 512);
    let tree = DomTree::from_nodes(chain_below_body(0)).unwrap();
    assert_eq!(tree.body_text(), Some("deep".to_string()));
    let tree = DomTree::from_nodes(chain_below_body(511)).unwrap();
    assert_eq!(tree.body_text(), Some("deep".to_string()));
    let tree = DomTree::from_nodes(chain_below_body(512)).unwrap();
    assert_eq!(tree.body_text(), Some("deep".to_string()));
    assert_eq!(tree.flat_text(4), Some("deep".to_string()));
    assert_eq!(tree.flat_text(3), None);
}

#[test]
fn text_below_the_depth_limit_gives_no_body() {
    let tree = DomTree::from_nodes(chain_below_body(513)).unwrap();
    assert_eq!(tree.body_text(), None);
    assert_eq!(tree.flat_text(4), None);
    assert_eq!(tree.flat_text(5), Some("deep".to_string()));
    let tree = DomTree::from_nodes(chain_below_body(300_000)).unwrap();
    assert_eq!(tree.len(), 300_005);
    assert_eq!(tree.body_text(), None);
    assert_eq!(tree.flat_text(300_004), Some("deep".to_string()));
}

#[test]
fn long_rows_of_siblings_are_gathered_whole() {
    // d(4) has 100000 text children in a row: one level, however long.
    let mut nodes = vec![
        element(Some(1), Some(1), None),
        element(Some(2), Some(3), None),
        text(" ", Some(3)),
        element(Some(4), Some(4), None),
        element(Some(5), Some(100_004), None),
    ];
    for k in 0..100_000usize {
        let next = if k + 1 < 100_000 { Some(5 + k + 1) } else { None };
        nodes.push(text("x", next));
    }
    let tree = DomTree::from_nodes(nodes).unwrap();
    assert_eq!(tree.body_text(), Some("x".repeat(100_000)));
}
