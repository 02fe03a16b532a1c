//! The HTML part of an email: a parsed document as a flat table of nodes, and
//! the walk that picks the message text out of it.
//!
//! Parsing is done by the `select` crate (on top of `html5ever`). Its
//! document is an arena in which every node names its children and siblings
//! by index. [`DomTree`] holds the part of that arena the walk reads.
//!
//! Both the parser and the walk go one call deeper for each level of
//! nesting. So the parser is given bounded input only ([`parsable`]), and
//! the walk gathers text down to a fixed depth ([`MAX_DEPTH`]).

use vstd::prelude::*;
use vstd::string::StringExecFns;
use vstd::string::StringSliceAdditionalSpecFns;

verus! {

/// One node of a parsed document. Links are indices into the node table.
#[derive(Clone, Debug, PartialEq, Eq)]
pub struct DomNode {
    /// The first child, if the node has children.
    pub first_child: Option<usize>,
    /// The last child, if the node has children.
    pub last_child: Option<usize>,
    /// The next sibling.
    pub next: Option<usize>,
    /// The characters of a text node; `None` for elements and comments.
    pub text: Option<String>,
}

/// The mathematical content of a [`DomNode`].
pub struct NodeView {
    pub first_child: Option<usize>,
    pub last_child: Option<usize>,
    pub next: Option<usize>,
    pub text: Option<Seq<char>>,
}

impl View for DomNode {
    type V = NodeView;

    open spec fn view(&self) -> NodeView {
        NodeView {
            first_child: self.first_child,
            last_child: self.last_child,
            next: self.next,
            text: match self.text {
                Some(t) => Some(t@),
                None => None,
            },
        }
    }
}

/// The views of a table of nodes, position by position.
pub open spec fn nodes_view(nodes: Seq<DomNode>) -> Seq<NodeView> {
    Seq::new(nodes.len(), |i: int| nodes[i]@)
}

/// A link out of node `at` is usable when it is absent or points to a later
/// node of the table.
pub open spec fn link_ok(link: Option<usize>, at: int, len: int) -> bool {
    link matches Some(j) ==> at < j < len
}

/// Every link of every node points forward and inside the table. A parsed
/// document has this shape, because a node is stored before its children
/// and before its later siblings; it makes every walk terminate.
pub open spec fn well_formed(nodes: Seq<NodeView>) -> bool {
    forall|i: int|
        0 <= i < nodes.len() ==> {
            &&& link_ok((#[trigger] nodes[i]).first_child, i, nodes.len() as int)
            &&& link_ok(nodes[i].last_child, i, nodes.len() as int)
            &&& link_ok(nodes[i].next, i, nodes.len() as int)
        }
}

/// Where a link leads: the node it names if that lies after `at` and inside
/// the table, and otherwise the table's length, which is no node.
pub open spec fn follow(link: Option<usize>, at: int, len: int) -> int {
    match link {
        Some(j) => if at < j < len {
            j as int
        } else {
            len
        },
        None => len,
    }
}

/// The characters that node `i` itself carries.
pub open spec fn own_text(node: NodeView) -> Seq<char> {
    match node.text {
        Some(t) => t,
        None => Seq::empty(),
    }
}

/// The text of node `i` and of everything below it, in document order.
pub open spec fn flat_text(nodes: Seq<NodeView>, i: int) -> Seq<char>
    decreases nodes.len() - i, 0nat,
{
    if 0 <= i < nodes.len() {
        own_text(nodes[i]) + chain_text(
            nodes,
            follow(nodes[i].first_child, i, nodes.len() as int),
        )
    } else {
        Seq::empty()
    }
}

/// The text of node `j` and of all the siblings that follow it.
pub open spec fn chain_text(nodes: Seq<NodeView>, j: int) -> Seq<char>
    decreases nodes.len() - j, 1nat,
{
    if 0 <= j < nodes.len() {
        flat_text(nodes, j) + chain_text(nodes, follow(nodes[j].next, j, nodes.len() as int))
    } else {
        Seq::empty()
    }
}

/// How many levels below a node its text is gathered. Gathering descends one
/// call per level, and this many calls fit any stack.
pub const MAX_DEPTH: usize = 512;

/// The text of node `i` and of everything below it, as [`flat_text`], if
/// nothing lies more than `budget` levels below the node; `None` otherwise.
pub open spec fn flat_within(nodes: Seq<NodeView>, i: int, budget: nat) -> Option<Seq<char>>
    decreases budget, nodes.len() - i, 0nat,
{
    if 0 <= i < nodes.len() {
        let child = follow(nodes[i].first_child, i, nodes.len() as int);
        if child >= nodes.len() {
            Some(own_text(nodes[i]))
        } else if budget == 0 {
            None
        } else {
            match chain_within(nodes, child, (budget - 1) as nat) {
                Some(below) => Some(own_text(nodes[i]) + below),
                None => None,
            }
        }
    } else {
        Some(Seq::empty())
    }
}

/// The text of node `j` and of all the siblings that follow it, as
/// [`chain_text`], if nothing lies more than `budget` levels below them.
pub open spec fn chain_within(nodes: Seq<NodeView>, j: int, budget: nat) -> Option<Seq<char>>
    decreases budget, nodes.len() - j, 1nat,
{
    if 0 <= j < nodes.len() {
        match flat_within(nodes, j, budget) {
            Some(first) => match chain_within(
                nodes,
                follow(nodes[j].next, j, nodes.len() as int),
                budget,
            ) {
                Some(rest) => Some(first + rest),
                None => None,
            },
            None => None,
        }
    } else {
        Some(Seq::empty())
    }
}

/// Text gathered within a budget is the flattened text.
pub proof fn lemma_flat_within(nodes: Seq<NodeView>, i: int, budget: nat)
    ensures
        flat_within(nodes, i, budget) matches Some(text) ==> text == flat_text(nodes, i),
    decreases budget, nodes.len() - i, 0nat,
{
    if 0 <= i < nodes.len() {
        let child = follow(nodes[i].first_child, i, nodes.len() as int);
        if child >= nodes.len() {
            assert(chain_text(nodes, child) == Seq::<char>::empty());
            assert(own_text(nodes[i]) + Seq::<char>::empty() =~= own_text(nodes[i]));
        } else if budget > 0 {
            lemma_chain_within(nodes, child, (budget - 1) as nat);
        }
    }
}

/// Text of a chain gathered within a budget is the text of the chain.
pub proof fn lemma_chain_within(nodes: Seq<NodeView>, j: int, budget: nat)
    ensures
        chain_within(nodes, j, budget) matches Some(text) ==> text == chain_text(nodes, j),
    decreases budget, nodes.len() - j, 1nat,
{
    if 0 <= j < nodes.len() {
        lemma_flat_within(nodes, j, budget);
        lemma_chain_within(nodes, follow(nodes[j].next, j, nodes.len() as int), budget);
    }
}

/// The node whose text is the message: from the first node of the table, its
/// last child, that node's first child, that node's next sibling, and that
/// node's first child. `None` where a step of the path has no node.
pub open spec fn body_node(nodes: Seq<NodeView>) -> Option<int> {
    if nodes.len() == 0 {
        None
    } else {
        match nodes[0].last_child {
            None => None,
            Some(a) => match nodes[a as int].first_child {
                None => None,
                Some(b) => match nodes[b as int].next {
                    None => None,
                    Some(c) => match nodes[c as int].first_child {
                        None => None,
                        Some(d) => Some(d as int),
                    },
                },
            },
        }
    }
}

/// The message text of a well-formed document: the flattened text of its
/// [`body_node`], absent where the path breaks or the text lies more than
/// [`MAX_DEPTH`] levels below that node.
pub open spec fn body_text(nodes: Seq<NodeView>) -> Option<Seq<char>> {
    match body_node(nodes) {
        Some(d) => flat_within(nodes, d, MAX_DEPTH as nat),
        None => None,
    }
}

/// A message text is the flattened text of the body node.
pub proof fn lemma_body_text(nodes: Seq<NodeView>)
    ensures
        body_text(nodes) matches Some(text) ==> body_node(nodes) matches Some(d) && text
            == flat_text(nodes, d),
{
    if let Some(d) = body_node(nodes) {
        lemma_flat_within(nodes, d, MAX_DEPTH as nat);
    }
}

/// A parsed document whose links all point forward.
pub struct DomTree {
    nodes: Vec<DomNode>,
}

impl View for DomTree {
    type V = Seq<NodeView>;

    closed spec fn view(&self) -> Seq<NodeView> {
        nodes_view(self.nodes@)
    }
}

/// Whether one link of the node at `at` is usable in a table of `len` nodes.
fn check_link(link: Option<usize>, at: usize, len: usize) -> (r: bool)
    ensures
        r == link_ok(link, at as int, len as int),
{
    match link {
        Some(j) => at < j && j < len,
        None => true,
    }
}

impl DomTree {
    #[verifier::type_invariant]
    spec fn inv(self) -> bool {
        well_formed(nodes_view(self.nodes@))
    }

    /// Takes a table of nodes as a document, if all its links point forward.
    pub fn from_nodes(nodes: Vec<DomNode>) -> (r: Option<DomTree>)
        ensures
            r is Some <==> well_formed(nodes_view(nodes@)),
            r matches Some(t) ==> t@ == nodes_view(nodes@),
    {
        let len: usize = nodes.len();
        let mut i: usize = 0;
        while i < len
            invariant
                len == nodes.len(),
                i <= len,
                forall|k: int|
                    0 <= k < i ==> {
                        &&& link_ok((#[trigger] nodes_view(nodes@)[k]).first_child, k, len as int)
                        &&& link_ok(nodes_view(nodes@)[k].last_child, k, len as int)
                        &&& link_ok(nodes_view(nodes@)[k].next, k, len as int)
                    },
            decreases len - i,
        {
            let ok = check_link(nodes[i].first_child, i, len) && check_link(
                nodes[i].last_child,
                i,
                len,
            ) && check_link(nodes[i].next, i, len);
            if !ok {
                assert(nodes_view(nodes@)[i as int] == nodes@[i as int]@);
                return None;
            }
            assert(nodes_view(nodes@)[i as int] == nodes@[i as int]@);
            i += 1;
        }
        Some(DomTree { nodes })
    }

    /// The number of nodes.
    pub fn len(&self) -> (n: usize)
        ensures
            n == self@.len(),
    {
        self.nodes.len()
    }

    /// Appends to `out` the text of node `i` and of everything below it,
    /// descending `budget` levels at most. Returns whether that was enough;
    /// where it was not, what `out` holds is of no use.
    fn push_within(&self, i: usize, budget: usize, out: &mut String) -> (complete: bool)
        requires
            i < self@.len(),
        ensures
            complete == flat_within(self@, i as int, budget as nat) is Some,
            complete ==> final(out)@ == old(out)@ + flat_within(
                self@,
                i as int,
                budget as nat,
            )->0,
        decreases budget, self@.len() - i,
    {
        proof {
            use_type_invariant(self);
        }
        let ghost nodes = self@;
        let ghost len = nodes.len() as int;
        assert(nodes[i as int] == self.nodes@[i as int]@);
        match &self.nodes[i].text {
            Some(t) => {
                out.append(t.as_str());
            },
            None => {},
        }
        let first: Option<usize> = self.nodes[i].first_child;
        if first.is_none() {
            return true;
        }
        if budget == 0 {
            return false;
        }
        let below: usize = budget - 1;
        let ghost own = own_text(nodes[i as int]);
        let ghost total = chain_within(nodes, follow(first, i as int, len), below as nat);
        let mut cur: Option<usize> = first;
        let ghost mut at: int = i as int;
        let ghost whole = flat_within(nodes, i as int, budget as nat);
        assert(total matches Some(t) ==> out@ + t == old(out)@ + (own + t));
        assert(whole is Some == total is Some);
        assert(total matches Some(t) ==> whole == Some(own + t));
        while cur.is_some()
            invariant
                nodes == self@,
                len == nodes.len(),
                i <= at < len,
                below + 1 == budget,
                whole == flat_within(nodes, i as int, budget as nat),
                whole is Some == total is Some,
                total matches Some(t) ==> whole == Some(own + t),
                link_ok(cur, at, len),
                well_formed(nodes),
                total is Some <==> chain_within(nodes, follow(cur, at, len), below as nat) is Some,
                total is Some ==> out@ + chain_within(nodes, follow(cur, at, len), below as nat)->0
                    == old(out)@ + (own + total->0),
            decreases len - at,
        {
            let j: usize = cur.unwrap();
            let ghost before = out@;
            let complete = self.push_within(j, below, out);
            if !complete {
                assert(chain_within(nodes, j as int, below as nat) is None);
                return false;
            }
            assert(nodes[j as int] == self.nodes@[j as int]@);
            let next: Option<usize> = self.nodes[j].next;
            proof {
                let one = flat_within(nodes, j as int, below as nat)->0;
                let rest = chain_within(nodes, follow(next, j as int, len), below as nat);
                if let Some(r) = rest {
                    assert(chain_within(nodes, j as int, below as nat) == Some(one + r));
                    assert(out@ + r == before + (one + r));
                }
                at = j as int;
            }
            cur = next;
        }
        assert(chain_within(nodes, follow(cur, at, len), below as nat) == Some(
            Seq::<char>::empty(),
        ));
        assert(out@ + Seq::<char>::empty() == out@);
        true
    }

    /// The text of node `i` and of everything below it, in document order;
    /// `None` where some of it lies more than [`MAX_DEPTH`] levels below.
    pub fn flat_text(&self, i: usize) -> (r: Option<String>)
        requires
            i < self@.len(),
        ensures
            crate::text::opt_text(r) == flat_within(self@, i as int, MAX_DEPTH as nat),
            r matches Some(text) ==> text@ == flat_text(self@, i as int),
    {
        proof {
            lemma_flat_within(self@, i as int, MAX_DEPTH as nat);
        }
        let mut out = String::new();
        if self.push_within(i, MAX_DEPTH, &mut out) {
            assert(Seq::<char>::empty() + flat_within(self@, i as int, MAX_DEPTH as nat)->0
                == flat_within(self@, i as int, MAX_DEPTH as nat)->0);
            Some(out)
        } else {
            None
        }
    }

    /// The message text of the document.
    pub fn body_text(&self) -> (r: Option<String>)
        ensures
            crate::text::opt_text(r) == body_text(self@),
    {
        proof {
            use_type_invariant(self);
        }
        let ghost nodes = self@;
        if self.nodes.len() == 0 {
            return None;
        }
        assert(nodes[0] == self.nodes@[0]@);
        let a: usize = match self.nodes[0].last_child {
            Some(a) => a,
            None => {
                return None;
            },
        };
        assert(nodes[a as int] == self.nodes@[a as int]@);
        let b: usize = match self.nodes[a].first_child {
            Some(b) => b,
            None => {
                return None;
            },
        };
        assert(nodes[b as int] == self.nodes@[b as int]@);
        let c: usize = match self.nodes[b].next {
            Some(c) => c,
            None => {
                return None;
            },
        };
        assert(nodes[c as int] == self.nodes@[c as int]@);
        let d: usize = match self.nodes[c].first_child {
            Some(d) => d,
            None => {
                return None;
            },
        };
        self.flat_text(d)
    }
}

/// The node table that the `select` crate builds for `html`, each node
/// reduced to its links and its text.
pub uninterp spec fn html_nodes(html: Seq<char>) -> Seq<NodeView>;

/// The longest input, in bytes, that is handed to the parser. The parser
/// keeps text in buffers whose size it rounds up to a power of two and counts
/// in 32 bits, and it panics where that overflows. The text it builds can be
/// three times as long as its input, since one byte of input can turn into a
/// three-byte replacement character. Below this length no buffer grows past
/// 2^30 bytes.
pub const MAX_HTML_BYTES: usize = 0x1555_5555;

/// The most tags that input handed to the parser may open. The parser's
/// document is copied out by a function that calls itself once for each
/// level of nesting, and a stack of the usual size holds well over a
/// thousand such levels. Every level but the outermost few is opened by a
/// tag, and one tag opens three levels at most (a table cell brings its row
/// and its row group), so input within this limit nests less than a
/// thousand levels deep.
pub const MAX_HTML_TAGS: usize = 332;

/// The byte `<`.
pub const TAG_OPEN: u8 = 0x3C;

/// Whether `b` is an ASCII letter.
pub open spec fn is_letter(b: u8) -> bool {
    0x41 <= b <= 0x5A || 0x61 <= b <= 0x7A
}

/// Whether a tag opens at position `i`: a `<` stands there and a letter
/// follows it. A `<` before anything else opens no element: it starts an end
/// tag, a comment or a declaration, or is plain text.
pub open spec fn opens_tag(bytes: Seq<u8>, i: int) -> bool {
    0 <= i && i + 1 < bytes.len() && bytes[i] == TAG_OPEN && is_letter(bytes[i + 1])
}

/// How many tags open before position `n`.
pub open spec fn tags_opened(bytes: Seq<u8>, n: int) -> nat
    decreases n,
{
    if n <= 0 {
        0
    } else {
        tags_opened(bytes, n - 1) + if opens_tag(bytes, n - 1) {
            1nat
        } else {
            0nat
        }
    }
}

/// No fewer tags open before a later position than before an earlier one.
pub proof fn lemma_tags_opened_grow(bytes: Seq<u8>, i: int, n: int)
    requires
        i <= n,
    ensures
        tags_opened(bytes, i) <= tags_opened(bytes, n),
    decreases n - i,
{
    if i < n {
        lemma_tags_opened_grow(bytes, i, n - 1);
    }
}

/// Whether `html` may be handed to the parser: it is no longer than
/// [`MAX_HTML_BYTES`] and opens no more than [`MAX_HTML_TAGS`] tags.
pub open spec fn parsable(html: Seq<char>) -> bool {
    let bytes = vstd::utf8::encode_utf8(html);
    bytes.len() <= MAX_HTML_BYTES && tags_opened(bytes, bytes.len() as int) <= MAX_HTML_TAGS
}

/// Tests one byte for an ASCII letter.
fn letter(b: u8) -> (r: bool)
    ensures
        r == is_letter(b),
{
    (0x41 <= b && b <= 0x5A) || (0x61 <= b && b <= 0x7A)
}

/// Tests whether `html` may be handed to the parser.
pub fn is_parsable(html: &str) -> (r: bool)
    ensures
        r == parsable(html@),
{
    let bytes = html.as_bytes();
    let len: usize = bytes.len();
    if len > MAX_HTML_BYTES {
        return false;
    }
    let mut count: usize = 0;
    let mut i: usize = 0;
    while i < len
        invariant
            i <= len,
            len == bytes@.len(),
            len <= MAX_HTML_BYTES,
            bytes@ == vstd::utf8::encode_utf8(html@),
            count == tags_opened(bytes@, i as int),
            count <= MAX_HTML_TAGS,
        decreases len - i,
    {
        if bytes[i] == TAG_OPEN && i + 1 < len && letter(bytes[i + 1]) {
            if count == MAX_HTML_TAGS {
                proof {
                    lemma_tags_opened_grow(bytes@, i + 1, len as int);
                }
                return false;
            }
            count += 1;
        }
        i += 1;
    }
    true
}

/// Calls `select::document::Document::from` on `html` and copies from each
/// node of the document's table its `first_child`, `last_child` and `next`
/// links and, for a text node, its characters.
///
/// Trusted: the table returned is the one that [`html_nodes`] names. The
/// call is made only on input that is [`parsable`]: on longer input the
/// parser's buffers overflow, and on input that opens more tags the copying
/// of its document can run out of stack.
#[verifier::external_body]
fn parse_nodes(html: &str) -> (r: Vec<DomNode>)
    requires
        parsable(html@),
    ensures
        nodes_view(r@) == html_nodes(html@),
{
    select::document::Document::from(html).nodes.into_iter().map(
        |raw| DomNode {
            first_child: raw.first_child,
            last_child: raw.last_child,
            next: raw.next,
            text: match raw.data {
                select::node::Data::Text(t) => Some(String::from(t)),
                select::node::Data::Element(_, _) => None,
                select::node::Data::Comment(_) => None,
            },
        },
    ).collect()
}

/// The document that `html` parses to, where it has one: the input may be
/// handed to the parser and every link of the table points forward.
pub open spec fn parsed_document(html: Seq<char>) -> Option<Seq<NodeView>> {
    if parsable(html) && well_formed(html_nodes(html)) {
        Some(html_nodes(html))
    } else {
        None
    }
}

/// The message text that the HTML text `html` carries, if any.
pub open spec fn html_body(html: Seq<char>) -> Option<Seq<char>> {
    match parsed_document(html) {
        Some(nodes) => body_text(nodes),
        None => None,
    }
}

/// Parses `html` into a document.
pub fn parse_document(html: &str) -> (r: Option<DomTree>)
    ensures
        r is Some <==> parsed_document(html@) is Some,
        r matches Some(t) ==> Some(t@) == parsed_document(html@),
{
    if !is_parsable(html) {
        return None;
    }
    DomTree::from_nodes(parse_nodes(html))
}

/// Parses `html` and picks the message text out of the document.
pub fn extract_html_body(html: &str) -> (r: Option<String>)
    ensures
        crate::text::opt_text(r) == html_body(html@),
{
    match parse_document(html) {
        Some(tree) => tree.body_text(),
        None => None,
    }
}

} // verus!
