//! HTML documents as a flat list of nodes in document order, parsed with
//! `html5ever`, and the scan that collects the contents of `<script>`
//! elements.

use vstd::prelude::*;
use html5ever::tendril::TendrilSink;
use markup5ever_rcdom::{NodeData, RcDom};

verus! {

/// Local name of the elements whose text is collected.
pub const SCRIPT_TAG: &'static str = "script";

/// What a node is.
pub enum NodeKind {
    /// An element, with its local name.
    Element(String),
    /// A text node, with its contents.
    Text(String),
    /// The document, a doctype, a comment or a processing instruction.
    Other,
}

/// A node of a document: its kind, and the index of its parent in the
/// document's list of nodes (`None` for the document itself).
pub struct DomNode {
    pub parent: Option<usize>,
    pub kind: NodeKind,
}

/// The mathematical value of a [`NodeKind`].
pub ghost enum NodeKindView {
    Element(Seq<char>),
    Text(Seq<char>),
    Other,
}

/// The mathematical value of a [`DomNode`].
pub ghost struct DomNodeView {
    pub parent: Option<usize>,
    pub kind: NodeKindView,
}

impl DeepView for NodeKind {
    type V = NodeKindView;

    open spec fn deep_view(&self) -> NodeKindView {
        match self {
            NodeKind::Element(name) => NodeKindView::Element(name@),
            NodeKind::Text(text) => NodeKindView::Text(text@),
            NodeKind::Other => NodeKindView::Other,
        }
    }
}

impl DeepView for DomNode {
    type V = DomNodeView;

    open spec fn deep_view(&self) -> DomNodeView {
        DomNodeView { parent: self.parent, kind: self.kind.deep_view() }
    }
}

/// The nodes of the tree that `html5ever::parse_document` builds from
/// `html`, in document order (each node before its children, children in
/// their order), each with the index of its parent.
pub uninterp spec fn html_document(html: Seq<char>) -> Seq<DomNodeView>;

/// `html5ever::parse_document` into an `RcDom`, then a depth-first walk of
/// its `children` lists that records each node's kind and parent index; the
/// contract claims only the named result.
#[verifier::external_body]
pub(crate) fn parse_html(html: &str) -> (nodes: Vec<DomNode>)
    ensures
        nodes.deep_view() == html_document(html@),
{
    let dom = html5ever::parse_document(RcDom::default(), Default::default()).one(html);
    let mut nodes = Vec::new();
    let mut pending = vec![(dom.document.clone(), None)];
    while let Some((handle, parent)) = pending.pop() {
        let kind = match &handle.data {
            NodeData::Element { name, .. } => NodeKind::Element(name.local.to_string()),
            NodeData::Text { contents } => NodeKind::Text(contents.borrow().to_string()),
            _ => NodeKind::Other,
        };
        for child in handle.children.borrow().iter().rev() {
            pending.push((child.clone(), Some(nodes.len())));
        }
        nodes.push(DomNode { parent, kind });
    }
    nodes
}

/// A `<script>` element.
pub open spec fn is_script(n: DomNodeView) -> bool {
    n.kind matches NodeKindView::Element(name) && name == SCRIPT_TAG@
}

/// The contents of the text nodes among the first `upto` nodes whose parent
/// is node `p`, in order.
pub open spec fn child_texts(nodes: Seq<DomNodeView>, p: int, upto: int) -> Seq<Seq<char>>
    decreases upto,
{
    if upto <= 0 {
        Seq::<Seq<char>>::empty()
    } else {
        let prev = child_texts(nodes, p, upto - 1);
        let n = nodes[upto - 1];
        if n.parent matches Some(q) && q == p {
            match n.kind {
                NodeKindView::Text(t) => prev.push(t),
                _ => prev,
            }
        } else {
            prev
        }
    }
}

/// For each of the first `upto` nodes that is a `<script>` element, in
/// document order, the contents of its text children.
pub open spec fn scripts_upto(nodes: Seq<DomNodeView>, upto: int) -> Seq<Seq<char>>
    decreases upto,
{
    if upto <= 0 {
        Seq::<Seq<char>>::empty()
    } else {
        scripts_upto(nodes, upto - 1) + if is_script(nodes[upto - 1]) {
            child_texts(nodes, upto - 1, nodes.len() as int)
        } else {
            Seq::<Seq<char>>::empty()
        }
    }
}

/// The texts of all `<script>` elements of a document, in document order.
pub open spec fn script_texts(nodes: Seq<DomNodeView>) -> Seq<Seq<char>> {
    scripts_upto(nodes, nodes.len() as int)
}

/// Node `j` is a text node holding `t` whose parent is node `p`.
pub open spec fn text_child_of(nodes: Seq<DomNodeView>, j: int, p: int, t: Seq<char>) -> bool {
    &&& 0 <= j < nodes.len()
    &&& nodes[j].parent matches Some(q) && q == p
    &&& nodes[j].kind == NodeKindView::Text(t)
}

/// Node `p` is an element named `script`.
pub open spec fn script_element(nodes: Seq<DomNodeView>, p: int) -> bool {
    0 <= p < nodes.len() && is_script(nodes[p])
}

/// A text collected from the children of node `p` is the text of one of
/// its text children.
proof fn lemma_child_text_source(nodes: Seq<DomNodeView>, p: int, upto: int, k: int)
    requires
        upto <= nodes.len(),
        0 <= k < child_texts(nodes, p, upto).len(),
    ensures
        exists|j: int| j < upto && #[trigger] text_child_of(nodes, j, p, child_texts(nodes, p, upto)[k]),
    decreases upto,
{
    if upto > 0 {
        let prev = child_texts(nodes, p, upto - 1);
        let cur = child_texts(nodes, p, upto);
        if k < prev.len() {
            lemma_child_text_source(nodes, p, upto - 1, k);
            assert(cur[k] == prev[k]);
            let j = choose|j: int| j < upto - 1 && #[trigger] text_child_of(nodes, j, p, prev[k]);
            assert(text_child_of(nodes, j, p, cur[k]));
        } else {
            assert(text_child_of(nodes, upto - 1, p, cur[k]));
        }
    }
}

/// A text collected from the first `upto` nodes is the text of a text child
/// of a `script` element.
proof fn lemma_script_text_source(nodes: Seq<DomNodeView>, upto: int, k: int)
    requires
        upto <= nodes.len(),
        0 <= k < scripts_upto(nodes, upto).len(),
    ensures
        exists|j: int, p: int|
            #[trigger] script_element(nodes, p) && #[trigger] text_child_of(
                nodes,
                j,
                p,
                scripts_upto(nodes, upto)[k],
            ),
    decreases upto,
{
    if upto > 0 {
        let prev = scripts_upto(nodes, upto - 1);
        let cur = scripts_upto(nodes, upto);
        let p = upto - 1;
        if k < prev.len() {
            lemma_script_text_source(nodes, upto - 1, k);
            assert(cur[k] == prev[k]);
            let (j, q) = choose|j: int, q: int|
                #[trigger] script_element(nodes, q) && #[trigger] text_child_of(nodes, j, q, prev[k]);
            assert(script_element(nodes, q) && text_child_of(nodes, j, q, cur[k]));
        } else {
            let ct = child_texts(nodes, p, nodes.len() as int);
            assert(is_script(nodes[p]));
            assert(script_element(nodes, p));
            assert(cur[k] == ct[k - prev.len()]);
            lemma_child_text_source(nodes, p, nodes.len() as int, k - prev.len());
            let j = choose|j: int|
                j < nodes.len() && #[trigger] text_child_of(nodes, j, p, ct[k - prev.len()]);
            assert(script_element(nodes, p) && text_child_of(nodes, j, p, cur[k]));
        }
    }
}

/// Every text that the scan collects is the text of a text node whose
/// parent is a `script` element.
pub proof fn lemma_script_text_comes_from_script(nodes: Seq<DomNodeView>, k: int)
    requires
        0 <= k < script_texts(nodes).len(),
    ensures
        exists|j: int, p: int|
            #[trigger] script_element(nodes, p) && #[trigger] text_child_of(
                nodes,
                j,
                p,
                script_texts(nodes)[k],
            ),
{
    lemma_script_text_source(nodes, nodes.len() as int, k);
}

/// A document without `script` elements yields no texts.
pub proof fn lemma_no_script_no_texts(nodes: Seq<DomNodeView>)
    requires
        forall|p: int| 0 <= p < nodes.len() ==> !#[trigger] script_element(nodes, p),
    ensures
        script_texts(nodes).len() == 0,
{
    if script_texts(nodes).len() > 0 {
        lemma_script_text_comes_from_script(nodes, 0);
        let t = script_texts(nodes)[0];
        let (j, p) = choose|j: int, p: int|
            #[trigger] script_element(nodes, p) && #[trigger] text_child_of(nodes, j, p, t);
        assert(!script_element(nodes, p));
    }
}

/// Collects the contents of the text children of node `p`.
fn texts_of_children(nodes: &Vec<DomNode>, p: usize, out: &mut Vec<String>)
    ensures
        final(out).deep_view() == old(out).deep_view() + child_texts(
            nodes.deep_view(),
            p as int,
            nodes.len() as int,
        ),
{
    let ghost start = out.deep_view();
    let mut j: usize = 0;
    while j < nodes.len()
        invariant
            j <= nodes.len(),
            out.deep_view() == start + child_texts(nodes.deep_view(), p as int, j as int),
        decreases nodes.len() - j,
    {
        let node = &nodes[j];
        assert(nodes.deep_view()[j as int] == node.deep_view());
        let is_child = match node.parent {
            Some(q) => q == p,
            None => false,
        };
        let ghost prev = out.deep_view();
        if is_child {
            match &node.kind {
                NodeKind::Text(t) => {
                    out.push(t.clone());
                    assert(out.deep_view() =~= prev.push(t@));
                },
                _ => {},
            }
        }
        j = j + 1;
        assert(out.deep_view() =~= start + child_texts(nodes.deep_view(), p as int, j as int));
    }
}

/// The texts of all `<script>` elements of a document: for each script
/// element in document order, the contents of its text children.
pub fn get_scripts(nodes: &Vec<DomNode>) -> (r: Vec<String>)
    ensures
        r.deep_view() == script_texts(nodes.deep_view()),
{
    let script = String::from_str(SCRIPT_TAG);
    let mut out: Vec<String> = Vec::new();
    let mut i: usize = 0;
    while i < nodes.len()
        invariant
            i <= nodes.len(),
            script@ == SCRIPT_TAG@,
            out.deep_view() == scripts_upto(nodes.deep_view(), i as int),
        decreases nodes.len() - i,
    {
        assert(nodes.deep_view()[i as int] == nodes[i as int].deep_view());
        let is_script_element = match &nodes[i].kind {
            NodeKind::Element(name) => *name == script,
            _ => false,
        };
        if is_script_element {
            texts_of_children(nodes, i, &mut out);
        }
        i = i + 1;
        assert(out.deep_view() =~= scripts_upto(nodes.deep_view(), i as int));
    }
    out
}

/// The texts of all `<script>` elements of an HTML page, in document order.
pub fn page_scripts(html: &str) -> (r: Vec<String>)
    ensures
        r.deep_view() == script_texts(html_document(html@)),
{
    let nodes = parse_html(html);
    get_scripts(&nodes)
}

} // verus!
