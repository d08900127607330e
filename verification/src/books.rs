//! The runbook document model: parsing markdown text into an ordered node
//! list, extracting fenced code blocks, and decoding per-block metadata.

use vstd::prelude::*;

verus! {

/// One top-level node of the parsed document, reduced to the closed set of
/// kinds the runbook model reads; every other kind falls into `Other`.
#[derive(Debug)]
pub enum MdNode {
    /// A heading line.
    Heading,
    /// A paragraph of prose.
    Paragraph,
    /// A run of plain text.
    Text,
    /// A fenced code region: its language tag, its trailing metadata text,
    /// and its verbatim content.
    Code { language: Option<String>, meta: Option<String>, content: String },
    /// The document's frontmatter header, kept as its raw text.
    Frontmatter { content: String },
    /// Any other node kind; the runbook model passes it through.
    Other,
}

/// An unrecoverable failure of the markdown grammar itself.
#[derive(Debug, Clone, Copy, PartialEq, Eq, Structural)]
pub enum ParseError {
    /// The grammar reported an unrecoverable syntax error.
    MalformedDocument,
}

/// One fenced code block extracted from a document.
#[derive(Debug)]
pub struct CodeBlock {
    /// The language tag, if the fence declared one.
    pub language: Option<String>,
    /// The raw trailing metadata text of the fence line, if any.
    pub meta: Option<String>,
    /// The literal source text between the fence markers.
    pub content: String,
    /// The block's position among all code blocks, in document order.
    pub source_order: usize,
}

/// The mathematical value of a `CodeBlock`.
#[verifier::ext_equal]
pub ghost struct CodeBlockModel {
    pub language: Option<Seq<char>>,
    pub meta: Option<Seq<char>>,
    pub content: Seq<char>,
    pub source_order: int,
}

pub open spec fn opt_str_view(o: Option<String>) -> Option<Seq<char>> {
    match o {
        Some(s) => Some(s@),
        None => None,
    }
}

impl View for CodeBlock {
    type V = CodeBlockModel;

    open spec fn view(&self) -> CodeBlockModel {
        CodeBlockModel {
            language: opt_str_view(self.language),
            meta: opt_str_view(self.meta),
            content: self.content@,
            source_order: self.source_order as int,
        }
    }
}

/// The models of a sequence of extracted blocks.
pub open spec fn blocks_view(blocks: Seq<CodeBlock>) -> Seq<CodeBlockModel> {
    blocks.map_values(|b: CodeBlock| b@)
}

/// The code blocks a node list yields: one entry per `Code` node, in order,
/// numbered by position among the code nodes.
pub open spec fn spec_code_blocks(nodes: Seq<MdNode>) -> Seq<CodeBlockModel>
    decreases nodes.len(),
{
    if nodes.len() == 0 {
        Seq::empty()
    } else {
        let front = spec_code_blocks(nodes.drop_last());
        match nodes.last() {
            MdNode::Code { language, meta, content } => front.push(
                CodeBlockModel {
                    language: opt_str_view(language),
                    meta: opt_str_view(meta),
                    content: content@,
                    source_order: front.len() as int,
                },
            ),
            _ => front,
        }
    }
}

/// How many `Code` nodes a node list holds.
pub open spec fn count_code_nodes(nodes: Seq<MdNode>) -> nat
    decreases nodes.len(),
{
    if nodes.len() == 0 {
        0
    } else {
        count_code_nodes(nodes.drop_last()) + if nodes.last() is Code {
            1nat
        } else {
            0nat
        }
    }
}

/// The frontmatter text a node list yields: the content of its first
/// `Frontmatter` node, or nothing when it has none.
pub open spec fn spec_frontmatter(nodes: Seq<MdNode>) -> Option<Seq<char>>
    decreases nodes.len(),
{
    if nodes.len() == 0 {
        None
    } else {
        match nodes.first() {
            MdNode::Frontmatter { content } => Some(content@),
            _ => spec_frontmatter(nodes.drop_first()),
        }
    }
}

/// Law: extraction yields exactly one block per `Code` node, and numbers the
/// blocks `0, 1, 2, ...` in document order, so `source_order` is strictly
/// increasing and equals each block's position.
pub proof fn lemma_code_blocks_ordered(nodes: Seq<MdNode>)
    ensures
        spec_code_blocks(nodes).len() == count_code_nodes(nodes),
        forall|i: int|
            0 <= i < spec_code_blocks(nodes).len() ==> (#[trigger] spec_code_blocks(
                nodes,
            )[i]).source_order == i,
    decreases nodes.len(),
{
    if nodes.len() > 0 {
        lemma_code_blocks_ordered(nodes.drop_last());
    }
}

/// Declares the `markdown` crate's `Root` node so it can pass through
/// signatures; its contents are reached only through `root_nodes`.
#[verifier::external_type_specification]
#[verifier::external_body]
pub struct ExMdRoot(markdown::mdast::Root);

/// The node list that parsing a text yields; `markdown::to_mdast` is a pure
/// function of the input text, so the list depends on the characters alone.
pub uninterp spec fn md_nodes_of(raw: Seq<char>) -> Seq<MdNode>;

/// The top-level children a parsed root node holds, each reduced to `MdNode`.
pub uninterp spec fn root_nodes(root: markdown::mdast::Root) -> Seq<MdNode>;

/// Relies on `markdown::to_mdast` with GFM options plus the frontmatter
/// construct: it parses any text without side effects and is deterministic
/// in the input text. Its documentation states that it never errors unless
/// the MDX constructs are on, which these options leave off, and the tree
/// it builds is always a single `Root` node, so the call succeeds on every
/// input; the error arms guard the grammar's API shape alone.
#[verifier::external_body]
fn parse_root(raw: &str) -> (r: Result<markdown::mdast::Root, ParseError>)
    ensures
        r is Ok,
        r matches Ok(root) ==> root_nodes(root) == md_nodes_of(raw@),
{
    let mut options = markdown::ParseOptions::gfm();
    options.constructs.frontmatter = true;
    match markdown::to_mdast(raw, &options) {
        Ok(markdown::mdast::Node::Root(root)) => Ok(root),
        _ => Err(ParseError::MalformedDocument),
    }
}

/// Relies on the `markdown` crate's mdast node kinds: each top-level child of
/// the root is told apart by variant and its fields moved into the matching
/// `MdNode` arm (`Yaml` and `Toml` both carry frontmatter text).
#[verifier::external_body]
fn root_to_nodes(root: markdown::mdast::Root) -> (r: Vec<MdNode>)
    ensures
        r@ == root_nodes(root),
{
    root.children.into_iter().map(|node| match node {
        markdown::mdast::Node::Code(c) => MdNode::Code {
            language: c.lang,
            meta: c.meta,
            content: c.value,
        },
        markdown::mdast::Node::Yaml(y) => MdNode::Frontmatter { content: y.value },
        markdown::mdast::Node::Toml(t) => MdNode::Frontmatter { content: t.value },
        markdown::mdast::Node::Heading(_) => MdNode::Heading,
        markdown::mdast::Node::Paragraph(_) => MdNode::Paragraph,
        markdown::mdast::Node::Text(_) => MdNode::Text,
        _ => MdNode::Other,
    }).collect()
}

fn clone_opt_string(o: &Option<String>) -> (r: Option<String>)
    ensures
        r == *o,
{
    match o {
        Some(s) => Some(s.clone()),
        None => None,
    }
}

/// A runbook document: the ordered top-level nodes of one parsed markdown
/// text. Immutable once constructed; re-parsing produces a new instance.
pub struct Runbook {
    pub nodes: Vec<MdNode>,
}

impl View for Runbook {
    type V = Seq<MdNode>;

    open spec fn view(&self) -> Seq<MdNode> {
        self.nodes@
    }
}

impl Runbook {
    /// Parse raw markdown text into a runbook document. Fails only when the
    /// grammar itself reports an unrecoverable error, which the grammar this
    /// library fixes never does, so parsing succeeds on every input;
    /// frontmatter absence and malformed fence metadata are in any case not
    /// parse errors.
    pub fn parse(raw: &str) -> (r: Result<Runbook, ParseError>)
        ensures
            r is Ok,
            r matches Ok(book) ==> book@ == md_nodes_of(raw@),
    {
        match parse_root(raw) {
            Ok(root) => Ok(Runbook { nodes: root_to_nodes(root) }),
            Err(e) => Err(e),
        }
    }

    /// Every fenced code block of the document, in document order, with
    /// `source_order` numbering them `0, 1, 2, ...`. Repeated calls on the
    /// same document return the same sequence.
    pub fn code_blocks(&self) -> (r: Vec<CodeBlock>)
        ensures
            blocks_view(r@) == spec_code_blocks(self@),
    {
        let n = self.nodes.len();
        let mut out: Vec<CodeBlock> = Vec::new();
        let mut i: usize = 0;
        while i < n
            invariant
                i <= n,
                n == self.nodes.len(),
                blocks_view(out@) == spec_code_blocks(self.nodes@.take(i as int)),
            decreases n - i,
        {
            proof {
                assert(self.nodes@.take(i + 1).drop_last() =~= self.nodes@.take(i as int));
                assert(self.nodes@.take(i + 1).last() == self.nodes@[i as int]);
            }
            match &self.nodes[i] {
                MdNode::Code { language, meta, content } => {
                    let block = CodeBlock {
                        language: clone_opt_string(language),
                        meta: clone_opt_string(meta),
                        content: content.clone(),
                        source_order: out.len(),
                    };
                    proof {
                        assert(blocks_view(out@.push(block)) =~= blocks_view(out@).push(block@));
                    }
                    out.push(block);
                },
                _ => {},
            }
            i += 1;
        }
        proof {
            assert(self.nodes@.take(n as int) =~= self.nodes@);
        }
        out
    }

    /// The frontmatter header, if the document has one; absence is not an
    /// error and yields nothing.
    pub fn frontmatter(&self) -> (r: Option<BookFrontmatter>)
        ensures
            r matches Some(fm) ==> spec_frontmatter(self@) == Some(fm.content@),
            r is None ==> spec_frontmatter(self@) is None,
    {
        let n = self.nodes.len();
        let mut i: usize = 0;
        proof {
            assert(self.nodes@.skip(0) =~= self.nodes@);
        }
        while i < n
            invariant
                i <= n,
                n == self.nodes.len(),
                spec_frontmatter(self.nodes@) == spec_frontmatter(self.nodes@.skip(i as int)),
            decreases n - i,
        {
            proof {
                assert(self.nodes@.skip(i as int).first() == self.nodes@[i as int]);
                assert(self.nodes@.skip(i as int).drop_first() =~= self.nodes@.skip(i + 1));
            }
            match &self.nodes[i] {
                MdNode::Frontmatter { content } => {
                    return Some(BookFrontmatter { content: content.clone() });
                },
                _ => {},
            }
            i += 1;
        }
        proof {
            assert(self.nodes@.skip(n as int).len() == 0);
        }
        None
    }
}

/// The structure of a runbook's frontmatter: its raw header text. The schema
/// is open; the core requires no fields of it.
#[derive(Debug)]
pub struct BookFrontmatter {
    pub content: String,
}

/// Declares `serde_json`'s decoded value so `Structured` can carry it; the
/// value is opaque to the contracts.
#[verifier::external_type_specification]
#[verifier::external_body]
pub struct ExJsonValue(serde_json::Value);

/// Whether a text is a valid JSON document; strict decoding succeeds or fails
/// on the characters alone.
pub uninterp spec fn json_ok(s: Seq<char>) -> bool;

/// Relies on `serde_json::from_str::<Value>`: strict decoding that returns
/// `Ok` exactly for valid JSON text and never panics.
#[verifier::external_body]
fn try_parse_json(s: &String) -> (r: Option<serde_json::Value>)
    ensures
        r is Some <==> json_ok(s@),
{
    serde_json::from_str::<serde_json::Value>(s).ok()
}

/// The decoded form of a code fence's trailing metadata text.
#[derive(Debug)]
pub enum CodeBlockMeta {
    /// No metadata text stood on the fence line.
    Absent,
    /// The text was valid structured data and this is its decoded value.
    Structured(serde_json::Value),
    /// The text was not valid structured data; it is kept verbatim.
    Raw(String),
}

impl CodeBlockMeta {
    /// Decode a fence's metadata text. Never fails: text that is not valid
    /// structured data degrades to `Raw` with the original text unchanged,
    /// and absent text is not an error.
    pub fn decode(raw: Option<String>) -> (r: CodeBlockMeta)
        ensures
            raw is None ==> r is Absent,
            raw matches Some(t) ==> ((json_ok(t@) ==> r is Structured) && (!json_ok(t@) ==> r
                == CodeBlockMeta::Raw(t))),
    {
        match raw {
            None => CodeBlockMeta::Absent,
            Some(t) => match try_parse_json(&t) {
                Some(v) => CodeBlockMeta::Structured(v),
                None => CodeBlockMeta::Raw(t),
            },
        }
    }
}

} // verus!
