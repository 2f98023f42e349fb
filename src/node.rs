//! Document nodes, as the markdown parser hands them over, and their classification.
use comrak::nodes::NodeValue;
use vstd::prelude::*;

use crate::date::{date_of_word, parse_date, Date};

verus! {

/// The character that opens the header row of each token table (BRAILLE PATTERN BLANK).
pub const BOUNDARY_MARK: char = '\u{2800}';

/// The fewest characters a token can have.
pub const TOKEN_MIN_LEN: usize = 128;

/// One node of a parsed document, in depth-first pre-order.
pub enum Node {
    /// An image, with its alternate text where that is plain text.
    Image(Option<String>),
    Text(String),
    /// An inline code span, with its literal text.
    Code(String),
    Other,
}

/// The mathematical value of a [`Node`].
pub enum NodeModel {
    Image(Option<Seq<char>>),
    Text(Seq<char>),
    Code(Seq<char>),
    Other,
}

impl View for Node {
    type V = NodeModel;

    open spec fn view(&self) -> NodeModel {
        match self {
            Node::Image(Some(alt)) => NodeModel::Image(Some(alt@)),
            Node::Image(None) => NodeModel::Image(None),
            Node::Text(t) => NodeModel::Text(t@),
            Node::Code(c) => NodeModel::Code(c@),
            Node::Other => NodeModel::Other,
        }
    }
}

/// What one node means to the extraction of records. A date candidate is weighed against
/// the current date by the extractor, which discards one that lies in the past.
pub enum Class {
    RegionMarker(String),
    DateCandidate(Date),
    TableBoundaryMarker,
    TokenCandidate(String),
    Irrelevant,
}

/// The mathematical value of a [`Class`].
pub enum ClassModel {
    RegionMarker(Seq<char>),
    DateCandidate(Date),
    TableBoundaryMarker,
    TokenCandidate(Seq<char>),
    Irrelevant,
}

impl View for Class {
    type V = ClassModel;

    open spec fn view(&self) -> ClassModel {
        match self {
            Class::RegionMarker(r) => ClassModel::RegionMarker(r@),
            Class::DateCandidate(d) => ClassModel::DateCandidate(*d),
            Class::TableBoundaryMarker => ClassModel::TableBoundaryMarker,
            Class::TokenCandidate(v) => ClassModel::TokenCandidate(v@),
            Class::Irrelevant => ClassModel::Irrelevant,
        }
    }
}

/// The index of the first `c` in `s` at or after `i`, or the length of `s` if there is none.
pub open spec fn index_from(s: Seq<char>, c: char, i: int) -> int
    decreases s.len() - i,
{
    if i < 0 || i >= s.len() {
        s.len() as int
    } else if s[i] == c {
        i
    } else {
        index_from(s, c, i + 1)
    }
}

/// The region that an image's alternate text names: the text before its first `/`
/// ("Brazil/Brasil" names "Brazil").
pub open spec fn region_of(alt: Seq<char>) -> Seq<char> {
    alt.take(index_from(alt, '/', 0))
}

/// What `char::is_alphanumeric` says of `c`.
pub uninterp spec fn alphanumeric(c: char) -> bool;

/// Relies on `char::is_alphanumeric`.
#[verifier::external_body]
fn is_alphanumeric(c: char) -> (r: bool)
    ensures
        r == alphanumeric(c),
{
    c.is_alphanumeric()
}

/// A code span that can be a token: at least 128 characters, all alphanumeric.
pub open spec fn is_token(s: Seq<char>) -> bool {
    s.len() >= TOKEN_MIN_LEN && forall|i: int| 0 <= i < s.len() ==> alphanumeric(#[trigger] s[i])
}

/// The words of `s`, as `str::split_whitespace` separates them.
pub uninterp spec fn words_of(s: Seq<char>) -> Seq<Seq<char>>;

/// Relies on `str::split_whitespace`.
#[verifier::external_body]
fn split_words(s: &str) -> (r: Vec<String>)
    ensures
        r@.map_values(|w: String| w@) == words_of(s@),
{
    s.split_whitespace().map(|w| w.to_string()).collect()
}

/// The first of `ws[i..]` that reads as a date.
pub open spec fn first_date_from(ws: Seq<Seq<char>>, i: int) -> Option<Date>
    decreases ws.len() - i,
{
    if i < 0 || i >= ws.len() {
        None
    } else {
        match date_of_word(ws[i]) {
            Some(d) => Some(d),
            None => first_date_from(ws, i + 1),
        }
    }
}

/// The first word of a text that reads as a date.
pub open spec fn first_date(t: Seq<char>) -> Option<Date> {
    first_date_from(words_of(t), 0)
}

/// What a node means to the extraction of records.
pub open spec fn class_of(n: NodeModel) -> ClassModel {
    match n {
        NodeModel::Image(Some(alt)) => ClassModel::RegionMarker(region_of(alt)),
        NodeModel::Text(t) => if t.contains(BOUNDARY_MARK) {
            ClassModel::TableBoundaryMarker
        } else {
            match first_date(t) {
                Some(d) => ClassModel::DateCandidate(d),
                None => ClassModel::Irrelevant,
            }
        },
        NodeModel::Code(c) => if is_token(c) {
            ClassModel::TokenCandidate(c)
        } else {
            ClassModel::Irrelevant
        },
        _ => ClassModel::Irrelevant,
    }
}

/// The region named by an image's alternate text.
pub fn region_name(alt: &str) -> (r: String)
    ensures
        r@ == region_of(alt@),
{
    let n = alt.unicode_len();
    let mut i: usize = 0;
    while i < n
        invariant
            n == alt@.len(),
            0 <= i <= n,
            index_from(alt@, '/', 0) == index_from(alt@, '/', i as int),
        ensures
            i == index_from(alt@, '/', 0),
        decreases n - i,
    {
        if alt.get_char(i) == '/' {
            assert(index_from(alt@, '/', i as int) == i);
            break;
        }
        i = i + 1;
    }
    String::from_str(alt.substring_char(0, i))
}

/// Whether a text holds the table boundary mark.
pub fn has_boundary_mark(t: &str) -> (r: bool)
    ensures
        r == t@.contains(BOUNDARY_MARK),
{
    let n = t.unicode_len();
    let mut i: usize = 0;
    while i < n
        invariant
            n == t@.len(),
            0 <= i <= n,
            forall|j: int| 0 <= j < i ==> t@[j] != BOUNDARY_MARK,
        decreases n - i,
    {
        if t.get_char(i) == BOUNDARY_MARK {
            return true;
        }
        i = i + 1;
    }
    false
}

/// Whether a code span's text can be a token.
pub fn is_token_text(c: &str) -> (r: bool)
    ensures
        r == is_token(c@),
{
    let n = c.unicode_len();
    if n < TOKEN_MIN_LEN {
        return false;
    }
    let mut i: usize = 0;
    while i < n
        invariant
            n == c@.len(),
            0 <= i <= n,
            forall|j: int| 0 <= j < i ==> alphanumeric(#[trigger] c@[j]),
        decreases n - i,
    {
        if !is_alphanumeric(c.get_char(i)) {
            return false;
        }
        i = i + 1;
    }
    true
}

/// The first word of a text that reads as a date.
pub fn find_date(t: &str) -> (r: Option<Date>)
    ensures
        r == first_date(t@),
{
    let words = split_words(t);
    let ghost ws = words_of(t@);
    let mut i: usize = 0;
    while i < words.len()
        invariant
            ws == words_of(t@),
            words@.map_values(|w: String| w@) == ws,
            0 <= i <= words.len(),
            first_date_from(ws, 0) == first_date_from(ws, i as int),
        decreases words.len() - i,
    {
        assert(ws[i as int] == words@[i as int]@);
        let d = parse_date(words[i].as_str());
        if d.is_some() {
            assert(first_date_from(ws, i as int) == d);
            return d;
        }
        i = i + 1;
    }
    None
}

/// What a node means to the extraction of records.
pub fn classify(node: &Node) -> (r: Class)
    ensures
        r@ == class_of(node@),
{
    match node {
        Node::Image(Some(alt)) => Class::RegionMarker(region_name(alt.as_str())),
        Node::Image(None) => Class::Irrelevant,
        Node::Text(t) => {
            if has_boundary_mark(t.as_str()) {
                Class::TableBoundaryMarker
            } else {
                match find_date(t.as_str()) {
                    Some(d) => Class::DateCandidate(d),
                    None => Class::Irrelevant,
                }
            }
        },
        Node::Code(c) => {
            if is_token_text(c.as_str()) {
                Class::TokenCandidate(c.clone())
            } else {
                Class::Irrelevant
            }
        },
        Node::Other => Class::Irrelevant,
    }
}

/// The nodes that comrak parses out of a markdown document, in depth-first pre-order.
pub uninterp spec fn markdown_nodes(doc: Seq<char>) -> Seq<NodeModel>;

/// Relies on `comrak::parse_document` with default options, walked by `descendants`
/// (depth-first, pre-order); an image's alternate text is the text of its first child.
#[verifier::external_body]
pub(crate) fn parse_markdown(doc: &str) -> (r: Vec<Node>)
    ensures
        r@.map_values(|n: Node| n@) == markdown_nodes(doc@),
{
    let arena = comrak::Arena::new();
    let root = comrak::parse_document(&arena, doc, &comrak::Options::default());
    root.descendants().map(|n| match &n.data.borrow().value {
        NodeValue::Image(_) => Node::Image(
            n.first_child().and_then(|c| c.data.borrow().value.text().cloned()),
        ),
        NodeValue::Text(t) => Node::Text(t.clone()),
        NodeValue::Code(c) => Node::Code(c.literal.clone()),
        _ => Node::Other,
    }).collect()
}

} // verus!
