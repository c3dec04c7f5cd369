//! Markup extraction: a raw chat message body is a small, possibly malformed
//! markup fragment. Its direct children are flattened into plain text, and a
//! dedicated `span` element may carry the sender's team tag.

use vstd::prelude::*;
use vstd::string::StrSliceExecFns;
use vstd::string::StringExecFns;
use crate::strutil::str_eq;
use crate::strutil::trim_str;
use crate::strutil::trim_spec;

verus! {

broadcast use vstd::string::group_string_axioms;

/// One direct child of the parsed markup fragment, reduced to the parts the
/// extractor reads.
pub enum MarkupNode {
    /// A plain-text child, with its content.
    Text(String),
    /// An element child.
    Element(MarkupElement),
    /// Any other node kind (such as a comment); ignored by the extractor.
    Other,
}

/// What the extractor reads of an element child.
pub struct MarkupElement {
    /// The tag name.
    pub name: String,
    /// The element's class list.
    pub classes: Vec<String>,
    /// The content of the element's first child, when that child is plain
    /// text.
    pub first_text: Option<String>,
    /// The element's raw source text, including its own tags.
    pub source: String,
}

/// The team affiliation carried by a chat message.
#[derive(Debug, PartialEq)]
pub enum Team {
    /// No team tag was found.
    Empty,
    /// A team tag with the given name.
    Named(String),
}

/// The children of the parsed markup fragment, or `None` when the input fails
/// to parse structurally.
pub uninterp spec fn markup_dom_of(s: Seq<char>) -> Option<Seq<MarkupNode>>;

/// Relies on html_parser::Dom::parse: parses a markup fragment and hands back
/// its root children, a function of the input alone. Each child is reduced to
/// the library's own node shape, one match arm per node variant.
#[verifier::external_body]
pub(crate) fn parse_markup(input: &str) -> (r: Result<Vec<MarkupNode>, String>)
    ensures
        r matches Ok(nodes) ==> markup_dom_of(input@) == Some(nodes@),
        r is Err <==> markup_dom_of(input@) is None,
{
    match html_parser::Dom::parse(input) {
        Err(e) => Err(e.to_string()),
        Ok(dom) => Ok(dom.children.into_iter().map(|n| match n {
            html_parser::Node::Text(t) => MarkupNode::Text(t),
            html_parser::Node::Element(e) => MarkupNode::Element(MarkupElement {
                name: e.name, classes: e.classes, source: e.source_span.text,
                first_text: match e.children.into_iter().next() {
                    Some(html_parser::Node::Text(t)) => Some(t),
                    _ => None,
                },
            }),
            html_parser::Node::Comment(_) => MarkupNode::Other,
        }).collect()),
    }
}

/// The team-tag grammar: the text must start with `-team`, end with `-`, and
/// hold a non-empty name strictly between the two; that name is the tag.
pub open spec fn team_tag_of(t: Seq<char>) -> Option<Seq<char>> {
    if t.len() > 6 && t.subrange(0, 5) == "-team"@ && t[t.len() - 1] == '-' {
        Some(t.subrange(5, t.len() - 1))
    } else {
        None
    }
}

/// The team as an optional tag name.
pub open spec fn team_view(t: Team) -> Option<Seq<char>> {
    match t {
        Team::Empty => None,
        Team::Named(name) => Some(name@),
    }
}

impl Team {
    /// Converts span text into a team name, following the team-tag grammar.
    pub fn named_from_element(text: &str) -> (r: Option<Team>)
        ensures
            r is Some <==> team_tag_of(text@) is Some,
            r matches Some(t) ==> t matches Team::Named(name) && Some(name@) == team_tag_of(
                text@,
            ),
    {
        proof {
            reveal_strlit("-team");
        }
        let n = text.unicode_len();
        if n < 6 {
            return None;
        }
        if text.get_char(0) != '-' || text.get_char(1) != 't' || text.get_char(2) != 'e'
            || text.get_char(3) != 'a' || text.get_char(4) != 'm' {
            proof {
                assert(text@.subrange(0, 5) != "-team"@) by {
                    if text@.subrange(0, 5) == "-team"@ {
                        assert(text@.subrange(0, 5)[0] == '-');
                        assert(text@.subrange(0, 5)[1] == 't');
                        assert(text@.subrange(0, 5)[2] == 'e');
                        assert(text@.subrange(0, 5)[3] == 'a');
                        assert(text@.subrange(0, 5)[4] == 'm');
                    }
                }
            }
            return None;
        }
        if text.get_char(n - 1) != '-' {
            return None;
        }
        if n == 6 {
            proof {
                assert(text@.len() == 6);
            }
            return None;
        }
        let name = text.substring_char(5, n - 1).to_owned();
        proof {
            assert(text@.subrange(0, 5) =~= "-team"@);
        }
        Some(Team::Named(name))
    }
}

/// Whether a node is the dedicated team span: a `span` element whose class
/// list is exactly the single team-colour class.
pub open spec fn is_team_span(n: MarkupNode) -> bool {
    n matches MarkupNode::Element(e) && e.name@ == "span"@ && e.classes@.len() == 1
        && e.classes@[0]@ == "teamColorSpan"@
}

/// The team tag set by a node, when it is a team span whose first child is
/// plain text matching the team-tag grammar.
pub open spec fn node_team(n: MarkupNode) -> Option<Seq<char>> {
    if is_team_span(n) {
        match n->Element_0.first_text {
            Some(t) => team_tag_of(t@),
            None => None,
        }
    } else {
        None
    }
}

/// What a node contributes to the extracted text: a text child its content, a
/// team span nothing, any other element its raw source, other nodes nothing.
pub open spec fn node_text(n: MarkupNode) -> Seq<char> {
    match n {
        MarkupNode::Text(t) => t@,
        MarkupNode::Element(e) => if is_team_span(n) {
            Seq::empty()
        } else {
            e.source@
        },
        MarkupNode::Other => Seq::empty(),
    }
}

/// The concatenated text contributions of a node sequence, before trimming.
pub open spec fn nodes_text(nodes: Seq<MarkupNode>) -> Seq<char>
    decreases nodes.len(),
{
    if nodes.len() == 0 {
        Seq::empty()
    } else {
        nodes_text(nodes.drop_last()) + node_text(nodes.last())
    }
}

/// The team set by a node sequence: the last team-setting node wins; nodes
/// that set no team leave the earlier choice in place.
pub open spec fn nodes_team(nodes: Seq<MarkupNode>) -> Option<Seq<char>>
    decreases nodes.len(),
{
    if nodes.len() == 0 {
        None
    } else {
        match node_team(nodes.last()) {
            Some(tag) => Some(tag),
            None => nodes_team(nodes.drop_last()),
        }
    }
}

fn is_team_span_exec(n: &MarkupNode) -> (r: bool)
    ensures
        r == is_team_span(*n),
{
    match n {
        MarkupNode::Element(e) => {
            str_eq(e.name.as_str(), "span") && e.classes.len() == 1 && str_eq(
                e.classes[0].as_str(),
                "teamColorSpan",
            )
        },
        _ => false,
    }
}

/// Walks the direct children of a parsed fragment and extracts the plain
/// text, trimmed of leading and trailing whitespace, and the team tag.
pub fn extract_nodes(nodes: &Vec<MarkupNode>) -> (r: (String, Team))
    ensures
        r.0@ == trim_spec(nodes_text(nodes@)),
        team_view(r.1) == nodes_team(nodes@),
{
    let mut text = String::new();
    let mut team = Team::Empty;
    let mut i: usize = 0;
    while i < nodes.len()
        invariant
            0 <= i <= nodes@.len(),
            text@ == nodes_text(nodes@.take(i as int)),
            team_view(team) == nodes_team(nodes@.take(i as int)),
        decreases nodes@.len() - i,
    {
        proof {
            assert(nodes@.take(i + 1).drop_last() =~= nodes@.take(i as int));
            assert(nodes@.take(i + 1).last() == nodes@[i as int]);
        }
        let node = &nodes[i];
        if is_team_span_exec(node) {
            match node {
                MarkupNode::Element(e) => {
                    match &e.first_text {
                        Some(t) => {
                            match Team::named_from_element(t.as_str()) {
                                Some(named) => {
                                    team = named;
                                },
                                None => {},
                            }
                        },
                        None => {},
                    }
                },
                _ => {},
            }
            proof {
                assert(node_text(nodes@[i as int]) =~= Seq::<char>::empty());
                assert(text@ =~= nodes_text(nodes@.take(i + 1)));
            }
        } else {
            match node {
                MarkupNode::Text(t) => {
                    text.append(t.as_str());
                },
                MarkupNode::Element(e) => {
                    text.append(e.source.as_str());
                },
                MarkupNode::Other => {
                    proof {
                        assert(node_text(nodes@[i as int]) =~= Seq::<char>::empty());
                        assert(text@ =~= nodes_text(nodes@.take(i + 1)));
                    }
                },
            }
        }
        i = i + 1;
    }
    proof {
        assert(nodes@.take(nodes@.len() as int) =~= nodes@);
    }
    let trimmed = trim_str(text.as_str());
    (trimmed, team)
}

} // verus!
