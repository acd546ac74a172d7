//! The incremental decoder: a recursive state machine fed one line at a
//! time.
//!
//! A `*`-line opens an array of the announced count, a `$`-line announces a
//! string whose next line must have exactly the announced length, and any
//! other line completes immediately as an inline token (materialized as
//! nil).  An array delegates each line to the child at its cursor and
//! completes when its last child completes.

use vstd::prelude::*;
use vstd::string::{StrSliceExecFns, StringExecFns};

use crate::datatypes::{DataType, DataV};
use crate::text::{all_digits, dec_val, parse_u128};

verus! {

broadcast use vstd::std_specs::vec::group_vec_axioms, vstd::seq::group_seq_axioms;

/// What the driver learns from one line: feed more, or the value is
/// complete.
#[derive(Debug, PartialEq, Eq, Structural)]
pub enum ParseResult {
    IsMore,
    Complete,
}

/// One node of the parser tree.
enum ParserNode {
    Base,
    Str { size: usize, content: Option<String> },
    Arr { size: usize, current: usize, children: Vec<ParserNode> },
}

/// The incremental decoder: feed lines with [`Parser::next`] until it
/// reports completion, then materialize the value with
/// [`Parser::to_datatype`].
pub struct Parser {
    state: ParserNode,
}

/// The mathematical shape of a parser node.
pub enum NodeV {
    Base,
    Str { size: nat, content: Option<Seq<char>> },
    Arr { size: nat, current: nat, children: Seq<NodeV> },
}

spec fn node_view(n: ParserNode) -> NodeV
    decreases n,
{
    match n {
        ParserNode::Base => NodeV::Base,
        ParserNode::Str { size, content } => NodeV::Str {
            size: size as nat,
            content: match content {
                Some(s) => Some(s@),
                None => None,
            },
        },
        ParserNode::Arr { size, current, children } => NodeV::Arr {
            size: size as nat,
            current: current as nat,
            children: children_views(children@),
        },
    }
}

/// The shapes of a sequence of nodes, element for element.
spec fn children_views(s: Seq<ParserNode>) -> Seq<NodeV>
    decreases s,
{
    Seq::new(
        s.len(),
        |i: int|
            if 0 <= i < s.len() {
                node_view(s[i])
            } else {
                NodeV::Base
            },
    )
}

impl View for Parser {
    type V = NodeV;

    closed spec fn view(&self) -> NodeV {
        node_view(self.state)
    }
}

/// Structural soundness of a node: an array's cursor sits at its last
/// child or just past it.
pub open spec fn node_wf(n: NodeV) -> bool
    decreases n,
{
    match n {
        NodeV::Base => true,
        NodeV::Str { .. } => true,
        NodeV::Arr { size, current, children } => {
            &&& current <= children.len() <= current + 1
            &&& forall|i: int| 0 <= i < children.len() ==> node_wf(#[trigger] children[i])
        },
    }
}

/// What the first line of a value does: open an array, announce a string,
/// or complete at once as an inline token.  A malformed count is a parse
/// error.
pub open spec fn base_step(line: Seq<char>) -> Option<(NodeV, bool)> {
    if line.len() >= 1 && line[0] == '*' {
        let digits = line.skip(1);
        if digits.len() > 0 && all_digits(digits) && dec_val(digits) <= usize::MAX {
            Some((NodeV::Arr { size: dec_val(digits), current: 0, children: Seq::empty() }, false))
        } else {
            None
        }
    } else if line.len() >= 1 && line[0] == '$' {
        let digits = line.skip(1);
        if digits.len() > 0 && all_digits(digits) && dec_val(digits) <= usize::MAX {
            Some((NodeV::Str { size: dec_val(digits), content: None }, false))
        } else {
            None
        }
    } else {
        Some((NodeV::Base, true))
    }
}

/// One step of the machine on one line: the node afterwards and whether it
/// reported completion, or a parse error (`None`), on which the node is
/// unchanged.
pub open spec fn node_step(n: NodeV, line: Seq<char>) -> Option<(NodeV, bool)>
    decreases n,
{
    match n {
        NodeV::Base => base_step(line),
        NodeV::Str { size, content } => {
            if line.len() == size {
                Some((NodeV::Str { size, content: Some(line) }, true))
            } else {
                None
            }
        },
        NodeV::Arr { size, current, children } => {
            let stepped = if current >= children.len() {
                base_step(line)
            } else {
                node_step(children[current as int], line)
            };
            match stepped {
                None => None,
                Some((c2, done)) => {
                    let kids = if current >= children.len() {
                        children.push(c2)
                    } else {
                        children.update(current as int, c2)
                    };
                    if done {
                        Some(
                            (
                                NodeV::Arr { size, current: current + 1, children: kids },
                                current + 1 == size,
                            ),
                        )
                    } else {
                        Some((NodeV::Arr { size, current, children: kids }, false))
                    }
                },
            }
        },
    }
}

/// Whether the machine has reported completion for this whole subtree.
pub open spec fn node_finished(n: NodeV) -> bool
    decreases n,
{
    match n {
        NodeV::Base => true,
        NodeV::Str { content, .. } => content is Some,
        NodeV::Arr { size, current, children } => {
            &&& current == size
            &&& children.len() == size
            &&& forall|i: int| 0 <= i < children.len() ==> node_finished(#[trigger] children[i])
        },
    }
}

/// The value a finished subtree denotes: inline tokens are nil, announced
/// strings are bulk strings, arrays collect their children.
pub open spec fn node_value(n: NodeV) -> DataV
    decreases n,
{
    match n {
        NodeV::Base => DataV::Nil,
        NodeV::Str { content, .. } => match content {
            Some(s) => DataV::BulkString(s),
            None => DataV::Nil,
        },
        NodeV::Arr { children, .. } => DataV::Array(
            Seq::new(
                children.len(),
                |i: int|
                    if 0 <= i < children.len() {
                        node_value(children[i])
                    } else {
                        DataV::Nil
                    },
            ),
        ),
    }
}

/// Step the first line of a value.
fn base_next(line: &str) -> (res: (ParserNode, Result<ParseResult, String>))
    ensures
        node_wf(node_view(res.0)),
        match base_step(line@) {
            Some((n2, done)) => node_view(res.0) == n2 && (res.1 matches Ok(pr) && ((
            pr is Complete) <==> done)),
            None => res.1 is Err && node_view(res.0) == NodeV::Base,
        },
{
    let n = line.unicode_len();
    if n >= 1 && line.get_char(0) == '*' {
        let digits = line.substring_char(1, n);
        proof {
            assert(digits@ =~= line@.skip(1));
        }
        match parse_u128(digits) {
            Some(v) => {
                if v <= usize::MAX as u128 {
                    proof {
                        assert(children_views(Seq::<ParserNode>::empty()) =~= Seq::<
                            NodeV,
                        >::empty());
                    }
                    (
                        ParserNode::Arr { size: v as usize, current: 0, children: Vec::new() },
                        Ok(ParseResult::IsMore),
                    )
                } else {
                    (ParserNode::Base, Err(String::from_str("Invalid count")))
                }
            },
            None => (ParserNode::Base, Err(String::from_str("Invalid count"))),
        }
    } else if n >= 1 && line.get_char(0) == '$' {
        let digits = line.substring_char(1, n);
        proof {
            assert(digits@ =~= line@.skip(1));
        }
        match parse_u128(digits) {
            Some(v) => {
                if v <= usize::MAX as u128 {
                    (
                        ParserNode::Str { size: v as usize, content: None },
                        Ok(ParseResult::IsMore),
                    )
                } else {
                    (ParserNode::Base, Err(String::from_str("Invalid count")))
                }
            },
            None => (ParserNode::Base, Err(String::from_str("Invalid count"))),
        }
    } else {
        (ParserNode::Base, Ok(ParseResult::Complete))
    }
}

/// Step one node on one line.
fn node_next(n: ParserNode, line: &str) -> (res: (ParserNode, Result<ParseResult, String>))
    requires
        node_wf(node_view(n)),
    ensures
        node_wf(node_view(res.0)),
        match node_step(node_view(n), line@) {
            Some((n2, done)) => node_view(res.0) == n2 && (res.1 matches Ok(pr) && ((
            pr is Complete) <==> done)),
            None => res.1 is Err && node_view(res.0) == node_view(n),
        },
    decreases n,
{
    match n {
        ParserNode::Base => base_next(line),
        ParserNode::Str { size, content } => {
            if line.unicode_len() == size {
                (
                    ParserNode::Str { size, content: Some(String::from_str(line)) },
                    Ok(ParseResult::Complete),
                )
            } else {
                (
                    ParserNode::Str { size, content },
                    Err(String::from_str("Expected size of string to match spec")),
                )
            }
        },
        ParserNode::Arr { size, current, mut children } => {
            let ghost cviews = children_views(children@);
            let ghost nv = NodeV::Arr { size: size as nat, current: current as nat, children: cviews };
            proof {
                assert(node_view(n) == nv);
            }
            if current >= children.len() {
                // The cursor points past the sequence: a fresh child
                // starts on this line.
                let (child2, r) = base_next(line);
                match r {
                    Ok(pr) => {
                        children.push(child2);
                        proof {
                            lemma_views_after_push(children@, cviews, child2);
                        }
                        let cl = children.len();
                        match pr {
                            ParseResult::Complete => {
                                proof {
                                    assert(current < cl);
                                }
                                let current2 = current + 1;
                                let done = current2 == size;
                                let out = ParserNode::Arr { size, current: current2, children };
                                proof {
                                    assert(node_view(out) == NodeV::Arr {
                                        size: size as nat,
                                        current: current2 as nat,
                                        children: cviews.push(node_view(child2)),
                                    });
                                }
                                (
                                    out,
                                    Ok(
                                        if done {
                                            ParseResult::Complete
                                        } else {
                                            ParseResult::IsMore
                                        },
                                    ),
                                )
                            },
                            ParseResult::IsMore => {
                                let out = ParserNode::Arr { size, current, children };
                                proof {
                                    assert(node_view(out) == NodeV::Arr {
                                        size: size as nat,
                                        current: current as nat,
                                        children: cviews.push(node_view(child2)),
                                    });
                                }
                                (out, Ok(ParseResult::IsMore))
                            },
                        }
                    },
                    Err(e) => (ParserNode::Arr { size, current, children }, Err(e)),
                }
            } else {
                // The cursor child is the last one; step it.
                proof {
                    assert(children@.len() == current + 1);
                    assert(node_view(children@.last()) == cviews[current as int]);
                }
                let child = match children.pop() {
                    Some(c) => c,
                    None => vstd::pervasive::unreached(),
                };
                let (child2, r) = node_next(child, line);
                children.push(child2);
                proof {
                    lemma_views_after_update(children@, cviews, child2, current as int);
                }
                match r {
                    Ok(pr) => {
                        let cl = children.len();
                        match pr {
                            ParseResult::Complete => {
                                proof {
                                    assert(current < cl);
                                }
                                let current2 = current + 1;
                                let done = current2 == size;
                                let out = ParserNode::Arr { size, current: current2, children };
                                proof {
                                    assert(node_view(out) == NodeV::Arr {
                                        size: size as nat,
                                        current: current2 as nat,
                                        children: cviews.update(current as int, node_view(child2)),
                                    });
                                }
                                (
                                    out,
                                    Ok(
                                        if done {
                                            ParseResult::Complete
                                        } else {
                                            ParseResult::IsMore
                                        },
                                    ),
                                )
                            },
                            ParseResult::IsMore => {
                                let out = ParserNode::Arr { size, current, children };
                                proof {
                                    assert(node_view(out) == NodeV::Arr {
                                        size: size as nat,
                                        current: current as nat,
                                        children: cviews.update(current as int, node_view(child2)),
                                    });
                                }
                                (out, Ok(ParseResult::IsMore))
                            },
                        }
                    },
                    Err(e) => {
                        let out = ParserNode::Arr { size, current, children };
                        proof {
                            assert(cviews.update(current as int, node_view(child2)) =~= cviews);
                            assert(node_view(out) == nv);
                        }
                        (out, Err(e))
                    },
                }
            }
        },
    }
}

/// Materialize one node, provided the machine finished it.
#[verifier::loop_isolation(false)]
fn node_to_datatype(n: &ParserNode) -> (r: Result<DataType, String>)
    ensures
        node_finished(node_view(*n)) ==> (r matches Ok(d) && d@ == node_value(node_view(*n))),
        !node_finished(node_view(*n)) ==> r is Err,
    decreases n,
{
    match n {
        ParserNode::Base => Ok(DataType::Nil),
        ParserNode::Str { size: _, content } => match content {
            Some(s) => Ok(DataType::BulkString(s.clone())),
            None => Err(String::from_str("Incomplete value")),
        },
        ParserNode::Arr { size, current, children } => {
            if children.len() != *size || *current != *size {
                return Err(String::from_str("Incomplete value"));
            }
            let mut arr: Vec<DataType> = Vec::new();
            let n_children = children.len();
            let mut i: usize = 0;
            while i < n_children
                invariant
                    i <= n_children,
                    n_children == children@.len(),
                    arr@.len() == i,
                    forall|j: int|
                        0 <= j < i ==> node_finished(
                            #[trigger] children_views(children@)[j],
                        ) && arr@[j]@ == node_value(children_views(children@)[j]),
                decreases n_children - i,
            {
                proof {
                    assert(children_views(children@)[i as int] == node_view(
                        children@[i as int],
                    ));
                }
                let child = match node_to_datatype(&children[i]) {
                    Ok(d) => d,
                    Err(e) => {
                        proof {
                            assert(!node_finished(children_views(children@)[i as int]));
                        }
                        return Err(e);
                    },
                };
                arr.push(child);
                i += 1;
            }
            let out = DataType::Array(arr);
            proof {
                let cs = children_views(children@);
                assert(node_finished(node_view(*n)));
                assert(node_value(node_view(*n)) matches DataV::Array(vs) ==> vs.len()
                    == cs.len());
                assert((out@)->Array_0 =~= node_value(node_view(*n))->Array_0);
            }
            Ok(out)
        },
    }
}

impl Parser {
    /// A fresh decoder, before any line.
    pub fn new() -> (p: Parser)
        ensures
            p@ == NodeV::Base,
            node_wf(p@),
    {
        Parser { state: ParserNode::Base }
    }

    /// Feed one line.  The result mirrors one step of [`node_step`]: the
    /// new state and whether the value is complete, or a parse error, on
    /// which the state is unchanged.
    pub fn next(&mut self, str: &str) -> (r: Result<ParseResult, String>)
        requires
            node_wf(old(self)@),
        ensures
            node_wf(final(self)@),
            match node_step(old(self)@, str@) {
                Some((n2, done)) => final(self)@ == n2 && (r matches Ok(pr) && ((
                pr is Complete) <==> done)),
                None => r is Err && final(self)@ == old(self)@,
            },
    {
        let mut st = ParserNode::Base;
        core::mem::swap(&mut st, &mut self.state);
        let (st2, r) = node_next(st, str);
        self.state = st2;
        r
    }

    /// Materialize the decoded value: the tree's value once the machine
    /// finished it, and a parse error on a truncated value.
    pub fn to_datatype(&self) -> (r: Result<DataType, String>)
        ensures
            node_finished(self@) ==> (r matches Ok(d) && d@ == node_value(self@)),
            !node_finished(self@) ==> r is Err,
    {
        node_to_datatype(&self.state)
    }
}

/// The views of children extended by one node are the old views extended
/// by its view.
proof fn lemma_views_after_push(news: Seq<ParserNode>, old_views: Seq<NodeV>, last: ParserNode)
    requires
        news.len() >= 1,
        old_views.len() == news.len() - 1,
        forall|i: int|
            0 <= i < old_views.len() ==> #[trigger] old_views[i] == node_view(news[i]),
        news.last() == last,
    ensures
        children_views(news) == old_views.push(node_view(last)),
{
    assert(children_views(news) =~= old_views.push(node_view(last)));
}

/// The views of children whose last entry was replaced are the old views
/// updated at that position.
proof fn lemma_views_after_update(
    news: Seq<ParserNode>,
    old_views: Seq<NodeV>,
    last: ParserNode,
    at: int,
)
    requires
        news.len() >= 1,
        old_views.len() == news.len(),
        at == news.len() - 1,
        forall|i: int| 0 <= i < at ==> #[trigger] old_views[i] == node_view(news[i]),
        news.last() == last,
    ensures
        children_views(news) == old_views.update(at, node_view(last)),
{
    assert(children_views(news) =~= old_views.update(at, node_view(last)));
}

} // verus!
