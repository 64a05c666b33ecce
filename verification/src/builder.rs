//! Building a tree from tokens in the order of the source.

use vstd::prelude::*;

use crate::kind::Kind;
use crate::lexer::{concatenation, initial_state, tokenizes};
use crate::text::{lemma_utf8_len_of_joined, utf8_len};
use crate::tokenizer::{token_views, tokenize};
use crate::tree::{
    chained, leaves, lemma_concatenation_of_joined, lemma_leaves_of_joined, Element, Node, Span,
    Token,
};

verus! {

/// A node that is still open: its kind, the children it has so far and
/// where it starts.
pub struct Frame {
    pub kind: Kind,
    pub children: Vec<Element>,
    pub start: u32,
}

/// A place among the children of the innermost open node, to which a node
/// can be opened later, around all that came since.
#[derive(Debug, Clone, Copy, PartialEq, Eq, Structural)]
pub struct Checkpoint {
    pub depth: usize,
    pub index: usize,
}

/// Builds a tree from the outside in and from left to right. Nodes are
/// opened and closed like brackets, tokens join the innermost open node.
pub struct TreeBuilder {
    pub frames: Vec<Frame>,
    pub offset: u32,
}

/// Where the open node at `index` ends so far: where the next open node
/// starts, or where the tokens end.
pub open spec fn frame_end(frames: Seq<Frame>, index: int, offset: u32) -> u32 {
    if index + 1 < frames.len() {
        frames[index + 1].start
    } else {
        offset
    }
}

/// Whether the open node at `index` spans its children so far.
pub open spec fn frame_fits(frames: Seq<Frame>, index: int, offset: u32) -> bool {
    &&& frames[index].start <= frame_end(frames, index, offset)
    &&& chained(
        frames[index].children@,
        frames[index].start as int,
        frame_end(frames, index, offset) as int,
    )
}

/// The tokens below the children of open nodes, in the order of the
/// source.
pub open spec fn frames_leaves(frames: Seq<Frame>) -> Seq<(Kind, Seq<char>)>
    decreases frames.len(),
{
    if frames.len() == 0 {
        Seq::empty()
    } else {
        frames_leaves(frames.drop_last()) + leaves(frames.last().children@)
    }
}

/// A run of children that spans a stretch, and a child that spans what
/// follows, span both together.
pub proof fn lemma_chained_one_more(children: Seq<Element>, start: int, end: int, child: Element)
    requires
        chained(children, start, end),
        child.well_formed(),
        child.span_of().start == end,
        child.span_of().start <= child.span_of().end,
    ensures
        chained(children.push(child), start, child.span_of().end as int),
{
    assert(children.push(child).drop_last() =~= children);
}

/// A run of children that spans a stretch can be cut in two runs that
/// span what lies before and behind the cut.
pub proof fn lemma_chained_cut(children: Seq<Element>, start: int, end: int, at: int)
    requires
        chained(children, start, end),
        0 <= at <= children.len(),
    ensures
        chained(children.subrange(0, at), start, cut_offset(children, at, end)),
        chained(
            children.subrange(at, children.len() as int),
            cut_offset(children, at, end),
            end,
        ),
        start <= cut_offset(children, at, end) <= end,
    decreases children.len() - at,
{
    let behind = children.subrange(at, children.len() as int);
    if at == children.len() {
        assert(children.subrange(0, at) =~= children);
        assert(behind =~= Seq::<Element>::empty());
        lemma_chained_ordered(children, start, end);
    } else {
        let last = children.last();
        let rest = children.drop_last();
        lemma_chained_ordered(rest, start, last.span_of().start as int);
        assert(last.well_formed());
        assert(last.span_of().start <= last.span_of().end == end);
        if at == children.len() - 1 {
            assert(children.subrange(0, at) =~= rest);
            assert(behind.len() == 1);
            assert(behind.drop_last() =~= Seq::<Element>::empty());
            assert(behind.last() == last);
            assert(children[at] == last);
            assert(chained(behind.drop_last(), last.span_of().start as int, last.span_of().start as int));
            assert(chained(behind, cut_offset(children, at, end), end));
        } else {
            lemma_chained_cut(rest, start, last.span_of().start as int, at);
            assert(rest.subrange(0, at) =~= children.subrange(0, at));
            assert(behind.drop_last() =~= rest.subrange(at, rest.len() as int));
            assert(behind.last() == last);
            assert(rest[at] == children[at]);
            assert(cut_offset(rest, at, last.span_of().start as int) == cut_offset(
                children,
                at,
                end,
            ));
            assert(chained(behind.drop_last(), cut_offset(children, at, end), last.span_of().start as int));
            assert(chained(behind, cut_offset(children, at, end), end));
        }
    }
}

/// A run of children spans a stretch that does not end before it starts.
pub proof fn lemma_chained_ordered(children: Seq<Element>, start: int, end: int)
    requires
        chained(children, start, end),
    ensures
        start <= end,
    decreases children.len(),
{
    if children.len() > 0 {
        lemma_chained_ordered(children.drop_last(), start, children.last().span_of().start as int);
    }
}

/// Where the child at `at` starts, or the end behind the last child.
pub open spec fn cut_offset(children: Seq<Element>, at: int, end: int) -> int {
    if 0 <= at < children.len() {
        children[at].span_of().start as int
    } else {
        end
    }
}

/// The tokens of open nodes with one more node opened, which has no
/// children yet, are the same.
pub proof fn lemma_frames_leaves_pushed(frames: Seq<Frame>, frame: Frame)
    ensures
        frames_leaves(frames.push(frame)) == frames_leaves(frames) + leaves(frame.children@),
{
    assert(frames.push(frame).drop_last() =~= frames);
}

impl TreeBuilder {
    /// Every open node spans its children so far, and there is an
    /// outermost node.
    pub open spec fn well_formed(&self) -> bool {
        &&& self.frames@.len() > 0
        &&& forall|index: int|
            0 <= index < self.frames@.len() ==> #[trigger] frame_fits(
                self.frames@,
                index,
                self.offset,
            )
    }

    /// The tokens added so far, each with its kind and text.
    pub open spec fn leaves(&self) -> Seq<(Kind, Seq<char>)> {
        frames_leaves(self.frames@)
    }

    /// The number of nodes that are open.
    pub open spec fn depth(&self) -> nat {
        self.frames@.len()
    }

    /// The kind of the outermost node and where it starts.
    pub open spec fn root(&self) -> (Kind, u32) {
        (self.frames@[0].kind, self.frames@[0].start)
    }

    /// Creates a builder with the outermost node open and no token yet.
    pub fn new(kind: Kind) -> (result: TreeBuilder)
        ensures
            result.well_formed(),
            result.leaves() == Seq::<(Kind, Seq<char>)>::empty(),
            result.depth() == 1,
            result.offset == 0,
            result.root() == (kind, 0u32),
    {
        let mut frames: Vec<Frame> = Vec::new();
        let frame = Frame { kind, children: Vec::new(), start: 0 };
        frames.push(frame);
        let result = TreeBuilder { frames, offset: 0 };
        proof {
            assert(result.frames@.drop_last() =~= Seq::<Frame>::empty());
            assert(frames_leaves(result.frames@.drop_last()) =~= Seq::empty());
            assert(result.leaves() =~= Seq::<(Kind, Seq<char>)>::empty());
            assert(frame_fits(result.frames@, 0, 0));
        }
        result
    }

    /// Adds a token to the innermost open node. Returns whether it was
    /// added: it is not where the text would end beyond what an offset can
    /// hold, and the builder is then left as it was.
    pub fn token(&mut self, kind: Kind, text: &str) -> (added: bool)
        requires
            old(self).well_formed(),
        ensures
            final(self).well_formed(),
            final(self).depth() == old(self).depth(),
            final(self).root() == old(self).root(),
            added == (old(self).offset + utf8_len(text@) <= u32::MAX),
            added ==> final(self).leaves() == old(self).leaves().push((kind, text@))
                && final(self).offset == old(self).offset + utf8_len(text@),
            !added ==> final(self).leaves() == old(self).leaves() && final(self).offset == old(
                self,
            ).offset,
    {
        let token = match Token::new(kind, text, self.offset) {
            Some(token) => token,
            None => {
                return false;
            },
        };
        let ghost before = self.frames@;
        let ghost start = self.offset;
        let end = token.span.end;
        let ghost child = Element::Token(token);
        let mut frame = match self.frames.pop() {
            Some(frame) => frame,
            None => {
                return false;
            },
        };
        let ghost rest = self.frames@;
        let ghost old_children = frame.children@;
        proof {
            assert(frame_fits(before, before.len() - 1, start));
            lemma_chained_one_more(old_children, frame.start as int, start as int, child);
            lemma_leaves_of_joined(old_children, seq![child]);
            assert(old_children + seq![child] =~= old_children.push(child));
            assert(seq![child].drop_last() =~= Seq::<Element>::empty());
            assert(leaves(seq![child].drop_last()) =~= Seq::<(Kind, Seq<char>)>::empty());
            assert(child.leaves() =~= seq![(kind, text@)]);
            assert(leaves(seq![child]) =~= seq![(kind, text@)]);
        }
        frame.children.push(Element::Token(token));
        self.frames.push(frame);
        self.offset = end;
        proof {
            let after = self.frames@;
            assert(after.drop_last() =~= rest);
            assert(before.drop_last() =~= rest);
            assert(frames_leaves(after) =~= frames_leaves(before).push((kind, text@)));
            assert forall|index: int| 0 <= index < after.len() implies #[trigger] frame_fits(
                after,
                index,
                self.offset,
            ) by {
                if index < after.len() - 1 {
                    assert(frame_fits(before, index, start));
                    assert(after[index] == before[index]);
                    if index + 1 < after.len() - 1 {
                        assert(after[index + 1] == before[index + 1]);
                    }
                }
            }
        }
        true
    }

    /// Opens a node inside the innermost open node.
    pub fn start_node(&mut self, kind: Kind)
        requires
            old(self).well_formed(),
        ensures
            final(self).well_formed(),
            final(self).depth() == old(self).depth() + 1,
            final(self).root() == old(self).root(),
            final(self).leaves() == old(self).leaves(),
            final(self).offset == old(self).offset,
    {
        let ghost before = self.frames@;
        let frame = Frame { kind, children: Vec::new(), start: self.offset };
        proof {
            lemma_frames_leaves_pushed(before, frame);
            assert(leaves(frame.children@) =~= Seq::empty());
            assert(frames_leaves(before) + Seq::<(Kind, Seq<char>)>::empty() =~= frames_leaves(
                before,
            ));
        }
        self.frames.push(frame);
        proof {
            let after = self.frames@;
            assert forall|index: int| 0 <= index < after.len() implies #[trigger] frame_fits(
                after,
                index,
                self.offset,
            ) by {
                if index < before.len() {
                    assert(frame_fits(before, index, self.offset));
                }
            }
        }
    }

    /// Closes the innermost open node, which joins the children of the node
    /// around it. Returns whether it was closed: the outermost node is
    /// closed by [`TreeBuilder::finish`] alone, and the builder is left as it
    /// was.
    pub fn finish_node(&mut self) -> (closed: bool)
        requires
            old(self).well_formed(),
        ensures
            final(self).well_formed(),
            closed == (old(self).depth() > 1),
            closed ==> final(self).depth() == old(self).depth() - 1,
            !closed ==> final(self).depth() == old(self).depth(),
            final(self).root() == old(self).root(),
            final(self).leaves() == old(self).leaves(),
            final(self).offset == old(self).offset,
    {
        if self.frames.len() < 2 {
            return false;
        }
        self.finish_node_keeping_root()
    }

    /// Returns the place behind the children that the innermost open node
    /// has so far.
    pub fn checkpoint(&self) -> (result: Checkpoint)
        requires
            self.well_formed(),
        ensures
            result.depth == self.depth(),
            result.index == self.frames@.last().children@.len(),
    {
        let top: usize = self.frames.len() - 1;
        Checkpoint { depth: self.frames.len(), index: self.frames[top].children.len() }
    }

    /// Opens a node at a checkpoint: inside the innermost open node,
    /// around all its children that came since the checkpoint. Returns
    /// whether it was opened: it is not where the checkpoint was taken in
    /// another open node or behind more children than there are, and the
    /// builder is then left as it was.
    pub fn start_node_at(&mut self, checkpoint: Checkpoint, kind: Kind) -> (opened: bool)
        requires
            old(self).well_formed(),
        ensures
            final(self).well_formed(),
            opened == (checkpoint.depth == old(self).depth() && checkpoint.index <= old(
                self,
            ).frames@.last().children@.len()),
            opened ==> final(self).depth() == old(self).depth() + 1,
            !opened ==> final(self).depth() == old(self).depth(),
            final(self).root() == old(self).root(),
            final(self).leaves() == old(self).leaves(),
            final(self).offset == old(self).offset,
    {
        let top: usize = self.frames.len() - 1;
        if checkpoint.depth != self.frames.len() || checkpoint.index
            > self.frames[top].children.len() {
            return false;
        }
        let ghost before = self.frames@;
        proof {
            assert(frame_fits(before, top as int, self.offset));
        }
        let mut outer = match self.frames.pop() {
            Some(frame) => frame,
            None => {
                return false;
            },
        };
        let ghost rest = self.frames@;
        let ghost all = outer.children@;
        let start = if checkpoint.index < outer.children.len() {
            outer.children[checkpoint.index].span().start
        } else {
            self.offset
        };
        let tail = outer.children.split_off(checkpoint.index);
        proof {
            lemma_chained_cut(all, outer.start as int, self.offset as int, checkpoint.index as int);
            assert(outer.children@ =~= all.subrange(0, checkpoint.index as int));
            assert(tail@ =~= all.subrange(checkpoint.index as int, all.len() as int));
            lemma_leaves_of_joined(outer.children@, tail@);
            assert(outer.children@ + tail@ =~= all);
        }
        let inner = Frame { kind, children: tail, start };
        self.frames.push(outer);
        self.frames.push(inner);
        proof {
            let after = self.frames@;
            assert(after.drop_last().drop_last() =~= rest);
            assert(before.drop_last() =~= rest);
            assert(frames_leaves(after) == frames_leaves(after.drop_last()) + leaves(tail@));
            assert(frames_leaves(after.drop_last()) == frames_leaves(rest) + leaves(
                after.drop_last().last().children@,
            ));
            assert(frames_leaves(after) =~= frames_leaves(before));
            assert forall|index: int| 0 <= index < after.len() implies #[trigger] frame_fits(
                after,
                index,
                self.offset,
            ) by {
                if index < top {
                    assert(frame_fits(before, index, self.offset));
                    assert(after[index] == before[index]);
                    if index + 1 < top {
                        assert(after[index + 1] == before[index + 1]);
                    }
                }
            }
        }
        true
    }

    /// Closes all open nodes and returns the outermost one: a tree that is
    /// well formed and holds the tokens added, in their order.
    pub fn finish(self) -> (root: Node)
        requires
            self.well_formed(),
        ensures
            root.well_formed(),
            root.leaves() == self.leaves(),
            root.kind == self.root().0,
            root.span.start == self.root().1,
            root.span.end == self.offset,
    {
        let mut builder = self;
        while builder.frames.len() > 1
            invariant
                builder.well_formed(),
                builder.leaves() == self.leaves(),
                builder.offset == self.offset,
                builder.root() == self.root(),
            decreases builder.frames@.len(),
        {
            builder.finish_node_keeping_root();
        }
        proof {
            assert(frame_fits(builder.frames@, 0, builder.offset));
            assert(builder.frames@.drop_last() =~= Seq::<Frame>::empty());
            assert(frames_leaves(builder.frames@.drop_last()) =~= Seq::empty());
            assert(frames_leaves(builder.frames@) =~= leaves(builder.frames@[0].children@));
        }
        let offset = builder.offset;
        let mut frames = builder.frames;
        match frames.pop() {
            Some(frame) => Node {
                kind: frame.kind,
                children: frame.children,
                span: Span::new(frame.start, offset),
            },
            None => Node { kind: Kind::NODE_ROOT, children: Vec::new(), span: Span::empty(offset) },
        }
    }

    /// Closes the innermost open node, which is not the outermost one.
    fn finish_node_keeping_root(&mut self) -> (closed: bool)
        requires
            old(self).well_formed(),
            old(self).depth() > 1,
        ensures
            closed,
            final(self).well_formed(),
            final(self).depth() == old(self).depth() - 1,
            final(self).leaves() == old(self).leaves(),
            final(self).offset == old(self).offset,
            final(self).root() == old(self).root(),
    {
        let ghost before = self.frames@;
        let ghost last = before.len() - 1;
        proof {
            assert(frame_fits(before, last, self.offset));
            assert(frame_fits(before, last - 1, self.offset));
        }
        let inner = match self.frames.pop() {
            Some(frame) => frame,
            None => {
                return false;
            },
        };
        let mut outer = match self.frames.pop() {
            Some(frame) => frame,
            None => {
                return false;
            },
        };
        let ghost rest = self.frames@;
        let ghost outer_children = outer.children@;
        let ghost inner_children = inner.children@;
        let node = Node {
            kind: inner.kind,
            children: inner.children,
            span: Span::new(inner.start, self.offset),
        };
        let ghost child = Element::Node(node);
        proof {
            assert(child.well_formed());
            lemma_chained_one_more(outer_children, outer.start as int, inner.start as int, child);
            lemma_leaves_of_joined(outer_children, seq![child]);
            assert(outer_children + seq![child] =~= outer_children.push(child));
            assert(seq![child].drop_last() =~= Seq::<Element>::empty());
            assert(leaves(seq![child].drop_last()) =~= Seq::<(Kind, Seq<char>)>::empty());
            assert(child.leaves() =~= leaves(inner_children));
            assert(leaves(seq![child]) =~= leaves(inner_children));
        }
        outer.children.push(Element::Node(node));
        self.frames.push(outer);
        proof {
            let after = self.frames@;
            assert(after.drop_last() =~= rest);
            assert(before.drop_last().drop_last() =~= rest);
            assert(frames_leaves(before) == frames_leaves(before.drop_last()) + leaves(
                inner_children,
            ));
            assert(frames_leaves(before.drop_last()) == frames_leaves(rest) + leaves(
                outer_children,
            ));
            assert(frames_leaves(after) =~= frames_leaves(before));
            assert forall|index: int| 0 <= index < after.len() implies #[trigger] frame_fits(
                after,
                index,
                self.offset,
            ) by {
                if index < after.len() - 1 {
                    assert(frame_fits(before, index, self.offset));
                    assert(after[index] == before[index]);
                    if index + 1 < after.len() - 1 {
                        assert(after[index + 1] == before[index + 1]);
                    }
                }
            }
        }
        true
    }
}

/// Returns the tree of a source in which all tokens are children of the
/// root: the tree that a parser starts from. Nothing of the source is lost
/// in it. `None` where the source is longer than an offset can hold.
pub fn flat_tree(source: &str) -> (result: Option<Node>)
    ensures
        result.is_some() == (utf8_len(source@) <= u32::MAX),
        result.is_some() ==> {
            let root = result.unwrap();
            &&& root.well_formed()
            &&& root.kind == Kind::NODE_ROOT
            &&& tokenizes(source@, initial_state(), root.leaves())
            &&& root.text() == source@
            &&& root.span == (Span { start: 0, end: utf8_len(source@) as u32 })
        },
{
    let tokens = tokenize(source);
    let mut builder = TreeBuilder::new(Kind::NODE_ROOT);
    let mut index: usize = 0;
    let ghost views = token_views(tokens@);
    proof {
        assert(views.take(0) =~= Seq::empty());
        assert(concatenation(views.take(0)) =~= Seq::<char>::empty());
        assert(utf8_len(Seq::<char>::empty()) == 0) by {
            assert(vstd::utf8::encode_utf8(Seq::<char>::empty()) =~= Seq::<u8>::empty());
        }
    }
    while index < tokens.len()
        invariant
            index <= tokens.len(),
            views == token_views(tokens@),
            concatenation(views) == source@,
            builder.well_formed(),
            builder.depth() == 1,
            builder.root() == (Kind::NODE_ROOT, 0u32),
            builder.leaves() == views.take(index as int),
            builder.offset == utf8_len(concatenation(views.take(index as int))),
        decreases tokens.len() - index,
    {
        proof {
            lemma_taken_len(views, index as int);
            lemma_taken_len(views, index + 1);
            assert(views.take(index + 1) =~= views.take(index as int).push(views[index as int]));
        }
        let token = tokens[index];
        if !builder.token(token.0, token.1) {
            return None;
        }
        index += 1;
    }
    proof {
        lemma_taken_len(views, views.len() as int);
    }
    proof {
        assert(views.take(views.len() as int) =~= views);
    }
    Some(builder.finish())
}

/// The text of the first tokens of a run is encoded in no more bytes than
/// the text of the whole run, and in as many more bytes with one more
/// token as that token is long.
pub proof fn lemma_taken_len(tokens: Seq<(Kind, Seq<char>)>, count: int)
    requires
        0 <= count <= tokens.len(),
    ensures
        utf8_len(concatenation(tokens.take(count))) <= utf8_len(concatenation(tokens)),
        count < tokens.len() ==> utf8_len(concatenation(tokens.take(count + 1))) == utf8_len(
            concatenation(tokens.take(count)),
        ) + utf8_len(tokens[count].1),
{
    let taken = tokens.take(count);
    let left = tokens.skip(count);
    assert(taken + left =~= tokens);
    lemma_concatenation_of_joined(taken, left);
    lemma_utf8_len_of_joined(concatenation(taken), concatenation(left));
    if count < tokens.len() {
        assert(tokens.take(count + 1).drop_last() =~= taken);
        lemma_utf8_len_of_joined(concatenation(taken), tokens[count].1);
    }
}

/// The text of a run of tokens starts with the text of its first token.
pub proof fn lemma_concatenation_starts(tokens: Seq<(Kind, Seq<char>)>)
    requires
        tokens.len() > 0,
    ensures
        concatenation(tokens) == tokens[0].1 + concatenation(
            tokens.subrange(1, tokens.len() as int),
        ),
{
    let first = seq![tokens[0]];
    let rest = tokens.subrange(1, tokens.len() as int);
    assert(first + rest =~= tokens);
    lemma_concatenation_of_joined(first, rest);
    assert(first.drop_last() =~= Seq::<(Kind, Seq<char>)>::empty());
    assert(concatenation(first.drop_last()) =~= Seq::<char>::empty());
    assert(concatenation(first) =~= tokens[0].1);
}

} // verus!
