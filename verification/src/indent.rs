//! Writing text with every line indented.

use vstd::prelude::*;
use vstd::string::StringExecFns;

use crate::text::{
    characters, consume_while, encoded_len, lemma_utf8_len_of_joined, lemma_utf8_len_of_one,
    lemma_utf8_len_of_stretch, scan_while, slice_of, utf8_len, CharClass,
};

verus! {

/// Where an indent writer stands in its line.
#[derive(Debug, Clone, Copy, PartialEq, Eq, Structural)]
pub enum IndentPlace {
    /// At the start of a line, before the indent.
    Start,
    /// Inside a line.
    Middle,
    /// At the end of a line, before the line break.
    End,
}

/// What the first indent is made of in place of spaces: a text, and the
/// number of columns it takes.
#[derive(Debug, Clone, PartialEq, Eq)]
pub struct IndentWith {
    pub text: String,
    pub width: u16,
}

/// A writer that indents the lines written to it by a number of columns.
/// The first indent may hold a header; what the header leaves of the
/// columns is filled with spaces.
#[derive(Debug)]
pub struct IndentWriter {
    /// What was written so far.
    pub writer: String,
    /// The header of the first indent, until it is written.
    pub with: Option<IndentWith>,
    /// The number of columns of the indent.
    pub count: u16,
    /// Where the writer stands in its line.
    pub place: IndentPlace,
}

/// What an indent writer holds, as plain values.
pub struct IndentState {
    pub written: Seq<char>,
    pub with: Option<(Seq<char>, u16)>,
    pub count: u16,
    pub place: IndentPlace,
}

/// A run of spaces.
pub open spec fn spaces(count: nat) -> Seq<char> {
    Seq::new(count, |index: int| ' ')
}

/// The writer after an indent: the header, if it is still to be written,
/// and spaces up to the number of columns; the writer is then inside a
/// line, and the header is written.
pub open spec fn after_indent(state: IndentState) -> IndentState {
    IndentState {
        written: match state.with {
            Some((text, width)) => state.written + text + spaces((state.count - width) as nat),
            None => state.written + spaces(state.count as nat),
        },
        with: None,
        place: IndentPlace::Middle,
        ..state
    }
}

/// The writer after what its place calls for before a piece of text: at
/// the start of a line an indent, if a line that is not empty follows; at
/// the end of a line the line break, which leads to the start of the next
/// line.
pub open spec fn after_place(state: IndentState, indents: bool) -> IndentState {
    match state.place {
        IndentPlace::Start => if indents {
            after_indent(state)
        } else {
            state
        },
        IndentPlace::End => IndentState {
            written: state.written.push('\n'),
            place: IndentPlace::Start,
            ..state
        },
        IndentPlace::Middle => state,
    }
}

/// The writer after a line, or a part of one, that holds no line break.
pub open spec fn after_line(state: IndentState, line: Seq<char>) -> IndentState {
    let placed = after_place(state, line.len() > 0);
    IndentState { written: placed.written + line, ..placed }
}

/// The writer after a line break in the text: it stands at the end of its
/// line, and the break is written before what comes next.
pub open spec fn after_break(state: IndentState) -> IndentState {
    IndentState { place: IndentPlace::End, ..after_place(state, false) }
}

/// The writer after the text from `from` on, line by line.
pub open spec fn after_text(state: IndentState, text: Seq<char>, from: int) -> IndentState
    decreases text.len() - from,
{
    let to = scan_while(text, from, CharClass::NotNewline);
    let written = after_line(state, text.subrange(from, to));
    if 0 <= from <= to < text.len() {
        after_text(after_break(written), text, to + 1)
    } else {
        written
    }
}

impl View for IndentWriter {
    type V = IndentState;

    open spec fn view(&self) -> IndentState {
        IndentState {
            written: self.writer@,
            with: match self.with {
                Some(with) => Some((with.text@, with.width)),
                None => None,
            },
            count: self.count,
            place: self.place,
        }
    }
}

impl IndentWriter {
    /// The header, where there is one, takes no more columns than the
    /// indent has.
    pub open spec fn well_formed(&self) -> bool {
        match self.with {
            Some(with) => with.width <= self.count,
            None => true,
        }
    }

    /// Writes the indent. The writer must stand at the start of a line.
    pub fn write_indent(&mut self)
        requires
            old(self).well_formed(),
            old(self).place == IndentPlace::Start,
        ensures
            final(self)@ == after_indent(old(self)@),
            final(self).well_formed(),
    {
        let ghost before = self.writer@;
        let wrote: u16 = match self.with.take() {
            Some(with) => {
                self.writer.append(with.text.as_str());
                with.width
            },
            None => {
                assert(before + Seq::<char>::empty() =~= before);
                0
            },
        };
        let ghost headed = self.writer@;
        let fill: u16 = self.count - wrote;
        let mut written: u16 = 0;
        proof {
            assert(headed + spaces(0) =~= headed);
        }
        while written < fill
            invariant
                written <= fill,
                self.writer@ == headed + spaces(written as nat),
                self.with.is_none(),
                self.count == old(self).count,
                self.place == old(self).place,
            decreases fill - written,
        {
            proof {
                reveal_strlit(" ");
                assert(headed + spaces(written as nat) + " "@ =~= headed + spaces(
                    (written + 1) as nat,
                ));
            }
            self.writer.append(" ");
            written += 1;
        }
        self.place = IndentPlace::Middle;
    }

    /// Writes what the place of the writer calls for before a piece of
    /// text.
    fn write_place(&mut self, indents: bool)
        requires
            old(self).well_formed(),
        ensures
            final(self)@ == after_place(old(self)@, indents),
            final(self).well_formed(),
    {
        match self.place {
            IndentPlace::Start => {
                if indents {
                    self.write_indent();
                }
            },
            IndentPlace::End => {
                proof {
                    reveal_strlit("\n");
                    assert(self.writer@ + "\n"@ =~= self.writer@.push('\n'));
                }
                self.writer.append("\n");
                self.place = IndentPlace::Start;
            },
            IndentPlace::Middle => {},
        }
    }

    /// Writes a text, every line of it indented.
    pub fn write_str(&mut self, text: &str)
        requires
            old(self).well_formed(),
        ensures
            final(self)@ == after_text(old(self)@, text@, 0),
            final(self).well_formed(),
    {
        let chars = characters(text);
        let length: usize = chars.len();
        let mut from: usize = 0;
        let mut byte: usize = 0;
        proof {
            assert(text@.subrange(0, 0) =~= Seq::<char>::empty());
            lemma_utf8_len_of_joined(Seq::empty(), Seq::empty());
        }
        loop
            invariant
                from <= length == chars.len(),
                chars@ == text@,
                utf8_len(text@) <= usize::MAX,
                byte == utf8_len(text@.subrange(0, from as int)),
                self.well_formed(),
                after_text(old(self)@, text@, 0) == after_text(self@, text@, from as int),
            decreases length - from,
        {
            let to = consume_while(chars.as_slice(), from, CharClass::NotNewline);
            let bytes = encoded_len(chars.as_slice(), from, to);
            proof {
                lemma_utf8_len_of_stretch(text@, 0, from as int, to as int);
            }
            self.write_place(to > from);
            self.writer.append(slice_of(text, byte, bytes, Ghost(from as int), Ghost(to as int)));
            if to >= length {
                return ;
            }
            proof {
                lemma_utf8_len_of_stretch(text@, 0, to as int, to + 1);
                assert(text@.subrange(to as int, to + 1) =~= seq![text@[to as int]]);
                lemma_utf8_len_of_one(text@[to as int]);
            }
            self.write_place(false);
            self.place = IndentPlace::End;
            byte = byte + bytes + 1;
            from = to + 1;
        }
    }

    /// Returns what was written.
    pub fn finish(self) -> (result: String)
        ensures
            result@ == self@.written,
    {
        self.writer
    }
}

/// Creates an indent writer that fills its indents with spaces.
pub fn indent(writer: String, count: u16) -> (result: IndentWriter)
    ensures
        result.well_formed(),
        result@ == (IndentState {
            written: writer@,
            with: None,
            count,
            place: IndentPlace::Start,
        }),
{
    IndentWriter { writer: writer, with: None, count: count, place: IndentPlace::Start }
}

/// Creates an indent writer whose first indent holds a header. `None`
/// where the header takes more columns than the indent has.
pub fn indent_with(writer: String, count: u16, with: IndentWith) -> (result: Option<IndentWriter>)
    ensures
        result.is_some() == (with.width <= count),
        result.is_some() ==> result.unwrap().well_formed() && result.unwrap()@ == (IndentState {
            written: writer@,
            with: Some((with.text@, with.width)),
            count,
            place: IndentPlace::Start,
        }),
{
    if with.width > count {
        return None;
    }
    Some(
        IndentWriter {
            writer: writer,
            with: Some(with),
            count: count,
            place: IndentPlace::Start,
        },
    )
}

} // verus!
