//! The editable text buffer: characters are appended at the end, and the
//! erase character takes the last grapheme cluster away again.

use crate::buffer::{outcome_of, Buffer, BufferEvent, EventHandlerOutcome};
use unicode_segmentation::UnicodeSegmentation;
use vstd::prelude::*;

verus! {

/// The character that erases: backspace.
pub const BACKSPACE_CHAR: char = '\u{08}';

/// The last extended grapheme cluster of `text`, as Unicode Standard Annex
/// #29 delimits it; `None` for the empty text.
pub uninterp spec fn last_grapheme(text: Seq<char>) -> Option<Seq<char>>;

/// `UnicodeSegmentation::grapheme_indices` with extended clusters, followed
/// by `Iterator::last`: the last grapheme cluster of `text`.
///
/// The segmentation rules themselves are not restated: the cluster is
/// `last_grapheme(text@)`. Taken from the iterator's source is that the
/// empty text has no cluster, and that the last cluster of any other text is
/// a non-empty slice that reaches to the end of the text.
#[verifier::external_body]
fn last_grapheme_of(text: &str) -> (cluster: Option<String>)
    ensures
        cluster.deep_view() == last_grapheme(text@),
        cluster is None <==> text@.len() == 0,
        cluster matches Some(g) ==> ends_with_cluster(text@, g@),
{
    text.grapheme_indices(true).last().map(|(_, cluster)| cluster.to_string())
}

/// `String::push`: appends `c` to `text`.
#[verifier::external_body]
pub(crate) fn push_char(text: &mut String, c: char)
    ensures
        final(text)@ == old(text)@.push(c),
{
    text.push(c);
}

/// `text` ends with the characters of `cluster`, of which there is at least
/// one.
pub open spec fn ends_with_cluster(text: Seq<char>, cluster: Seq<char>) -> bool {
    &&& 0 < cluster.len() <= text.len()
    &&& text.subrange(text.len() - cluster.len(), text.len() as int) == cluster
}

/// `text` without its last `count` characters; `text` itself where it has
/// no `count` characters to lose, or `count` is zero.
pub open spec fn without_last(text: Seq<char>, count: nat) -> Seq<char> {
    if 0 < count <= text.len() {
        text.subrange(0, text.len() - count)
    } else {
        text
    }
}

/// `text` after an erase that found `cluster` to be its last grapheme
/// cluster.
pub open spec fn erased(text: Seq<char>, cluster: Option<Seq<char>>) -> Seq<char> {
    match cluster {
        Some(g) => without_last(text, g.len()),
        None => text,
    }
}

/// `text` after the character `c` was typed: without its last grapheme
/// cluster if `c` erases, with `c` at its end otherwise.
pub open spec fn typed(text: Seq<char>, c: char) -> Seq<char> {
    if c == BACKSPACE_CHAR {
        erased(text, last_grapheme(text))
    } else {
        text.push(c)
    }
}

/// `after` is `before` without its last grapheme cluster, which is made of
/// at least one character.
pub open spec fn lost_last_cluster(before: Seq<char>, after: Seq<char>) -> bool {
    &&& last_grapheme(before) matches Some(g)
    &&& g.len() > 0
    &&& before == after + g
}

/// `text` after each character of `input` was typed, first to last.
pub open spec fn typed_all(text: Seq<char>, input: Seq<char>) -> Seq<char>
    decreases input.len(),
{
    if input.len() == 0 {
        text
    } else {
        typed(typed_all(text, input.drop_last()), input.last())
    }
}

/// Erasing in an empty text leaves it empty and reports no change, however
/// often it is done.
pub proof fn lemma_erasing_nothing_changes_nothing(erases: Seq<char>)
    requires
        forall|i: int| 0 <= i < erases.len() ==> erases[i] == BACKSPACE_CHAR,
    ensures
        typed(Seq::empty(), BACKSPACE_CHAR) == Seq::<char>::empty(),
        outcome_of(Seq::empty(), typed(Seq::empty(), BACKSPACE_CHAR))
            == EventHandlerOutcome::NoChange,
        typed_all(Seq::empty(), erases) == Seq::<char>::empty(),
    decreases erases.len(),
{
    if erases.len() > 0 {
        lemma_erasing_nothing_changes_nothing(erases.drop_last());
    }
}

/// One erase takes the last grapheme cluster off as a whole, however many
/// characters it is made of: what is left is the text before the cluster.
pub proof fn lemma_erase_takes_whole_cluster(before: Seq<char>, cluster: Seq<char>)
    requires
        cluster.len() > 0,
        last_grapheme(before + cluster) == Some(cluster),
    ensures
        typed(before + cluster, BACKSPACE_CHAR) == before,
        outcome_of(before + cluster, typed(before + cluster, BACKSPACE_CHAR))
            == EventHandlerOutcome::Redraw,
{
    let text = before + cluster;
    assert(text.subrange(0, text.len() - cluster.len()) == before);
}

/// Characters typed one after another arrive whole and in the order typed:
/// as long as none of them erases, the text afterwards is the text before
/// followed by the characters, and the same holds of every order in which
/// they may be handled.
pub proof fn lemma_typing_appends(text: Seq<char>, input: Seq<char>)
    requires
        forall|i: int| 0 <= i < input.len() ==> input[i] != BACKSPACE_CHAR,
    ensures
        typed_all(text, input) == text + input,
    decreases input.len(),
{
    if input.len() > 0 {
        lemma_typing_appends(text, input.drop_last());
        assert(text + input == (text + input.drop_last()).push(input.last()));
    }
}

/// How many line feeds `text` holds.
pub open spec fn line_feeds(text: Seq<char>) -> nat {
    text.filter(|c: char| c == '\n').len()
}

/// Where the cursor is drawn, relative to the text.
#[derive(Clone, Copy, Debug, PartialEq, Eq, Structural)]
pub enum CursorAnchor {
    /// At the origin of the buffer's rectangle: there is no text.
    Origin,
    /// At the start of the line with this index, counted from zero: the
    /// text ends with a line feed.
    LineStart(usize),
    /// At the position of the last glyph of the text.
    LastGlyph,
}

/// Where the cursor goes for `text`.
pub open spec fn anchor_of(text: Seq<char>) -> CursorAnchor {
    if text.len() == 0 {
        CursorAnchor::Origin
    } else if text.last() == '\n' {
        CursorAnchor::LineStart(line_feeds(text) as usize)
    } else {
        CursorAnchor::LastGlyph
    }
}

/// An editable text: its characters and a cursor offset.
pub struct DummyBuffer {
    text: String,
    cursor: usize,
}

impl View for DummyBuffer {
    type V = Seq<char>;

    closed spec fn view(&self) -> Seq<char> {
        self.text@
    }
}

impl DummyBuffer {
    /// The cursor offset.
    pub closed spec fn cursor_offset(&self) -> usize {
        self.cursor
    }

    /// An empty buffer with its cursor at offset 0.
    pub fn new() -> (buffer: Self)
        ensures
            buffer@ == Seq::<char>::empty(),
            buffer.cursor_offset() == 0,
    {
        Self { text: String::new(), cursor: 0 }
    }

    /// The text of the buffer.
    pub fn text(&self) -> (text: &str)
        ensures
            text@ == self@,
    {
        self.text.as_str()
    }

    /// The cursor offset.
    pub fn cursor(&self) -> (cursor: usize)
        ensures
            cursor == self.cursor_offset(),
    {
        self.cursor
    }

    /// Takes `cluster` off the end of the text, given that `cluster` is what
    /// the segmentation found to be the last grapheme cluster. Only the
    /// length of `cluster` is read: that many characters go. Without a
    /// cluster, with an empty one or with one longer than the text, nothing
    /// changes.
    pub fn erase(&mut self, cluster: Option<String>) -> (outcome: EventHandlerOutcome)
        ensures
            final(self)@ == erased(old(self)@, cluster.deep_view()),
            final(self).cursor_offset() == old(self).cursor_offset(),
            outcome == outcome_of(old(self)@, final(self)@),
    {
        match cluster {
            Some(g) => {
                let count = g.as_str().unicode_len();
                let len = self.text.as_str().unicode_len();
                if 0 < count && count <= len {
                    let kept = self.text.as_str().substring_char(0, len - count).to_owned();
                    self.text = kept;
                    EventHandlerOutcome::Redraw
                } else {
                    EventHandlerOutcome::NoChange
                }
            },
            None => EventHandlerOutcome::NoChange,
        }
    }

    /// Handles one character of input: the erase character takes the last
    /// grapheme cluster off the text, and leaves an empty text as it is;
    /// every other character is appended.
    pub fn handle_input(&mut self, c: char) -> (outcome: EventHandlerOutcome)
        ensures
            final(self)@ == typed(old(self)@, c),
            final(self).cursor_offset() == old(self).cursor_offset(),
            outcome == outcome_of(old(self)@, final(self)@),
            outcome == EventHandlerOutcome::NoChange <==> c == BACKSPACE_CHAR && old(self)@.len()
                == 0,
            c == BACKSPACE_CHAR && old(self)@.len() > 0 ==> lost_last_cluster(
                old(self)@,
                final(self)@,
            ),
    {
        if c == BACKSPACE_CHAR {
            let cluster = last_grapheme_of(self.text.as_str());
            let ghost found = cluster.deep_view();
            let outcome = self.erase(cluster);
            proof {
                if let Some(g) = found {
                    assert(old(self)@ == self@ + g);
                }
            }
            outcome
        } else {
            push_char(&mut self.text, c);
            EventHandlerOutcome::Redraw
        }
    }

    /// Where the cursor is to be drawn: at the origin for an empty text, at
    /// the start of the line after the last line feed for a text that ends
    /// with one, and at the last glyph otherwise.
    pub fn cursor_anchor(&self) -> (anchor: CursorAnchor)
        ensures
            anchor == anchor_of(self@),
    {
        let text = self.text.as_str();
        let len = text.unicode_len();
        if len == 0 {
            return CursorAnchor::Origin;
        }
        if text.get_char(len - 1) != '\n' {
            return CursorAnchor::LastGlyph;
        }
        let mut lines: usize = 0;
        for c in it: text.chars()
            invariant
                len == text@.len(),
                it.seq() == text@,
                lines == line_feeds(text@.take(it.index() as int)),
                lines <= it.index(),
        {
            proof {
                reveal(Seq::filter);
                assert(text@.take(it.index() + 1).drop_last() == text@.take(it.index() as int));
            }
            if c == '\n' {
                lines += 1;
            }
        }
        assert(text@.take(len as int) == text@);
        CursorAnchor::LineStart(lines)
    }
}

impl Buffer for DummyBuffer {
    open spec fn content(&self) -> Seq<char> {
        self@
    }

    open spec fn content_after(&self, event: BufferEvent) -> Seq<char> {
        match event {
            BufferEvent::Input(c) => typed(self@, c),
        }
    }

    fn handle_events(&mut self, event: BufferEvent) -> (outcome: EventHandlerOutcome)
        ensures
            final(self).cursor_offset() == old(self).cursor_offset(),
            outcome == EventHandlerOutcome::NoChange <==> event == BufferEvent::Input(
                BACKSPACE_CHAR,
            ) && old(self)@.len() == 0,
    {
        match event {
            BufferEvent::Input(c) => self.handle_input(c),
        }
    }
}

} // verus!
