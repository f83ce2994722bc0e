//! The command line's text and cursor: the prompt it starts with, the
//! content after the prompt, and where the cursor stands in characters.
//!
//! Neovim gives the cursor as a byte offset into the content; the text
//! widget counts characters, so the offset is turned into the number of
//! characters that the bytes before the cursor hold.

use vstd::prelude::*;
use vstd::utf8::*;
use vstd::string::*;

use crate::nvim_bridge::CmdlineShow;
use crate::text::{blanks, spaces, to_string};

verus! {

broadcast use vstd::utf8::group_utf8_lib;

/// The text of the command line's segments, one after another.
pub open spec fn segments_text(segs: Seq<(u64, String)>) -> Seq<char>
    decreases segs.len(),
{
    if segs.len() == 0 {
        Seq::empty()
    } else {
        segments_text(segs.drop_last()) + segs.last().1@
    }
}

/// The number of characters that the first `pos` bytes of the UTF-8
/// encoding of `s` hold.
pub open spec fn chars_before(s: Seq<char>, pos: int) -> nat {
    decode_utf8(encode_utf8(s).subrange(0, pos)).len()
}

/// The text of the segments `segs`, one after another.
pub fn segments_string(segs: &Vec<(u64, String)>) -> (content: String)
    ensures
        content@ == segments_text(segs@),
{
    let mut content = String::new();
    let mut i: usize = 0;
    while i < segs.len()
        invariant
            0 <= i <= segs@.len(),
            content@ == segments_text(segs@.take(i as int)),
        decreases segs@.len() - i,
    {
        content.append(segs[i].1.as_str());
        proof {
            assert(segs@.take(i + 1).drop_last() =~= segs@.take(i as int));
        }
        i += 1;
    }
    proof {
        assert(segs@.take(segs@.len() as int) =~= segs@);
    }
    content
}

/// The prompt the command line starts with: its first character, `indent`
/// spaces, then the prompt proper.
pub open spec fn prompt_text(show: &CmdlineShow) -> Seq<char> {
    show.firstc@ + blanks((show.indent as usize) as nat) + show.prompt@
}

/// The command line's input: the length of its prompt, its content, the
/// level it shows and its cursor (a byte offset into the content).
pub struct CmdlineInput {
    /// The number of characters of the prompt.
    pub prompt_len: usize,
    /// The content after the prompt.
    pub content: String,
    /// The level of the command line shown.
    pub current_level: u64,
    /// The cursor, as a byte offset into `content`.
    pub cursor_pos: usize,
}

impl CmdlineInput {
    /// The cursor can be placed: it stands on a character boundary of the
    /// content, and the prompt and the content together have a length.
    pub open spec fn cursor_ok(&self) -> bool {
        &&& is_char_boundary(encode_utf8(self.content@), self.cursor_pos as int)
        &&& self.prompt_len + self.content@.len() <= usize::MAX
    }

    /// The cursor's place in characters from the start of the command
    /// line: the prompt, then the content's characters before the cursor.
    pub open spec fn spec_cursor_offset(&self) -> int {
        self.prompt_len + chars_before(self.content@, self.cursor_pos as int)
    }

    /// An empty command line at level 0.
    pub fn new() -> (c: CmdlineInput)
        ensures
            c.prompt_len == 0,
            c.content@ == Seq::<char>::empty(),
            c.current_level == 0,
            c.cursor_pos == 0,
    {
        CmdlineInput { prompt_len: 0, content: String::new(), current_level: 0, cursor_pos: 0 }
    }

    /// The cursor's place in characters from the start of the command line.
    pub fn cursor_offset(&self) -> (r: usize)
        requires
            self.cursor_ok(),
        ensures
            r == self.spec_cursor_offset(),
            r <= self.prompt_len + self.content@.len(),
    {
        let (before, _after) = self.content.as_str().split_at(self.cursor_pos);
        proof {
            let bytes = encode_utf8(self.content@);
            let pos = self.cursor_pos as int;
            assert(before.spec_bytes() == bytes.subrange(0, pos));
            assert(decode_utf8(encode_utf8(before@)) == before@);
            assert(decode_utf8(bytes) == decode_utf8(bytes.subrange(0, pos)) + decode_utf8(
                bytes.subrange(pos, bytes.len() as int),
            ));
        }
        let k = before.unicode_len();
        self.prompt_len + k
    }

    /// Shows the command line `show`: keeps its content, level and cursor,
    /// and returns the prompt text that starts the line together with the
    /// cursor's place in characters.
    pub fn set_text(&mut self, show: &CmdlineShow) -> (r: (String, usize))
        requires
            is_char_boundary(
                encode_utf8(segments_text(show.content@)),
                (show.pos as usize) as int,
            ),
            prompt_text(show).len() + segments_text(show.content@).len() <= usize::MAX,
        ensures
            r.0@ == prompt_text(show),
            final(self).prompt_len == prompt_text(show).len(),
            final(self).content@ == segments_text(show.content@),
            final(self).current_level == show.level,
            final(self).cursor_pos == show.pos as usize,
            r.1 == final(self).spec_cursor_offset(),
    {
        let mut prompt = to_string(show.firstc.as_str());
        let pad = spaces(show.indent as usize);
        prompt.append(pad.as_str());
        prompt.append(show.prompt.as_str());
        let prompt_len = prompt.unicode_len();

        let content = segments_string(&show.content);

        self.prompt_len = prompt_len;
        self.content = content;
        self.current_level = show.level;
        self.cursor_pos = show.pos as usize;
        let offset = self.cursor_offset();
        (prompt, offset)
    }

    /// Moves the cursor to byte `pos` of the content when `level` is the
    /// level shown, and returns its new place in characters; for another
    /// level nothing changes and the result is `None`.
    pub fn set_cursor(&mut self, pos: usize, level: u64) -> (r: Option<usize>)
        requires
            level == old(self).current_level ==> is_char_boundary(
                encode_utf8(old(self).content@),
                pos as int,
            ) && old(self).prompt_len + old(self).content@.len() <= usize::MAX,
        ensures
            level != old(self).current_level ==> r is None && *final(self) == *old(self),
            level == old(self).current_level ==> *final(self) == (CmdlineInput {
                cursor_pos: pos,
                ..*old(self)
            }) && r is Some && r->0 == final(self).spec_cursor_offset(),
    {
        if level != self.current_level {
            return None;
        }
        self.cursor_pos = pos;
        Some(self.cursor_offset())
    }
}

} // verus!
