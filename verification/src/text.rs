//! Text: what the library asks of characters and strings, and the breaking
//! of a text into lines.

use vstd::prelude::*;

verus! {

/// Whether `char::is_alphanumeric` holds of `c`: whether Unicode counts the
/// character as a letter or a number.
pub uninterp spec fn alphanumeric(c: char) -> bool;

/// Calls `char::is_alphanumeric`, which tells whether Unicode counts the
/// character as a letter or a number. The answer depends on the character
/// alone; it is given the name `alphanumeric`.
#[verifier::external_body]
pub(crate) fn is_alphanumeric(c: char) -> (r: bool)
    ensures
        r == alphanumeric(c),
{
    c.is_alphanumeric()
}

/// Calls `String::push`, which appends the character to the end of the
/// string.
#[verifier::external_body]
pub(crate) fn push_char(s: &mut String, c: char)
    ensures
        final(s)@ == old(s)@.push(c),
{
    s.push(c)
}

/// Calls `String::pop`, which removes the last character of the string, and
/// does nothing to an empty string.
#[verifier::external_body]
pub(crate) fn pop_char(s: &mut String)
    ensures
        final(s)@ == without_last(old(s)@),
{
    s.pop();
}

/// Calls `String::push_str`, which appends the text to the end of the
/// string.
#[verifier::external_body]
pub(crate) fn push_text(s: &mut String, text: &str)
    ensures
        final(s)@ == old(s)@ + text@,
{
    s.push_str(text)
}

/// The text without its last character; the empty text stays empty.
pub open spec fn without_last(text: Seq<char>) -> Seq<char> {
    if text.len() > 0 {
        text.drop_last()
    } else {
        text
    }
}

/// The text with one more line: the first line stands alone, every later
/// one follows a line break.
pub open spec fn with_line(text: Seq<char>, line: Seq<char>) -> Seq<char> {
    if text.len() == 0 {
        line
    } else {
        text.push('\n') + line
    }
}

/// The line with one more word: the first word stands alone, every later
/// one follows a space.
pub open spec fn with_word(line: Seq<char>, word: Seq<char>) -> Seq<char> {
    if line.len() == 0 {
        word
    } else {
        line.push(' ') + word
    }
}

/// A text that is broken into lines word by word: the lines that are
/// complete, and the line that grows.
#[derive(Debug)]
pub struct LineBreaker {
    pub result: String,
    pub current_line: String,
}

/// A text that is broken into lines, as the rules of breaking see it.
#[verifier::ext_equal]
pub struct BreakerView {
    pub result: Seq<char>,
    pub current_line: Seq<char>,
}

impl BreakerView {
    /// Nothing is written yet.
    pub open spec fn initial() -> BreakerView {
        BreakerView { result: Seq::empty(), current_line: Seq::empty() }
    }

    /// The line that grows as it would be with `word` at its end. This is
    /// the line whose width decides where `word` goes.
    pub open spec fn candidate(self, word: Seq<char>) -> Seq<char> {
        with_word(self.current_line, word)
    }

    /// The text after `word` was placed. Where the line with the word is
    /// too wide and the line holds a word already, the line is complete and
    /// the word starts a new one. Else the word goes to the end of the
    /// line: a word that is too wide for a line of its own stays on it.
    pub open spec fn placed(self, word: Seq<char>, too_wide: bool) -> BreakerView {
        if too_wide && self.current_line.len() > 0 {
            BreakerView { result: with_line(self.result, self.current_line), current_line: word }
        } else {
            BreakerView { current_line: self.candidate(word), ..self }
        }
    }

    /// The whole text: the complete lines and, where it holds a word, the
    /// line that grew last.
    pub open spec fn finished(self) -> Seq<char> {
        if self.current_line.len() > 0 {
            with_line(self.result, self.current_line)
        } else {
            self.result
        }
    }
}

impl View for LineBreaker {
    type V = BreakerView;

    open spec fn view(&self) -> BreakerView {
        BreakerView { result: self.result@, current_line: self.current_line@ }
    }
}

impl LineBreaker {
    /// A text in which nothing is written yet.
    pub fn new() -> (b: LineBreaker)
        ensures
            b@ == BreakerView::initial(),
    {
        LineBreaker { result: String::new(), current_line: String::new() }
    }

    /// The line that grows as it would be with `word` at its end. Whether
    /// this line is too wide decides where `word` goes.
    pub fn candidate(&self, word: &str) -> (line: String)
        ensures
            line@ == self@.candidate(word@),
    {
        if self.current_line.as_str().is_empty() {
            word.to_owned()
        } else {
            let mut line = self.current_line.clone();
            push_char(&mut line, ' ');
            push_text(&mut line, word);
            line
        }
    }

    /// Places `word`; `too_wide` tells whether the line with the word at its
    /// end is wider than a line may be.
    pub fn place(&mut self, word: &str, too_wide: bool)
        ensures
            final(self)@ == old(self)@.placed(word@, too_wide),
    {
        if too_wide && !self.current_line.as_str().is_empty() {
            if !self.result.as_str().is_empty() {
                push_char(&mut self.result, '\n');
            }
            push_text(&mut self.result, self.current_line.as_str());
            self.current_line = word.to_owned();
            assert(self@ =~= old(self)@.placed(word@, too_wide));
        } else {
            self.current_line = self.candidate(word);
        }
    }

    /// Ends the text and hands it out.
    pub fn finish(self) -> (text: String)
        ensures
            text@ == self@.finished(),
    {
        let mut text = self.result;
        if !self.current_line.as_str().is_empty() {
            if !text.as_str().is_empty() {
                push_char(&mut text, '\n');
            }
            push_text(&mut text, self.current_line.as_str());
        }
        assert(text@ =~= self@.finished());
        text
    }
}

} // verus!
