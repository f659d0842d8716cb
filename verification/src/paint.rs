//! Text in colour. The `colored` crate paints; whether it does depends on
//! the terminal and on how the process was started, so a painted text is
//! either the text itself or the text between the marks of its style.

use crate::text::{occurs, occurs_at};
use vstd::prelude::*;

verus! {

/// The mark that ends every style.
pub open spec fn reset() -> Seq<char> {
    seq!['\u{1b}', '[', '0', 'm']
}

/// The mark that begins the style `code`.
pub open spec fn style_mark(code: Seq<char>) -> Seq<char> {
    seq!['\u{1b}', '['] + code + seq!['m']
}

/// The text with the style taken up again after every mark in it that ends
/// a style, so that a painted text within it does not end the style around it.
pub open spec fn resumed(text: Seq<char>, mark: Seq<char>) -> Seq<char>
    decreases text.len(),
{
    if text.len() == 0 {
        text
    } else if reset().is_prefix_of(text) {
        reset() + mark + resumed(text.skip(4), mark)
    } else {
        seq![text[0]] + resumed(text.skip(1), mark)
    }
}

/// The text between the mark of the style `code` and the mark that ends it.
pub open spec fn painted(code: Seq<char>, text: Seq<char>) -> Seq<char> {
    style_mark(code) + resumed(text, style_mark(code)) + reset()
}

/// What a text in the style `code` may be: the text itself where colours are
/// off, the painted text where they are on.
pub open spec fn styled(shown: Seq<char>, code: Seq<char>, text: Seq<char>) -> bool {
    shown == text || shown == painted(code, text)
}

/// What a text in a colour that the terminal picks may be.
pub open spec fn tinted(shown: Seq<char>, text: Seq<char>) -> bool {
    shown == text || exists|code: Seq<char>| shown == painted(code, text)
}

/// Whether the text ends no style itself.
pub open spec fn is_clean(text: Seq<char>) -> bool {
    !occurs(text, reset())
}

/// A text that ends no style itself stands in its painted form as it is.
pub proof fn lemma_resumed_clean(text: Seq<char>, mark: Seq<char>)
    requires
        is_clean(text),
    ensures
        resumed(text, mark) == text,
    decreases text.len(),
{
    if text.len() > 0 {
        if reset().is_prefix_of(text) {
            assert(text.subrange(0, 4) =~= reset());
            assert(occurs_at(text, reset(), 0));
        } else {
            assert(is_clean(text.skip(1))) by {
                if occurs(text.skip(1), reset()) {
                    let i = choose|i: int| occurs_at(text.skip(1), reset(), i);
                    assert(text.subrange(i + 1, i + 1 + 4) =~= text.skip(1).subrange(i, i + 4));
                    assert(occurs_at(text, reset(), i + 1));
                }
            }
            lemma_resumed_clean(text.skip(1), mark);
            assert(seq![text[0]] + text.skip(1) =~= text);
        }
    }
}

/// `Colorize::bold` of the `colored` crate, as text. Claimed: the text as it
/// is where colours are off, else the text in the style of bold, which is
/// taken up again behind every mark in the text that ends a style.
#[verifier::external_body]
pub(crate) fn bold(text: &str) -> (r: String)
    ensures
        styled(r@, seq!['1'], text@),
{
    colored::Colorize::bold(text).to_string()
}

/// `Colorize::red` of the `colored` crate, as text. Claimed: the text as it
/// is where colours are off, else the text in the style of red, which is
/// taken up again behind every mark in the text that ends a style.
#[verifier::external_body]
pub(crate) fn red(text: &str) -> (r: String)
    ensures
        styled(r@, seq!['3', '1'], text@),
{
    colored::Colorize::red(text).to_string()
}

/// `Colorize::green` of the `colored` crate, as text. Claimed: the text as it
/// is where colours are off, else the text in the style of green, which is
/// taken up again behind every mark in the text that ends a style.
#[verifier::external_body]
pub(crate) fn green(text: &str) -> (r: String)
    ensures
        styled(r@, seq!['3', '2'], text@),
{
    colored::Colorize::green(text).to_string()
}

/// `Colorize::yellow` of the `colored` crate, as text. Claimed: the text as it
/// is where colours are off, else the text in the style of yellow, which is
/// taken up again behind every mark in the text that ends a style.
#[verifier::external_body]
pub(crate) fn yellow(text: &str) -> (r: String)
    ensures
        styled(r@, seq!['3', '3'], text@),
{
    colored::Colorize::yellow(text).to_string()
}

/// `Colorize::blue` of the `colored` crate, as text. Claimed: the text as it
/// is where colours are off, else the text in the style of blue, which is
/// taken up again behind every mark in the text that ends a style.
#[verifier::external_body]
pub(crate) fn blue(text: &str) -> (r: String)
    ensures
        styled(r@, seq!['3', '4'], text@),
{
    colored::Colorize::blue(text).to_string()
}

/// `Colorize::cyan` of the `colored` crate, as text. Claimed: the text as it
/// is where colours are off, else the text in the style of cyan, which is
/// taken up again behind every mark in the text that ends a style.
#[verifier::external_body]
pub(crate) fn cyan(text: &str) -> (r: String)
    ensures
        styled(r@, seq!['3', '6'], text@),
{
    colored::Colorize::cyan(text).to_string()
}

/// `Colorize::truecolor` of the `colored` crate, as text. Claimed: the text as
/// it is where colours are off, else the text in one style, that of the
/// colour itself or of the nearest colour that the terminal has, taken up
/// again behind every mark in the text that ends a style.
#[verifier::external_body]
pub(crate) fn truecolor(text: &str, r: u8, g: u8, b: u8) -> (shown: String)
    ensures
        tinted(shown@, text@),
{
    colored::Colorize::truecolor(text, r, g, b).to_string()
}

} // verus!
