//! How a directory's name is set apart from a file's name in a listing.
//!
//! A highlighted name is wrapped in the terminal codes for bold blue text.
//! Whether the codes are written at all is decided outside this library, by
//! the terminal and the environment of the process.

use colored::Colorize;
use vstd::prelude::*;

verus! {

/// The code that switches bold blue text on.
pub open spec fn style_on() -> Seq<char> {
    seq!['\x1b', '[', '1', ';', '3', '4', 'm']
}

/// The code that switches every style off.
pub open spec fn style_off() -> Seq<char> {
    seq!['\x1b', '[', '0', 'm']
}

/// `text` with the style switched on again behind each place where `text`
/// itself switches every style off, so that the whole of it is shown in the
/// style.
pub open spec fn restyled(text: Seq<char>) -> Seq<char>
    decreases text.len(),
{
    if text.len() == 0 {
        text
    } else if style_off().is_prefix_of(text) {
        style_off() + style_on() + restyled(text.skip(4))
    } else {
        seq![text[0]] + restyled(text.skip(1))
    }
}

/// `text` as bold blue text: the style switched on, the text, the style
/// switched off.
pub open spec fn highlighted(text: Seq<char>) -> Seq<char> {
    style_on() + restyled(text) + style_off()
}

/// Formats `text.blue().bold()` of the `colored` crate with `{}`.
///
/// Trusted, not proved: where `colored` finds that colours are in use (it
/// asks the environment and the terminal), the result is `highlighted(text)`;
/// where it finds that they are not, the result is `text` itself. Nothing is
/// claimed about which of the two it is.
#[verifier::external_body]
pub(crate) fn bold_blue(text: &str) -> (shown: String)
    ensures
        shown@ == text@ || shown@ == highlighted(text@),
{
    format!("{}", text.blue().bold())
}

/// Restyling never shortens a text.
pub proof fn lemma_restyled_len(text: Seq<char>)
    ensures
        restyled(text).len() >= text.len(),
    decreases text.len(),
{
    if text.len() == 0 {
    } else if style_off().is_prefix_of(text) {
        lemma_restyled_len(text.skip(4));
    } else {
        lemma_restyled_len(text.skip(1));
    }
}

/// A text that holds no escape character is restyled to itself.
proof fn lemma_restyled_plain(text: Seq<char>)
    requires
        forall|i: int| 0 <= i < text.len() ==> text[i] != '\x1b',
    ensures
        restyled(text) == text,
    decreases text.len(),
{
    if text.len() > 0 {
        assert(style_off()[0] == '\x1b');
        assert(!style_off().is_prefix_of(text)) by {
            if style_off().is_prefix_of(text) {
                assert(text[0] == style_off()[0]);
            }
        }
        let rest = text.skip(1);
        assert forall|i: int| 0 <= i < rest.len() implies rest[i] != '\x1b' by {
            assert(rest[i] == text[i + 1]);
        }
        lemma_restyled_plain(rest);
        assert(seq![text[0]] + rest =~= text);
    }
}

/// A name that holds no escape character is highlighted by the two codes
/// around it and nothing else.
pub proof fn lemma_highlighted_plain(text: Seq<char>)
    requires
        forall|i: int| 0 <= i < text.len() ==> text[i] != '\x1b',
    ensures
        highlighted(text) == style_on() + text + style_off(),
{
    lemma_restyled_plain(text);
}

/// A highlighted name is told apart from the bare name: it is always longer,
/// so the two are never the same text.
pub proof fn lemma_highlighted_differs(text: Seq<char>)
    ensures
        highlighted(text).len() >= text.len() + 11,
        highlighted(text) != text,
        style_on().is_prefix_of(highlighted(text)),
        style_off().is_suffix_of(highlighted(text)),
{
    lemma_restyled_len(text);
    let shown = highlighted(text);
    assert(shown.len() == 7 + restyled(text).len() + 4);
    assert(shown.subrange(0, 7) =~= style_on());
    assert(shown.subrange(shown.len() - 4, shown.len() as int) =~= style_off());
}

} // verus!
