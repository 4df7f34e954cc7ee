//! Text styles as the pair of marks that open and close a styled span.

use vstd::prelude::*;
use vstd::string::*;

verus! {

/// A style: the text written before a styled span and the text written after it.
#[derive(Debug, Clone, PartialEq, Eq)]
pub struct Style {
    pub prefix: String,
    pub suffix: String,
}

/// `text` wrapped in the marks of a style given by its two views.
pub open spec fn painted(prefix: Seq<char>, text: Seq<char>, suffix: Seq<char>) -> Seq<char> {
    prefix + text + suffix
}

impl Style {
    /// Holds when the style writes no mark at all.
    pub open spec fn is_blank(&self) -> bool {
        self.prefix@.len() == 0 && self.suffix@.len() == 0
    }

    /// The style that writes nothing around a span.
    pub fn none() -> (style: Style)
        ensures
            style.is_blank(),
    {
        Style { prefix: String::new(), suffix: String::new() }
    }

    /// A style from its opening and closing marks.
    pub fn new(prefix: &str, suffix: &str) -> (style: Style)
        ensures
            style.prefix@ == prefix@,
            style.suffix@ == suffix@,
    {
        Style { prefix: String::from_str(prefix), suffix: String::from_str(suffix) }
    }

    /// `text` as this style renders it.
    pub open spec fn paint(&self, text: Seq<char>) -> Seq<char> {
        painted(self.prefix@, text, self.suffix@)
    }

    /// A blank style renders every text as it stands.
    pub proof fn lemma_blank_paint(&self, text: Seq<char>)
        requires
            self.is_blank(),
        ensures
            self.paint(text) == text,
    {
    }

    /// Appends `text`, rendered in this style, to `out`.
    pub fn append_painted(&self, out: &mut String, text: &str)
        ensures
            final(out)@ == old(out)@ + self.paint(text@),
    {
        out.append(self.prefix.as_str());
        out.append(text);
        out.append(self.suffix.as_str());
    }
}

/// The styles that messages and listings use.
#[derive(Debug, Clone, PartialEq, Eq)]
pub struct Highlighting {
    pub plain: Style,
    pub bold: Style,
    pub dimmed: Style,
    pub success: Style,
    pub error: Style,
}

impl Highlighting {
    /// Holds when no style of the palette writes any mark.
    pub open spec fn is_plain(&self) -> bool {
        &&& self.plain.is_blank()
        &&& self.bold.is_blank()
        &&& self.dimmed.is_blank()
        &&& self.success.is_blank()
        &&& self.error.is_blank()
    }

    /// The palette without any marks.
    pub fn plain() -> (highlighting: Highlighting)
        ensures
            highlighting.is_plain(),
    {
        Highlighting {
            plain: Style::none(),
            bold: Style::none(),
            dimmed: Style::none(),
            success: Style::none(),
            error: Style::none(),
        }
    }
}

} // verus!
