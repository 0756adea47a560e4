//! Styled text for the terminal.

use vstd::prelude::*;

verus! {

broadcast use vstd::string::group_string_axioms;

/// How a piece of text is set.
#[derive(Debug, Clone, Copy, PartialEq, Eq, Structural)]
pub enum Style {
    Plain,
    Bold,
    Dim,
    Cyan,
    CyanBold,
    Green,
    GreenBold,
    Yellow,
    YellowBold,
    Red,
    RedBold,
}

/// A piece of text in one style.
#[derive(Debug, Clone)]
pub struct Span {
    pub style: Style,
    pub text: String,
}

/// The view of a `Span`.
pub struct SpanView {
    pub style: Style,
    pub text: Seq<char>,
}

impl View for Span {
    type V = SpanView;

    open spec fn view(&self) -> SpanView {
        SpanView { style: self.style, text: self.text@ }
    }
}

impl DeepView for Span {
    type V = SpanView;

    open spec fn deep_view(&self) -> SpanView {
        self@
    }
}

/// A piece of text in a style.
pub open spec fn span(style: Style, text: Seq<char>) -> SpanView {
    SpanView { style, text }
}

/// A piece of text in no particular style.
pub open spec fn plain(text: Seq<char>) -> SpanView {
    SpanView { style: Style::Plain, text }
}

/// A heading with an empty line above it.
pub open spec fn heading(title: Seq<char>) -> Seq<SpanView> {
    seq![plain("\n"@), span(Style::Dim, title), plain("\n"@)]
}

/// A line that names something and shows it in a style.
pub open spec fn field(name: Seq<char>, style: Style, text: Seq<char>) -> Seq<SpanView> {
    seq![plain(name), span(style, text), plain("\n"@)]
}

/// Output for the terminal: pieces of text, one behind the other.
#[derive(Debug, Clone)]
pub struct Page {
    pub spans: Vec<Span>,
}

impl View for Page {
    type V = Seq<SpanView>;

    open spec fn view(&self) -> Seq<SpanView> {
        self.spans.deep_view()
    }
}

impl Page {
    /// A page with nothing on it.
    pub fn new() -> (page: Page)
        ensures
            page@ == Seq::<SpanView>::empty(),
    {
        let page = Page { spans: Vec::new() };
        assert(page@ =~= Seq::empty());
        page
    }

    /// Adds a piece of text.
    pub fn put(&mut self, style: Style, text: &str)
        ensures
            final(self)@ == old(self)@.push(span(style, text@)),
    {
        let ghost before = self@;
        self.spans.push(Span { style, text: text.to_string() });
        assert(self@ =~= before.push(span(style, text@)));
    }

    /// Adds a piece of text in no particular style.
    pub fn say(&mut self, text: &str)
        ensures
            final(self)@ == old(self)@.push(plain(text@)),
    {
        self.put(Style::Plain, text);
    }

    /// Adds a heading with an empty line above it.
    pub fn head(&mut self, title: &str)
        ensures
            final(self)@ == old(self)@ + heading(title@),
    {
        self.say("\n");
        self.put(Style::Dim, title);
        self.say("\n");
        assert(self@ =~= old(self)@ + heading(title@));
    }

    /// Adds a line that names something and shows it in a style.
    pub fn show(&mut self, name: &str, style: Style, text: &str)
        ensures
            final(self)@ == old(self)@ + field(name@, style, text@),
    {
        self.say(name);
        self.put(style, text);
        self.say("\n");
        assert(self@ =~= old(self)@ + field(name@, style, text@));
    }
}

/// A heading is an empty line and the title, dimmed, on a line of its own; a field is its name, its
/// text in the style asked for, and the end of the line; plain text has no style.
pub proof fn law_lines_are_made_of_spans(name: Seq<char>, style: Style, text: Seq<char>)
    ensures
        span(style, text).style == style,
        span(style, text).text == text,
        plain(text).style == Style::Plain,
        plain(text).text == text,
        heading(text).len() == 3,
        heading(text)[0] == plain("\n"@),
        heading(text)[1] == span(Style::Dim, text),
        heading(text)[2] == plain("\n"@),
        field(name, style, text).len() == 3,
        field(name, style, text)[0] == plain(name),
        field(name, style, text)[1] == span(style, text),
        field(name, style, text)[2] == plain("\n"@),
{
}

} // verus!
