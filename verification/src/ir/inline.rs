//! Inline elements (rich text): text runs, mentions, equations and breaks.
use crate::ir::blocks::MentionType;
use vstd::prelude::*;

verus! {

/// Inline element within a block.
#[derive(Debug, Clone)]
pub enum InlineElement {
    /// Styled text run.
    TextRun { content: String, style: Option<TextStyle> },
    /// Mention of a user, page, database, date, etc.
    Mention {
        mention_type: MentionType,
        target: String,
        label: Option<String>,
        style: Option<TextStyle>,
    },
    /// Inline LaTeX equation.
    Equation { expression: String, style: Option<TextStyle> },
    /// Hard line break.
    HardBreak,
    /// Soft line break (space).
    SoftBreak,
}

/// Text formatting style.
#[derive(Debug, Clone, Default)]
pub struct TextStyle {
    pub bold: Option<bool>,
    pub italic: Option<bool>,
    pub strikethrough: Option<bool>,
    pub underline: Option<bool>,
    pub code: Option<bool>,
    /// Color identifier (e.g., "default", "blue", "red_background").
    pub color: Option<String>,
    /// Link URL.
    pub link: Option<String>,
}

/// The content of an optional string.
pub open spec fn opt_view(s: Option<String>) -> Option<Seq<char>> {
    match s {
        Some(x) => Some(x@),
        None => None,
    }
}

/// The content of a [`TextStyle`].
pub struct SpecStyle {
    pub bold: Option<bool>,
    pub italic: Option<bool>,
    pub strikethrough: Option<bool>,
    pub underline: Option<bool>,
    pub code: Option<bool>,
    pub color: Option<Seq<char>>,
    pub link: Option<Seq<char>>,
}

/// The style with nothing set.
pub open spec fn plain_style() -> SpecStyle {
    SpecStyle {
        bold: None,
        italic: None,
        strikethrough: None,
        underline: None,
        code: None,
        color: None,
        link: None,
    }
}

impl View for TextStyle {
    type V = SpecStyle;

    open spec fn view(&self) -> SpecStyle {
        SpecStyle {
            bold: self.bold,
            italic: self.italic,
            strikethrough: self.strikethrough,
            underline: self.underline,
            code: self.code,
            color: opt_view(self.color),
            link: opt_view(self.link),
        }
    }
}

/// The content of an optional style.
pub open spec fn opt_style(s: Option<TextStyle>) -> Option<SpecStyle> {
    match s {
        Some(x) => Some(x@),
        None => None,
    }
}

/// The content of an [`InlineElement`].
pub enum SpecInline {
    TextRun { content: Seq<char>, style: Option<SpecStyle> },
    Mention {
        mention_type: MentionType,
        target: Seq<char>,
        label: Option<Seq<char>>,
        style: Option<SpecStyle>,
    },
    Equation { expression: Seq<char>, style: Option<SpecStyle> },
    HardBreak,
    SoftBreak,
}

impl View for InlineElement {
    type V = SpecInline;

    open spec fn view(&self) -> SpecInline {
        match self {
            InlineElement::TextRun { content, style } => SpecInline::TextRun {
                content: content@,
                style: opt_style(*style),
            },
            InlineElement::Mention { mention_type, target, label, style } => SpecInline::Mention {
                mention_type: *mention_type,
                target: target@,
                label: opt_view(*label),
                style: opt_style(*style),
            },
            InlineElement::Equation { expression, style } => SpecInline::Equation {
                expression: expression@,
                style: opt_style(*style),
            },
            InlineElement::HardBreak => SpecInline::HardBreak,
            InlineElement::SoftBreak => SpecInline::SoftBreak,
        }
    }
}

/// The contents of a sequence of inline elements.
pub open spec fn inlines_view(s: Seq<InlineElement>) -> Seq<SpecInline> {
    Seq::new(s.len(), |i: int| s[i]@)
}

impl TextStyle {
    /// A style with nothing set.
    pub fn new() -> (s: Self)
        ensures
            s@ == plain_style(),
    {
        TextStyle {
            bold: None,
            italic: None,
            strikethrough: None,
            underline: None,
            code: None,
            color: None,
            link: None,
        }
    }

    /// This style, bold.
    pub fn bold(self) -> (s: Self)
        ensures
            s@ == (SpecStyle { bold: Some(true), ..self@ }),
    {
        let mut s = self;
        s.bold = Some(true);
        s
    }

    /// This style, italic.
    pub fn italic(self) -> (s: Self)
        ensures
            s@ == (SpecStyle { italic: Some(true), ..self@ }),
    {
        let mut s = self;
        s.italic = Some(true);
        s
    }

    /// This style, struck through.
    pub fn strikethrough(self) -> (s: Self)
        ensures
            s@ == (SpecStyle { strikethrough: Some(true), ..self@ }),
    {
        let mut s = self;
        s.strikethrough = Some(true);
        s
    }

    /// This style, underlined.
    pub fn underline(self) -> (s: Self)
        ensures
            s@ == (SpecStyle { underline: Some(true), ..self@ }),
    {
        let mut s = self;
        s.underline = Some(true);
        s
    }

    /// This style, as inline code.
    pub fn code(self) -> (s: Self)
        ensures
            s@ == (SpecStyle { code: Some(true), ..self@ }),
    {
        let mut s = self;
        s.code = Some(true);
        s
    }

    /// This style with the given color.
    pub fn color(self, color: String) -> (s: Self)
        ensures
            s@ == (SpecStyle { color: Some(color@), ..self@ }),
    {
        let mut s = self;
        s.color = Some(color);
        s
    }

    /// This style linking to `url`.
    pub fn link(self, url: String) -> (s: Self)
        ensures
            s@ == (SpecStyle { link: Some(url@), ..self@ }),
    {
        let mut s = self;
        s.link = Some(url);
        s
    }

    /// A copy of this style.
    pub fn copy(&self) -> (s: Self)
        ensures
            s@ == self@,
    {
        TextStyle {
            bold: self.bold,
            italic: self.italic,
            strikethrough: self.strikethrough,
            underline: self.underline,
            code: self.code,
            color: crate::json::copy_opt_string(&self.color),
            link: crate::json::copy_opt_string(&self.link),
        }
    }
}

/// A copy of an optional style.
pub fn copy_opt_style(s: &Option<TextStyle>) -> (r: Option<TextStyle>)
    ensures
        opt_style(r) == opt_style(*s),
{
    match s {
        Some(x) => Some(x.copy()),
        None => None,
    }
}

impl InlineElement {
    /// A copy of this element.
    pub fn copy(&self) -> (r: Self)
        ensures
            r@ == self@,
    {
        match self {
            InlineElement::TextRun { content, style } => InlineElement::TextRun {
                content: content.clone(),
                style: copy_opt_style(style),
            },
            InlineElement::Mention { mention_type, target, label, style } => InlineElement::Mention {
                mention_type: *mention_type,
                target: target.clone(),
                label: crate::json::copy_opt_string(label),
                style: copy_opt_style(style),
            },
            InlineElement::Equation { expression, style } => InlineElement::Equation {
                expression: expression.clone(),
                style: copy_opt_style(style),
            },
            InlineElement::HardBreak => InlineElement::HardBreak,
            InlineElement::SoftBreak => InlineElement::SoftBreak,
        }
    }
}

/// A copy of a sequence of inline elements.
pub fn copy_inlines(v: &[InlineElement]) -> (r: Vec<InlineElement>)
    ensures
        inlines_view(r@) == inlines_view(v@),
{
    let mut out: Vec<InlineElement> = Vec::new();
    let mut i: usize = 0;
    while i < v.len()
        invariant
            i <= v.len(),
            out.len() == i,
            forall|j: int| 0 <= j < i ==> (#[trigger] out@[j])@ == v@[j]@,
        decreases v.len() - i,
    {
        out.push(v[i].copy());
        i = i + 1;
    }
    assert(inlines_view(out@) =~= inlines_view(v@));
    out
}

/// A plain text run.
pub fn text(content: String) -> (e: InlineElement)
    ensures
        e@ == (SpecInline::TextRun { content: content@, style: None }),
{
    InlineElement::TextRun { content, style: None }
}

/// A styled text run.
pub fn styled_text(content: String, style: TextStyle) -> (e: InlineElement)
    ensures
        e@ == (SpecInline::TextRun { content: content@, style: Some(style@) }),
{
    InlineElement::TextRun { content, style: Some(style) }
}

/// A mention without label.
pub fn mention(mention_type: MentionType, target: String) -> (e: InlineElement)
    ensures
        e@ == (SpecInline::Mention {
            mention_type,
            target: target@,
            label: None,
            style: None,
        }),
{
    InlineElement::Mention { mention_type, target, label: None, style: None }
}

/// A mention with a label.
pub fn labeled_mention(mention_type: MentionType, target: String, label: String) -> (e:
    InlineElement)
    ensures
        e@ == (SpecInline::Mention {
            mention_type,
            target: target@,
            label: Some(label@),
            style: None,
        }),
{
    InlineElement::Mention { mention_type, target, label: Some(label), style: None }
}

/// An inline equation.
pub fn equation(expr: String) -> (e: InlineElement)
    ensures
        e@ == (SpecInline::Equation { expression: expr@, style: None }),
{
    InlineElement::Equation { expression: expr, style: None }
}

/// A hard line break.
pub fn hard_break() -> (e: InlineElement)
    ensures
        e@ == SpecInline::HardBreak,
{
    InlineElement::HardBreak
}

/// A soft line break.
pub fn soft_break() -> (e: InlineElement)
    ensures
        e@ == SpecInline::SoftBreak,
{
    InlineElement::SoftBreak
}

} // verus!
