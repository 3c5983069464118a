//! The message that is sent to a model, whatever service stands behind it.

use vstd::prelude::*;

verus! {

/// The kinds of image that a model is given.
#[derive(Debug, Clone, Copy, PartialEq, Eq, Structural)]
pub enum ImageKind {
    Jpeg,
    Png,
    Gif,
    Webp,
    Heic,
    Heif,
    Svg,
}

/// The kinds of document that a model is given.
#[derive(Debug, Clone, Copy, PartialEq, Eq, Structural)]
pub enum DocumentKind {
    Pdf,
    Txt,
    Html,
    Css,
    Markdown,
    Csv,
    Xml,
    Rtf,
    Javascript,
    Python,
}

/// One part of a message. Images and documents carry their payload as
/// base64 text.
#[derive(Debug, PartialEq, Eq)]
pub enum ContentPart {
    Text(String),
    Image(String, ImageKind),
    Document(String, DocumentKind),
}

/// What a [`ContentPart`] holds, as text.
pub enum ContentPartView {
    Text(Seq<char>),
    Image(Seq<char>, ImageKind),
    Document(Seq<char>, DocumentKind),
}

impl View for ContentPart {
    type V = ContentPartView;

    open spec fn view(&self) -> ContentPartView {
        match self {
            ContentPart::Text(text) => ContentPartView::Text(text@),
            ContentPart::Image(payload, kind) => ContentPartView::Image(payload@, *kind),
            ContentPart::Document(payload, kind) => ContentPartView::Document(payload@, *kind),
        }
    }
}

impl DeepView for ContentPart {
    type V = ContentPartView;

    open spec fn deep_view(&self) -> ContentPartView {
        self@
    }
}

impl Clone for ContentPart {
    fn clone(&self) -> (copy: Self)
        ensures
            copy == *self,
    {
        match self {
            ContentPart::Text(text) => ContentPart::Text(text.clone()),
            ContentPart::Image(payload, kind) => ContentPart::Image(payload.clone(), *kind),
            ContentPart::Document(payload, kind) => ContentPart::Document(payload.clone(), *kind),
        }
    }
}

/// Whether `parts` can be sent as one message: the last part is text, so
/// that a model is never given attachments without an instruction.
pub open spec fn closes_with_text(parts: Seq<ContentPartView>) -> bool {
    parts.len() > 0 && parts.last() is Text
}

/// The parts of one turn, in the order in which the model reads them.
///
/// A message is never empty and always ends with a text part.
#[derive(Debug, PartialEq, Eq)]
pub struct Message {
    parts: Vec<ContentPart>,
}

impl View for Message {
    type V = Seq<ContentPartView>;

    closed spec fn view(&self) -> Seq<ContentPartView> {
        self.parts.deep_view()
    }
}

impl DeepView for Message {
    type V = Seq<ContentPartView>;

    open spec fn deep_view(&self) -> Seq<ContentPartView> {
        self@
    }
}

impl Message {
    /// Every message ends with a text part.
    #[verifier::type_invariant]
    pub open spec fn closed_by_text(&self) -> bool {
        closes_with_text(self@)
    }

    /// The message that holds `text` and nothing else.
    pub fn text(text: &str) -> (message: Message)
        ensures
            message@ == seq![ContentPartView::Text(text@)],
    {
        let mut parts: Vec<ContentPart> = Vec::new();
        parts.push(ContentPart::Text(String::from_str(text)));
        assert(parts.deep_view() =~= seq![ContentPartView::Text(text@)]);
        Message { parts }
    }

    /// The message made of `attachments`, in their order, and then `text`.
    pub fn with_attachments(attachments: Vec<ContentPart>, text: &str) -> (message: Message)
        ensures
            message@ == attachments.deep_view().push(ContentPartView::Text(text@)),
    {
        let ghost given = attachments.deep_view();
        let mut parts = attachments;
        parts.push(ContentPart::Text(String::from_str(text)));
        assert(parts.deep_view() =~= given.push(ContentPartView::Text(text@)));
        Message { parts }
    }

    /// The parts, in order.
    pub fn parts(&self) -> (parts: &Vec<ContentPart>)
        ensures
            parts.deep_view() == self@,
            closes_with_text(self@),
    {
        proof {
            use_type_invariant(self);
        }
        &self.parts
    }

    /// The number of parts, which is at least one.
    pub fn len(&self) -> (n: usize)
        ensures
            n == self@.len(),
            n >= 1,
    {
        proof {
            use_type_invariant(self);
        }
        self.parts.len()
    }
}

} // verus!
