//! Assembly of what the top-level model is sent: the stored turns and the
//! new message with its attachments.

use vstd::prelude::*;
use vstd::string::*;
use crate::agents::delegation::{received, Delegation};
use crate::agents::specialized::address::{address_tool, AddressSpecialist};
use crate::agents::specialized::damage::{damage_tool, DamageSpecialist};
use crate::agents::tool::{ToolSpec, ToolSpecView};
use crate::api::request::{FileAttachment, FileAttachmentView};
use crate::infra::history::{ChatMessage, ChatMessageView, Role};
use crate::message::{ContentPart, ContentPartView, DocumentKind, ImageKind, Message};
use crate::text::{blank, lemma_trimmed_blank_iff, lowercase, trim};

verus! {

/// The image kind that a media type names. The media type is compared as it
/// is given, letter for letter.
pub open spec fn image_kind(mimetype: Seq<char>) -> Option<ImageKind> {
    if mimetype == "image/jpeg"@ || mimetype == "image/jpg"@ {
        Some(ImageKind::Jpeg)
    } else if mimetype == "image/png"@ {
        Some(ImageKind::Png)
    } else if mimetype == "image/gif"@ {
        Some(ImageKind::Gif)
    } else if mimetype == "image/webp"@ {
        Some(ImageKind::Webp)
    } else if mimetype == "image/heic"@ {
        Some(ImageKind::Heic)
    } else if mimetype == "image/heif"@ {
        Some(ImageKind::Heif)
    } else if mimetype == "image/svg+xml"@ {
        Some(ImageKind::Svg)
    } else {
        None
    }
}

/// The document kind that a media type names. The media type is compared as
/// it is given, letter for letter.
pub open spec fn document_kind(mimetype: Seq<char>) -> Option<DocumentKind> {
    if mimetype == "application/pdf"@ {
        Some(DocumentKind::Pdf)
    } else if mimetype == "text/plain"@ {
        Some(DocumentKind::Txt)
    } else if mimetype == "text/html"@ {
        Some(DocumentKind::Html)
    } else if mimetype == "text/css"@ {
        Some(DocumentKind::Css)
    } else if mimetype == "text/markdown"@ || mimetype == "text/x-markdown"@ {
        Some(DocumentKind::Markdown)
    } else if mimetype == "text/csv"@ {
        Some(DocumentKind::Csv)
    } else if mimetype == "application/xml"@ || mimetype == "text/xml"@ {
        Some(DocumentKind::Xml)
    } else if mimetype == "application/rtf"@ || mimetype == "text/rtf"@ {
        Some(DocumentKind::Rtf)
    } else if mimetype == "application/javascript"@ || mimetype == "text/javascript"@ {
        Some(DocumentKind::Javascript)
    } else if mimetype == "text/x-python"@ || mimetype == "application/x-python"@ {
        Some(DocumentKind::Python)
    } else {
        None
    }
}

/// The part that a payload becomes under a media type in lower case: an
/// image where the image table knows the type, else a document where the
/// document table knows it, else nothing.
pub open spec fn part_of(payload: Seq<char>, mimetype: Seq<char>) -> Option<ContentPartView> {
    match image_kind(mimetype) {
        Some(kind) => Some(ContentPartView::Image(payload, kind)),
        None => match document_kind(mimetype) {
            Some(kind) => Some(ContentPartView::Document(payload, kind)),
            None => None,
        },
    }
}

/// The part that an attachment becomes. Its media type is matched without
/// regard to case.
pub open spec fn attachment_part(file: FileAttachmentView) -> Option<ContentPartView> {
    part_of(file.base64, lowercase(file.mimetype))
}

/// Whether an attachment is of a kind that a model is given.
pub open spec fn supported(file: FileAttachmentView) -> bool {
    attachment_part(file) is Some
}

/// The parts of the attachments that are supported, in the order of the
/// attachments.
pub open spec fn attachment_parts(files: Seq<FileAttachmentView>) -> Seq<ContentPartView> {
    files.filter_map(|file: FileAttachmentView| attachment_part(file))
}

/// The message for a prompt and its attachments: the parts of the supported
/// attachments in their order, then the prompt as text.
pub open spec fn built_message(prompt: Seq<char>, files: Seq<FileAttachmentView>) -> Seq<
    ContentPartView,
> {
    attachment_parts(files).push(ContentPartView::Text(prompt))
}

/// The marker put before background that the system recorded.
pub open spec fn system_context_marker() -> Seq<char> {
    "[System Context]: "@
}

/// Who speaks in a message sent to a model.
#[derive(Debug, Clone, Copy, PartialEq, Eq, Structural)]
pub enum Speaker {
    User,
    Assistant,
}

/// A message of the history, with who speaks in it.
#[derive(Debug, PartialEq, Eq)]
pub struct RoleMessage {
    pub speaker: Speaker,
    pub message: Message,
}

/// What a [`RoleMessage`] holds, as text.
pub struct RoleMessageView {
    pub speaker: Speaker,
    pub parts: Seq<ContentPartView>,
}

impl View for RoleMessage {
    type V = RoleMessageView;

    open spec fn view(&self) -> RoleMessageView {
        RoleMessageView { speaker: self.speaker, parts: self.message@ }
    }
}

impl DeepView for RoleMessage {
    type V = RoleMessageView;

    open spec fn deep_view(&self) -> RoleMessageView {
        self@
    }
}

/// The message that a stored turn becomes. The model has no channel for
/// background, so a system turn is given to it in the user's voice, behind
/// the marker.
pub open spec fn normalized_turn(turn: ChatMessageView) -> RoleMessageView {
    match turn.role {
        Role::User => RoleMessageView {
            speaker: Speaker::User,
            parts: seq![ContentPartView::Text(turn.content)],
        },
        Role::System => RoleMessageView {
            speaker: Speaker::User,
            parts: seq![ContentPartView::Text(system_context_marker() + turn.content)],
        },
        Role::Assistant => RoleMessageView {
            speaker: Speaker::Assistant,
            parts: seq![ContentPartView::Text(turn.content)],
        },
    }
}

/// The messages that stored turns become, in their order.
pub open spec fn normalized_history(turns: Seq<ChatMessageView>) -> Seq<RoleMessageView> {
    turns.map_values(|turn: ChatMessageView| normalized_turn(turn))
}

/// Whether no two tools carry the same name.
pub open spec fn distinct_names(tools: Seq<ToolSpecView>) -> bool {
    forall|i: int, j: int|
        0 <= i < j < tools.len() ==> (#[trigger] tools[i]).name != (#[trigger] tools[j]).name
}

/// Whether a tool of that name is among `tools`.
pub open spec fn has_tool(tools: Seq<ToolSpecView>, name: Seq<char>) -> bool {
    exists|i: int| 0 <= i < tools.len() && (#[trigger] tools[i]).name == name
}

/// The top-level agent: the specialists that its model may call, each
/// under a name of its own.
#[derive(Debug, PartialEq, Eq)]
pub struct Orchestrator {
    tools: Vec<ToolSpec>,
}

impl View for Orchestrator {
    type V = Seq<ToolSpecView>;

    closed spec fn view(&self) -> Seq<ToolSpecView> {
        self.tools.deep_view()
    }
}

impl Orchestrator {
    /// No two specialists carry the same name.
    #[verifier::type_invariant]
    pub open spec fn named_apart(&self) -> bool {
        distinct_names(self@)
    }

    /// The orchestrator with the address and the damage specialist.
    pub fn new() -> (orchestrator: Orchestrator)
        ensures
            orchestrator@ == seq![address_tool(), damage_tool()],
            distinct_names(orchestrator@),
    {
        let mut tools: Vec<ToolSpec> = Vec::new();
        tools.push(AddressSpecialist::definition());
        tools.push(DamageSpecialist::definition());
        proof {
            reveal_strlit("address_specialist");
            reveal_strlit("damage_specialist");
            assert(address_tool().name.len() != damage_tool().name.len());
            assert(tools.deep_view() =~= seq![address_tool(), damage_tool()]);
        }
        Orchestrator { tools }
    }

    /// The specialists, in the order in which they were registered.
    pub fn tools(&self) -> (tools: &Vec<ToolSpec>)
        ensures
            tools.deep_view() == self@,
            distinct_names(self@),
    {
        proof {
            use_type_invariant(self);
        }
        &self.tools
    }

    /// The index of the specialist called `name`, if one is registered.
    pub fn find_tool(&self, name: &str) -> (found: Option<usize>)
        ensures
            match found {
                Some(index) => index < self@.len() && self@[index as int].name == name@,
                None => !has_tool(self@, name@),
            },
    {
        let mut i: usize = 0;
        while i < self.tools.len()
            invariant
                i <= self.tools.len(),
                forall|k: int| 0 <= k < i ==> (#[trigger] self@[k]).name != name@,
            decreases self.tools.len() - i,
        {
            proof {
                assert(self@[i as int] == self.tools[i as int]@);
            }
            if self.tools[i].name.as_str().eq(name) {
                return Some(i);
            }
            i = i + 1;
        }
        None
    }

    /// Registers one more specialist, unless its name is taken. Gives the
    /// orchestrator back and says whether the specialist was registered.
    pub fn register(self, tool: ToolSpec) -> (after: (Orchestrator, bool))
        ensures
            after.1 == !has_tool(self@, tool@.name),
            after.0@ == if after.1 {
                self@.push(tool@)
            } else {
                self@
            },
            distinct_names(after.0@),
    {
        proof {
            use_type_invariant(&self);
        }
        if self.find_tool(tool.name.as_str()).is_some() {
            return (self, false);
        }
        let ghost before = self@;
        let Orchestrator { tools } = self;
        let mut tools = tools;
        tools.push(tool);
        proof {
            assert(tools.deep_view() =~= before.push(tool@));
        }
        (Orchestrator { tools }, true)
    }

    /// Assembles an exchange: the stored turns as messages and the message
    /// built from the prompt and its files, with nothing asked yet. A blank
    /// prompt gives no exchange: no model is asked without an instruction.
    pub fn receive(&self, prompt: &str, history: &Vec<ChatMessage>, files: Vec<FileAttachment>) -> (exchange: Option<Delegation>)
        ensures
            match exchange {
                Some(exchange) => !blank(prompt@) && exchange@ == received(
                    normalized_history(history.deep_view()),
                    built_message(prompt@, files.deep_view()),
                ),
                None => blank(prompt@),
            },
    {
        proof {
            lemma_trimmed_blank_iff(prompt@);
        }
        if trim(prompt).is_empty() {
            return None;
        }
        let turns = Self::normalize_history(history);
        let message = Self::build_user_content(prompt, files);
        Some(Delegation::new(turns, message))
    }

    /// Looks a media type in lower case up in the image table.
    pub fn parse_image_mimetype(mimetype: &str) -> (kind: Option<ImageKind>)
        ensures
            kind == image_kind(mimetype@),
    {
        if mimetype.eq("image/jpeg") || mimetype.eq("image/jpg") {
            Some(ImageKind::Jpeg)
        } else if mimetype.eq("image/png") {
            Some(ImageKind::Png)
        } else if mimetype.eq("image/gif") {
            Some(ImageKind::Gif)
        } else if mimetype.eq("image/webp") {
            Some(ImageKind::Webp)
        } else if mimetype.eq("image/heic") {
            Some(ImageKind::Heic)
        } else if mimetype.eq("image/heif") {
            Some(ImageKind::Heif)
        } else if mimetype.eq("image/svg+xml") {
            Some(ImageKind::Svg)
        } else {
            None
        }
    }

    /// Looks a media type in lower case up in the document table.
    pub fn parse_document_mimetype(mimetype: &str) -> (kind: Option<DocumentKind>)
        ensures
            kind == document_kind(mimetype@),
    {
        if mimetype.eq("application/pdf") {
            Some(DocumentKind::Pdf)
        } else if mimetype.eq("text/plain") {
            Some(DocumentKind::Txt)
        } else if mimetype.eq("text/html") {
            Some(DocumentKind::Html)
        } else if mimetype.eq("text/css") {
            Some(DocumentKind::Css)
        } else if mimetype.eq("text/markdown") || mimetype.eq("text/x-markdown") {
            Some(DocumentKind::Markdown)
        } else if mimetype.eq("text/csv") {
            Some(DocumentKind::Csv)
        } else if mimetype.eq("application/xml") || mimetype.eq("text/xml") {
            Some(DocumentKind::Xml)
        } else if mimetype.eq("application/rtf") || mimetype.eq("text/rtf") {
            Some(DocumentKind::Rtf)
        } else if mimetype.eq("application/javascript") || mimetype.eq("text/javascript") {
            Some(DocumentKind::Javascript)
        } else if mimetype.eq("text/x-python") || mimetype.eq("application/x-python") {
            Some(DocumentKind::Python)
        } else {
            None
        }
    }

    /// The part for a payload whose media type has been put in lower case.
    pub fn content_for(payload: &str, mimetype: &str) -> (part: Option<ContentPart>)
        ensures
            part.deep_view() == part_of(payload@, mimetype@),
    {
        if let Some(kind) = Self::parse_image_mimetype(mimetype) {
            return Some(ContentPart::Image(String::from_str(payload), kind));
        }
        if let Some(kind) = Self::parse_document_mimetype(mimetype) {
            return Some(ContentPart::Document(String::from_str(payload), kind));
        }
        None
    }

    /// The part for an attachment, or nothing where its kind is not
    /// supported.
    pub fn file_to_user_content(file: &FileAttachment) -> (part: Option<ContentPart>)
        ensures
            part.deep_view() == attachment_part(file@),
    {
        let mimetype = file.mimetype.as_str().to_lowercase();
        Self::content_for(file.base64.as_str(), mimetype.as_str())
    }

    /// Builds the message for a prompt and its attachments. Attachments of
    /// an unsupported kind are left out; the prompt always comes last.
    pub fn build_user_content(prompt: &str, files: Vec<FileAttachment>) -> (message: Message)
        ensures
            message@ == built_message(prompt@, files.deep_view()),
            message@.last() == ContentPartView::Text(prompt@),
            forall|i: int| 0 <= i < message@.len() - 1 ==> !(#[trigger] message@[i] is Text),
    {
        let ghost sent = files.deep_view();
        let ghost part = |file: FileAttachmentView| attachment_part(file);
        if files.len() == 0 {
            let message = Message::text(prompt);
            proof {
                assert(sent =~= Seq::<FileAttachmentView>::empty());
                assert(message@ =~= built_message(prompt@, sent));
            }
            return message;
        }
        let mut contents: Vec<ContentPart> = Vec::new();
        let mut i: usize = 0;
        while i < files.len()
            invariant
                i <= files.len(),
                sent == files.deep_view(),
                part == |file: FileAttachmentView| attachment_part(file),
                contents.deep_view() == sent.take(i as int).filter_map(part),
                forall|k: int| 0 <= k < contents.len() ==> !(#[trigger] contents.deep_view()[k] is Text),
            decreases files.len() - i,
        {
            let ghost before = contents.deep_view();
            proof {
                sent.lemma_filter_map_take_succ(part, i as int);
                assert(sent[i as int] == files[i as int]@);
            }
            match Self::file_to_user_content(&files[i]) {
                Some(content) => {
                    contents.push(content);
                    proof {
                        assert(contents.deep_view() =~= before.push(
                            attachment_part(sent[i as int])->0,
                        ));
                        assert(before.push(attachment_part(sent[i as int])->0) =~= before
                            + seq![attachment_part(sent[i as int])->0]);
                    }
                },
                None => {
                    proof {
                        assert(before + Seq::<ContentPartView>::empty() =~= before);
                    }
                },
            }
            i = i + 1;
        }
        proof {
            assert(sent.take(i as int) =~= sent);
        }
        Message::with_attachments(contents, prompt)
    }

    /// The message that one stored turn becomes.
    pub fn normalize_turn(turn: &ChatMessage) -> (message: RoleMessage)
        ensures
            message@ == normalized_turn(turn@),
    {
        match turn.role {
            Role::User => RoleMessage {
                speaker: Speaker::User,
                message: Message::text(turn.content.as_str()),
            },
            Role::System => {
                let mut text = String::from_str("[System Context]: ");
                text.append(turn.content.as_str());
                RoleMessage { speaker: Speaker::User, message: Message::text(text.as_str()) }
            },
            Role::Assistant => RoleMessage {
                speaker: Speaker::Assistant,
                message: Message::text(turn.content.as_str()),
            },
        }
    }

    /// The messages that the stored turns of a session become, oldest first.
    pub fn normalize_history(history: &Vec<ChatMessage>) -> (messages: Vec<RoleMessage>)
        ensures
            messages.deep_view() == normalized_history(history.deep_view()),
    {
        let ghost turns = history.deep_view();
        let mut messages: Vec<RoleMessage> = Vec::new();
        let mut i: usize = 0;
        while i < history.len()
            invariant
                i <= history.len(),
                turns == history.deep_view(),
                messages.len() == i,
                forall|k: int| 0 <= k < i ==> #[trigger] messages[k]@ == normalized_turn(turns[k]),
            decreases history.len() - i,
        {
            let message = Self::normalize_turn(&history[i]);
            proof {
                assert(turns[i as int] == history[i as int]@);
            }
            messages.push(message);
            i = i + 1;
        }
        proof {
            assert(messages.deep_view() =~= normalized_history(turns));
        }
        messages
    }
}

/// No part made of an attachment is text.
pub proof fn lemma_attachment_parts_hold_no_text(files: Seq<FileAttachmentView>)
    ensures
        forall|i: int|
            0 <= i < attachment_parts(files).len() ==> !((#[trigger] attachment_parts(files)[i]) is Text),
    decreases files.len(),
{
    if files.len() > 0 {
        lemma_attachment_parts_hold_no_text(files.drop_last());
    }
}

/// The parts made of attachments are as many as the attachments that are
/// supported.
pub proof fn lemma_attachment_parts_len(files: Seq<FileAttachmentView>)
    ensures
        attachment_parts(files).len() == files.filter(
            |file: FileAttachmentView| supported(file),
        ).len(),
    decreases files.len(),
{
    reveal(Seq::filter);
    if files.len() > 0 {
        lemma_attachment_parts_len(files.drop_last());
    }
}

/// A built message ends with the prompt as text, and holds no other text
/// part, whatever is attached.
pub proof fn law_message_ends_with_the_prompt(prompt: Seq<char>, files: Seq<FileAttachmentView>)
    ensures
        built_message(prompt, files).last() == ContentPartView::Text(prompt),
        forall|i: int|
            0 <= i < built_message(prompt, files).len() - 1 ==> !((#[trigger] built_message(
                prompt,
                files,
            )[i]) is Text),
{
    lemma_attachment_parts_hold_no_text(files);
    assert forall|i: int| 0 <= i < built_message(prompt, files).len() - 1 implies !((
    #[trigger] built_message(prompt, files)[i]) is Text) by {
        assert(built_message(prompt, files)[i] == attachment_parts(files)[i]);
    }
}

/// Attachments of an unsupported kind are dropped: the message is the one
/// that the supported attachments alone would give, and it has one part
/// for each of them and one for the prompt.
pub proof fn law_unsupported_attachments_are_dropped(
    prompt: Seq<char>,
    files: Seq<FileAttachmentView>,
)
    ensures
        built_message(prompt, files) == built_message(
            prompt,
            files.filter(|file: FileAttachmentView| supported(file)),
        ),
        built_message(prompt, files).len() == files.filter(
            |file: FileAttachmentView| supported(file),
        ).len() + 1,
    decreases files.len(),
{
    let keep = |file: FileAttachmentView| supported(file);
    lemma_attachment_parts_len(files);
    reveal(Seq::filter);
    if files.len() > 0 {
        let rest = files.drop_last();
        law_unsupported_attachments_are_dropped(prompt, rest);
        assert(attachment_parts(rest.filter(keep)) =~= built_message(
            prompt,
            rest.filter(keep),
        ).drop_last());
        assert(attachment_parts(rest) =~= built_message(prompt, rest).drop_last());
        if supported(files.last()) {
            let kept = files.filter(keep);
            assert(kept == rest.filter(keep).push(files.last()));
            assert(kept.drop_last() =~= rest.filter(keep));
            assert(kept.last() == files.last());
        }
    }
}

/// Where no attachment is supported, the message is the prompt alone.
pub proof fn law_only_the_prompt_is_left(prompt: Seq<char>, files: Seq<FileAttachmentView>)
    requires
        forall|i: int| 0 <= i < files.len() ==> !supported(#[trigger] files[i]),
    ensures
        built_message(prompt, files) == seq![ContentPartView::Text(prompt)],
    decreases files.len(),
{
    if files.len() > 0 {
        let rest = files.drop_last();
        assert forall|i: int| 0 <= i < rest.len() implies !supported(#[trigger] rest[i]) by {
            assert(rest[i] == files[i]);
        }
        law_only_the_prompt_is_left(prompt, rest);
        assert(!supported(files[files.len() - 1]));
        assert(attachment_parts(rest) =~= built_message(prompt, rest).drop_last());
    }
    assert(built_message(prompt, files) =~= seq![ContentPartView::Text(prompt)]);
}

/// A system turn with content `X` becomes a message in the user's voice
/// whose only part is the text `[System Context]: X`.
pub proof fn law_system_turn_is_marked(content: Seq<char>)
    ensures
        normalized_turn(ChatMessageView { role: Role::System, content }) == (RoleMessageView {
            speaker: Speaker::User,
            parts: seq![ContentPartView::Text("[System Context]: "@ + content)],
        }),
{
}

/// Building twice from the same prompt and files gives the same message.
pub proof fn law_building_is_repeatable(
    prompt: &str,
    files: Vec<FileAttachment>,
    first: Message,
    second: Message,
)
    requires
        call_ensures(Orchestrator::build_user_content, (prompt, files), first),
        call_ensures(Orchestrator::build_user_content, (prompt, files), second),
    ensures
        first@ == second@,
{
}

/// Normalising the same turns twice gives the same messages.
pub proof fn law_normalising_is_repeatable(
    history: &Vec<ChatMessage>,
    first: Vec<RoleMessage>,
    second: Vec<RoleMessage>,
)
    requires
        call_ensures(Orchestrator::normalize_history, (history,), first),
        call_ensures(Orchestrator::normalize_history, (history,), second),
    ensures
        first.deep_view() == second.deep_view(),
{
}

} // verus!
