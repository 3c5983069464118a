//! Validation of a chat request before the orchestrator sees it.

use vstd::prelude::*;
use vstd::string::*;
use vstd::utf8::encode_utf8;
use crate::api::request::{FileAttachment, FileAttachmentView};
use crate::infra::history::{ChatMessage, ChatMessageView, Role};
use crate::infra::errors::{DomainError, DomainResult};
use crate::text::{decimal, decimal_string, has_infix, occurs_at, trim, trimmed};

verus! {

/// The longest prompt accepted, in bytes of UTF-8.
pub const MAX_PROMPT_LEN: usize = 10_000;

/// The largest number of files accepted with one prompt.
pub const MAX_FILES: usize = 10;

/// The largest payload accepted for one file, in bytes of its base64 text.
pub const MAX_FILE_SIZE: usize = 20 * 1024 * 1024;

/// The number of bytes that `text` takes in UTF-8.
pub open spec fn utf8_len(text: Seq<char>) -> nat {
    encode_utf8(text).len()
}

/// The marker that a data-URI header carries before its comma.
pub open spec fn base64_marker() -> Seq<char> {
    "base64"@
}

pub open spec fn empty_prompt_text() -> Seq<char> {
    "El prompt no puede estar vacío"@
}

pub open spec fn long_prompt_text() -> Seq<char> {
    "El prompt excede el límite de 10,000 caracteres"@
}

/// What validation makes of a prompt: the trimmed prompt, or the text of the
/// fault. An empty prompt is reported before an oversized one.
pub open spec fn prompt_verdict(prompt: Seq<char>) -> Result<Seq<char>, Seq<char>> {
    let kept = trimmed(prompt);
    if kept.len() == 0 {
        Err(empty_prompt_text())
    } else if utf8_len(kept) > MAX_PROMPT_LEN {
        Err(long_prompt_text())
    } else {
        Ok(kept)
    }
}

/// A validated text or the text of a fault, as plain sequences.
pub open spec fn text_verdict(verdict: DomainResult<String>) -> Result<Seq<char>, Seq<char>> {
    match verdict {
        Ok(text) => Ok(text@),
        Err(fault) => Err(fault.text()),
    }
}

/// The number of bytes that `s` takes.
pub fn byte_len(s: &str) -> (n: usize)
    ensures
        n == utf8_len(s@),
{
    s.as_bytes().len()
}

/// Trims the prompt and rejects one that is then empty or longer than
/// [`MAX_PROMPT_LEN`] bytes.
pub fn validate_prompt(prompt: &str) -> (verdict: DomainResult<String>)
    ensures
        text_verdict(verdict) == prompt_verdict(prompt@),
{
    let kept = trim(prompt);
    if kept.is_empty() {
        return Err(DomainError::validation("El prompt no puede estar vacío"));
    }
    if byte_len(kept) > MAX_PROMPT_LEN {
        return Err(DomainError::validation("El prompt excede el límite de 10,000 caracteres"));
    }
    Ok(String::from_str(kept))
}

/// The payload of `content`: where a comma occurs and the text before the
/// first comma holds the marker `base64`, what follows that comma; else
/// `content` as it is.
pub open spec fn stripped(content: Seq<char>) -> Seq<char> {
    match content.index_of_first(',') {
        Some(comma) => if has_infix(content.subrange(0, comma), base64_marker()) {
            content.subrange(comma + 1, content.len() as int)
        } else {
            content
        },
        None => content,
    }
}

proof fn lemma_first_comma(content: Seq<char>, comma: int)
    requires
        0 <= comma < content.len(),
        content[comma] == ',',
        forall|j: int| 0 <= j < comma ==> content[j] != ',',
    ensures
        content.index_of_first(',') == Some(comma),
{
    content.index_of_first_ensures(',');
    assert(content.contains(','));
}

proof fn lemma_no_comma(content: Seq<char>)
    requires
        forall|j: int| 0 <= j < content.len() ==> content[j] != ',',
    ensures
        content.index_of_first(',') is None,
{
    content.index_of_first_ensures(',');
}

proof fn lemma_infix_extend(s: Seq<char>, pattern: Seq<char>, end: int)
    requires
        0 <= end < s.len(),
        pattern.len() > 0,
    ensures
        has_infix(s.subrange(0, end + 1), pattern) <==> (has_infix(s.subrange(0, end), pattern)
            || occurs_at(s, pattern, end + 1 - pattern.len())),
{
    let shorter = s.subrange(0, end);
    let longer = s.subrange(0, end + 1);
    let last = end + 1 - pattern.len();
    if has_infix(longer, pattern) {
        let at = choose|at: int| occurs_at(longer, pattern, at);
        assert(longer.subrange(at, at + pattern.len()) =~= s.subrange(at, at + pattern.len()));
        if at + pattern.len() <= end {
            assert(shorter.subrange(at, at + pattern.len()) =~= s.subrange(at, at + pattern.len()));
            assert(occurs_at(shorter, pattern, at));
        } else {
            assert(at == last);
        }
    }
    if has_infix(shorter, pattern) {
        let at = choose|at: int| occurs_at(shorter, pattern, at);
        assert(shorter.subrange(at, at + pattern.len()) =~= longer.subrange(at, at + pattern.len()));
        assert(occurs_at(longer, pattern, at));
    }
    if occurs_at(s, pattern, last) {
        assert(longer.subrange(last, last + pattern.len()) =~= s.subrange(last, last + pattern.len()));
        assert(occurs_at(longer, pattern, last));
    }
}

/// Whether the marker is spelled out in `s` from index `at` on.
spec fn spelled_at(s: Seq<char>, at: int) -> bool {
    &&& 0 <= at
    &&& at + 6 <= s.len()
    &&& s[at] == 'b'
    &&& s[at + 1] == 'a'
    &&& s[at + 2] == 's'
    &&& s[at + 3] == 'e'
    &&& s[at + 4] == '6'
    &&& s[at + 5] == '4'
}

proof fn lemma_spelled(s: Seq<char>, at: int)
    ensures
        occurs_at(s, base64_marker(), at) == spelled_at(s, at),
{
    reveal_strlit("base64");
    let marker = base64_marker();
    if 0 <= at && at + 6 <= s.len() {
        let window = s.subrange(at, at + 6);
        if spelled_at(s, at) {
            assert(window =~= marker);
        }
        if window == marker {
            assert(window[0] == marker[0]);
            assert(window[1] == marker[1]);
            assert(window[2] == marker[2]);
            assert(window[3] == marker[3]);
            assert(window[4] == marker[4]);
            assert(window[5] == marker[5]);
        }
    }
}

/// The marker stands in the first `end + 1` characters exactly if it stands
/// in the first `end` or ends at index `end`.
proof fn lemma_marker_step(s: Seq<char>, end: int)
    requires
        0 <= end < s.len(),
    ensures
        has_infix(s.subrange(0, end + 1), base64_marker()) == (has_infix(
            s.subrange(0, end),
            base64_marker(),
        ) || spelled_at(s, end - 5)),
{
    reveal_strlit("base64");
    lemma_infix_extend(s, base64_marker(), end);
    lemma_spelled(s, end - 5);
}

proof fn lemma_marker_start(s: Seq<char>)
    ensures
        !has_infix(s.subrange(0, 0), base64_marker()),
{
    reveal_strlit("base64");
}

/// Removes the header of a data URI (`data:<type>;base64,`) from a payload.
pub fn strip_data_uri_prefix(base64: &str) -> (payload: String)
    ensures
        payload@ == stripped(base64@),
{
    let len = base64.unicode_len();
    let mut comma: Option<usize> = None;
    let mut marked = false;
    let mut w0: char = ' ';
    let mut w1: char = ' ';
    let mut w2: char = ' ';
    let mut w3: char = ' ';
    let mut w4: char = ' ';
    let mut w5: char = ' ';
    let mut i: usize = 0;
    proof {
        lemma_marker_start(base64@);
    }
    for c in it: base64.chars()
        invariant
            it.seq() == base64@,
            i == it.index(),
            len == base64@.len(),
            match comma {
                Some(at) => {
                    &&& at < i
                    &&& base64@[at as int] == ','
                    &&& forall|j: int| 0 <= j < at ==> base64@[j] != ','
                    &&& marked == has_infix(base64@.subrange(0, at as int), base64_marker())
                },
                None => {
                    &&& forall|j: int| 0 <= j < i ==> base64@[j] != ','
                    &&& marked == has_infix(base64@.subrange(0, i as int), base64_marker())
                    &&& i >= 1 ==> w5 == base64@[i - 1]
                    &&& i >= 2 ==> w4 == base64@[i - 2]
                    &&& i >= 3 ==> w3 == base64@[i - 3]
                    &&& i >= 4 ==> w2 == base64@[i - 4]
                    &&& i >= 5 ==> w1 == base64@[i - 5]
                    &&& i >= 6 ==> w0 == base64@[i - 6]
                },
            },
    {
        if comma.is_none() {
            if c == ',' {
                comma = Some(i);
            } else {
                w0 = w1;
                w1 = w2;
                w2 = w3;
                w3 = w4;
                w4 = w5;
                w5 = c;
                let here = i >= 5 && w0 == 'b' && w1 == 'a' && w2 == 's' && w3 == 'e' && w4 == '6'
                    && w5 == '4';
                proof {
                    lemma_marker_step(base64@, i as int);
                    assert(here == spelled_at(base64@, i - 5));
                }
                if here {
                    marked = true;
                }
            }
        }
        i = i + 1;
    }
    match comma {
        Some(at) => {
            proof {
                lemma_first_comma(base64@, at as int);
            }
            if marked {
                String::from_str(base64.substring_char(at + 1, len))
            } else {
                String::from_str(base64)
            }
        },
        None => {
            proof {
                lemma_no_comma(base64@);
            }
            String::from_str(base64)
        },
    }
}

/// Why a file is refused.
#[derive(Debug, Clone, Copy, PartialEq, Eq, Structural)]
pub enum FileFault {
    /// Nothing is left of the payload once a data-URI header is removed.
    EmptyContent,
    /// The payload is longer than [`MAX_FILE_SIZE`] bytes.
    TooLarge,
    /// No media type is declared.
    MissingMimetype,
}

/// The first reason, in the order of the variants of [`FileFault`], for which
/// `file` is refused, if there is one.
pub open spec fn file_fault(file: FileAttachmentView) -> Option<FileFault> {
    let payload = stripped(file.base64);
    if payload.len() == 0 {
        Some(FileFault::EmptyContent)
    } else if utf8_len(payload) > MAX_FILE_SIZE {
        Some(FileFault::TooLarge)
    } else if file.mimetype.len() == 0 {
        Some(FileFault::MissingMimetype)
    } else {
        None
    }
}

/// The file with the data-URI header removed from its payload.
pub open spec fn cleaned(file: FileAttachmentView) -> FileAttachmentView {
    FileAttachmentView { base64: stripped(file.base64), mimetype: file.mimetype }
}

/// The first refused file of `files`, by its position counted from one, and
/// the reason.
pub open spec fn first_fault(files: Seq<FileAttachmentView>) -> Option<(nat, FileFault)>
    decreases files.len(),
{
    if files.len() == 0 {
        None
    } else {
        match first_fault(files.drop_last()) {
            Some(earlier) => Some(earlier),
            None => match file_fault(files.last()) {
                Some(fault) => Some((files.len(), fault)),
                None => None,
            },
        }
    }
}

pub open spec fn too_many_files_text() -> Seq<char> {
    "No se pueden enviar más de 10 archivos por mensaje"@
}

/// The text that reports `fault` for the file at `position`, counted from one.
pub open spec fn fault_text(fault: FileFault, position: nat) -> Seq<char> {
    let subject = "El archivo "@ + decimal(position);
    match fault {
        FileFault::EmptyContent => subject + " tiene contenido vacío"@,
        FileFault::TooLarge => subject + " excede el límite de 20MB"@,
        FileFault::MissingMimetype => subject + " no tiene mimetype definido"@,
    }
}

/// What validation makes of the files of a request: the cleaned files in
/// their order, or the text of the fault. No files count as none sent; too
/// many files are reported before any single file is looked at, and then the
/// first refused file decides.
pub open spec fn files_verdict(files: Option<Seq<FileAttachmentView>>) -> Result<
    Seq<FileAttachmentView>,
    Seq<char>,
> {
    let sent = match files {
        Some(sent) => sent,
        None => Seq::empty(),
    };
    if sent.len() > MAX_FILES {
        Err(too_many_files_text())
    } else {
        match first_fault(sent) {
            Some((position, fault)) => Err(fault_text(fault, position)),
            None => Ok(sent.map_values(|file: FileAttachmentView| cleaned(file))),
        }
    }
}

/// The files sent with a request, as text.
pub open spec fn sent_files(files: Option<Vec<FileAttachment>>) -> Option<Seq<FileAttachmentView>> {
    match files {
        Some(sent) => Some(sent.deep_view()),
        None => None,
    }
}

/// Validated files or the text of a fault, as plain sequences.
pub open spec fn file_list_verdict(verdict: DomainResult<Vec<FileAttachment>>) -> Result<
    Seq<FileAttachmentView>,
    Seq<char>,
> {
    match verdict {
        Ok(files) => Ok(files.deep_view()),
        Err(fault) => Err(fault.text()),
    }
}

proof fn lemma_first_fault_stays(files: Seq<FileAttachmentView>, seen: int)
    requires
        0 <= seen <= files.len(),
        first_fault(files.take(seen)) is Some,
    ensures
        first_fault(files) == first_fault(files.take(seen)),
    decreases files.len() - seen,
{
    if seen == files.len() {
        assert(files.take(seen) =~= files);
    } else {
        assert(files.take(seen + 1).drop_last() =~= files.take(seen));
        lemma_first_fault_stays(files, seen + 1);
    }
}

fn report_fault(fault: FileFault, position: usize) -> (reported: DomainError)
    ensures
        reported.text() == fault_text(fault, position as nat),
{
    let mut message = String::from_str("El archivo ");
    let number = decimal_string(position);
    message.append(number.as_str());
    match fault {
        FileFault::EmptyContent => message.append(" tiene contenido vacío"),
        FileFault::TooLarge => message.append(" excede el límite de 20MB"),
        FileFault::MissingMimetype => message.append(" no tiene mimetype definido"),
    }
    DomainError::Validation(message)
}

/// Checks the files of a request and removes data-URI headers from their
/// payloads.
pub fn validate_files(files: Option<Vec<FileAttachment>>) -> (verdict: DomainResult<
    Vec<FileAttachment>,
>)
    ensures
        file_list_verdict(verdict) == files_verdict(sent_files(files)),
{
    let sent = match files {
        Some(sent) => sent,
        None => Vec::new(),
    };
    if sent.len() > MAX_FILES {
        return Err(DomainError::validation("No se pueden enviar más de 10 archivos por mensaje"));
    }
    let ghost all = sent.deep_view();
    let ghost verdict_owed = files_verdict(sent_files(files));
    proof {
        if files is None {
            assert(all =~= Seq::<FileAttachmentView>::empty());
        }
        assert(verdict_owed == files_verdict(Some(all)));
    }
    let mut kept: Vec<FileAttachment> = Vec::new();
    let mut i: usize = 0;
    while i < sent.len()
        invariant
            i <= sent.len() <= MAX_FILES,
            all == sent.deep_view(),
            verdict_owed == files_verdict(sent_files(files)),
            verdict_owed == files_verdict(Some(all)),
            first_fault(all.take(i as int)) is None,
            kept.deep_view() == all.take(i as int).map_values(|file: FileAttachmentView| cleaned(file)),
        decreases sent.len() - i,
    {
        let file = &sent[i];
        let payload = strip_data_uri_prefix(file.base64.as_str());
        let fault = if payload.as_str().is_empty() {
            Some(FileFault::EmptyContent)
        } else if byte_len(payload.as_str()) > MAX_FILE_SIZE {
            Some(FileFault::TooLarge)
        } else if file.mimetype.as_str().is_empty() {
            Some(FileFault::MissingMimetype)
        } else {
            None
        };
        proof {
            assert(all[i as int] == file@);
            assert(fault == file_fault(all[i as int]));
            assert(all.take(i + 1).drop_last() =~= all.take(i as int));
            assert(all.take(i + 1).last() == all[i as int]);
        }
        match fault {
            Some(fault) => {
                proof {
                    assert(first_fault(all.take(i + 1)) == Some(((i + 1) as nat, fault)));
                    lemma_first_fault_stays(all, i + 1);
                }
                return Err(report_fault(fault, i + 1));
            },
            None => {},
        }
        let ghost before = kept.deep_view();
        let entry = FileAttachment { base64: payload, mimetype: file.mimetype.clone() };
        kept.push(entry);
        proof {
            assert(kept.deep_view() =~= before.push(cleaned(all[i as int])));
            assert(kept.deep_view() =~= all.take(i + 1).map_values(
                |file: FileAttachmentView| cleaned(file),
            ));
        }
        i = i + 1;
    }
    proof {
        assert(all.take(i as int) =~= all);
    }
    Ok(kept)
}

/// What validation makes of a request: the trimmed prompt and the cleaned
/// files, or the text of the fault. The prompt is judged before the files.
pub open spec fn request_verdict(
    prompt: Seq<char>,
    files: Option<Seq<FileAttachmentView>>,
) -> Result<(Seq<char>, Seq<FileAttachmentView>), Seq<char>> {
    match prompt_verdict(prompt) {
        Err(fault) => Err(fault),
        Ok(kept) => match files_verdict(files) {
            Err(fault) => Err(fault),
            Ok(cleaned) => Ok((kept, cleaned)),
        },
    }
}

/// Validates the prompt and the files of a request.
pub fn validate_request(prompt: &str, files: Option<Vec<FileAttachment>>) -> (verdict: DomainResult<
    (String, Vec<FileAttachment>),
>)
    ensures
        match verdict {
            Ok((kept, cleaned)) => request_verdict(prompt@, sent_files(files)) == Ok::<
                (Seq<char>, Seq<FileAttachmentView>),
                Seq<char>,
            >((kept@, cleaned.deep_view())),
            Err(fault) => request_verdict(prompt@, sent_files(files)) == Err::<
                (Seq<char>, Seq<FileAttachmentView>),
                Seq<char>,
            >(fault.text()),
        },
{
    let kept = match validate_prompt(prompt) {
        Ok(kept) => kept,
        Err(fault) => {
            return Err(fault);
        },
    };
    match validate_files(files) {
        Ok(cleaned) => Ok((kept, cleaned)),
        Err(fault) => Err(fault),
    }
}

/// The number of characters of a freshly drawn session identifier.
pub const SESSION_ID_LEN: usize = 36;

/// Draws a session identifier with `uuid::Uuid::new_v4` and writes it as
/// text. The identifier is random, so only its length is stated: the
/// hyphenated form of an identifier has 36 characters.
#[verifier::external_body]
fn fresh_session_id() -> (id: String)
    ensures
        id@.len() == SESSION_ID_LEN,
{
    uuid::Uuid::new_v4().to_string()
}

/// The session that a request belongs to: the one it names, or a new one.
pub fn session_id_for(requested: Option<String>) -> (id: String)
    ensures
        match requested {
            Some(named) => id@ == named@,
            None => id@.len() == SESSION_ID_LEN,
        },
{
    match requested {
        Some(named) => named,
        None => fresh_session_id(),
    }
}

/// The turns that one exchange adds to the history of its session: what the
/// user asked, then what was answered.
pub open spec fn exchanged(prompt: Seq<char>, response: Seq<char>) -> Seq<ChatMessageView> {
    seq![
        ChatMessageView { role: Role::User, content: prompt },
        ChatMessageView { role: Role::Assistant, content: response },
    ]
}

/// The turns to append to the history after an exchange.
pub fn exchange_turns(prompt: &str, response: &str) -> (turns: Vec<ChatMessage>)
    ensures
        turns.deep_view() == exchanged(prompt@, response@),
{
    let mut turns: Vec<ChatMessage> = Vec::new();
    turns.push(ChatMessage { role: Role::User, content: String::from_str(prompt) });
    turns.push(ChatMessage { role: Role::Assistant, content: String::from_str(response) });
    assert(turns.deep_view() =~= exchanged(prompt@, response@));
    turns
}

} // verus!
