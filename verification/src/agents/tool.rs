//! How a specialist is described to the model that may call it.

use vstd::prelude::*;
use vstd::string::*;

verus! {

/// One argument that a tool takes.
#[derive(Debug, PartialEq, Eq)]
pub struct ArgumentSpec {
    /// The name of the field.
    pub name: String,
    /// What the model is to extract for it from the conversation.
    pub description: String,
    /// Whether a call must carry it.
    pub required: bool,
}

/// What an [`ArgumentSpec`] holds, as text.
pub struct ArgumentSpecView {
    pub name: Seq<char>,
    pub description: Seq<char>,
    pub required: bool,
}

impl View for ArgumentSpec {
    type V = ArgumentSpecView;

    open spec fn view(&self) -> ArgumentSpecView {
        ArgumentSpecView {
            name: self.name@,
            description: self.description@,
            required: self.required,
        }
    }
}

impl DeepView for ArgumentSpec {
    type V = ArgumentSpecView;

    open spec fn deep_view(&self) -> ArgumentSpecView {
        self@
    }
}

impl ArgumentSpec {
    /// An argument that every call must carry.
    pub fn required(name: &str, description: &str) -> (argument: ArgumentSpec)
        ensures
            argument@ == (ArgumentSpecView {
                name: name@,
                description: description@,
                required: true,
            }),
    {
        ArgumentSpec {
            name: String::from_str(name),
            description: String::from_str(description),
            required: true,
        }
    }

    /// An argument that a call may leave out.
    pub fn optional(name: &str, description: &str) -> (argument: ArgumentSpec)
        ensures
            argument@ == (ArgumentSpecView {
                name: name@,
                description: description@,
                required: false,
            }),
    {
        ArgumentSpec {
            name: String::from_str(name),
            description: String::from_str(description),
            required: false,
        }
    }
}

/// A callable unit as its caller's model sees it. The description says when
/// to call it, and so decides the routing.
#[derive(Debug, PartialEq, Eq)]
pub struct ToolSpec {
    pub name: String,
    pub description: String,
    pub arguments: Vec<ArgumentSpec>,
}

/// What a [`ToolSpec`] holds, as text.
pub struct ToolSpecView {
    pub name: Seq<char>,
    pub description: Seq<char>,
    pub arguments: Seq<ArgumentSpecView>,
}

impl View for ToolSpec {
    type V = ToolSpecView;

    open spec fn view(&self) -> ToolSpecView {
        ToolSpecView {
            name: self.name@,
            description: self.description@,
            arguments: self.arguments.deep_view(),
        }
    }
}

impl DeepView for ToolSpec {
    type V = ToolSpecView;

    open spec fn deep_view(&self) -> ToolSpecView {
        self@
    }
}

/// A request of a model to run one tool.
#[derive(Debug, PartialEq, Eq)]
pub struct ToolCall {
    /// The identifier under which the model expects the result.
    pub id: String,
    /// The name of the tool.
    pub name: String,
    /// The arguments, as the JSON text that the model wrote.
    pub arguments: String,
}

/// What a [`ToolCall`] holds, as text.
pub struct ToolCallView {
    pub id: Seq<char>,
    pub name: Seq<char>,
    pub arguments: Seq<char>,
}

impl View for ToolCall {
    type V = ToolCallView;

    open spec fn view(&self) -> ToolCallView {
        ToolCallView { id: self.id@, name: self.name@, arguments: self.arguments@ }
    }
}

impl DeepView for ToolCall {
    type V = ToolCallView;

    open spec fn deep_view(&self) -> ToolCallView {
        self@
    }
}

impl Clone for ToolCall {
    fn clone(&self) -> (copy: Self)
        ensures
            copy == *self,
    {
        ToolCall {
            id: self.id.clone(),
            name: self.name.clone(),
            arguments: self.arguments.clone(),
        }
    }
}

/// What a [`ToolResult`] holds, as text.
pub struct ToolResultView {
    /// The identifier of the call that this answers.
    pub call_id: Seq<char>,
    /// The output of the tool, or the description of its failure.
    pub content: Seq<char>,
    /// Whether the tool failed.
    pub failed: bool,
}

/// The text before the report of a failed call.
pub open spec fn failure_prefix() -> Seq<char> {
    "ToolCallError: "@
}

/// Whether a result can be shown to a model: a failure is described by a
/// text that is not empty.
pub open spec fn describes_itself(result: ToolResultView) -> bool {
    result.failed ==> result.content.len() > 0
}

/// What running a tool gave, for the model that asked for it. A failure is
/// data like any output: it is described in text that is never empty.
#[derive(Debug, PartialEq, Eq)]
pub struct ToolResult {
    call_id: String,
    content: String,
    failed: bool,
}

impl View for ToolResult {
    type V = ToolResultView;

    closed spec fn view(&self) -> ToolResultView {
        ToolResultView { call_id: self.call_id@, content: self.content@, failed: self.failed }
    }
}

impl DeepView for ToolResult {
    type V = ToolResultView;

    open spec fn deep_view(&self) -> ToolResultView {
        self@
    }
}

impl ToolResult {
    /// Every result describes itself.
    #[verifier::type_invariant]
    pub open spec fn described(&self) -> bool {
        describes_itself(self@)
    }

    /// The result of a call that gave `output`.
    pub fn success(call_id: &str, output: &str) -> (result: ToolResult)
        ensures
            result@ == (ToolResultView { call_id: call_id@, content: output@, failed: false }),
    {
        ToolResult {
            call_id: String::from_str(call_id),
            content: String::from_str(output),
            failed: false,
        }
    }

    /// The result of a call that failed with `report`.
    pub fn failure(call_id: &str, report: &str) -> (result: ToolResult)
        ensures
            result@ == (ToolResultView {
                call_id: call_id@,
                content: failure_prefix() + report@,
                failed: true,
            }),
            result@.content.len() > 0,
    {
        proof {
            reveal_strlit("ToolCallError: ");
        }
        let mut content = String::from_str("ToolCallError: ");
        content.append(report);
        ToolResult { call_id: String::from_str(call_id), content, failed: true }
    }

    /// The result of a call, from what the tool returned: its output, or the
    /// report of its failure.
    pub fn from_outcome(call_id: &str, outcome: &Result<String, String>) -> (result: ToolResult)
        ensures
            result@ == outcome_result(call_id@, reply_view(*outcome)),
            describes_itself(result@),
    {
        match outcome {
            Ok(output) => Self::success(call_id, output.as_str()),
            Err(report) => Self::failure(call_id, report.as_str()),
        }
    }

    /// The identifier of the call that this answers.
    pub fn call_id(&self) -> (id: &str)
        ensures
            id@ == self@.call_id,
    {
        self.call_id.as_str()
    }

    /// The output of the tool, or the description of its failure.
    pub fn content(&self) -> (text: &str)
        ensures
            text@ == self@.content,
            describes_itself(self@),
    {
        proof {
            use_type_invariant(self);
        }
        self.content.as_str()
    }

    /// Whether the tool failed.
    pub fn is_error(&self) -> (failed: bool)
        ensures
            failed == self@.failed,
            describes_itself(self@),
    {
        proof {
            use_type_invariant(self);
        }
        self.failed
    }
}

impl Clone for ToolResult {
    fn clone(&self) -> (copy: Self)
        ensures
            copy@ == self@,
    {
        proof {
            use_type_invariant(self);
        }
        ToolResult {
            call_id: self.call_id.clone(),
            content: self.content.clone(),
            failed: self.failed,
        }
    }
}

/// The result that answers the call `call_id`, given what the tool returned.
pub open spec fn outcome_result(call_id: Seq<char>, outcome: Result<Seq<char>, Seq<char>>) -> ToolResultView {
    match outcome {
        Ok(output) => ToolResultView { call_id, content: output, failed: false },
        Err(report) => ToolResultView { call_id, content: failure_prefix() + report, failed: true },
    }
}

/// What an agent returned, as text: its answer, or the report of why the
/// call to it failed.
pub open spec fn reply_view(reply: Result<String, String>) -> Result<Seq<char>, Seq<char>> {
    match reply {
        Ok(text) => Ok(text@),
        Err(report) => Err(report@),
    }
}

} // verus!
