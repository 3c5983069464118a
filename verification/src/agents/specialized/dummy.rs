//! A specialist for trying the system out, and the pattern for new ones.

use vstd::prelude::*;
use vstd::string::*;
use crate::agents::tool::{reply_view, ArgumentSpec, ArgumentSpecView, ToolSpec, ToolSpecView};
use crate::text::{blank, lemma_trimmed_blank_iff, trim, trimmed};

verus! {

/// What the orchestrator's model extracts for the test specialist.
#[derive(Debug, PartialEq, Eq)]
pub struct DummyArgs {
    /// The message to process.
    pub message: String,
    /// How detailed the answer is to be: `brief`, `normal` or `detailed`.
    pub detail_level: String,
}

/// What a [`DummyArgs`] holds, as text.
pub struct DummyArgsView {
    pub message: Seq<char>,
    pub detail_level: Seq<char>,
}

impl View for DummyArgs {
    type V = DummyArgsView;

    open spec fn view(&self) -> DummyArgsView {
        DummyArgsView { message: self.message@, detail_level: self.detail_level@ }
    }
}

pub open spec fn default_detail_level_text() -> Seq<char> {
    "normal"@
}

/// The detail level of a call that names none.
pub fn default_detail_level() -> (level: String)
    ensures
        level@ == default_detail_level_text(),
{
    String::from_str("normal")
}

/// Figures that come with an answer.
#[derive(Debug, Clone, Copy, PartialEq, Eq, Structural)]
pub struct DummyMetadata {
    /// How many tools the agent used.
    pub tools_used: u32,
    /// How many tokens the call took, where that is known.
    pub tokens_used: Option<u32>,
}

/// The answer of the test specialist.
#[derive(Debug, PartialEq, Eq)]
pub struct DummyOutput {
    pub reply: String,
    pub success: bool,
    pub metadata: Option<DummyMetadata>,
}

/// A failure of the test specialist.
#[derive(Debug, PartialEq, Eq)]
pub enum DummyError {
    /// The call to the language model failed.
    LlmError(String),
    /// The arguments were refused.
    ValidationError(String),
    /// A tool of the specialist failed.
    ToolError { tool: String, message: String },
}

/// A [`DummyError`], as text.
pub enum DummyErrorView {
    LlmError(Seq<char>),
    ValidationError(Seq<char>),
    ToolError { tool: Seq<char>, message: Seq<char> },
}

impl View for DummyError {
    type V = DummyErrorView;

    open spec fn view(&self) -> DummyErrorView {
        match self {
            DummyError::LlmError(report) => DummyErrorView::LlmError(report@),
            DummyError::ValidationError(reason) => DummyErrorView::ValidationError(reason@),
            DummyError::ToolError { tool, message } => DummyErrorView::ToolError {
                tool: tool@,
                message: message@,
            },
        }
    }
}

/// The text by which a failure is reported.
pub open spec fn dummy_error_text(failure: DummyErrorView) -> Seq<char> {
    match failure {
        DummyErrorView::LlmError(report) => "Error de comunicación con el LLM: "@ + report,
        DummyErrorView::ValidationError(reason) => "Argumentos inválidos: "@ + reason,
        DummyErrorView::ToolError { tool, message } => "Error en herramienta '"@ + tool + "': "@
            + message,
    }
}

impl DummyError {
    /// The text by which the failure is reported. It is never empty.
    pub fn message(&self) -> (text: String)
        ensures
            text@ == dummy_error_text(self@),
            text@.len() > 0,
    {
        proof {
            reveal_strlit("Error de comunicación con el LLM: ");
            reveal_strlit("Argumentos inválidos: ");
            reveal_strlit("Error en herramienta '");
        }
        match self {
            DummyError::LlmError(report) => {
                let mut text = String::from_str("Error de comunicación con el LLM: ");
                text.append(report.as_str());
                text
            },
            DummyError::ValidationError(reason) => {
                let mut text = String::from_str("Argumentos inválidos: ");
                text.append(reason.as_str());
                text
            },
            DummyError::ToolError { tool, message } => {
                let mut text = String::from_str("Error en herramienta '");
                text.append(tool.as_str());
                text.append("': ");
                text.append(message.as_str());
                text
            },
        }
    }
}

/// Whether `level` is one of the detail levels.
pub open spec fn known_detail_level(level: Seq<char>) -> bool {
    level == "brief"@ || level == "normal"@ || level == "detailed"@
}

pub open spec fn empty_message_text() -> Seq<char> {
    "El mensaje no puede estar vacío"@
}

/// The reason for which an unknown detail level is refused.
pub open spec fn unknown_level_text(level: Seq<char>) -> Seq<char> {
    "Nivel de detalle inválido: '"@ + level + "'. Usa: [\"brief\", \"normal\", \"detailed\"]"@
}

/// Why `args` are refused, if they are: a message that is blank, or else a
/// detail level that is not known.
pub open spec fn args_fault(args: DummyArgsView) -> Option<Seq<char>> {
    if blank(args.message) {
        Some(empty_message_text())
    } else if !known_detail_level(args.detail_level) {
        Some(unknown_level_text(args.detail_level))
    } else {
        None
    }
}

/// The prompt that the specialist's agent is given for `args`.
pub open spec fn dummy_prompt(args: DummyArgsView) -> Seq<char> {
    "Procesa el siguiente mensaje con nivel de detalle '"@ + args.detail_level + "':\n\n"@
        + args.message
}

pub open spec fn dummy_tool_name() -> Seq<char> {
    "dummy_specialist"@
}

/// How the specialist is described to the orchestrator's model.
pub open spec fn dummy_tool() -> ToolSpecView {
    ToolSpecView {
        name: dummy_tool_name(),
        description: "Un agente de prueba para verificar el sistema. Úsalo cuando el usuario quiera probar el sistema, diga 'ping', 'test', o pida una demostración."@,
        arguments: seq![
            ArgumentSpecView {
                name: "message"@,
                description: "El mensaje principal que se quiere procesar."@,
                required: true,
            },
            ArgumentSpecView {
                name: "detail_level"@,
                description: "Nivel de detalle en la respuesta: \"brief\", \"normal\", \"detailed\". Si no se especifica, se asume \"normal\"."@,
                required: false,
            },
        ],
    }
}

/// The test specialist. It holds no state; its agent is run by the caller.
pub struct DummySpecialist {}

impl DummySpecialist {
    /// How the specialist is described to the orchestrator's model.
    pub fn definition() -> (spec: ToolSpec)
        ensures
            spec@ == dummy_tool(),
    {
        let mut arguments: Vec<ArgumentSpec> = Vec::new();
        arguments.push(
            ArgumentSpec::required("message", "El mensaje principal que se quiere procesar."),
        );
        arguments.push(
            ArgumentSpec::optional(
                "detail_level",
                "Nivel de detalle en la respuesta: \"brief\", \"normal\", \"detailed\". Si no se especifica, se asume \"normal\".",
            ),
        );
        assert(arguments.deep_view() =~= dummy_tool().arguments);
        ToolSpec {
            name: String::from_str("dummy_specialist"),
            description: String::from_str(
                "Un agente de prueba para verificar el sistema. Úsalo cuando el usuario quiera probar el sistema, diga 'ping', 'test', o pida una demostración.",
            ),
            arguments,
        }
    }

    /// Checks what a schema cannot say: that the message is not blank and
    /// that the detail level is known.
    pub fn validate_args(args: &DummyArgs) -> (verdict: Result<(), DummyError>)
        ensures
            match verdict {
                Ok(_) => args_fault(args@) is None,
                Err(failure) => args_fault(args@) is Some && failure@
                    == DummyErrorView::ValidationError(args_fault(args@)->0),
            },
    {
        proof {
            lemma_trimmed_blank_iff(args.message@);
        }
        if trim(args.message.as_str()).is_empty() {
            return Err(
                DummyError::ValidationError(String::from_str("El mensaje no puede estar vacío")),
            );
        }
        let level = args.detail_level.as_str();
        if !(level.eq("brief") || level.eq("normal") || level.eq("detailed")) {
            let mut reason = String::from_str("Nivel de detalle inválido: '");
            reason.append(level);
            reason.append("'. Usa: [\"brief\", \"normal\", \"detailed\"]");
            return Err(DummyError::ValidationError(reason));
        }
        Ok(())
    }

    /// Writes the prompt for the specialist's agent.
    pub fn build_prompt(args: &DummyArgs) -> (prompt: String)
        ensures
            prompt@ == dummy_prompt(args@),
    {
        let mut prompt = String::from_str("Procesa el siguiente mensaje con nivel de detalle '");
        prompt.append(args.detail_level.as_str());
        prompt.append("':\n\n");
        prompt.append(args.message.as_str());
        prompt
    }

    /// The first half of a call: the prompt for the agent, or the refusal of
    /// the arguments.
    pub fn prepare(args: &DummyArgs) -> (prompt: Result<String, DummyError>)
        ensures
            match prompt {
                Ok(text) => args_fault(args@) is None && text@ == dummy_prompt(args@),
                Err(failure) => args_fault(args@) is Some && failure@
                    == DummyErrorView::ValidationError(args_fault(args@)->0),
            },
    {
        match Self::validate_args(args) {
            Ok(_) => Ok(Self::build_prompt(args)),
            Err(failure) => Err(failure),
        }
    }

    /// The second half of a call: the answer made of the agent's text, or
    /// the failure that carries the agent's report.
    pub fn conclude(reply: Result<String, String>) -> (outcome: Result<DummyOutput, DummyError>)
        ensures
            match reply_view(reply) {
                Ok(text) => outcome matches Ok(output) && output.reply@ == text && output.success
                    && output.metadata == Some(
                    DummyMetadata { tools_used: 0, tokens_used: None },
                ),
                Err(report) => outcome matches Err(failure) && failure@
                    == DummyErrorView::LlmError(report),
            },
    {
        match reply {
            Ok(text) => Ok(
                DummyOutput {
                    reply: text,
                    success: true,
                    metadata: Some(DummyMetadata { tools_used: 0, tokens_used: None }),
                },
            ),
            Err(report) => Err(DummyError::LlmError(report)),
        }
    }
}

} // verus!
