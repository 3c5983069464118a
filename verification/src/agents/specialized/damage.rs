//! The specialist for reports of damaged articles.

use vstd::prelude::*;
use vstd::string::*;
use crate::agents::tool::{reply_view, ArgumentSpec, ArgumentSpecView, ToolSpec, ToolSpecView};

verus! {

/// What the orchestrator's model extracts for a damage report.
#[derive(Debug, PartialEq, Eq)]
pub struct DamageReportArgs {
    pub item_name: String,
    pub description_of_damage: String,
}

/// What a [`DamageReportArgs`] holds, as text.
pub struct DamageReportArgsView {
    pub item_name: Seq<char>,
    pub description_of_damage: Seq<char>,
}

impl View for DamageReportArgs {
    type V = DamageReportArgsView;

    open spec fn view(&self) -> DamageReportArgsView {
        DamageReportArgsView {
            item_name: self.item_name@,
            description_of_damage: self.description_of_damage@,
        }
    }
}

/// A failure of the damage specialist, with what its agent reported.
#[derive(Debug, PartialEq, Eq)]
pub struct DamageError(pub String);

impl DamageError {
    /// The text by which the failure is reported.
    pub open spec fn text(&self) -> Seq<char> {
        "Error en DamageSpecialist: "@ + self.0@
    }

    /// The text by which the failure is reported. It is never empty.
    pub fn message(&self) -> (text: String)
        ensures
            text@ == self.text(),
            text@.len() > 0,
    {
        proof {
            reveal_strlit("Error en DamageSpecialist: ");
        }
        let mut text = String::from_str("Error en DamageSpecialist: ");
        text.append(self.0.as_str());
        text
    }
}

/// The prompt that the specialist's agent is given for `args`.
pub open spec fn damage_prompt(args: DamageReportArgsView) -> Seq<char> {
    "Reporte de daño para el artículo '"@ + args.item_name + "'. Descripción del daño: "@
        + args.description_of_damage
}

/// What a call yields, given what the specialist's agent returned: its text
/// as it is, or the failure with the agent's report.
pub open spec fn damage_outcome(reply: Result<Seq<char>, Seq<char>>) -> Result<
    Seq<char>,
    Seq<char>,
> {
    match reply {
        Ok(text) => Ok(text),
        Err(report) => Err("Error en DamageSpecialist: "@ + report),
    }
}

pub open spec fn damage_tool_name() -> Seq<char> {
    "damage_specialist"@
}

/// How the specialist is described to the orchestrator's model.
pub open spec fn damage_tool() -> ToolSpecView {
    ToolSpecView {
        name: damage_tool_name(),
        description: "Usa este agente cuando el usuario reporte un artículo dañado, roto o defectuoso."@,
        arguments: seq![
            ArgumentSpecView {
                name: "item_name"@,
                description: "Nombre o identificador del artículo dañado."@,
                required: true,
            },
            ArgumentSpecView {
                name: "description_of_damage"@,
                description: "Descripción detallada del daño observado por el usuario."@,
                required: true,
            },
        ],
    }
}

/// The specialist for damage reports and warranties. It holds no state; its
/// agent is run by the caller.
pub struct DamageSpecialist {}

impl DamageSpecialist {
    /// How the specialist is described to the orchestrator's model.
    pub fn definition() -> (spec: ToolSpec)
        ensures
            spec@ == damage_tool(),
    {
        let mut arguments: Vec<ArgumentSpec> = Vec::new();
        arguments.push(
            ArgumentSpec::required("item_name", "Nombre o identificador del artículo dañado."),
        );
        arguments.push(
            ArgumentSpec::required(
                "description_of_damage",
                "Descripción detallada del daño observado por el usuario.",
            ),
        );
        assert(arguments.deep_view() =~= damage_tool().arguments);
        ToolSpec {
            name: String::from_str("damage_specialist"),
            description: String::from_str(
                "Usa este agente cuando el usuario reporte un artículo dañado, roto o defectuoso.",
            ),
            arguments,
        }
    }

    /// Writes the prompt for the specialist's agent.
    pub fn build_prompt(args: &DamageReportArgs) -> (prompt: String)
        ensures
            prompt@ == damage_prompt(args@),
    {
        let mut prompt = String::from_str("Reporte de daño para el artículo '");
        prompt.append(args.item_name.as_str());
        prompt.append("'. Descripción del daño: ");
        prompt.append(args.description_of_damage.as_str());
        prompt
    }

    /// Turns what the specialist's agent returned into the result of the
    /// call: the agent's text, or the failure that carries its report.
    pub fn conclude(reply: Result<String, String>) -> (outcome: Result<String, DamageError>)
        ensures
            match outcome {
                Ok(text) => damage_outcome(reply_view(reply)) == Ok::<Seq<char>, Seq<char>>(text@),
                Err(failure) => damage_outcome(reply_view(reply)) == Err::<Seq<char>, Seq<char>>(
                    failure.text(),
                ),
            },
    {
        match reply {
            Ok(text) => Ok(text),
            Err(report) => Err(DamageError(report)),
        }
    }
}

} // verus!
