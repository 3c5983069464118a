//! The specialist for changes of a delivery address.

use vstd::prelude::*;
use vstd::string::*;
use crate::agents::tool::{reply_view, ArgumentSpec, ArgumentSpecView, ToolSpec, ToolSpecView};

verus! {

/// What the orchestrator's model extracts for an address change.
#[derive(Debug, PartialEq, Eq)]
pub struct AddressChangeArgs {
    pub customer_id: String,
    pub new_address: String,
    pub reason: String,
}

/// What an [`AddressChangeArgs`] holds, as text.
pub struct AddressChangeArgsView {
    pub customer_id: Seq<char>,
    pub new_address: Seq<char>,
    pub reason: Seq<char>,
}

impl View for AddressChangeArgs {
    type V = AddressChangeArgsView;

    open spec fn view(&self) -> AddressChangeArgsView {
        AddressChangeArgsView {
            customer_id: self.customer_id@,
            new_address: self.new_address@,
            reason: self.reason@,
        }
    }
}

/// A failure of the address specialist, with what its agent reported.
#[derive(Debug, PartialEq, Eq)]
pub struct AddressError(pub String);

impl AddressError {
    /// The text by which the failure is reported.
    pub open spec fn text(&self) -> Seq<char> {
        "AddressSpecialist error: "@ + self.0@
    }

    /// The text by which the failure is reported. It is never empty.
    pub fn message(&self) -> (text: String)
        ensures
            text@ == self.text(),
            text@.len() > 0,
    {
        proof {
            reveal_strlit("AddressSpecialist error: ");
        }
        let mut text = String::from_str("AddressSpecialist error: ");
        text.append(self.0.as_str());
        text
    }
}

/// The prompt that the specialist's agent is given for `args`.
pub open spec fn address_prompt(args: AddressChangeArgsView) -> Seq<char> {
    "Procesa la siguiente solicitud de cambio de dirección:\n- Cliente: "@ + args.customer_id
        + "\n- Nueva dirección: "@ + args.new_address + "\n- Motivo: "@ + args.reason
}

/// What a call yields, given what the specialist's agent returned: its text
/// as it is, or the failure with the agent's report.
pub open spec fn address_outcome(reply: Result<Seq<char>, Seq<char>>) -> Result<
    Seq<char>,
    Seq<char>,
> {
    match reply {
        Ok(text) => Ok(text),
        Err(report) => Err("AddressSpecialist error: "@ + report),
    }
}

pub open spec fn address_tool_name() -> Seq<char> {
    "address_specialist"@
}

/// How the specialist is described to the orchestrator's model.
pub open spec fn address_tool() -> ToolSpecView {
    ToolSpecView {
        name: address_tool_name(),
        description: "Usa este agente cuando el usuario quiera cambiar su dirección de entrega, modificar datos de envío, o tenga preguntas sobre logística."@,
        arguments: seq![
            ArgumentSpecView {
                name: "customer_id"@,
                description: "Identificador único del cliente (ej. \"CLI-12345\")."@,
                required: true,
            },
            ArgumentSpecView {
                name: "new_address"@,
                description: "La nueva dirección completa incluyendo calle, número, ciudad y código postal."@,
                required: true,
            },
            ArgumentSpecView {
                name: "reason"@,
                description: "Motivo del cambio de dirección (ej. \"mudanza\", \"error en registro\", \"temporal\")."@,
                required: true,
            },
        ],
    }
}

/// The specialist for address changes and shipping logistics. It holds no
/// state; its agent is run by the caller.
pub struct AddressSpecialist {}

impl AddressSpecialist {
    /// How the specialist is described to the orchestrator's model.
    pub fn definition() -> (spec: ToolSpec)
        ensures
            spec@ == address_tool(),
    {
        let mut arguments: Vec<ArgumentSpec> = Vec::new();
        arguments.push(
            ArgumentSpec::required(
                "customer_id",
                "Identificador único del cliente (ej. \"CLI-12345\").",
            ),
        );
        arguments.push(
            ArgumentSpec::required(
                "new_address",
                "La nueva dirección completa incluyendo calle, número, ciudad y código postal.",
            ),
        );
        arguments.push(
            ArgumentSpec::required(
                "reason",
                "Motivo del cambio de dirección (ej. \"mudanza\", \"error en registro\", \"temporal\").",
            ),
        );
        assert(arguments.deep_view() =~= address_tool().arguments);
        ToolSpec {
            name: String::from_str("address_specialist"),
            description: String::from_str(
                "Usa este agente cuando el usuario quiera cambiar su dirección de entrega, modificar datos de envío, o tenga preguntas sobre logística.",
            ),
            arguments,
        }
    }

    /// Writes the prompt for the specialist's agent.
    pub fn build_prompt(args: &AddressChangeArgs) -> (prompt: String)
        ensures
            prompt@ == address_prompt(args@),
    {
        let mut prompt = String::from_str(
            "Procesa la siguiente solicitud de cambio de dirección:\n- Cliente: ",
        );
        prompt.append(args.customer_id.as_str());
        prompt.append("\n- Nueva dirección: ");
        prompt.append(args.new_address.as_str());
        prompt.append("\n- Motivo: ");
        prompt.append(args.reason.as_str());
        prompt
    }

    /// Turns what the specialist's agent returned into the result of the
    /// call: the agent's text, or the failure that carries its report.
    pub fn conclude(reply: Result<String, String>) -> (outcome: Result<String, AddressError>)
        ensures
            match outcome {
                Ok(text) => address_outcome(reply_view(reply)) == Ok::<Seq<char>, Seq<char>>(text@),
                Err(failure) => address_outcome(reply_view(reply)) == Err::<Seq<char>, Seq<char>>(
                    failure.text(),
                ),
            },
    {
        match reply {
            Ok(text) => Ok(text),
            Err(report) => Err(AddressError(report)),
        }
    }
}

} // verus!
