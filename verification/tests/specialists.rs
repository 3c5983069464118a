use agent_orchestrator::agents::orchestrator::Orchestrator;
use agent_orchestrator::agents::specialized::address::{
    AddressChangeArgs, AddressError, AddressSpecialist,
};
use agent_orchestrator::agents::specialized::damage::{
    DamageError, DamageReportArgs, DamageSpecialist,
};
use agent_orchestrator::agents::specialized::dummy::{
    default_detail_level, DummyArgs, DummyError, DummyMetadata, DummyOutput, DummySpecialist,
};
use agent_orchestrator::agents::tool::{ArgumentSpec, ToolSpec};

#[test]
fn test_validate_empty_message() {
    let args = DummyArgs { message: "   ".to_string(), detail_level: "normal".to_string() };

    let result = DummySpecialist::validate_args(&args);
    assert!(result.is_err());
}

#[test]
fn test_validate_invalid_detail_level() {
    let args = DummyArgs { message: "test".to_string(), detail_level: "invalid".to_string() };

    let result = DummySpecialist::validate_args(&args);
    assert!(result.is_err());
}

#[test]
fn test_validate_valid_args() {
    let args = DummyArgs { message: "Hello".to_string(), detail_level: "brief".to_string() };

    let result = DummySpecialist::validate_args(&args);
    assert!(result.is_ok());
}

#[test]
fn test_build_prompt() {
    let args =
        DummyArgs { message: "Test message".to_string(), detail_level: "detailed".to_string() };

    let prompt = DummySpecialist::build_prompt(&args);
    assert!(prompt.contains("detailed"));
    assert!(prompt.contains("Test message"));
}

fn dummy(message: &str, detail_level: &str) -> DummyArgs {
    DummyArgs { message: message.to_string(), detail_level: detail_level.to_string() }
}

#[test]
fn blank_message_is_refused_with_its_reason() {
    for message in ["", "   ", "\n\t", "\u{3000}"] {
        assert_eq!(
            DummySpecialist::validate_args(&dummy(message, "normal")),
            Err(DummyError::ValidationError("El mensaje no puede estar vacío".to_string()))
        );
    }
}

#[test]
fn unknown_detail_level_is_refused_with_its_reason() {
    assert_eq!(
        DummySpecialist::validate_args(&dummy("test", "invalid")),
        Err(DummyError::ValidationError(
            "Nivel de detalle inválido: 'invalid'. Usa: [\"brief\", \"normal\", \"detailed\"]"
                .to_string()
        ))
    );
    assert_eq!(
        DummySpecialist::validate_args(&dummy("test", "Brief")),
        Err(DummyError::ValidationError(
            "Nivel de detalle inválido: 'Brief'. Usa: [\"brief\", \"normal\", \"detailed\"]"
                .to_string()
        ))
    );
}

#[test]
fn blank_message_is_reported_before_the_level() {
    assert_eq!(
        DummySpecialist::validate_args(&dummy(" ", "invalid")),
        Err(DummyError::ValidationError("El mensaje no puede estar vacío".to_string()))
    );
}

#[test]
fn every_detail_level_is_accepted() {
    for level in ["brief", "normal", "detailed"] {
        assert_eq!(DummySpecialist::validate_args(&dummy(" ping ", level)), Ok(()));
    }
    assert_eq!(default_detail_level(), "normal");
    assert_eq!(DummySpecialist::validate_args(&dummy("ping", &default_detail_level())), Ok(()));
}

#[test]
fn dummy_prompt_is_exact() {
    assert_eq!(
        DummySpecialist::build_prompt(&dummy("Test message", "detailed")),
        "Procesa el siguiente mensaje con nivel de detalle 'detailed':\n\nTest message"
    );
}

#[test]
fn dummy_call_is_prepared_and_concluded() {
    assert_eq!(
        DummySpecialist::prepare(&dummy("ping", "brief")),
        Ok("Procesa el siguiente mensaje con nivel de detalle 'brief':\n\nping".to_string())
    );
    assert_eq!(
        DummySpecialist::prepare(&dummy("", "brief")),
        Err(DummyError::ValidationError("El mensaje no puede estar vacío".to_string()))
    );
    assert_eq!(
        DummySpecialist::conclude(Ok("pong".to_string())),
        Ok(DummyOutput {
            reply: "pong".to_string(),
            success: true,
            metadata: Some(DummyMetadata { tools_used: 0, tokens_used: None }),
        })
    );
    assert_eq!(
        DummySpecialist::conclude(Err("sin red".to_string())),
        Err(DummyError::LlmError("sin red".to_string()))
    );
}

#[test]
fn dummy_errors_are_described() {
    assert_eq!(
        DummyError::LlmError("sin red".to_string()).message(),
        "Error de comunicación con el LLM: sin red"
    );
    assert_eq!(
        DummyError::ValidationError("vacío".to_string()).message(),
        "Argumentos inválidos: vacío"
    );
    assert_eq!(
        DummyError::ToolError { tool: "reverso".to_string(), message: "falló".to_string() }
            .message(),
        "Error en herramienta 'reverso': falló"
    );
    assert_eq!(DummyError::LlmError(String::new()).message(), "Error de comunicación con el LLM: ");
}

#[test]
fn address_prompt_is_exact() {
    let args = AddressChangeArgs {
        customer_id: "CLI-12345".to_string(),
        new_address: "Calle Mayor 1, Madrid 28013".to_string(),
        reason: "mudanza".to_string(),
    };
    assert_eq!(
        AddressSpecialist::build_prompt(&args),
        "Procesa la siguiente solicitud de cambio de dirección:\n- Cliente: CLI-12345\n- Nueva dirección: Calle Mayor 1, Madrid 28013\n- Motivo: mudanza"
    );
}

#[test]
fn address_call_is_concluded() {
    assert_eq!(AddressSpecialist::conclude(Ok("hecho".to_string())), Ok("hecho".to_string()));
    assert_eq!(
        AddressSpecialist::conclude(Err("sin red".to_string())),
        Err(AddressError("sin red".to_string()))
    );
    assert_eq!(
        AddressError("sin red".to_string()).message(),
        "AddressSpecialist error: sin red"
    );
    assert_eq!(AddressError(String::new()).message(), "AddressSpecialist error: ");
}

#[test]
fn damage_prompt_is_exact() {
    let args = DamageReportArgs {
        item_name: "lámpara".to_string(),
        description_of_damage: "pantalla rota".to_string(),
    };
    assert_eq!(
        DamageSpecialist::build_prompt(&args),
        "Reporte de daño para el artículo 'lámpara'. Descripción del daño: pantalla rota"
    );
}

#[test]
fn damage_call_is_concluded() {
    assert_eq!(DamageSpecialist::conclude(Ok("hecho".to_string())), Ok("hecho".to_string()));
    assert_eq!(
        DamageSpecialist::conclude(Err("sin red".to_string())),
        Err(DamageError("sin red".to_string()))
    );
    assert_eq!(
        DamageError("sin red".to_string()).message(),
        "Error en DamageSpecialist: sin red"
    );
}

fn names(spec: &ToolSpec) -> Vec<(String, bool)> {
    spec.arguments.iter().map(|argument| (argument.name.clone(), argument.required)).collect()
}

#[test]
fn specialists_describe_themselves() {
    let address = AddressSpecialist::definition();
    assert_eq!(address.name, "address_specialist");
    assert_eq!(
        address.description,
        "Usa este agente cuando el usuario quiera cambiar su dirección de entrega, modificar datos de envío, o tenga preguntas sobre logística."
    );
    assert_eq!(
        names(&address),
        vec![
            ("customer_id".to_string(), true),
            ("new_address".to_string(), true),
            ("reason".to_string(), true),
        ]
    );
    let damage = DamageSpecialist::definition();
    assert_eq!(damage.name, "damage_specialist");
    assert_eq!(
        damage.description,
        "Usa este agente cuando el usuario reporte un artículo dañado, roto o defectuoso."
    );
    assert_eq!(
        names(&damage),
        vec![("item_name".to_string(), true), ("description_of_damage".to_string(), true)]
    );
    let dummy = DummySpecialist::definition();
    assert_eq!(dummy.name, "dummy_specialist");
    assert!(dummy.description.contains("'ping'"));
    assert!(dummy.description.contains("'test'"));
    assert_eq!(
        names(&dummy),
        vec![("message".to_string(), true), ("detail_level".to_string(), false)]
    );
    for spec in [&address, &damage, &dummy] {
        for argument in &spec.arguments {
            assert!(!argument.description.is_empty());
        }
    }
}

#[test]
fn arguments_are_required_or_optional() {
    assert_eq!(
        ArgumentSpec::required("a", "b"),
        ArgumentSpec { name: "a".to_string(), description: "b".to_string(), required: true }
    );
    assert_eq!(
        ArgumentSpec::optional("a", "b"),
        ArgumentSpec { name: "a".to_string(), description: "b".to_string(), required: false }
    );
}

#[test]
fn orchestrator_starts_with_two_specialists() {
    let orchestrator = Orchestrator::new();
    assert_eq!(
        orchestrator.tools(),
        &vec![AddressSpecialist::definition(), DamageSpecialist::definition()]
    );
    assert_eq!(orchestrator.find_tool("address_specialist"), Some(0));
    assert_eq!(orchestrator.find_tool("damage_specialist"), Some(1));
    assert_eq!(orchestrator.find_tool("dummy_specialist"), None);
    assert_eq!(orchestrator.find_tool("Address_Specialist"), None);
}

#[test]
fn specialist_is_registered_once() {
    let (orchestrator, added) = Orchestrator::new().register(DummySpecialist::definition());
    assert!(added);
    assert_eq!(orchestrator.find_tool("dummy_specialist"), Some(2));
    assert_eq!(orchestrator.tools().len(), 3);
    let (orchestrator, added) = orchestrator.register(DummySpecialist::definition());
    assert!(!added);
    assert_eq!(orchestrator.tools().len(), 3);
    let imitation = ToolSpec {
        name: "address_specialist".to_string(),
        description: "otra".to_string(),
        arguments: vec![],
    };
    let (orchestrator, added) = orchestrator.register(imitation);
    assert!(!added);
    assert_eq!(orchestrator.tools()[0], AddressSpecialist::definition());
}
