use agent_orchestrator::agents::delegation::{
    fallback_reply, Action, Delegation, Event, Phase, Round,
};
use agent_orchestrator::agents::orchestrator::Orchestrator;
use agent_orchestrator::agents::specialized::address::{AddressChangeArgs, AddressSpecialist};
use agent_orchestrator::agents::specialized::dummy::{DummyArgs, DummySpecialist};
use agent_orchestrator::agents::tool::{ToolCall, ToolResult};
use agent_orchestrator::api::request::FileAttachment;
use agent_orchestrator::infra::history::{ChatMessage, Role};
use agent_orchestrator::message::Message;

const FALLBACK: &str = "Lo siento, ocurrió un error procesando tu solicitud. Intenta de nuevo.";

fn call(id: &str, name: &str, arguments: &str) -> ToolCall {
    ToolCall { id: id.to_string(), name: name.to_string(), arguments: arguments.to_string() }
}

fn receive(prompt: &str) -> Delegation {
    Orchestrator::new().receive(prompt, &vec![], vec![]).unwrap()
}

fn asked(prompt: &str) -> Delegation {
    let (exchange, action) = receive(prompt).step(Event::Started);
    assert_eq!(action, Action::AskModel);
    exchange
}

fn replied(text: &str, calls: Vec<ToolCall>) -> Event {
    Event::ModelReplied { text: text.to_string(), calls }
}

#[test]
fn fallback_is_fixed() {
    assert_eq!(fallback_reply(), FALLBACK);
}

#[test]
fn exchange_is_received_with_history_and_message() {
    let history = vec![ChatMessage { role: Role::System, content: "cliente VIP".to_string() }];
    let files = vec![FileAttachment { base64: "AAAA".to_string(), mimetype: "x/y".to_string() }];
    let exchange = Orchestrator::new().receive("hola", &history, files).unwrap();
    assert_eq!(exchange.phase(), Phase::Received);
    assert_eq!(exchange.message(), &Message::text("hola"));
    assert_eq!(exchange.history(), &Orchestrator::normalize_history(&history));
    assert!(exchange.rounds().is_empty());
    assert_eq!(exchange.answer(), &None);
}

#[test]
fn blank_prompt_is_not_received() {
    let orchestrator = Orchestrator::new();
    assert_eq!(orchestrator.receive("", &vec![], vec![]), None);
    assert_eq!(orchestrator.receive(" \n\t", &vec![], vec![]), None);
    let files = vec![FileAttachment { base64: "AAAA".to_string(), mimetype: "image/png".to_string() }];
    assert_eq!(orchestrator.receive("\u{3000}", &vec![], files), None);
    assert!(orchestrator.receive(" . ", &vec![], vec![]).is_some());
}

#[test]
fn start_asks_the_model() {
    let (exchange, action) = receive("hola").step(Event::Started);
    assert_eq!(action, Action::AskModel);
    assert_eq!(exchange.phase(), Phase::AwaitingModel);
}

#[test]
fn reply_without_calls_is_the_answer() {
    let (exchange, action) = asked("hola").step(replied("buenas", vec![]));
    assert_eq!(action, Action::Respond("buenas".to_string()));
    assert_eq!(exchange.phase(), Phase::Answered);
    assert_eq!(exchange.answer(), &Some("buenas".to_string()));
    assert!(exchange.rounds().is_empty());
}

#[test]
fn failing_model_gives_the_fallback() {
    let (exchange, action) = asked("hola").step(Event::ModelFailed);
    assert_eq!(action, Action::Respond(FALLBACK.to_string()));
    assert_eq!(exchange.phase(), Phase::Answered);
    assert_eq!(exchange.answer(), &Some(FALLBACK.to_string()));
}

#[test]
fn failing_model_after_a_round_gives_the_fallback() {
    let (exchange, _) = asked("hola").step(replied("", vec![call("c1", "damage_specialist", "{}")]));
    let (exchange, action) = exchange.step(Event::ToolCompleted(ToolResult::success("c1", "ok")));
    assert_eq!(action, Action::AskModel);
    let (exchange, action) = exchange.step(Event::ModelFailed);
    assert_eq!(action, Action::Respond(FALLBACK.to_string()));
    assert_eq!(exchange.rounds().len(), 1);
}

#[test]
fn deadline_gives_the_fallback_in_every_phase() {
    let (exchange, action) = receive("hola").step(Event::DeadlineExpired);
    assert_eq!(action, Action::Respond(FALLBACK.to_string()));
    assert_eq!(exchange.phase(), Phase::Answered);

    let (_, action) = asked("hola").step(Event::DeadlineExpired);
    assert_eq!(action, Action::Respond(FALLBACK.to_string()));

    let (exchange, _) = asked("hola").step(replied("", vec![call("c1", "damage_specialist", "{}")]));
    let (exchange, action) = exchange.step(Event::DeadlineExpired);
    assert_eq!(action, Action::Respond(FALLBACK.to_string()));
    assert_eq!(exchange.answer(), &Some(FALLBACK.to_string()));

    let (exchange, action) = exchange.step(Event::DeadlineExpired);
    assert_eq!(action, Action::Wait);
    assert_eq!(exchange.answer(), &Some(FALLBACK.to_string()));
}

#[test]
fn calls_are_dispatched_and_the_round_is_opened() {
    let calls = vec![call("c1", "address_specialist", "{}"), call("c2", "damage_specialist", "{}")];
    let (exchange, action) = asked("hola").step(replied("un momento", calls.clone()));
    assert_eq!(action, Action::Dispatch(calls.clone()));
    assert_eq!(exchange.phase(), Phase::AwaitingTools);
    assert_eq!(
        exchange.rounds(),
        &vec![Round { text: "un momento".to_string(), calls, results: vec![None, None] }]
    );
    assert!(!exchange.rounds()[0].is_complete());
    assert_eq!(exchange.rounds()[0].open_slot("c2"), Some(1));
    assert_eq!(exchange.rounds()[0].open_slot("c3"), None);
}

#[test]
fn model_is_asked_again_only_when_the_round_is_complete() {
    let calls = vec![call("c1", "address_specialist", "{}"), call("c2", "damage_specialist", "{}")];
    let (exchange, _) = asked("hola").step(replied("", calls));
    let (exchange, action) = exchange.step(Event::ToolCompleted(ToolResult::success("c1", "uno")));
    assert_eq!(action, Action::Wait);
    assert_eq!(exchange.phase(), Phase::AwaitingTools);
    let (exchange, action) = exchange.step(Event::ToolCompleted(ToolResult::success("c2", "dos")));
    assert_eq!(action, Action::AskModel);
    assert_eq!(exchange.phase(), Phase::AwaitingModel);
    assert!(exchange.rounds()[0].is_complete());
}

#[test]
fn results_are_matched_by_identifier_not_by_arrival() {
    let calls = vec![call("c1", "address_specialist", "{}"), call("c2", "damage_specialist", "{}")];
    let (opened, _) = asked("hola").step(replied("", calls.clone()));
    let (exchange, _) = opened.step(Event::ToolCompleted(ToolResult::success("c2", "dos")));
    let (in_reverse, _) = exchange.step(Event::ToolCompleted(ToolResult::success("c1", "uno")));

    let (opened, _) = asked("hola").step(replied("", calls));
    let (exchange, _) = opened.step(Event::ToolCompleted(ToolResult::success("c1", "uno")));
    let (in_order, _) = exchange.step(Event::ToolCompleted(ToolResult::success("c2", "dos")));

    assert_eq!(in_reverse, in_order);
    let results = &in_order.rounds()[0].results;
    assert_eq!(results[0], Some(ToolResult::success("c1", "uno")));
    assert_eq!(results[1], Some(ToolResult::success("c2", "dos")));
}

#[test]
fn result_for_no_open_call_is_ignored() {
    let (opened, _) = asked("hola").step(replied("", vec![call("c1", "damage_specialist", "{}")]));
    let (exchange, action) = opened.step(Event::ToolCompleted(ToolResult::success("c9", "?")));
    assert_eq!(action, Action::Wait);
    assert_eq!(exchange.rounds()[0].results, vec![None]);
    let (exchange, _) = exchange.step(Event::ToolCompleted(ToolResult::success("c1", "uno")));
    let (exchange, action) = exchange.step(Event::ToolCompleted(ToolResult::success("c1", "otra")));
    assert_eq!(action, Action::Wait);
    assert_eq!(exchange.rounds()[0].results, vec![Some(ToolResult::success("c1", "uno"))]);
}

#[test]
fn calls_with_one_identifier_are_answered_in_turn() {
    let calls = vec![call("c1", "damage_specialist", "{}"), call("c1", "damage_specialist", "{}")];
    let (exchange, _) = asked("hola").step(replied("", calls));
    let (exchange, action) = exchange.step(Event::ToolCompleted(ToolResult::success("c1", "uno")));
    assert_eq!(action, Action::Wait);
    let (exchange, action) = exchange.step(Event::ToolCompleted(ToolResult::success("c1", "dos")));
    assert_eq!(action, Action::AskModel);
    assert_eq!(
        exchange.rounds()[0].results,
        vec![Some(ToolResult::success("c1", "uno")), Some(ToolResult::success("c1", "dos"))]
    );
}

#[test]
fn events_that_are_not_awaited_change_nothing() {
    let (exchange, action) = receive("hola").step(replied("pronto", vec![]));
    assert_eq!(action, Action::Wait);
    assert_eq!(exchange, receive("hola"));
    let (exchange, action) = exchange.step(Event::ModelFailed);
    assert_eq!(action, Action::Wait);
    assert_eq!(exchange.phase(), Phase::Received);

    let (exchange, action) = asked("hola").step(Event::ToolCompleted(ToolResult::success("c1", "")));
    assert_eq!(action, Action::Wait);
    assert_eq!(exchange, asked("hola"));
    let (exchange, action) = exchange.step(Event::Started);
    assert_eq!(action, Action::Wait);
    assert_eq!(exchange.phase(), Phase::AwaitingModel);

    let (opened, _) = asked("hola").step(replied("", vec![call("c1", "damage_specialist", "{}")]));
    let (exchange, action) = opened.step(replied("antes de tiempo", vec![]));
    assert_eq!(action, Action::Wait);
    assert_eq!(exchange.phase(), Phase::AwaitingTools);
    let (exchange, action) = exchange.step(Event::ModelFailed);
    assert_eq!(action, Action::Wait);
    assert_eq!(exchange.answer(), &None);
}

#[test]
fn answer_is_final() {
    let (exchange, _) = asked("hola").step(replied("buenas", vec![]));
    for event in [
        Event::Started,
        replied("otra", vec![]),
        Event::ModelFailed,
        Event::ToolCompleted(ToolResult::failure("c1", "tarde")),
        Event::DeadlineExpired,
    ] {
        let (after, action) = asked("hola").step(replied("buenas", vec![])).0.step(event);
        assert_eq!(action, Action::Wait);
        assert_eq!(after, exchange);
    }
}

#[test]
fn tool_result_carries_output_or_failure() {
    let done = ToolResult::success("c1", "listo");
    assert_eq!(done.call_id(), "c1");
    assert_eq!(done.content(), "listo");
    assert!(!done.is_error());
    let failed = ToolResult::failure("c2", "sin red");
    assert_eq!(failed.call_id(), "c2");
    assert_eq!(failed.content(), "ToolCallError: sin red");
    assert!(failed.is_error());
    assert_eq!(ToolResult::failure("c3", "").content(), "ToolCallError: ");
    assert_eq!(ToolResult::from_outcome("c1", &Ok("listo".to_string())), done);
    assert_eq!(ToolResult::from_outcome("c2", &Err("sin red".to_string())), failed);
    assert_eq!(failed.clone(), failed);
    assert_eq!(call("a", "b", "c").clone(), call("a", "b", "c"));
}

#[test]
fn failing_specialist_does_not_end_the_round() {
    let calls = vec![call("c1", "address_specialist", "{}"), call("c2", "damage_specialist", "{}")];
    let (exchange, _) = asked("hola").step(replied("", calls));
    let outcome = AddressSpecialist::conclude(Err("connection reset".to_string()));
    let reported = outcome.map_err(|failure| failure.message());
    let result = ToolResult::from_outcome("c1", &reported);
    assert!(result.is_error());
    assert!(!result.content().is_empty());
    assert_eq!(result.content(), "ToolCallError: AddressSpecialist error: connection reset");

    let (exchange, action) = exchange.step(Event::ToolCompleted(result.clone()));
    assert_eq!(action, Action::Wait);
    assert_eq!(exchange.phase(), Phase::AwaitingTools);
    assert_eq!(exchange.answer(), &None);
    assert_eq!(exchange.rounds()[0].results[0], Some(result));

    let (exchange, action) = exchange.step(Event::ToolCompleted(ToolResult::success("c2", "ok")));
    assert_eq!(action, Action::AskModel);
    let (exchange, action) = exchange.step(replied("No pude cambiar la dirección.", vec![]));
    assert_eq!(action, Action::Respond("No pude cambiar la dirección.".to_string()));
    assert_eq!(exchange.phase(), Phase::Answered);
}

#[test]
fn failure_without_a_report_is_still_described() {
    let (exchange, _) = asked("hola").step(replied("", vec![call("c1", "damage_specialist", "{}")]));
    let (exchange, action) = exchange.step(Event::ToolCompleted(ToolResult::failure("c1", "")));
    assert_eq!(action, Action::AskModel);
    let result = exchange.rounds()[0].results[0].clone().unwrap();
    assert!(result.is_error());
    assert!(!result.content().is_empty());
}

#[test]
fn address_change_is_delegated_once() {
    let exchange = receive("I need to change my delivery address");
    assert_eq!(exchange.message(), &Message::text("I need to change my delivery address"));
    assert!(exchange.history().is_empty());
    let (exchange, action) = exchange.step(Event::Started);
    assert_eq!(action, Action::AskModel);

    let arguments =
        "{\"customer_id\":\"CLI-12345\",\"new_address\":\"Calle Mayor 1\",\"reason\":\"mudanza\"}";
    let asked_for = vec![call("call-1", "address_specialist", arguments)];
    let (exchange, action) = exchange.step(replied("", asked_for.clone()));
    let dispatched = match action {
        Action::Dispatch(calls) => calls,
        other => panic!("expected a dispatch, got {:?}", other),
    };
    assert_eq!(dispatched, asked_for);
    assert_eq!(dispatched.len(), 1);
    assert_eq!(Orchestrator::new().find_tool(&dispatched[0].name), Some(0));

    let args = AddressChangeArgs {
        customer_id: "CLI-12345".to_string(),
        new_address: "Calle Mayor 1".to_string(),
        reason: "mudanza".to_string(),
    };
    let prompt = AddressSpecialist::build_prompt(&args);
    assert!(prompt.contains("CLI-12345"));
    let said = format!("Dirección actualizada para {}", args.customer_id);
    let outcome = AddressSpecialist::conclude(Ok(said.clone()));
    let result =
        ToolResult::from_outcome(&dispatched[0].id, &outcome.map_err(|failure| failure.message()));
    assert_eq!(result.content(), said);

    let (exchange, action) = exchange.step(Event::ToolCompleted(result));
    assert_eq!(action, Action::AskModel);
    let shown = exchange.rounds()[0].results[0].clone().unwrap();
    let answer = format!("Listo: {}", shown.content());
    let (exchange, action) = exchange.step(replied(&answer, vec![]));
    assert_eq!(action, Action::Respond(answer.clone()));
    assert!(answer.contains(&said));
    assert_eq!(exchange.rounds().len(), 1);
    assert_eq!(exchange.rounds()[0].calls.len(), 1);
    assert_eq!(exchange.answer(), &Some(answer));
}

#[test]
fn ping_is_delegated_to_the_test_specialist() {
    let (orchestrator, added) = Orchestrator::new().register(DummySpecialist::definition());
    assert!(added);
    let described = &orchestrator.tools()[2].description;
    assert!(described.contains("ping") && described.contains("test"));

    let exchange = orchestrator.receive("ping", &vec![], vec![]).unwrap();
    let (exchange, _) = exchange.step(Event::Started);
    let (exchange, action) = exchange
        .step(replied("", vec![call("call-1", "dummy_specialist", "{\"message\":\"ping\"}")]));
    let dispatched = match action {
        Action::Dispatch(calls) => calls,
        other => panic!("expected a dispatch, got {:?}", other),
    };
    assert_eq!(dispatched.len(), 1);
    assert_eq!(orchestrator.find_tool(&dispatched[0].name), Some(2));

    let args = DummyArgs { message: "ping".to_string(), detail_level: "normal".to_string() };
    let prompt = DummySpecialist::prepare(&args).unwrap();
    let echo = format!("eco: {}", prompt);
    let output = DummySpecialist::conclude(Ok(echo.clone())).unwrap();
    assert!(output.success);
    let result = ToolResult::success(&dispatched[0].id, &output.reply);

    let (exchange, action) = exchange.step(Event::ToolCompleted(result));
    assert_eq!(action, Action::AskModel);
    let shown = exchange.rounds()[0].results[0].clone().unwrap();
    let (exchange, action) = exchange.step(replied(shown.content(), vec![]));
    assert_eq!(action, Action::Respond(echo.clone()));
    assert_eq!(exchange.rounds().len(), 1);
    assert_eq!(exchange.rounds()[0].calls.len(), 1);
    assert_eq!(exchange.answer(), &Some(echo));
}

#[test]
fn rounds_follow_one_another() {
    let (exchange, _) = asked("hola").step(replied("a", vec![call("c1", "address_specialist", "{}")]));
    let (exchange, _) = exchange.step(Event::ToolCompleted(ToolResult::success("c1", "uno")));
    let (exchange, action) =
        exchange.step(replied("b", vec![call("c1", "damage_specialist", "{}")]));
    assert_eq!(action, Action::Dispatch(vec![call("c1", "damage_specialist", "{}")]));
    assert_eq!(exchange.rounds().len(), 2);
    assert_eq!(exchange.rounds()[0].results, vec![Some(ToolResult::success("c1", "uno"))]);
    assert_eq!(exchange.rounds()[1].results, vec![None]);
    let (exchange, action) = exchange.step(Event::ToolCompleted(ToolResult::success("c1", "dos")));
    assert_eq!(action, Action::AskModel);
    assert_eq!(exchange.rounds()[0].results, vec![Some(ToolResult::success("c1", "uno"))]);
    assert_eq!(exchange.rounds()[1].results, vec![Some(ToolResult::success("c1", "dos"))]);
    let (exchange, action) = exchange.step(replied("fin", vec![]));
    assert_eq!(action, Action::Respond("fin".to_string()));
    assert_eq!(exchange.rounds().len(), 2);
}
