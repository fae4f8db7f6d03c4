use cost_autopilot::engine::Attempt;
use cost_autopilot::store::{now_unix, EventStore};
use cost_autopilot::{
    AutopilotConfig, AutopilotEngine, AutopilotError, CompletionRequest, CompletionResponse,
    PricingTable, Provider, ProviderError, Ratio, RoutingDecision, Usage, Usd,
};
use std::sync::atomic::{AtomicUsize, Ordering};
use std::sync::{Arc, Mutex};
use std::time::{Duration, Instant};

#[derive(Clone)]
enum Script {
    Answer(&'static str, usize, usize),
    Status(u16, &'static str),
}

/// A provider that replies from a script, the last reply again and again.
struct Scripted {
    script: Vec<Script>,
    calls: Arc<AtomicUsize>,
    last: Arc<Mutex<Option<CompletionRequest>>>,
}

impl Provider for Scripted {
    fn name(&self) -> &str {
        "scripted"
    }

    fn complete(&self, req: &CompletionRequest) -> Result<CompletionResponse, ProviderError> {
        let i = self.calls.fetch_add(1, Ordering::Relaxed);
        *self.last.lock().unwrap() = Some(req.clone());
        let step = self.script.get(i).or(self.script.last()).cloned();
        match step {
            Some(Script::Answer(text, input, output)) => Ok(CompletionResponse {
                text: text.to_string(),
                usage: Usage {
                    prompt_tokens: input,
                    completion_tokens: output,
                },
            }),
            Some(Script::Status(code, body)) => {
                Err(ProviderError::HttpStatus(code, body.to_string()))
            }
            None => Err(ProviderError::Transport("muet".to_string())),
        }
    }
}

struct Probe {
    calls: Arc<AtomicUsize>,
    last: Arc<Mutex<Option<CompletionRequest>>>,
}

impl Probe {
    fn count(&self) -> usize {
        self.calls.load(Ordering::Relaxed)
    }
}

fn register(
    engine: &mut AutopilotEngine,
    route: &str,
    model: &str,
    script: Vec<Script>,
) -> Probe {
    let calls = Arc::new(AtomicUsize::new(0));
    let last = Arc::new(Mutex::new(None));
    engine.register_provider(
        route,
        model,
        Box::new(Scripted {
            script,
            calls: calls.clone(),
            last: last.clone(),
        }),
    );
    Probe { calls, last }
}

fn answer(text: &str) -> Result<CompletionResponse, ProviderError> {
    Ok(CompletionResponse {
        text: text.to_string(),
        usage: Usage::default(),
    })
}

fn wait(duration: Duration) {
    let start = Instant::now();
    while start.elapsed() < duration {}
}

fn micro(n: i128) -> Usd {
    Usd { pico: n * 1_000_000 }
}

fn engine_with(config: AutopilotConfig) -> AutopilotEngine {
    let store = EventStore::open_in_memory();
    AutopilotEngine::new(config, PricingTable::example_default(), store)
}

#[test]
fn trivial_prompt_is_executed_against_the_local_provider_for_free() {
    let mut engine = engine_with(AutopilotConfig::default());
    register(
        &mut engine,
        "local",
        "llama3",
        vec![Script::Answer("salut toi", 5, 3)],
    );

    let result = engine.route_and_execute("Salut, comment ça va ?").unwrap();

    assert_eq!(result.route_used, "local");
    assert_eq!(result.cost_usd, micro(0));
    assert_eq!(result.text, "salut toi");
    assert!(!result.fallback_occurred);
    assert_eq!(engine.event_count(), 1);
}

#[test]
fn local_failure_falls_back_to_paid_cheap_and_still_answers() {
    let mut engine = engine_with(AutopilotConfig::default());
    register(
        &mut engine,
        "local",
        "llama3",
        vec![Script::Status(500, "modèle local indisponible")],
    );
    register(
        &mut engine,
        "paid-cheap",
        "gpt-mini",
        vec![Script::Answer("réponse de secours", 5, 3)],
    );

    let result = engine.route_and_execute("Salut !").unwrap();

    assert_eq!(result.route_used, "paid-cheap");
    assert!(result.fallback_occurred);
    assert_eq!(result.text, "réponse de secours");
    assert!(
        result.cost_usd > micro(0),
        "le repli payant doit être facturé"
    );
}

#[test]
fn repeated_local_failures_open_the_circuit_and_stop_being_tried_first() {
    let mut engine = engine_with(AutopilotConfig::default());
    register(
        &mut engine,
        "local",
        "llama3",
        vec![Script::Status(500, "en panne"); 20],
    );
    register(
        &mut engine,
        "paid-cheap",
        "gpt-mini",
        vec![Script::Answer("ok", 5, 3); 20],
    );

    for _ in 0..8 {
        let _ = engine.route_and_execute("Salut, ça va ?");
    }

    assert!(
        engine.success_rate("local") < Ratio::percent(50),
        "le taux de succès du local doit refléter les échecs répétés"
    );

    let decision = engine.decide("Un autre message trivial").unwrap();
    assert_eq!(
        decision.route, "paid-cheap",
        "le disjoncteur ouvert doit écarter le local dès la décision, pas seulement au repli"
    );
}

#[test]
fn a_tight_daily_budget_is_respected_across_several_calls() {
    let config = AutopilotConfig {
        local_complexity_threshold: Ratio::percent(0),
        daily_budget_usd: Some(micro(50_000)),
        ..AutopilotConfig::default()
    };
    let mut engine = engine_with(config);
    register(
        &mut engine,
        "local",
        "llama3",
        vec![Script::Answer("réponse locale", 50, 50); 10],
    );
    register(
        &mut engine,
        "paid-cheap",
        "gpt-mini",
        vec![Script::Answer("réponse", 50, 50); 10],
    );

    let mut local_hits = 0;
    for _ in 0..10 {
        let result = engine
            .route_and_execute("Explique pourquoi étape par étape ce bug se produit")
            .unwrap();
        if result.route_used == "local" {
            local_hits += 1;
        }
    }

    assert!(
        local_hits > 0,
        "une fois le budget quotidien épuisé, l'autopilot doit replier vers le local gratuit"
    );

    let total_spent = engine.store().cost_today(now_unix().unwrap());
    assert!(
        total_spent <= micro(50_000 + 20_000),
        "la dépense totale ({total_spent:?}) ne doit pas dépasser significativement le budget"
    );
}

#[test]
fn reported_usage_is_billed_and_noted() {
    let mut engine = engine_with(AutopilotConfig::default());
    register(&mut engine, "local", "llama3", vec![Script::Status(503, "")]);
    let cheap = register(
        &mut engine,
        "paid-cheap",
        "gpt-mini",
        vec![Script::Answer("ok", 1000, 500)],
    );

    let result = engine.route_and_execute("Salut !").unwrap();

    assert_eq!(result.cost_usd, micro(450_000));
    let event = engine.store().last().unwrap();
    assert_eq!(event.route, "paid-cheap");
    assert_eq!(event.input_tokens, 1000);
    assert_eq!(event.output_tokens, 500);
    assert_eq!(event.cost_usd, micro(450_000));
    assert!(event.success);
    assert!(event.fallback);
    assert_eq!(event.decision_reason, result.decision_reason);
    let request = cheap.last.lock().unwrap().clone().unwrap();
    assert_eq!(request.model, "gpt-mini");
    assert_eq!(request.prompt, "Salut !");
    assert_eq!(request.max_tokens, None);
}

#[test]
fn missing_usage_is_estimated() {
    let mut engine = engine_with(AutopilotConfig::default());
    register(
        &mut engine,
        "local",
        "llama3",
        vec![Script::Answer("douze signes", 0, 0)],
    );
    engine.route_and_execute("Salut !").unwrap();
    let event = engine.store().last().unwrap();
    assert_eq!(event.input_tokens, 2);
    assert_eq!(event.output_tokens, 3);
}

#[test]
fn a_route_without_provider_is_unknown() {
    let mut engine = engine_with(AutopilotConfig::default());
    let err = engine.route_and_execute("Salut !").unwrap_err();
    assert_eq!(err.describe(), "route inconnue: local");
    assert!(matches!(err, AutopilotError::UnknownRoute(r) if r == "local"));
    assert_eq!(engine.event_count(), 0);
}

#[test]
fn only_one_fallback_is_tried() {
    let mut engine = engine_with(AutopilotConfig::default());
    let local = register(&mut engine, "local", "a", vec![Script::Status(500, "un")]);
    let cheap = register(
        &mut engine,
        "paid-cheap",
        "b",
        vec![Script::Status(502, "deux")],
    );
    let premium = register(
        &mut engine,
        "paid-premium",
        "c",
        vec![Script::Answer("trois", 1, 1)],
    );

    let err = engine.route_and_execute("Salut !").unwrap_err();

    assert_eq!(
        err.describe(),
        "toutes les routes de repli ont échoué, dernière erreur: erreur HTTP 502: deux"
    );
    assert_eq!(
        (local.count(), cheap.count(), premium.count()),
        (1, 1, 0)
    );
    let event = engine.store().last().unwrap();
    assert!(!event.success);
    assert!(event.fallback);
    assert_eq!(event.route, "paid-cheap");
    assert_eq!(event.cost_usd, micro(0));
    assert_eq!((event.input_tokens, event.output_tokens), (2, 0));
    assert_eq!(engine.success_rate("local"), Ratio::percent(70));
    assert_eq!(engine.success_rate("paid-cheap"), Ratio::percent(70));
    assert_eq!(engine.success_rate("paid-premium"), Ratio::one());
}

#[test]
fn the_highest_tier_and_a_missing_neighbour_have_no_fallback() {
    let mut engine = engine_with(AutopilotConfig::default());
    register(&mut engine, "local", "a", vec![Script::Status(500, "seul")]);
    let err = engine.route_and_execute("Salut !").unwrap_err();
    assert_eq!(
        err.describe(),
        "toutes les routes de repli ont échoué, dernière erreur: erreur HTTP 500: seul"
    );
    assert!(!engine.store().last().unwrap().fallback);

    register(&mut engine, "paid-cheap", "b", vec![]);
    register(&mut engine, "paid-premium", "c", vec![]);
    let failed = || Err(ProviderError::Transport("muet".to_string()));
    assert_eq!(engine.after_first_reply("paid-premium", &failed(), 0), None);
    assert_eq!(
        engine.after_first_reply("paid-cheap", &failed(), 0),
        Some("paid-premium")
    );
    assert_eq!(
        engine.after_first_reply("local", &failed(), 0),
        Some("paid-cheap")
    );
    assert_eq!(engine.after_first_reply("local", &answer("ok"), 0), None);
    assert_eq!(engine.after_first_reply("local", &answer(""), 0), None);
}

#[test]
fn a_request_asks_for_the_model_of_its_route() {
    let mut engine = engine_with(AutopilotConfig::default());
    register(&mut engine, "local", "llama3", vec![]);
    assert_eq!(engine.request_for("local", "salut").model, "llama3");
    assert_eq!(engine.request_for("paid-cheap", "salut").model, "");
    register(&mut engine, "local", "llama4", vec![]);
    assert_eq!(engine.request_for("local", "salut").model, "llama4");
}

#[test]
fn an_attempt_is_concluded_at_the_time_given() {
    let mut engine = engine_with(AutopilotConfig::default());
    let decision = RoutingDecision {
        route: "paid-premium".to_string(),
        complexity: Ratio::percent(80),
        estimated_cost_usd: micro(1),
        forced_by_budget: false,
        reason: "parce que".to_string(),
    };
    let completion = engine
        .conclude(
            "salut",
            Attempt {
                decision,
                route_used: "paid-premium".to_string(),
                fallback_occurred: false,
                outcome: Ok(CompletionResponse {
                    text: "bonjour".to_string(),
                    usage: Usage {
                        prompt_tokens: 1000,
                        completion_tokens: 1000,
                    },
                }),
                latency_ms: 42,
                ended: Some(86_400),
            },
        )
        .unwrap();
    assert_eq!(completion.cost_usd, micro(12_500_000));
    assert_eq!(completion.latency_ms, 42);
    assert_eq!(completion.decision_reason, "parce que");
    assert_eq!(engine.store().cost_today(86_400), micro(12_500_000));
    assert_eq!(engine.store().cost_today(2 * 86_400), micro(0));
}

#[test]
fn decisions_count_what_the_journal_says_was_spent() {
    let config = AutopilotConfig {
        daily_budget_usd: Some(micro(1_000_000)),
        ..AutopilotConfig::default()
    };
    let mut engine = engine_with(config);
    register(
        &mut engine,
        "paid-cheap",
        "b",
        vec![Script::Answer("cher", 4000, 500)],
    );
    let prompt = "debug ``` ? ?";
    assert_eq!(engine.decide_at(prompt, 0, 0).route, "paid-cheap");
    engine.route_and_execute(prompt).unwrap();
    let today = now_unix().unwrap();
    assert_eq!(engine.decide_at(prompt, today, 0).route, "local");
    // The next day starts with the whole budget.
    assert_eq!(
        engine.decide_at(prompt, today + 86_400, 0).route,
        "paid-cheap"
    );
    engine.replace_store(EventStore::open_in_memory());
    assert_eq!(engine.decide_at(prompt, today, 0).route, "paid-cheap");
}

#[test]
fn other_errors_have_their_messages() {
    assert_eq!(
        AutopilotError::Storage("plein".to_string()).describe(),
        "erreur de stockage: plein"
    );
    assert_eq!(
        AutopilotError::ClockBeforeEpoch.describe(),
        "l'horloge système est avant 1970"
    );
}

#[test]
fn a_model_that_keeps_giving_empty_answers_is_set_aside() {
    let mut engine = engine_with(AutopilotConfig::default());
    register(&mut engine, "local", "a", vec![Script::Answer("", 0, 0)]);
    register(
        &mut engine,
        "paid-cheap",
        "b",
        vec![Script::Answer("ok", 5, 3)],
    );
    let mut used = Vec::new();
    for _ in 0..20 {
        let result = engine.route_and_execute("Salut !").unwrap();
        assert!(!result.fallback_occurred);
        used.push(result.route_used);
    }
    assert_eq!(used[0], "local");
    assert_eq!(used[19], "paid-cheap");
    assert!(engine.success_rate("local") < Ratio::one());
}

#[test]
fn an_empty_answer_is_recorded_as_a_failure() {
    let mut engine = engine_with(AutopilotConfig::default());
    engine.after_first_reply("local", &answer(""), 0);
    assert_eq!(engine.success_rate("local"), Ratio::percent(70));
    engine.after_second_reply("paid-cheap", &answer(""), 0);
    assert_eq!(engine.success_rate("paid-cheap"), Ratio::percent(70));
    engine.after_second_reply("paid-premium", &answer("ok"), 0);
    assert_eq!(engine.success_rate("paid-premium"), Ratio::one());
}

#[test]
fn a_route_that_rested_is_tried_and_recovers() {
    let config = AutopilotConfig {
        min_local_success_rate: Ratio::percent(0),
        circuit_cooldown: 300_000_000,
        ..AutopilotConfig::default()
    };
    let mut engine = engine_with(config);
    let mut script = vec![Script::Status(500, "en panne"); 5];
    script.push(Script::Answer("revenu", 1, 1));
    let local = register(&mut engine, "local", "a", script);
    register(&mut engine, "paid-cheap", "b", vec![Script::Answer("ok", 5, 3)]);
    for _ in 0..5 {
        engine.route_and_execute("Salut !").unwrap();
    }
    assert_eq!(local.count(), 5);
    let opened = Instant::now();
    let result = engine.route_and_execute("Salut !").unwrap();
    assert!(result.route_used == "paid-cheap" || opened.elapsed() >= Duration::from_millis(250));
    wait(Duration::from_millis(310));
    let result = engine.route_and_execute("Salut !").unwrap();
    assert_eq!(result.route_used, "local");
    assert_eq!(result.text, "revenu");
    assert_eq!(engine.success_rate("local"), Ratio::one());
}

/// A provider that takes its time.
struct Slow(Duration);

impl Provider for Slow {
    fn name(&self) -> &str {
        "slow"
    }

    fn complete(&self, _req: &CompletionRequest) -> Result<CompletionResponse, ProviderError> {
        wait(self.0);
        answer("enfin")
    }
}

#[test]
fn time_and_latency_of_a_request_are_those_of_the_clocks() {
    let mut engine = engine_with(AutopilotConfig::default());
    engine.register_provider("local", "a", Box::new(Slow(Duration::from_millis(25))));
    let outer = Instant::now();
    let before = now_unix().unwrap();
    let result = engine.route_and_execute("Salut !").unwrap();
    let after = now_unix().unwrap();
    assert!(result.latency_ms >= 25);
    assert!(u128::from(result.latency_ms) <= outer.elapsed().as_millis());
    let event = engine.store().last().unwrap();
    assert_eq!(event.latency_ms, result.latency_ms);
    assert!(before <= event.timestamp && event.timestamp <= after);
}

#[test]
fn a_clock_before_1970_is_an_error() {
    let mut engine = engine_with(AutopilotConfig::default());
    let probe = register(&mut engine, "local", "a", vec![Script::Answer("ok", 1, 1)]);
    let err = engine.decide_on("Salut !", None, 0).unwrap_err();
    assert!(matches!(err, AutopilotError::ClockBeforeEpoch));
    let err = engine.begin_on("Salut !", None, 0).unwrap_err();
    assert!(matches!(err, AutopilotError::ClockBeforeEpoch));
    let decision = engine.begin_on("Salut !", Some(0), 0).unwrap();
    assert_eq!(decision.route, "local");
    let err = engine
        .conclude(
            "Salut !",
            Attempt {
                decision,
                route_used: "local".to_string(),
                fallback_occurred: false,
                outcome: answer("ok"),
                latency_ms: 1,
                ended: None,
            },
        )
        .unwrap_err();
    assert!(matches!(err, AutopilotError::ClockBeforeEpoch));
    assert_eq!(engine.event_count(), 0);
    assert_eq!(probe.count(), 0);
}

#[test]
fn a_run_begins_on_a_route_with_a_provider() {
    let mut engine = engine_with(AutopilotConfig::default());
    register(&mut engine, "local", "a", vec![]);
    let err = engine.begin_on("debug ``` ? ?", Some(0), 0).unwrap_err();
    assert!(matches!(err, AutopilotError::UnknownRoute(r) if r == "paid-cheap"));
}
