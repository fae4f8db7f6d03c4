use cost_autopilot::demo_backend::{
    demo_answer, demo_backend, demo_usage, head_received, http_ok,
};
use cost_autopilot::simulation::{
    demo_prompt, demo_registrations, random_demo_prompt, service_registrations,
    uses_demo_backends, DEMO_PROMPTS,
};
use cost_autopilot::report::summarize;
use cost_autopilot::store::EventStore;
use cost_autopilot::{
    AutopilotConfig, AutopilotEngine, CompletionRequest, CompletionResponse, PricingTable,
    Provider, ProviderError, Usage, Usd, ROUTE_TIERS,
};
use rand::rngs::StdRng;
use rand::SeedableRng;

#[test]
fn random_prompts_are_drawn_from_the_list() {
    let mut rng = StdRng::seed_from_u64(7);
    let drawn: Vec<String> = (0..200).map(|_| random_demo_prompt(&mut rng)).collect();
    for prompt in &drawn {
        assert!(DEMO_PROMPTS.contains(&prompt.as_str()));
    }
    for prompt in DEMO_PROMPTS {
        assert!(drawn.iter().any(|d| d == prompt));
    }
    let mut again = StdRng::seed_from_u64(7);
    assert_eq!(random_demo_prompt(&mut again), drawn[0]);
    assert_eq!(demo_prompt(0), "Salut, comment ça va ?");
}

#[test]
fn demo_backends_stand_in_for_missing_services() {
    let url = Some("http://x".to_string());
    assert!(uses_demo_backends(true, &None, &None, &None));
    assert!(!uses_demo_backends(false, &None, &None, &None));
    assert!(!uses_demo_backends(true, &url, &None, &None));
    assert!(!uses_demo_backends(true, &None, &url, &None));
    assert!(!uses_demo_backends(true, &None, &None, &url));
}

#[test]
fn a_premium_service_given_alone_is_used_with_its_key() {
    let url = Some("http://u".to_string());
    let key = Some("clef".to_string());
    assert!(!uses_demo_backends(true, &None, &None, &url));
    let r = service_registrations(&None, &None, &url, &key);
    assert_eq!(r.len(), 1);
    assert_eq!(r[0].route, "paid-premium");
    let call = r[0].provider.prepare(&CompletionRequest::new("m", "p"));
    assert_eq!(call.url, "http://u/v1/chat/completions");
    assert_eq!(call.authorization.as_deref(), Some("Bearer clef"));
}

#[test]
fn demo_registrations_cover_the_tiers() {
    let r = demo_registrations("http://a", "http://b", "http://c");
    let listed: Vec<(&str, &str)> = r.iter().map(|r| (r.route, r.model)).collect();
    assert_eq!(
        listed,
        vec![
            ("local", "demo-local"),
            ("paid-cheap", "demo-cheap"),
            ("paid-premium", "demo-premium")
        ]
    );
    let call = r[1].provider.prepare(&CompletionRequest::new("m", "p"));
    assert_eq!(call.url, "http://b/v1/chat/completions");
}

#[test]
fn only_paid_services_are_sent_the_key() {
    let url = |s: &str| Some(s.to_string());
    let r = service_registrations(&url("http://a"), &None, &url("http://c"), &url("clef"));
    assert_eq!(r.len(), 2);
    let req = CompletionRequest::new("m", "p");
    assert_eq!((r[0].route, r[0].model), ("local", "local-model"));
    assert_eq!(r[0].provider.prepare(&req).authorization, None);
    assert_eq!((r[1].route, r[1].model), ("paid-premium", "paid-premium-model"));
    assert_eq!(
        r[1].provider.prepare(&req).authorization.as_deref(),
        Some("Bearer clef")
    );
    assert!(service_registrations(&None, &None, &None, &None).is_empty());
}

#[test]
fn demo_servers_speak_http() {
    assert!(head_received(b"POST / HTTP/1.1\r\nHost: x\r\n\r\n{}"));
    assert!(!head_received(b"POST / HTTP/1.1\r\nHost: x\r\n"));
    assert!(!head_received(b"\r\n\r"));
    assert!(head_received(b"\r\n\r\n"));
    assert_eq!(
        http_ok("{\"a\":\"é\"}"),
        "HTTP/1.1 200 OK\r\nContent-Type: application/json\r\nContent-Length: 10\r\nConnection: close\r\n\r\n{\"a\":\"é\"}"
    );
    assert_eq!(
        demo_answer("assistant local"),
        "[assistant local] réponse simulée"
    );
    assert_eq!(
        demo_usage(),
        Usage {
            prompt_tokens: 20,
            completion_tokens: 15
        }
    );
    assert_eq!(demo_backend(0).delay_ms, 0);
    assert_eq!(demo_backend(1).persona, "assistant économique");
    assert_eq!(demo_backend(2).delay_ms, 80);
}

/// A provider that always reports the usage of a demonstration server.
struct Demo;

impl Provider for Demo {
    fn name(&self) -> &str {
        "demo"
    }

    fn complete(&self, _req: &CompletionRequest) -> Result<CompletionResponse, ProviderError> {
        Ok(CompletionResponse {
            text: demo_answer("assistant local"),
            usage: demo_usage(),
        })
    }
}

#[test]
fn a_seeded_batch_stays_mostly_local() {
    let config = AutopilotConfig {
        daily_budget_usd: Some(Usd {
            pico: 2_000_000_000_000,
        }),
        ..AutopilotConfig::default()
    };
    let mut engine = AutopilotEngine::new(
        config,
        PricingTable::example_default(),
        EventStore::open_in_memory(),
    );
    for route in ROUTE_TIERS {
        engine.register_provider(route, "demo", Box::new(Demo));
    }
    let mut rng = StdRng::seed_from_u64(7);
    let mut log = Vec::new();
    for _ in 0..30 {
        let prompt = random_demo_prompt(&mut rng);
        let result = engine.route_and_execute(&prompt).unwrap();
        log.push((result.route_used, prompt));
    }

    assert_eq!(
        log[0],
        ("local".to_string(), "Salut, comment ça va ?".to_string())
    );
    assert_eq!(log[3].0, "paid-cheap");
    assert!(log[3].1.starts_with("Quel est le compromis"));
    assert_eq!(log[15].0, "paid-cheap");
    assert!(log[15].1.starts_with("Explique pourquoi"));

    let report = summarize(&engine.store().all(), &PricingTable::example_default());
    assert_eq!(report.total_cost.pico, 72_000_000_000);
    assert_eq!(report.baseline_cost.pico, 6_000_000_000_000);
    assert_eq!(report.savings.pico, 5_928_000_000_000);
    assert_eq!(report.routes.len(), 2);
    assert_eq!(report.routes[0].calls, 24);
    assert_eq!(report.routes[1].calls, 6);
}
