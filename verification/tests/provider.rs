use cost_autopilot::provider::{interpret, HttpReply, DEFAULT_TIMEOUT_NANOS};
use cost_autopilot::{CompletionRequest, HttpProvider, ProviderError, Usage};

#[test]
fn provider_error_display_is_informative() {
    let err = ProviderError::HttpStatus(500, "boom".to_string());
    assert!(err.describe().contains("500"));
    assert!(err.describe().contains("boom"));
}

#[test]
fn completion_request_builder_sets_defaults() {
    let req = CompletionRequest::new("gpt-x", "salut");
    assert_eq!(req.model, "gpt-x");
    assert_eq!(req.prompt, "salut");
    assert!(req.max_tokens.is_none());
}

#[test]
fn provider_errors_have_their_messages() {
    let text = |e: ProviderError| e.describe();
    assert_eq!(
        text(ProviderError::HttpStatus(404, "rien".to_string())),
        "erreur HTTP 404: rien"
    );
    assert_eq!(
        text(ProviderError::Transport("refusé".to_string())),
        "erreur de transport: refusé"
    );
    assert_eq!(
        text(ProviderError::MalformedResponse("vide".to_string())),
        "réponse malformée: vide"
    );
}

#[test]
fn request_body_actually_carries_the_model_and_prompt() {
    let provider = HttpProvider::new("test", "http://localhost:11434");
    let call = provider.prepare(&CompletionRequest::new(
        "mon-modele",
        "un prompt bien précis",
    ));
    assert!(call.model.contains("mon-modele"));
    assert!(call.messages[0].content.contains("un prompt bien précis"));

    assert_eq!(provider.name(), "test");
    assert_eq!(call.url, "http://localhost:11434/v1/chat/completions");
    assert_eq!(call.authorization, None);
    assert_eq!(call.timeout, DEFAULT_TIMEOUT_NANOS);
    assert_eq!(call.model, "mon-modele");
    assert_eq!(call.messages.len(), 1);
    assert_eq!(call.messages[0].role, "user");
    assert_eq!(call.messages[0].content, "un prompt bien précis");
    assert_eq!(call.max_tokens, None);
}

#[test]
fn slashes_at_the_end_of_the_base_url_do_not_matter() {
    let url = |base: &str| {
        HttpProvider::new("p", base)
            .prepare(&CompletionRequest::new("m", "salut"))
            .url
    };
    assert_eq!(url("https://api.test//"), "https://api.test/v1/chat/completions");
    assert_eq!(url("https://api.test/v2"), "https://api.test/v2/v1/chat/completions");
    assert_eq!(url("///"), "/v1/chat/completions");
}

#[test]
fn an_api_key_and_a_timeout_are_used() {
    let provider = HttpProvider::new("p", "http://x")
        .with_api_key("clef")
        .with_timeout(500_000_000);
    let mut req = CompletionRequest::new("m", "salut");
    req.max_tokens = Some(12);
    let call = provider.prepare(&req);
    assert_eq!(call.authorization.as_deref(), Some("Bearer clef"));
    assert_eq!(call.timeout, 500_000_000);
    assert_eq!(call.max_tokens, Some(12));
}

#[test]
fn successful_completion_returns_text_and_real_usage() {
    let response = interpret(HttpReply::Body {
        choices: vec!["bonjour !".to_string()],
        usage: Some(Usage {
            prompt_tokens: 12,
            completion_tokens: 3,
        }),
    })
    .expect("l'appel doit réussir");

    assert_eq!(response.text, "bonjour !");
    assert_eq!(response.usage.prompt_tokens, 12);
    assert_eq!(response.usage.completion_tokens, 3);
}

#[test]
fn http_error_status_is_surfaced_as_a_provider_error() {
    let err = interpret(HttpReply::Status(500, "modèle non chargé".to_string())).unwrap_err();

    match err {
        ProviderError::HttpStatus(code, body) => {
            assert_eq!(code, 500);
            assert!(body.contains("modèle non chargé"));
        }
        other => panic!("erreur inattendue : {other:?}"),
    }
}

#[test]
fn only_the_first_choice_is_the_answer() {
    let response = interpret(HttpReply::Body {
        choices: vec!["un".to_string(), "deux".to_string()],
        usage: None,
    })
    .unwrap();
    assert_eq!(response.text, "un");
    assert_eq!(response.usage, Usage::default());
}

#[test]
fn a_reply_without_an_answer_is_an_error() {
    let err = interpret(HttpReply::Body {
        choices: vec![],
        usage: None,
    })
    .unwrap_err();
    assert!(matches!(err, ProviderError::MalformedResponse(m) if m == "aucun choix renvoyé"));

    let err = interpret(HttpReply::NoAnswer("connexion refusée".to_string())).unwrap_err();
    assert!(matches!(err, ProviderError::Transport(m) if m == "connexion refusée"));

    let err = interpret(HttpReply::Unreadable("pas du JSON".to_string())).unwrap_err();
    assert!(matches!(err, ProviderError::MalformedResponse(m) if m == "pas du JSON"));
}
