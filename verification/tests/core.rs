use finanalize::api::ApiResponse;
use finanalize::auth::{logout_cookie, refresh_cookie, token_of_header};
use finanalize::credits::Credits;
use finanalize::error::{AuthError, FinanalizeError, UserError};
use finanalize::graphing::GraphType;
use finanalize::jwt::{Claims, TokenPair, TokenType};
use finanalize::llm::{Api, CostType, GenerationCaching, GenerationParams, GenerationResult};
use finanalize::models::{FrontendReport, FrontendUser, ReportCreation, ReportStatusEvent, User, ValidationOutput};
use finanalize::report::{ReportModel, ReportSize};
use finanalize::search::search_url;
use finanalize::sec::{
    cik_digits, cik_for_ticker, eq_ignore_case, filing_link_of, filing_links_outcome, latest_filing_links,
    CompanyEntry, JsonField,
};

fn value(c: Credits) -> f64 {
    c.mantissa as f64 / 10f64.powi(c.scale as i32)
}

fn result(api: Api, prompt: usize, generated: usize, caching: GenerationCaching) -> GenerationResult {
    GenerationResult {
        generated: "text".to_string(),
        api,
        prompt_token_count: prompt,
        generated_token_count: generated,
        caching,
        total_duration_us: 0,
    }
}

#[test]
fn exchange_rates() {
    assert_eq!(Api::Ollama.exchange_rate(CostType::Input), Credits { mantissa: 5, scale: 4 });
    assert_eq!(Api::OpenAI.exchange_rate(CostType::Output), Credits { mantissa: 15, scale: 4 });
    assert_eq!(Api::OpenAI.exchange_rate(CostType::CacheRead), Credits { mantissa: 0, scale: 0 });
    assert_eq!(Api::Anthropic.exchange_rate(CostType::Input), Credits { mantissa: 0, scale: 0 });
}

#[test]
fn generation_costs() {
    let c = Api::Ollama.cost(result(Api::Ollama, 1000, 2000, GenerationCaching::NoCaching));
    assert_eq!(c.mantissa * 10i128.pow(4) / 10i128.pow(c.scale), 5 * 1000 + 15 * 2000);
    assert!((value(c) - 3.5).abs() < 1e-9);
    let c = Api::OpenAI.cost(result(
        Api::OpenAI,
        1,
        1,
        GenerationCaching::Anthropic { prompt_caching_read_token_count: 10, prompt_caching_write_token_count: 20 },
    ));
    assert!((value(c) - 0.002).abs() < 1e-12);
    let c = Api::Anthropic.cost(result(Api::Anthropic, 100, 100, GenerationCaching::OpenAI { cached_input_token_count: 5 }));
    assert_eq!(c.mantissa, 0);
    let big = Api::OpenAI.cost(result(Api::OpenAI, usize::MAX, usize::MAX, GenerationCaching::NoCaching));
    assert_eq!(big.mantissa * 10i128.pow(4) / 10i128.pow(big.scale), 20 * (usize::MAX as i128));
}

#[test]
fn generation_result_gives_its_text() {
    let s: String = result(Api::Ollama, 1, 1, GenerationCaching::NoCaching).into();
    assert_eq!(s, "text");
    let p = GenerationParams::default();
    assert_eq!(p.model, "llama3.1:latest");
    assert_eq!(p.ctx, 12228);
}

#[test]
fn token_pairs() {
    let pair = TokenPair::new("a".to_string(), "r".to_string()).unwrap();
    assert_eq!(pair.access(), "a");
    assert_eq!(pair.refresh(), "r");
}

#[test]
fn claims_and_lifetimes() {
    assert_eq!(TokenType::Access.duration_secs(), 86400);
    assert_eq!(TokenType::Refresh.duration_secs(), 2592000);
    assert_eq!(TokenType::Access.valid_until_from(1000), 87400);
    let c = Claims::issued_at("user".to_string(), &TokenType::Refresh, 10, 20);
    assert_eq!(c.exp, 2592010);
    assert_eq!(c.iat, 20);
    assert_eq!(c.iss, "Finanalize Backend");
    assert_eq!(c.sub, "user");
    let now = Claims::new("u".to_string(), &TokenType::Access);
    assert!(now.exp > now.iat);
}

#[test]
fn api_responses() {
    let ok = ApiResponse::new(5u8);
    assert_eq!(ok.status(), 200);
    assert_eq!(ok.into_parts(), (Some(5u8), None, 200));
    let err: ApiResponse<u8> = ApiResponse::error(404, "Not found".to_string());
    assert_eq!(err.into_parts(), (None, Some("Not found".to_string()), 404));
}

#[test]
fn user_errors_and_status_codes() {
    let e = FinanalizeError::Unauthorized(AuthError::InvalidToken);
    assert_eq!(UserError::from(&e), UserError::InvalidToken);
    assert_eq!(e.status_code(), 401);
    let e = FinanalizeError::Unauthorized(AuthError::EmailAlreadyExists);
    assert_eq!(UserError::from_error(&e), UserError::InternalServerError);
    assert_eq!(e.status_code(), 401);
    assert_eq!(UserError::from(&FinanalizeError::NotFound), UserError::NotFound);
    assert_eq!(FinanalizeError::NotFound.status_code(), 404);
    assert_eq!(UserError::from(&FinanalizeError::LlmApi("x".to_string())), UserError::InternalServerError);
    assert_eq!(FinanalizeError::InternalServerError.status_code(), 500);
}

#[test]
fn cookies_and_bearer_tokens() {
    assert_eq!(refresh_cookie("abc"), "refresh_token=abc; HttpOnly; Path=/; Max-Age=3600; SameSite=Strict");
    assert!(logout_cookie().contains("Max-Age=0"));
    assert_eq!(token_of_header("Bearer xyz"), Some("xyz".to_string()));
    assert_eq!(token_of_header("xyz"), Some("xyz".to_string()));
    assert_eq!(token_of_header("   "), None);
}

#[test]
fn frontend_users_have_no_password() {
    let u = User { id: "1".to_string(), email: "a@b.c".to_string(), password: "h".to_string() };
    let f = FrontendUser::of_user(u);
    assert_eq!(f.id, "1");
    assert_eq!(f.email, "a@b.c");
}

#[test]
fn graph_types() {
    assert_eq!(GraphType::from_str("line"), Some(GraphType::Line));
    assert_eq!(GraphType::from_str("bar"), Some(GraphType::Bar));
    assert_eq!(GraphType::from_str("pie"), Some(GraphType::Pie));
    assert_eq!(GraphType::from_str("stock"), Some(GraphType::Stock));
    assert_eq!(GraphType::from_str("Line"), None);
}

#[test]
fn searx_urls() {
    assert_eq!(search_url("http://localhost:8081", "rust"), "http://localhost:8081/search?q=rust&format=json&pageno=1");
}

#[test]
fn sec_index_keys() {
    assert_eq!(cik_digits(320193), "0000320193");
    assert_eq!(cik_digits(0), "0000000000");
    assert_eq!(cik_digits(12345678901), "12345678901");
    assert!(eq_ignore_case("aapl", "AAPL"));
    assert!(!eq_ignore_case("aapl", "AAP"));
    let entries = vec![
        CompanyEntry { cik_str: JsonField::Mismatched, ticker: JsonField::Present("AAPL".to_string()) },
        CompanyEntry { cik_str: JsonField::Present(789019), ticker: JsonField::Present("MSFT".to_string()) },
        CompanyEntry { cik_str: JsonField::Present(320193), ticker: JsonField::Present("AAPL".to_string()) },
    ];
    assert_eq!(cik_for_ticker(&entries, "aapl"), Some("0000320193".to_string()));
    assert_eq!(cik_for_ticker(&entries, "GOOG"), None);
    let cut = vec![
        CompanyEntry { cik_str: JsonField::Present(1), ticker: JsonField::Missing },
        CompanyEntry { cik_str: JsonField::Present(320193), ticker: JsonField::Present("AAPL".to_string()) },
    ];
    assert_eq!(cik_for_ticker(&cut, "AAPL"), None);
}

#[test]
fn sec_filing_links() {
    assert_eq!(
        filing_link_of("0000320193", "0000320193-24-000123", "aapl-10k.htm"),
        "https://www.sec.gov/Archives/edgar/data/0000320193/000032019324000123/aapl-10k.htm"
    );
    let forms: Vec<String> = ["10-K", "8-K", "10-K", "10-K", "10-K"].iter().map(|s| s.to_string()).collect();
    let docs: Vec<String> = ["a", "b", "c", "d", "e"].iter().map(|s| s.to_string()).collect();
    let accs: Vec<String> = ["1-1", "2-2", "3-3", "4-4"].iter().map(|s| s.to_string()).collect();
    let links = latest_filing_links("9", &forms, &docs, &accs);
    let base = "https://www.sec.gov/Archives/edgar/data/9";
    assert_eq!(links, vec![format!("{}/11/a", base), format!("{}/33/c", base), format!("{}/44/d", base)]);
    assert_eq!(filing_links_outcome(None), Err("Error retrieving filings".to_string()));
    assert_eq!(filing_links_outcome(Some(vec![])), Err("No filings found".to_string()));
    assert_eq!(filing_links_outcome(Some(vec!["x".to_string()])), Ok(vec!["x".to_string()]));
}

#[test]
fn frontend_reports() {
    let r = FrontendReport::from_state("AAPL".to_string(), 1u8, ReportSize::Small, ReportModel::Llama, None, None);
    assert_eq!(r.valid, Some(false));
    assert_eq!(r.error.as_deref(), Some("Validation has not been performed yet."));
    assert_eq!(r.status, 1);
    let v = ValidationOutput { valid: false, error: Some("not financial".to_string()) };
    let r = FrontendReport::from_state("x".to_string(), 2u8, ReportSize::Large, ReportModel::Qwen, Some("T".to_string()), Some(v.clone()));
    assert_eq!(r.valid, Some(false));
    assert_eq!(r.error.as_deref(), Some("not financial"));
    assert_eq!(r.title.as_deref(), Some("T"));
    let live = FrontendReport::live_update("x".to_string(), 3u8, ReportSize::Medium, ReportModel::OpenAI, None, ValidationOutput { valid: true, error: None });
    assert_eq!(live.valid, Some(true));
    assert!(live.error.is_none());
    let e = ReportStatusEvent::new("r1".to_string(), 4u8);
    assert_eq!(e.report_id, "r1");
    assert_eq!(e.status, 4);
}

#[test]
fn new_reports_are_pending() {
    let r = ReportCreation::new("TSLA".to_string(), ReportSize::Medium, ReportModel::OpenAI, "Pending");
    assert_eq!(r.status, "Pending");
    assert_eq!(r.user_input, "TSLA");
    assert_eq!(r.created_at, r.updated_at);
    assert!(r.generation_results.is_empty());
}
