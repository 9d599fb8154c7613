//! Language-model generation: parameters, results and what a generation costs.
use vstd::prelude::*;
use crate::credits::{Credits, MAX_MANTISSA, plus, is_units, lemma_add_units, lemma_count_times_rate, saturating_add, saturating_mul, zero};

verus! {

/// The model and context length a generation runs with.
#[derive(Debug, Clone)]
pub struct GenerationParams {
    pub model: String,
    pub ctx: u128,
}

/// The model used when none is chosen.
pub open spec fn default_model() -> Seq<char> {
    "llama3.1:latest"@
}

/// The context length used when none is chosen.
pub const DEFAULT_CTX: u128 = 12228;

impl GenerationParams {
    /// The default parameters: `llama3.1:latest` with a context of 12228 tokens.
    pub fn default_params() -> (p: Self)
        ensures
            p.model@ == default_model(),
            p.ctx == DEFAULT_CTX,
    {
        GenerationParams { model: String::from_str("llama3.1:latest"), ctx: DEFAULT_CTX }
    }
}

impl Default for GenerationParams {
    fn default() -> (p: Self)
        ensures
            p.model@ == default_model(),
            p.ctx == DEFAULT_CTX,
    {
        GenerationParams::default_params()
    }
}

/// How the provider cached a prompt, with the token counts it reports.
#[derive(Debug, Clone)]
pub enum GenerationCaching {
    NoCaching,
    OpenAI { cached_input_token_count: usize },
    Anthropic { prompt_caching_read_token_count: usize, prompt_caching_write_token_count: usize },
}

/// What a token is billed as.
#[derive(Debug, Clone, Copy, PartialEq, Eq, Structural)]
pub enum CostType {
    Input,
    Output,
    CachedInput,
    CacheRead,
    CacheWrite,
}

/// A provider of language models.
#[derive(Debug, Clone, Copy, PartialEq, Eq, Structural)]
pub enum Api {
    Ollama,
    OpenAI,
    Anthropic,
}

/// A finished generation: the text, who made it, and what it took.
#[derive(Debug, Clone)]
pub struct GenerationResult {
    pub generated: String,
    pub api: Api,
    pub prompt_token_count: usize,
    pub generated_token_count: usize,
    pub caching: GenerationCaching,
    pub total_duration_us: i64,
}

/// What a token of each type costs, in ten-thousandths of a credit (a
/// thousand credits buy a dollar): Ollama and OpenAI bill input at $0.50 and
/// output at $1.50 a million tokens; nothing else is billed.
pub open spec fn rate_units(api: Api, ct: CostType) -> int {
    match api {
        Api::Ollama | Api::OpenAI => match ct {
            CostType::Input => 5,
            CostType::Output => 15,
            _ => 0,
        },
        Api::Anthropic => 0,
    }
}

/// The rate of a token type, as the decimal number it is held as.
pub open spec fn rate_of(api: Api, ct: CostType) -> Credits {
    if rate_units(api, ct) == 0 {
        zero()
    } else {
        Credits { mantissa: rate_units(api, ct) as i128, scale: 4 }
    }
}

/// What the cached tokens of a generation cost, in ten-thousandths of a
/// credit.
pub open spec fn cache_units(api: Api, caching: GenerationCaching) -> int {
    match caching {
        GenerationCaching::NoCaching => 0,
        GenerationCaching::OpenAI { cached_input_token_count } => cached_input_token_count
            * rate_units(api, CostType::CachedInput),
        GenerationCaching::Anthropic {
            prompt_caching_read_token_count,
            prompt_caching_write_token_count,
        } => prompt_caching_read_token_count * rate_units(api, CostType::CacheRead)
            + prompt_caching_write_token_count * rate_units(api, CostType::CacheWrite),
    }
}

/// What a generation costs, in ten-thousandths of a credit: each prompt
/// token at the input rate, each generated token at the output rate, and
/// the cached tokens at theirs.
pub open spec fn cost_units(api: Api, gr: GenerationResult) -> int {
    gr.prompt_token_count * rate_units(api, CostType::Input) + gr.generated_token_count
        * rate_units(api, CostType::Output) + cache_units(api, gr.caching)
}

impl Api {
    /// The rate, in credits, at which tokens of type `ct` are billed.
    pub fn exchange_rate(&self, ct: CostType) -> (r: Credits)
        ensures
            r == rate_of(*self, ct),
            r.wf(),
    {
        match self {
            Api::Ollama | Api::OpenAI => match ct {
                CostType::Input => Credits { mantissa: 5, scale: 4 },
                CostType::Output => Credits { mantissa: 15, scale: 4 },
                _ => Credits { mantissa: 0, scale: 0 },
            },
            Api::Anthropic => Credits { mantissa: 0, scale: 0 },
        }
    }

    /// `n` tokens of type `ct`, priced.
    fn tokens_cost(&self, n: usize, ct: CostType) -> (r: Credits)
        ensures
            is_units(r, n * rate_units(*self, ct)),
    {
        let rate = self.exchange_rate(ct);
        let count = Credits { mantissa: n as i128, scale: 0 };
        let r = saturating_mul(count, rate);
        proof {
            lemma_count_times_rate(n as int, rate, rate_units(*self, ct), r);
        }
        r
    }

    /// What a generation costs, in credits.
    pub fn cost(self, gr: GenerationResult) -> (r: Credits)
        ensures
            is_units(r, cost_units(self, gr)),
    {
        let ghost p = gr.prompt_token_count as int;
        let ghost g = gr.generated_token_count as int;
        let ghost rin = rate_units(self, CostType::Input);
        let ghost rout = rate_units(self, CostType::Output);
        let mut total = Credits { mantissa: 0, scale: 0 };
        let input = self.tokens_cost(gr.prompt_token_count, CostType::Input);
        let output = self.tokens_cost(gr.generated_token_count, CostType::Output);
        let cache_cost = match gr.caching {
            GenerationCaching::Anthropic {
                prompt_caching_read_token_count,
                prompt_caching_write_token_count,
            } => {
                let read = self.tokens_cost(prompt_caching_read_token_count, CostType::CacheRead);
                let write = self.tokens_cost(prompt_caching_write_token_count, CostType::CacheWrite);
                proof {
                    lemma_add_units(
                        read,
                        prompt_caching_read_token_count * rate_units(self, CostType::CacheRead),
                        write,
                        prompt_caching_write_token_count * rate_units(self, CostType::CacheWrite),
                    );
                }
                saturating_add(read, write)
            },
            GenerationCaching::OpenAI { cached_input_token_count } => {
                self.tokens_cost(cached_input_token_count, CostType::CachedInput)
            },
            GenerationCaching::NoCaching => Credits { mantissa: 0, scale: 0 },
        };
        let ghost cu = cache_units(self, gr.caching);
        assert(is_units(cache_cost, cu));
        assert(0 <= p * rin <= 5 * 0xffff_ffff_ffff_ffff) by (nonlinear_arith)
            requires 0 <= p <= 0xffff_ffff_ffff_ffff, 0 <= rin <= 5;
        assert(0 <= g * rout <= 15 * 0xffff_ffff_ffff_ffff) by (nonlinear_arith)
            requires 0 <= g <= 0xffff_ffff_ffff_ffff, 0 <= rout <= 15;
        assert(is_units(total, 0)) by {
            crate::credits::lemma_pow10_small();
        }
        proof {
            lemma_add_units(total, 0, input, p * rin);
        }
        total = plus(total, input);
        proof {
            lemma_add_units(total, p * rin, output, g * rout);
        }
        total = plus(total, output);
        proof {
            lemma_add_units(total, p * rin + g * rout, cache_cost, cu);
        }
        total = plus(total, cache_cost);
        total
    }
}

/// Only input and output tokens are billed: Ollama and OpenAI charge five
/// ten-thousandths of a credit for each prompt token and fifteen for each
/// generated token, Anthropic nothing, and the cached, cache-read and
/// cache-written tokens cost nothing with any provider. So what a
/// generation costs does not depend on how its prompt was cached.
pub proof fn lemma_only_input_and_output_billed(api: Api, gr: GenerationResult)
    ensures
        rate_of(api, CostType::CachedInput) == zero(),
        rate_of(api, CostType::CacheRead) == zero(),
        rate_of(api, CostType::CacheWrite) == zero(),
        api is Anthropic ==> cost_units(api, gr) == 0,
        !(api is Anthropic) ==> cost_units(api, gr) == 5 * gr.prompt_token_count + 15
            * gr.generated_token_count,
{
    let p = gr.prompt_token_count as int;
    let g = gr.generated_token_count as int;
    assert(p * 0 == 0 && g * 0 == 0) by (nonlinear_arith);
    assert(p * 5 == 5 * p && g * 15 == 15 * g) by (nonlinear_arith);
    match gr.caching {
        GenerationCaching::NoCaching => {},
        GenerationCaching::OpenAI { cached_input_token_count } => {
            let c = cached_input_token_count as int;
            assert(c * 0 == 0) by (nonlinear_arith);
        },
        GenerationCaching::Anthropic { prompt_caching_read_token_count, prompt_caching_write_token_count } => {
            let r = prompt_caching_read_token_count as int;
            let w = prompt_caching_write_token_count as int;
            assert(r * 0 == 0 && w * 0 == 0) by (nonlinear_arith);
        },
    }
}

impl From<GenerationResult> for String {
    fn from(result: GenerationResult) -> (s: String) {
        result.generated
    }
}

impl vstd::std_specs::convert::FromSpecImpl<GenerationResult> for String {
    open spec fn obeys_from_spec() -> bool {
        true
    }

    open spec fn from_spec(result: GenerationResult) -> String {
        result.generated
    }
}

/// A request to embed a text with a model.
#[derive(Debug, Clone)]
pub struct OllamaEmbedRequest {
    pub model: String,
    pub input: String,
}

/// The text an Ollama completion answered with.
#[derive(Debug, Clone)]
pub struct OllamaCompletionResponse {
    pub response: String,
}

/// A model a ullm server can load: its engine and its name.
#[derive(Debug, Clone)]
pub struct UllmModel {
    pub engine: String,
    pub name: String,
}

/// A completion request to a ullm server.
#[derive(Debug, Clone)]
pub struct UllmCompletionRequest {
    pub text: String,
}

/// The text a ullm server completed a request with.
#[derive(Debug, Clone)]
pub struct UllmCompletionResponse {
    pub completion: String,
}

} // verus!
