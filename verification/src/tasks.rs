//! Tasks: a prompt template sent to a language model, with the way its
//! answer is cut out, repaired and retried.
use vstd::prelude::*;
use crate::error::FinanalizeError;
use crate::llm::{GenerationParams, default_model, DEFAULT_CTX};
use crate::text::{
    chars_of, join, join_strings, lines, lines_of, remove_all, remove_all_chars, starts_with,
    string_of, trim, trim_chars, views,
};

verus! {

/// How often a task is tried before it gives up.
#[derive(Clone, Copy, Debug, PartialEq, Eq, Structural)]
pub enum RetryStrategy {
    NoRetry,
    Count(usize),
    UntilSuccess,
}

/// A repair applied to a model's answer that is not valid JSON.
///
/// - `RemoveTrailingAlphanumeric`: drop the letters and digits after the last
///   other character, keeping the rest in order;
/// - `RemoveTrailingComma`: drop the commas at the end;
/// - `InsertClosedBrace`: append closing braces until the JSON is valid, at
///   most three.
#[derive(Clone, Copy, Debug, PartialEq, Eq, Structural)]
pub enum FixStrategy {
    RemoveTrailingAlphanumeric,
    RemoveTrailingComma,
    InsertClosedBrace,
}

/// A prompt template with its generation parameters and its retry and repair
/// strategies.
#[derive(Debug, Clone)]
pub struct Task {
    prompt: String,
    params: GenerationParams,
    retry_strategy: RetryStrategy,
    fix_strategies: Vec<FixStrategy>,
}

/// What a task is made of.
pub ghost struct TaskView {
    pub prompt: Seq<char>,
    pub model: Seq<char>,
    pub ctx: u128,
    pub retry_strategy: RetryStrategy,
    pub fix_strategies: Seq<FixStrategy>,
}

impl View for Task {
    type V = TaskView;

    closed spec fn view(&self) -> TaskView {
        TaskView {
            prompt: self.prompt@,
            model: self.params.model@,
            ctx: self.params.ctx,
            retry_strategy: self.retry_strategy,
            fix_strategies: self.fix_strategies@,
        }
    }
}

impl Task {
    /// A task for the template, with the default parameters, three tries and
    /// no repairs.
    pub fn new(template: &str) -> (t: Self)
        ensures
            t@ == (TaskView {
                prompt: template@,
                model: default_model(),
                ctx: DEFAULT_CTX,
                retry_strategy: RetryStrategy::Count(3),
                fix_strategies: Seq::empty(),
            }),
    {
        Task {
            prompt: String::from_str(template),
            params: GenerationParams::default_params(),
            retry_strategy: RetryStrategy::Count(3),
            fix_strategies: Vec::new(),
        }
    }

    /// The task with another model.
    pub fn with_model(self, model: String) -> (t: Self)
        ensures
            t@ == (TaskView { model: model@, ..self@ }),
    {
        let mut s = self;
        s.params.model = model;
        s
    }

    /// The task with another context length.
    pub fn with_context_len(self, ctx: u128) -> (t: Self)
        ensures
            t@ == (TaskView { ctx: ctx, ..self@ }),
    {
        let mut s = self;
        s.params.ctx = ctx;
        s
    }

    /// The task with another retry strategy.
    pub fn with_retry_strategy(self, strategy: RetryStrategy) -> (t: Self)
        ensures
            t@ == (TaskView { retry_strategy: strategy, ..self@ }),
    {
        let mut s = self;
        s.retry_strategy = strategy;
        s
    }

    /// The task with other repairs.
    pub fn with_fix_strategies(self, strategies: Vec<FixStrategy>) -> (t: Self)
        ensures
            t@ == (TaskView { fix_strategies: strategies@, ..self@ }),
    {
        let mut s = self;
        s.fix_strategies = strategies;
        s
    }

    /// The prompt template.
    pub fn prompt_template(&self) -> (s: String)
        ensures
            s@ == self@.prompt,
    {
        self.prompt.clone()
    }

    /// The generation parameters.
    pub fn params(&self) -> (p: &GenerationParams)
        ensures
            p.model@ == self@.model,
            p.ctx == self@.ctx,
    {
        &self.params
    }

    /// The retry strategy.
    pub fn retry_strategy(&self) -> (r: RetryStrategy)
        ensures
            r == self@.retry_strategy,
    {
        self.retry_strategy
    }
}

/// The lines after the first line that begins with `marker`; none when no line
/// does.
pub open spec fn after_marker(ls: Seq<Seq<char>>, marker: Seq<char>) -> Seq<Seq<char>>
    decreases ls.len(),
{
    if ls.len() == 0 {
        seq![]
    } else if marker.is_prefix_of(ls[0]) {
        ls.drop_first()
    } else {
        after_marker(ls.drop_first(), marker)
    }
}

/// The JSON cut out of a model's answer: the lines after the first one that
/// begins with `<Output>`, joined by line feeds, without code fences and
/// output tags, and trimmed.
pub open spec fn extracted_json(output: Seq<char>) -> Seq<char> {
    let body = join(after_marker(lines(output), "<Output>"@), "\n"@);
    trim(
        remove_all(
            remove_all(remove_all(remove_all(body, "```json"@), "```"@), "<Output>"@),
            "</Output>"@,
        ),
    )
}

/// The lines after the first line that begins with `marker`.
fn lines_after_marker(ls: &Vec<String>, marker: &str) -> (r: Vec<String>)
    ensures
        views(r@) == after_marker(views(ls@), marker@),
{
    let ghost all = views(ls@);
    let mut k: usize = 0;
    assert(all.skip(0) == all);
    while k < ls.len()
        invariant
            k <= ls.len(),
            all == views(ls@),
            after_marker(all, marker@) == after_marker(all.skip(k as int), marker@),
        decreases ls.len() - k,
    {
        let line = chars_of(ls[k].as_str());
        let ghost rest = all.skip(k as int);
        assert(rest[0] == all[k as int]);
        assert(rest.drop_first() == all.skip(k + 1));
        if starts_with(&line, marker) {
            let mut r: Vec<String> = Vec::new();
            let mut j: usize = k + 1;
            while j < ls.len()
                invariant
                    k < j <= ls.len(),
                    all == views(ls@),
                    views(r@) == all.subrange(k + 1, j as int),
                decreases ls.len() - j,
            {
                let ghost before = r@;
                let item = ls[j].clone();
                assert(item@ == all[j as int]);
                r.push(item);
                assert(views(r@) =~= views(before).push(item@));
                assert(views(r@) =~= all.subrange(k + 1, j + 1));
                j = j + 1;
            }
            assert(all.subrange(k + 1, ls.len() as int) == rest.drop_first());
            return r;
        }
        k = k + 1;
    }
    assert(all.skip(k as int) == Seq::<Seq<char>>::empty());
    Vec::new()
}

impl Task {
    /// Cuts the JSON out of a model's answer. It never fails.
    pub fn parse_output(&self, output: &str) -> (r: Result<String, FinanalizeError>)
        ensures
            r is Ok,
            r matches Ok(json) ==> json@ == extracted_json(output@),
    {
        let ls = lines_of(output);
        let tail = lines_after_marker(&ls, "<Output>");
        let body = join_strings(&tail, "\n");
        let v0 = chars_of(body.as_str());
        let v1 = remove_all_chars(&v0, "```json");
        let v2 = remove_all_chars(&v1, "```");
        let v3 = remove_all_chars(&v2, "<Output>");
        let v4 = remove_all_chars(&v3, "</Output>");
        let t = trim_chars(&v4);
        Ok(string_of(&t))
    }
}

#[verifier::external_type_specification]
#[verifier::external_body]
pub struct ExJsonValue(serde_json::Value);

/// Whether `serde_json` reads `s` as a JSON value. This depends on the text
/// alone.
pub uninterp spec fn is_json(s: Seq<char>) -> bool;

/// The value `serde_json` reads from the JSON text `s`. It depends on the
/// text alone.
pub uninterp spec fn json_value(s: Seq<char>) -> serde_json::Value;

/// Reads JSON text as a value (`serde_json::from_str::<Value>`); it succeeds
/// exactly on the texts that `is_json` holds of, with the value `json_value`
/// names.
#[verifier::external_body]
fn parse_json(s: &str) -> (r: Result<serde_json::Value, serde_json::Error>)
    ensures
        r is Ok <==> is_json(s@),
        r matches Ok(v) ==> v == json_value(s@),
{
    serde_json::from_str(s)
}

/// Whether a character is alphabetic or numeric in Unicode. This depends on
/// the character alone.
pub uninterp spec fn is_alphanumeric(c: char) -> bool;

/// `char::is_alphanumeric`.
#[verifier::external_body]
fn char_is_alphanumeric(c: char) -> (b: bool)
    ensures
        b == is_alphanumeric(c),
{
    c.is_alphanumeric()
}

/// `s` without the letters and digits at its end.
pub open spec fn strip_trailing_alphanumeric(s: Seq<char>) -> Seq<char>
    decreases s.len(),
{
    if s.len() > 0 && is_alphanumeric(s.last()) {
        strip_trailing_alphanumeric(s.drop_last())
    } else {
        s
    }
}

/// `s` without the commas at its end.
pub open spec fn strip_trailing_commas(s: Seq<char>) -> Seq<char>
    decreases s.len(),
{
    if s.len() > 0 && s.last() == ',' {
        strip_trailing_commas(s.drop_last())
    } else {
        s
    }
}

/// The answer after the repairs that come before parsing: first the
/// trailing letters and digits go, then the trailing commas.
pub open spec fn repaired_json(fixes: Seq<FixStrategy>, s: Seq<char>) -> Seq<char> {
    let s1 = if fixes.contains(FixStrategy::RemoveTrailingAlphanumeric) {
        strip_trailing_alphanumeric(s)
    } else {
        s
    };
    if fixes.contains(FixStrategy::RemoveTrailingComma) {
        strip_trailing_commas(s1)
    } else {
        s1
    }
}

/// `n` closing braces.
pub open spec fn braces(n: nat) -> Seq<char> {
    Seq::new(n, |i: int| '}')
}

/// Whether the text is valid JSON after `i` closing braces are appended.
pub open spec fn json_with_braces(fixed: Seq<char>, i: int) -> bool {
    is_json(fixed + braces(i as nat))
}

/// The most closing braces that are appended before giving up.
pub const BRACE_ATTEMPTS: usize = 3;

/// The fewest closing braces, none to three, after which the text is valid
/// JSON; none when no such number is.
pub open spec fn fewest_braces(fixed: Seq<char>) -> Option<nat> {
    if json_with_braces(fixed, 0) {
        Some(0)
    } else if json_with_braces(fixed, 1) {
        Some(1)
    } else if json_with_braces(fixed, 2) {
        Some(2)
    } else if json_with_braces(fixed, 3) {
        Some(3)
    } else {
        None
    }
}

/// `e` is a JSON error.
pub open spec fn is_serde_error(e: FinanalizeError) -> bool {
    e is Serde
}

/// What reading the repaired answer gives: without the brace repair, the
/// value of the text or its JSON error; with it, the value of the text after
/// the fewest closing braces (up to three) that make it valid, or the errors
/// of the three attempts made after inserting a brace.
pub open spec fn read_json_outcome(fixes: Seq<FixStrategy>, json: Seq<char>, r: Result<
    serde_json::Value,
    FinanalizeError,
>) -> bool {
    let fixed = repaired_json(fixes, json);
    if !fixes.contains(FixStrategy::InsertClosedBrace) {
        &&& (r is Ok <==> is_json(fixed))
        &&& (r matches Ok(v) ==> v == json_value(fixed))
        &&& (r matches Err(e) ==> is_serde_error(e))
    } else {
        match fewest_braces(fixed) {
            Some(n) => r == Ok::<serde_json::Value, FinanalizeError>(json_value(fixed + braces(n))),
            None => r matches Err(FinanalizeError::MultipleErrors(es)) && es.len() == BRACE_ATTEMPTS
                && forall|j: int| 0 <= j < es.len() ==> is_serde_error(#[trigger] es[j]),
        }
    }
}

/// Whether `f` is among the repairs.
fn has_fix(v: &Vec<FixStrategy>, f: FixStrategy) -> (b: bool)
    ensures
        b == v@.contains(f),
{
    let mut i: usize = 0;
    while i < v.len()
        invariant
            i <= v.len(),
            forall|j: int| 0 <= j < i ==> v@[j] != f,
        decreases v.len() - i,
    {
        if v[i] == f {
            assert(v@[i as int] == f);
            return true;
        }
        i = i + 1;
    }
    false
}

/// The characters of `s` without its trailing letters and digits.
fn without_trailing_alphanumeric(s: &Vec<char>) -> (r: Vec<char>)
    ensures
        r@ == strip_trailing_alphanumeric(s@),
{
    let mut r = s.clone();
    assert(r@ == s@);
    while r.len() > 0 && char_is_alphanumeric(r[r.len() - 1])
        invariant
            strip_trailing_alphanumeric(s@) == strip_trailing_alphanumeric(r@),
        decreases r.len(),
    {
        let ghost before = r@;
        r.pop();
        assert(r@ == before.drop_last());
    }
    r
}

/// The characters of `s` without its trailing commas.
fn without_trailing_commas(s: &Vec<char>) -> (r: Vec<char>)
    ensures
        r@ == strip_trailing_commas(s@),
{
    let mut r = s.clone();
    assert(r@ == s@);
    while r.len() > 0 && r[r.len() - 1] == ','
        invariant
            strip_trailing_commas(s@) == strip_trailing_commas(r@),
        decreases r.len(),
    {
        let ghost before = r@;
        r.pop();
        assert(r@ == before.drop_last());
    }
    r
}

impl Task {
    /// Reads a model's answer as JSON, after the task's repairs.
    pub fn deserialize_into_value(&self, json: String) -> (r: Result<serde_json::Value, FinanalizeError>)
        ensures
            read_json_outcome(self@.fix_strategies, json@, r),
    {
        let ghost fixes = self@.fix_strategies;
        let mut v = chars_of(json.as_str());
        if has_fix(&self.fix_strategies, FixStrategy::RemoveTrailingAlphanumeric) {
            v = without_trailing_alphanumeric(&v);
        }
        if has_fix(&self.fix_strategies, FixStrategy::RemoveTrailingComma) {
            v = without_trailing_commas(&v);
        }
        let mut text = string_of(&v);
        assert(text@ == repaired_json(fixes, json@));
        let ghost fixed = text@;
        assert(fixed + braces(0) =~= fixed);
        let first = parse_json(text.as_str());
        if !has_fix(&self.fix_strategies, FixStrategy::InsertClosedBrace) {
            return match first {
                Ok(val) => Ok(val),
                Err(e) => Err(FinanalizeError::Serde(e)),
            };
        }
        if let Ok(val) = first {
            assert(fewest_braces(fixed) == Some(0nat));
            return Ok(val);
        }
        let mut errors: Vec<FinanalizeError> = Vec::new();
        let mut i: usize = 0;
        while i < BRACE_ATTEMPTS
            invariant
                i <= BRACE_ATTEMPTS,
                fixed == repaired_json(fixes, json@),
                fixes == self@.fix_strategies,
                fixes.contains(FixStrategy::InsertClosedBrace),
                text@ == fixed + braces(i as nat),
                forall|j: int| 0 <= j <= i ==> !#[trigger] json_with_braces(fixed, j),
                errors@.len() == i,
                forall|j: int| 0 <= j < errors@.len() ==> is_serde_error(#[trigger] errors@[j]),
            decreases BRACE_ATTEMPTS - i,
        {
            crate::text::push_char(&mut text, '}');
            assert(text@ =~= fixed + braces((i + 1) as nat));
            match parse_json(text.as_str()) {
                Ok(val) => {
                    assert(json_with_braces(fixed, i + 1));
                    assert(!json_with_braces(fixed, 0));
                    assert(i >= 1 ==> !json_with_braces(fixed, 1));
                    assert(i >= 2 ==> !json_with_braces(fixed, 2));
                    assert(fewest_braces(fixed) == Some((i + 1) as nat));
                    return Ok(val);
                },
                Err(e) => {
                    assert(!json_with_braces(fixed, i + 1));
                    errors.push(FinanalizeError::Serde(e));
                },
            }
            i = i + 1;
        }
        assert(!json_with_braces(fixed, 1));
        assert(!json_with_braces(fixed, 2));
        assert(!json_with_braces(fixed, 3));
        assert(fewest_braces(fixed) is None);
        Err(FinanalizeError::MultipleErrors(errors))
    }
}

/// Whether another attempt is made after `failures` failed ones: once for no
/// retry, up to the count for a count, always until success.
pub open spec fn attempt_allowed(strategy: RetryStrategy, failures: nat) -> bool {
    match strategy {
        RetryStrategy::NoRetry => failures == 0,
        RetryStrategy::Count(n) => failures < n,
        RetryStrategy::UntilSuccess => true,
    }
}

impl Task {
    /// Reads the JSON out of the text a model generated after the prompt.
    pub fn read_generation(&self, prompt: &str, generated: &str) -> (r: Result<
        serde_json::Value,
        FinanalizeError,
    >)
        ensures
            read_json_outcome(self@.fix_strategies, extracted_json(prompt@ + generated@), r),
    {
        let mut full = String::from_str(prompt);
        full.append(generated);
        let json = match self.parse_output(full.as_str()) {
            Ok(json) => json,
            Err(e) => {
                return Err(e);
            },
        };
        self.deserialize_into_value(json)
    }

    /// Whether the task is tried again after `failures` failed attempts.
    pub fn should_attempt(&self, failures: usize) -> (b: bool)
        ensures
            b == attempt_allowed(self@.retry_strategy, failures as nat),
    {
        match self.retry_strategy {
            RetryStrategy::NoRetry => failures == 0,
            RetryStrategy::Count(n) => failures < n,
            RetryStrategy::UntilSuccess => true,
        }
    }

    /// Keeps the error of a failed attempt, except when the task is retried
    /// until it succeeds, where errors are only logged.
    pub fn record_failure(&self, errors: &mut Vec<FinanalizeError>, e: FinanalizeError)
        ensures
            self@.retry_strategy is UntilSuccess ==> final(errors)@ == old(errors)@,
            !(self@.retry_strategy is UntilSuccess) ==> final(errors)@ == old(errors)@.push(e),
    {
        match self.retry_strategy {
            RetryStrategy::UntilSuccess => {},
            _ => {
                errors.push(e);
            },
        }
    }

    /// The error a task gives up with: the only error when it is not retried,
    /// all the errors when it is retried a number of times.
    pub fn give_up(&self, errors: Vec<FinanalizeError>) -> (e: FinanalizeError)
        requires
            !(self@.retry_strategy is UntilSuccess),
            self@.retry_strategy is NoRetry ==> errors@.len() == 1,
        ensures
            self@.retry_strategy is NoRetry ==> e == errors@[0],
            self@.retry_strategy is Count ==> e == FinanalizeError::MultipleErrors(errors),
    {
        match self.retry_strategy {
            RetryStrategy::NoRetry => {
                let mut es = errors;
                let e = es.pop().unwrap();
                e
            },
            _ => FinanalizeError::MultipleErrors(errors),
        }
    }
}

/// How often a task is attempted while it fails: a task retried `n` times is
/// attempted exactly `n` times, a task not retried once, and a task retried
/// until it succeeds is always attempted again.
pub proof fn lemma_attempts(strategy: RetryStrategy, failures: nat)
    ensures
        strategy matches RetryStrategy::Count(n) ==> (attempt_allowed(strategy, failures) <==> failures
            < n),
        strategy is NoRetry ==> (attempt_allowed(strategy, failures) <==> failures == 0),
        strategy is UntilSuccess ==> attempt_allowed(strategy, failures),
{
}

/// The error of a failed attempt.
pub open spec fn error_of<T>(o: Result<T, FinanalizeError>) -> FinanalizeError {
    match o {
        Err(e) => e,
        Ok(_) => arbitrary(),
    }
}

/// The errors of the failed attempts, in order.
pub open spec fn errors_of<T>(os: Seq<Result<T, FinanalizeError>>) -> Seq<FinanalizeError> {
    os.map_values(|o: Result<T, FinanalizeError>| error_of(o))
}

impl Task {
    /// Runs the attempts of a task whose outcomes are `outcomes`, in order,
    /// as the task's retry strategy runs them. It gives the first success,
    /// with the number of attempts made, or the error the task gives up
    /// with: the only error without retries, and all `n` errors when it is
    /// retried `n` times. It gives nothing when the outcomes run out while
    /// the strategy would still try again.
    pub fn run_attempts<T>(&self, outcomes: Vec<Result<T, FinanalizeError>>) -> (r: Option<
        Result<(T, usize), FinanalizeError>,
    >)
        ensures
            r matches Some(Ok((v, a))) ==> {
                &&& 1 <= a <= outcomes@.len()
                &&& outcomes@[a - 1] == Ok::<T, FinanalizeError>(v)
                &&& forall|j: int| 0 <= j < a - 1 ==> (#[trigger] outcomes@[j]) is Err
                &&& attempt_allowed(self@.retry_strategy, (a - 1) as nat)
            },
            r matches Some(Err(e)) ==> {
                &&& !(self@.retry_strategy is UntilSuccess)
                &&& self@.retry_strategy is NoRetry ==> outcomes@.len() >= 1 && outcomes@[0]
                    == Err::<T, FinanalizeError>(e)
                &&& self@.retry_strategy matches RetryStrategy::Count(n) ==> {
                    &&& n <= outcomes@.len()
                    &&& forall|j: int| 0 <= j < n ==> (#[trigger] outcomes@[j]) is Err
                    &&& e matches FinanalizeError::MultipleErrors(es) && es@ == errors_of(
                        outcomes@.take(n as int),
                    )
                }
            },
            r is None ==> {
                &&& forall|j: int| 0 <= j < outcomes@.len() ==> (#[trigger] outcomes@[j]) is Err
                &&& attempt_allowed(self@.retry_strategy, outcomes@.len() as nat)
            },
    {
        let ghost all = outcomes@;
        let ghost strategy = self@.retry_strategy;
        assert(all.len() == outcomes.len());
        let mut rest = outcomes;
        let mut errors: Vec<FinanalizeError> = Vec::new();
        let mut failures: usize = 0;
        assert(all.skip(0) == all);
        loop
            invariant
                all == outcomes@,
                all.len() <= usize::MAX,
                strategy == self@.retry_strategy,
                failures <= all.len(),
                rest@ == all.skip(failures as int),
                forall|j: int| 0 <= j < failures ==> (#[trigger] all[j]) is Err,
                failures > 0 ==> attempt_allowed(strategy, (failures - 1) as nat),
                strategy is UntilSuccess ==> errors@.len() == 0,
                !(strategy is UntilSuccess) ==> errors@ == errors_of(all.take(failures as int)),
            decreases all.len() - failures,
        {
            if !self.should_attempt(failures) {
                proof {
                    if strategy is NoRetry {
                        assert(failures == 1);
                        assert(errors@.len() == 1);
                        assert(errors@[0] == error_of(all[0]));
                    }
                }
                let e = self.give_up(errors);
                proof {
                    if strategy is NoRetry {
                        assert(all[0] == Err::<T, FinanalizeError>(e));
                    }
                }
                return Some(Err(e));
            }
            if rest.len() == 0 {
                assert(failures == all.len());
                return None;
            }
            assert(failures < all.len());
            let o = rest.remove(0);
            assert(o == all[failures as int]);
            match o {
                Ok(v) => {
                    return Some(Ok((v, failures + 1)));
                },
                Err(e) => {
                    let ghost before = errors@;
                    self.record_failure(&mut errors, e);
                    proof {
                        if !(strategy is UntilSuccess) {
                            assert(all.take(failures + 1) =~= all.take(failures as int).push(all[failures as int]));
                            assert(errors_of(all.take(failures + 1)) =~= errors_of(all.take(failures as int)).push(e));
                        }
                    }
                },
            }
            assert(rest@ =~= all.skip(failures + 1));
            failures = failures + 1;
        }
    }
}

/// Lines none of which begins with the marker are passed over in the search
/// for it.
proof fn lemma_after_marker_skips(x: Seq<Seq<char>>, y: Seq<Seq<char>>, marker: Seq<char>)
    requires
        forall|i: int| 0 <= i < x.len() ==> !marker.is_prefix_of(#[trigger] x[i]),
    ensures
        after_marker(x + y, marker) == after_marker(y, marker),
    decreases x.len(),
{
    if x.len() == 0 {
        assert(x + y =~= y);
    } else {
        assert((x + y)[0] == x[0]);
        assert((x + y).drop_first() =~= x.drop_first() + y);
        assert forall|i: int| 0 <= i < x.drop_first().len() implies !marker.is_prefix_of(
            #[trigger] x.drop_first()[i],
        ) by {
            assert(x.drop_first()[i] == x[i + 1]);
        }
        lemma_after_marker_skips(x.drop_first(), y, marker);
    }
}

/// Everything before the first line that begins with `<Output>` is ignored:
/// when no line of `p` begins with it, the JSON cut out of `p`, a line feed
/// and `s` is the JSON cut out of `s`.
pub proof fn lemma_parse_output_ignores_prefix(p: Seq<char>, s: Seq<char>)
    requires
        forall|i: int| 0 <= i < lines(p).len() ==> !"<Output>"@.is_prefix_of(#[trigger] lines(p)[i]),
    ensures
        extracted_json(p + "\n"@ + s) == extracted_json(s),
{
    reveal_strlit("\n");
    reveal_strlit("<Output>");
    let m = "<Output>"@;
    crate::text::lemma_lines_concat(p, s);
    crate::text::lemma_split_newlines_nonempty(p);
    let x = crate::text::split_newlines(p);
    let xm = x.map_values(|l: Seq<char>| crate::text::strip_cr(l));
    let n = x.len() - 1;
    assert forall|i: int| 0 <= i < xm.len() implies !m.is_prefix_of(#[trigger] xm[i]) by {
        if i < n {
            assert(lines(p)[i] == xm[i]);
        } else {
            let last = x[n];
            if last.len() != 0 {
                assert(lines(p)[n] == last);
                if m.is_prefix_of(xm[i]) {
                    assert(xm[i] == crate::text::strip_cr(last));
                    assert(m.is_prefix_of(last)) by {
                        assert(xm[i].len() <= last.len());
                        assert(forall|k: int| 0 <= k < xm[i].len() ==> xm[i][k] == last[k]);
                        assert(last.subrange(0, m.len() as int) =~= xm[i].subrange(0, m.len() as int));
                    }
                }
            }
        }
    }
    lemma_after_marker_skips(xm, lines(s), m);
    assert(p + "\n"@ + s =~= p + seq!['\n'] + s);
}

/// The JSON cut out of an answer has no white space at either end: trimming
/// it again changes nothing.
pub proof fn lemma_parse_output_trimmed(output: Seq<char>)
    ensures
        trim(extracted_json(output)) == extracted_json(output),
{
    let body = join(after_marker(lines(output), "<Output>"@), "\n"@);
    crate::text::lemma_trim_idempotent(
        remove_all(
            remove_all(remove_all(remove_all(body, "```json"@), "```"@), "<Output>"@),
            "</Output>"@,
        ),
    );
}

} // verus!
