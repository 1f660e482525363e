//! Pricing data and cost estimation for analysis runs.
//!
//! A pricing table keyed by OpenRouter / Mistral model slug, and an estimator that takes prompt
//! and completion token counts and returns USD cents. The token counts come from
//! `pipeline::estimate_tokens`: accurate enough for display.
//!
//! Prices reflect the public rate cards as of 2026-05. New models are appended to the table.
//!
//! Known gap: the table lacks four models of one more vendor that OpenRouter prices. Their slugs
//! get no estimate; with their rates at hand, `cost_cents` gives one.
use vstd::prelude::*;

use crate::number;
use crate::text;

verus! {

/// The rates of a model, prompt and completion apart, in hundred-thousandths of a USD per 1000
/// tokens.
#[derive(Debug, Clone, Copy)]
pub struct Pricing {
    pub model: &'static str,
    /// For 1000 input tokens.
    pub prompt_per_1k: u64,
    /// For 1000 output tokens.
    pub completion_per_1k: u64,
}

#[verifier::ext_equal]
pub struct PricingModel {
    pub model: Seq<char>,
    pub prompt_per_1k: u64,
    pub completion_per_1k: u64,
}

impl DeepView for Pricing {
    type V = PricingModel;

    open spec fn deep_view(&self) -> PricingModel {
        PricingModel {
            model: self.model@,
            prompt_per_1k: self.prompt_per_1k,
            completion_per_1k: self.completion_per_1k,
        }
    }
}

pub open spec fn row(model: Seq<char>, prompt: u64, completion: u64) -> PricingModel {
    PricingModel { model, prompt_per_1k: prompt, completion_per_1k: completion }
}

/// The known models. The slugs are OpenRouter's canonical ids.
pub open spec fn price_table() -> Seq<PricingModel> {
    seq![
        row("mistralai/mistral-7b-instruct"@, 7, 7),
        row("mistralai/mistral-small"@, 20, 60),
        row("mistralai/mistral-large"@, 300, 900),
        row("mistralai/mixtral-8x7b-instruct"@, 24, 24),
        row("mistralai/mixtral-8x22b-instruct"@, 120, 120),
        row("openai/gpt-4o-mini"@, 15, 60),
        row("openai/gpt-4o"@, 250, 1000),
    ]
}

/// The first row of `table` for `model`.
pub open spec fn row_for(table: Seq<PricingModel>, model: Seq<char>) -> Option<PricingModel>
    decreases table.len(),
{
    if table.len() == 0 {
        None
    } else if table[0].model == model {
        Some(table[0])
    } else {
        row_for(table.drop_first(), model)
    }
}

/// The known models with their rates.
pub fn pricing_table() -> (r: Vec<Pricing>)
    ensures
        r.deep_view() == price_table(),
{
    let r = vec![
        Pricing { model: "mistralai/mistral-7b-instruct", prompt_per_1k: 7, completion_per_1k: 7 },
        Pricing { model: "mistralai/mistral-small", prompt_per_1k: 20, completion_per_1k: 60 },
        Pricing { model: "mistralai/mistral-large", prompt_per_1k: 300, completion_per_1k: 900 },
        Pricing { model: "mistralai/mixtral-8x7b-instruct", prompt_per_1k: 24, completion_per_1k: 24 },
        Pricing { model: "mistralai/mixtral-8x22b-instruct", prompt_per_1k: 120, completion_per_1k: 120 },
        Pricing { model: "openai/gpt-4o-mini", prompt_per_1k: 15, completion_per_1k: 60 },
        Pricing { model: "openai/gpt-4o", prompt_per_1k: 250, completion_per_1k: 1000 },
    ];
    assert(r.deep_view() == price_table());
    r
}

/// Look up pricing for a model slug, returning `None` for models that the table does not list
/// (consumers fall back to a heuristic or refuse to estimate).
pub fn pricing_for(model: &str) -> (r: Option<Pricing>)
    ensures
        r.deep_view() == row_for(price_table(), model@),
        r matches Some(p) ==> p.prompt_per_1k <= 300 && p.completion_per_1k <= 1000,
{
    let table = pricing_table();
    let ghost rows = table.deep_view();
    assert(rows.skip(0) == rows);
    let mut i: usize = 0;
    while i < table.len()
        invariant
            i <= table.len(),
            rows == table.deep_view(),
            rows == price_table(),
            row_for(rows, model@) == row_for(rows.skip(i as int), model@),
        decreases table.len() - i,
    {
        assert(rows[i as int] == table[i as int].deep_view());
        assert(rows.skip(i as int)[0] == rows[i as int]);
        assert(rows.skip(i as int).drop_first() == rows.skip(i + 1));
        if text::same_str(table[i].model, model) {
            return Some(table[i]);
        }
        i = i + 1;
    }
    None
}

/// The cost in cents of a prompt and a completion at the rates of `p`, rounded half-up.
pub open spec fn cost_of(p: PricingModel, prompt_tokens: nat, completion_tokens: nat) -> nat {
    ((prompt_tokens * p.prompt_per_1k + completion_tokens * p.completion_per_1k + 500_000)
        / 1_000_000) as nat
}

/// The cost in cents at the rates of `p`, where it fits in 64 bits.
pub fn cost_cents(p: Pricing, prompt_tokens: usize, completion_tokens: usize) -> (r: u64)
    requires
        cost_of(p.deep_view(), prompt_tokens as nat, completion_tokens as nat) <= u64::MAX,
    ensures
        r == cost_of(p.deep_view(), prompt_tokens as nat, completion_tokens as nat),
{
    let a: u128 = prompt_tokens as u128;
    let b: u128 = completion_tokens as u128;
    let x: u128 = p.prompt_per_1k as u128;
    let y: u128 = p.completion_per_1k as u128;
    assert(0 <= a * x && 0 <= b * y) by (nonlinear_arith);
    let cents: u128 = (a * x + b * y + 500_000) / 1_000_000;
    cents as u64
}

/// The cost in cents of a prompt and a completion of a model, if the table lists the model.
pub open spec fn estimate_of(model: Seq<char>, prompt_tokens: nat, completion_tokens: nat) -> Option<
    nat,
> {
    match row_for(price_table(), model) {
        Some(p) => Some(cost_of(p, prompt_tokens, completion_tokens)),
        None => None,
    }
}

/// Estimate cost in **cents** (`u64` for integer-only arithmetic in downstream UI). Rounds
/// half-up.
pub fn estimate_cost_cents(model: &str, prompt_tokens: usize, completion_tokens: usize) -> (r:
    Option<u64>)
    ensures
        match row_for(price_table(), model@) {
            Some(p) => r matches Some(cents) && cents == cost_of(
                p,
                prompt_tokens as nat,
                completion_tokens as nat,
            ),
            None => r is None,
        },
        match (r, estimate_of(model@, prompt_tokens as nat, completion_tokens as nat)) {
            (Some(cents), Some(n)) => cents == n,
            (None, None) => true,
            _ => false,
        },
{
    match pricing_for(model) {
        Some(p) => {
            let ghost a = prompt_tokens as int;
            let ghost b = completion_tokens as int;
            let ghost x = p.prompt_per_1k as int;
            let ghost y = p.completion_per_1k as int;
            assert(a * x <= 0xffff_ffff_ffff_ffff * 300 && b * y <= 0xffff_ffff_ffff_ffff * 1000)
                by (nonlinear_arith)
                requires
                    0 <= a <= 0xffff_ffff_ffff_ffff,
                    0 <= b <= 0xffff_ffff_ffff_ffff,
                    0 <= x <= 300,
                    0 <= y <= 1000,
            ;
            Some(cost_cents(p, prompt_tokens, completion_tokens))
        },
        None => None,
    }
}

/// A cent value in dollars: the dollars, a point, two digits of cents.
pub open spec fn cents_text(cents: nat) -> Seq<char> {
    "$"@ + number::decimal_of(cents / 100) + "."@ + number::two_digits_of(cents % 100)
}

/// Format a cent value as "$0.08" / "$1.23".
pub fn format_cents(cents: u64) -> (r: String)
    ensures
        r@ == cents_text(cents as nat),
{
    let dollars = number::decimal(cents / 100);
    let mut out = text::cat3("$", dollars.as_str(), ".");
    let rest = number::two_digits(cents % 100);
    out.append(rest.as_str());
    out
}

/// More tokens never cost less.
pub proof fn law_cost_monotone(p: PricingModel, a: nat, b: nat, x: nat, y: nat)
    requires
        a <= x,
        b <= y,
    ensures
        cost_of(p, a, b) <= cost_of(p, x, y),
{
    assert(a * p.prompt_per_1k <= x * p.prompt_per_1k) by (nonlinear_arith)
        requires
            a <= x,
    ;
    assert(b * p.completion_per_1k <= y * p.completion_per_1k) by (nonlinear_arith)
        requires
            b <= y,
    ;
}

/// The cost is the exact one to the nearest cent, half a cent up: the prompt's tokens at its rate
/// and the completion's at its own, in hundred-thousandths of a dollar for a thousand tokens.
pub proof fn law_cost_to_the_cent(p: PricingModel, prompt_tokens: nat, completion_tokens: nat)
    ensures
        ({
            let exact = prompt_tokens * p.prompt_per_1k + completion_tokens * p.completion_per_1k;
            let cents = cost_of(p, prompt_tokens, completion_tokens);
            &&& 1_000_000 * cents <= exact + 500_000
            &&& exact + 500_000 < 1_000_000 * cents + 1_000_000
        }),
{
    assert(prompt_tokens * p.prompt_per_1k >= 0 && completion_tokens * p.completion_per_1k >= 0)
        by (nonlinear_arith);
}

/// A row is found by its model, the first with it; none is found exactly where there is none.
pub proof fn law_row_found(table: Seq<PricingModel>, model: Seq<char>)
    ensures
        match row_for(table, model) {
            Some(p) => p.model == model && exists|i: int|
                0 <= i < table.len() && #[trigger] table[i] == p && (forall|j: int|
                    0 <= j < i ==> (#[trigger] table[j]).model != model),
            None => forall|i: int| 0 <= i < table.len() ==> (#[trigger] table[i]).model != model,
        },
    decreases table.len(),
{
    if table.len() > 0 && table[0].model != model {
        let t = table.drop_first();
        law_row_found(t, model);
        match row_for(t, model) {
            Some(p) => {
                let i = choose|i: int|
                    0 <= i < t.len() && #[trigger] t[i] == p && (forall|j: int|
                        0 <= j < i ==> (#[trigger] t[j]).model != model);
                assert(table[i + 1] == p);
                assert forall|j: int| 0 <= j < i + 1 implies (#[trigger] table[j]).model
                    != model by {
                    if j > 0 {
                        assert(t[j - 1] == table[j]);
                    }
                }
            },
            None => {
                assert forall|i: int| 0 <= i < table.len() implies (#[trigger] table[i]).model
                    != model by {
                    if i > 0 {
                        assert(t[i - 1] == table[i]);
                    }
                }
            },
        }
    }
}

/// Cents are shown as dollars with a point before the last two digits: what is shown stands for the
/// amount.
pub proof fn law_cents_shown(cents: nat)
    ensures
        exists|dollars: Seq<char>, rest: Seq<char>|
            {
                &&& cents_text(cents) == #[trigger] ("$"@ + dollars + "."@ + rest)
                &&& rest.len() == 2
                &&& number::value_of(rest) < 100
                &&& 100 * number::value_of(dollars) + number::value_of(rest) == cents
            },
{
    number::law_decimal(cents / 100);
    number::law_two_digits(cents % 100);
    let dollars = number::decimal_of(cents / 100);
    let rest = number::two_digits_of(cents % 100);
    assert(cents_text(cents) == "$"@ + dollars + "."@ + rest);
}

/// Every model of the table is found under its slug with its own rates, no two rows sharing one, and
/// an answer never costs less than a question of the same length.
pub proof fn law_table(i: int)
    requires
        0 <= i < price_table().len(),
    ensures
        row_for(price_table(), price_table()[i].model) == Some(price_table()[i]),
        0 < price_table()[i].prompt_per_1k <= price_table()[i].completion_per_1k,
{
    let t = price_table();
    reveal_strlit("mistralai/mistral-7b-instruct");
    reveal_strlit("mistralai/mistral-small");
    reveal_strlit("mistralai/mistral-large");
    reveal_strlit("mistralai/mixtral-8x7b-instruct");
    reveal_strlit("mistralai/mixtral-8x22b-instruct");
    reveal_strlit("openai/gpt-4o-mini");
    reveal_strlit("openai/gpt-4o");
    assert(t[0].model.len() == 29 && t[1].model.len() == 23 && t[2].model.len() == 23);
    assert(t[3].model.len() == 31 && t[4].model.len() == 32);
    assert(t[5].model.len() == 18 && t[6].model.len() == 13);
    assert(t[1].model[18] == 's' && t[2].model[18] == 'l');
    law_row_found(t, t[i].model);
    let p = row_for(t, t[i].model);
    if p is None {
        assert(t[i].model != t[i].model);
    } else {
        let j = choose|j: int| 0 <= j < t.len() && #[trigger] t[j] == p->0;
        assert(t[j].model == t[i].model);
        assert(j == i);
    }
}

/// An estimate is owed exactly for the models of the table, and is to the nearest cent what the
/// tokens cost at the rates of that model's own row: the prompt's at the rate for prompts, the
/// completion's at the rate for completions.
pub proof fn law_estimate(model: Seq<char>, prompt_tokens: nat, completion_tokens: nat, i: int)
    requires
        0 <= i < price_table().len(),
    ensures
        price_table()[i].model == model ==> (estimate_of(model, prompt_tokens, completion_tokens)
            matches Some(cents) && {
            let exact = prompt_tokens * price_table()[i].prompt_per_1k + completion_tokens
                * price_table()[i].completion_per_1k;
            &&& 1_000_000 * cents <= exact + 500_000
            &&& exact + 500_000 < 1_000_000 * cents + 1_000_000
        }),
        (forall|j: int| 0 <= j < price_table().len() ==> (#[trigger] price_table()[j]).model != model)
            ==> estimate_of(model, prompt_tokens, completion_tokens) is None,
{
    law_table(i);
    law_cost_to_the_cent(price_table()[i], prompt_tokens, completion_tokens);
    law_row_found(price_table(), model);
}

} // verus!
