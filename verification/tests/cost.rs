use strivo_plugins::crunchr::cost::{
    cost_cents, estimate_cost_cents, format_cents, pricing_for, pricing_table, Pricing,
};

#[test]
fn pricing_lookup_known_model() {
    let p = pricing_for("mistralai/mistral-7b-instruct").unwrap();
    assert!(p.prompt_per_1k > 0);
}

#[test]
fn pricing_lookup_unknown() {
    assert!(pricing_for("not/a-model").is_none());
}

#[test]
fn cost_estimate_round_trip() {
    // mistral-large at 1k prompt + 1k completion = $0.003 + $0.009 = $0.012 = 1.2 cents
    let cents = estimate_cost_cents("mistralai/mistral-large", 1000, 1000).unwrap();
    // Half-up rounding: 1.2 cents rounds to 1.
    assert_eq!(cents, 1);
}

#[test]
fn format_cents_shape() {
    assert_eq!(format_cents(8), "$0.08");
    assert_eq!(format_cents(100), "$1.00");
    assert_eq!(format_cents(1234), "$12.34");
}

#[test]
fn cost_at_given_rates() {
    // 100 * $0.00025 + 50 * $0.00125 = $0.025 + $0.0625 = $0.0875 = 9 cents
    let p = Pricing { model: "some/model", prompt_per_1k: 25, completion_per_1k: 125 };
    assert_eq!(cost_cents(p, 100_000, 50_000), 9);
    assert_eq!(cost_cents(p, 0, 0), 0);
}

#[test]
fn cost_rounds_half_up() {
    // mistral-large: 500 completion tokens and 1 half cent.
    assert_eq!(estimate_cost_cents("mistralai/mistral-large", 1666, 0), Some(0));
    assert_eq!(estimate_cost_cents("mistralai/mistral-large", 1667, 0), Some(1));
    assert_eq!(estimate_cost_cents("openai/gpt-4o", 2000, 0), Some(1));
    assert_eq!(estimate_cost_cents("openai/gpt-4o", 1999, 0), Some(0));
    assert_eq!(estimate_cost_cents("not/a-model", 1, 1), None);
}

#[test]
fn cost_of_the_largest_workload_fits() {
    let cents = estimate_cost_cents("mistralai/mistral-large", usize::MAX, usize::MAX);
    assert_eq!(cents, Some(22_136_092_888_451_462));
}

#[test]
fn cost_grows_with_tokens() {
    let mut last = 0;
    for n in 0..1000usize {
        let now = estimate_cost_cents("mistralai/mistral-large", n * 10, n * 3).unwrap();
        assert!(now >= last);
        last = now;
    }
}

#[test]
fn every_model_is_found_under_its_name() {
    let table = pricing_table();
    assert_eq!(table.len(), 7);
    for row in &table {
        let found = pricing_for(row.model).unwrap();
        assert_eq!(found.prompt_per_1k, row.prompt_per_1k);
        assert_eq!(found.completion_per_1k, row.completion_per_1k);
    }
    assert_eq!(pricing_for("openai/gpt-4o-mini").unwrap().completion_per_1k, 60);
}
