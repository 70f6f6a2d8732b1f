use piotr::bot::window::{token_limit, window_plan, WindowPlan};
use piotr::bot::SessionManager;
use piotr::single::{
    ceiling_capped, divide, floor_capped, from_integer, multiply, Single,
};

// A simple generator of numbers that look random.
fn next(seed: &mut u64) -> u64 {
    *seed ^= *seed << 13;
    *seed ^= *seed >> 7;
    *seed ^= *seed << 17;
    *seed
}

fn float_of(x: Single) -> f32 {
    (x.mantissa as f64 * (x.exponent as f64).exp2()) as f32
}

#[test]
fn conversions_agree_with_hardware() {
    let mut seed = 42;
    for i in 0..20_000u64 {
        let n = (next(&mut seed) >> (i % 64)).max(1);
        assert_eq!(float_of(from_integer(n)), n as f32);
    }
    for n in [1, 2, 3, 0xff_ffff, 0x100_0000, 0x100_0001, 0x100_0003, u64::MAX] {
        assert_eq!(float_of(from_integer(n)), n as f32);
    }
}

#[test]
fn operations_agree_with_hardware() {
    let mut seed = 7;
    for i in 0..20_000u64 {
        let a = (next(&mut seed) >> (i % 63)).max(1);
        let b = (next(&mut seed) >> ((i / 63) % 63)).max(1);
        let (x, y) = (from_integer(a), from_integer(b));
        assert_eq!(float_of(divide(x, y)), a as f32 / b as f32);
        assert_eq!(float_of(multiply(x, y)), a as f32 * b as f32);
        let q = divide(x, y);
        assert_eq!(ceiling_capped(q, u64::MAX), (a as f32 / b as f32).ceil() as u64);
        assert_eq!(floor_capped(q, u64::MAX), (a as f32 / b as f32).floor() as u64);
        assert_eq!(ceiling_capped(q, 5), ((a as f32 / b as f32).ceil() as u64).min(5));
    }
}

fn limit_by_hardware(max_tokens: i32) -> i32 {
    (max_tokens as f32 * 0.95) as i32
}

fn amount_by_hardware(current_len: usize, current_tokens: i32, token_limit: i32) -> usize {
    if current_tokens <= token_limit {
        return 0;
    }
    let excess_tokens = (current_tokens - token_limit) as f32;
    let avg_tokens_per_msg = current_tokens as f32 / current_len as f32;
    let mut to_remove_estimate = (excess_tokens / avg_tokens_per_msg).ceil() as usize;
    if to_remove_estimate == 0 {
        to_remove_estimate = 4;
    }
    to_remove_estimate.min(current_len)
}

#[test]
fn limits_agree_with_hardware() {
    assert_eq!(token_limit(1_000_000), 950_000);
    for n in [0, 1, -1, 20, -20, i32::MAX, i32::MIN, i32::MIN + 1, 16_777_217] {
        assert_eq!(token_limit(n), limit_by_hardware(n));
    }
    let mut seed = 99;
    for i in 0..20_000u64 {
        let n = (next(&mut seed) >> (i % 64)) as i32;
        assert_eq!(token_limit(n), limit_by_hardware(n));
    }
}

#[test]
fn amounts_agree_with_hardware() {
    let mut seed = 3;
    for i in 0..20_000u64 {
        let len = (next(&mut seed) >> (i % 64)) as usize;
        let tokens = (next(&mut seed) >> ((i / 7) % 64)) as i32;
        let limit = (next(&mut seed) >> ((i / 11) % 64)) as i32;
        if tokens as i64 - limit as i64 > i32::MAX as i64 {
            continue;
        }
        assert_eq!(
            SessionManager::calculate_prune_amount(len, tokens, limit),
            amount_by_hardware(len, tokens, limit)
        );
    }
    for (len, tokens, limit) in [(0, 5, 1), (0, 0, -1), (7, 0, -1), (9, -3, -5), (2, -3, -5)] {
        assert_eq!(
            SessionManager::calculate_prune_amount(len, tokens, limit),
            amount_by_hardware(len, tokens, limit)
        );
    }
}

#[test]
fn test_calculate_prune_amount() {
    // Base case: 1000 tokens limit, currently at 1200 tokens across 60 messages
    // Avg tokens per msg = 20. Excess = 200. Should remove exactly 10.
    assert_eq!(SessionManager::calculate_prune_amount(60, 1200, 1000), 10);

    // Case: ceiling rounds up correctly.
    // 1000 limit, 1050 tokens, 30 msgs
    // Avg tokens per msg = 35. Excess = 50. 50/35 = 1.42. Should prune 2.
    assert_eq!(SessionManager::calculate_prune_amount(30, 1050, 1000), 2);

    // Case: No pruning needed
    assert_eq!(SessionManager::calculate_prune_amount(50, 900, 1000), 0);
    assert_eq!(SessionManager::calculate_prune_amount(50, 1000, 1000), 0);

    // Case: 1000 limit, 1001 tokens, 100 msgs. Avg = 10.01 per msg. Excess = 1. 1/10.01 = 0.099 -> ceil() -> 1.
    assert_eq!(SessionManager::calculate_prune_amount(100, 1001, 1000), 1);

    // Case: Pruning exactly what's needed for the limit
    assert_eq!(SessionManager::calculate_prune_amount(5, 5000, 1000), 4);
}

#[test]
fn windows_are_kept_pruned_or_cleared() {
    assert_eq!(window_plan(40, 950_000, 1_000_000), WindowPlan::Keep);
    assert_eq!(window_plan(40, 1_000_000, 1_000_000), WindowPlan::Prune(2));
    assert_eq!(window_plan(40, 10, 0), WindowPlan::Clear);
    assert_eq!(window_plan(0, 10, 0), WindowPlan::Clear);
    assert_eq!(window_plan(40, -1, 0), WindowPlan::Keep);
}
