//! How long the history of a conversation may become.
use vstd::arithmetic::power2::{lemma2_to64, lemma_pow2_adds, lemma_pow2_pos, pow2};
use vstd::prelude::*;

use crate::bot::SessionManager;
use crate::single::{
    ceiling, ceiling_capped, ceiling_is_positive, divide, floor, floor_capped,
    floor_is_not_negative, from_integer, is_near, is_normal, multiply, product, products_are_near,
    quotient, quotient_is_normal, quotients_are_near, scaled, single_of, single_of_is_normal,
    the_ceiling_is_just_above, the_floor_is_just_below, whole_numbers_are_near, Single, HIGH,
    SCALE,
};
use crate::state_manager::least;

verus! {

/// A history with fewer messages is never cut.
pub const MIN_PRUNED_LEN: usize = 30;

/// Tokens that a model takes in where it does not say otherwise.
pub const DEFAULT_MAX_INPUT_TOKENS: i32 = 1_000_000;

/// The mantissa of the single nearest to 0.95.
pub const USABLE_MANTISSA: u64 = 15_938_355;

/// The exponent of the single nearest to 0.95.
pub const USABLE_EXPONENT: i64 = -24;

/// The share of the input limit of a model that a history may fill.
pub open spec fn usable_share() -> Single {
    Single { mantissa: USABLE_MANTISSA, exponent: USABLE_EXPONENT }
}

/// The tokens that a history may have where the model takes `max_tokens`, as
/// single precision gives it.
pub open spec fn limit_of(max_tokens: int) -> int {
    if max_tokens > 0 {
        least(floor(product(single_of(max_tokens), usable_share())), i32::MAX as int)
    } else if max_tokens == 0 {
        0
    } else {
        -least(floor(product(single_of(-max_tokens), usable_share())), i32::MAX as int)
    }
}

/// Computes how many tokens a history may have.
pub fn token_limit(max_tokens: i32) -> (r: i32)
    ensures
        r == limit_of(max_tokens as int),
{
    if max_tokens == 0 {
        return 0;
    }
    let size: u64 = if max_tokens > 0 {
        max_tokens as u64
    } else {
        (-(max_tokens as i64)) as u64
    };
    let usable = Single { mantissa: USABLE_MANTISSA, exponent: USABLE_EXPONENT };
    let share = floor_capped(multiply(from_integer(size), usable), i32::MAX as u64);
    if max_tokens > 0 {
        share as i32
    } else {
        -(share as i32)
    }
}

/// How many of `len` messages go where they have `tokens` tokens and may have
/// `limit`: the excess divided by the average of a message, in single precision
/// and rounded up.
pub open spec fn prune_amount(len: int, tokens: int, limit: int) -> int {
    if tokens <= limit || len == 0 {
        0
    } else if tokens > 0 {
        least(
            ceiling(
                quotient(single_of(tokens - limit), quotient(single_of(tokens), single_of(len))),
            ),
            len,
        )
    } else if tokens == 0 {
        len
    } else {
        least(4, len)
    }
}

/// What becomes of a history.
#[derive(Debug, Clone, Copy, PartialEq, Eq, Structural)]
pub enum WindowPlan {
    /// It stays.
    Keep,
    /// So many of its oldest messages go.
    Prune(usize),
    /// It goes.
    Clear,
}

/// What becomes of a history of `len` messages and `tokens` tokens where the
/// model takes `max_tokens`.
pub open spec fn planned(len: int, tokens: int, max_tokens: int) -> WindowPlan {
    let limit = limit_of(max_tokens);
    if tokens <= limit {
        WindowPlan::Keep
    } else if len > prune_amount(len, tokens, limit) {
        WindowPlan::Prune(prune_amount(len, tokens, limit) as usize)
    } else {
        WindowPlan::Clear
    }
}

impl SessionManager {
    /// Computes how many messages of a history go.
    pub fn calculate_prune_amount(current_len: usize, current_tokens: i32, token_limit: i32) -> (r:
        usize)
        requires
            current_tokens - token_limit <= i32::MAX,
        ensures
            r == prune_amount(current_len as int, current_tokens as int, token_limit as int),
            r <= current_len,
    {
        if current_tokens <= token_limit || current_len == 0 {
            return 0;
        }
        if current_tokens > 0 {
            let excess = from_integer((current_tokens as i64 - token_limit as i64) as u64);
            let average = divide(from_integer(current_tokens as u64), from_integer(current_len as u64));
            ceiling_capped(divide(excess, average), current_len as u64) as usize
        } else if current_tokens == 0 {
            current_len
        } else if current_len < 4 {
            current_len
        } else {
            4
        }
    }
}

/// Decides what becomes of a history.
pub fn window_plan(current_len: usize, count: i32, max_tokens: i32) -> (r: WindowPlan)
    requires
        count - limit_of(max_tokens as int) <= i32::MAX,
    ensures
        r == planned(current_len as int, count as int, max_tokens as int),
{
    let limit = token_limit(max_tokens);
    if count <= limit {
        return WindowPlan::Keep;
    }
    let to_remove = SessionManager::calculate_prune_amount(current_len, count, limit);
    if current_len > to_remove {
        WindowPlan::Prune(to_remove)
    } else {
        WindowPlan::Clear
    }
}

/// Where a model takes any tokens, a history may have some.
pub proof fn limits_are_not_negative(max_tokens: int)
    requires
        max_tokens >= 0,
    ensures
        limit_of(max_tokens) >= 0,
{
    floor_is_not_negative(product(single_of(max_tokens), usable_share()));
}

/// Where a history is too long, at least one message goes, and never more than
/// there are.
pub proof fn pruning_is_bounded(len: int, tokens: int, limit: int)
    requires
        0 < len <= u64::MAX,
        limit < tokens <= u64::MAX,
        tokens - limit <= u64::MAX,
    ensures
        1 <= prune_amount(len, tokens, limit) <= len,
{
    if tokens > 0 {
        single_of_is_normal(tokens);
        single_of_is_normal(len);
        single_of_is_normal(tokens - limit);
        quotient_is_normal(single_of(tokens), single_of(len));
        let average = quotient(single_of(tokens), single_of(len));
        quotient_is_normal(single_of(tokens - limit), average);
        ceiling_is_positive(quotient(single_of(tokens - limit), average));
    }
}

/// A history that is not too long is kept.
pub proof fn short_histories_are_kept(len: int, tokens: int, max_tokens: int)
    requires
        tokens <= limit_of(max_tokens),
    ensures
        planned(len, tokens, max_tokens) == WindowPlan::Keep,
        prune_amount(len, tokens, limit_of(max_tokens)) == 0,
{
}

/// The quotient of the excess and the average, both rounded, is the excess times
/// the messages divided by the tokens, to one part in a million.
proof fn lemma_share_is_near(
    excess: int,
    tokens: int,
    len: int,
    w: int,
    e: int,
    t: int,
    l: int,
    average: int,
    share: int,
)
    requires
        excess > 0,
        tokens > 0,
        len > 0,
        w > 0,
        e > 0,
        t > 0,
        l > 0,
        average > 0,
        share > 0,
        is_near(e, excess * w),
        is_near(t, tokens * w),
        is_near(l, len * w),
        is_near(average * l, t * w),
        is_near(share * average, e * w),
    ensures
        share * tokens * 1_000_000 <= excess * len * w * 1_000_001,
        share * tokens * 1_000_000 >= excess * len * w * 999_999,
{
    let up: int = HIGH + 1;
    let down: int = HIGH - 1;
    let h: int = HIGH as int;
    // The share and the average.
    assert(share * t * down <= e * l * up && share * t * up >= e * l * down) by {
        let left = share * average * l;
        assert(left * h <= e * l * w * up && left * h >= e * l * w * down) by (nonlinear_arith)
            requires
                left == share * average * l,
                (share * average - e * w) * h <= e * w,
                (e * w - share * average) * h <= e * w,
                up == h + 1,
                down == h - 1,
                l > 0,
        ;
        assert(left * h <= share * t * w * up && left * h >= share * t * w * down)
            by (nonlinear_arith)
            requires
                left == share * average * l,
                (average * l - t * w) * h <= t * w,
                (t * w - average * l) * h <= t * w,
                up == h + 1,
                down == h - 1,
                share > 0,
        ;
        assert(share * t * down <= e * l * up) by (nonlinear_arith)
            requires
                share * t * w * down <= e * l * w * up,
                w > 0,
        ;
        assert(share * t * up >= e * l * down) by (nonlinear_arith)
            requires
                share * t * w * up >= e * l * w * down,
                w > 0,
        ;
    }
    // The tokens.
    let x = share * tokens;
    assert(share * t * h <= x * w * up && share * t * h >= x * w * down) by (nonlinear_arith)
        requires
            x == share * tokens,
            (t - tokens * w) * h <= tokens * w,
            (tokens * w - t) * h <= tokens * w,
            up == h + 1,
            down == h - 1,
            share > 0,
    ;
    // The excess and the messages.
    let y = excess * len * w;
    let eh = e * h;
    let lh = l * h;
    let ew = excess * w;
    let lw = len * w;
    assert(ew * down <= eh <= ew * up && lw * down <= lh <= lw * up) by (nonlinear_arith)
        requires
            eh == e * h,
            lh == l * h,
            (e - ew) * h <= ew,
            (ew - e) * h <= ew,
            (l - lw) * h <= lw,
            (lw - l) * h <= lw,
            up == h + 1,
            down == h - 1,
    ;
    assert(ew > 0 && lw > 0 && eh > 0 && lh > 0) by (nonlinear_arith)
        requires
            ew == excess * w,
            lw == len * w,
            eh == e * h,
            lh == l * h,
            excess > 0,
            len > 0,
            w > 0,
            e > 0,
            l > 0,
            h > 0,
    ;
    assert(eh * lh <= (ew * up) * (lw * up)) by (nonlinear_arith)
        requires
            0 < eh <= ew * up,
            0 < lh <= lw * up,
    ;
    assert(eh * lh >= (ew * down) * (lw * down)) by (nonlinear_arith)
        requires
            0 <= ew * down <= eh,
            0 <= lw * down <= lh,
    ;
    assert((ew * up) * (lw * up) == (ew * lw) * (up * up)) by (nonlinear_arith);
    assert((ew * down) * (lw * down) == (ew * lw) * (down * down)) by (nonlinear_arith);
    assert((excess * w) * (len * w) == excess * len * w * w) by (nonlinear_arith);
    assert(ew * lw == y * w);
    // Together.
    let st = share * t;
    let el = e * l;
    assert(eh * lh == el * (h * h)) by (nonlinear_arith)
        requires
            eh == e * h,
            lh == l * h,
            el == e * l,
    ;
    assert(x * w * (down * down * h) <= y * w * (up * up * up)) by {
        assert(x * w * (down * down * h) <= st * h * (down * h)) by (nonlinear_arith)
            requires
                x * w * down <= st * h,
                down * h >= 0,
        ;
        assert(st * h * (down * h) <= el * (h * h) * up) by (nonlinear_arith)
            requires
                st * down <= el * up,
                h > 0,
        ;
        assert(el * (h * h) * up <= y * w * (up * up) * up) by (nonlinear_arith)
            requires
                el * (h * h) <= y * w * (up * up),
                up > 0,
        ;
        assert(y * w * (up * up) * up == y * w * (up * up * up)) by (nonlinear_arith);
    }
    assert(x * w * (up * up * h) >= y * w * (down * down * down)) by {
        assert(x * w * (up * up * h) >= st * h * (up * h)) by (nonlinear_arith)
            requires
                x * w * up >= st * h,
                up * h >= 0,
        ;
        assert(st * h * (up * h) >= el * (h * h) * down) by (nonlinear_arith)
            requires
                st * up >= el * down,
                h > 0,
        ;
        assert(el * (h * h) * down >= y * w * (down * down) * down) by (nonlinear_arith)
            requires
                el * (h * h) >= y * w * (down * down),
                down > 0,
        ;
        assert(y * w * (down * down) * down == y * w * (down * down * down)) by (nonlinear_arith);
    }
    assert(x > 0 && y > 0) by (nonlinear_arith)
        requires
            x == share * tokens,
            y == excess * len * w,
            share > 0,
            tokens > 0,
            excess > 0,
            len > 0,
            w > 0,
    ;
    let a: int = down * down * h;
    let b: int = up * up * up;
    let c: int = up * up * h;
    let d: int = down * down * down;
    assert(a == 0xff_ffff * 0xff_ffff * 0x100_0000 && b == 0x100_0001 * 0x100_0001 * 0x100_0001
        && c == 0x100_0001 * 0x100_0001 * 0x100_0000 && d == 0xff_ffff * 0xff_ffff * 0xff_ffff);
    assert(b * 1_000_000 <= a * 1_000_001);
    assert(d * 1_000_000 >= c * 999_999);
    assert(x * a <= y * b) by (nonlinear_arith)
        requires
            x * w * a <= y * w * b,
            w > 0,
    ;
    assert(x * c >= y * d) by (nonlinear_arith)
        requires
            x * w * c >= y * w * d,
            w > 0,
    ;
    assert(x * 1_000_000 <= y * 1_000_001) by (nonlinear_arith)
        requires
            x * a <= y * b,
            b * 1_000_000 <= a * 1_000_001,
            a > 0,
            y > 0,
    ;
    assert(x * 1_000_000 >= y * 999_999) by (nonlinear_arith)
        requires
            x * c >= y * d,
            d * 1_000_000 >= c * 999_999,
            c > 0,
            y > 0,
    ;
}

proof fn lemma_scaled_positive(x: Single)
    requires
        is_normal(x),
    ensures
        scaled(x) > 0,
{
    let p = pow2((x.exponent + SCALE) as nat) as int;
    lemma_pow2_pos((x.exponent + SCALE) as nat);
    assert(x.mantissa * p > 0) by (nonlinear_arith)
        requires
            x.mantissa > 0,
            p > 0,
    ;
}

/// From a history that is too long go as many messages as, each with the average
/// number of tokens, make up the excess, rounded up, to one part in a million:
/// so many are enough, and one less is too few.
pub proof fn as_many_go_as_make_up_the_excess(len: int, tokens: int, limit: int)
    requires
        0 < len <= u64::MAX,
        0 <= limit < tokens <= u64::MAX,
    ensures
        ({
            let gone = prune_amount(len, tokens, limit);
            let excess = tokens - limit;
            &&& 1 <= gone <= len
            &&& gone * tokens * 1_000_000 >= excess * len * 999_999
            &&& (gone - 1) * tokens * 1_000_000 <= excess * len * 1_000_001
        }),
{
    let gone = prune_amount(len, tokens, limit);
    let excess = tokens - limit;
    let w = pow2(SCALE as nat) as int;
    lemma_pow2_pos(SCALE as nat);
    pruning_is_bounded(len, tokens, limit);
    single_of_is_normal(tokens);
    single_of_is_normal(len);
    single_of_is_normal(excess);
    let t = single_of(tokens);
    let l = single_of(len);
    let e = single_of(excess);
    quotient_is_normal(t, l);
    let average = quotient(t, l);
    quotient_is_normal(e, average);
    let share = quotient(e, average);
    whole_numbers_are_near(tokens);
    whole_numbers_are_near(len);
    whole_numbers_are_near(excess);
    quotients_are_near(t, l);
    quotients_are_near(e, average);
    lemma_scaled_positive(t);
    lemma_scaled_positive(l);
    lemma_scaled_positive(e);
    lemma_scaled_positive(average);
    lemma_scaled_positive(share);
    lemma_share_is_near(
        excess,
        tokens,
        len,
        w,
        scaled(e),
        scaled(t),
        scaled(l),
        scaled(average),
        scaled(share),
    );
    the_ceiling_is_just_above(share);
    let c = ceiling(share);
    let q = scaled(share);
    let y = excess * len;
    assert(y * w == excess * len * w);
    assert(c * tokens * 1_000_000 >= y * 999_999) by (nonlinear_arith)
        requires
            q <= c * w,
            q * tokens * 1_000_000 >= y * w * 999_999,
            tokens > 0,
            w > 0,
    ;
    assert((c - 1) * tokens * 1_000_000 <= y * 1_000_001) by (nonlinear_arith)
        requires
            (c - 1) * w < q,
            q * tokens * 1_000_000 <= y * w * 1_000_001,
            tokens > 0,
            w > 0,
    ;
    if gone == c {
    } else {
        assert(gone == len && len <= c);
        assert(len * tokens * 1_000_000 >= y * 999_999) by (nonlinear_arith)
            requires
                y == excess * len,
                excess <= tokens,
                len > 0,
                tokens > 0,
        ;
        assert((len - 1) * tokens * 1_000_000 <= (c - 1) * tokens * 1_000_000) by (nonlinear_arith)
            requires
                len <= c,
                tokens > 0,
        ;
    }
}

/// What stays of a history that was too long is, at the average number of tokens
/// of a message, within the limit, to one part in a million of the excess.
pub proof fn what_stays_is_within_the_limit(len: int, tokens: int, limit: int)
    requires
        0 < len <= u64::MAX,
        0 <= limit < tokens <= u64::MAX,
    ensures
        (len - prune_amount(len, tokens, limit)) * tokens * 1_000_000 <= limit * len * 1_000_000
            + (tokens - limit) * len,
{
    as_many_go_as_make_up_the_excess(len, tokens, limit);
    let gone = prune_amount(len, tokens, limit);
    let y = (tokens - limit) * len;
    assert((len - gone) * tokens * 1_000_000 <= limit * len * 1_000_000 + y) by (nonlinear_arith)
        requires
            gone * tokens * 1_000_000 >= y * 999_999,
            y == (tokens - limit) * len,
    ;
}

/// A history may fill nineteen twentieths of what a model takes in, rounded down
/// and to one part in a million.
pub proof fn a_history_may_fill_nineteen_twentieths(max_tokens: int)
    requires
        0 < max_tokens <= i32::MAX,
    ensures
        20 * limit_of(max_tokens) * 1_000_000 <= 19 * max_tokens * 1_000_001,
        20 * (limit_of(max_tokens) + 1) * 1_000_000 >= 19 * max_tokens * 999_999,
        limit_of(max_tokens) < max_tokens,
{
    let w = pow2(SCALE as nat) as int;
    lemma_pow2_pos(SCALE as nat);
    let m = single_of(max_tokens);
    let u = usable_share();
    single_of_is_normal(max_tokens);
    whole_numbers_are_near(max_tokens);
    products_are_near(m, u);
    let p = product(m, u);
    let h: int = HIGH as int;
    let up: int = h + 1;
    let down: int = h - 1;
    let k: int = USABLE_MANTISSA as int;
    let low = pow2(176) as int;
    lemma_pow2_adds(176, 24);
    lemma2_to64();
    assert(scaled(u) == k * low);
    assert(w == low * h);
    lemma_product_exponent(m, u);
    the_floor_is_just_below(p);
    floor_is_not_negative(p);
    let f = floor(p);
    let v = scaled(p);
    let sm = scaled(m);
    // The product.
    let mu = sm * (k * low);
    assert(v * w * h <= mu * up && v * w * h >= mu * down) by (nonlinear_arith)
        requires
            (v * w - mu) * h <= mu,
            (mu - v * w) * h <= mu,
            up == h + 1,
            down == h - 1,
    ;
    let mw = max_tokens * w;
    assert(sm * h <= mw * up && sm * h >= mw * down) by (nonlinear_arith)
        requires
            (sm - mw) * h <= mw,
            (mw - sm) * h <= mw,
            up == h + 1,
            down == h - 1,
    ;
    lemma_pow2_pos(176);
    assert(v * (h * h * h) <= max_tokens * w * (k * (up * up))) by {
        assert(mu * h <= mw * up * (k * low)) by (nonlinear_arith)
            requires
                mu == sm * (k * low),
                sm * h <= mw * up,
                k * low >= 0,
        ;
        assert(v * w * h * h <= mw * up * (k * low) * up) by (nonlinear_arith)
            requires
                v * w * h <= mu * up,
                mu * h <= mw * up * (k * low),
                h > 0,
                up > 0,
        ;
        assert(v * (h * h * h) <= max_tokens * w * (k * (up * up))) by (nonlinear_arith)
            requires
                v * w * h * h <= mw * up * (k * low) * up,
                mw == max_tokens * w,
                w == low * h,
                low > 0,
        ;
    }
    assert(v * (h * h * h) >= max_tokens * w * (k * (down * down))) by {
        assert(mu * h >= mw * down * (k * low)) by (nonlinear_arith)
            requires
                mu == sm * (k * low),
                sm * h >= mw * down,
                k * low >= 0,
        ;
        assert(v * w * h * h >= mw * down * (k * low) * down) by (nonlinear_arith)
            requires
                v * w * h >= mu * down,
                mu * h >= mw * down * (k * low),
                h > 0,
                down > 0,
        ;
        assert(v * (h * h * h) >= max_tokens * w * (k * (down * down))) by (nonlinear_arith)
            requires
                v * w * h * h >= mw * down * (k * low) * down,
                mw == max_tokens * w,
                w == low * h,
                low > 0,
        ;
    }
    // The floor.
    let a: int = h * h * h;
    let b: int = k * (up * up);
    let d: int = k * (down * down);
    assert(a == 0x100_0000 * 0x100_0000 * 0x100_0000 && b == 15_938_355 * (0x100_0001 * 0x100_0001)
        && d == 15_938_355 * (0xff_ffff * 0xff_ffff));
    assert(f * a <= max_tokens * b) by (nonlinear_arith)
        requires
            f * w <= v,
            v * a <= max_tokens * w * b,
            w > 0,
            a > 0,
    ;
    assert((f + 1) * a >= max_tokens * d) by (nonlinear_arith)
        requires
            v < (f + 1) * w,
            v * a >= max_tokens * w * d,
            w > 0,
            a > 0,
    ;
    assert(20 * b * 1_000_000 <= 19 * a * 1_000_001);
    assert(20 * d * 1_000_000 >= 19 * a * 999_999);
    assert(20 * f * 1_000_000 <= 19 * max_tokens * 1_000_001) by (nonlinear_arith)
        requires
            f * a <= max_tokens * b,
            20 * b * 1_000_000 <= 19 * a * 1_000_001,
            max_tokens > 0,
            a > 0,
    ;
    assert(20 * (f + 1) * 1_000_000 >= 19 * max_tokens * 999_999) by (nonlinear_arith)
        requires
            (f + 1) * a >= max_tokens * d,
            20 * d * 1_000_000 >= 19 * a * 999_999,
            max_tokens > 0,
            a > 0,
    ;
}

proof fn lemma_product_exponent(a: Single, b: Single)
    requires
        is_normal(a),
        is_normal(b),
        -100 <= a.exponent <= 100,
        -100 <= b.exponent <= 100,
    ensures
        product(a, b).exponent >= a.exponent + b.exponent + 23,
        product(a, b).exponent <= a.exponent + b.exponent + 25,
{
}

/// A history is kept exactly where it is within its limit; else the computed
/// number of messages goes wherever that leaves some.
pub proof fn plans_follow_the_count(len: int, tokens: int, max_tokens: int)
    requires
        0 < len <= usize::MAX,
        0 <= max_tokens <= i32::MAX,
        tokens <= i32::MAX,
    ensures
        planned(len, tokens, max_tokens) == WindowPlan::Keep <==> tokens <= limit_of(max_tokens),
        planned(len, tokens, max_tokens) matches WindowPlan::Prune(n) ==> 0 < n < len && n
            == prune_amount(len, tokens, limit_of(max_tokens)),
        tokens > limit_of(max_tokens) && prune_amount(len, tokens, limit_of(max_tokens)) < len
            ==> planned(len, tokens, max_tokens) is Prune,
{
    limits_are_not_negative(max_tokens);
    if tokens > limit_of(max_tokens) {
        pruning_is_bounded(len, tokens, limit_of(max_tokens));
    }
}

} // verus!
