use vstd::prelude::*;

use crate::model::Restaurant;

verus! {

/// Tier assigned to the restaurant at zero-based rank `i` out of `n`,
/// ascending by recency: rank 0 is the least recently visited and lands
/// in tier 0, the most overdue band. The band boundaries are `k * n / 5`
/// truncated toward zero, for `k` in 1 through 4; for small `n` not
/// divisible by 5, consecutive boundaries can coincide and a band then
/// stays empty.
pub open spec fn tier_of_rank(i: int, n: int) -> int {
    if i < n / 5 {
        0
    } else if i < 2 * n / 5 {
        1
    } else if i < 3 * n / 5 {
        2
    } else if i < 4 * n / 5 {
        3
    } else {
        4
    }
}

/// Executable tier assignment; see `tier_of_rank`.
pub fn tier_for_rank(i: usize, n: usize) -> (t: u8)
    requires
        n <= usize::MAX / 4,
    ensures
        t as int == tier_of_rank(i as int, n as int),
{
    if i < n / 5 {
        0
    } else if i < 2 * n / 5 {
        1
    } else if i < 3 * n / 5 {
        2
    } else if i < 4 * n / 5 {
        3
    } else {
        4
    }
}

/// Whole days elapsed from `then` to `now`, truncated toward zero;
/// negative when `then` lies in the future.
pub open spec fn days_between(now: int, then: int) -> int {
    if now >= then {
        (now - then) / 86400
    } else {
        -((then - now) / 86400)
    }
}

/// Executable day count; see `days_between`.
pub fn elapsed_days(now: i64, then: i64) -> (d: i64)
    requires
        0 <= now,
        0 <= then,
    ensures
        d == days_between(now as int, then as int),
{
    if now >= then {
        ((now - then) as u64 / 86400) as i64
    } else {
        -(((then - now) as u64 / 86400) as i64)
    }
}

/// The character for the decimal digit `d`.
pub open spec fn digit_char(d: int) -> char {
    if d == 0 {
        '0'
    } else if d == 1 {
        '1'
    } else if d == 2 {
        '2'
    } else if d == 3 {
        '3'
    } else if d == 4 {
        '4'
    } else if d == 5 {
        '5'
    } else if d == 6 {
        '6'
    } else if d == 7 {
        '7'
    } else if d == 8 {
        '8'
    } else {
        '9'
    }
}

/// The decimal digits of `n`, most significant first.
pub open spec fn dec_digits(n: nat) -> Seq<char>
    decreases n,
{
    if n < 10 {
        seq![digit_char(n as int)]
    } else {
        dec_digits(n / 10).push(digit_char((n % 10) as int))
    }
}

/// Decimal rendering of an integer: its digits, with a leading minus sign
/// when negative.
pub open spec fn dec_str(n: int) -> Seq<char> {
    if n < 0 {
        seq!['-'] + dec_digits((-n) as nat)
    } else {
        dec_digits(n as nat)
    }
}

/// The elapsed-time phrase shown for a restaurant visited `d` whole days
/// ago.
pub open spec fn visited_text(d: int) -> Seq<char> {
    "visited "@ + dec_str(d) + " days ago"@
}

/// What the index page shows for one restaurant: the row itself, its
/// recommendation tier, and the elapsed-time phrase.
pub struct RestaurantPresenter {
    pub restaurant_model: Restaurant,
    pub level: u8,
    pub time_string: String,
}

/// Relies on `format!` over `i64`'s `Display` implementation: the decimal
/// digits of `days`, with a leading minus sign when negative, spliced
/// into the fixed phrase.
#[verifier::external_body]
fn format_visited(days: i64) -> (r: String)
    ensures
        r@ == visited_text(days as int),
{
    format!("visited {} days ago", days)
}

/// The tiering engine: given every restaurant ordered ascending by
/// recency, pair each with its recommendation tier and its elapsed-time
/// phrase relative to `now`. Pure bucketing: no row is dropped, reordered
/// or altered.
pub fn build_presenters(restaurants: &Vec<Restaurant>, now: i64) -> (presented: Vec<
    RestaurantPresenter,
>)
    requires
        0 <= now,
        forall|i: int|
            0 <= i < restaurants@.len() ==> 0 <= (#[trigger] restaurants@[i]).last_visit_time,
        restaurants@.len() <= usize::MAX / 4,
    ensures
        presented@.len() == restaurants@.len(),
        forall|i: int|
            0 <= i < presented@.len() ==> {
                let p = #[trigger] presented@[i];
                &&& p.restaurant_model == restaurants@[i]
                &&& p.level as int == tier_of_rank(i, restaurants@.len() as int)
                &&& p.time_string@ == visited_text(
                    days_between(now as int, restaurants@[i].last_visit_time as int),
                )
            },
{
    let n = restaurants.len();
    let mut presented: Vec<RestaurantPresenter> = Vec::new();
    let mut i: usize = 0;
    while i < n
        invariant
            i <= n,
            n == restaurants@.len(),
            n <= usize::MAX / 4,
            0 <= now,
            forall|k: int|
                0 <= k < restaurants@.len() ==> 0 <= (#[trigger] restaurants@[k]).last_visit_time,
            presented@.len() == i,
            forall|k: int|
                0 <= k < i ==> {
                    let p = #[trigger] presented@[k];
                    &&& p.restaurant_model == restaurants@[k]
                    &&& p.level as int == tier_of_rank(k, n as int)
                    &&& p.time_string@ == visited_text(
                        days_between(now as int, restaurants@[k].last_visit_time as int),
                    )
                },
        decreases n - i,
    {
        let row = restaurants[i].clone();
        let level = tier_for_rank(i, n);
        let days = elapsed_days(now, row.last_visit_time);
        let time_string = format_visited(days);
        presented.push(RestaurantPresenter { restaurant_model: row, level, time_string });
        i += 1;
    }
    presented
}

/// For any number of restaurants, an engine output pairing rank `i` with
/// tier `tier_of_rank(i, n)` — the shape `build_presenters` guarantees —
/// has one entry per restaurant, every tier within the five bands, and
/// tiers that never decrease as the rank grows.
pub proof fn lemma_presented_tiers(presented: Seq<RestaurantPresenter>, n: int)
    requires
        presented.len() == n,
        forall|i: int| 0 <= i < n ==> (#[trigger] presented[i]).level as int == tier_of_rank(i, n),
    ensures
        forall|i: int| 0 <= i < n ==> 0 <= (#[trigger] presented[i]).level <= 4,
        forall|i: int, j: int|
            0 <= i <= j < n ==> (#[trigger] presented[i]).level <= (#[trigger] presented[j]).level,
{
    assert forall|i: int, j: int| 0 <= i <= j < n implies (#[trigger] presented[i]).level <= (
    #[trigger] presented[j]).level by {
        lemma_tiers_non_decreasing(i, j, n);
    }
}

/// Every tier lies in the five bands 0 through 4.
pub proof fn lemma_tier_in_range(i: int, n: int)
    ensures
        0 <= tier_of_rank(i, n) <= 4,
{
}

/// Tiers never decrease as the rank grows: a restaurant visited less
/// recently is never recommended less strongly than one visited more
/// recently.
pub proof fn lemma_tiers_non_decreasing(i: int, j: int, n: int)
    requires
        0 <= i <= j,
        0 <= n,
    ensures
        tier_of_rank(i, n) <= tier_of_rank(j, n),
{
    vstd::arithmetic::div_mod::lemma_div_is_ordered(n, 2 * n, 5);
    vstd::arithmetic::div_mod::lemma_div_is_ordered(2 * n, 3 * n, 5);
    vstd::arithmetic::div_mod::lemma_div_is_ordered(3 * n, 4 * n, 5);
}

} // verus!
