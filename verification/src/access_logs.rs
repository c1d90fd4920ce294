//! The access dashboard: successful accesses of the last day counted per
//! clock hour, and the most used access codes.
use vstd::prelude::*;

verus! {

/// Seconds in an hour.
pub const HOUR_SECS: i64 = 3600;

/// Bars on the hourly chart.
pub const CHART_HOURS: usize = 24;

/// Codes listed under recent use.
pub const TOP_CODES: usize = 10;

/// The UTC clock hour a time falls in, as whole hours since the epoch
/// (rounded down, also before the epoch).
pub open spec fn hour_index(t: int) -> int {
    t / 3600
}

/// How many of `times` fall in the clock hour `h`.
pub open spec fn accesses_in_hour(times: Seq<i64>, h: int) -> nat
    decreases times.len(),
{
    if times.len() == 0 {
        0
    } else {
        accesses_in_hour(times.drop_last(), h) + if hour_index(times.last() as int) == h {
            1nat
        } else {
            0nat
        }
    }
}

/// Two decimal digits, with a leading zero.
pub open spec fn two_digits(n: int) -> Seq<char> {
    seq![crate::text::digit_char((n / 10) as nat), crate::text::digit_char((n % 10) as nat)]
}

/// The `HH:MM` UTC clock reading of time `t`.
pub open spec fn clock_label(t: int) -> Seq<char> {
    two_digits(hour_index(t) % 24) + seq![':'] + two_digits((t % 3600) / 60)
}

/// One bar of the hourly chart: its clock label and the accesses counted in it.
pub struct HourlyAccess {
    pub hour: String,
    pub count: i64,
}

fn hour_of(t: i64) -> (h: i64)
    ensures
        h == hour_index(t as int),
{
    match t.checked_div_euclid(HOUR_SECS) {
        Some(h) => h,
        None => {
            proof {
                assert(i64::MIN <= t / 3600 <= i64::MAX);
            }
            0
        },
    }
}

fn two_digit_string(n: i64) -> (s: String)
    requires
        0 <= n < 100,
    ensures
        s@ == two_digits(n as int),
{
    let tens: u8 = (n / 10) as u8;
    let ones: u8 = (n % 10) as u8;
    let a: char = (48u8 + tens) as char;
    let b: char = (48u8 + ones) as char;
    assert(a == crate::text::digit_char((n / 10) as nat));
    assert(b == crate::text::digit_char((n % 10) as nat));
    let mut s = String::new();
    s.push(a);
    s.push(b);
    assert(s@ =~= two_digits(n as int));
    s
}

fn clock_label_string(t: i64) -> (s: String)
    ensures
        s@ == clock_label(t as int),
{
    let h = hour_of(t);
    let hod: i64 = match h.checked_rem_euclid(24) {
        Some(x) => x,
        None => 0,
    };
    let within: i64 = match t.checked_rem_euclid(HOUR_SECS) {
        Some(x) => x,
        None => 0,
    };
    let minute: i64 = within / 60;
    let mut s = two_digit_string(hod);
    s.push(':');
    let m = two_digit_string(minute);
    s.append(m.as_str());
    assert(s@ =~= clock_label(t as int));
    s
}

proof fn lemma_accesses_step(times: Seq<i64>, i: int, h: int)
    requires
        0 <= i < times.len(),
    ensures
        accesses_in_hour(times.take(i + 1), h) == accesses_in_hour(times.take(i), h) + if hour_index(
            times[i] as int,
        ) == h {
            1nat
        } else {
            0nat
        },
{
    assert(times.take(i + 1).drop_last() =~= times.take(i));
}

/// The hourly chart at time `now`: one bar per clock hour of the last day,
/// oldest first and ending with the current hour, each labelled with the
/// clock reading `now` had that many hours earlier and counting the
/// successful accesses (`success_times`, in seconds) of that hour. An hour
/// without accesses shows zero; accesses outside the day are not counted.
pub fn hourly_access_rates(now: i64, success_times: &Vec<i64>) -> (r: Vec<HourlyAccess>)
    requires
        now >= i64::MIN + 23 * 3600,
        success_times@.len() < i64::MAX,
    ensures
        r@.len() == CHART_HOURS,
        forall|j: int|
            #![trigger r@[j]]
            0 <= j < 24 ==> r@[j].count == accesses_in_hour(
                success_times@,
                hour_index(now as int) - (23 - j),
            ) && r@[j].hour@ == clock_label(now - (23 - j) * 3600),
{
    let now_hour = hour_of(now);
    let mut counts: Vec<i64> = Vec::new();
    let mut j: usize = 0;
    while j < CHART_HOURS
        invariant
            j <= 24,
            counts@.len() == j,
            forall|k: int| 0 <= k < j ==> #[trigger] counts@[k] == 0,
        decreases 24 - j,
    {
        counts.push(0);
        j = j + 1;
    }
    let ghost times = success_times@;
    let mut i: usize = 0;
    while i < success_times.len()
        invariant
            i <= times.len(),
            times == success_times@,
            times.len() < i64::MAX,
            now_hour == hour_index(now as int),
            counts@.len() == 24,
            forall|k: int|
                #![trigger counts@[k]]
                0 <= k < 24 ==> counts@[k] == accesses_in_hour(
                    times.take(i as int),
                    now_hour - (23 - k),
                ) && counts@[k] <= i,
        decreases times.len() - i,
    {
        let h = hour_of(success_times[i]);
        proof {
            assert forall|k: int| 0 <= k < 24 implies #[trigger] accesses_in_hour(
                times.take(i + 1),
                now_hour - (23 - k),
            ) == accesses_in_hour(times.take(i as int), now_hour - (23 - k)) + if h == now_hour - (23
                - k) {
                1nat
            } else {
                0nat
            } by {
                lemma_accesses_step(times, i as int, now_hour - (23 - k));
            }
        }
        if h <= now_hour && now_hour - h < 24 {
            let idx: usize = (23 - (now_hour - h)) as usize;
            let c = counts[idx];
            counts.set(idx, c + 1);
        }
        i = i + 1;
    }
    proof {
        assert(times.take(i as int) =~= times);
    }
    let mut r: Vec<HourlyAccess> = Vec::new();
    let mut k: usize = 0;
    while k < CHART_HOURS
        invariant
            k <= 24,
            r@.len() == k,
            counts@.len() == 24,
            now >= i64::MIN + 23 * 3600,
            forall|q: int|
                #![trigger counts@[q]]
                0 <= q < 24 ==> counts@[q] == accesses_in_hour(
                    success_times@,
                    hour_index(now as int) - (23 - q),
                ),
            forall|q: int|
                #![trigger r@[q]]
                0 <= q < k ==> r@[q].count == counts@[q] && r@[q].hour@ == clock_label(
                    now - (23 - q) * 3600,
                ),
        decreases 24 - k,
    {
        let back: i64 = (23 - k) as i64;
        let t: i64 = now - back * HOUR_SECS;
        let hour = clock_label_string(t);
        r.push(HourlyAccess { hour, count: counts[k] });
        k = k + 1;
    }
    r
}

/// `k` occurs in `s`.
pub open spec fn placed(s: Seq<usize>, k: int) -> bool {
    exists|p: int| 0 <= p < s.len() && s[p] == k
}

/// The recent-use list: the positions in `counts` of the most used codes,
/// most used first, at most `TOP_CODES` of them. Codes with equal counts
/// may come in any order; every code left out is used no more than any
/// code listed.
pub fn top_code_indices(counts: &Vec<i32>) -> (r: Vec<usize>)
    ensures
        r@.len() == if counts@.len() < TOP_CODES {
            counts@.len() as int
        } else {
            TOP_CODES as int
        },
        forall|j: int| 0 <= j < r@.len() ==> #[trigger] r@[j] < counts@.len(),
        forall|a: int, b: int|
            0 <= a < b < r@.len() ==> #[trigger] r@[a] != #[trigger] r@[b] && counts@[r@[a] as int]
                >= counts@[r@[b] as int],
        forall|k: int, j: int|
            0 <= k < counts@.len() && !placed(r@, k) && 0 <= j < r@.len() ==> #[trigger] counts@[k]
                <= #[trigger] counts@[r@[j] as int],
{
    let n = counts.len();
    let mut idx: Vec<usize> = Vec::new();
    let mut p: usize = 0;
    while p < n
        invariant
            p <= n,
            n == counts@.len(),
            idx@.len() == p,
            forall|q: int| 0 <= q < p ==> #[trigger] idx@[q] == q,
        decreases n - p,
    {
        idx.push(p);
        p = p + 1;
    }
    proof {
        assert forall|k: int| 0 <= k < n implies #[trigger] placed(idx@, k) by {
            assert(idx@[k] == k);
        }
    }
    let limit: usize = if n < TOP_CODES {
        n
    } else {
        TOP_CODES
    };
    let mut round: usize = 0;
    while round < limit
        invariant
            limit <= n,
            n == counts@.len(),
            round <= limit,
            idx@.len() == n,
            forall|q: int| 0 <= q < n ==> #[trigger] idx@[q] < n,
            forall|k: int| 0 <= k < n ==> #[trigger] placed(idx@, k),
            forall|a: int, b: int| 0 <= a < b < n ==> #[trigger] idx@[a] != #[trigger] idx@[b],
            forall|a: int, b: int|
                0 <= a < b < round ==> counts@[#[trigger] idx@[a] as int] >= counts@[#[trigger] idx@[b] as int],
            forall|a: int, q: int|
                0 <= a < round && round <= q < n ==> counts@[#[trigger] idx@[a] as int]
                    >= counts@[#[trigger] idx@[q] as int],
        decreases limit - round,
    {
        let mut best: usize = round;
        let mut k: usize = round + 1;
        while k < n
            invariant
                round < n,
                n == counts@.len(),
                idx@.len() == n,
                forall|q: int| 0 <= q < n ==> #[trigger] idx@[q] < n,
                round <= best < k <= n,
                forall|q: int|
                    round <= q < k ==> counts@[#[trigger] idx@[q] as int] <= counts@[idx@[best as int] as int],
            decreases n - k,
        {
            if counts[idx[k]] > counts[idx[best]] {
                best = k;
            }
            k = k + 1;
        }
        let ghost before = idx@;
        let x = idx[round];
        let y = idx[best];
        idx.set(round, y);
        idx.set(best, x);
        proof {
            assert forall|q: int| 0 <= q < n implies #[trigger] idx@[q] == if q == round {
                before[best as int]
            } else if q == best {
                before[round as int]
            } else {
                before[q]
            } by {}
            assert forall|kk: int| 0 <= kk < n implies #[trigger] placed(idx@, kk) by {
                assert(placed(before, kk));
                let p0 = choose|p0: int| 0 <= p0 < before.len() && before[p0] == kk;
                if p0 == round {
                    assert(idx@[best as int] == kk);
                } else if p0 == best {
                    assert(idx@[round as int] == kk);
                } else {
                    assert(idx@[p0] == kk);
                }
            }
            assert forall|a: int, b: int| 0 <= a < b < n implies #[trigger] idx@[a] != #[trigger] idx@[b] by {
                let pa = if a == round { best as int } else if a == best { round as int } else { a };
                let pb = if b == round { best as int } else if b == best { round as int } else { b };
                assert(idx@[a] == before[pa] && idx@[b] == before[pb]);
                assert(pa != pb);
            }
            assert forall|a: int, b: int|
                0 <= a < b < round + 1 implies counts@[#[trigger] idx@[a] as int] >= counts@[#[trigger] idx@[b] as int] by {
                assert(idx@[a] == before[a]);
                if b < round {
                    assert(idx@[b] == before[b]);
                } else {
                    assert(idx@[b] == before[best as int]);
                }
            }
            assert forall|a: int, q: int|
                0 <= a < round + 1 && round + 1 <= q < n implies counts@[#[trigger] idx@[a] as int]
                    >= counts@[#[trigger] idx@[q] as int] by {
                let pq = if q == best { round as int } else { q };
                assert(idx@[q] == before[pq]);
                assert(round <= pq < n);
                assert(counts@[before[pq] as int] <= counts@[before[best as int] as int]);
                if a < round {
                    assert(idx@[a] == before[a]);
                } else {
                    assert(idx@[a] == before[best as int]);
                }
            }
        }
        round = round + 1;
    }
    let mut r: Vec<usize> = Vec::new();
    let mut j: usize = 0;
    while j < limit
        invariant
            j <= limit,
            limit <= n,
            idx@.len() == n,
            r@ == idx@.take(j as int),
        decreases limit - j,
    {
        r.push(idx[j]);
        j = j + 1;
        proof {
            assert(r@ =~= idx@.take(j as int));
        }
    }
    proof {
        assert forall|kk: int, jj: int|
            0 <= kk < n && !placed(r@, kk) && 0 <= jj < r@.len() implies #[trigger] counts@[kk]
                <= #[trigger] counts@[r@[jj] as int] by {
            assert(placed(idx@, kk));
            let p0 = choose|p0: int| 0 <= p0 < idx@.len() && idx@[p0] == kk;
            if p0 < limit {
                assert(r@[p0] == kk);
            }
            assert(r@[jj] == idx@[jj]);
        }
    }
    r
}

} // verus!
