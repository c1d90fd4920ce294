use riposte_social::access_logs::{hourly_access_rates, top_code_indices};

#[test]
fn hourly_chart_counts_each_clock_hour() {
    // 2023-11-14 22:13:20 UTC
    let now: i64 = 1_700_000_000;
    let start_of_hour: i64 = 1_699_999_200;
    let times = vec![
        now,
        now - 3600,
        start_of_hour,
        start_of_hour - 1,
        now - 24 * 3600,
        now + 3600,
    ];
    let chart = hourly_access_rates(now, &times);
    assert_eq!(chart.len(), 24);
    assert_eq!(chart[23].hour, "22:13");
    assert_eq!(chart[22].hour, "21:13");
    assert_eq!(chart[0].hour, "23:13");
    assert_eq!(chart[23].count, 2);
    assert_eq!(chart[22].count, 2);
    let total: i64 = chart.iter().map(|b| b.count).sum();
    assert_eq!(total, 4);
}

#[test]
fn hourly_chart_before_the_epoch() {
    let chart = hourly_access_rates(-1, &vec![-1, -3600, -3601]);
    assert_eq!(chart[23].hour, "23:59");
    assert_eq!(chart[23].count, 2);
    assert_eq!(chart[22].count, 1);
}

#[test]
fn hourly_chart_without_accesses() {
    let chart = hourly_access_rates(0, &vec![]);
    assert!(chart.iter().all(|b| b.count == 0));
    assert_eq!(chart[23].hour, "00:00");
    assert_eq!(chart[0].hour, "01:00");
}

#[test]
fn most_used_codes_first() {
    let counts = vec![5, 9, 1, 9, 3];
    let top = top_code_indices(&counts);
    assert_eq!(top.len(), 5);
    let ranked: Vec<i32> = top.iter().map(|&i| counts[i]).collect();
    assert_eq!(ranked, vec![9, 9, 5, 3, 1]);
    let mut seen = top.clone();
    seen.sort();
    assert_eq!(seen, vec![0, 1, 2, 3, 4]);
}

#[test]
fn at_most_ten_codes() {
    let counts: Vec<i32> = (0..12).collect();
    let top = top_code_indices(&counts);
    assert_eq!(top, vec![11, 10, 9, 8, 7, 6, 5, 4, 3, 2]);
    assert!(top_code_indices(&vec![]).is_empty());
}
