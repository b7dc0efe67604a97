use domaincards::clock::day_of;
use domaincards::context::Context;
use domaincards::dedup::DedupCache;
use domaincards::mask::mask_ip;
use domaincards::member::{Member, MemberDirectory};
use domaincards::model::{Statistics, VisitorType};
use domaincards::score::tendency;

const NOW: i64 = 1_700_000_000;

fn member(id: i64, domain: &str, hidden: bool) -> Member {
    Member {
        id,
        domain: domain.to_string(),
        name: format!("member {}", id),
        description: "".to_string(),
        github_username: "".to_string(),
        hidden,
    }
}

fn row(id: i64, uv: i64, rv: i64, updated_at: i64) -> Statistics {
    Statistics {
        id: 0,
        membership_id: id,
        created_at_day: 0,
        unique_visitor: uv,
        updated_at,
        referrer: rv,
        latest_referrer_at: Some(updated_at),
    }
}

fn context_with(rank: Vec<Statistics>, monthly: Vec<Statistics>) -> Context {
    let dir = MemberDirectory::load(vec![
        member(1, "a.example", false),
        member(2, "b.example", false),
        member(3, "c.example", false),
    ]);
    Context::default(dir, &Vec::new(), rank, monthly, 5, "ring.example".to_string(), NOW)
}

#[test]
fn tendency_clamps_and_divides() {
    assert_eq!(tendency(0, 0, 1), 1);
    assert_eq!(tendency(3, 1, 5), 1);
    assert_eq!(tendency(7, 3, 5), 2);
    assert_eq!(tendency(25, 5, 3), 10);
    assert_eq!(tendency(i64::MAX, i64::MAX, 1), 10);
    assert_eq!(tendency(9, 0, 1), 9);
}

#[test]
fn dotted_addresses_keep_first_and_last_segment() {
    assert_eq!(mask_ip("1.2.3.4"), "1.****.4");
    assert_eq!(mask_ip("203.0.113.5"), "203.****.5");
    assert_eq!(mask_ip("10.1.2.3.4.5"), "10.****.5");
    assert_eq!(mask_ip("1.2.3"), "1.****.3");
}

#[test]
fn short_dotted_strings_stay_unmasked() {
    assert_eq!(mask_ip("1.2"), "1.2");
    assert_eq!(mask_ip("localhost"), "localhost");
    assert_eq!(mask_ip(""), "");
}

#[test]
fn coloned_addresses_keep_first_and_last_group_pair() {
    assert_eq!(mask_ip("2001:db8:1:2:3:4:5:6"), "2001:db8:****:5:6");
    assert_eq!(mask_ip("a:b:c:d:e"), "a:b:****:d:e");
    assert_eq!(mask_ip("::1:2:3"), "::****:2:3");
}

#[test]
fn short_coloned_strings_stay_unmasked() {
    assert_eq!(mask_ip("a:b:c:d"), "a:b:c:d");
    assert_eq!(mask_ip("::1"), "::1");
}

#[test]
fn dedup_cache_marks_and_expires() {
    let mut cache = DedupCache::new(100);
    let ip = "1.2.3.4".to_string();
    assert!(cache.check_and_mark(&ip, 7, Some(VisitorType::Badge), NOW));
    assert!(!cache.check_and_mark(&ip, 7, Some(VisitorType::Badge), NOW + 99));
    // Another member or kind is another key.
    assert!(cache.check_and_mark(&ip, 8, Some(VisitorType::Badge), NOW));
    assert!(cache.check_and_mark(&ip, 7, Some(VisitorType::Card), NOW));
    // Past the window the key is fresh again.
    assert!(cache.check_and_mark(&ip, 7, Some(VisitorType::Badge), NOW + 100));
}

#[test]
fn dedup_cache_sweep_keeps_live_marks() {
    let mut cache = DedupCache::new(100);
    let ip = "1.2.3.4".to_string();
    assert!(cache.check_and_mark(&ip, 7, Some(VisitorType::Badge), NOW));
    cache.sweep(NOW + 50);
    assert!(!cache.check_and_mark(&ip, 7, Some(VisitorType::Badge), NOW + 60));
    cache.sweep(NOW + 200);
    assert!(cache.check_and_mark(&ip, 7, Some(VisitorType::Badge), NOW + 201));
}

#[test]
fn dedup_cache_clear_forgets_everything() {
    let mut cache = DedupCache::new(100);
    let ip = "1.2.3.4".to_string();
    assert!(cache.check_and_mark(&ip, 7, None, NOW));
    cache.clear();
    assert!(cache.check_and_mark(&ip, 7, None, NOW + 1));
}

#[test]
fn loading_drops_hidden_members_and_duplicates() {
    let dir = MemberDirectory::load(vec![
        member(1, "a.example", false),
        member(2, "b.example", true),
        member(3, "a.example", false),
        member(1, "d.example", false),
    ]);
    assert_eq!(dir.len(), 1);
    let a = "a.example".to_string();
    assert_eq!(dir.resolve(&a), Some(1));
    let b = "b.example".to_string();
    assert_eq!(dir.resolve(&b), None);
    assert!(dir.get(1).is_some());
    assert!(dir.get(2).is_none());
}

#[test]
fn daily_rank_orders_by_referral_recency_then_visitors() {
    let mut ctx = context_with(Vec::new(), Vec::new());
    let us = "US".to_string();
    // b: most recent referral; a and c tie on referral time, a has more
    // unique visitors.
    for (domain, ips, ref_at) in [
        ("a.example", vec!["1.1.1.1", "2.2.2.2"], None),
        ("c.example", vec!["1.1.1.1"], None),
        ("b.example", vec!["1.1.1.1"], Some(NOW + 50)),
    ] {
        let d = domain.to_string();
        for ip in ips {
            let i = ip.to_string();
            ctx.boring_visitor(Some(VisitorType::Badge), &d, &i, &us, None, NOW).unwrap();
        }
        if let Some(t) = ref_at {
            let h = format!("https://{}/x", domain);
            let e = "".to_string();
            let i = "9.9.9.9".to_string();
            ctx.boring_visitor(Some(VisitorType::Referer), &e, &i, &us, Some(&h), t)
                .unwrap();
        }
    }
    let out = ctx.daily_rank(NOW + 100);
    let ids: Vec<i64> = out.iter().map(|r| r.membership.id).collect();
    assert_eq!(ids, vec![2, 1, 3]);
    assert_eq!(out[0].rank.referrer, 1);
    assert_eq!(out[1].rank.unique_visitor, 2);
}

#[test]
fn monthly_view_keeps_known_recent_rows_in_order() {
    let monthly = vec![
        row(1, 5, 0, NOW - 10),
        row(99, 9, 0, NOW - 10),            // unknown member: dropped
        row(2, 4, 1, NOW - 40 * 86_400),    // too old: dropped
        row(3, 3, 0, NOW - 20),
    ];
    let ctx = context_with(Vec::new(), monthly);
    let out = ctx.monthly_rank_view(NOW);
    let ids: Vec<i64> = out.iter().map(|r| r.membership.id).collect();
    assert_eq!(ids, vec![1, 3]);
}

#[test]
fn monthly_view_caps_at_thirty() {
    let mut monthly = Vec::new();
    for _ in 0..40 {
        monthly.push(row(1, 1, 0, NOW - 10));
    }
    let ctx = context_with(Vec::new(), monthly);
    assert_eq!(ctx.monthly_rank_view(NOW).len(), 30);
}

#[test]
fn partition_splits_recent_from_stale() {
    let rank = vec![
        row(1, 5, 0, NOW - 10),
        row(2, 4, 0, NOW - 40 * 86_400),
        row(99, 9, 0, NOW),                 // unknown member: dropped
        row(3, 3, 0, NOW - 20),
    ];
    let ctx = context_with(rank, Vec::new());
    let (keep, retire) = ctx.partition_by_recency(NOW);
    let kept: Vec<i64> = keep.iter().map(|r| r.membership.id).collect();
    let retired: Vec<i64> = retire.iter().map(|r| r.membership.id).collect();
    assert_eq!(kept, vec![1, 3]);
    assert_eq!(retired, vec![2]);
}

#[test]
fn random_rank_is_a_sample_of_the_recent_rows() {
    let rank = vec![
        row(1, 5, 0, NOW - 10),
        row(2, 4, 0, NOW - 20),
        row(3, 3, 0, NOW - 30),
    ];
    let ctx = context_with(rank, Vec::new());
    let out = ctx.random_rank(NOW);
    let mut ids: Vec<i64> = out.iter().map(|r| r.membership.id).collect();
    ids.sort();
    assert_eq!(ids, vec![1, 2, 3]);
}

#[test]
fn levels_report_every_member_tendency() {
    let mut ctx = context_with(Vec::new(), Vec::new());
    let us = "US".to_string();
    let d = "a.example".to_string();
    for ip in ["1.1.1.1", "2.2.2.2", "3.3.3.3", "4.4.4.4", "5.5.5.5"] {
        let i = ip.to_string();
        ctx.boring_visitor(Some(VisitorType::Badge), &d, &i, &us, None, NOW).unwrap();
    }
    let levels = ctx.levels();
    assert_eq!(levels.len(), 3);
    assert_eq!(levels[0], (1, 1));
    assert_eq!(levels[1], (2, 1));
    assert_eq!(levels[2], (3, 1));
}

#[test]
fn get_tend_uses_the_current_average() {
    let ctx = context_with(Vec::new(), Vec::new());
    assert_eq!(ctx.get_tend_from_uv_and_rv(7, 3), 2);
    assert_eq!(ctx.get_tend_from_uv_and_rv(0, 0), 1);
    assert_eq!(ctx.get_tend_from_uv_and_rv(100, 0), 10);
}

#[test]
fn mixed_addresses_mask_only_the_dotted_part() {
    // Too few colons for the colon rule, so only the dotted rule applies.
    assert_eq!(mask_ip("::ffff:1.2.3.4"), "::ffff:1.****.4");
}

#[test]
fn days_roll_at_local_midnight() {
    // The reference timezone sits eight hours ahead of UTC.
    assert_eq!(day_of(0), 0);
    assert_eq!(day_of(57_599), 0);
    assert_eq!(day_of(57_600), 1);
    assert_eq!(day_of(57_600 + 86_400), 2);
}
