use domaincards::context::Context;
use domaincards::counters::CounterKind;
use domaincards::context::counters_from_rows;
use domaincards::member::{Member, MemberDirectory};
use domaincards::model::{VisitError, VisitorType};

const NOW: i64 = 1_700_000_000;

fn member(id: i64, domain: &str, name: &str) -> Member {
    Member {
        id,
        domain: domain.to_string(),
        name: name.to_string(),
        description: "a member site".to_string(),
        github_username: "someone".to_string(),
        hidden: false,
    }
}

fn directory() -> MemberDirectory {
    MemberDirectory::load(vec![
        member(7, "acme.com", "Acme"),
        member(9, "other.example", "Other"),
    ])
}

fn fresh_context() -> Context {
    Context::default(
        directory(),
        &Vec::new(),
        Vec::new(),
        Vec::new(),
        5,
        "ring.example".to_string(),
        NOW,
    )
}

fn badge(
    ctx: &mut Context,
    domain: &str,
    ip: &str,
    referrer: Option<&str>,
    now: i64,
) -> Result<(Member, i64, i64, i64), VisitError> {
    let d = domain.to_string();
    let i = ip.to_string();
    let c = "US".to_string();
    let r = referrer.map(|s| s.to_string());
    ctx.boring_visitor(Some(VisitorType::Badge), &d, &i, &c, r.as_ref(), now)
}

fn referral(
    ctx: &mut Context,
    ip: &str,
    referrer: &str,
    now: i64,
) -> Result<(Member, i64, i64, i64), VisitError> {
    let d = "".to_string();
    let i = ip.to_string();
    let c = "US".to_string();
    let r = Some(referrer.to_string());
    ctx.boring_visitor(Some(VisitorType::Referer), &d, &i, &c, r.as_ref(), now)
}

#[test]
fn three_badges_then_a_referral() {
    // Three distinct clients view acme.com's badge in one window, then a
    // referral from acme.com's site arrives: counts 3 and 1, tendency
    // (3+1)/5 clamped to 1 throughout.
    let mut ctx = fresh_context();
    let acme_ref = Some("https://acme.com/page");
    let r1 = badge(&mut ctx, "acme.com", "1.2.3.4", acme_ref, NOW).unwrap();
    assert_eq!((r1.0.id, r1.1, r1.2, r1.3), (7, 1, 0, 1));
    let r2 = badge(&mut ctx, "acme.com", "5.6.7.8", acme_ref, NOW).unwrap();
    assert_eq!((r2.1, r2.2, r2.3), (2, 0, 1));
    let r3 = badge(&mut ctx, "acme.com", "9.10.11.12", acme_ref, NOW).unwrap();
    assert_eq!((r3.1, r3.2, r3.3), (3, 0, 1));
    let r4 = referral(&mut ctx, "13.14.15.16", "https://acme.com/home", NOW).unwrap();
    assert_eq!((r4.0.id, r4.1, r4.2, r4.3), (7, 3, 1, 1));
}

#[test]
fn repeated_key_in_window_counts_once() {
    // The same client, member and kind twice inside the window: one
    // increment. The referrer matches the queried domain, so the
    // cross-domain bypass does not apply.
    let mut ctx = fresh_context();
    let acme_ref = Some("https://acme.com/page");
    let r1 = badge(&mut ctx, "acme.com", "1.2.3.4", acme_ref, NOW).unwrap();
    assert_eq!(r1.1, 1);
    let r2 = badge(&mut ctx, "acme.com", "1.2.3.4", acme_ref, NOW + 60).unwrap();
    assert_eq!(r2.1, 1);
}

#[test]
fn repeated_key_after_window_counts_again() {
    let mut ctx = fresh_context();
    let acme_ref = Some("https://acme.com/page");
    let r1 = badge(&mut ctx, "acme.com", "1.2.3.4", acme_ref, NOW).unwrap();
    assert_eq!(r1.1, 1);
    let after = NOW + domaincards::context::DEDUP_TTL;
    let r2 = badge(&mut ctx, "acme.com", "1.2.3.4", acme_ref, after).unwrap();
    assert_eq!(r2.1, 2);
}

#[test]
fn cross_domain_arrival_is_never_suppressed() {
    // A visitor arriving with a referrer that differs from the queried
    // domain is counted even when its dedup key was already seen.
    let mut ctx = fresh_context();
    let outside_ref = Some("https://news.example/story");
    let r1 = badge(&mut ctx, "acme.com", "1.2.3.4", outside_ref, NOW).unwrap();
    assert_eq!(r1.1, 1);
    let r2 = badge(&mut ctx, "acme.com", "1.2.3.4", outside_ref, NOW + 60).unwrap();
    assert_eq!(r2.1, 2);
}

#[test]
fn repeated_referral_in_window_counts_once() {
    let mut ctx = fresh_context();
    let r1 = referral(&mut ctx, "1.2.3.4", "https://acme.com/h", NOW).unwrap();
    assert_eq!(r1.2, 1);
    let r2 = referral(&mut ctx, "1.2.3.4", "https://acme.com/h", NOW + 60).unwrap();
    assert_eq!(r2.2, 1);
}

#[test]
fn distinct_keys_all_count() {
    // Several clients that share no dedup key each move the counter.
    let mut ctx = fresh_context();
    let acme_ref = Some("https://acme.com/page");
    for (i, ip) in ["1.1.1.1", "2.2.2.2", "3.3.3.3", "4.4.4.4"].iter().enumerate() {
        let r = badge(&mut ctx, "acme.com", ip, acme_ref, NOW).unwrap();
        assert_eq!(r.1, i as i64 + 1);
    }
}

#[test]
fn self_referral_is_rejected_and_changes_nothing() {
    let mut ctx = fresh_context();
    let r = referral(&mut ctx, "1.2.3.4", "https://ring.example/", NOW);
    assert_eq!(r.unwrap_err(), VisitError::SelfReferralRejected);
    // No counter moved: the next read still sees zero.
    let acme_ref = Some("https://acme.com/page");
    let after = badge(&mut ctx, "acme.com", "5.6.7.8", acme_ref, NOW).unwrap();
    assert_eq!((after.1, after.2), (1, 0));
}

#[test]
fn unknown_member_is_rejected() {
    let mut ctx = fresh_context();
    let r = badge(&mut ctx, "nobody.example", "1.2.3.4", None, NOW);
    assert_eq!(r.unwrap_err(), VisitError::UnknownMember);
}

#[test]
fn visit_without_kind_only_reads() {
    let mut ctx = fresh_context();
    let acme_ref = Some("https://acme.com/page");
    badge(&mut ctx, "acme.com", "1.2.3.4", acme_ref, NOW).unwrap();
    let d = "acme.com".to_string();
    let i = "9.9.9.9".to_string();
    let c = "US".to_string();
    let r = ctx.boring_visitor(None, &d, &i, &c, None, NOW).unwrap();
    assert_eq!((r.1, r.2), (1, 0));
    // Reading twice changes nothing.
    let r2 = ctx.boring_visitor(None, &d, &i, &c, None, NOW).unwrap();
    assert_eq!((r2.1, r2.2), (1, 0));
}

#[test]
fn counted_visit_publishes_masked_event() {
    let mut ctx = fresh_context();
    let mut cursor = ctx.bus.subscribe();
    assert!(cursor.poll(&ctx.bus).is_none());
    let acme_ref = Some("https://acme.com/page");
    badge(&mut ctx, "acme.com", "203.0.113.5", acme_ref, NOW).unwrap();
    let e = cursor.poll(&ctx.bus).expect("one event after a counted visit");
    assert_eq!(e.ip, "203.****.5");
    assert_eq!(e.country, "US");
    assert_eq!(e.member.id, 7);
    assert_eq!(e.member.description, "");
    assert_eq!(e.member.github_username, "");
    assert_eq!(e.referrer.as_deref(), Some("acme.com"));
    assert!(cursor.poll(&ctx.bus).is_none());
}

#[test]
fn suppressed_visit_publishes_nothing() {
    let mut ctx = fresh_context();
    let acme_ref = Some("https://acme.com/page");
    badge(&mut ctx, "acme.com", "1.2.3.4", acme_ref, NOW).unwrap();
    let mut cursor = ctx.bus.subscribe();
    badge(&mut ctx, "acme.com", "1.2.3.4", acme_ref, NOW + 1).unwrap();
    assert!(cursor.poll(&ctx.bus).is_none());
}

#[test]
fn subscribers_see_only_the_latest_event() {
    let mut ctx = fresh_context();
    let mut cursor = ctx.bus.subscribe();
    let acme_ref = Some("https://acme.com/page");
    badge(&mut ctx, "acme.com", "1.2.3.4", acme_ref, NOW).unwrap();
    badge(&mut ctx, "acme.com", "5.6.7.8", acme_ref, NOW).unwrap();
    let e = cursor.poll(&ctx.bus).expect("the latest event");
    assert_eq!(e.ip, "5.****.8");
    assert!(cursor.poll(&ctx.bus).is_none());
}

#[test]
fn plan_flush_reports_only_changes() {
    let mut ctx = fresh_context();
    let mut baseline = domaincards::counters::VisitCounters::new();
    let acme_ref = Some("https://acme.com/page");
    badge(&mut ctx, "acme.com", "1.2.3.4", acme_ref, NOW).unwrap();
    let rows = ctx.plan_flush(&mut baseline, NOW + 10);
    assert_eq!(rows.len(), 1);
    assert_eq!(rows[0].membership_id, 7);
    assert_eq!(rows[0].unique_visitor, 1);
    assert_eq!(rows[0].referrer, 0);
    assert_eq!(rows[0].updated_at, NOW);
    // Nothing moved since: the next tick persists nothing.
    let rows2 = ctx.plan_flush(&mut baseline, NOW + 20);
    assert!(rows2.is_empty());
}

#[test]
fn flush_then_restart_round_trip() {
    // Persisted rows, read back, reconstruct the in-memory counters.
    let mut ctx = fresh_context();
    let acme_ref = Some("https://acme.com/page");
    let other_ref = Some("https://other.example/");
    badge(&mut ctx, "acme.com", "1.2.3.4", acme_ref, NOW).unwrap();
    badge(&mut ctx, "acme.com", "5.6.7.8", acme_ref, NOW + 5).unwrap();
    badge(&mut ctx, "other.example", "1.2.3.4", other_ref, NOW + 7).unwrap();
    referral(&mut ctx, "9.9.9.9", "https://acme.com/h", NOW + 9).unwrap();

    let rows = ctx.final_flush_rows(NOW + 30);
    let reloaded = counters_from_rows(&rows);
    for id in [7i64, 9i64] {
        assert_eq!(
            reloaded.get(CounterKind::UniqueVisitor, id),
            ctx.counters.get(CounterKind::UniqueVisitor, id)
        );
        assert_eq!(
            reloaded.get(CounterKind::Referrer, id),
            ctx.counters.get(CounterKind::Referrer, id)
        );
    }

    // A full restart from those rows serves the same counts.
    let mut ctx2 = Context::default(
        directory(),
        &rows,
        Vec::new(),
        Vec::new(),
        5,
        "ring.example".to_string(),
        NOW + 40,
    );
    let d = "acme.com".to_string();
    let i = "0.0.0.0".to_string();
    let c = "US".to_string();
    let r = ctx2.boring_visitor(None, &d, &i, &c, None, NOW + 40).unwrap();
    assert_eq!((r.1, r.2), (2, 1));
}

#[test]
fn rollover_resets_and_is_idempotent() {
    let mut ctx = fresh_context();
    let mut baseline = domaincards::counters::VisitCounters::new();
    let acme_ref = Some("https://acme.com/page");
    badge(&mut ctx, "acme.com", "1.2.3.4", acme_ref, NOW).unwrap();
    assert!(!ctx.needs_rollover(NOW + 60));

    let next_day = NOW + 86_400;
    assert!(ctx.needs_rollover(next_day));
    ctx.apply_rollover(&mut baseline, next_day, 0);

    // Counters and dedup marks are gone; the average is clamped to 1.
    let r = badge(&mut ctx, "acme.com", "1.2.3.4", acme_ref, next_day).unwrap();
    assert_eq!((r.1, r.2), (1, 0));

    // The duplicate tick finds nothing to do.
    assert!(!ctx.needs_rollover(next_day));
    ctx.apply_rollover(&mut baseline, next_day, 0);
    let d = "acme.com".to_string();
    let i = "x".to_string();
    let c = "US".to_string();
    let again = ctx.boring_visitor(None, &d, &i, &c, None, next_day).unwrap();
    assert_eq!(again.1, 0);
    assert!(!ctx.needs_rollover(next_day));
}

#[test]
fn rollover_clears_dedup_marks() {
    let mut ctx = fresh_context();
    let mut baseline = domaincards::counters::VisitCounters::new();
    let acme_ref = Some("https://acme.com/page");
    badge(&mut ctx, "acme.com", "1.2.3.4", acme_ref, NOW).unwrap();
    let next_day = NOW + 86_400;
    ctx.apply_rollover(&mut baseline, next_day, 3);
    // The same key counts again on the new day even inside the old window.
    let r = badge(&mut ctx, "acme.com", "1.2.3.4", acme_ref, next_day).unwrap();
    assert_eq!(r.1, 1);
}

#[test]
fn malformed_referrer_reads_as_no_referrer() {
    let mut ctx = fresh_context();
    let bad_ref = Some("not a url at all");
    // Still counted (cross-domain path), and the event carries no referrer.
    let mut cursor = ctx.bus.subscribe();
    let r = badge(&mut ctx, "acme.com", "1.2.3.4", bad_ref, NOW).unwrap();
    assert_eq!(r.1, 1);
    let e = cursor.poll(&ctx.bus).unwrap();
    assert!(e.referrer.is_none());
}
