use securecrp::source::{
    collect_accepted, is_accepted, normalize_submission, build_reviews, require_notes,
    AuthorInterner, RawDecision, RawReview, RawSubmission,
};
use securecrp::text::{parse_leading_u64, u64_to_string, has_prefix};
use securecrp::HarnessError;

fn s(t: &str) -> String {
    String::from(t)
}

#[test]
fn interner_assigns_dense_stable_ids() {
    let mut it = AuthorInterner::new();
    let a = it.intern(&s("alice@example.org"));
    let b = it.intern(&s("bob@example.org"));
    let a2 = it.intern(&s("alice@example.org"));
    assert_eq!(a, 0);
    assert_eq!(b, 1);
    assert_eq!(a2, 0);
    assert_eq!(it.len(), 2);
    let c = it.intern(&s("carol@example.org"));
    assert_eq!(c, 2);
    assert_eq!(it.keys()[0], "alice@example.org");
    assert_eq!(it.keys()[2], "carol@example.org");
}

#[test]
fn acceptance_prefix_marks_accepted() {
    let decisions = vec![RawDecision {
        forum: Some(s("X")),
        decision: Some(s("Accept (Oral)")),
    }];
    let accepted = collect_accepted(&decisions).unwrap();
    assert!(is_accepted(&accepted, &s("X")));
    assert!(!is_accepted(&accepted, &s("Y")));
}

#[test]
fn non_accept_decision_is_rejected() {
    let decisions = vec![
        RawDecision { forum: Some(s("X")), decision: Some(s("Reject")) },
        RawDecision { forum: Some(s("Y")), decision: Some(s("Invite to Workshop (Accept)")) },
        RawDecision { forum: Some(s("Z")), decision: None },
    ];
    let accepted = collect_accepted(&decisions).unwrap();
    assert!(!is_accepted(&accepted, &s("X")));
    assert!(!is_accepted(&accepted, &s("Y")));
    assert!(!is_accepted(&accepted, &s("Z")));
    assert_eq!(accepted.len(), 0);
}

#[test]
fn missing_forum_is_fatal() {
    let decisions = vec![RawDecision { forum: None, decision: Some(s("Accept")) }];
    let err = collect_accepted(&decisions).unwrap_err();
    assert!(matches!(err, HarnessError::Parse(_)));
}

#[test]
fn prefix_test_is_exact() {
    assert!(has_prefix("Accept (Oral)", "Accept"));
    assert!(has_prefix("Accept", "Accept"));
    assert!(!has_prefix("Accep", "Accept"));
    assert!(!has_prefix("accept (oral)", "Accept"));
    assert!(!has_prefix(" Accept", "Accept"));
}

#[test]
fn leading_token_parses() {
    assert_eq!(parse_leading_u64("7: good paper").unwrap(), 7);
    assert_eq!(parse_leading_u64("  10:: meh").unwrap(), 10);
    assert_eq!(parse_leading_u64("4").unwrap(), 4);
    assert_eq!(parse_leading_u64("0 trailing words").unwrap(), 0);
}

#[test]
fn leading_token_failures() {
    assert!(matches!(parse_leading_u64("strong accept"), Err(HarnessError::Parse(_))));
    assert!(matches!(parse_leading_u64(""), Err(HarnessError::Parse(_))));
    assert!(matches!(parse_leading_u64("   "), Err(HarnessError::Parse(_))));
    assert!(matches!(parse_leading_u64(":"), Err(HarnessError::Parse(_))));
    assert!(matches!(parse_leading_u64("7a: ok"), Err(HarnessError::Parse(_))));
    assert!(matches!(parse_leading_u64("-3: bad"), Err(HarnessError::Parse(_))));
    assert!(matches!(
        parse_leading_u64("99999999999999999999999: huge"),
        Err(HarnessError::Parse(_))
    ));
}

#[test]
fn decimal_rendering() {
    assert_eq!(u64_to_string(0), "0");
    assert_eq!(u64_to_string(7), "7");
    assert_eq!(u64_to_string(1234), "1234");
    assert_eq!(u64_to_string(u64::MAX), "18446744073709551615");
}

fn submission(id: &str, number: u64, title: &str, authors: &[&str]) -> RawSubmission {
    RawSubmission {
        id: Some(s(id)),
        number: Some(number),
        title: Some(s(title)),
        authorids: Some(authors.iter().map(|a| Some(s(a))).collect()),
    }
}

#[test]
fn submissions_share_author_ids() {
    let decisions = vec![RawDecision { forum: Some(s("p1")), decision: Some(s("Accept (Poster)")) }];
    let accepted = collect_accepted(&decisions).unwrap();
    let mut it = AuthorInterner::new();
    let one = normalize_submission(
        &submission("p1", 1, "First", &["alice", "bob"]),
        &accepted,
        &mut it,
    )
    .unwrap();
    let two = normalize_submission(
        &submission("p2", 2, "Second", &["bob", "carol"]),
        &accepted,
        &mut it,
    )
    .unwrap();
    assert_eq!(one.paper.authors, vec![0, 1]);
    assert_eq!(two.paper.authors, vec![1, 2]);
    assert!(one.paper.accepted);
    assert!(!two.paper.accepted);
    assert_eq!(one.source_id, "p1");
    assert_eq!(two.number, 2);
    assert_eq!(it.len(), 3);
}

#[test]
fn missing_submission_field_is_fatal() {
    let accepted: Vec<String> = Vec::new();
    let mut it = AuthorInterner::new();
    let mut sub = submission("p1", 1, "First", &["alice"]);
    sub.title = None;
    assert!(matches!(
        normalize_submission(&sub, &accepted, &mut it),
        Err(HarnessError::Parse(_))
    ));
    let mut sub = submission("p1", 1, "First", &["alice"]);
    sub.authorids = Some(vec![Some(s("alice")), None]);
    assert!(matches!(
        normalize_submission(&sub, &accepted, &mut it),
        Err(HarnessError::Parse(_))
    ));
    assert_eq!(it.len(), 0);
}

#[test]
fn reviews_parse_scores() {
    let raws = vec![
        RawReview { rating: Some(s("7: strong")), confidence: Some(s("4: high")) },
        RawReview { rating: Some(s("3: weak")), confidence: Some(s("5")) },
    ];
    let reviews = build_reviews(9, &raws).unwrap();
    assert_eq!(reviews.len(), 2);
    assert_eq!(reviews[0].paper, 9);
    assert_eq!(reviews[0].rating, 7);
    assert_eq!(reviews[0].confidence, 4);
    assert_eq!(reviews[1].rating, 3);
    assert_eq!(reviews[1].confidence, 5);
}

#[test]
fn malformed_review_is_fatal() {
    let raws = vec![RawReview { rating: Some(s("strong")), confidence: Some(s("4")) }];
    assert!(matches!(build_reviews(1, &raws), Err(HarnessError::Parse(_))));
    let raws = vec![RawReview { rating: Some(s("7")), confidence: None }];
    assert!(matches!(build_reviews(1, &raws), Err(HarnessError::Parse(_))));
}

#[test]
fn token_whitespace_variants() {
    assert_eq!(parse_leading_u64("\t7 rest").unwrap(), 7);
    assert_eq!(parse_leading_u64("\n8:\tmore").unwrap(), 8);
    assert_eq!(parse_leading_u64("9::::").unwrap(), 9);
}

#[test]
fn interner_accepts_empty_identifier() {
    let mut it = AuthorInterner::new();
    assert_eq!(it.intern(&s("")), 0);
    assert_eq!(it.intern(&s("x")), 1);
    assert_eq!(it.intern(&s("")), 0);
}

#[test]
fn accepted_forums_keep_order_and_duplicates() {
    let decisions = vec![
        RawDecision { forum: Some(s("a")), decision: Some(s("Accept (Oral)")) },
        RawDecision { forum: Some(s("b")), decision: Some(s("Reject")) },
        RawDecision { forum: Some(s("a")), decision: Some(s("Accept (Poster)")) },
    ];
    let accepted = collect_accepted(&decisions).unwrap();
    assert_eq!(accepted, vec![s("a"), s("a")]);
}

#[test]
fn missing_notes_array_is_a_source_error() {
    let got: Result<Vec<u64>, _> = require_notes(Some(vec![1, 2]));
    assert_eq!(got.unwrap(), vec![1, 2]);
    let missing: Result<Vec<u64>, _> = require_notes(None);
    assert!(matches!(missing, Err(HarnessError::SourceFetch(_))));
}

#[test]
fn leading_plus_sign_is_accepted() {
    assert_eq!(parse_leading_u64("+7: ok").unwrap(), 7);
    assert_eq!(parse_leading_u64("+0").unwrap(), 0);
    assert!(matches!(parse_leading_u64("+"), Err(HarnessError::Parse(_))));
    assert!(matches!(parse_leading_u64("++7"), Err(HarnessError::Parse(_))));
    assert!(matches!(parse_leading_u64("7+"), Err(HarnessError::Parse(_))));
}

#[test]
fn unicode_whitespace_delimits_tokens() {
    assert_eq!(parse_leading_u64("7\u{A0}good").unwrap(), 7);
    assert_eq!(parse_leading_u64("\u{2009}8: thin-spaced").unwrap(), 8);
    assert_eq!(parse_leading_u64("\u{3000}9\u{2028}x").unwrap(), 9);
}
