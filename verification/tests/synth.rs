use securecrp::source::Review;
use securecrp::workload::{
    assign_reviews, assignment_rows, chunk_assignments, coauthor_rows, paper_rows,
    referee_count, role_of, review_rows, user_profile_rows, version_rows, Role,
    PAPERS_PER_REFEREE,
};
use securecrp::source::Paper;
use securecrp::tenant::{is_sample_index, logged_in_count, view_name};

fn s(t: &str) -> String {
    String::from(t)
}

fn review(paper: usize, rating: u64, confidence: u64) -> Review {
    Review { paper, rating, confidence }
}

#[test]
fn referee_count_is_ceiling() {
    assert_eq!(referee_count(6, 3), 2);
    assert_eq!(referee_count(7, 3), 3);
    assert_eq!(referee_count(1, 3), 1);
    assert_eq!(referee_count(0, 3), 0);
    assert_eq!(PAPERS_PER_REFEREE, 3);
}

#[test]
fn roles_are_ordinal() {
    assert_eq!(role_of(0, 2), Role::Chair);
    assert_eq!(role_of(1, 2), Role::ProgramCommittee);
    assert_eq!(role_of(2, 2), Role::Normal);
    assert_eq!(role_of(3, 2), Role::Normal);
    assert_eq!(Role::Chair.label(), "chair");
    assert_eq!(Role::ProgramCommittee.label(), "pc");
    assert_eq!(Role::Normal.label(), "normal");
}

#[test]
fn end_to_end_synthesis_scenario() {
    // Four authors, six reviews over two papers, groups of three.
    let emails: Vec<String> = vec![s("a0"), s("a1"), s("a2"), s("a3")];
    let mut reviews = vec![
        review(1, 7, 4),
        review(1, 5, 3),
        review(1, 6, 4),
        review(2, 4, 2),
        review(2, 8, 5),
        review(2, 3, 1),
    ];
    let nreferees = referee_count(reviews.len(), 3);
    assert_eq!(nreferees, 2);

    let users = user_profile_rows(&emails, nreferees);
    assert_eq!(users.len(), 4);
    assert_eq!(users[0].role, Role::Chair);
    assert_eq!(users[1].role, Role::ProgramCommittee);
    assert_eq!(users[2].role, Role::Normal);
    assert_eq!(users[3].role, Role::Normal);
    assert_eq!(users[0].uid, 1);
    assert_eq!(users[0].email, "a0");
    assert_eq!(users[0].affiliation, "university");
    assert_eq!(users[0].level, "0");

    let before: Vec<(usize, u64, u64)> =
        reviews.iter().map(|r| (r.paper, r.rating, r.confidence)).collect();
    let assignments = assign_reviews(&mut reviews, 3);
    assert_eq!(assignments.len(), 6);
    // Exactly two groups of three, in chunk order.
    let groups: Vec<usize> = assignments.iter().map(|a| a.referee).collect();
    assert_eq!(groups, vec![1, 1, 1, 2, 2, 2]);
    // The union of the groups is the input review set: no loss, no
    // duplication.
    let mut after: Vec<(usize, u64, u64)> =
        assignments.iter().map(|a| (a.paper, a.rating, a.confidence)).collect();
    let mut sorted_before = before.clone();
    sorted_before.sort();
    after.sort();
    assert_eq!(after, sorted_before);
}

#[test]
fn chunking_preserves_order_without_shuffle() {
    let reviews = vec![review(1, 1, 1), review(2, 2, 2), review(3, 3, 3), review(4, 4, 4)];
    let assignments = chunk_assignments(&reviews, 3);
    let groups: Vec<usize> = assignments.iter().map(|a| a.referee).collect();
    assert_eq!(groups, vec![1, 1, 1, 2]);
    assert_eq!(assignments[3].paper, 4);
    assert_eq!(assignments[3].rating, 4);
}

#[test]
fn table_rows_match_entities() {
    let papers = vec![
        Paper { title: s("One"), accepted: true, authors: vec![0, 1] },
        Paper { title: s("Two"), accepted: false, authors: vec![1] },
    ];
    let coauthors = coauthor_rows(&papers);
    let pairs: Vec<(usize, usize)> = coauthors.iter().map(|c| (c.paper, c.author)).collect();
    assert_eq!(pairs, vec![(1, 1), (1, 2), (2, 2)]);

    let prows = paper_rows(&papers);
    assert_eq!(prows.len(), 2);
    assert_eq!(prows[0].id, 1);
    assert_eq!(prows[0].leader, 1);
    assert!(prows[0].accepted);
    assert_eq!(prows[1].leader, 2);
    assert!(!prows[1].accepted);

    let vrows = version_rows(&papers);
    assert_eq!(vrows[1].id, 2);
    assert_eq!(vrows[1].title, "Two");
}

#[test]
fn assignment_and_review_rows() {
    let reviews = vec![review(5, 7, 4)];
    let assignments = chunk_assignments(&reviews, 3);
    let arows = assignment_rows(&assignments);
    assert_eq!(arows.len(), 1);
    assert_eq!(arows[0].paper, 5);
    assert_eq!(arows[0].referee, 1);
    assert_eq!(arows[0].note, "7,4");
    let rrows = review_rows(&assignments);
    assert_eq!(rrows[0].paper, 5);
    assert_eq!(rrows[0].referee, 1);
    assert_eq!(rrows[0].text, "review text");
    assert_eq!(rrows[0].rating, 7);
    assert_eq!(rrows[0].confidence, 4);
}

#[test]
fn logged_in_population_is_floored() {
    assert_eq!(logged_in_count(1, 1, 4), 4);
    assert_eq!(logged_in_count(1, 2, 5), 2);
    assert_eq!(logged_in_count(0, 1, 10), 0);
    assert_eq!(logged_in_count(2, 10, 7), 1);
}

#[test]
fn sampling_keeps_early_indices() {
    // 100 logged-in users: stripe of 10.
    assert!(is_sample_index(0, 100));
    assert!(is_sample_index(1, 100));
    assert!(is_sample_index(10, 100));
    assert!(is_sample_index(20, 100));
    assert!(!is_sample_index(5, 100));
    assert!(!is_sample_index(11, 100));
    // Few users: only the first two are sampled.
    assert!(is_sample_index(0, 5));
    assert!(is_sample_index(1, 5));
    assert!(!is_sample_index(2, 5));
}

#[test]
fn tenant_view_names() {
    assert_eq!(view_name(0), "ReviewList_u1");
    assert_eq!(view_name(41), "ReviewList_u42");
}

#[test]
fn sampling_with_mid_sized_population() {
    // 25 logged-in users: stripe of 2 keeps every even index.
    assert!(is_sample_index(0, 25));
    assert!(is_sample_index(1, 25));
    assert!(is_sample_index(2, 25));
    assert!(!is_sample_index(3, 25));
    assert!(is_sample_index(4, 25));
}

#[test]
fn single_review_forms_one_group() {
    let mut reviews = vec![review(1, 2, 3)];
    let assignments = assign_reviews(&mut reviews, 3);
    assert_eq!(assignments.len(), 1);
    assert_eq!(assignments[0].referee, 1);
    assert_eq!(referee_count(1, 3), 1);
}
