//! Workload synthesizer: derives the referee population from the review
//! count, assigns roles by ordinal position, partitions the shuffled reviews
//! into fixed-size assignment groups, and produces the row sets that the
//! target platform's base tables are loaded with.

use vstd::prelude::*;
use vstd::string::*;
use vstd::arithmetic::div_mod::{
    lemma_fundamental_div_mod,
    lemma_fundamental_div_mod_converse,
    lemma_div_is_ordered,
    lemma_div_nonincreasing,
    lemma_mod_bound,
    lemma_div_pos_is_pos,
    lemma_div_by_multiple,
};
use crate::source::{Paper, Review};
use crate::text::{u64_to_string, dec_digits};
use crate::rng::shuffle_vec;

verus! {

/// Reviews are grouped in batches of this size; a batch's ordinal index is a
/// synthetic referee identity.
pub const PAPERS_PER_REFEREE: usize = 3;

#[derive(Clone, Copy, Debug, PartialEq, Eq, Structural)]
pub enum Role {
    Chair,
    ProgramCommittee,
    Normal,
}

impl Role {
    /// The role name as loaded into the user table.
    pub fn label(&self) -> (r: String)
        ensures
            *self == Role::Chair ==> r@ == "chair"@,
            *self == Role::ProgramCommittee ==> r@ == "pc"@,
            *self == Role::Normal ==> r@ == "normal"@,
    {
        match self {
            Role::Chair => String::from_str("chair"),
            Role::ProgramCommittee => String::from_str("pc"),
            Role::Normal => String::from_str("normal"),
        }
    }
}

/// Role of the author at ordinal position `i`: the first author is chair, the
/// next `nreferees - 1` are program committee, the rest are normal users.
pub open spec fn spec_role(i: int, nreferees: int) -> Role {
    if i == 0 {
        Role::Chair
    } else if i < nreferees {
        Role::ProgramCommittee
    } else {
        Role::Normal
    }
}

pub fn role_of(i: usize, nreferees: usize) -> (r: Role)
    ensures
        r == spec_role(i as int, nreferees as int),
{
    if i == 0 {
        Role::Chair
    } else if i < nreferees {
        Role::ProgramCommittee
    } else {
        Role::Normal
    }
}

pub open spec fn ceil_div(n: int, k: int) -> int {
    (n + k - 1) / k
}

/// The referee population: every referee judges `k` reviews, so
/// `ceil(nreviews / k)` referees cover them all.
pub fn referee_count(nreviews: usize, k: usize) -> (r: usize)
    requires
        k >= 1,
        nreviews + k - 1 <= usize::MAX,
    ensures
        r == ceil_div(nreviews as int, k as int),
{
    (nreviews + (k - 1)) / k
}

pub open spec fn roles_of(n: int, nreferees: int) -> Seq<Role> {
    Seq::new(n as nat, |i: int| spec_role(i, nreferees))
}

pub open spec fn count_role(s: Seq<Role>, r: Role) -> int
    decreases s.len(),
{
    if s.len() == 0 {
        0
    } else {
        count_role(s.drop_last(), r) + if s.last() == r {
            1int
        } else {
            0int
        }
    }
}

proof fn lemma_role_counts(n: int, nrev: int)
    requires
        0 <= n,
        1 <= nrev,
    ensures
        count_role(roles_of(n, nrev), Role::Chair) == if n >= 1 { 1int } else { 0int },
        count_role(roles_of(n, nrev), Role::ProgramCommittee) == if n >= nrev {
            nrev - 1
        } else if n >= 1 {
            n - 1
        } else {
            0int
        },
        count_role(roles_of(n, nrev), Role::Normal) == if n >= nrev { n - nrev } else { 0int },
    decreases n,
{
    if n > 0 {
        lemma_role_counts(n - 1, nrev);
        assert(roles_of(n, nrev).drop_last() =~= roles_of(n - 1, nrev));
        assert(roles_of(n, nrev).last() == spec_role(n - 1, nrev));
    }
}

/// Role assignment is a strict ordinal partition: whenever at least as many
/// authors as referees exist, there is exactly one chair, exactly
/// `nreferees - 1` program-committee members, and the remaining
/// `n - nreferees` authors are normal users.
pub proof fn lemma_role_partition(n: int, nreferees: int)
    requires
        1 <= nreferees <= n,
    ensures
        count_role(roles_of(n, nreferees), Role::Chair) == 1,
        count_role(roles_of(n, nreferees), Role::ProgramCommittee) == nreferees - 1,
        count_role(roles_of(n, nreferees), Role::Normal) == n - nreferees,
{
    lemma_role_counts(n, nreferees);
}

/// One row of the user table.
pub struct UserRow {
    pub uid: usize,
    pub email: String,
    pub name: String,
    pub affiliation: String,
    pub level: String,
    pub role: Role,
}

/// One user row per author, in dense-id order: 1-based uid, the source
/// identifier as both email and display name, and the ordinal role.
pub fn user_profile_rows(emails: &Vec<String>, nreferees: usize) -> (r: Vec<UserRow>)
    ensures
        r@.len() == emails@.len(),
        forall|i: int|
            0 <= i < r@.len() ==> {
                let u = #[trigger] r@[i];
                &&& u.uid == i + 1
                &&& u.email@ == emails@[i]@
                &&& u.name@ == emails@[i]@
                &&& u.affiliation@ == "university"@
                &&& u.level@ == "0"@
                &&& u.role == spec_role(i, nreferees as int)
            },
        r@.map_values(|u: UserRow| u.role) == roles_of(emails@.len() as int, nreferees as int),
{
    let n = emails.len();
    let mut out: Vec<UserRow> = Vec::new();
    let mut i: usize = 0;
    while i < n
        invariant
            i <= n,
            n == emails@.len(),
            out@.len() == i,
            forall|j: int|
                0 <= j < i ==> {
                    let u = #[trigger] out@[j];
                    &&& u.uid == j + 1
                    &&& u.email@ == emails@[j]@
                    &&& u.name@ == emails@[j]@
                    &&& u.affiliation@ == "university"@
                    &&& u.level@ == "0"@
                    &&& u.role == spec_role(j, nreferees as int)
                },
        decreases n - i,
    {
        let role = role_of(i, nreferees);
        out.push(UserRow {
            uid: i + 1,
            email: emails[i].clone(),
            name: emails[i].clone(),
            affiliation: String::from_str("university"),
            level: String::from_str("0"),
            role,
        });
        i += 1;
    }
    proof {
        assert(out@.map_values(|u: UserRow| u.role) =~= roles_of(
            emails@.len() as int,
            nreferees as int,
        ));
    }
    out
}

/// One review attributed to a synthetic referee (a 1-based assignment-group
/// index).
pub struct Assignment {
    pub paper: usize,
    pub referee: usize,
    pub rating: u64,
    pub confidence: u64,
}

pub open spec fn review_of(a: Assignment) -> Review {
    Review { paper: a.paper, rating: a.rating, confidence: a.confidence }
}

/// The assignment group of the review at position `i`.
pub open spec fn group_of(i: int, k: int) -> int {
    i / k + 1
}

/// Partition the reviews, in their current order, into contiguous chunks of
/// size `k`; the chunk's 1-based index is the assigned referee.
pub fn chunk_assignments(reviews: &Vec<Review>, k: usize) -> (r: Vec<Assignment>)
    requires
        k >= 1,
    ensures
        r@.len() == reviews@.len(),
        forall|i: int|
            0 <= i < r@.len() ==> #[trigger] r@[i] == (Assignment {
                paper: reviews@[i].paper,
                referee: (group_of(i, k as int)) as usize,
                rating: reviews@[i].rating,
                confidence: reviews@[i].confidence,
            }),
        forall|i: int|
            0 <= i < r@.len() ==> (#[trigger] r@[i].referee) == group_of(i, k as int),
        r@.map_values(|a: Assignment| review_of(a)) == reviews@,
{
    let n = reviews.len();
    let mut out: Vec<Assignment> = Vec::new();
    let mut i: usize = 0;
    while i < n
        invariant
            i <= n,
            n == reviews@.len(),
            out@.len() == i,
            forall|j: int|
                0 <= j < i ==> #[trigger] out@[j] == (Assignment {
                    paper: reviews@[j].paper,
                    referee: (group_of(j, k as int)) as usize,
                    rating: reviews@[j].rating,
                    confidence: reviews@[j].confidence,
                }),
            forall|j: int| 0 <= j < i ==> (#[trigger] out@[j].referee) == group_of(j, k as int),
        decreases n - i,
    {
        proof {
            lemma_div_nonincreasing(i as int, k as int);
            lemma_div_pos_is_pos(i as int, k as int);
        }
        let referee = i / k + 1;
        out.push(Assignment {
            paper: reviews[i].paper,
            referee,
            rating: reviews[i].rating,
            confidence: reviews[i].confidence,
        });
        i += 1;
    }
    proof {
        assert(out@.map_values(|a: Assignment| review_of(a)) =~= reviews@);
    }
    out
}

/// Shuffle the reviews, then chunk them: the documented baseline behaviour.
/// Nothing prevents a referee from drawing a paper they authored; the
/// baseline does not exclude self-reviews.
pub fn assign_reviews(reviews: &mut Vec<Review>, k: usize) -> (r: Vec<Assignment>)
    requires
        k >= 1,
    ensures
        final(reviews)@.to_multiset() == old(reviews)@.to_multiset(),
        final(reviews)@.len() == old(reviews)@.len(),
        r@.len() == old(reviews)@.len(),
        r@.map_values(|a: Assignment| review_of(a)) == final(reviews)@,
        r@.map_values(|a: Assignment| review_of(a)).to_multiset() == old(
            reviews,
        )@.to_multiset(),
        forall|i: int| 0 <= i < r@.len() ==> #[trigger] r@[i].referee == group_of(i, k as int),
        forall|i: int|
            0 <= i < r@.len() ==> r@[i].paper == final(reviews)@[i].paper && r@[i].rating
                == final(reviews)@[i].rating && r@[i].confidence == final(reviews)@[i].confidence,
{
    shuffle_vec(reviews);
    let r = chunk_assignments(reviews, k);
    r
}

/// Every review lands in a group between 1 and `ceil(n / k)`, and a group `g`
/// holds exactly the positions in `[(g-1)k, gk)`.
pub proof fn lemma_group_partition(n: int, k: int, i: int)
    requires
        k >= 1,
        0 <= i < n,
    ensures
        1 <= group_of(i, k) <= ceil_div(n, k),
        (group_of(i, k) - 1) * k <= i < group_of(i, k) * k,
{
    lemma_fundamental_div_mod(i, k);
    let q = i / k;
    let r = i % k;
    assert(0 <= r < k);
    assert(q * k <= i < (q + 1) * k) by (nonlinear_arith)
        requires
            i == k * q + r,
            0 <= r < k,
    ;
    lemma_div_pos_is_pos(i, k);
    lemma_div_is_ordered(i, n - 1, k);
    lemma_fundamental_div_mod(n - 1, k);
    let q2 = (n - 1) / k;
    let r2 = (n - 1) % k;
    lemma_mod_bound(n - 1, k);
    assert((q2 + 1) * k + r2 == k * q2 + r2 + k) by (nonlinear_arith);
    lemma_fundamental_div_mod_converse(n - 1 + k, k, q2 + 1, r2);
    assert(ceil_div(n, k) == q2 + 1);
}

/// Group `g` holds exactly the review positions in `[(g - 1) k, g k)`: a
/// full chunk of `k` reviews wherever `g k <= n`, and the remainder in the
/// last group.
pub proof fn lemma_group_members(n: int, k: int, g: int, i: int)
    requires
        k >= 1,
        0 <= i < n,
        1 <= g,
    ensures
        group_of(i, k) == g <==> ((g - 1) * k <= i && i < g * k),
{
    lemma_fundamental_div_mod(i, k);
    lemma_mod_bound(i, k);
    let q = i / k;
    let r = i % k;
    assert(q * k <= i && i < (q + 1) * k) by (nonlinear_arith)
        requires
            i == k * q + r,
            0 <= r < k,
    ;
    if group_of(i, k) == g {
        assert((g - 1) * k == q * k && g * k == (q + 1) * k) by (nonlinear_arith)
            requires
                q == g - 1,
        ;
    } else {
        if q < g - 1 {
            assert((q + 1) * k <= (g - 1) * k) by (nonlinear_arith)
                requires
                    q + 1 <= g - 1,
                    k >= 1,
            ;
        } else {
            assert(g * k <= q * k) by (nonlinear_arith)
                requires
                    g <= q,
                    k >= 1,
            ;
        }
    }
}

/// Every group index up to `ceil(n / k)` is inhabited: its first member sits
/// at position `(g - 1) * k`.
pub proof fn lemma_group_nonempty(n: int, k: int, g: int)
    requires
        k >= 1,
        1 <= n,
        1 <= g <= ceil_div(n, k),
    ensures
        ({
            let i = (g - 1) * k;
            0 <= i < n && group_of(i, k) == g
        }),
{
    let i = (g - 1) * k;
    lemma_div_by_multiple(g - 1, k);
    assert(i / k == g - 1);
    assert((g - 1) * k >= 0) by (nonlinear_arith)
        requires
            g >= 1,
            k >= 1,
    ;
    lemma_fundamental_div_mod(n - 1, k);
    let q2 = (n - 1) / k;
    let r2 = (n - 1) % k;
    lemma_mod_bound(n - 1, k);
    assert((q2 + 1) * k + r2 == k * q2 + r2 + k) by (nonlinear_arith);
    lemma_fundamental_div_mod_converse(n - 1 + k, k, q2 + 1, r2);
    assert(ceil_div(n, k) == q2 + 1);
    assert(g - 1 <= q2);
    assert((g - 1) * k <= q2 * k) by (nonlinear_arith)
        requires
            g - 1 <= q2,
            k >= 1,
    ;
    assert(q2 * k <= n - 1) by (nonlinear_arith)
        requires
            n - 1 == k * q2 + r2,
            r2 >= 0,
    ;
}

/// What loading a paper into the platform's tables needs: at least one
/// author (the first is the owning author), with ids small enough to take
/// their 1-based form.
pub open spec fn paper_loadable(p: Paper) -> bool {
    &&& p.authors@.len() >= 1
    &&& forall|j: int| 0 <= j < p.authors@.len() ==> (#[trigger] p.authors@[j]) < usize::MAX
}

pub open spec fn papers_loadable(papers: Seq<Paper>) -> bool {
    forall|i: int| 0 <= i < papers.len() ==> paper_loadable(#[trigger] papers[i])
}

/// Whether every paper can be loaded; the row builders require it.
pub fn check_papers(papers: &Vec<Paper>) -> (r: bool)
    ensures
        r == papers_loadable(papers@),
{
    let n = papers.len();
    let mut i: usize = 0;
    while i < n
        invariant
            i <= n,
            n == papers@.len(),
            forall|a: int| 0 <= a < i ==> paper_loadable(#[trigger] papers@[a]),
        decreases n - i,
    {
        let m = papers[i].authors.len();
        if m == 0 {
            return false;
        }
        let mut j: usize = 0;
        while j < m
            invariant
                j <= m,
                i < n,
                n == papers@.len(),
                m == papers@[i as int].authors@.len(),
                forall|b: int|
                    0 <= b < j ==> (#[trigger] papers@[i as int].authors@[b]) < usize::MAX,
            decreases m - j,
        {
            if papers[i].authors[j] == usize::MAX {
                return false;
            }
            j += 1;
        }
        i += 1;
    }
    true
}

/// One row of the paper-coauthor table: 1-based paper and author ids.
pub struct CoauthorRow {
    pub paper: usize,
    pub author: usize,
}

pub open spec fn paper_coauthors(idx: int, p: Paper) -> Seq<CoauthorRow> {
    Seq::new(
        p.authors@.len(),
        |j: int| CoauthorRow { paper: (idx + 1) as usize, author: (p.authors@[j] + 1) as usize },
    )
}

/// The coauthor rows of all papers, in paper order.
pub open spec fn coauthor_spec(papers: Seq<Paper>) -> Seq<CoauthorRow>
    decreases papers.len(),
{
    if papers.len() == 0 {
        Seq::empty()
    } else {
        coauthor_spec(papers.drop_last()) + paper_coauthors(papers.len() - 1, papers.last())
    }
}

/// One row per (paper, author) pair, covering every author of every paper.
pub fn coauthor_rows(papers: &Vec<Paper>) -> (r: Vec<CoauthorRow>)
    requires
        papers_loadable(papers@),
    ensures
        r@ == coauthor_spec(papers@),
{
    let n = papers.len();
    let mut out: Vec<CoauthorRow> = Vec::new();
    let mut i: usize = 0;
    while i < n
        invariant
            i <= n,
            n == papers@.len(),
            papers_loadable(papers@),
            out@ == coauthor_spec(papers@.take(i as int)),
        decreases n - i,
    {
        let m = papers[i].authors.len();
        let ghost base = out@;
        let mut j: usize = 0;
        while j < m
            invariant
                j <= m,
                i < n,
                n == papers@.len(),
                m == papers@[i as int].authors@.len(),
                forall|b: int|
                    0 <= b < papers@[i as int].authors@.len()
                        ==> (#[trigger] papers@[i as int].authors@[b]) < usize::MAX,
                out@ == base + paper_coauthors(i as int, papers@[i as int]).take(j as int),
            decreases m - j,
        {
            out.push(CoauthorRow { paper: i + 1, author: papers[i].authors[j] + 1 });
            proof {
                assert(out@ =~= base + paper_coauthors(i as int, papers@[i as int]).take(
                    j as int + 1,
                ));
            }
            j += 1;
        }
        proof {
            let t1 = papers@.take(i as int + 1);
            assert(t1.drop_last() =~= papers@.take(i as int));
            assert(t1.last() == papers@[i as int]);
            assert(paper_coauthors(i as int, papers@[i as int]).take(m as int) =~= paper_coauthors(
                i as int,
                papers@[i as int],
            ));
            assert(out@ == coauthor_spec(t1));
        }
        i += 1;
    }
    proof {
        assert(papers@.take(n as int) =~= papers@);
    }
    out
}

/// One row of the paper table: 1-based id, the 1-based id of the owning
/// (first) author, and the acceptance flag.
pub struct PaperRow {
    pub id: usize,
    pub leader: usize,
    pub accepted: bool,
}

/// One paper row per paper, in order. Every paper must have at least one
/// author; the first is the owning author.
pub fn paper_rows(papers: &Vec<Paper>) -> (r: Vec<PaperRow>)
    requires
        papers_loadable(papers@),
    ensures
        r@.len() == papers@.len(),
        forall|i: int|
            0 <= i < r@.len() ==> #[trigger] r@[i] == (PaperRow {
                id: (i + 1) as usize,
                leader: (papers@[i].authors@[0] + 1) as usize,
                accepted: papers@[i].accepted,
            }),
{
    let n = papers.len();
    let mut out: Vec<PaperRow> = Vec::new();
    let mut i: usize = 0;
    while i < n
        invariant
            i <= n,
            n == papers@.len(),
            out@.len() == i,
            papers_loadable(papers@),
            forall|j: int|
                0 <= j < i ==> #[trigger] out@[j] == (PaperRow {
                    id: (j + 1) as usize,
                    leader: (papers@[j].authors@[0] + 1) as usize,
                    accepted: papers@[j].accepted,
                }),
        decreases n - i,
    {
        out.push(PaperRow { id: i + 1, leader: papers[i].authors[0] + 1, accepted: papers[i].accepted });
        i += 1;
    }
    out
}

/// One row of the paper-version table: the paper's 1-based id and its title.
pub struct VersionRow {
    pub id: usize,
    pub title: String,
}

pub fn version_rows(papers: &Vec<Paper>) -> (r: Vec<VersionRow>)
    ensures
        r@.len() == papers@.len(),
        forall|i: int|
            0 <= i < r@.len() ==> (#[trigger] r@[i]).id == i + 1 && r@[i].title@
                == papers@[i].title@,
{
    let n = papers.len();
    let mut out: Vec<VersionRow> = Vec::new();
    let mut i: usize = 0;
    while i < n
        invariant
            i <= n,
            n == papers@.len(),
            out@.len() == i,
            forall|j: int|
                0 <= j < i ==> (#[trigger] out@[j]).id == j + 1 && out@[j].title@
                    == papers@[j].title@,
        decreases n - i,
    {
        out.push(VersionRow { id: i + 1, title: papers[i].title.clone() });
        i += 1;
    }
    out
}

/// One row of the review-assignment table: the paper, the assigned referee,
/// and a "rating,confidence" note.
pub struct AssignmentRow {
    pub paper: usize,
    pub referee: usize,
    pub note: String,
}

pub fn assignment_rows(assignments: &Vec<Assignment>) -> (r: Vec<AssignmentRow>)
    ensures
        r@.len() == assignments@.len(),
        forall|i: int|
            0 <= i < r@.len() ==> {
                let a = assignments@[i];
                let row = #[trigger] r@[i];
                &&& row.paper == a.paper
                &&& row.referee == a.referee
                &&& row.note@ == dec_digits(a.rating as int) + ","@ + dec_digits(
                    a.confidence as int,
                )
            },
{
    let n = assignments.len();
    let mut out: Vec<AssignmentRow> = Vec::new();
    let mut i: usize = 0;
    while i < n
        invariant
            i <= n,
            n == assignments@.len(),
            out@.len() == i,
            forall|j: int|
                0 <= j < i ==> {
                    let a = assignments@[j];
                    let row = #[trigger] out@[j];
                    &&& row.paper == a.paper
                    &&& row.referee == a.referee
                    &&& row.note@ == dec_digits(a.rating as int) + ","@ + dec_digits(
                        a.confidence as int,
                    )
                },
        decreases n - i,
    {
        let mut note = u64_to_string(assignments[i].rating);
        note.append(",");
        let conf = u64_to_string(assignments[i].confidence);
        note.append(conf.as_str());
        out.push(AssignmentRow {
            paper: assignments[i].paper,
            referee: assignments[i].referee,
            note,
        });
        i += 1;
    }
    out
}

/// One row of the review table, with the placeholder review text.
pub struct ReviewRow {
    pub paper: usize,
    pub referee: usize,
    pub text: String,
    pub rating: u64,
    pub confidence: u64,
}

pub fn review_rows(assignments: &Vec<Assignment>) -> (r: Vec<ReviewRow>)
    ensures
        r@.len() == assignments@.len(),
        forall|i: int|
            0 <= i < r@.len() ==> {
                let a = assignments@[i];
                let row = #[trigger] r@[i];
                &&& row.paper == a.paper
                &&& row.referee == a.referee
                &&& row.text@ == "review text"@
                &&& row.rating == a.rating
                &&& row.confidence == a.confidence
            },
{
    let n = assignments.len();
    let mut out: Vec<ReviewRow> = Vec::new();
    let mut i: usize = 0;
    while i < n
        invariant
            i <= n,
            n == assignments@.len(),
            out@.len() == i,
            forall|j: int|
                0 <= j < i ==> {
                    let a = assignments@[j];
                    let row = #[trigger] out@[j];
                    &&& row.paper == a.paper
                    &&& row.referee == a.referee
                    &&& row.text@ == "review text"@
                    &&& row.rating == a.rating
                    &&& row.confidence == a.confidence
                },
        decreases n - i,
    {
        out.push(ReviewRow {
            paper: assignments[i].paper,
            referee: assignments[i].referee,
            text: String::from_str("review text"),
            rating: assignments[i].rating,
            confidence: assignments[i].confidence,
        });
        i += 1;
    }
    out
}

} // verus!
