//! Source normalizer: turns loosely-typed submission, decision and review
//! records into typed papers, authors and reviews with stable dense author
//! ids. Fields that the data source may omit arrive as `Option`s; a missing
//! required field is a fatal parse error.

use vstd::prelude::*;
use vstd::string::*;
use crate::HarnessError;
use crate::text::{has_prefix, has_prefix_spec, parse_leading_u64, leading_int};

verus! {

/// One acceptance-decision record: the paper's source id and the free-text
/// decision. A missing decision means the paper was rejected.
pub struct RawDecision {
    pub forum: Option<String>,
    pub decision: Option<String>,
}

/// One submission record from the paper listing.
pub struct RawSubmission {
    pub id: Option<String>,
    pub number: Option<u64>,
    pub title: Option<String>,
    pub authorids: Option<Vec<Option<String>>>,
}

/// One review record: rating and confidence as free text whose leading
/// integer token carries the score.
pub struct RawReview {
    pub rating: Option<String>,
    pub confidence: Option<String>,
}

pub struct Paper {
    pub title: String,
    pub accepted: bool,
    pub authors: Vec<usize>,
}

pub struct Review {
    pub paper: usize,
    pub rating: u64,
    pub confidence: u64,
}

pub open spec fn string_views(v: Seq<String>) -> Seq<Seq<char>> {
    v.map_values(|s: String| s@)
}

/// Dedup table for author identifiers: the first encounter of an identifier
/// assigns the next dense id (its index); later encounters reuse it.
pub struct AuthorInterner {
    keys: Vec<String>,
}

/// What interning one identifier does to the key table: an identifier already
/// present keeps the table and yields its index; a new one is appended.
pub open spec fn intern_result(keys: Seq<Seq<char>>, k: Seq<char>) -> (Seq<Seq<char>>, int) {
    if keys.contains(k) {
        (keys, keys.index_of(k))
    } else {
        (keys.push(k), keys.len() as int)
    }
}

impl AuthorInterner {
    /// The interned identifiers, in dense-id order.
    pub closed spec fn keys_view(&self) -> Seq<Seq<char>> {
        string_views(self.keys@)
    }

    pub open spec fn wf(&self) -> bool {
        self.keys_view().no_duplicates()
    }

    pub fn new() -> (r: AuthorInterner)
        ensures
            r.keys_view() == Seq::<Seq<char>>::empty(),
            r.wf(),
    {
        let r = AuthorInterner { keys: Vec::new() };
        proof {
            assert(r.keys_view() =~= Seq::<Seq<char>>::empty());
        }
        r
    }

    pub fn len(&self) -> (n: usize)
        ensures
            n == self.keys_view().len(),
    {
        self.keys.len()
    }

    /// The identifiers in dense-id order, for building the user population.
    pub fn keys(&self) -> (r: &Vec<String>)
        ensures
            string_views(r@) == self.keys_view(),
    {
        &self.keys
    }

    /// Intern an identifier: a stable dense id, new exactly on first
    /// encounter.
    pub fn intern(&mut self, key: &String) -> (id: usize)
        requires
            old(self).wf(),
        ensures
            final(self).wf(),
            id < final(self).keys_view().len(),
            final(self).keys_view()[id as int] == key@,
            (final(self).keys_view(), id as int) == intern_result(old(self).keys_view(), key@),
            old(self).keys_view().contains(key@) ==> final(self).keys_view() == old(
                self,
            ).keys_view(),
            !old(self).keys_view().contains(key@) ==> final(self).keys_view() == old(
                self,
            ).keys_view().push(key@) && id == old(self).keys_view().len(),
    {
        let n = self.keys.len();
        let mut i: usize = 0;
        while i < n
            invariant
                i <= n,
                n == self.keys_view().len(),
                forall|j: int| 0 <= j < i ==> self.keys_view()[j] != key@,
            decreases n - i,
        {
            if self.keys[i].eq(key) {
                proof {
                    let kv = self.keys_view();
                    assert(kv[i as int] == key@);
                    assert(kv.contains(key@));
                    let j = kv.index_of(key@);
                    assert(exists|m: int| 0 <= m < kv.len() && kv[m] == key@);
                    assert(0 <= j < kv.len() && kv[j] == key@);
                    assert(j == i as int);
                }
                return i;
            }
            i += 1;
        }
        proof {
            let kv = self.keys_view();
            assert(forall|j: int| 0 <= j < kv.len() ==> kv[j] != key@);
            assert(!kv.contains(key@));
        }
        let ghost old_kv = self.keys_view();
        self.keys.push(key.clone());
        proof {
            assert(self.keys_view() =~= old_kv.push(key@));
            assert(self.keys_view().no_duplicates());
        }
        n
    }
}

/// Interning an identifier a second time never creates a new id: the same
/// dense id comes back and the table is unchanged.
pub proof fn lemma_intern_stable(keys: Seq<Seq<char>>, k: Seq<char>)
    requires
        keys.no_duplicates(),
    ensures
        ({
            let (keys1, id1) = intern_result(keys, k);
            let (keys2, id2) = intern_result(keys1, k);
            &&& keys1.no_duplicates()
            &&& 0 <= id1 < keys1.len()
            &&& keys1[id1] == k
            &&& keys2 == keys1
            &&& id2 == id1
        }),
{
    if keys.contains(k) {
        let j = keys.index_of(k);
        assert(exists|m: int| 0 <= m < keys.len() && keys[m] == k);
        assert(0 <= j < keys.len() && keys[j] == k);
    } else {
        let keys1 = keys.push(k);
        assert(keys1[keys.len() as int] == k);
        assert(keys1.contains(k));
        assert(keys1.no_duplicates());
        let j = keys1.index_of(k);
        assert(exists|m: int| 0 <= m < keys1.len() && keys1[m] == k);
        assert(0 <= j < keys1.len() && keys1[j] == k);
        assert(j == keys.len() as int);
    }
}

/// Whether a decision text marks the paper accepted: any value whose prefix
/// is "Accept".
pub open spec fn accepts_decision(dec: Option<String>) -> bool {
    dec is Some && has_prefix_spec(dec->0@, "Accept"@)
}

/// The forums of the accepted papers, in record order.
pub open spec fn accepted_forums(ds: Seq<RawDecision>) -> Seq<Seq<char>>
    decreases ds.len(),
{
    if ds.len() == 0 {
        Seq::empty()
    } else {
        let rest = accepted_forums(ds.drop_last());
        let d = ds.last();
        if d.forum is Some && accepts_decision(d.decision) {
            rest.push(d.forum->0@)
        } else {
            rest
        }
    }
}

/// Collect the source ids of the accepted papers from the decision payload.
/// Every record must carry a forum id; a missing decision text means
/// rejection.
pub fn collect_accepted(decisions: &Vec<RawDecision>) -> (r: Result<Vec<String>, HarnessError>)
    ensures
        match r {
            Ok(v) => {
                &&& forall|i: int| 0 <= i < decisions@.len() ==> (#[trigger] decisions@[i].forum) is Some
                &&& string_views(v@) == accepted_forums(decisions@)
            },
            Err(e) => e.is_parse() && exists|i: int|
                0 <= i < decisions@.len() && (#[trigger] decisions@[i].forum) is None,
        },
{
    let n = decisions.len();
    let mut out: Vec<String> = Vec::new();
    let mut i: usize = 0;
    while i < n
        invariant
            i <= n,
            n == decisions@.len(),
            forall|j: int| 0 <= j < i ==> (#[trigger] decisions@[j].forum) is Some,
            string_views(out@) == accepted_forums(decisions@.take(i as int)),
        decreases n - i,
    {
        let ghost pre = out@;
        match &decisions[i].forum {
            None => {
                return Err(HarnessError::Parse(String::from_str("acceptance record has no forum id")));
            },
            Some(f) => {
                let was_accepted = match &decisions[i].decision {
                    None => false,
                    Some(d) => has_prefix(d.as_str(), "Accept"),
                };
                proof {
                    assert(was_accepted == accepts_decision(decisions@[i as int].decision));
                }
                if was_accepted {
                    out.push(f.clone());
                }
            },
        }
        proof {
            let t1 = decisions@.take(i as int + 1);
            assert(t1.drop_last() =~= decisions@.take(i as int));
            assert(t1.last() == decisions@[i as int]);
            if accepts_decision(decisions@[i as int].decision) {
                assert(string_views(out@) =~= string_views(pre).push(
                    decisions@[i as int].forum->0@,
                ));
            }
            assert(string_views(out@) =~= accepted_forums(t1));
        }
        i += 1;
    }
    proof {
        assert(decisions@.take(n as int) =~= decisions@);
    }
    Ok(out)
}

/// Whether `id` is one of the collected accepted forums.
pub fn is_accepted(accepted: &Vec<String>, id: &String) -> (r: bool)
    ensures
        r == string_views(accepted@).contains(id@),
{
    let n = accepted.len();
    let mut i: usize = 0;
    while i < n
        invariant
            i <= n,
            n == accepted@.len(),
            forall|j: int| 0 <= j < i ==> string_views(accepted@)[j] != id@,
        decreases n - i,
    {
        if accepted[i].eq(id) {
            proof {
                assert(string_views(accepted@)[i as int] == id@);
            }
            return true;
        }
        i += 1;
    }
    proof {
        assert(forall|j: int| 0 <= j < accepted@.len() ==> string_views(accepted@)[j] != id@);
    }
    false
}

/// What interning a whole author list does to the key table, and the dense
/// ids handed out, in order.
pub open spec fn intern_all(keys: Seq<Seq<char>>, ks: Seq<Seq<char>>) -> (Seq<Seq<char>>, Seq<int>)
    decreases ks.len(),
{
    if ks.len() == 0 {
        (keys, Seq::empty())
    } else {
        let (keys1, ids1) = intern_all(keys, ks.drop_last());
        let (keys2, id) = intern_result(keys1, ks.last());
        (keys2, ids1.push(id))
    }
}

pub open spec fn author_views(ids: Seq<Option<String>>) -> Seq<Seq<char>> {
    ids.map_values(|o: Option<String>| o->0@)
}

/// The fields a submission record must carry.
pub open spec fn submission_shape_ok(sub: RawSubmission) -> bool {
    &&& sub.id is Some
    &&& sub.number is Some
    &&& sub.title is Some
    &&& sub.authorids is Some
    &&& forall|j: int| 0 <= j < sub.authorids->0@.len() ==> (#[trigger] sub.authorids->0@[j]) is Some
}

/// A normalized submission: the paper, plus the source id and ordinal number
/// needed to fetch its reviews.
pub struct SubmissionInfo {
    pub paper: Paper,
    pub source_id: String,
    pub number: u64,
}

/// Normalize one submission record: all required fields must be present;
/// authors are deduplicated through the interner; acceptance comes from the
/// collected accepted forums.
pub fn normalize_submission(
    sub: &RawSubmission,
    accepted: &Vec<String>,
    interner: &mut AuthorInterner,
) -> (r: Result<SubmissionInfo, HarnessError>)
    requires
        old(interner).wf(),
    ensures
        final(interner).wf(),
        match r {
            Ok(info) => {
                &&& submission_shape_ok(*sub)
                &&& info.source_id@ == sub.id->0@
                &&& info.number == sub.number->0
                &&& info.paper.title@ == sub.title->0@
                &&& info.paper.accepted == string_views(accepted@).contains(sub.id->0@)
                &&& ({
                    let (ks, ids) = intern_all(
                        old(interner).keys_view(),
                        author_views(sub.authorids->0@),
                    );
                    &&& final(interner).keys_view() == ks
                    &&& info.paper.authors@.map_values(|u: usize| u as int) == ids
                })
                &&& forall|j: int|
                    0 <= j < info.paper.authors@.len() ==> (#[trigger] info.paper.authors@[j])
                        < final(interner).keys_view().len()
            },
            Err(e) => {
                &&& e.is_parse()
                &&& !submission_shape_ok(*sub)
                &&& final(interner).keys_view() == old(interner).keys_view()
            },
        },
{
    let (id, number, title, authorids) = match (&sub.id, &sub.number, &sub.title, &sub.authorids) {
        (Some(id), Some(number), Some(title), Some(authorids)) => (
            id,
            *number,
            title,
            authorids,
        ),
        _ => {
            return Err(HarnessError::Parse(String::from_str("submission record is missing a required field")));
        },
    };
    let n = authorids.len();
    let mut j: usize = 0;
    while j < n
        invariant
            j <= n,
            n == authorids@.len(),
            forall|m: int| 0 <= m < j ==> (#[trigger] authorids@[m]) is Some,
        decreases n - j,
    {
        if authorids[j].is_none() {
            return Err(HarnessError::Parse(String::from_str("author id is missing in submission record")));
        }
        j += 1;
    }
    let mut authors: Vec<usize> = Vec::new();
    let mut j: usize = 0;
    while j < n
        invariant
            j <= n,
            n == authorids@.len(),
            interner.wf(),
            forall|m: int| 0 <= m < n ==> (#[trigger] authorids@[m]) is Some,
            authors@.len() == j,
            ({
                let (ks, ids) = intern_all(
                    old(interner).keys_view(),
                    author_views(authorids@.take(j as int)),
                );
                &&& interner.keys_view() == ks
                &&& authors@.map_values(|u: usize| u as int) == ids
            }),
            forall|m: int|
                0 <= m < authors@.len() ==> (#[trigger] authors@[m]) < interner.keys_view().len(),
        decreases n - j,
    {
        let ghost pre_keys = interner.keys_view();
        let ghost pre_ids = authors@.map_values(|u: usize| u as int);
        let aid = match &authorids[j] {
            Some(a) => a,
            None => {
                proof {
                    assert(false);
                }
                return Err(HarnessError::Parse(String::from_str("author id is missing in submission record")));
            },
        };
        let uid = interner.intern(aid);
        authors.push(uid);
        proof {
            let av1 = author_views(authorids@.take(j as int + 1));
            assert(av1.drop_last() =~= author_views(authorids@.take(j as int)));
            assert(av1.last() == aid@);
            assert(authors@.map_values(|u: usize| u as int) =~= pre_ids.push(uid as int));
            assert(forall|m: int|
                0 <= m < authors@.len() ==> (#[trigger] authors@[m])
                    < interner.keys_view().len());
        }
        j += 1;
    }
    proof {
        assert(authorids@.take(n as int) =~= authorids@);
    }
    let accepted_flag = is_accepted(accepted, id);
    Ok(SubmissionInfo {
        paper: Paper { title: title.clone(), accepted: accepted_flag, authors },
        source_id: id.clone(),
        number,
    })
}

/// The top-level shape every payload must have: an object with a notes
/// array. The embedding application hands the array over when the payload
/// has it; anything else is a fatal source error.
pub fn require_notes<T>(notes: Option<Vec<T>>) -> (r: Result<Vec<T>, HarnessError>)
    ensures
        match r {
            Ok(v) => notes is Some && v == notes->0,
            Err(e) => e.is_source_fetch() && notes is None,
        },
{
    match notes {
        Some(v) => Ok(v),
        None => Err(HarnessError::SourceFetch(String::from_str("payload has no notes array"))),
    }
}

/// The conditions under which one review record parses.
pub open spec fn review_ok(rr: RawReview) -> bool {
    &&& rr.rating is Some
    &&& rr.confidence is Some
    &&& leading_int(rr.rating->0@) is Some
    &&& leading_int(rr.rating->0@)->0 <= u64::MAX
    &&& leading_int(rr.confidence->0@) is Some
    &&& leading_int(rr.confidence->0@)->0 <= u64::MAX
}

/// Parse the reviews of one paper. Every record must carry a rating and a
/// confidence whose leading token is an integer; one malformed record is
/// fatal.
pub fn build_reviews(pid: usize, raws: &Vec<RawReview>) -> (r: Result<Vec<Review>, HarnessError>)
    ensures
        match r {
            Ok(v) => {
                &&& v@.len() == raws@.len()
                &&& forall|i: int|
                    0 <= i < raws@.len() ==> {
                        let rr = #[trigger] raws@[i];
                        &&& review_ok(rr)
                        &&& v@[i].paper == pid
                        &&& leading_int(rr.rating->0@) == Some(v@[i].rating as int)
                        &&& leading_int(rr.confidence->0@) == Some(v@[i].confidence as int)
                    }
            },
            Err(e) => e.is_parse() && exists|i: int|
                0 <= i < raws@.len() && !review_ok(#[trigger] raws@[i]),
        },
{
    let n = raws.len();
    let mut out: Vec<Review> = Vec::new();
    let mut i: usize = 0;
    while i < n
        invariant
            i <= n,
            n == raws@.len(),
            out@.len() == i,
            forall|j: int|
                0 <= j < i ==> {
                    let rr = #[trigger] raws@[j];
                    &&& review_ok(rr)
                    &&& out@[j].paper == pid
                    &&& leading_int(rr.rating->0@) == Some(out@[j].rating as int)
                    &&& leading_int(rr.confidence->0@) == Some(out@[j].confidence as int)
                },
        decreases n - i,
    {
        let rating_text = match &raws[i].rating {
            Some(t) => t,
            None => {
                return Err(HarnessError::Parse(String::from_str("review record has no rating")));
            },
        };
        let confidence_text = match &raws[i].confidence {
            Some(t) => t,
            None => {
                return Err(HarnessError::Parse(String::from_str("review record has no confidence")));
            },
        };
        let rating = match parse_leading_u64(rating_text.as_str()) {
            Ok(v) => v,
            Err(e) => {
                return Err(e);
            },
        };
        let confidence = match parse_leading_u64(confidence_text.as_str()) {
            Ok(v) => v,
            Err(e) => {
                return Err(e);
            },
        };
        out.push(Review { paper: pid, rating, confidence });
        i += 1;
    }
    Ok(out)
}

} // verus!
