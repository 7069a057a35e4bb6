//! One scheduled run's per-item logic: correlating batch embedding results
//! back to their descriptors and planning the writes, with per-item
//! failures isolated.
//!
//! Correlation is always by the reference string, never by position: the
//! embedding service replies in its own order. A result with no matching
//! descriptor, a result carrying an in-band error, and a result with no
//! vector are each skipped with a warning; they never abort the batch.

use crate::models::BatchImageEmbeddingResult;
use crate::models::CctvImageData;
use crate::payload::build_point;
use crate::payload::spec_payload_map;
use crate::payload::spec_point_payload;
use crate::payload::VectorPoint;
use vstd::prelude::*;

verus! {

/// Index of the first descriptor whose reference equals `path`, or `-1`.
pub open spec fn spec_find_descriptor(images: Seq<CctvImageData>, path: Seq<char>) -> int
    decreases images.len(),
{
    if images.len() == 0 {
        -1
    } else if images[0].file_path@ == path {
        0
    } else if spec_find_descriptor(images.drop_first(), path) < 0 {
        -1
    } else {
        1 + spec_find_descriptor(images.drop_first(), path)
    }
}

pub proof fn lemma_spec_find_descriptor(images: Seq<CctvImageData>, path: Seq<char>)
    ensures
        -1 <= spec_find_descriptor(images, path) < images.len(),
        spec_find_descriptor(images, path) >= 0 ==> images[spec_find_descriptor(
            images,
            path,
        )].file_path@ == path,
        forall|j: int| 0 <= j < spec_find_descriptor(images, path) ==> images[j].file_path@ != path,
        spec_find_descriptor(images, path) == -1 ==> forall|j: int|
            0 <= j < images.len() ==> images[j].file_path@ != path,
    decreases images.len(),
{
    if images.len() > 0 && images[0].file_path@ != path {
        lemma_spec_find_descriptor(images.drop_first(), path);
        assert(forall|j: int| 1 <= j < images.len() ==> images[j] == images.drop_first()[j - 1]);
    }
}

proof fn lemma_spec_find_descriptor_is(images: Seq<CctvImageData>, path: Seq<char>, i: int)
    requires
        0 <= i < images.len(),
        images[i].file_path@ == path,
        forall|j: int| 0 <= j < i ==> images[j].file_path@ != path,
    ensures
        spec_find_descriptor(images, path) == i,
{
    lemma_spec_find_descriptor(images, path);
    let f = spec_find_descriptor(images, path);
    if f == -1 {
        assert(images[i].file_path@ != path);
    } else if f < i {
        assert(images[f].file_path@ != path);
    } else if f > i {
        assert(images[i].file_path@ != path);
    }
}

proof fn lemma_spec_find_descriptor_none(images: Seq<CctvImageData>, path: Seq<char>)
    requires
        forall|j: int| 0 <= j < images.len() ==> images[j].file_path@ != path,
    ensures
        spec_find_descriptor(images, path) == -1,
{
    lemma_spec_find_descriptor(images, path);
    let f = spec_find_descriptor(images, path);
    if f >= 0 {
        assert(images[f].file_path@ != path);
    }
}

/// Whether some result carries exactly the descriptor's reference.
pub open spec fn spec_descriptor_matched(
    images: Seq<CctvImageData>,
    results: Seq<BatchImageEmbeddingResult>,
    j: int,
) -> bool {
    exists|k: int| 0 <= k < results.len() && results[k].path@ == images[j].file_path@
}

/// What the run does with one embedding result.
pub enum PlanAction {
    /// The result matched a descriptor, carries no error and holds a
    /// vector: write this point.
    Upsert { result_index: usize, point: VectorPoint },
    /// No descriptor shares the result's reference: skip, warn.
    SkipNoDescriptor { result_index: usize },
    /// The result carries an in-band error: skip, warn.
    SkipError { result_index: usize },
    /// The result carries neither an error nor a vector: skip, warn.
    SkipNoEmbedding { result_index: usize },
}

/// Whether `a` is exactly the action owed to result `k`: the matched
/// descriptor decides, error before missing vector, and a written point is
/// built from that descriptor and that result's vector.
pub open spec fn spec_action_matches(
    images: Seq<CctvImageData>,
    results: Seq<BatchImageEmbeddingResult>,
    now: Seq<char>,
    k: int,
    a: PlanAction,
) -> bool {
    let r = results[k];
    let d = spec_find_descriptor(images, r.path@);
    if d < 0 {
        a == PlanAction::SkipNoDescriptor { result_index: k as usize }
    } else if r.error is Some {
        a == PlanAction::SkipError { result_index: k as usize }
    } else if r.embedding is None {
        a == PlanAction::SkipNoEmbedding { result_index: k as usize }
    } else {
        &&& a matches PlanAction::Upsert { result_index, point }
        &&& result_index == k as usize
        &&& point.id == images[d].id as u64
        &&& point.vector@ == r.embedding.unwrap()@
        &&& spec_payload_map(point.payload@) == spec_point_payload(images[d], now)
    }
}

/// The planned actions, one per embedding result, and the indices of the
/// descriptors that no result mentioned (each owed one warning and no
/// write).
pub struct BatchPlan {
    pub actions: Vec<PlanAction>,
    pub unmatched: Vec<usize>,
}

/// The first descriptor whose reference equals `path`, if any.
fn find_descriptor(images: &Vec<CctvImageData>, path: &String) -> (r: Option<usize>)
    ensures
        match r {
            Some(d) => d == spec_find_descriptor(images@, path@) && d < images@.len(),
            None => spec_find_descriptor(images@, path@) == -1,
        },
{
    let n = images.len();
    let mut i: usize = 0;
    while i < n
        invariant
            0 <= i <= n == images@.len(),
            forall|j: int| 0 <= j < i ==> images@[j].file_path@ != path@,
        decreases n - i,
    {
        if images[i].file_path == *path {
            proof {
                lemma_spec_find_descriptor_is(images@, path@, i as int);
            }
            return Some(i);
        }
        i += 1;
    }
    proof {
        lemma_spec_find_descriptor_none(images@, path@);
    }
    None
}

/// Whether some result carries exactly the reference `path`.
fn any_result_matches(results: &Vec<BatchImageEmbeddingResult>, path: &String) -> (b: bool)
    ensures
        b == exists|k: int| 0 <= k < results@.len() && results@[k].path@ == path@,
{
    let n = results.len();
    let mut i: usize = 0;
    while i < n
        invariant
            0 <= i <= n == results@.len(),
            forall|k: int| 0 <= k < i ==> results@[k].path@ != path@,
        decreases n - i,
    {
        if results[i].path == *path {
            return true;
        }
        i += 1;
    }
    false
}

/// An element-for-element copy of an embedding vector.
fn copy_vector(v: &Vec<u32>) -> (r: Vec<u32>)
    ensures
        r@ == v@,
{
    let n = v.len();
    let mut r: Vec<u32> = Vec::new();
    let mut i: usize = 0;
    while i < n
        invariant
            0 <= i <= n == v@.len(),
            r@ == v@.subrange(0, i as int),
        decreases n - i,
    {
        r.push(v[i]);
        proof {
            assert(r@ =~= v@.subrange(0, i + 1));
        }
        i += 1;
    }
    proof {
        assert(r@ =~= v@);
    }
    r
}

/// Plans one batch: for every embedding result, in the service's order, the
/// action it is owed; and one warning entry for every descriptor that no
/// result mentioned. A single bad item never stops the others.
pub fn plan_batch(
    images: &Vec<CctvImageData>,
    results: &Vec<BatchImageEmbeddingResult>,
    now_rfc3339: &str,
) -> (plan: BatchPlan)
    ensures
        plan.actions@.len() == results@.len(),
        forall|k: int|
            0 <= k < results@.len() ==> spec_action_matches(
                images@,
                results@,
                now_rfc3339@,
                k,
                #[trigger] plan.actions@[k],
            ),
        forall|a: int|
            0 <= a < plan.unmatched@.len() ==> plan.unmatched@[a] < images@.len()
                && !spec_descriptor_matched(images@, results@, #[trigger] plan.unmatched@[a] as int),
        forall|j: int|
            0 <= j < images@.len() && !spec_descriptor_matched(images@, results@, j)
                ==> plan.unmatched@.contains(j as usize),
        forall|a: int, b: int|
            0 <= a < b < plan.unmatched@.len() ==> plan.unmatched@[a] < plan.unmatched@[b],
{
    let n = results.len();
    let mut actions: Vec<PlanAction> = Vec::new();
    let mut k: usize = 0;
    while k < n
        invariant
            0 <= k <= n == results@.len(),
            actions@.len() == k,
            forall|t: int|
                0 <= t < k ==> spec_action_matches(
                    images@,
                    results@,
                    now_rfc3339@,
                    t,
                    #[trigger] actions@[t],
                ),
        decreases n - k,
    {
        let r = &results[k];
        let action = match find_descriptor(images, &r.path) {
            None => PlanAction::SkipNoDescriptor { result_index: k },
            Some(d) => {
                if r.error.is_some() {
                    PlanAction::SkipError { result_index: k }
                } else {
                    match &r.embedding {
                        None => PlanAction::SkipNoEmbedding { result_index: k },
                        Some(v) => {
                            let point = build_point(&images[d], copy_vector(v), now_rfc3339);
                            PlanAction::Upsert { result_index: k, point }
                        },
                    }
                }
            },
        };
        actions.push(action);
        k += 1;
    }
    let m = images.len();
    let mut unmatched: Vec<usize> = Vec::new();
    let mut j: usize = 0;
    while j < m
        invariant
            0 <= j <= m == images@.len(),
            forall|a: int|
                0 <= a < unmatched@.len() ==> unmatched@[a] < j && !spec_descriptor_matched(
                    images@,
                    results@,
                    #[trigger] unmatched@[a] as int,
                ),
            forall|t: int|
                0 <= t < j && !spec_descriptor_matched(images@, results@, t)
                    ==> unmatched@.contains(t as usize),
            forall|a: int, b: int|
                0 <= a < b < unmatched@.len() ==> unmatched@[a] < unmatched@[b],
        decreases m - j,
    {
        if !any_result_matches(results, &images[j].file_path) {
            let ghost prior = unmatched@;
            unmatched.push(j);
            proof {
                assert(forall|t: int|
                    0 <= t < prior.len() ==> unmatched@[t] == prior[t]);
                assert(unmatched@[unmatched@.len() - 1] == j);
                assert(forall|t: int|
                    0 <= t < j && !spec_descriptor_matched(images@, results@, t)
                        ==> prior.contains(t as usize));
                assert(forall|t: usize| prior.contains(t) ==> unmatched@.contains(t));
            }
        }
        j += 1;
    }
    BatchPlan { actions, unmatched }
}

/// The references of a descriptor list, in order: what the embedding
/// service is asked about.
pub fn collect_image_paths(images: &Vec<CctvImageData>) -> (r: Vec<String>)
    ensures
        r@.len() == images@.len(),
        forall|i: int| 0 <= i < images@.len() ==> #[trigger] r@[i]@ == images@[i].file_path@,
{
    let n = images.len();
    let mut r: Vec<String> = Vec::new();
    let mut i: usize = 0;
    while i < n
        invariant
            0 <= i <= n == images@.len(),
            r@.len() == i,
            forall|t: int| 0 <= t < i ==> #[trigger] r@[t]@ == images@[t].file_path@,
        decreases n - i,
    {
        r.push(images[i].file_path.clone());
        i += 1;
    }
    r
}

/// An empty reference list is rejected locally, before any network call;
/// any non-empty list is accepted.
pub fn validate_embed_input(paths: &Vec<String>) -> (r: Result<(), String>)
    ensures
        paths@.len() > 0 ==> r is Ok,
        paths@.len() == 0 ==> (r matches Err(e) && e@ == "no image paths to embed"@),
{
    if paths.len() == 0 {
        Err("no image paths to embed".to_owned())
    } else {
        Ok(())
    }
}

/// The metadata fetch body for one run: the camera filter, the window's
/// bounds, and the record limit, verbatim.
pub fn build_metadata_request(
    cctv_id: &str,
    window: &crate::datetime::ScheduleWindow,
    limit: u32,
) -> (r: crate::models::CctvMetadataRequest)
    ensures
        r.cctv_id@ == cctv_id@,
        r.date_start@ == window.date_start@,
        r.date_stop@ == window.date_stop@,
        r.limit == limit,
{
    crate::models::CctvMetadataRequest {
        cctv_id: cctv_id.to_owned(),
        date_start: window.date_start.clone(),
        date_stop: window.date_stop.clone(),
        limit,
    }
}

/// Whether every action of `actions` is the one owed to its result, with
/// `now` as the `created_at` fallback.
pub open spec fn spec_plan_actions_match(
    images: Seq<CctvImageData>,
    results: Seq<BatchImageEmbeddingResult>,
    now: Seq<char>,
    actions: Seq<PlanAction>,
) -> bool {
    forall|k: int|
        0 <= k < results.len() ==> spec_action_matches(images, results, now, k, #[trigger] actions[k])
}

/// Plans one batch against the wall clock: whatever instant the clock
/// reports for the `created_at` fallback, the plan is exactly the one
/// [`plan_batch`] derives from it.
pub fn plan_batch_at_now(
    images: &Vec<CctvImageData>,
    results: &Vec<BatchImageEmbeddingResult>,
) -> (plan: BatchPlan)
    ensures
        plan.actions@.len() == results@.len(),
        exists|now: Seq<char>|
            #[trigger] spec_plan_actions_match(images@, results@, now, plan.actions@),
        forall|a: int|
            0 <= a < plan.unmatched@.len() ==> plan.unmatched@[a] < images@.len()
                && !spec_descriptor_matched(images@, results@, #[trigger] plan.unmatched@[a] as int),
        forall|j: int|
            0 <= j < images@.len() && !spec_descriptor_matched(images@, results@, j)
                ==> plan.unmatched@.contains(j as usize),
        forall|a: int, b: int|
            0 <= a < b < plan.unmatched@.len() ==> plan.unmatched@[a] < plan.unmatched@[b],
{
    let now_rfc3339 = crate::clock::now_utc_rfc3339();
    let plan = plan_batch(images, results, now_rfc3339.as_str());
    proof {
        assert(spec_plan_actions_match(images@, results@, now_rfc3339@, plan.actions@));
    }
    plan
}

/// How many of the planned actions write a point.
pub open spec fn spec_count_upserts(actions: Seq<PlanAction>) -> int
    decreases actions.len(),
{
    if actions.len() == 0 {
        0int
    } else {
        spec_count_upserts(actions.drop_last()) + (if actions.last() is Upsert {
            1int
        } else {
            0int
        })
    }
}

/// Law: pairing is by the reference value alone. A planned write for result
/// `k` takes its point id from the first descriptor whose reference equals
/// that result's reference exactly — whatever order the results arrived in.
pub proof fn lemma_pairing_is_by_reference(
    images: Seq<CctvImageData>,
    results: Seq<BatchImageEmbeddingResult>,
    now: Seq<char>,
    k: int,
    a: PlanAction,
)
    requires
        0 <= k < results.len(),
        spec_action_matches(images, results, now, k, a),
        a is Upsert,
    ensures
        ({
            let d = spec_find_descriptor(images, results[k].path@);
            &&& 0 <= d < images.len()
            &&& images[d].file_path@ == results[k].path@
            &&& a->Upsert_point.id == images[d].id as u64
        }),
{
    lemma_spec_find_descriptor(images, results[k].path@);
}

/// Law: a descriptor that no result mentions is never the source of a
/// planned write.
pub proof fn lemma_unmatched_descriptor_never_written(
    images: Seq<CctvImageData>,
    results: Seq<BatchImageEmbeddingResult>,
    now: Seq<char>,
    k: int,
    a: PlanAction,
    j: int,
)
    requires
        0 <= k < results.len(),
        spec_action_matches(images, results, now, k, a),
        a is Upsert,
        0 <= j < images.len(),
        !spec_descriptor_matched(images, results, j),
    ensures
        spec_find_descriptor(images, results[k].path@) != j,
{
    lemma_spec_find_descriptor(images, results[k].path@);
    if spec_find_descriptor(images, results[k].path@) == j {
        assert(results[k].path@ == images[j].file_path@);
    }
}

proof fn lemma_count_upserts_one_bad(
    images: Seq<CctvImageData>,
    results: Seq<BatchImageEmbeddingResult>,
    now: Seq<char>,
    actions: Seq<PlanAction>,
    bad: int,
    n: int,
)
    requires
        actions.len() == results.len(),
        forall|k: int|
            0 <= k < results.len() ==> spec_action_matches(
                images,
                results,
                now,
                k,
                #[trigger] actions[k],
            ),
        0 <= bad < results.len(),
        forall|k: int|
            0 <= k < results.len() ==> spec_find_descriptor(
                images,
                #[trigger] results[k].path@,
            ) >= 0,
        forall|k: int|
            0 <= k < results.len() && k != bad ==> (#[trigger] results[k].error is None)
                && results[k].embedding is Some,
        results[bad].error is Some,
        0 <= n <= actions.len(),
    ensures
        spec_count_upserts(actions.subrange(0, n)) == n - (if bad < n {
            1int
        } else {
            0int
        }),
    decreases n,
{
    if n > 0 {
        lemma_count_upserts_one_bad(images, results, now, actions, bad, n - 1);
        assert(actions.subrange(0, n).drop_last() =~= actions.subrange(0, n - 1));
        assert(actions.subrange(0, n).last() == actions[n - 1]);
        assert(spec_action_matches(images, results, now, n - 1, actions[n - 1]));
        if n - 1 == bad {
            assert(!(actions[n - 1] is Upsert));
        } else {
            assert(actions[n - 1] is Upsert);
        }
    }
}

/// Law: one failing item is isolated. In a batch of `N` results where every
/// reference matches a descriptor and exactly one result carries an in-band
/// error, the plan writes exactly `N - 1` points.
pub proof fn lemma_partial_failure_isolated(
    images: Seq<CctvImageData>,
    results: Seq<BatchImageEmbeddingResult>,
    now: Seq<char>,
    actions: Seq<PlanAction>,
    bad: int,
)
    requires
        actions.len() == results.len(),
        forall|k: int|
            0 <= k < results.len() ==> spec_action_matches(
                images,
                results,
                now,
                k,
                #[trigger] actions[k],
            ),
        0 <= bad < results.len(),
        forall|k: int|
            0 <= k < results.len() ==> spec_find_descriptor(
                images,
                #[trigger] results[k].path@,
            ) >= 0,
        forall|k: int|
            0 <= k < results.len() && k != bad ==> (#[trigger] results[k].error is None)
                && results[k].embedding is Some,
        results[bad].error is Some,
    ensures
        spec_count_upserts(actions) == results.len() - 1,
{
    lemma_count_upserts_one_bad(images, results, now, actions, bad, actions.len() as int);
    assert(actions.subrange(0, actions.len() as int) =~= actions);
}

} // verus!
