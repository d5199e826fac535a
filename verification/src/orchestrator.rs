//! The job orchestrator's shared state: the job table, the cached map
//! data used for theme-only re-renders, the geocoding cache, and the rate
//! limiters. All state is plain and owned; the host wraps it in whatever
//! locks its runtime needs and supplies clock readings in milliseconds.
use vstd::prelude::*;
use vstd::string::{StrSliceExecFns, StringExecFns};
use crate::cache::Cache;
use crate::config::{sanitize_filename, sanitize_char, estimate_generation_time, Settings};
use crate::errors::AppError;
use crate::geometry::{
    clone_features, clone_segments, feats_eq, segs_eq, AreaFeature, RoadSegment,
};
use crate::jobs::{download_url_spec, format_job_id, id_str_spec, JobRequest, JobState};
use crate::models::{
    status_label_spec, JobStatus, PosterCreateRequest, PosterCreateResponse, ProgressUpdate,
};
use crate::rate_limiter::ApiRateLimiters;

verus! {

/// Cached map data for re-rendering with different themes.
#[derive(Debug)]
pub struct CachedMapData {
    pub city: String,
    pub country: String,
    pub lat: i64,
    pub lon: i64,
    pub distance: u32,
    pub streets: Vec<RoadSegment>,
    pub water: Vec<AreaFeature>,
    pub parks: Vec<AreaFeature>,
}

/// Whether two cached map data records carry the same place and geometry.
pub open spec fn map_data_eq(a: CachedMapData, b: CachedMapData) -> bool {
    &&& a.city@ == b.city@
    &&& a.country@ == b.country@
    &&& a.lat == b.lat
    &&& a.lon == b.lon
    &&& a.distance == b.distance
    &&& segs_eq(a.streets@, b.streets@)
    &&& feats_eq(a.water@, b.water@)
    &&& feats_eq(a.parks@, b.parks@)
}

impl Clone for CachedMapData {
    fn clone(&self) -> (r: Self)
        ensures
            map_data_eq(r, *self),
    {
        CachedMapData {
            city: self.city.clone(),
            country: self.country.clone(),
            lat: self.lat,
            lon: self.lon,
            distance: self.distance,
            streets: clone_segments(&self.streets),
            water: clone_features(&self.water),
            parks: clone_features(&self.parks),
        }
    }
}

/// Cached geocoding result, in ten-thousandths of a degree.
#[derive(Debug, Clone, Copy, PartialEq, Eq, Structural)]
pub struct GeocodingResult {
    pub lat: i64,
    pub lon: i64,
}

/// The index of the entry with the given id, if any.
pub open spec fn find_id<T>(s: Seq<(u128, T)>, id: u128) -> Option<int>
    decreases s.len(),
{
    if s.len() == 0 {
        None
    } else if s[0].0 == id {
        Some(0)
    } else {
        match find_id(s.drop_first(), id) {
            Some(i) => Some(i + 1),
            None => None,
        }
    }
}

/// No two entries share an id.
pub open spec fn ids_unique<T>(s: Seq<(u128, T)>) -> bool {
    forall|i: int, j: int| 0 <= i < j < s.len() ==> (#[trigger] s[i]).0 != (#[trigger] s[j]).0
}

/// Insertion of a pair into an id-keyed table: an existing entry for the
/// id is overwritten in place, otherwise the pair goes to the end.
pub open spec fn upsert_id<T>(s: Seq<(u128, T)>, pair: (u128, T)) -> Seq<(u128, T)> {
    match find_id(s, pair.0) {
        Some(i) => s.update(i, pair),
        None => s.push(pair),
    }
}

proof fn lemma_find_id_present<T>(s: Seq<(u128, T)>, id: u128, i: int)
    requires
        0 <= i < s.len(),
        s[i].0 == id,
        ids_unique(s),
    ensures
        find_id(s, id) == Some(i),
    decreases s.len(),
{
    if s[0].0 == id {
        assert(i == 0);
    } else {
        assert(s.drop_first()[i - 1] == s[i]);
        assert(ids_unique(s.drop_first())) by {
            assert(forall|x: int|
                0 <= x < s.len() - 1 ==> #[trigger] s.drop_first()[x] == s[x + 1]);
        }
        lemma_find_id_present(s.drop_first(), id, i - 1);
    }
}

proof fn lemma_find_id_some_bounds<T>(s: Seq<(u128, T)>, id: u128)
    ensures
        find_id(s, id) matches Some(i) ==> 0 <= i < s.len() && s[i].0 == id,
    decreases s.len(),
{
    if s.len() > 0 && s[0].0 != id {
        lemma_find_id_some_bounds(s.drop_first(), id);
        if find_id(s.drop_first(), id) is Some {
            let i = find_id(s.drop_first(), id)->Some_0;
            assert(s.drop_first()[i] == s[i + 1]);
        }
    }
}

proof fn lemma_find_id_none_means_absent<T>(s: Seq<(u128, T)>, id: u128)
    requires
        find_id(s, id) is None,
    ensures
        forall|j: int| 0 <= j < s.len() ==> (#[trigger] s[j]).0 != id,
    decreases s.len(),
{
    if s.len() > 0 {
        lemma_find_id_none_means_absent(s.drop_first(), id);
        assert forall|j: int| 0 <= j < s.len() implies (#[trigger] s[j]).0 != id by {
            if j >= 1 {
                assert(s.drop_first()[j - 1] == s[j]);
            }
        }
    }
}

fn find_by_id<T>(v: &Vec<(u128, T)>, id: u128) -> (r: Option<usize>)
    ensures
        r matches Some(i) ==> find_id(v@, id) == Some(i as int) && i < v@.len() && v@[i as int].0
            == id,
        r is None ==> find_id(v@, id) is None,
{
    let mut i: usize = 0;
    proof {
        assert(v@.skip(0) =~= v@);
    }
    while i < v.len()
        invariant
            i <= v@.len(),
            find_id(v@.skip(i as int), id) matches Some(x) ==> find_id(v@, id) == Some(x + i),
            find_id(v@.skip(i as int), id) is None ==> find_id(v@, id) is None,
        decreases v@.len() - i,
    {
        proof {
            assert(v@.skip(i as int)[0] == v@[i as int]);
            assert(v@.skip(i as int).drop_first() =~= v@.skip(i as int + 1));
        }
        if v[i].0 == id {
            return Some(i);
        }
        i = i + 1;
    }
    proof {
        assert(v@.skip(i as int) =~= Seq::<(u128, T)>::empty());
    }
    None
}

/// The jobs still young enough to keep at `now`, in their original order.
pub open spec fn keep_recent(
    s: Seq<(u128, JobState)>,
    now: int,
    ttl_ms: int,
) -> Seq<(u128, JobState)>
    decreases s.len(),
{
    if s.len() == 0 {
        s
    } else if s.last().1.created_at + ttl_ms > now {
        keep_recent(s.drop_last(), now, ttl_ms).push(s.last())
    } else {
        keep_recent(s.drop_last(), now, ttl_ms)
    }
}

/// Whether a sweep at `now` keeps the map data under `id`: it goes only
/// when its owning job was just removed.
pub open spec fn sweep_keeps_data(
    jobs: Seq<(u128, JobState)>,
    id: u128,
    now: int,
    ttl_ms: int,
) -> bool {
    match find_id(jobs, id) {
        Some(i) => jobs[i].1.created_at + ttl_ms > now,
        None => true,
    }
}

/// The map data entries that survive a sweep at `now`.
pub open spec fn keep_swept_data(
    jobs: Seq<(u128, JobState)>,
    s: Seq<(u128, CachedMapData)>,
    now: int,
    ttl_ms: int,
) -> Seq<(u128, CachedMapData)>
    decreases s.len(),
{
    if s.len() == 0 {
        s
    } else if sweep_keeps_data(jobs, s.last().0, now, ttl_ms) {
        keep_swept_data(jobs, s.drop_last(), now, ttl_ms).push(s.last())
    } else {
        keep_swept_data(jobs, s.drop_last(), now, ttl_ms)
    }
}

/// Whether two job records carry the same state, compared through views.
pub open spec fn opt_str_eq(a: Option<String>, b: Option<String>) -> bool {
    match (a, b) {
        (Some(x), Some(y)) => x@ == y@,
        (None, None) => true,
        _ => false,
    }
}

/// Whether two job records agree field by field, strings through views.
pub open spec fn job_eq(a: JobState, b: JobState) -> bool {
    &&& a.id == b.id
    &&& a.status == b.status
    &&& a.progress_milli == b.progress_milli
    &&& opt_str_eq(a.current_step, b.current_step)
    &&& opt_str_eq(a.message, b.message)
    &&& opt_str_eq(a.output_path, b.output_path)
    &&& opt_str_eq(a.error, b.error)
    &&& a.created_at == b.created_at
    &&& a.updated_at == b.updated_at
    &&& a.request.city@ == b.request.city@
    &&& a.request.country@ == b.request.country@
    &&& a.request.theme@ == b.request.theme@
    &&& a.request.distance == b.request.distance
}

/// How creating a job relates the table to its prior state: the record
/// stands under its id, everything else as it was.
pub open spec fn jobs_upserted(
    pre: Seq<(u128, JobState)>,
    post: Seq<(u128, JobState)>,
    id: u128,
    j: JobState,
) -> bool {
    match find_id(pre, id) {
        Some(i) => post.len() == pre.len() && post[i].0 == id && job_eq(post[i].1, j) && forall|
            x: int,
        |
            0 <= x < pre.len() && x != i ==> post[x] == pre[x],
        None => post.len() == pre.len() + 1 && post.last().0 == id && job_eq(post.last().1, j)
            && forall|x: int| 0 <= x < pre.len() ==> post[x] == pre[x],
    }
}

/// Relies on `uuid::Uuid::new_v4`: a freshly drawn random job id. Nothing
/// is assumed of the value.
#[verifier::external_body]
fn fresh_job_id() -> u128 {
    uuid::Uuid::new_v4().as_u128()
}

/// Application state shared across request handlers.
pub struct AppState {
    pub config: Settings,
    pub jobs: Vec<(u128, JobState)>,
    /// Rate limiters for the two external endpoints.
    pub rate_limiters: ApiRateLimiters,
    /// Cache for geocoding results ("city,country" to coordinates).
    pub geocoding_cache: Cache<GeocodingResult>,
    /// Cached map data per job id, for re-rendering.
    pub map_data_cache: Vec<(u128, CachedMapData)>,
}

impl AppState {
    /// Ids are unique in both tables and the embedded caches are sound.
    pub open spec fn wf(self) -> bool {
        &&& ids_unique(self.jobs@)
        &&& ids_unique(self.map_data_cache@)
        &&& self.geocoding_cache.wf()
        &&& self.rate_limiters.nominatim.wf()
        &&& self.rate_limiters.overpass.wf()
    }

    /// Fresh state around a configuration: empty tables, a day-long
    /// geocoding cache of a thousand entries, and the configured pacing.
    pub fn new(config: Settings) -> (r: Self)
        ensures
            r.wf(),
            r.jobs@.len() == 0,
            r.map_data_cache@.len() == 0,
            r.geocoding_cache.entries@.len() == 0,
            r.geocoding_cache.ttl_ms == 86400000,
            r.geocoding_cache.max_entries == 1000,
            r.rate_limiters.nominatim.min_delay_ms == config.nominatim_delay_ms,
            r.rate_limiters.overpass.min_delay_ms == config.osm_delay_ms,
            r.config == config,
    {
        let rate_limiters = ApiRateLimiters::new(config.nominatim_delay_ms, config.osm_delay_ms);
        let geocoding_cache = Cache::new(24 * 60 * 60, 1000);
        AppState {
            config,
            jobs: Vec::new(),
            rate_limiters,
            geocoding_cache,
            map_data_cache: Vec::new(),
        }
    }

    /// Create a new job for the request and return its state. The fresh id
    /// overwrites any table entry that happens to carry it already.
    pub fn create_job(&mut self, request: JobRequest, now: u64) -> (r: JobState)
        requires
            old(self).wf(),
        ensures
            final(self).wf(),
            r.status == JobStatus::Queued,
            r.progress_milli == 0,
            r.created_at == now && r.updated_at == now,
            r.request == request,
            r.message matches Some(m) && m@ == "Job queued"@,
            r.output_path is None && r.error is None && r.current_step is None,
            jobs_upserted(old(self).jobs@, final(self).jobs@, r.id, r),
            find_id(final(self).jobs@, r.id) is Some,
            final(self).map_data_cache@ == old(self).map_data_cache@,
            final(self).config == old(self).config,
            final(self).geocoding_cache == old(self).geocoding_cache,
    {
        let id = fresh_job_id();
        let job = JobState::new(id, request, now);
        let stored = JobState::new(
            id,
            JobRequest {
                city: job.request.city.clone(),
                country: job.request.country.clone(),
                theme: job.request.theme.clone(),
                distance: job.request.distance,
            },
            now,
        );
        let ghost pre = self.jobs@;
        self.upsert_job((id, stored));
        proof {
            assert(jobs_upserted(pre, self.jobs@, id, job)) by {
                lemma_find_id_some_bounds(pre, id);
                if find_id(pre, id) is Some {
                    let i = find_id(pre, id)->Some_0;
                    assert(self.jobs@ == pre.update(i, (id, stored)));
                    assert(self.jobs@[i].1 == stored);
                } else {
                    assert(self.jobs@ == pre.push((id, stored)));
                }
            }
        }
        job
    }

    fn upsert_job(&mut self, pair: (u128, JobState))
        requires
            old(self).wf(),
        ensures
            final(self).wf(),
            final(self).jobs@ == upsert_id(old(self).jobs@, pair),
            find_id(final(self).jobs@, pair.0) is Some,
            final(self).map_data_cache@ == old(self).map_data_cache@,
            final(self).config == old(self).config,
            final(self).geocoding_cache == old(self).geocoding_cache,
            final(self).rate_limiters == old(self).rate_limiters,
    {
        let ghost pre = self.jobs@;
        let ghost gid = pair.0;
        match find_by_id(&self.jobs, pair.0) {
            Some(i) => {
                self.jobs.set(i, pair);
                proof {
                    assert(ids_unique(self.jobs@)) by {
                        assert(forall|j: int|
                            0 <= j < pre.len() && j != i ==> (#[trigger] self.jobs@[j]) == pre[j]);
                        assert(self.jobs@[i as int].0 == pre[i as int].0);
                    }
                    lemma_find_id_present(self.jobs@, gid, i as int);
                }
            },
            None => {
                self.jobs.push(pair);
                proof {
                    lemma_find_id_none_means_absent(pre, gid);
                    assert(ids_unique(self.jobs@)) by {
                        assert(forall|j: int|
                            0 <= j < pre.len() ==> (#[trigger] self.jobs@[j]) == pre[j]);
                    }
                    lemma_find_id_present(self.jobs@, gid, pre.len() as int);
                }
            },
        }
    }

    /// Get a job by id.
    pub fn get_job(&self, id: u128) -> (r: Option<&JobState>)
        ensures
            match find_id(self.jobs@, id) {
                Some(i) => r matches Some(j) && *j == self.jobs@[i].1,
                None => r is None,
            },
    {
        match find_by_id(&self.jobs, id) {
            Some(i) => Some(&self.jobs[i].1),
            None => None,
        }
    }

    /// Update job status; a job that no longer exists is left alone.
    pub fn update_job_status(&mut self, id: u128, status: JobStatus, now: u64)
        requires
            old(self).wf(),
        ensures
            final(self).wf(),
            match find_id(old(self).jobs@, id) {
                Some(i) => final(self).jobs@ == old(self).jobs@.update(
                    i,
                    (id, JobState { status, updated_at: now, ..old(self).jobs@[i].1 }),
                ),
                None => final(self).jobs@ == old(self).jobs@,
            },
            final(self).map_data_cache@ == old(self).map_data_cache@,
            final(self).config == old(self).config,
            final(self).geocoding_cache == old(self).geocoding_cache,
    {
        let ghost pre = self.jobs@;
        match find_by_id(&self.jobs, id) {
            Some(i) => {
                let j = &mut self.jobs[i].1;
                j.status = status;
                j.updated_at = now;
                proof {
                    assert(self.jobs@ =~= pre.update(
                        i as int,
                        (id, JobState { status, updated_at: now, ..pre[i as int].1 }),
                    ));
                    assert(ids_unique(self.jobs@)) by {
                        assert(forall|x: int|
                            0 <= x < pre.len() ==> (#[trigger] self.jobs@[x]).0 == pre[x].0);
                    }
                }
            },
            None => {},
        }
    }

    /// Overwrite the mutable progress fields and touch the update
    /// timestamp; a job that no longer exists is left alone.
    pub fn update_job_progress(
        &mut self,
        id: u128,
        progress_milli: u32,
        step: Option<String>,
        message: Option<String>,
        now: u64,
    )
        requires
            old(self).wf(),
        ensures
            final(self).wf(),
            match find_id(old(self).jobs@, id) {
                Some(i) => final(self).jobs@ == old(self).jobs@.update(
                    i,
                    (
                        id,
                        JobState {
                            progress_milli,
                            current_step: step,
                            message,
                            updated_at: now,
                            ..old(self).jobs@[i].1
                        },
                    ),
                ),
                None => final(self).jobs@ == old(self).jobs@,
            },
            final(self).map_data_cache@ == old(self).map_data_cache@,
            final(self).config == old(self).config,
            final(self).geocoding_cache == old(self).geocoding_cache,
    {
        let ghost pre = self.jobs@;
        match find_by_id(&self.jobs, id) {
            Some(i) => {
                let j = &mut self.jobs[i].1;
                j.progress_milli = progress_milli;
                j.current_step = step;
                j.message = message;
                j.updated_at = now;
                proof {
                    assert(self.jobs@ =~= pre.update(i as int, self.jobs@[i as int]));
                    assert(ids_unique(self.jobs@)) by {
                        assert(forall|x: int|
                            0 <= x < pre.len() ==> (#[trigger] self.jobs@[x]).0 == pre[x].0);
                    }
                }
            },
            None => {},
        }
    }

    /// Mark a job as completed: full progress and the output reference set.
    pub fn complete_job(&mut self, id: u128, output_path: String, now: u64)
        requires
            old(self).wf(),
        ensures
            final(self).wf(),
            match find_id(old(self).jobs@, id) {
                Some(i) => {
                    &&& final(self).jobs@.len() == old(self).jobs@.len()
                    &&& final(self).jobs@[i].0 == id
                    &&& final(self).jobs@[i].1.status == JobStatus::Completed
                    &&& final(self).jobs@[i].1.progress_milli == 1000
                    &&& final(self).jobs@[i].1.output_path matches Some(p) && p@ == output_path@
                    &&& final(self).jobs@[i].1.current_step matches Some(s) && s@ == "completed"@
                    &&& final(self).jobs@[i].1.message matches Some(m) && m@
                        == "Poster generated successfully"@
                    &&& final(self).jobs@[i].1.updated_at == now
                    &&& final(self).jobs@[i].1.created_at == old(self).jobs@[i].1.created_at
                    &&& final(self).jobs@[i].1.error == old(self).jobs@[i].1.error
                    &&& final(self).jobs@[i].1.id == old(self).jobs@[i].1.id
                    &&& final(self).jobs@[i].1.request == old(self).jobs@[i].1.request
                    &&& forall|x: int|
                        0 <= x < final(self).jobs@.len() && x != i ==> final(self).jobs@[x] == old(self).jobs@[x]
                },
                None => final(self).jobs@ == old(self).jobs@,
            },
            final(self).map_data_cache@ == old(self).map_data_cache@,
            final(self).config == old(self).config,
            final(self).geocoding_cache == old(self).geocoding_cache,
    {
        let ghost pre = self.jobs@;
        match find_by_id(&self.jobs, id) {
            Some(i) => {
                let j = &mut self.jobs[i].1;
                j.status = JobStatus::Completed;
                j.progress_milli = 1000;
                j.output_path = Some(output_path);
                j.current_step = Some(String::from_str("completed"));
                j.message = Some(String::from_str("Poster generated successfully"));
                j.updated_at = now;
                proof {
                    assert(ids_unique(self.jobs@)) by {
                        assert(forall|x: int|
                            0 <= x < pre.len() ==> (#[trigger] self.jobs@[x]).0 == pre[x].0);
                    }
                }
            },
            None => {},
        }
    }

    /// Mark a job as failed, with its error text.
    pub fn fail_job(&mut self, id: u128, error: String, now: u64)
        requires
            old(self).wf(),
        ensures
            final(self).wf(),
            match find_id(old(self).jobs@, id) {
                Some(i) => {
                    &&& final(self).jobs@.len() == old(self).jobs@.len()
                    &&& final(self).jobs@[i].0 == id
                    &&& final(self).jobs@[i].1.status == JobStatus::Failed
                    &&& final(self).jobs@[i].1.error matches Some(e) && e@ == error@
                    &&& final(self).jobs@[i].1.current_step matches Some(s) && s@ == "failed"@
                    &&& final(self).jobs@[i].1.updated_at == now
                    &&& final(self).jobs@[i].1.progress_milli == old(self).jobs@[i].1.progress_milli
                    &&& final(self).jobs@[i].1.created_at == old(self).jobs@[i].1.created_at
                    &&& final(self).jobs@[i].1.output_path == old(self).jobs@[i].1.output_path
                    &&& final(self).jobs@[i].1.message == old(self).jobs@[i].1.message
                    &&& final(self).jobs@[i].1.id == old(self).jobs@[i].1.id
                    &&& final(self).jobs@[i].1.request == old(self).jobs@[i].1.request
                    &&& forall|x: int|
                        0 <= x < final(self).jobs@.len() && x != i ==> final(self).jobs@[x] == old(self).jobs@[x]
                },
                None => final(self).jobs@ == old(self).jobs@,
            },
            final(self).map_data_cache@ == old(self).map_data_cache@,
            final(self).config == old(self).config,
            final(self).geocoding_cache == old(self).geocoding_cache,
    {
        let ghost pre = self.jobs@;
        match find_by_id(&self.jobs, id) {
            Some(i) => {
                let j = &mut self.jobs[i].1;
                j.status = JobStatus::Failed;
                j.error = Some(error);
                j.current_step = Some(String::from_str("failed"));
                j.updated_at = now;
                proof {
                    assert(ids_unique(self.jobs@)) by {
                        assert(forall|x: int|
                            0 <= x < pre.len() ==> (#[trigger] self.jobs@[x]).0 == pre[x].0);
                    }
                }
            },
            None => {},
        }
    }

    /// Remove every job whose creation lies at least the retention period
    /// in the past, and the cached map data of each removed job.
    pub fn cleanup_old_jobs(&mut self, now: u64)
        requires
            old(self).wf(),
        ensures
            final(self).wf(),
            final(self).jobs@ == keep_recent(
                old(self).jobs@,
                now as int,
                old(self).config.job_ttl_hours as int * 3600000,
            ),
            final(self).map_data_cache@ == keep_swept_data(
                old(self).jobs@,
                old(self).map_data_cache@,
                now as int,
                old(self).config.job_ttl_hours as int * 3600000,
            ),
            final(self).config == old(self).config,
            final(self).geocoding_cache == old(self).geocoding_cache,
    {
        let ttl_ms: u64 = self.config.job_ttl_hours as u64 * 3600000;
        let ghost orig_jobs = self.jobs@;
        let ghost gttl = ttl_ms as int;

        // Sweep the map data first, while the job table still answers for
        // every id: an entry goes exactly when its owning job is expired.
        let ghost orig_data = self.map_data_cache@;
        let mut kept_data: Vec<(u128, CachedMapData)> = Vec::new();
        let data_n = self.map_data_cache.len();
        let mut k: usize = 0;
        while self.map_data_cache.len() > 0
            invariant
                old(self).wf(),
                data_n == orig_data.len(),
                k <= data_n,
                k + self.map_data_cache@.len() == orig_data.len(),
                self.map_data_cache@ =~= orig_data.skip(k as int),
                kept_data@ == keep_swept_data(
                    orig_jobs,
                    orig_data.take(k as int),
                    now as int,
                    gttl,
                ),
                gttl == ttl_ms as int,
                self.jobs@ == orig_jobs,
                self.config == old(self).config,
                self.geocoding_cache == old(self).geocoding_cache,
                self.rate_limiters == old(self).rate_limiters,
            decreases self.map_data_cache@.len(),
        {
            let e = self.map_data_cache.remove(0);
            proof {
                assert(e == orig_data[k as int]);
                assert(self.map_data_cache@ =~= orig_data.skip(k as int + 1));
                assert(orig_data.take(k as int + 1).drop_last() =~= orig_data.take(k as int));
                assert(orig_data.take(k as int + 1).last() == orig_data[k as int]);
            }
            let keep = match find_by_id(&self.jobs, e.0) {
                Some(i) => {
                    let created = self.jobs[i].1.created_at;
                    created > now || now - created < ttl_ms
                },
                None => true,
            };
            proof {
                assert(keep == sweep_keeps_data(orig_jobs, e.0, now as int, gttl));
            }
            if keep {
                kept_data.push(e);
            }
            k = k + 1;
        }
        proof {
            assert(orig_data.take(k as int) =~= orig_data);
        }
        self.map_data_cache = kept_data;
        proof {
            lemma_keep_swept_unique(orig_jobs, orig_data, now as int, gttl);
        }

        let mut kept: Vec<(u128, JobState)> = Vec::new();
        let orig_n = self.jobs.len();
        let mut i: usize = 0;
        while self.jobs.len() > 0
            invariant
                old(self).wf(),
                orig_n == orig_jobs.len(),
                i <= orig_n,
                i + self.jobs@.len() == orig_jobs.len(),
                self.jobs@ =~= orig_jobs.skip(i as int),
                kept@ == keep_recent(orig_jobs.take(i as int), now as int, gttl),
                gttl == ttl_ms as int,
                self.map_data_cache@ == keep_swept_data(orig_jobs, orig_data, now as int, gttl),
                ids_unique(self.map_data_cache@),
                self.config == old(self).config,
                self.geocoding_cache == old(self).geocoding_cache,
                self.rate_limiters == old(self).rate_limiters,
            decreases self.jobs@.len(),
        {
            let e = self.jobs.remove(0);
            proof {
                assert(e == orig_jobs[i as int]);
                assert(self.jobs@ =~= orig_jobs.skip(i as int + 1));
                assert(orig_jobs.take(i as int + 1).drop_last() =~= orig_jobs.take(i as int));
                assert(orig_jobs.take(i as int + 1).last() == orig_jobs[i as int]);
            }
            let keep = e.1.created_at > now || now - e.1.created_at < ttl_ms;
            proof {
                assert(keep == (e.1.created_at + gttl > now));
            }
            if keep {
                kept.push(e);
            }
            i = i + 1;
        }
        proof {
            assert(orig_jobs.take(i as int) =~= orig_jobs);
        }
        self.jobs = kept;
        proof {
            lemma_keep_recent_unique(orig_jobs, now as int, gttl);
        }
    }
}

/// How storing map data relates the table to its prior state.
pub open spec fn data_upserted(
    pre: Seq<(u128, CachedMapData)>,
    post: Seq<(u128, CachedMapData)>,
    id: u128,
    d: CachedMapData,
) -> bool {
    match find_id(pre, id) {
        Some(i) => post.len() == pre.len() && post[i].0 == id && map_data_eq(post[i].1, d)
            && forall|x: int| 0 <= x < pre.len() && x != i ==> post[x] == pre[x],
        None => post.len() == pre.len() + 1 && post.last().0 == id && map_data_eq(post.last().1, d)
            && forall|x: int| 0 <= x < pre.len() ==> post[x] == pre[x],
    }
}

/// What a progress stream emits when it samples a job.
#[derive(Debug)]
pub enum StreamEvent {
    /// The job is still on its way: its current snapshot.
    Progress(ProgressUpdate),
    /// The job finished: the final snapshot and the download reference.
    Completed(ProgressUpdate, String),
    /// The job failed: its error text.
    Error(String),
    /// The job no longer exists.
    Gone,
}

/// The path and suggested filename of a finished poster.
#[derive(Debug)]
pub struct DownloadInfo {
    pub path: String,
    pub filename: String,
}

/// The filename a poster is offered under: sanitized place and theme.
pub open spec fn download_filename_spec(city: Seq<char>, theme: Seq<char>) -> Seq<char> {
    city.map(|_i: int, c: char| sanitize_char(c)) + "_"@ + theme.map(
        |_i: int, c: char| sanitize_char(c),
    ) + ".png"@
}

/// The complaint about a download of a job that is not finished.
pub open spec fn not_completed_msg(id: u128, status: JobStatus) -> Seq<char> {
    "Job "@ + id_str_spec(id) + " is not completed (status: "@ + status_label_spec(status) + ")"@
}

impl AppState {
    /// Store cached map data for a job.
    pub fn cache_map_data(&mut self, job_id: u128, data: CachedMapData)
        requires
            old(self).wf(),
        ensures
            final(self).wf(),
            final(self).map_data_cache@ == upsert_id(old(self).map_data_cache@, (job_id, data)),
            final(self).jobs@ == old(self).jobs@,
            final(self).config == old(self).config,
            final(self).geocoding_cache == old(self).geocoding_cache,
            final(self).rate_limiters == old(self).rate_limiters,
    {
        let ghost pre = self.map_data_cache@;
        match find_by_id(&self.map_data_cache, job_id) {
            Some(i) => {
                self.map_data_cache.set(i, (job_id, data));
                proof {
                    assert(ids_unique(self.map_data_cache@)) by {
                        assert(forall|j: int|
                            0 <= j < pre.len() && j != i ==> (#[trigger] self.map_data_cache@[j])
                                == pre[j]);
                        assert(self.map_data_cache@[i as int].0 == pre[i as int].0);
                    }
                }
            },
            None => {
                self.map_data_cache.push((job_id, data));
                proof {
                    lemma_find_id_none_means_absent(pre, job_id);
                    assert(ids_unique(self.map_data_cache@)) by {
                        assert(forall|j: int|
                            0 <= j < pre.len() ==> (#[trigger] self.map_data_cache@[j]) == pre[j]);
                    }
                }
            },
        }
    }

    /// Get cached map data for a job.
    pub fn get_cached_map_data(&self, job_id: u128) -> (r: Option<&CachedMapData>)
        ensures
            match find_id(self.map_data_cache@, job_id) {
                Some(i) => r matches Some(d) && *d == self.map_data_cache@[i].1,
                None => r is None,
            },
    {
        match find_by_id(&self.map_data_cache, job_id) {
            Some(i) => Some(&self.map_data_cache[i].1),
            None => None,
        }
    }

    /// One sample of a job for its progress stream: a progress event while
    /// it runs, a completion event with the download reference once it is
    /// done, an error event with the stored text once it has failed, and a
    /// gone event when the job no longer exists.
    pub fn stream_event(&self, id: u128) -> (r: StreamEvent)
        ensures
            match find_id(self.jobs@, id) {
                None => r is Gone,
                Some(i) => {
                    let job = self.jobs@[i].1;
                    match job.status {
                        JobStatus::Completed => r matches StreamEvent::Completed(u, url)
                            && stream_update_ok(u, job) && url@ == download_url_spec(job.id),
                        JobStatus::Failed => r matches StreamEvent::Error(m) && m@ == (
                        match job.error {
                            Some(e) => e@,
                            None => "Generation failed"@,
                        }),
                        _ => r matches StreamEvent::Progress(u) && stream_update_ok(u, job),
                    }
                },
            },
    {
        match find_by_id(&self.jobs, id) {
            None => StreamEvent::Gone,
            Some(i) => {
                let job = &self.jobs[i].1;
                match job.status {
                    JobStatus::Completed => {
                        let mut url = String::from_str("/api/posters/");
                        let ids = format_job_id(job.id);
                        url.append(ids.as_str());
                        url.append("/download");
                        StreamEvent::Completed(stream_update_of(job), url)
                    },
                    JobStatus::Failed => {
                        let m = match &job.error {
                            Some(e) => String::from_str(e.as_str()),
                            None => String::from_str("Generation failed"),
                        };
                        StreamEvent::Error(m)
                    },
                    _ => StreamEvent::Progress(stream_update_of(job)),
                }
            },
        }
    }

    /// Validate a creation request and create its job: distances outside
    /// the configured bounds and unknown themes are rejected before any
    /// job exists; otherwise the job is created queued and the caller gets
    /// the job and the response to send.
    pub fn prepare_create(
        &mut self,
        request: PosterCreateRequest,
        theme_exists: bool,
        now: u64,
    ) -> (r: Result<(JobState, PosterCreateResponse), AppError>)
        requires
            old(self).wf(),
        ensures
            final(self).wf(),
            final(self).map_data_cache@ == old(self).map_data_cache@,
            final(self).config == old(self).config,
            final(self).geocoding_cache == old(self).geocoding_cache,
            request.distance < old(self).config.min_distance ==> (r matches Err(e) && (
            e matches AppError::InvalidDistance(m) && m@ == crate::config::below_min_msg(
                request.distance as int,
                old(self).config.min_distance as int,
            )) && final(self).jobs@ == old(self).jobs@),
            old(self).config.min_distance <= request.distance && request.distance > old(self).config.max_distance ==> (r matches Err(e) && (e matches AppError::InvalidDistance(m)
                && m@ == crate::config::above_max_msg(
                request.distance as int,
                old(self).config.max_distance as int,
            )) && final(self).jobs@ == old(self).jobs@),
            old(self).config.min_distance <= request.distance <= old(self).config.max_distance
                && !theme_exists ==> (r matches Err(e) && (e matches AppError::ThemeNotFound(t)
                && t@ == request.theme@) && final(self).jobs@ == old(self).jobs@),
            old(self).config.min_distance <= request.distance <= old(self).config.max_distance
                && theme_exists ==> (r matches Ok(p) && {
                let (job, resp) = p;
                &&& job.status == JobStatus::Queued
                &&& job.progress_milli == 0
                &&& job.created_at == now
                &&& job.request.city@ == request.city@
                &&& job.request.country@ == request.country@
                &&& job.request.theme@ == request.theme@
                &&& job.request.distance == request.distance
                &&& jobs_upserted(old(self).jobs@, final(self).jobs@, job.id, job)
                &&& resp.job_id@ == id_str_spec(job.id)
                &&& resp.status@ == "queued"@
                &&& resp.estimated_time == 30 + request.distance / 1000
            }),
    {
        match self.config.validate_distance(request.distance) {
            Err(m) => {
                return Err(AppError::InvalidDistance(m));
            },
            Ok(_) => {},
        }
        if !theme_exists {
            return Err(AppError::ThemeNotFound(request.theme));
        }
        let estimated_time = estimate_generation_time(request.distance);
        let job_request = JobRequest {
            city: request.city,
            country: request.country,
            theme: request.theme,
            distance: request.distance,
        };
        let job = self.create_job(job_request, now);
        let response = PosterCreateResponse {
            job_id: format_job_id(job.id),
            status: String::from_str("queued"),
            estimated_time,
        };
        Ok((job, response))
    }

    /// Validate a re-render request and create its job: it needs cached
    /// map data under the old job id and a known theme; the new job
    /// carries the cached place and radius with the new theme, the cached
    /// geometry is copied under the new id, and the estimate is short.
    pub fn prepare_rerender(
        &mut self,
        job_id: u128,
        new_theme: String,
        theme_exists: bool,
        now: u64,
    ) -> (r: Result<(JobState, PosterCreateResponse), AppError>)
        requires
            old(self).wf(),
        ensures
            final(self).wf(),
            final(self).config == old(self).config,
            final(self).geocoding_cache == old(self).geocoding_cache,
            find_id(old(self).map_data_cache@, job_id) is None ==> (r matches Err(e) && (
            e matches AppError::Internal(m) && m@ == "No cached data available for this job"@)
                && final(self).jobs@ == old(self).jobs@ && final(self).map_data_cache@ == old(self).map_data_cache@),
            find_id(old(self).map_data_cache@, job_id) is Some && !theme_exists ==> (
            r matches Err(e) && (e matches AppError::ThemeNotFound(t) && t@ == new_theme@) && final(self).jobs@ == old(self).jobs@ && final(self).map_data_cache@ == old(self).map_data_cache@),
            find_id(old(self).map_data_cache@, job_id) is Some && theme_exists ==> (
            r matches Ok(p) && {
                let (job, resp) = p;
                let cached = old(self).map_data_cache@[find_id(
                    old(self).map_data_cache@,
                    job_id,
                )->Some_0].1;
                &&& job.status == JobStatus::Queued
                &&& job.progress_milli == 0
                &&& job.created_at == now
                &&& job.request.city@ == cached.city@
                &&& job.request.country@ == cached.country@
                &&& job.request.theme@ == new_theme@
                &&& job.request.distance == cached.distance
                &&& jobs_upserted(old(self).jobs@, final(self).jobs@, job.id, job)
                &&& data_upserted(
                    old(self).map_data_cache@,
                    final(self).map_data_cache@,
                    job.id,
                    cached,
                )
                &&& resp.job_id@ == id_str_spec(job.id)
                &&& resp.status@ == "queued"@
                &&& resp.estimated_time == 5
            }),
    {
        let cached: CachedMapData = match self.get_cached_map_data(job_id) {
            Some(d) => d.clone(),
            None => {
                return Err(AppError::Internal(String::from_str(
                    "No cached data available for this job",
                )));
            },
        };
        if !theme_exists {
            return Err(AppError::ThemeNotFound(new_theme));
        }
        let job_request = JobRequest {
            city: cached.city.clone(),
            country: cached.country.clone(),
            theme: new_theme,
            distance: cached.distance,
        };
        let job = self.create_job(job_request, now);
        let ghost mid_map = self.map_data_cache@;
        self.cache_map_data(job.id, cached);
        proof {
            lemma_find_id_some_bounds(mid_map, job.id);
            let ci = find_id(old(self).map_data_cache@, job_id)->Some_0;
            assert(data_upserted(
                old(self).map_data_cache@,
                self.map_data_cache@,
                job.id,
                old(self).map_data_cache@[ci].1,
            ));
        }
        let response = PosterCreateResponse {
            job_id: format_job_id(job.id),
            status: String::from_str("queued"),
            estimated_time: 5,
        };
        Ok((job, response))
    }

    /// Look up a place in the geocoding cache under its normalized
    /// `city,country` key; a stale entry is evicted and missed.
    pub fn lookup_geocode(&mut self, city: &str, country: &str, now: u64) -> (r: Option<
        GeocodingResult,
    >)
        requires
            old(self).wf(),
        ensures
            final(self).wf(),
            final(self).jobs@ == old(self).jobs@,
            final(self).map_data_cache@ == old(self).map_data_cache@,
            final(self).config == old(self).config,
            ({
                let key = city@ + ","@ + country@;
                match old(self).geocoding_cache.spec_find(key) {
                    Some(i) => {
                        if crate::cache::entry_fresh(
                            old(self).geocoding_cache.entries@[i],
                            now as int,
                            old(self).geocoding_cache.ttl_ms as int,
                        ) {
                            r == Some(old(self).geocoding_cache.entries@[i].1.value) && final(self).geocoding_cache.entries@ == old(self).geocoding_cache.entries@
                        } else {
                            r is None && final(self).geocoding_cache.entries@ == old(self).geocoding_cache.entries@.remove(i)
                        }
                    },
                    None => r is None && final(self).geocoding_cache.entries@ == old(self).geocoding_cache.entries@,
                }
            }),
    {
        let mut key = String::from_str(city);
        key.append(",");
        key.append(country);
        self.geocoding_cache.get(key.as_str(), now)
    }

    /// Store a geocoding result in the cache under its normalized
    /// `city,country` key.
    pub fn store_geocode(&mut self, city: &str, country: &str, lat: i64, lon: i64, now: u64)
        requires
            old(self).wf(),
        ensures
            final(self).wf(),
            final(self).jobs@ == old(self).jobs@,
            final(self).map_data_cache@ == old(self).map_data_cache@,
            final(self).config == old(self).config,
            final(self).geocoding_cache.entries@.len() <= final(self).geocoding_cache.max_entries,
            ({
                let key = city@ + ","@ + country@;
                final(self).geocoding_cache.spec_find(key) matches Some(i) && final(self).geocoding_cache.entries@[i].1.value == (GeocodingResult { lat, lon }) && final(self).geocoding_cache.entries@[i].1.inserted_at == now
            }),
    {
        let mut key = String::from_str(city);
        key.append(",");
        key.append(country);
        self.geocoding_cache.insert(key, GeocodingResult { lat, lon }, now);
    }

    /// What a download of a job returns: the stored output and a filename
    /// derived from the sanitized place and theme, or the reason there is
    /// nothing to download.
    pub fn download_info(&self, id: u128) -> (r: Result<DownloadInfo, AppError>)
        ensures
            match find_id(self.jobs@, id) {
                None => r matches Err(e) && (e matches AppError::JobNotFound(m) && m@
                    == id_str_spec(id)),
                Some(i) => {
                    let job = self.jobs@[i].1;
                    if job.status != JobStatus::Completed {
                        r matches Err(e) && (e matches AppError::Internal(m) && m@
                            == not_completed_msg(id, job.status))
                    } else {
                        match job.output_path {
                            None => r matches Err(e) && (e matches AppError::Internal(m) && m@
                                == "No output path for completed job"@),
                            Some(p) => r matches Ok(d) && d.path@ == p@ && d.filename@
                                == download_filename_spec(job.request.city@, job.request.theme@),
                        }
                    }
                },
            },
    {
        let job = match find_by_id(&self.jobs, id) {
            Some(i) => &self.jobs[i].1,
            None => {
                return Err(AppError::JobNotFound(format_job_id(id)));
            },
        };
        let completed = match job.status {
            JobStatus::Completed => true,
            _ => false,
        };
        if !completed {
            let mut m = String::from_str("Job ");
            let ids = format_job_id(id);
            m.append(ids.as_str());
            m.append(" is not completed (status: ");
            m.append(job.status.label());
            m.append(")");
            return Err(AppError::Internal(m));
        }
        let path = match &job.output_path {
            Some(p) => String::from_str(p.as_str()),
            None => {
                return Err(AppError::Internal(String::from_str(
                    "No output path for completed job",
                )));
            },
        };
        let mut filename = sanitize_filename(job.request.city.as_str());
        filename.append("_");
        let theme_part = sanitize_filename(job.request.theme.as_str());
        filename.append(theme_part.as_str());
        filename.append(".png");
        Ok(DownloadInfo { path, filename })
    }
}

/// Whether a progress update is the faithful snapshot of a job: the
/// canonical id, the status and fraction, and the step and message texts
/// with an empty string standing for an absent one.
pub open spec fn stream_update_ok(u: ProgressUpdate, job: JobState) -> bool {
    &&& u.job_id@ == id_str_spec(job.id)
    &&& u.status == job.status
    &&& u.progress_milli == job.progress_milli
    &&& u.step@ == (match job.current_step {
        Some(s) => s@,
        None => Seq::<char>::empty(),
    })
    &&& u.message@ == (match job.message {
        Some(m) => m@,
        None => Seq::<char>::empty(),
    })
}

fn stream_update_of(job: &JobState) -> (u: ProgressUpdate)
    ensures
        stream_update_ok(u, *job),
{
    proof {
        reveal_strlit("");
        assert(""@ =~= Seq::<char>::empty());
    }
    ProgressUpdate {
        job_id: format_job_id(job.id),
        status: job.status,
        progress_milli: job.progress_milli,
        step: match &job.current_step {
            Some(s) => String::from_str(s.as_str()),
            None => String::from_str(""),
        },
        message: match &job.message {
            Some(m) => String::from_str(m.as_str()),
            None => String::from_str(""),
        },
    }
}

proof fn lemma_keep_swept_unique(
    jobs: Seq<(u128, JobState)>,
    s: Seq<(u128, CachedMapData)>,
    now: int,
    ttl_ms: int,
)
    requires
        ids_unique(s),
    ensures
        ids_unique(keep_swept_data(jobs, s, now, ttl_ms)),
        keep_swept_data(jobs, s, now, ttl_ms).len() <= s.len(),
        forall|i: int|
            0 <= i < keep_swept_data(jobs, s, now, ttl_ms).len() ==> exists|j: int|
                0 <= j < s.len() && s[j] == #[trigger] keep_swept_data(jobs, s, now, ttl_ms)[i],
    decreases s.len(),
{
    if s.len() > 0 {
        assert(ids_unique(s.drop_last())) by {
            assert(forall|j: int| 0 <= j < s.len() - 1 ==> #[trigger] s.drop_last()[j] == s[j]);
        }
        lemma_keep_swept_unique(jobs, s.drop_last(), now, ttl_ms);
        let kf = keep_swept_data(jobs, s, now, ttl_ms);
        let kd = keep_swept_data(jobs, s.drop_last(), now, ttl_ms);
        assert(forall|j: int| 0 <= j < s.len() - 1 ==> #[trigger] s.drop_last()[j] == s[j]);
        assert forall|i: int| 0 <= i < kf.len() implies exists|j: int|
            0 <= j < s.len() && s[j] == #[trigger] kf[i] by {
            if i < kd.len() {
                let j = choose|j: int| 0 <= j < s.len() - 1 && s.drop_last()[j] == #[trigger] kd[i];
                assert(s[j] == kf[i]);
            } else {
                assert(kf[i] == s[s.len() - 1]);
            }
        }
        if sweep_keeps_data(jobs, s.last().0, now, ttl_ms) {
            assert forall|i: int, j: int| 0 <= i < j < kf.len() implies (#[trigger] kf[i]).0 != (
            #[trigger] kf[j]).0 by {
                if j == kf.len() - 1 {
                    let x = choose|x: int|
                        0 <= x < s.len() - 1 && s.drop_last()[x] == #[trigger] kd[i];
                    assert(s[x] == kd[i]);
                    assert(s[x].0 != s[s.len() - 1].0);
                }
            }
        }
    }
}

proof fn lemma_keep_recent_unique(s: Seq<(u128, JobState)>, now: int, ttl_ms: int)
    requires
        ids_unique(s),
    ensures
        ids_unique(keep_recent(s, now, ttl_ms)),
        keep_recent(s, now, ttl_ms).len() <= s.len(),
        forall|i: int|
            0 <= i < keep_recent(s, now, ttl_ms).len() ==> exists|j: int|
                0 <= j < s.len() && s[j] == #[trigger] keep_recent(s, now, ttl_ms)[i],
    decreases s.len(),
{
    if s.len() > 0 {
        assert(ids_unique(s.drop_last())) by {
            assert(forall|j: int| 0 <= j < s.len() - 1 ==> #[trigger] s.drop_last()[j] == s[j]);
        }
        lemma_keep_recent_unique(s.drop_last(), now, ttl_ms);
        let kf = keep_recent(s, now, ttl_ms);
        let kd = keep_recent(s.drop_last(), now, ttl_ms);
        assert(forall|j: int| 0 <= j < s.len() - 1 ==> #[trigger] s.drop_last()[j] == s[j]);
        assert forall|i: int| 0 <= i < kf.len() implies exists|j: int|
            0 <= j < s.len() && s[j] == #[trigger] kf[i] by {
            if i < kd.len() {
                let j = choose|j: int| 0 <= j < s.len() - 1 && s.drop_last()[j] == #[trigger] kd[i];
                assert(s[j] == kf[i]);
            } else {
                assert(kf[i] == s[s.len() - 1]);
            }
        }
        if s.last().1.created_at + ttl_ms > now {
            assert forall|i: int, j: int| 0 <= i < j < kf.len() implies (#[trigger] kf[i]).0 != (
            #[trigger] kf[j]).0 by {
                if j == kf.len() - 1 {
                    let x = choose|x: int|
                        0 <= x < s.len() - 1 && s.drop_last()[x] == #[trigger] kd[i];
                    assert(s[x] == kd[i]);
                    assert(s[x].0 != s[s.len() - 1].0);
                }
            }
        }
    }
}

} // verus!
