//! The job scheduler and registry. It owns every job, converts ingested
//! file records into jobs, plans dispatch in chunks bounded by the
//! configured parallelism, advances each job through its state machine one
//! event at a time, and answers queries. The outside work between events
//! (the decode process, the inference engine, writing the transcript) is
//! performed by the caller, which reports each outcome back as a
//! `JobEvent`; every transition updates the registry entry and yields the
//! `ProgressUpdate` to publish, so observers never see an event that
//! disagrees with the registry.

use crate::audio_converter::{is_media_path, AudioConverter};
use crate::config::ConfigManager;
use crate::paths::{file_name_of, file_name_vec};
use crate::text::{chars_of, dec_rep, lemma_dec_rep_injective, push_dec, string_of};
use crate::types::{
    EventView,
    FileEntry,
    FileStatus,
    IngestCandidate,
    JobEvent,
    JobView,
    ProgressUpdate,
    SettingsView,
    TranscriptionJob,
    TranscriptionSettings,
    UpdateView,
    WhisperModel,
};
use vstd::prelude::*;
use vstd::string::*;

verus! {

/// How far along a job is once the engine reports fraction `p` of the
/// transcription: conversion counts as a fixed 30% of the whole, the rest
/// scales into the remaining 70%. The value is capped at 99: a reading of
/// exactly 100 is reserved for completion, so a still-running job never
/// shows it, even when the engine reports 100 before returning.
pub open spec fn mapped_progress(p: int) -> int {
    if 30 + (p * 7) / 10 <= 99 {
        30 + (p * 7) / 10
    } else {
        99
    }
}

/// The job after one event, provided the job is still live; terminal jobs
/// never change.
pub open spec fn step(j: JobView, e: EventView) -> JobView {
    if j.status.is_terminal() {
        j
    } else {
        match e {
            EventView::ConversionStarted => JobView { status: FileStatus::Converting, ..j },
            EventView::ConversionFailed(d) => JobView {
                status: FileStatus::Error,
                error: Some("Conversion failed: "@ + d),
                ..j
            },
            EventView::ConversionSucceeded => JobView {
                status: FileStatus::Transcribing,
                progress: 30,
                ..j
            },
            EventView::ModelLoadFailed(d) => JobView {
                status: FileStatus::Error,
                error: Some("Failed to load model: "@ + d),
                ..j
            },
            EventView::EngineProgress(p) => JobView {
                status: FileStatus::Transcribing,
                progress: mapped_progress(p),
                ..j
            },
            EventView::TranscriptionFailed(d) => JobView {
                status: FileStatus::Error,
                error: Some("Transcription failed: "@ + d),
                ..j
            },
            EventView::OutputWritten(p) => JobView {
                status: FileStatus::Completed,
                progress: 100,
                output_path: Some(p),
                ..j
            },
            EventView::OutputWriteFailed(d) => JobView {
                status: FileStatus::Error,
                error: Some("Failed to save output: "@ + d),
                ..j
            },
            EventView::CancelRequested => JobView {
                status: FileStatus::Error,
                error: Some("Cancelled by user"@),
                ..j
            },
        }
    }
}

/// The message carried by the update a transition emits: engine progress
/// reports a fixed note, everything else the job's own error field.
pub open spec fn event_message(j2: JobView, e: EventView) -> Option<Seq<char>> {
    match e {
        EventView::EngineProgress(_) => Some("Transcribing..."@),
        _ => j2.error,
    }
}

/// The update emitted together with a transition into `j2`.
pub open spec fn update_of(j2: JobView, e: EventView) -> UpdateView {
    UpdateView { file_id: j2.id, status: j2.status, progress: j2.progress, message: event_message(j2, e) }
}

/// Whether an event is the one the pipeline delivers in the stage the job
/// is in (cancellation can arrive in any live stage).
pub open spec fn event_fits(j: JobView, e: EventView) -> bool {
    match e {
        EventView::ConversionStarted => j.status == FileStatus::Pending,
        EventView::ConversionFailed(_) => j.status == FileStatus::Converting,
        EventView::ConversionSucceeded => j.status == FileStatus::Converting,
        EventView::ModelLoadFailed(_) => j.status == FileStatus::Transcribing,
        EventView::EngineProgress(_) => j.status == FileStatus::Transcribing,
        EventView::TranscriptionFailed(_) => j.status == FileStatus::Transcribing,
        EventView::OutputWritten(_) => j.status == FileStatus::Transcribing,
        EventView::OutputWriteFailed(_) => j.status == FileStatus::Transcribing,
        EventView::CancelRequested => !j.status.is_terminal(),
    }
}

/// Progress is coupled to the stage: nothing before conversion finishes, 30
/// up to (but not reaching) 100 while transcribing, exactly 100 when and
/// only when completed; a failed job keeps the progress it had.
pub open spec fn job_wf(j: JobView) -> bool {
    &&& (j.status == FileStatus::Pending ==> j.progress == 0)
    &&& (j.status == FileStatus::Converting ==> j.progress == 0)
    &&& (j.status == FileStatus::Transcribing ==> 30 <= j.progress <= 99)
    &&& (j.status == FileStatus::Completed ==> j.progress == 100)
    &&& (j.status == FileStatus::Error ==> 0 <= j.progress <= 99)
}

/// A job's progress reads exactly 100 precisely when it is completed.
pub proof fn lemma_progress_100_iff_completed(j: JobView)
    requires
        job_wf(j),
    ensures
        j.progress == 100 <==> j.status == FileStatus::Completed,
{
}

/// The progress mapping is monotone in the engine's own fraction, starts at
/// the 30 that entering transcription already reported, and always stays
/// below 100.
pub proof fn lemma_mapped_progress(p1: int, p2: int)
    requires
        0 <= p1 <= p2,
    ensures
        mapped_progress(p1) <= mapped_progress(p2),
        30 <= mapped_progress(p1) <= 99,
{
    vstd::arithmetic::div_mod::lemma_div_is_ordered(p1 * 7, p2 * 7, 10);
    vstd::arithmetic::div_mod::lemma_div_is_ordered(0, p1 * 7, 10);
}

/// Every transition keeps a job well-formed; in particular no admitted
/// event gives a live or failed job a progress reading of 100.
pub proof fn lemma_step_preserves_wf(j: JobView, e: EventView)
    requires
        job_wf(j),
        event_fits(j, e),
        e matches EventView::EngineProgress(p) ==> 0 <= p,
    ensures
        job_wf(step(j, e)),
{
    if !j.status.is_terminal() {
        match e {
            EventView::EngineProgress(p) => {
                lemma_mapped_progress(p, p);
            },
            _ => {},
        }
    }
}

/// A live job's progress never decreases. For engine reports the premise —
/// the new mapped value is at least the progress already recorded — is what
/// `lemma_mapped_progress` yields from the engine's own guarantee that its
/// fractions arrive in non-decreasing order.
pub proof fn lemma_step_progress_monotone(j: JobView, e: EventView)
    requires
        job_wf(j),
        event_fits(j, e),
        e matches EventView::EngineProgress(p) ==> mapped_progress(p) >= j.progress,
    ensures
        step(j, e).progress >= j.progress,
{
}

/// What a failed conversion leaves behind: the job ends in `Error`
/// carrying the conversion diagnostic, its progress stays at the 0 it had
/// while converting, and no output path appears; transcription is never
/// entered for it.
pub proof fn lemma_conversion_failure_outcome(j: JobView, d: Seq<char>)
    requires
        job_wf(j),
        j.status == FileStatus::Converting,
    ensures
        step(j, EventView::ConversionFailed(d)).status == FileStatus::Error,
        step(j, EventView::ConversionFailed(d)).error == Some("Conversion failed: "@ + d),
        step(j, EventView::ConversionFailed(d)).progress == 0,
        step(j, EventView::ConversionFailed(d)).output_path == j.output_path,
{
}

/// One transition leaves every registry entry well-formed: the job the
/// event addresses by `lemma_step_preserves_wf`, and every other entry
/// because a transition touches nothing else.
pub proof fn lemma_registry_stays_wf(s0: Seq<JobView>, i: int, e: EventView)
    requires
        forall|k: int| 0 <= k < s0.len() ==> job_wf(#[trigger] s0[k]),
        0 <= i < s0.len(),
        event_fits(s0[i], e),
        e matches EventView::EngineProgress(p) ==> 0 <= p,
    ensures
        forall|k: int|
            0 <= k < s0.len() ==> job_wf(#[trigger] s0.update(i, step(s0[i], e))[k]),
{
    lemma_step_preserves_wf(s0[i], e);
}

/// Pending job ids, in registry order.
pub open spec fn pending_ids(s: Seq<JobView>) -> Seq<Seq<char>>
    decreases s.len(),
{
    if s.len() == 0 {
        Seq::empty()
    } else {
        pending_ids(s.drop_last()) + if s.last().status == FileStatus::Pending {
            seq![s.last().id]
        } else {
            Seq::empty()
        }
    }
}

/// `s` cut into consecutive chunks of `m` elements, the last chunk holding
/// whatever remains.
pub open spec fn chunks_of(s: Seq<Seq<char>>, m: int) -> Seq<Seq<Seq<char>>>
    recommends
        m >= 1,
    decreases s.len(),
    when m >= 1
{
    if s.len() == 0 {
        Seq::empty()
    } else if s.len() <= m {
        seq![s]
    } else {
        seq![s.take(m)] + chunks_of(s.skip(m), m)
    }
}

/// No chunk exceeds the configured parallelism: dispatching one chunk at a
/// time therefore never runs more than `m` jobs at once.
pub proof fn lemma_chunks_bounded(s: Seq<Seq<char>>, m: int)
    requires
        m >= 1,
    ensures
        forall|i: int|
            0 <= i < chunks_of(s, m).len() ==> (#[trigger] chunks_of(s, m)[i]).len() <= m,
    decreases s.len(),
{
    if s.len() == 0 {
    } else if s.len() <= m {
        assert(chunks_of(s, m) == seq![s]);
    } else {
        lemma_chunks_bounded(s.skip(m), m);
        let cs = chunks_of(s, m);
        let rest = chunks_of(s.skip(m), m);
        assert forall|i: int| 0 <= i < cs.len() implies (#[trigger] cs[i]).len() <= m by {
            if i == 0 {
                assert(cs[i] == s.take(m));
            } else {
                assert(cs[i] == rest[i - 1]);
            }
        }
    }
}

/// The exact shape of the dispatch plan: every chunk but the last holds
/// exactly `m` ids, and the chunks concatenate back to the pending ids in
/// their original order, so earlier-submitted jobs are scheduled no later
/// than later ones.
pub proof fn lemma_chunks_exact(s: Seq<Seq<char>>, m: int)
    requires
        m >= 1,
    ensures
        chunks_of(s, m).len() == (s.len() + m - 1) / m,
        forall|i: int|
            0 <= i < chunks_of(s, m).len() - 1 ==> (#[trigger] chunks_of(s, m)[i]).len() == m,
        s.len() > 0 ==> chunks_of(s, m).last().len() == s.len() - m * (chunks_of(s, m).len() - 1),
        chunks_of(s, m).flatten() == s,
    decreases s.len(),
{
    let cs = chunks_of(s, m);
    if s.len() == 0 {
        assert(cs.flatten() =~= s);
        assert((s.len() + m - 1) / m == 0) by {
            vstd::arithmetic::div_mod::lemma_basic_div(m - 1, m);
        }
    } else if s.len() <= m {
        assert(cs.len() == 1);
        assert((s.len() + m - 1) / m == 1) by {
            vstd::arithmetic::div_mod::lemma_fundamental_div_mod_converse(
                s.len() + m - 1,
                m,
                1,
                s.len() - 1,
            );
        }
        assert(cs.flatten() =~= s) by {
            cs.lemma_flatten_one_element();
        }
        assert(cs.last() == s);
        assert(m * (cs.len() - 1) == 0) by (nonlinear_arith)
            requires
                cs.len() == 1,
        ;
    } else {
        lemma_chunks_exact(s.skip(m), m);
        let rest = chunks_of(s.skip(m), m);
        assert(cs == seq![s.take(m)] + rest);
        assert(cs.len() == 1 + rest.len());
        assert(s.skip(m).len() == s.len() - m);
        assert((s.len() + m - 1) / m == 1 + (s.len() - m + m - 1) / m) by {
            vstd::arithmetic::div_mod::lemma_div_plus_one(s.len() - 1, m);
        }
        assert forall|i: int| 0 <= i < cs.len() - 1 implies (#[trigger] cs[i]).len() == m by {
            if i == 0 {
            } else {
                assert(cs[i] == rest[i - 1]);
            }
        }
        assert(rest.len() >= 1);
        assert(cs.last() == rest.last());
        assert(s.skip(m).len() > 0);
        assert(m + m * (rest.len() - 1) == m * (cs.len() - 1)) by (nonlinear_arith)
            requires
                cs.len() == 1 + rest.len(),
        ;
        assert(cs.flatten() == s) by {
            assert(cs.drop_first() =~= rest);
            assert(cs.first() == s.take(m));
            assert(cs.flatten() == s.take(m) + rest.flatten());
            assert(s.take(m) + s.skip(m) =~= s);
        }
    }
}

/// Whether some job in `s` carries `id`.
pub open spec fn has_job(s: Seq<JobView>, id: Seq<char>) -> bool {
    exists|i: int| 0 <= i < s.len() && s[i].id == id
}

/// The index of the job carrying `id` (unique while the registry is
/// well-formed).
pub open spec fn job_index(s: Seq<JobView>, id: Seq<char>) -> int {
    choose|i: int| 0 <= i < s.len() && s[i].id == id
}

/// Inserting a job: replaces the entry with the same id, or appends.
pub open spec fn place_job(s: Seq<JobView>, jv: JobView) -> Seq<JobView> {
    if has_job(s, jv.id) {
        s.update(job_index(s, jv.id), jv)
    } else {
        s.push(jv)
    }
}

/// The fresh job a file record becomes when a batch starts.
pub open spec fn job_of_file(f: FileEntry, settings: SettingsView) -> JobView {
    JobView {
        id: f.id@,
        file_path: f.path@,
        settings,
        status: FileStatus::Pending,
        progress: 0,
        error: None,
        output_path: None,
    }
}

/// Jobs enter the registry well-formed; with `lemma_step_preserves_wf`
/// this keeps every registry entry well-formed through its whole life.
pub proof fn lemma_new_job_wf(f: FileEntry, settings: SettingsView)
    ensures
        job_wf(job_of_file(f, settings)),
{
}

pub open spec fn place_all(s: Seq<JobView>, files: Seq<FileEntry>, settings: SettingsView) -> Seq<
    JobView,
>
    decreases files.len(),
{
    if files.len() == 0 {
        s
    } else {
        place_job(place_all(s, files.drop_last(), settings), job_of_file(files.last(), settings))
    }
}

/// The registry without its completed jobs, order kept.
pub open spec fn non_completed(s: Seq<JobView>) -> Seq<JobView>
    decreases s.len(),
{
    if s.len() == 0 {
        Seq::empty()
    } else {
        non_completed(s.drop_last()) + if s.last().status != FileStatus::Completed {
            seq![s.last()]
        } else {
            Seq::empty()
        }
    }
}

/// Every entry the cleanup keeps comes from the registry.
proof fn lemma_non_completed_from(s: Seq<JobView>)
    ensures
        forall|k: int|
            0 <= k < non_completed(s).len() ==> exists|j: int|
                0 <= j < s.len() && #[trigger] non_completed(s)[k] == s[j],
    decreases s.len(),
{
    if s.len() > 0 {
        lemma_non_completed_from(s.drop_last());
        assert forall|k: int| 0 <= k < non_completed(s).len() implies exists|j: int|
            0 <= j < s.len() && #[trigger] non_completed(s)[k] == s[j] by {
            let prev = non_completed(s.drop_last());
            if k < prev.len() {
                let j = choose|j: int| 0 <= j < s.drop_last().len() && prev[k] == s.drop_last()[j];
                assert(non_completed(s)[k] == s[j]);
            } else {
                assert(non_completed(s)[k] == s[s.len() - 1]);
            }
        }
    }
}

/// Cleanup removes all and only the completed jobs: what it keeps is
/// exactly the live and failed jobs, and nothing completed survives.
pub proof fn lemma_clear_completed_exact(s: Seq<JobView>)
    ensures
        forall|jv: JobView|
            #[trigger] non_completed(s).contains(jv) <==> (s.contains(jv) && jv.status
                != FileStatus::Completed),
    decreases s.len(),
{
    if s.len() > 0 {
        lemma_clear_completed_exact(s.drop_last());
        assert forall|jv: JobView| #[trigger]
            non_completed(s).contains(jv) <==> (s.contains(jv) && jv.status
                != FileStatus::Completed) by {
            let prev = non_completed(s.drop_last());
            let cur = non_completed(s);
            if cur.contains(jv) {
                let k = choose|k: int| 0 <= k < cur.len() && cur[k] == jv;
                if k < prev.len() {
                    assert(prev[k] == jv);
                    assert(prev.contains(jv));
                    let j = choose|j: int| 0 <= j < s.drop_last().len() && s.drop_last()[j] == jv;
                    assert(s[j] == jv);
                    assert(s.contains(jv));
                } else {
                    assert(jv == s[s.len() - 1]);
                    assert(s.contains(jv));
                }
            }
            if s.contains(jv) && jv.status != FileStatus::Completed {
                let j = choose|j: int| 0 <= j < s.len() && s[j] == jv;
                if j < s.len() - 1 {
                    assert(s.drop_last()[j] == jv);
                    assert(s.drop_last().contains(jv));
                    assert(prev.contains(jv));
                    let k = choose|k: int| 0 <= k < prev.len() && prev[k] == jv;
                    assert(cur[k] == jv);
                    assert(cur.contains(jv));
                } else {
                    assert(cur[cur.len() - 1] == jv);
                    assert(cur.contains(jv));
                }
            }
        }
    }
}

/// Cleanup keeps ids pairwise distinct.
proof fn lemma_non_completed_wf(s: Seq<JobView>)
    requires
        forall|i: int, j: int| 0 <= i < j < s.len() ==> s[i].id != s[j].id,
    ensures
        forall|i: int, j: int|
            0 <= i < j < non_completed(s).len() ==> non_completed(s)[i].id != non_completed(
                s,
            )[j].id,
    decreases s.len(),
{
    if s.len() > 0 {
        lemma_non_completed_wf(s.drop_last());
        lemma_non_completed_from(s.drop_last());
        let prev = non_completed(s.drop_last());
        let cur = non_completed(s);
        assert forall|i: int, j: int| 0 <= i < j < cur.len() implies cur[i].id != cur[j].id by {
            if j < prev.len() {
            } else if s.last().status != FileStatus::Completed && j == cur.len() - 1 {
                assert(cur[i] == prev[i]);
                let oi = choose|oi: int|
                    0 <= oi < s.drop_last().len() && prev[i] == s.drop_last()[oi];
                assert(cur[j] == s[s.len() - 1]);
                assert(prev[i] == s[oi]);
            }
        }
    }
}

/// Relies on uuid's `Uuid::new_v4` and its `Display` impl: a fresh random
/// version-4 UUID rendered in the 36-character hyphenated form.
#[verifier::external_body]
fn fresh_uuid() -> (r: String)
    ensures
        r@.len() == 36,
{
    uuid::Uuid::new_v4().to_string()
}

fn clone_opt_string(o: &Option<String>) -> (r: Option<String>)
    ensures
        r == *o,
{
    match o {
        Some(s) => Some(s.clone()),
        None => None,
    }
}

fn clone_settings(s: &TranscriptionSettings) -> (r: TranscriptionSettings)
    ensures
        r == *s,
{
    TranscriptionSettings {
        language: clone_opt_string(&s.language),
        model: s.model.clone(),
        output_format: s.output_format,
        keep_wav: s.keep_wav,
        output_dir: clone_opt_string(&s.output_dir),
        parallel_jobs: s.parallel_jobs,
    }
}

fn clone_job(j: &TranscriptionJob) -> (r: TranscriptionJob)
    ensures
        r == *j,
{
    TranscriptionJob {
        id: j.id.clone(),
        file_path: j.file_path.clone(),
        settings: clone_settings(&j.settings),
        status: j.status,
        progress: j.progress,
        error: clone_opt_string(&j.error),
        output_path: clone_opt_string(&j.output_path),
    }
}

pub struct TranscriptionManager {
    pub config: ConfigManager,
    pub jobs: Vec<TranscriptionJob>,
}

impl TranscriptionManager {
    /// The registry as a sequence of job images, in insertion order.
    pub open spec fn jobs_view(&self) -> Seq<JobView> {
        Seq::new(self.jobs@.len(), |i: int| self.jobs@[i]@)
    }

    /// Registry well-formedness: one job per id.
    pub open spec fn wf(&self) -> bool {
        forall|i: int, j: int|
            0 <= i < j < self.jobs_view().len() ==> self.jobs_view()[i].id != self.jobs_view()[j].id
    }

    pub fn new(config: ConfigManager) -> (r: Self)
        ensures
            r.wf(),
            r.jobs_view() == Seq::<JobView>::empty(),
            r.config == config,
    {
        let r = TranscriptionManager { config, jobs: Vec::new() };
        assert(r.jobs_view() =~= Seq::<JobView>::empty());
        r
    }

    /// The model catalog, marked with the caller's on-disk observations;
    /// same contract as `ConfigManager::get_available_models`.
    pub fn get_available_models(&self, downloaded: &Vec<bool>) -> (r: Vec<WhisperModel>)
        ensures
            r@.len() == 8,
            forall|i: int|
                0 <= i < 8 ==> {
                    &&& (#[trigger] r@[i]).name@ == crate::config::catalog_name(i)
                    &&& r@[i].size@ == crate::config::catalog_size(i)
                    &&& r@[i].url@ == crate::config::model_url_prefix() + crate::config::catalog_name(
                        i,
                    ) + ".bin"@
                    &&& r@[i].downloaded == (i < downloaded@.len() && downloaded@[i])
                    &&& (r@[i].downloaded ==> (r@[i].file_path matches Some(p) && p@
                        == self.config.model_path_spec(crate::config::catalog_name(i))))
                    &&& (!r@[i].downloaded ==> r@[i].file_path is None)
                },
    {
        self.config.get_available_models(downloaded)
    }

    /// Ingestion: keeps the candidates whose paths are eligible media, in order,
    /// and builds one pending record per kept candidate, each with a fresh
    /// id that no sibling record shares.
    pub fn add_files(&self, files: Vec<IngestCandidate>) -> (r: Vec<FileEntry>)
        ensures
            r@.len() == ingest_kept(files@).len(),
            forall|k: int|
                0 <= k < r@.len() ==> {
                    &&& (#[trigger] r@[k]).path@ == ingest_kept(files@)[k].path@
                    &&& r@[k].name@ == file_name_of(ingest_kept(files@)[k].path@)
                    &&& r@[k].size == ingest_kept(files@)[k].size
                    &&& r@[k].status == FileStatus::Pending
                    &&& r@[k].progress == 0
                    &&& r@[k].error is None
                    &&& r@[k].output_path is None
                    &&& is_media_path(r@[k].path@)
                },
            forall|k1: int, k2: int| 0 <= k1 < k2 < r@.len() ==> r@[k1].id@ != r@[k2].id@,
    {
        let converter = AudioConverter::new();
        let mut out: Vec<FileEntry> = Vec::new();
        let mut i: usize = 0;
        while i < files.len()
            invariant
                i <= files@.len(),
                out@.len() == ingest_kept(files@.subrange(0, i as int)).len(),
                forall|k: int|
                    0 <= k < out@.len() ==> {
                        &&& (#[trigger] out@[k]).path@ == ingest_kept(
                            files@.subrange(0, i as int),
                        )[k].path@
                        &&& out@[k].name@ == file_name_of(
                            ingest_kept(files@.subrange(0, i as int))[k].path@,
                        )
                        &&& out@[k].size == ingest_kept(files@.subrange(0, i as int))[k].size
                        &&& out@[k].status == FileStatus::Pending
                        &&& out@[k].progress == 0
                        &&& out@[k].error is None
                        &&& out@[k].output_path is None
                        &&& is_media_path(out@[k].path@)
                    },
                forall|k: int|
                    0 <= k < out@.len() ==> {
                        &&& (#[trigger] out@[k]).id@.len() == 37 + dec_rep(k).len()
                        &&& out@[k].id@.subrange(37, out@[k].id@.len() as int) == dec_rep(k)
                    },
            decreases files@.len() - i,
        {
            let ghost prefix = files@.subrange(0, i as int);
            assert(files@.subrange(0, i as int + 1).drop_last() =~= prefix);
            if converter.is_audio_file(files[i].path.as_str()) {
                let u = fresh_uuid();
                let mut idv = chars_of(u.as_str());
                idv.push('-');
                push_dec(&mut idv, out.len() as u64);
                let ghost k_new = out@.len() as int;
                proof {
                    crate::text::lemma_dec_rep_len(k_new);
                    assert(idv@.subrange(37, idv@.len() as int) =~= dec_rep(k_new));
                }
                let id = string_of(&idv);
                let path_chars = chars_of(files[i].path.as_str());
                let name = string_of(&file_name_vec(&path_chars));
                let entry = FileEntry {
                    id,
                    path: files[i].path.clone(),
                    name,
                    size: files[i].size,
                    status: FileStatus::Pending,
                    progress: 0,
                    error: None,
                    output_path: None,
                };
                out.push(entry);
                assert(ingest_kept(files@.subrange(0, i as int + 1)) =~= ingest_kept(prefix)
                    + seq![files@[i as int]]);
            } else {
                assert(ingest_kept(files@.subrange(0, i as int + 1)) =~= ingest_kept(prefix));
            }
            i = i + 1;
        }
        assert(files@.subrange(0, files@.len() as int) =~= files@);
        proof {
            assert forall|k1: int, k2: int|
                0 <= k1 < k2 < out@.len() implies out@[k1].id@ != out@[k2].id@ by {
                if out@[k1].id@ == out@[k2].id@ {
                    assert(out@[k1].id@.subrange(37, out@[k1].id@.len() as int) == out@[k2].id@
                        .subrange(37, out@[k2].id@.len() as int));
                    lemma_dec_rep_injective(k1, k2);
                }
            }
        }
        out
    }

    /// Starts a batch: rejected outright when the model file is absent —
    /// no job is created then — and otherwise registers one pending job per
    /// file, each owning its copy of the settings. `model_available` is the
    /// caller's observation of whether the configured model file exists.
    pub fn start_transcription(
        &mut self,
        files: Vec<FileEntry>,
        settings: TranscriptionSettings,
        model_available: bool,
    ) -> (r: Result<(), String>)
        requires
            old(self).wf(),
        ensures
            final(self).wf(),
            final(self).config == old(self).config,
            !model_available ==> {
                &&& r matches Err(e) && e@ == "Model not downloaded: "@ + settings.model@
                &&& final(self).jobs_view() == old(self).jobs_view()
            },
            model_available ==> {
                &&& r is Ok
                &&& final(self).jobs_view() == place_all(old(self).jobs_view(), files@, settings@)
            },
    {
        if !model_available {
            let mut e = String::from_str("Model not downloaded: ");
            e.append(settings.model.as_str());
            return Err(e);
        }
        let mut i: usize = 0;
        while i < files.len()
            invariant
                i <= files@.len(),
                self.wf(),
                self.config == old(self).config,
                self.jobs_view() == place_all(
                    old(self).jobs_view(),
                    files@.subrange(0, i as int),
                    settings@,
                ),
            decreases files@.len() - i,
        {
            assert(files@.subrange(0, i as int + 1).drop_last() =~= files@.subrange(0, i as int));
            let job = TranscriptionJob {
                id: files[i].id.clone(),
                file_path: files[i].path.clone(),
                settings: clone_settings(&settings),
                status: FileStatus::Pending,
                progress: 0,
                error: None,
                output_path: None,
            };
            assert(job@ =~= job_of_file(files@[i as int], settings@));
            self.upsert_job(job);
            i = i + 1;
        }
        assert(files@.subrange(0, files@.len() as int) =~= files@);
        Ok(())
    }

    /// Finds the registry position of `job_id`.
    fn find_index(&self, job_id: &String) -> (r: Option<usize>)
        requires
            self.wf(),
        ensures
            match r {
                Some(i) => has_job(self.jobs_view(), job_id@) && job_index(
                    self.jobs_view(),
                    job_id@,
                ) == i as int && i < self.jobs_view().len(),
                None => !has_job(self.jobs_view(), job_id@),
            },
    {
        let mut i: usize = 0;
        while i < self.jobs.len()
            invariant
                i <= self.jobs_view().len(),
                self.wf(),
                forall|j: int| 0 <= j < i ==> self.jobs_view()[j].id != job_id@,
            decreases self.jobs_view().len() - i,
        {
            if self.jobs[i].id == *job_id {
                proof {
                    assert(self.jobs_view()[i as int].id == job_id@);
                    let w = job_index(self.jobs_view(), job_id@);
                    if w != i as int {
                        assert(self.jobs_view()[w].id == job_id@);
                    }
                }
                return Some(i);
            }
            i = i + 1;
        }
        return None;
    }

    /// Replaces the job with the same id or appends a new one.
    fn upsert_job(&mut self, job: TranscriptionJob)
        requires
            old(self).wf(),
        ensures
            final(self).wf(),
            final(self).config == old(self).config,
            final(self).jobs_view() == place_job(old(self).jobs_view(), job@),
    {
        let ghost s0 = old(self).jobs_view();
        match self.find_index(&job.id) {
            Some(i) => {
                self.jobs[i] = job;
                assert(self.jobs_view() =~= s0.update(job_index(s0, job@.id), job@));
            },
            None => {
                self.jobs.push(job);
                assert(self.jobs_view() =~= s0.push(job@));
            },
        }
    }

    /// The dispatch plan: pending job ids in registry order, cut into
    /// chunks of at most `max_parallel` ids; the caller runs one chunk at a
    /// time, waiting for a whole chunk before starting the next.
    pub fn pending_chunks(&self, max_parallel: usize) -> (r: Vec<Vec<String>>)
        requires
            max_parallel >= 1,
        ensures
            r.deep_view() == chunks_of(pending_ids(self.jobs_view()), max_parallel as int),
    {
        let mut ids: Vec<String> = Vec::new();
        let mut i: usize = 0;
        while i < self.jobs.len()
            invariant
                i <= self.jobs_view().len(),
                ids.deep_view() == pending_ids(self.jobs_view().subrange(0, i as int)),
            decreases self.jobs_view().len() - i,
        {
            assert(self.jobs_view().subrange(0, i as int + 1).drop_last() =~= self.jobs_view()
                .subrange(0, i as int));
            if self.jobs[i].status == FileStatus::Pending {
                ids.push(self.jobs[i].id.clone());
            }
            assert(ids.deep_view() =~= pending_ids(self.jobs_view().subrange(0, i as int + 1)));
            i = i + 1;
        }
        assert(self.jobs_view().subrange(0, self.jobs_view().len() as int) =~= self.jobs_view());
        let ghost all = ids.deep_view();
        let n = ids.len();
        let mut out: Vec<Vec<String>> = Vec::new();
        assert(out.deep_view() =~= Seq::<Seq<Seq<char>>>::empty());
        assert(all.skip(0) =~= all);
        let mut start: usize = 0;
        while start < n
            invariant
                start <= n,
                n == all.len(),
                all == ids.deep_view(),
                chunks_of(all, max_parallel as int) == out.deep_view() + chunks_of(
                    all.skip(start as int),
                    max_parallel as int,
                ),
                max_parallel >= 1,
            decreases n - start,
        {
            let remaining = n - start;
            let take = if remaining < max_parallel {
                remaining
            } else {
                max_parallel
            };
            let mut chunk: Vec<String> = Vec::new();
            let mut k: usize = start;
            while k < start + take
                invariant
                    start <= k <= start + take,
                    start + take <= n,
                    n == ids@.len(),
                    chunk@.len() == k - start,
                    forall|j: int| 0 <= j < chunk@.len() ==> chunk@[j] == ids@[start + j],
                decreases start + take - k,
            {
                chunk.push(ids[k].clone());
                k = k + 1;
            }
            proof {
                assert forall|j: int|
                    0 <= j < take as int implies chunk.deep_view()[j] == ids.deep_view()[start
                    + j] by {
                    assert(chunk@[j] == ids@[start + j]);
                }
                assert(chunk.deep_view() =~= ids.deep_view().subrange(
                    start as int,
                    start as int + take as int,
                ));
            }
            let ghost out_before = out.deep_view();
            out.push(chunk);
            proof {
                assert(out.deep_view() =~~= out_before.push(chunk.deep_view()));
                let rem = all.skip(start as int);
                if remaining <= max_parallel {
                    assert(chunk.deep_view() =~= rem);
                    assert(all.skip(start as int + take as int) =~= Seq::<Seq<char>>::empty());
                    assert(chunks_of(rem, max_parallel as int) == seq![rem]);
                } else {
                    assert(chunk.deep_view() =~= rem.take(max_parallel as int));
                    assert(all.skip(start as int + take as int) =~= rem.skip(max_parallel as int));
                }
                assert(chunks_of(all, max_parallel as int) =~= out.deep_view() + chunks_of(
                    all.skip(start as int + take as int),
                    max_parallel as int,
                ));
            }
            start = start + take;
        }
        assert(all.skip(n as int) =~= Seq::<Seq<char>>::empty());
        assert(out.deep_view() =~= chunks_of(all, max_parallel as int));
        out
    }

    /// Advances the job carrying `job_id` by one event: the registry entry
    /// becomes `step` of its old value, every other entry is untouched, and
    /// the update to publish is returned. Events for ids the registry does
    /// not hold, or for jobs already in a terminal state, change nothing
    /// and emit nothing.
    pub fn apply_event(&mut self, job_id: &String, ev: JobEvent) -> (r: Option<ProgressUpdate>)
        requires
            old(self).wf(),
        ensures
            final(self).wf(),
            final(self).config == old(self).config,
            ({
                let s0 = old(self).jobs_view();
                if !has_job(s0, job_id@) {
                    &&& final(self).jobs_view() == s0
                    &&& r is None
                } else {
                    let i = job_index(s0, job_id@);
                    let j0 = s0[i];
                    if j0.status.is_terminal() {
                        &&& final(self).jobs_view() == s0
                        &&& r is None
                    } else {
                        &&& final(self).jobs_view() == s0.update(i, step(j0, ev@))
                        &&& (r matches Some(u) && u@ == update_of(step(j0, ev@), ev@))
                    }
                }
            }),
    {
        let ghost s0 = old(self).jobs_view();
        let i = match self.find_index(job_id) {
            Some(i) => i,
            None => {
                return None;
            },
        };
        match self.jobs[i].status {
            FileStatus::Completed => {
                return None;
            },
            FileStatus::Error => {
                return None;
            },
            _ => {},
        }
        let ghost j0 = s0[i as int];
        let engine_event = matches!(&ev, JobEvent::EngineProgress(_));
        let mut j2 = clone_job(&self.jobs[i]);
        match ev {
            JobEvent::ConversionStarted => {
                j2.status = FileStatus::Converting;
            },
            JobEvent::ConversionFailed(d) => {
                j2.status = FileStatus::Error;
                let mut m = String::from_str("Conversion failed: ");
                m.append(d.as_str());
                j2.error = Some(m);
            },
            JobEvent::ConversionSucceeded => {
                j2.status = FileStatus::Transcribing;
                j2.progress = 30;
            },
            JobEvent::ModelLoadFailed(d) => {
                j2.status = FileStatus::Error;
                let mut m = String::from_str("Failed to load model: ");
                m.append(d.as_str());
                j2.error = Some(m);
            },
            JobEvent::EngineProgress(p) => {
                j2.status = FileStatus::Transcribing;
                let mapped = 30 + ((p as u64) * 7) / 10;
                j2.progress = if mapped <= 99 {
                    mapped as u32
                } else {
                    99
                };
            },
            JobEvent::TranscriptionFailed(d) => {
                j2.status = FileStatus::Error;
                let mut m = String::from_str("Transcription failed: ");
                m.append(d.as_str());
                j2.error = Some(m);
            },
            JobEvent::OutputWritten(p) => {
                j2.status = FileStatus::Completed;
                j2.progress = 100;
                j2.output_path = Some(p);
            },
            JobEvent::OutputWriteFailed(d) => {
                j2.status = FileStatus::Error;
                let mut m = String::from_str("Failed to save output: ");
                m.append(d.as_str());
                j2.error = Some(m);
            },
            JobEvent::CancelRequested => {
                j2.status = FileStatus::Error;
                j2.error = Some(String::from_str("Cancelled by user"));
            },
        }
        assert(j2@ =~= step(j0, ev@));
        let message = if engine_event {
            Some(String::from_str("Transcribing..."))
        } else {
            clone_opt_string(&j2.error)
        };
        let upd = ProgressUpdate {
            file_id: j2.id.clone(),
            status: j2.status,
            progress: j2.progress,
            message,
        };
        assert(upd@ =~= update_of(step(j0, ev@), ev@));
        self.jobs[i] = j2;
        assert(self.jobs_view() =~= s0.update(i as int, step(j0, ev@)));
        Some(upd)
    }

    pub fn get_job_status(&self, job_id: &String) -> (r: Option<TranscriptionJob>)
        requires
            self.wf(),
        ensures
            match r {
                Some(j) => has_job(self.jobs_view(), job_id@) && j@ == self.jobs_view()[job_index(
                    self.jobs_view(),
                    job_id@,
                )],
                None => !has_job(self.jobs_view(), job_id@),
            },
    {
        match self.find_index(job_id) {
            Some(i) => Some(clone_job(&self.jobs[i])),
            None => None,
        }
    }

    pub fn get_all_jobs(&self) -> (r: Vec<TranscriptionJob>)
        ensures
            r.deep_view() == self.jobs_view(),
    {
        let mut out: Vec<TranscriptionJob> = Vec::new();
        let mut i: usize = 0;
        while i < self.jobs.len()
            invariant
                i <= self.jobs@.len(),
                out@.len() == i,
                forall|j: int| 0 <= j < i ==> out@[j] == self.jobs@[j],
            decreases self.jobs@.len() - i,
        {
            out.push(clone_job(&self.jobs[i]));
            i = i + 1;
        }
        proof {
            assert forall|j: int|
                0 <= j < out@.len() implies out.deep_view()[j] == self.jobs_view()[j] by {
                assert(out@[j] == self.jobs@[j]);
            }
            assert(out.deep_view() =~= self.jobs_view());
        }
        out
    }

    /// Cancels a job: the caller stops the job's background task first;
    /// here the registry entry of a live job is forced into `Error` with
    /// the fixed cancellation message, whatever live stage it was in
    /// (pending and not yet dispatched included), and the update to
    /// publish for that transition is handed back. Terminal jobs are
    /// beyond cancellation and keep their state, with no update emitted.
    pub fn cancel_job(&mut self, job_id: &String) -> (r: Result<Option<ProgressUpdate>, String>)
        requires
            old(self).wf(),
        ensures
            final(self).wf(),
            final(self).config == old(self).config,
            r is Ok,
            ({
                let s0 = old(self).jobs_view();
                if has_job(s0, job_id@) && !s0[job_index(s0, job_id@)].status.is_terminal() {
                    let i = job_index(s0, job_id@);
                    &&& final(self).jobs_view() == s0.update(
                        i,
                        JobView {
                            status: FileStatus::Error,
                            error: Some("Cancelled by user"@),
                            ..s0[i]
                        },
                    )
                    &&& final(self).jobs_view()[i].status == FileStatus::Error
                    &&& final(self).jobs_view()[i].error == Some("Cancelled by user"@)
                    &&& (r matches Ok(o) && o matches Some(u) && u@ == (UpdateView {
                        file_id: job_id@,
                        status: FileStatus::Error,
                        progress: s0[i].progress,
                        message: Some("Cancelled by user"@),
                    }))
                } else {
                    &&& final(self).jobs_view() == s0
                    &&& (r matches Ok(o) && o is None)
                }
            }),
    {
        let u = self.apply_event(job_id, JobEvent::CancelRequested);
        proof {
            let s0 = old(self).jobs_view();
            if has_job(s0, job_id@) && !s0[job_index(s0, job_id@)].status.is_terminal() {
                let i = job_index(s0, job_id@);
                assert(u matches Some(up) && up@ =~= (UpdateView {
                    file_id: job_id@,
                    status: FileStatus::Error,
                    progress: s0[i].progress,
                    message: Some("Cancelled by user"@),
                }));
            }
        }
        Ok(u)
    }

    /// Removes every completed job from the registry; failed (and
    /// cancelled) jobs stay for inspection, live jobs are untouched.
    pub fn clear_completed_jobs(&mut self)
        requires
            old(self).wf(),
        ensures
            final(self).wf(),
            final(self).config == old(self).config,
            final(self).jobs_view() == non_completed(old(self).jobs_view()),
    {
        let ghost s0 = old(self).jobs_view();
        let mut kept: Vec<TranscriptionJob> = Vec::new();
        let mut i: usize = 0;
        while i < self.jobs.len()
            invariant
                i <= self.jobs_view().len(),
                self.jobs_view() == s0,
                self.wf(),
                kept.deep_view() == non_completed(s0.subrange(0, i as int)),
            decreases self.jobs_view().len() - i,
        {
            assert(s0.subrange(0, i as int + 1).drop_last() =~= s0.subrange(0, i as int));
            let completed = matches!(self.jobs[i].status, FileStatus::Completed);
            if !completed {
                kept.push(clone_job(&self.jobs[i]));
            }
            assert(kept.deep_view() =~= non_completed(s0.subrange(0, i as int + 1)));
            i = i + 1;
        }
        assert(s0.subrange(0, s0.len() as int) =~= s0);
        self.jobs = kept;
        proof {
            lemma_non_completed_wf(s0);
            assert(self.jobs_view() =~= non_completed(s0));
        }
    }
}

/// The candidates ingestion keeps, in order.
pub open spec fn ingest_kept(cands: Seq<IngestCandidate>) -> Seq<IngestCandidate>
    decreases cands.len(),
{
    if cands.len() == 0 {
        Seq::empty()
    } else {
        ingest_kept(cands.drop_last()) + if is_media_path(cands.last().path@) {
            seq![cands.last()]
        } else {
            Seq::empty()
        }
    }
}

} // verus!
