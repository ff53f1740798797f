//! The decisions of the desktop front end: its table of analysis jobs, how
//! stored runs and recorded builds are listed, and how its query strings are
//! read.  Windows, threads and the two databases are the caller's.
use vstd::prelude::*;

use chrono::TimeZone;

use crate::text::opt_text;
use crate::dto::{
    ChangedFilesSummaryDto, DeltaEntryDto, DesktopSettingsDto, GitRefDto, MetricSummaryDto, FirstRuleViolationSummaryDto, HistoryItemDto,
    HistoryQueryDto, JobStatusDto, RegressionOriginPointDto, RegressionWindowRowDto, RunSummaryDto,
    TimelineEntryDto, WorstCommitSummaryDto,
};
use crate::calendar::{days_from_civil, is_date, two_digits};
use crate::metadata::Metadata;
use crate::model::{RustContext, SourceLinesMode, ToolchainInfo};
use crate::run::{config_fingerprint, config_fingerprint_text, toolchain_id_text};
use crate::git::{parse_tag_lines, tag_lines, CommitOrder};
use crate::history::{
    BuildRecord, ChangeEntry, ChangedFilesSummary, CommitTimelineRow, FirstRuleViolationSummary,
    RegressionConfidence, RegressionDetector, RegressionMode, RegressionOriginPoint, RegressionWindowRow,
    WorstCommitSummary,
};
use crate::text::{
    chars_of, copy_chars, copy_opt_string, copy_string, dec_int, push_dec_int, push_str_chars, str_eq, str_is_blank, string_from,
    string_of, trim,
};

verus! {

// ---------------------------------------------------------------------------
// Jobs
// ---------------------------------------------------------------------------
/// An analysis job started from the desktop.
#[derive(Debug, Clone, PartialEq, Eq)]
pub struct JobRecord {
    pub job_id: String,
    pub status: String,
    pub created_at: String,
    pub updated_at: String,
    pub label: Option<String>,
    pub progress_message: String,
    pub error_message: Option<String>,
    pub run_id: Option<i64>,
}

/// The status of a job as the front end shows it.
pub fn into_job_status_dto(job: JobRecord) -> (d: JobStatusDto)
    ensures
        d.job_id == job.job_id,
        d.status == job.status,
        d.created_at == job.created_at,
        d.updated_at == job.updated_at,
        d.label == job.label,
        d.progress_message == job.progress_message,
        d.error_message == job.error_message,
        d.run_id == job.run_id,
{
    JobStatusDto {
        job_id: job.job_id,
        status: job.status,
        created_at: job.created_at,
        updated_at: job.updated_at,
        label: job.label,
        progress_message: job.progress_message,
        error_message: job.error_message,
        run_id: job.run_id,
    }
}

/// The jobs of a list, keyed by their ids (a later job wins).
pub open spec fn job_map(s: Seq<JobRecord>) -> Map<Seq<char>, JobRecord>
    decreases s.len(),
{
    if s.len() == 0 {
        Map::empty()
    } else {
        job_map(s.drop_last()).insert(s.last().job_id@, s.last())
    }
}

/// Job ids occur once.
pub open spec fn distinct_ids(s: Seq<JobRecord>) -> bool {
    forall|i: int, j: int| 0 <= i < j < s.len() ==> s[i].job_id@ != s[j].job_id@
}

proof fn lemma_job_map_index(s: Seq<JobRecord>, i: int)
    requires
        distinct_ids(s),
        0 <= i < s.len(),
    ensures
        job_map(s).contains_key(s[i].job_id@),
        job_map(s)[s[i].job_id@] == s[i],
    decreases s.len(),
{
    if i < s.len() - 1 {
        lemma_job_map_index(s.drop_last(), i);
        assert(s[i].job_id@ != s.last().job_id@);
    }
}

proof fn lemma_job_map_absent(s: Seq<JobRecord>, k: Seq<char>)
    requires
        forall|i: int| 0 <= i < s.len() ==> (#[trigger] s[i]).job_id@ != k,
    ensures
        !job_map(s).contains_key(k),
    decreases s.len(),
{
    if s.len() > 0 {
        lemma_job_map_absent(s.drop_last(), k);
        assert(s.last() == s[s.len() - 1]);
    }
}

proof fn lemma_job_map_update(s: Seq<JobRecord>, i: int, v: JobRecord)
    requires
        distinct_ids(s),
        0 <= i < s.len(),
        v.job_id@ == s[i].job_id@,
    ensures
        job_map(s.update(i, v)) == job_map(s).insert(v.job_id@, v),
    decreases s.len(),
{
    let u = s.update(i, v);
    if i == s.len() - 1 {
        assert(u.drop_last() =~= s.drop_last());
        assert(job_map(s.drop_last()).insert(v.job_id@, v) =~= job_map(s).insert(v.job_id@, v));
    } else {
        lemma_job_map_update(s.drop_last(), i, v);
        assert(u.drop_last() =~= s.drop_last().update(i, v));
        assert(s[i].job_id@ != s.last().job_id@);
        assert(job_map(u) =~= job_map(s).insert(v.job_id@, v));
    }
}

/// The jobs the desktop has started, by id.
#[derive(Debug, Clone)]
pub struct DesktopState {
    jobs: Vec<JobRecord>,
}

impl View for DesktopState {
    type V = Map<Seq<char>, JobRecord>;

    closed spec fn view(&self) -> Map<Seq<char>, JobRecord> {
        job_map(self.jobs@)
    }
}

/// The text of the message a cancelled job shows.
pub open spec fn cancel_message() -> Seq<char> {
    "Cancellation is not implemented in Phase D2"@
}

impl DesktopState {
    /// Each id occurs once.
    pub closed spec fn wf(&self) -> bool {
        distinct_ids(self.jobs@)
    }

    /// No jobs.
    pub fn new() -> (s: DesktopState)
        ensures
            s.wf(),
            s@ == Map::<Seq<char>, JobRecord>::empty(),
    {
        DesktopState { jobs: Vec::new() }
    }

    fn position(&self, job_id: &str) -> (r: Option<usize>)
        requires
            self.wf(),
        ensures
            match r {
                Some(i) => i < self.jobs@.len() && self.jobs@[i as int].job_id@ == job_id@,
                None => !self@.contains_key(job_id@),
            },
    {
        let mut i: usize = 0;
        while i < self.jobs.len()
            invariant
                i <= self.jobs.len(),
                forall|j: int| 0 <= j < i ==> (#[trigger] self.jobs@[j]).job_id@ != job_id@,
            decreases self.jobs.len() - i,
        {
            if str_eq(self.jobs[i].job_id.as_str(), job_id) {
                return Some(i);
            }
            i += 1;
        }
        proof {
            lemma_job_map_absent(self.jobs@, job_id@);
        }
        None
    }

    /// Adds a job under its id, replacing a job with the same id.
    pub fn insert_job(&mut self, job: JobRecord)
        requires
            old(self).wf(),
        ensures
            final(self).wf(),
            final(self)@ == old(self)@.insert(job.job_id@, job),
    {
        match self.position(job.job_id.as_str()) {
            Some(i) => {
                let ghost s = self.jobs@;
                proof {
                    lemma_job_map_update(s, i as int, job);
                }
                self.jobs.set(i, job);
                assert(self.jobs@ == s.update(i as int, job));
                assert forall|a: int, b: int| 0 <= a < b < self.jobs@.len() implies self.jobs@[a].job_id@
                    != self.jobs@[b].job_id@ by {
                    assert(self.jobs@[a].job_id@ == s[a].job_id@);
                    assert(self.jobs@[b].job_id@ == s[b].job_id@);
                }
            },
            None => {
                let ghost s = self.jobs@;
                proof {
                    if exists|k: int| 0 <= k < s.len() && s[k].job_id@ == job.job_id@ {
                        let k = choose|k: int| 0 <= k < s.len() && s[k].job_id@ == job.job_id@;
                        lemma_job_map_index(s, k);
                    }
                }
                self.jobs.push(job);
                assert(self.jobs@.drop_last() =~= s);
                assert forall|a: int, b: int| 0 <= a < b < self.jobs@.len() implies self.jobs@[a].job_id@
                    != self.jobs@[b].job_id@ by {
                    if b == s.len() {
                        assert(self.jobs@[a] == s[a]);
                    }
                }
            },
        }
    }

    /// The status of a job, if there is one with that id.
    pub fn get_job_status(&self, job_id: &str) -> (r: Option<JobStatusDto>)
        requires
            self.wf(),
        ensures
            match r {
                Some(d) => self@.contains_key(job_id@) && d.job_id == self@[job_id@].job_id
                    && d.status == self@[job_id@].status && d.created_at == self@[job_id@].created_at
                    && d.updated_at == self@[job_id@].updated_at && d.label == self@[job_id@].label
                    && d.progress_message == self@[job_id@].progress_message
                    && d.error_message == self@[job_id@].error_message && d.run_id == self@[job_id@].run_id,
                None => !self@.contains_key(job_id@),
            },
    {
        match self.position(job_id) {
            Some(i) => {
                proof {
                    lemma_job_map_index(self.jobs@, i as int);
                }
                let j = &self.jobs[i];
                Some(
                    JobStatusDto {
                        job_id: j.job_id.clone(),
                        status: j.status.clone(),
                        created_at: j.created_at.clone(),
                        updated_at: j.updated_at.clone(),
                        label: copy_opt_string(&j.label),
                        progress_message: j.progress_message.clone(),
                        error_message: copy_opt_string(&j.error_message),
                        run_id: j.run_id,
                    },
                )
            },
            None => None,
        }
    }

    /// Marks a job as asked to stop (stopping itself is not offered) and
    /// returns its new status; `None` when there is no job with that id.
    pub fn cancel_job(&mut self, job_id: &str, now: String) -> (r: Option<JobStatusDto>)
        requires
            old(self).wf(),
        ensures
            final(self).wf(),
            match r {
                Some(d) => old(self)@.contains_key(job_id@) && {
                    let j = old(self)@[job_id@];
                    let n = final(self)@[job_id@];
                    &&& final(self)@ == old(self)@.insert(job_id@, n)
                    &&& n.job_id == j.job_id && n.created_at == j.created_at && n.label == j.label
                    &&& n.error_message == j.error_message && n.run_id == j.run_id
                    &&& n.status@ == "cancel-requested"@
                    &&& n.updated_at == now
                    &&& n.progress_message@ == cancel_message()
                    &&& d.job_id == n.job_id && d.status == n.status && d.created_at == n.created_at
                    &&& d.updated_at == n.updated_at && d.label == n.label
                    &&& d.progress_message == n.progress_message && d.error_message == n.error_message
                    &&& d.run_id == n.run_id
                },
                None => !old(self)@.contains_key(job_id@) && final(self)@ == old(self)@,
            },
    {
        match self.position(job_id) {
            Some(i) => {
                proof {
                    lemma_job_map_index(self.jobs@, i as int);
                }
                let j = &self.jobs[i];
                let updated = JobRecord {
                    job_id: j.job_id.clone(),
                    status: string_from("cancel-requested"),
                    created_at: j.created_at.clone(),
                    updated_at: now,
                    label: copy_opt_string(&j.label),
                    progress_message: string_from("Cancellation is not implemented in Phase D2"),
                    error_message: copy_opt_string(&j.error_message),
                    run_id: j.run_id,
                };
                let ghost before = self@;
                let d = JobStatusDto {
                    job_id: updated.job_id.clone(),
                    status: updated.status.clone(),
                    created_at: updated.created_at.clone(),
                    updated_at: updated.updated_at.clone(),
                    label: copy_opt_string(&updated.label),
                    progress_message: updated.progress_message.clone(),
                    error_message: copy_opt_string(&updated.error_message),
                    run_id: updated.run_id,
                };
                self.insert_job(updated);
                assert(self@ == before.insert(job_id@, updated));
                Some(d)
            },
            None => None,
        }
    }

    /// Sets the status and progress message of a job; an error message or a
    /// run id replaces the stored one only when given.  Fails with
    /// `unknown job id '<id>'` when there is no such job.
    pub fn update_job(
        &mut self,
        job_id: &str,
        status: &str,
        message: &str,
        error_message: Option<String>,
        run_id: Option<i64>,
        now: String,
    ) -> (r: Result<(), String>)
        requires
            old(self).wf(),
        ensures
            final(self).wf(),
            match r {
                Ok(()) => old(self)@.contains_key(job_id@) && {
                    let j = old(self)@[job_id@];
                    let n = final(self)@[job_id@];
                    &&& final(self)@ == old(self)@.insert(job_id@, n)
                    &&& n.job_id == j.job_id && n.created_at == j.created_at && n.label == j.label
                    &&& n.status@ == status@ && n.progress_message@ == message@ && n.updated_at == now
                    &&& n.error_message == (if error_message is Some { error_message } else { j.error_message })
                    &&& n.run_id == (if run_id is Some { run_id } else { j.run_id })
                },
                Err(e) => !old(self)@.contains_key(job_id@) && final(self)@ == old(self)@
                    && e@ == "unknown job id '"@ + job_id@ + "'"@,
            },
    {
        match self.position(job_id) {
            Some(i) => {
                proof {
                    lemma_job_map_index(self.jobs@, i as int);
                }
                let j = &self.jobs[i];
                let updated = JobRecord {
                    job_id: j.job_id.clone(),
                    status: string_from(status),
                    created_at: j.created_at.clone(),
                    updated_at: now,
                    label: copy_opt_string(&j.label),
                    progress_message: string_from(message),
                    error_message: match error_message {
                        Some(e) => Some(e),
                        None => copy_opt_string(&j.error_message),
                    },
                    run_id: match run_id {
                        Some(r) => Some(r),
                        None => j.run_id,
                    },
                };
                self.insert_job(updated);
                Ok(())
            },
            None => {
                let mut v: Vec<char> = Vec::new();
                push_str_chars(&mut v, "unknown job id '");
                push_str_chars(&mut v, job_id);
                push_str_chars(&mut v, "'");
                Err(string_of(&v))
            },
        }
    }

    /// Queues a new job under `job_id` (a fresh random id drawn by the caller)
    /// and returns its status.  A job already stored under that id is replaced.
    pub fn start_job(&mut self, job_id: String, label: Option<String>, now: String) -> (d: JobStatusDto)
        requires
            old(self).wf(),
        ensures
            final(self).wf(),
            d.job_id == job_id,
            final(self)@ == old(self)@.insert(job_id@, final(self)@[job_id@]),
            final(self)@[d.job_id@].job_id == d.job_id,
            d.status@ == "queued"@,
            d.progress_message@ == "Queued"@,
            d.created_at == now && d.updated_at == now,
            d.label == label,
            d.error_message is None && d.run_id is None,
            final(self)@[d.job_id@].status == d.status,
            final(self)@[d.job_id@].created_at == d.created_at,
            final(self)@[d.job_id@].updated_at == d.updated_at,
            final(self)@[d.job_id@].label == d.label,
            final(self)@[d.job_id@].progress_message == d.progress_message,
            final(self)@[d.job_id@].error_message is None,
            final(self)@[d.job_id@].run_id is None,
    {
        let job = JobRecord {
            job_id: job_id,
            status: string_from("queued"),
            created_at: copy_string(&now),
            updated_at: now,
            label,
            progress_message: string_from("Queued"),
            error_message: None,
            run_id: None,
        };
        let d = JobStatusDto {
            job_id: job.job_id.clone(),
            status: job.status.clone(),
            created_at: job.created_at.clone(),
            updated_at: job.updated_at.clone(),
            label: copy_opt_string(&job.label),
            progress_message: job.progress_message.clone(),
            error_message: None,
            run_id: None,
        };
        self.insert_job(job);
        d
    }
}

// ---------------------------------------------------------------------------
// Runs and recorded builds
// ---------------------------------------------------------------------------
/// A run as stored in the desktop database.
#[derive(Debug, Clone, PartialEq, Eq)]
pub struct StoredRunRecord {
    pub run_id: i64,
    pub project_id: Option<i64>,
    pub build_id: i64,
    pub created_at: String,
    pub label: Option<String>,
    pub status: String,
    pub git_revision: Option<String>,
    pub profile: Option<String>,
    pub target: Option<String>,
    pub rom_bytes: u64,
    pub ram_bytes: u64,
    pub warning_count: u64,
    pub history_db_path: String,
    pub report_html_path: Option<String>,
    pub report_json_path: Option<String>,
}

/// The summary of a stored run.
pub fn stored_run_summary(stored: &StoredRunRecord) -> (s: RunSummaryDto)
    ensures
        s.run_id == stored.run_id,
        s.build_id == stored.build_id,
        s.created_at == stored.created_at,
        s.label == stored.label,
        s.status == stored.status,
        s.git_revision == stored.git_revision,
        s.profile == stored.profile,
        s.target == stored.target,
        s.rom_bytes == stored.rom_bytes,
        s.ram_bytes == stored.ram_bytes,
        s.warning_count == stored.warning_count,
{
    RunSummaryDto {
        run_id: stored.run_id,
        build_id: stored.build_id,
        created_at: stored.created_at.clone(),
        label: copy_opt_string(&stored.label),
        status: stored.status.clone(),
        git_revision: copy_opt_string(&stored.git_revision),
        profile: copy_opt_string(&stored.profile),
        target: copy_opt_string(&stored.target),
        rom_bytes: stored.rom_bytes,
        ram_bytes: stored.ram_bytes,
        warning_count: stored.warning_count,
    }
}

/// The RFC 3339 text (`YYYY-MM-DDTHH:MM:SS+00:00`) of a Unix time in UTC,
/// or `None` for a time out of the calendar's range.
pub uninterp spec fn utc_rfc3339(secs: int) -> Option<Seq<char>>;

/// The RFC 3339 text of a UTC time on the date `y-m-d` (a year from 0 to
/// 9999): the date, `T`, the time of day of `secs` as two-digit hours,
/// minutes and seconds, and the offset `+00:00`.
pub open spec fn utc_rfc3339_text(secs: int, y: int, m: int, d: int) -> Seq<char> {
    let t = secs % 86400;
    two_digits((y / 100) as nat) + two_digits((y % 100) as nat) + seq!['-'] + two_digits(m as nat) + seq!['-']
        + two_digits(d as nat) + seq!['T'] + two_digits((t / 3600) as nat) + seq![':'] + two_digits(
        ((t % 3600) / 60) as nat,
    ) + seq![':'] + two_digits((t % 60) as nat) + "+00:00"@
}

/// The Unix time falls on a day from 0000-01-01 up to 9999-12-31.
pub open spec fn in_four_digit_years(secs: int) -> bool {
    -62_167_219_200 <= secs < 253_402_300_800
}

/// `chrono::Utc.timestamp_opt(secs, 0)` followed by `to_rfc3339`: the RFC 3339
/// text of a Unix time in UTC, `None` when the time is out of chrono's range.
/// From the year 0 through the year 9999 the text is the date of the day number
/// `secs / 86400`, the time of day and `+00:00` (chrono's `write_rfc3339`
/// with whole seconds and a zero offset).
#[verifier::external_body]
fn rfc3339_of_unix(secs: i64) -> (r: Option<String>)
    ensures
        match r {
            Some(s) => utc_rfc3339(secs as int) == Some(s@) && (in_four_digit_years(secs as int) ==> exists|
                y: int,
                m: int,
                d: int,
            |
                #![trigger days_from_civil(y, m, d)]
                is_date(y, m, d) && days_from_civil(y, m, d) == secs / 86400 && s@ == utc_rfc3339_text(
                    secs as int,
                    y,
                    m,
                    d,
                )),
            None => utc_rfc3339(secs as int) is None && !in_four_digit_years(secs as int),
        },
{
    match chrono::Utc.timestamp_opt(secs, 0).single() {
        Some(dt) => Some(dt.to_rfc3339()),
        None => None,
    }
}

/// The text shown for a Unix time: its RFC 3339 form when there is one, else
/// the number itself.
pub fn timestamp_text(formatted: Option<String>, secs: i64) -> (out: String)
    ensures
        out@ == match formatted {
            Some(s) => s@,
            None => dec_int(secs as int),
        },
{
    match formatted {
        Some(s) => s,
        None => {
            let mut v: Vec<char> = Vec::new();
            push_dec_int(&mut v, secs);
            string_of(&v)
        },
    }
}

/// The text shown for a Unix time: RFC 3339 in UTC, or the number when the
/// time is out of range.
pub fn unix_to_rfc3339(secs: i64) -> (out: String)
    ensures
        out@ == match utc_rfc3339(secs as int) {
            Some(s) => s,
            None => dec_int(secs as int),
        },
        in_four_digit_years(secs as int) ==> exists|y: int, m: int, d: int|
            #![trigger days_from_civil(y, m, d)]
            is_date(y, m, d) && days_from_civil(y, m, d) == secs / 86400 && out@ == utc_rfc3339_text(
                secs as int,
                y,
                m,
                d,
            ),
{
    timestamp_text(rfc3339_of_unix(secs), secs)
}

/// The value of a metadata key, as an optional text.
pub open spec fn meta_value(b: BuildRecord, key: Seq<char>) -> Option<Seq<char>> {
    if b.metadata@.contains_key(key) {
        Some(b.metadata@[key])
    } else {
        None
    }
}

fn meta_get(b: &BuildRecord, key: &str) -> (r: Option<String>)
    requires
        b.metadata.wf(),
    ensures
        opt_text(r) == meta_value(*b, key@),
{
    match b.metadata.get(key) {
        Some(v) => Some(v.clone()),
        None => None,
    }
}

/// A recorded build as the history list shows it.
pub fn map_build_to_history_item(build: BuildRecord) -> (h: HistoryItemDto)
    requires
        build.metadata.wf(),
    ensures
        h.build_id == build.id,
        h.created_at@ == match utc_rfc3339(build.created_at as int) {
            Some(s) => s,
            None => dec_int(build.created_at as int),
        },
        h.elf_path == build.elf_path,
        h.arch == build.arch,
        h.linker_family == build.linker_family,
        h.map_format == build.map_format,
        h.rom_bytes == build.rom_bytes,
        h.ram_bytes == build.ram_bytes,
        h.warning_count == build.warning_count,
        h.error_count == build.error_count,
        opt_text(h.git_revision) == match build.git {
            Some(g) => Some(g.short_commit_hash@),
            None => None,
        },
        h.git_branch == match build.git {
            Some(g) => g.branch_name,
            None => None,
        },
        h.git_subject == match build.git {
            Some(g) => g.commit_subject,
            None => None,
        },
        h.git_describe == match build.git {
            Some(g) => g.describe,
            None => None,
        },
        opt_text(h.profile) == meta_value(build, "build.profile"@),
        opt_text(h.target) == meta_value(build, "target.id"@),
        opt_text(h.toolchain_id) == meta_value(build, "toolchain.id"@),
        opt_text(h.label) == meta_value(build, "desktop.label"@),
{
    let profile = meta_get(&build, "build.profile");
    let target = meta_get(&build, "target.id");
    let toolchain_id = meta_get(&build, "toolchain.id");
    let label = meta_get(&build, "desktop.label");
    let (git_revision, git_branch, git_subject, git_describe) = match &build.git {
        Some(g) => (
            Some(g.short_commit_hash.clone()),
            copy_opt_string(&g.branch_name),
            copy_opt_string(&g.commit_subject),
            copy_opt_string(&g.describe),
        ),
        None => (None, None, None, None),
    };
    HistoryItemDto {
        build_id: build.id,
        created_at: unix_to_rfc3339(build.created_at),
        elf_path: build.elf_path,
        arch: build.arch,
        linker_family: build.linker_family,
        map_format: build.map_format,
        rom_bytes: build.rom_bytes,
        ram_bytes: build.ram_bytes,
        warning_count: build.warning_count,
        error_count: build.error_count,
        git_revision,
        git_branch,
        git_subject,
        git_describe,
        profile,
        target,
        toolchain_id,
        label,
    }
}

/// Whether a recorded build passes the filters of a history query: each
/// filter that is given must equal the build's branch, profile, toolchain,
/// target or repository root.
pub open spec fn passes_history_filters(b: BuildRecord, q: HistoryQueryDto) -> bool {
    &&& (q.branch matches Some(br) ==> (b.git matches Some(g) && g.branch_name matches Some(n) && n@ == br@))
    &&& (q.profile matches Some(p) ==> meta_value(b, "build.profile"@) == Some(p@))
    &&& (q.toolchain matches Some(t) ==> meta_value(b, "toolchain.id"@) == Some(t@))
    &&& (q.target matches Some(t) ==> meta_value(b, "target.id"@) == Some(t@))
    &&& (q.repo_path matches Some(r) ==> (b.git matches Some(g) && g.repo_root@ == r@))
}

fn meta_is(b: &BuildRecord, key: &str, want: &str) -> (r: bool)
    requires
        b.metadata.wf(),
    ensures
        r == (meta_value(*b, key@) == Some(want@)),
{
    match b.metadata.get(key) {
        Some(v) => str_eq(v.as_str(), want),
        None => false,
    }
}

/// Whether a recorded build passes the filters of a history query.
pub fn matches_history_filters(build: &BuildRecord, query: &HistoryQueryDto) -> (r: bool)
    requires
        build.metadata.wf(),
    ensures
        r == passes_history_filters(*build, *query),
{
    if let Some(branch) = &query.branch {
        let ok = match &build.git {
            Some(g) => match &g.branch_name {
                Some(n) => str_eq(n.as_str(), branch.as_str()),
                None => false,
            },
            None => false,
        };
        if !ok {
            return false;
        }
    }
    if let Some(profile) = &query.profile {
        if !meta_is(build, "build.profile", profile.as_str()) {
            return false;
        }
    }
    if let Some(toolchain) = &query.toolchain {
        if !meta_is(build, "toolchain.id", toolchain.as_str()) {
            return false;
        }
    }
    if let Some(target) = &query.target {
        if !meta_is(build, "target.id", target.as_str()) {
            return false;
        }
    }
    if let Some(repo_path) = &query.repo_path {
        let ok = match &build.git {
            Some(g) => str_eq(g.repo_root.as_str(), repo_path.as_str()),
            None => false,
        };
        if !ok {
            return false;
        }
    }
    true
}

/// The repository to query: the given path unless it is missing or blank,
/// else the default of the settings.
pub fn resolve_repo_path(repo_path: Option<&str>, settings: &DesktopSettingsDto) -> (r: Option<String>)
    ensures
        opt_text(r) == match repo_path {
            Some(p) if trim(p@).len() != 0 => Some(p@),
            _ => opt_text(settings.default_git_repo_path),
        },
{
    match repo_path {
        Some(p) => {
            if !str_is_blank(p) {
                return Some(string_from(p));
            }
        },
        None => {},
    }
    copy_opt_string(&settings.default_git_repo_path)
}

/// The differences of the headline numbers of two stored runs (right minus left).
pub fn run_metric_summary(left: &StoredRunRecord, right: &StoredRunRecord) -> (m: MetricSummaryDto)
    requires
        left.rom_bytes <= i64::MAX && right.rom_bytes <= i64::MAX,
        left.ram_bytes <= i64::MAX && right.ram_bytes <= i64::MAX,
        left.warning_count <= i64::MAX && right.warning_count <= i64::MAX,
    ensures
        m.rom_delta == right.rom_bytes - left.rom_bytes,
        m.ram_delta == right.ram_bytes - left.ram_bytes,
        m.warning_delta == right.warning_count - left.warning_count,
{
    MetricSummaryDto {
        rom_delta: right.rom_bytes as i64 - left.rom_bytes as i64,
        ram_delta: right.ram_bytes as i64 - left.ram_bytes as i64,
        warning_delta: right.warning_count as i64 - left.warning_count as i64,
    }
}

/// The branches or tags listed by `git for-each-ref --format=%(refname:short)`,
/// one per line, trimmed, blank lines dropped, each of the given kind.
pub fn git_refs_from_output(stdout: &str, kind: &str) -> (out: Vec<GitRefDto>)
    ensures
        out@.len() == tag_lines(stdout@).len(),
        forall|i: int| 0 <= i < out@.len() ==> (#[trigger] out@[i]).name@ == tag_lines(stdout@)[i]
            && out@[i].kind@ == kind@,
{
    let names = parse_tag_lines(stdout);
    let mut out: Vec<GitRefDto> = Vec::new();
    let mut i: usize = 0;
    while i < names.len()
        invariant
            0 <= i <= names.len(),
            names@.len() == tag_lines(stdout@).len(),
            forall|k: int| 0 <= k < names@.len() ==> #[trigger] names@[k]@ == tag_lines(stdout@)[k],
            out@.len() == i,
            forall|k: int| 0 <= k < i ==> (#[trigger] out@[k]).name@ == tag_lines(stdout@)[k] && out@[k].kind@ == kind@,
        decreases names.len() - i,
    {
        out.push(GitRefDto { name: names[i].clone(), kind: string_from(kind) });
        i += 1;
    }
    out
}

// ---------------------------------------------------------------------------
// Query strings
// ---------------------------------------------------------------------------
/// Reads the commit order of a query; none means `ancestry`.
pub fn parse_commit_order(value: Option<&str>) -> (r: Result<CommitOrder, String>)
    ensures
        ({
            let v = match value {
                Some(s) => s@,
                None => "ancestry"@,
            };
            if v == "ancestry"@ {
                r == Ok::<CommitOrder, String>(CommitOrder::Ancestry)
            } else if v == "timestamp"@ {
                r == Ok::<CommitOrder, String>(CommitOrder::Timestamp)
            } else {
                r is Err && r->Err_0@ == "unsupported commit order '"@ + v
                    + "', expected ancestry or timestamp"@
            }
        }),
{
    let v: &str = match value {
        Some(s) => s,
        None => "ancestry",
    };
    if str_eq(v, "ancestry") {
        Ok(CommitOrder::Ancestry)
    } else if str_eq(v, "timestamp") {
        Ok(CommitOrder::Timestamp)
    } else {
        let mut out: Vec<char> = Vec::new();
        push_str_chars(&mut out, "unsupported commit order '");
        push_str_chars(&mut out, v);
        push_str_chars(&mut out, "', expected ancestry or timestamp");
        Err(string_of(&out))
    }
}

/// The name of a regression detector.
pub open spec fn detector_text(d: RegressionDetector) -> Seq<char> {
    match d {
        RegressionDetector::Metric => "metric"@,
        RegressionDetector::Rule => "rule"@,
        RegressionDetector::Entity => "entity"@,
    }
}

/// The name of a regression mode.
pub open spec fn mode_text(m: RegressionMode) -> Seq<char> {
    match m {
        RegressionMode::FirstCrossing => "first-crossing"@,
        RegressionMode::FirstJump => "first-jump"@,
        RegressionMode::FirstPresence => "first-presence"@,
        RegressionMode::FirstViolation => "first-violation"@,
    }
}

/// The name of a regression confidence.
pub open spec fn confidence_text(c: RegressionConfidence) -> Seq<char> {
    match c {
        RegressionConfidence::High => "high"@,
        RegressionConfidence::Medium => "medium"@,
        RegressionConfidence::Low => "low"@,
        RegressionConfidence::Unknown => "unknown"@,
    }
}

/// Reads a regression detector by its name.
pub fn parse_regression_detector(value: &str) -> (r: Result<RegressionDetector, String>)
    ensures
        match r {
            Ok(d) => detector_text(d) == value@,
            Err(e) => (forall|d: RegressionDetector| detector_text(d) != value@)
                && e@ == "unsupported regression detector '"@ + value@ + "'"@,
        },
{
    if str_eq(value, "metric") {
        Ok(RegressionDetector::Metric)
    } else if str_eq(value, "rule") {
        Ok(RegressionDetector::Rule)
    } else if str_eq(value, "entity") {
        Ok(RegressionDetector::Entity)
    } else {
        let mut out: Vec<char> = Vec::new();
        push_str_chars(&mut out, "unsupported regression detector '");
        push_str_chars(&mut out, value);
        push_str_chars(&mut out, "'");
        Err(string_of(&out))
    }
}

/// Reads a regression mode by its name.
pub fn parse_regression_mode(value: &str) -> (r: Result<RegressionMode, String>)
    ensures
        match r {
            Ok(m) => mode_text(m) == value@,
            Err(e) => (forall|m: RegressionMode| mode_text(m) != value@)
                && e@ == "unsupported regression mode '"@ + value@ + "'"@,
        },
{
    if str_eq(value, "first-crossing") {
        Ok(RegressionMode::FirstCrossing)
    } else if str_eq(value, "first-jump") {
        Ok(RegressionMode::FirstJump)
    } else if str_eq(value, "first-presence") {
        Ok(RegressionMode::FirstPresence)
    } else if str_eq(value, "first-violation") {
        Ok(RegressionMode::FirstViolation)
    } else {
        let mut out: Vec<char> = Vec::new();
        push_str_chars(&mut out, "unsupported regression mode '");
        push_str_chars(&mut out, value);
        push_str_chars(&mut out, "'");
        Err(string_of(&out))
    }
}

/// The name of a regression detector.
pub fn detector_name(value: RegressionDetector) -> (s: String)
    ensures
        s@ == detector_text(value),
{
    match value {
        RegressionDetector::Metric => string_from("metric"),
        RegressionDetector::Rule => string_from("rule"),
        RegressionDetector::Entity => string_from("entity"),
    }
}

/// The name of a regression mode.
pub fn regression_mode_name(value: RegressionMode) -> (s: String)
    ensures
        s@ == mode_text(value),
{
    match value {
        RegressionMode::FirstCrossing => string_from("first-crossing"),
        RegressionMode::FirstJump => string_from("first-jump"),
        RegressionMode::FirstPresence => string_from("first-presence"),
        RegressionMode::FirstViolation => string_from("first-violation"),
    }
}

/// The name of a regression confidence.
pub fn regression_confidence_name(value: RegressionConfidence) -> (s: String)
    ensures
        s@ == confidence_text(value),
{
    match value {
        RegressionConfidence::High => string_from("high"),
        RegressionConfidence::Medium => string_from("medium"),
        RegressionConfidence::Low => string_from("low"),
        RegressionConfidence::Unknown => string_from("unknown"),
    }
}

// ---------------------------------------------------------------------------
// History results as the front end shows them
// ---------------------------------------------------------------------------
/// Named changes as delta entries, in the same order.
pub fn map_change_entries(items: Vec<ChangeEntry>) -> (out: Vec<DeltaEntryDto>)
    ensures
        out@.len() == items@.len(),
        forall|i: int| 0 <= i < items@.len() ==> (#[trigger] out@[i]).name == items@[i].name
            && out@[i].delta == items@[i].delta,
{
    let mut out: Vec<DeltaEntryDto> = Vec::new();
    let mut i: usize = 0;
    while i < items.len()
        invariant
            0 <= i <= items.len(),
            out@.len() == i,
            forall|k: int| 0 <= k < i ==> (#[trigger] out@[k]).name == items@[k].name && out@[k].delta
                == items@[k].delta,
        decreases items.len() - i,
    {
        out.push(DeltaEntryDto { name: items[i].name.clone(), delta: items[i].delta });
        i += 1;
    }
    out
}

/// Two lists of named changes hold the same entries.
pub open spec fn same_entries(out: Seq<DeltaEntryDto>, items: Seq<ChangeEntry>) -> bool {
    out.len() == items.len() && forall|i: int| 0 <= i < items.len() ==> (#[trigger] out[i]).name == items[i].name
        && out[i].delta == items[i].delta
}

/// A timeline row as the front end shows it.
pub fn map_timeline_row(row: CommitTimelineRow) -> (e: TimelineEntryDto)
    ensures
        e.commit == row.commit,
        e.short_commit == row.short_commit,
        e.commit_time == row.commit_time,
        e.author_name == row.author_name,
        e.subject == row.subject,
        e.branch_names == row.branch_names,
        e.tag_names == row.tag_names,
        e.describe == row.describe,
        e.build_profile == row.build_profile,
        e.toolchain_id == row.toolchain_id,
        e.target_id == row.target_id,
        e.rom_total == row.rom_total,
        e.ram_total == row.ram_total,
        e.rom_delta_vs_previous == row.rom_delta_vs_previous,
        e.ram_delta_vs_previous == row.ram_delta_vs_previous,
        e.rule_violations_count == row.rule_violations_count,
        same_entries(e.top_sections@, row.top_increases.sections@),
        same_entries(e.top_objects@, row.top_increases.objects@),
        same_entries(e.top_source_files@, row.top_increases.source_files@),
        same_entries(e.top_symbols@, row.top_increases.symbols@),
{
    TimelineEntryDto {
        commit: row.commit,
        short_commit: row.short_commit,
        commit_time: row.commit_time,
        author_name: row.author_name,
        subject: row.subject,
        branch_names: row.branch_names,
        tag_names: row.tag_names,
        describe: row.describe,
        build_profile: row.build_profile,
        toolchain_id: row.toolchain_id,
        target_id: row.target_id,
        rom_total: row.rom_total,
        ram_total: row.ram_total,
        rom_delta_vs_previous: row.rom_delta_vs_previous,
        ram_delta_vs_previous: row.ram_delta_vs_previous,
        rule_violations_count: row.rule_violations_count,
        top_sections: map_change_entries(row.top_increases.sections),
        top_objects: map_change_entries(row.top_increases.objects),
        top_source_files: map_change_entries(row.top_increases.source_files),
        top_symbols: map_change_entries(row.top_increases.symbols),
    }
}

/// The worst commit of a range as the front end shows it.
pub fn map_worst_commit(item: WorstCommitSummary) -> (d: WorstCommitSummaryDto)
    ensures
        d.commit == item.commit,
        d.delta == item.delta,
        d.subject == item.subject,
        d.date == item.date,
{
    WorstCommitSummaryDto { commit: item.commit, delta: item.delta, subject: item.subject, date: item.date }
}

/// The first rule violation of a range as the front end shows it.
pub fn map_first_rule_violation(item: FirstRuleViolationSummary) -> (d: FirstRuleViolationSummaryDto)
    ensures
        d.commit == item.commit,
        d.rule_ids == item.rule_ids,
        d.subject == item.subject,
{
    FirstRuleViolationSummaryDto { commit: item.commit, rule_ids: item.rule_ids, subject: item.subject }
}

/// The changed files of a range as the front end shows them.
pub fn map_changed_files_summary(item: ChangedFilesSummary) -> (d: ChangedFilesSummaryDto)
    ensures
        d.git_changed_files == item.git_changed_files,
        d.changed_source_files_in_analysis == item.changed_source_files_in_analysis,
        d.intersection_files == item.intersection_files,
        d.git_only_files_count == item.git_only_files_count,
        d.analysis_only_files_count == item.analysis_only_files_count,
        d.intersection_count == item.intersection_count,
{
    ChangedFilesSummaryDto {
        git_changed_files: item.git_changed_files,
        changed_source_files_in_analysis: item.changed_source_files_in_analysis,
        intersection_files: item.intersection_files,
        git_only_files_count: item.git_only_files_count,
        analysis_only_files_count: item.analysis_only_files_count,
        intersection_count: item.intersection_count,
    }
}

/// A regression boundary as the front end shows it.
pub fn map_regression_origin_point(item: RegressionOriginPoint) -> (d: RegressionOriginPointDto)
    ensures
        d.commit == item.commit,
        d.short_commit == item.short_commit,
        d.subject == item.subject,
        d.value == item.value,
{
    RegressionOriginPointDto {
        commit: item.commit,
        short_commit: item.short_commit,
        subject: item.subject,
        value: item.value,
    }
}

/// A commit of a regression window as the front end shows it.
pub fn map_regression_window_row(item: RegressionWindowRow) -> (d: RegressionWindowRowDto)
    ensures
        d.commit == item.commit,
        d.short_commit == item.short_commit,
        d.subject == item.subject,
        d.status == item.status,
        d.value == item.value,
{
    RegressionWindowRowDto {
        commit: item.commit,
        short_commit: item.short_commit,
        subject: item.subject,
        status: item.status,
        value: item.value,
    }
}

/// Distinct regression detectors and modes have distinct names, so reading a
/// name back gives the detector or mode it was written from.
pub proof fn law_regression_names_are_distinct(d1: RegressionDetector, d2: RegressionDetector, m1: RegressionMode, m2: RegressionMode)
    ensures
        detector_text(d1) == detector_text(d2) ==> d1 == d2,
        mode_text(m1) == mode_text(m2) ==> m1 == m2,
{
    reveal_strlit("metric");
    reveal_strlit("rule");
    reveal_strlit("entity");
    reveal_strlit("first-crossing");
    reveal_strlit("first-jump");
    reveal_strlit("first-presence");
    reveal_strlit("first-violation");
    if detector_text(d1) == detector_text(d2) && d1 != d2 {
        assert(detector_text(d1)[0] != detector_text(d2)[0] || detector_text(d1).len() != detector_text(d2).len());
    }
    if mode_text(m1) == mode_text(m2) && m1 != m2 {
        assert(mode_text(m1)[6] != mode_text(m2)[6] || mode_text(m1).len() != mode_text(m2).len());
    }
}


// ---------------------------------------------------------------------------
// Settings and projects
// ---------------------------------------------------------------------------
/// The settings after files were picked: the ELF and map paths that were
/// given replace the remembered ones; the rest is kept.
pub fn remember_selected_files(
    settings: &DesktopSettingsDto,
    elf_path: Option<&str>,
    map_path: Option<&str>,
) -> (s: DesktopSettingsDto)
    ensures
        s.history_db_path == settings.history_db_path,
        s.default_rule_file_path == settings.default_rule_file_path,
        s.default_git_repo_path == settings.default_git_repo_path,
        opt_text(s.last_elf_path) == match elf_path {
            Some(p) => Some(p@),
            None => opt_text(settings.last_elf_path),
        },
        opt_text(s.last_map_path) == match map_path {
            Some(p) => Some(p@),
            None => opt_text(settings.last_map_path),
        },
{
    DesktopSettingsDto {
        history_db_path: copy_string(&settings.history_db_path),
        default_rule_file_path: copy_opt_string(&settings.default_rule_file_path),
        default_git_repo_path: copy_opt_string(&settings.default_git_repo_path),
        last_elf_path: match elf_path {
            Some(p) => Some(string_from(p)),
            None => copy_opt_string(&settings.last_elf_path),
        },
        last_map_path: match map_path {
            Some(p) => Some(string_from(p)),
            None => copy_opt_string(&settings.last_map_path),
        },
    }
}

/// A stored project.
#[derive(Debug, Clone, PartialEq, Eq)]
pub struct StoredProjectRecord {
    pub project_id: i64,
    pub name: String,
    pub root_path: String,
    pub git_repo_path: Option<String>,
    pub default_elf_path: Option<String>,
    pub default_map_path: Option<String>,
    pub default_debug_path: Option<String>,
    pub default_rule_file_path: Option<String>,
    pub default_target: Option<String>,
    pub default_profile: Option<String>,
    pub default_export_dir: Option<String>,
    pub pinned_report_path: Option<String>,
    pub last_opened_screen: Option<String>,
    pub last_opened_filters_json: Option<String>,
    pub created_at: String,
    pub updated_at: String,
    pub last_run_at: Option<String>,
    pub last_export_at: Option<String>,
}

/// The changes asked of a project: each field that is given replaces the
/// stored one.
#[derive(Debug, Clone, PartialEq, Eq)]
pub struct UpdateProjectRecord {
    pub name: Option<String>,
    pub root_path: Option<String>,
    pub git_repo_path: Option<String>,
    pub default_elf_path: Option<String>,
    pub default_map_path: Option<String>,
    pub default_debug_path: Option<String>,
    pub default_rule_file_path: Option<String>,
    pub default_target: Option<String>,
    pub default_profile: Option<String>,
    pub default_export_dir: Option<String>,
    pub pinned_report_path: Option<String>,
    pub last_opened_screen: Option<String>,
    pub last_opened_filters_json: Option<String>,
    pub updated_at: String,
}

/// The given value where there is one, else the stored one.
pub open spec fn given_or(given: Option<String>, stored: Option<String>) -> Option<String> {
    match given {
        Some(v) => Some(v),
        None => stored,
    }
}

fn pick(given: &Option<String>, stored: &Option<String>) -> (r: Option<String>)
    ensures
        r == given_or(*given, *stored),
{
    match given {
        Some(v) => Some(copy_string(v)),
        None => copy_opt_string(stored),
    }
}

/// A project after an update: each given field replaces the stored one, the
/// update time is the update's; id, creation time and last run and export
/// times are kept.
pub fn apply_project_update(current: &StoredProjectRecord, patch: &UpdateProjectRecord) -> (p: StoredProjectRecord)
    ensures
        p.project_id == current.project_id,
        Some(p.name) == given_or(patch.name, Some(current.name)),
        Some(p.root_path) == given_or(patch.root_path, Some(current.root_path)),
        p.git_repo_path == given_or(patch.git_repo_path, current.git_repo_path),
        p.default_elf_path == given_or(patch.default_elf_path, current.default_elf_path),
        p.default_map_path == given_or(patch.default_map_path, current.default_map_path),
        p.default_debug_path == given_or(patch.default_debug_path, current.default_debug_path),
        p.default_rule_file_path == given_or(patch.default_rule_file_path, current.default_rule_file_path),
        p.default_target == given_or(patch.default_target, current.default_target),
        p.default_profile == given_or(patch.default_profile, current.default_profile),
        p.default_export_dir == given_or(patch.default_export_dir, current.default_export_dir),
        p.pinned_report_path == given_or(patch.pinned_report_path, current.pinned_report_path),
        p.last_opened_screen == given_or(patch.last_opened_screen, current.last_opened_screen),
        p.last_opened_filters_json == given_or(patch.last_opened_filters_json, current.last_opened_filters_json),
        p.created_at == current.created_at,
        p.updated_at == patch.updated_at,
        p.last_run_at == current.last_run_at,
        p.last_export_at == current.last_export_at,
{
    StoredProjectRecord {
        project_id: current.project_id,
        name: match &patch.name {
            Some(v) => copy_string(v),
            None => copy_string(&current.name),
        },
        root_path: match &patch.root_path {
            Some(v) => copy_string(v),
            None => copy_string(&current.root_path),
        },
        git_repo_path: pick(&patch.git_repo_path, &current.git_repo_path),
        default_elf_path: pick(&patch.default_elf_path, &current.default_elf_path),
        default_map_path: pick(&patch.default_map_path, &current.default_map_path),
        default_debug_path: pick(&patch.default_debug_path, &current.default_debug_path),
        default_rule_file_path: pick(&patch.default_rule_file_path, &current.default_rule_file_path),
        default_target: pick(&patch.default_target, &current.default_target),
        default_profile: pick(&patch.default_profile, &current.default_profile),
        default_export_dir: pick(&patch.default_export_dir, &current.default_export_dir),
        pinned_report_path: pick(&patch.pinned_report_path, &current.pinned_report_path),
        last_opened_screen: pick(&patch.last_opened_screen, &current.last_opened_screen),
        last_opened_filters_json: pick(&patch.last_opened_filters_json, &current.last_opened_filters_json),
        created_at: copy_string(&current.created_at),
        updated_at: copy_string(&patch.updated_at),
        last_run_at: copy_opt_string(&current.last_run_at),
        last_export_at: copy_opt_string(&current.last_export_at),
    }
}

/// The active project after a project is deleted: none if it was the one
/// deleted, else unchanged.
pub fn active_project_after_delete(active: Option<i64>, deleted: i64) -> (r: Option<i64>)
    ensures
        r == if active == Some(deleted) {
            None
        } else {
            active
        },
{
    match active {
        Some(id) => {
            if id == deleted {
                None
            } else {
                Some(id)
            }
        },
        None => None,
    }
}


// ---------------------------------------------------------------------------
// What a desktop analysis records
// ---------------------------------------------------------------------------
/// The target a Rust context names: its target triple, else its target name.
pub open spec fn rust_target(r: RustContext) -> Option<String> {
    match r.target_triple {
        Some(t) => Some(t),
        None => r.target_name,
    }
}

/// The metadata a desktop analysis records with its build: the job's label
/// when it has one, the toolchain id and configuration fingerprint, and from
/// the Rust context its target and its profile when it names them.
pub open spec fn desktop_metadata_map(
    label: Option<Seq<char>>,
    t: ToolchainInfo,
    s: SourceLinesMode,
    rust: Option<RustContext>,
) -> Map<Seq<char>, Seq<char>> {
    let labelled = match label {
        Some(l) => Map::<Seq<char>, Seq<char>>::empty().insert("desktop.label"@, l),
        None => Map::<Seq<char>, Seq<char>>::empty(),
    };
    let base = labelled.insert("toolchain.id"@, toolchain_id_text(t)).insert(
        "config.fingerprint"@,
        config_fingerprint_text(t.linker_family, t.map_format, s),
    );
    match rust {
        None => base,
        Some(r) => {
            let with_target = match rust_target(r) {
                Some(x) => base.insert("target.id"@, x@),
                None => base,
            };
            match r.profile {
                Some(p) => with_target.insert("build.profile"@, p@),
                None => with_target,
            }
        },
    }
}

/// The metadata a desktop analysis records (see `desktop_metadata_map`).
pub fn desktop_run_metadata(
    label: Option<&str>,
    toolchain: &ToolchainInfo,
    source_lines: SourceLinesMode,
    rust: &Option<RustContext>,
) -> (m: Metadata)
    ensures
        m.wf(),
        m@ == desktop_metadata_map(
            match label {
                Some(l) => Some(l@),
                None => None,
            },
            *toolchain,
            source_lines,
            *rust,
        ),
{
    let mut m = Metadata::new();
    if let Some(l) = label {
        m.insert(string_from("desktop.label"), string_from(l));
    }
    let toolchain_id = match &toolchain.detected {
        Some(k) => k.as_text(),
        None => toolchain.resolved.as_text(),
    };
    m.insert(string_from("toolchain.id"), toolchain_id);
    m.insert(
        string_from("config.fingerprint"),
        config_fingerprint(toolchain.linker_family, toolchain.map_format, source_lines),
    );
    if let Some(r) = rust {
        let target = match &r.target_triple {
            Some(t) => Some(copy_string(t)),
            None => copy_opt_string(&r.target_name),
        };
        if let Some(x) = target {
            m.insert(string_from("target.id"), x);
        }
        if let Some(p) = &r.profile {
            m.insert(string_from("build.profile"), copy_string(p));
        }
    }
    m
}

/// The profile a run of a build is listed under: the Rust context's profile,
/// else the recorded `build.profile`.
pub open spec fn run_profile_text(b: BuildRecord) -> Option<Seq<char>> {
    match b.rust_context {
        Some(r) if r.profile is Some => Some(r.profile->0@),
        _ => meta_value(b, "build.profile"@),
    }
}

/// The target a run of a build is listed under: the Rust context's target
/// triple or target name, else the recorded `target.id`.
pub open spec fn run_target_text(b: BuildRecord) -> Option<Seq<char>> {
    match b.rust_context {
        Some(r) if rust_target(r) is Some => Some(rust_target(r)->0@),
        _ => meta_value(b, "target.id"@),
    }
}

/// The profile a run of a build is listed under (see `run_profile_text`).
pub fn run_profile(build: &BuildRecord) -> (r: Option<String>)
    requires
        build.metadata.wf(),
    ensures
        opt_text(r) == run_profile_text(*build),
{
    if let Some(rust) = &build.rust_context {
        if let Some(p) = &rust.profile {
            return Some(copy_string(p));
        }
    }
    meta_get(build, "build.profile")
}

/// The target a run of a build is listed under (see `run_target_text`).
pub fn run_target(build: &BuildRecord) -> (r: Option<String>)
    requires
        build.metadata.wf(),
    ensures
        opt_text(r) == run_target_text(*build),
{
    if let Some(rust) = &build.rust_context {
        if let Some(t) = &rust.target_triple {
            return Some(copy_string(t));
        }
        if let Some(t) = &rust.target_name {
            return Some(copy_string(t));
        }
    }
    meta_get(build, "target.id")
}


// ---------------------------------------------------------------------------
// Default settings
// ---------------------------------------------------------------------------
/// A path joined with a relative component, as `Path::join` does with `/`
/// separators: the component alone after an empty path, appended directly
/// after a trailing `/`, else after a `/`.
pub open spec fn join_path_text(base: Seq<char>, part: Seq<char>) -> Seq<char> {
    if base.len() == 0 {
        part
    } else if base.last() == '/' {
        base + part
    } else {
        base + seq!['/'] + part
    }
}

/// Joins a relative component to a path (see `join_path_text`).
pub fn join_path(base: &str, part: &str) -> (r: String)
    ensures
        r@ == join_path_text(base@, part@),
{
    let b = chars_of(base);
    let mut v = copy_chars(&b);
    if b.len() > 0 && b[b.len() - 1] != '/' {
        v.push('/');
    }
    push_str_chars(&mut v, part);
    proof {
        if b@.len() == 0 {
            assert(v@ =~= part@);
        }
    }
    string_of(&v)
}

/// The settings of a new desktop data directory: the history database at
/// `history/history.db` under it, and no rule file, repository, ELF or map
/// chosen yet.
pub fn default_settings(base_dir: &str) -> (s: DesktopSettingsDto)
    ensures
        s.history_db_path@ == join_path_text(join_path_text(base_dir@, "history"@), "history.db"@),
        s.default_rule_file_path is None,
        s.default_git_repo_path is None,
        s.last_elf_path is None,
        s.last_map_path is None,
{
    let dir = join_path(base_dir, "history");
    DesktopSettingsDto {
        history_db_path: join_path(dir.as_str(), "history.db"),
        default_rule_file_path: None,
        default_git_repo_path: None,
        last_elf_path: None,
        last_map_path: None,
    }
}

} // verus!
