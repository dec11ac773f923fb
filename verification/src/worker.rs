//! The identification pipeline of one task, as a state machine: the caller
//! performs each action (database writes, downloads, tool runs, provider
//! queries) and reports what came of it; the machine decides what follows.

use vstd::prelude::*;
use crate::identifiers::{combined, comparable, merge_results, merged};
use crate::models::{float_order, SongMatch, TaskResult, TaskStatus};
use crate::text::decimal;

verus! {

/// A request to identify the songs of a link.
pub struct TaskCommand {
    pub task_id: String,
    pub url: String,
}

/// Bits of `0.0f32`: a queued task.
pub const PROGRESS_QUEUED_BITS: u32 = 0;

/// Bits of `0.1f32`: downloading.
pub const PROGRESS_DOWNLOADING_BITS: u32 = 0x3dcc_cccd;

/// Bits of `0.3f32`: converting.
pub const PROGRESS_CONVERTING_BITS: u32 = 0x3e99_999a;

/// Bits of `0.6f32`: asking the providers.
pub const PROGRESS_IDENTIFYING_BITS: u32 = 0x3f19_999a;

/// Bits of `1.0f32`: over.
pub const PROGRESS_FINISHED_BITS: u32 = 0x3f80_0000;

/// `r` is the record of task `id` with the given status, progress, message and songs.
pub open spec fn is_record(
    r: TaskResult,
    id: Seq<char>,
    status: TaskStatus,
    progress_bits: u32,
    message: Seq<char>,
    songs: Seq<SongMatch>,
    completed: bool,
) -> bool {
    &&& r.task_id@ == id
    &&& r.status == status
    &&& r.progress_bits == progress_bits
    &&& r.message@ == message
    &&& r.songs@ == songs
    &&& r.completed == completed
}

/// The message of a finished identification that found `n` songs.
pub open spec fn found_message(n: nat) -> Seq<char> {
    if n == 0 {
        "Nenhuma música identificada."@
    } else {
        decimal(n) + " música(s) encontrada(s)."@
    }
}

/// What the caller is to do next.
pub enum Action {
    /// Store the task's record.
    SaveTask(TaskResult),
    /// Download the audio of `url` into the task's directory; report its path.
    Download { url: String, task_id: String },
    /// Convert the downloaded audio; report the path of the result.
    Normalize { input: String, task_id: String },
    /// Hash the audio file at this path; report the hash.
    HashAudio(String),
    /// Look the hash up in the result cache; report what is cached.
    LookupCache(String),
    /// Ask every enabled provider about the audio file at this path;
    /// report their answers.
    Identify(String),
    /// Cache these songs under this hash.
    SaveSongs { hash: String, songs: Vec<SongMatch> },
    /// Remove the task's files.
    Cleanup(String),
    /// Nothing is left to do.
    Finish,
}

/// What came of the last action.
pub enum Event {
    /// It succeeded, with nothing to report.
    Done,
    /// It produced a file at this path.
    Path(String),
    /// It produced this hash.
    Hash(String),
    /// The cache held these songs, or nothing.
    Cached(Option<Vec<SongMatch>>),
    /// The providers' answers: each provider's name and songs.
    Answers(Vec<(String, Vec<SongMatch>)>),
    /// It failed with this message.
    Failed(String),
}

/// Where a task's run stands: which action's outcome it waits for, and
/// what it keeps for later steps.
pub enum Stage {
    SavingDownloading,
    Downloading,
    SavingConverting { raw: String },
    Normalizing,
    Hashing { wav: String },
    LookingUp { wav: String, hash: String },
    SavingIdentifying { wav: String, hash: String },
    Identifying { hash: String },
    SavingSongs { songs: Vec<SongMatch> },
    SavingResult,
    CleaningUp,
    SavingError,
    Finished,
}

/// The run of one task.
pub struct TaskRun {
    pub task_id: String,
    pub url: String,
    pub stage: Stage,
}

/// A stage in which a failure of the awaited action ends the task with an error.
pub open spec fn is_working(s: Stage) -> bool {
    !(s is CleaningUp || s is SavingError || s is Finished)
}

/// One step of the pipeline: from the stage `before` and the outcome
/// `event` of its action, the stage `after` and the next `action`.
pub open spec fn transition(before: TaskRun, event: Event, after: TaskRun, action: Action) -> bool {
    let id = before.task_id@;
    &&& after.task_id == before.task_id
    &&& after.url == before.url
    &&& if event is Failed && is_working(before.stage) {
        &&& after.stage is SavingError
        &&& action matches Action::SaveTask(r) && is_record(
            r,
            id,
            TaskStatus::Error,
            PROGRESS_FINISHED_BITS,
            event->Failed_0@,
            Seq::empty(),
            true,
        )
    } else {
        match (before.stage, event) {
            (Stage::SavingDownloading, Event::Done) => {
                &&& after.stage is Downloading
                &&& action matches Action::Download { url, task_id } && url == before.url
                    && task_id == before.task_id
            },
            (Stage::Downloading, Event::Path(p)) => {
                &&& after.stage == Stage::SavingConverting { raw: p }
                &&& action matches Action::SaveTask(r) && is_record(
                    r,
                    id,
                    TaskStatus::Converting,
                    PROGRESS_CONVERTING_BITS,
                    "Convertendo áudio..."@,
                    Seq::empty(),
                    false,
                )
            },
            (Stage::SavingConverting { raw }, Event::Done) => {
                &&& after.stage is Normalizing
                &&& action == Action::Normalize { input: raw, task_id: before.task_id }
            },
            (Stage::Normalizing, Event::Path(p)) => {
                &&& after.stage == Stage::Hashing { wav: p }
                &&& action == Action::HashAudio(p)
            },
            (Stage::Hashing { wav }, Event::Hash(h)) => {
                &&& after.stage == Stage::LookingUp { wav, hash: h }
                &&& action == Action::LookupCache(h)
            },
            (Stage::LookingUp { wav, hash }, Event::Cached(found)) => match found {
                Some(songs) => {
                    &&& after.stage is SavingResult
                    &&& action matches Action::SaveTask(r) && is_record(
                        r,
                        id,
                        TaskStatus::Done,
                        PROGRESS_FINISHED_BITS,
                        "Resultado do cache"@,
                        songs@,
                        true,
                    )
                },
                None => {
                    &&& after.stage == Stage::SavingIdentifying { wav, hash }
                    &&& action matches Action::SaveTask(r) && is_record(
                        r,
                        id,
                        TaskStatus::Identifying,
                        PROGRESS_IDENTIFYING_BITS,
                        "Consultando provedores de música..."@,
                        Seq::empty(),
                        false,
                    )
                },
            },
            (Stage::SavingIdentifying { wav, hash }, Event::Done) => {
                &&& after.stage == Stage::Identifying { hash }
                &&& action == Action::Identify(wav)
            },
            (Stage::Identifying { hash }, Event::Answers(answers)) => {
                &&& after.stage matches Stage::SavingSongs { songs } && songs@ == merged(answers@)
                &&& action matches Action::SaveSongs { hash: h, songs } && h == hash && songs@
                    == merged(answers@)
            },
            (Stage::SavingSongs { songs }, Event::Done) => {
                &&& after.stage is SavingResult
                &&& action matches Action::SaveTask(r) && is_record(
                    r,
                    id,
                    TaskStatus::Done,
                    PROGRESS_FINISHED_BITS,
                    found_message(songs@.len()),
                    songs@,
                    true,
                )
            },
            (Stage::SavingResult, Event::Done) => {
                &&& after.stage is CleaningUp
                &&& action == Action::Cleanup(before.task_id)
            },
            _ => {
                &&& after.stage is Finished
                &&& action is Finish
            },
        }
    }
}

fn copy_text(s: &Option<String>) -> (r: Option<String>)
    ensures
        r == *s,
{
    match s {
        Some(t) => Some(t.clone()),
        None => None,
    }
}

/// A copy of a song.
pub fn copy_song(s: &SongMatch) -> (r: SongMatch)
    ensures
        r == *s,
{
    SongMatch {
        rank: s.rank,
        title: s.title.clone(),
        artist: s.artist.clone(),
        album: copy_text(&s.album),
        confidence_bits: s.confidence_bits,
        provider: s.provider.clone(),
        artwork_url: copy_text(&s.artwork_url),
        preview_url: copy_text(&s.preview_url),
        isrc: copy_text(&s.isrc),
        duration_bits: s.duration_bits,
    }
}

/// A copy of a list of songs.
pub fn copy_songs(songs: &Vec<SongMatch>) -> (r: Vec<SongMatch>)
    ensures
        r@ == songs@,
{
    let mut r: Vec<SongMatch> = Vec::new();
    let mut i: usize = 0;
    while i < songs.len()
        invariant
            i <= songs@.len(),
            r@ == songs@.take(i as int),
        decreases songs@.len() - i,
    {
        r.push(copy_song(&songs[i]));
        assert(songs@.take(i + 1) =~= songs@.take(i as int).push(songs@[i as int]));
        i = i + 1;
    }
    assert(songs@.take(songs@.len() as int) =~= songs@);
    r
}

/// The message of a finished identification that found `n` songs.
pub fn found_message_text(n: usize) -> (m: String)
    ensures
        m@ == found_message(n as nat),
{
    if n == 0 {
        String::from_str("Nenhuma música identificada.")
    } else {
        let mut m = crate::text::decimal_string(n as u64);
        m.append(" música(s) encontrada(s).");
        m
    }
}

fn record(
    task_id: &String,
    status: TaskStatus,
    progress_bits: u32,
    message: String,
    songs: Vec<SongMatch>,
    completed: bool,
) -> (r: TaskResult)
    ensures
        is_record(r, task_id@, status, progress_bits, message@, songs@, completed),
{
    TaskResult { task_id: task_id.clone(), status, progress_bits, message, songs, completed }
}

/// The record of a task just queued: status queued, no progress, "Na fila...".
pub fn queued_record(task_id: &String) -> (r: TaskResult)
    ensures
        is_record(r, task_id@, TaskStatus::Queued, PROGRESS_QUEUED_BITS, "Na fila..."@, Seq::empty(), false),
{
    record(task_id, TaskStatus::Queued, PROGRESS_QUEUED_BITS, String::from_str("Na fila..."), Vec::new(), false)
}

impl TaskRun {
    /// Starts a task: its record says it is downloading.
    pub fn start(cmd: TaskCommand) -> (r: (TaskRun, Action))
        ensures
            r.0.task_id == cmd.task_id,
            r.0.url == cmd.url,
            r.0.stage is SavingDownloading,
            r.1 matches Action::SaveTask(rec) && is_record(
                rec,
                cmd.task_id@,
                TaskStatus::Downloading,
                PROGRESS_DOWNLOADING_BITS,
                "Baixando áudio do link..."@,
                Seq::empty(),
                false,
            ),
    {
        let rec = record(
            &cmd.task_id,
            TaskStatus::Downloading,
            PROGRESS_DOWNLOADING_BITS,
            String::from_str("Baixando áudio do link..."),
            Vec::new(),
            false,
        );
        (TaskRun { task_id: cmd.task_id, url: cmd.url, stage: Stage::SavingDownloading }, Action::SaveTask(rec))
    }

    /// Takes the outcome of the last action and says what to do next.
    pub fn step(&mut self, event: Event) -> (action: Action)
        requires
            old(self).stage is Identifying ==> (event matches Event::Answers(a) ==> comparable(
                combined(a@),
            )),
        ensures
            transition(*old(self), event, *final(self), action),
    {
        let mut stage = Stage::Finished;
        std::mem::swap(&mut stage, &mut self.stage);
        let working = match &stage {
            Stage::CleaningUp | Stage::SavingError | Stage::Finished => false,
            _ => true,
        };
        if working {
            if let Event::Failed(message) = event {
                self.stage = Stage::SavingError;
                return Action::SaveTask(
                    record(
                        &self.task_id,
                        TaskStatus::Error,
                        PROGRESS_FINISHED_BITS,
                        message,
                        Vec::new(),
                        true,
                    ),
                );
            }
        }
        match (stage, event) {
            (Stage::SavingDownloading, Event::Done) => {
                self.stage = Stage::Downloading;
                Action::Download { url: self.url.clone(), task_id: self.task_id.clone() }
            },
            (Stage::Downloading, Event::Path(p)) => {
                self.stage = Stage::SavingConverting { raw: p };
                Action::SaveTask(
                    record(
                        &self.task_id,
                        TaskStatus::Converting,
                        PROGRESS_CONVERTING_BITS,
                        String::from_str("Convertendo áudio..."),
                        Vec::new(),
                        false,
                    ),
                )
            },
            (Stage::SavingConverting { raw }, Event::Done) => {
                self.stage = Stage::Normalizing;
                Action::Normalize { input: raw, task_id: self.task_id.clone() }
            },
            (Stage::Normalizing, Event::Path(p)) => {
                self.stage = Stage::Hashing { wav: p.clone() };
                Action::HashAudio(p)
            },
            (Stage::Hashing { wav }, Event::Hash(h)) => {
                self.stage = Stage::LookingUp { wav, hash: h.clone() };
                Action::LookupCache(h)
            },
            (Stage::LookingUp { wav, hash }, Event::Cached(found)) => match found {
                Some(songs) => {
                    self.stage = Stage::SavingResult;
                    Action::SaveTask(
                        record(
                            &self.task_id,
                            TaskStatus::Done,
                            PROGRESS_FINISHED_BITS,
                            String::from_str("Resultado do cache"),
                            songs,
                            true,
                        ),
                    )
                },
                None => {
                    self.stage = Stage::SavingIdentifying { wav, hash };
                    Action::SaveTask(
                        record(
                            &self.task_id,
                            TaskStatus::Identifying,
                            PROGRESS_IDENTIFYING_BITS,
                            String::from_str("Consultando provedores de música..."),
                            Vec::new(),
                            false,
                        ),
                    )
                },
            },
            (Stage::SavingIdentifying { wav, hash }, Event::Done) => {
                self.stage = Stage::Identifying { hash };
                Action::Identify(wav)
            },
            (Stage::Identifying { hash }, Event::Answers(answers)) => {
                let songs = merge_results(answers);
                let copy = copy_songs(&songs);
                self.stage = Stage::SavingSongs { songs };
                Action::SaveSongs { hash, songs: copy }
            },
            (Stage::SavingSongs { songs }, Event::Done) => {
                let message = found_message_text(songs.len());
                self.stage = Stage::SavingResult;
                Action::SaveTask(
                    record(&self.task_id, TaskStatus::Done, PROGRESS_FINISHED_BITS, message, songs, true),
                )
            },
            (Stage::SavingResult, Event::Done) => {
                self.stage = Stage::CleaningUp;
                Action::Cleanup(self.task_id.clone())
            },
            _ => {
                self.stage = Stage::Finished;
                Action::Finish
            },
        }
    }
}

/// The progress a run has reported once the action awaited in `stage` is done.
pub open spec fn reported_progress(stage: Stage) -> u32 {
    match stage {
        Stage::SavingDownloading | Stage::Downloading => PROGRESS_DOWNLOADING_BITS,
        Stage::SavingConverting { .. } | Stage::Normalizing | Stage::Hashing { .. }
        | Stage::LookingUp { .. } => PROGRESS_CONVERTING_BITS,
        Stage::SavingIdentifying { .. } | Stage::Identifying { .. } | Stage::SavingSongs {
            ..
        } => PROGRESS_IDENTIFYING_BITS,
        _ => PROGRESS_FINISHED_BITS,
    }
}

/// A task's progress never goes back: every record a step stores reports
/// at least the progress reported before, and the stage reached reports
/// at least as much as the stage left.
pub proof fn law_progress_never_decreases(before: TaskRun, event: Event, after: TaskRun, action: Action)
    requires
        transition(before, event, after, action),
    ensures
        float_order(reported_progress(after.stage)) >= float_order(reported_progress(before.stage)),
        action matches Action::SaveTask(r) ==> float_order(r.progress_bits) >= float_order(
            reported_progress(before.stage),
        ) && r.progress_bits == reported_progress(after.stage),
{
}

/// Once a task is over (its files are being removed, or its error is
/// being stored, or nothing is left) no further record is stored.
pub proof fn law_nothing_stored_after_the_end(before: TaskRun, event: Event, after: TaskRun, action: Action)
    requires
        transition(before, event, after, action),
        before.stage is CleaningUp || before.stage is SavingError || before.stage is Finished,
    ensures
        action is Finish,
        after.stage is Finished,
{
}

/// A failure of the awaited action, at any point of the work, ends the task
/// with an error record carrying the failure's message, and then the run ends.
pub proof fn law_failure_is_reported(before: TaskRun, message: String, after: TaskRun, action: Action)
    requires
        transition(before, Event::Failed(message), after, action),
        is_working(before.stage),
    ensures
        action matches Action::SaveTask(r) && r.status == TaskStatus::Error && r.message@
            == message@ && r.completed && r.songs@.len() == 0,
        after.stage is SavingError,
{
}

} // verus!
