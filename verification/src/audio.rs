//! Command lines and outcomes of the audio tools (`ffmpeg`, `fpcalc`).

use vstd::prelude::*;
use crate::download::texts;
use crate::error::AppError;
use crate::text::{join_path, joined};

verus! {

/// The audio tools and the directory they work in.
pub struct AudioProcessor {
    pub ffmpeg_path: String,
    pub fpcalc_path: String,
    pub temp_dir: String,
}

/// `ffmpeg` converts the first 90 seconds of the input to 44.1 kHz mono
/// 16-bit WAV, overwriting the output.
pub open spec fn ffmpeg_arguments(input: Seq<char>, output: Seq<char>) -> Seq<Seq<char>> {
    seq![
        "-y"@,
        "-i"@,
        input,
        "-t"@,
        "90"@,
        "-ar"@,
        "44100"@,
        "-ac"@,
        "1"@,
        "-sample_fmt"@,
        "s16"@,
        output,
    ]
}

/// `fpcalc` fingerprints the first 90 seconds and answers in JSON.
pub open spec fn fpcalc_arguments(wav: Seq<char>) -> Seq<Seq<char>> {
    seq!["-json"@, "-length"@, "90"@, wav]
}

fn lit(s: &str) -> (r: String)
    ensures
        r@ == s@,
{
    String::from_str(s)
}

impl AudioProcessor {
    /// Tools and directory as given.
    pub fn new(ffmpeg_path: String, fpcalc_path: String, temp_dir: String) -> (p: Self)
        ensures
            p.ffmpeg_path == ffmpeg_path,
            p.fpcalc_path == fpcalc_path,
            p.temp_dir == temp_dir,
    {
        AudioProcessor { ffmpeg_path, fpcalc_path, temp_dir }
    }

    /// The directory of a task's files.
    pub fn task_dir(&self, task_id: &str) -> (r: String)
        ensures
            r@ == joined(self.temp_dir@, task_id@),
    {
        join_path(self.temp_dir.as_str(), task_id)
    }

    /// Where the normalized audio of a task is written.
    pub fn normalized_path(&self, task_id: &str) -> (r: String)
        ensures
            r@ == joined(joined(self.temp_dir@, task_id@), "normalized.wav"@),
    {
        let dir = self.task_dir(task_id);
        join_path(dir.as_str(), "normalized.wav")
    }

    /// The arguments `ffmpeg` is run with.
    pub fn ffmpeg_args(input: &str, output: &str) -> (v: Vec<String>)
        ensures
            texts(v@) == ffmpeg_arguments(input@, output@),
    {
        let v = vec![
            lit("-y"),
            lit("-i"),
            lit(input),
            lit("-t"),
            lit("90"),
            lit("-ar"),
            lit("44100"),
            lit("-ac"),
            lit("1"),
            lit("-sample_fmt"),
            lit("s16"),
            lit(output),
        ];
        assert(texts(v@) =~= ffmpeg_arguments(input@, output@));
        v
    }

    /// The arguments `fpcalc` is run with.
    pub fn fpcalc_args(wav: &str) -> (v: Vec<String>)
        ensures
            texts(v@) == fpcalc_arguments(wav@),
    {
        let v = vec![lit("-json"), lit("-length"), lit("90"), lit(wav)];
        assert(texts(v@) =~= fpcalc_arguments(wav@));
        v
    }

    /// The outcome of `fpcalc`, from the `fingerprint` and the (truncated)
    /// `duration` of its JSON: without a fingerprint it failed; the
    /// duration defaults to 90 seconds.
    pub fn fingerprint_outcome(fingerprint: Option<String>, duration: Option<i32>) -> (r: Result<
        (String, i32),
        AppError,
    >)
        ensures
            fingerprint is None ==> (r matches Err(AppError::Identification(m)) && m@
                == "fpcalc did not return a fingerprint"@),
            fingerprint matches Some(fp) ==> r == Ok::<(String, i32), AppError>(
                (
                    fp,
                    match duration {
                        Some(d) => d,
                        None => 90i32,
                    },
                ),
            ),
    {
        match fingerprint {
            Some(fp) => Ok(
                (
                    fp,
                    match duration {
                        Some(d) => d,
                        None => 90,
                    },
                ),
            ),
            None => Err(AppError::Identification(lit("fpcalc did not return a fingerprint"))),
        }
    }
}

} // verus!
