//! Voice messages into text.
use vstd::prelude::*;
use vstd::string::*;

use crate::config::AppConfig;
use crate::ids::{is_hyphenated_id, new_hyphenated_id};
use crate::paths::{is_absolute, is_absolute_path, join_path, path_join};
use crate::text::{has_ink, opt_view, texts_view, trim, trimmed_text};
use crate::user_dirs::user_home_dir;

verus! {

// ---------------------------------------------------------------------------
// The command
// ---------------------------------------------------------------------------
/// The transcriber in the user's own programs, unless the configured command is
/// a path of its own.
pub open spec fn own_transcriber(command: Seq<char>, home: Option<Seq<char>>) -> Option<Seq<char>> {
    match home {
        Some(dir) => if is_absolute_path(command) {
            None
        } else {
            Some(path_join(path_join(path_join(dir, ".local"@), "bin"@), command))
        },
        None => None,
    }
}

/// The transcriber in the user's own programs, given the user's home.
pub fn home_transcriber(command: &str, home: &Option<String>) -> (path: Option<String>)
    ensures
        opt_view(path) == own_transcriber(command@, opt_view(*home)),
{
    match home {
        Some(dir) => {
            if is_absolute(command) {
                return None;
            }
            let local = join_path(dir.as_str(), ".local");
            let bin = join_path(local.as_str(), "bin");
            Some(join_path(bin.as_str(), command))
        },
        None => None,
    }
}

/// The transcriber in the user's own programs, in the home that the system
/// names.
pub fn local_transcriber(command: &str) -> (path: Option<String>)
    ensures
        exists|home: Option<Seq<char>>|
            opt_view(path) == #[trigger] own_transcriber(command@, home),
{
    let home = user_home_dir();
    home_transcriber(command, &home)
}

/// The command that transcribes: the user's own, where that is there, else the
/// configured one.
pub fn resolve_transcriber_command(config: &AppConfig, local: Option<String>, present: bool) -> (command:
    String)
    ensures
        command@ == match local {
            Some(path) => if present {
                path@
            } else {
                config.voice.transcriber_command@
            },
            None => config.voice.transcriber_command@,
        },
{
    match local {
        Some(path) => if present {
            path
        } else {
            config.voice.transcriber_command.clone()
        },
        None => config.voice.transcriber_command.clone(),
    }
}

/// The arguments of the command.
pub open spec fn transcriber_args_of(
    audio_path: Seq<char>,
    model: Seq<char>,
    output_dir: Seq<char>,
) -> Seq<Seq<char>> {
    seq![
        audio_path,
        "--model"@,
        model,
        "--output-dir"@,
        output_dir,
        "--output-format"@,
        "txt"@,
        "--output-template"@,
        "transcript"@,
    ]
}

/// The arguments of the command.
pub fn transcriber_args(audio_path: &str, model: &str, output_dir: &str) -> (args: Vec<String>)
    ensures
        texts_view(args@) == transcriber_args_of(audio_path@, model@, output_dir@),
{
    let mut args: Vec<String> = Vec::new();
    args.push(audio_path.to_string());
    args.push("--model".to_string());
    args.push(model.to_string());
    args.push("--output-dir".to_string());
    args.push(output_dir.to_string());
    args.push("--output-format".to_string());
    args.push("txt".to_string());
    args.push("--output-template".to_string());
    args.push("transcript".to_string());
    assert(texts_view(args@) =~= transcriber_args_of(audio_path@, model@, output_dir@));
    args
}

// ---------------------------------------------------------------------------
// Places
// ---------------------------------------------------------------------------
/// The directory of the transcription `id`.
pub open spec fn job_place(cache_dir: Seq<char>, id: Seq<char>) -> Seq<char> {
    path_join(path_join(cache_dir, "voice-transcripts"@), id)
}

/// The directory of the transcription `id`.
pub fn job_dir(config: &AppConfig, id: &str) -> (dir: String)
    ensures
        dir@ == job_place(config.paths.cache_dir@, id@),
{
    let all = join_path(config.paths.cache_dir.as_str(), "voice-transcripts");
    join_path(all.as_str(), id)
}

/// A directory for a transcription, with a fresh id for its name.
pub fn transcript_job_dir(config: &AppConfig) -> (dir: String)
    ensures
        exists|id: Seq<char>|
            is_hyphenated_id(id) && dir@ == #[trigger] job_place(config.paths.cache_dir@, id),
{
    let id = new_hyphenated_id();
    job_dir(config, id.as_str())
}

/// The file that the command writes the transcript to.
pub fn transcript_path(output_dir: &str) -> (path: String)
    ensures
        path@ == path_join(output_dir@, "transcript.txt"@),
{
    join_path(output_dir, "transcript.txt")
}

// ---------------------------------------------------------------------------
// Outcomes
// ---------------------------------------------------------------------------
/// What is reported of a command that failed.
pub fn transcriber_failure(status: &str, stdout: &str, stderr: &str) -> (message: String)
    ensures
        message@ == "voice transcription command failed with status "@ + status@ + ".\nstdout:\n"@
            + trim(stdout@) + "\nstderr:\n"@ + trim(stderr@),
{
    let out = trimmed_text(stdout);
    let err = trimmed_text(stderr);
    let mut message = "voice transcription command failed with status ".to_string();
    message.append(status);
    message.append(".\nstdout:\n");
    message.append(out.as_str());
    message.append("\nstderr:\n");
    message.append(err.as_str());
    message
}

/// The transcript that the command wrote to `path`, unless it is blank.
pub fn accept_transcript(raw: &str, path: &str) -> (transcript: Result<String, String>)
    ensures
        match transcript {
            Ok(text) => has_ink(raw@) && text@ == trim(raw@),
            Err(message) => !has_ink(raw@) && message@
                == "voice transcription produced an empty transcript at "@ + path@,
        },
{
    let text = trimmed_text(raw);
    if text.as_str().is_empty() {
        let mut message = "voice transcription produced an empty transcript at ".to_string();
        message.append(path);
        Err(message)
    } else {
        Ok(text)
    }
}

} // verus!
