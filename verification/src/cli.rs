//! The choices of one run: the directories to work in, and how much is logged.

use crate::path::{join, join_spec};
use crate::text::same_text;
use vstd::prelude::*;
use vstd::string::*;

verus! {

/// How much of what happens is logged, from errors alone up to every trace.
#[derive(Debug, Clone, Copy, PartialEq, Eq, Structural)]
pub enum Verbosity {
    Error,
    Warn,
    Info,
    Debug,
    Trace,
}

/// The word that stands for `verbosity`.
pub open spec fn verbosity_name(verbosity: Verbosity) -> Seq<char> {
    match verbosity {
        Verbosity::Error => "error"@,
        Verbosity::Warn => "warn"@,
        Verbosity::Info => "info"@,
        Verbosity::Debug => "debug"@,
        Verbosity::Trace => "trace"@,
    }
}

/// The verbosity that the word `word` stands for.
pub open spec fn verbosity_of(word: Seq<char>) -> Option<Verbosity> {
    if word == "error"@ {
        Some(Verbosity::Error)
    } else if word == "warn"@ {
        Some(Verbosity::Warn)
    } else if word == "info"@ {
        Some(Verbosity::Info)
    } else if word == "debug"@ {
        Some(Verbosity::Debug)
    } else if word == "trace"@ {
        Some(Verbosity::Trace)
    } else {
        None
    }
}

impl Verbosity {
    /// The verbosity that `word` stands for, where it stands for one.
    pub fn from_str(word: &str) -> (verbosity: Option<Verbosity>)
        ensures
            verbosity == verbosity_of(word@),
    {
        if same_text(word, "error") {
            Some(Verbosity::Error)
        } else if same_text(word, "warn") {
            Some(Verbosity::Warn)
        } else if same_text(word, "info") {
            Some(Verbosity::Info)
        } else if same_text(word, "debug") {
            Some(Verbosity::Debug)
        } else if same_text(word, "trace") {
            Some(Verbosity::Trace)
        } else {
            None
        }
    }

    /// The word that stands for this verbosity.
    pub fn name(&self) -> (word: &'static str)
        ensures
            word@ == verbosity_name(*self),
    {
        match self {
            Verbosity::Error => "error",
            Verbosity::Warn => "warn",
            Verbosity::Info => "info",
            Verbosity::Debug => "debug",
            Verbosity::Trace => "trace",
        }
    }

    /// The number of this verbosity: zero for errors alone, four for every
    /// trace.
    pub fn level(&self) -> (level: usize)
        ensures
            level == match *self {
                Verbosity::Error => 0usize,
                Verbosity::Warn => 1usize,
                Verbosity::Info => 2usize,
                Verbosity::Debug => 3usize,
                Verbosity::Trace => 4usize,
            },
    {
        match self {
            Verbosity::Error => 0,
            Verbosity::Warn => 1,
            Verbosity::Info => 2,
            Verbosity::Debug => 3,
            Verbosity::Trace => 4,
        }
    }
}

/// The arguments of a run.
#[derive(Debug)]
pub struct Args {
    /// The encoder program, where it is not the one found by its name.
    pub ffmpeg_path: Option<String>,
    /// The directory that holds one directory for each session.
    pub sessions: Option<String>,
    /// The directory that holds the video files and the offset cache.
    pub video: Option<String>,
    /// The directory that the slices are written to.
    pub output: Option<String>,
    /// The project directory, in which the other directories are looked for
    /// where they are not given.
    pub project: Option<String>,
    /// How much is logged.
    pub verbosity: Verbosity,
}

/// The text of `path`, where there is one.
pub open spec fn path_view(path: Option<String>) -> Option<Seq<char>> {
    match path {
        Some(p) => Some(p@),
        None => None,
    }
}

/// The directory to use: the one that was `given`, else the one called
/// `name` inside the `project`, and none where neither is there.
pub open spec fn directory_spec(given: Option<Seq<char>>, project: Option<Seq<char>>, name: Seq<char>)
    -> Option<Seq<char>> {
    match given {
        Some(dir) => Some(dir),
        None => match project {
            Some(root) => Some(join_spec(root, name)),
            None => None,
        },
    }
}

/// The name of the video file of the session with the id `session_id`.
pub open spec fn video_name_spec(session_id: Seq<char>) -> Seq<char> {
    "video-session-"@ + session_id + ".mp4"@
}

/// The directory to use: the one that was `given`, else the one called `name`
/// inside the `project`.
fn directory(given: &Option<String>, project: &Option<String>, name: &str) -> (dir: Option<String>)
    ensures
        path_view(dir) == directory_spec(path_view(*given), path_view(*project), name@),
{
    match given {
        Some(dir) => Some(dir.clone()),
        None => match project {
            Some(root) => Some(join(root.as_str(), name)),
            None => None,
        },
    }
}

impl Args {
    /// The directory that holds the sessions: the one given, else `sessions`
    /// inside the project.
    pub fn sessions_dir(&self) -> (dir: Option<String>)
        ensures
            path_view(dir) == directory_spec(
                path_view(self.sessions),
                path_view(self.project),
                "sessions"@,
            ),
    {
        directory(&self.sessions, &self.project, "sessions")
    }

    /// The directory that holds the video files: the one given, else `video`
    /// inside the project.
    pub fn video_dir(&self) -> (dir: Option<String>)
        ensures
            path_view(dir) == directory_spec(
                path_view(self.video),
                path_view(self.project),
                "video"@,
            ),
    {
        directory(&self.video, &self.project, "video")
    }

    /// The directory that the slices are written to: the one given, else
    /// `video/slicer_output/` inside the project.
    pub fn output_dir(&self) -> (dir: Option<String>)
        ensures
            path_view(dir) == directory_spec(
                path_view(self.output),
                path_view(self.project),
                "video/slicer_output/"@,
            ),
    {
        directory(&self.output, &self.project, "video/slicer_output/")
    }
}

/// The name of the video file of the session with the id `session_id`.
pub fn video_file_name(session_id: &str) -> (name: String)
    ensures
        name@ == video_name_spec(session_id@),
{
    let mut name = "video-session-".to_owned();
    name.append(session_id);
    name.append(".mp4");
    name
}

} // verus!
