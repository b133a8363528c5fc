//! What the command runner decides: the command line it reports, which output lines it passes
//! on while a command runs, what it reports when the command ends, and the paths it hands to
//! docker compose for a lesson.

use crate::text::{owned, strings_view};
use crate::ui::{evt, evt_view, Evt, EvtView, Screens, StatusMode, UiEvent, UiEventView};
use vstd::prelude::*;

verus! {

/// Result of command execution
#[derive(Debug, Clone)]
pub struct CommandResult {
    pub success: bool,
    pub exit_code: i32,
    pub last_line: String,
}

/// A command's result, by value.
pub type CommandResultView = (bool, i32, Seq<char>);

/// A command's result by value.
pub open spec fn command_result_view(r: CommandResult) -> CommandResultView {
    (r.success, r.exit_code, r.last_line@)
}

/// A copy of a command's result.
pub fn copy_result(r: &CommandResult) -> (c: CommandResult)
    ensures
        command_result_view(c) == command_result_view(*r),
{
    CommandResult { success: r.success, exit_code: r.exit_code, last_line: r.last_line.clone() }
}

/// The words of a command line joined with single spaces.
pub open spec fn joined(words: Seq<Seq<char>>) -> Seq<char>
    decreases words.len(),
{
    if words.len() == 0 {
        Seq::empty()
    } else if words.len() == 1 {
        words[0]
    } else {
        joined(words.drop_last()) + " "@ + words.last()
    }
}

/// The command line reported when a command starts: the program, a space, and its arguments
/// joined with spaces.
pub open spec fn command_line(cmd: Seq<char>, args: Seq<Seq<char>>) -> Seq<char> {
    cmd + " "@ + joined(args)
}

/// The command line reported when a command starts.
pub fn command_info(cmd: &str, args: &Vec<String>) -> (r: String)
    ensures
        r@ == command_line(cmd@, strings_view(args@)),
{
    let mut r = owned(cmd);
    r.append(" ");
    let ghost head = r@;
    let mut i: usize = 0;
    while i < args.len()
        invariant
            i <= args.len(),
            head == cmd@ + " "@,
            r@ == head + joined(strings_view(args@).take(i as int)),
        decreases args.len() - i,
    {
        if i > 0 {
            r.append(" ");
        }
        r.append(args[i].as_str());
        proof {
            let w = strings_view(args@);
            assert(w.take(i + 1).drop_last() =~= w.take(i as int));
            assert(w.take(i + 1).last() == args@[i as int]@);
            if i == 0 {
                assert(w.take(0) =~= Seq::<Seq<char>>::empty());
            }
        }
        i = i + 1;
    }
    proof {
        assert(strings_view(args@).take(args.len() as int) =~= strings_view(args@));
    }
    r
}

/// Which stream a line of output came from.
#[derive(Clone, Copy, Debug, PartialEq, Eq, Structural)]
pub enum Stream {
    Stdout,
    Stderr,
}

/// The last line read so far from each of a running command's streams.
pub struct OutputTracker {
    pub stdout_line: Option<String>,
    pub stderr_line: Option<String>,
    pub trace: bool,
}

/// An optional string, by value.
pub open spec fn opt_text(o: Option<String>) -> Option<Seq<char>> {
    match o {
        Some(s) => Some(s@),
        None => None,
    }
}

impl OutputTracker {
    /// A tracker for a command that has printed nothing yet; `trace` says whether earlier lines
    /// are passed on.
    pub fn new(trace: bool) -> (r: Self)
        ensures
            r.stdout_line is None,
            r.stderr_line is None,
            r.trace == trace,
    {
        OutputTracker { stdout_line: None, stderr_line: None, trace }
    }

    /// Take a line read from a stream: it becomes that stream's last line, and the line it
    /// replaces is returned to be passed on when tracing.
    pub fn line(&mut self, stream: Stream, line: String) -> (r: Option<String>)
        ensures
            final(self).trace == old(self).trace,
            stream == Stream::Stdout ==> opt_text(final(self).stdout_line) == Some(line@)
                && opt_text(final(self).stderr_line) == opt_text(old(self).stderr_line)
                && opt_text(r) == if old(self).trace {
                    opt_text(old(self).stdout_line)
                } else {
                    None
                },
            stream == Stream::Stderr ==> opt_text(final(self).stderr_line) == Some(line@)
                && opt_text(final(self).stdout_line) == opt_text(old(self).stdout_line)
                && opt_text(r) == if old(self).trace {
                    opt_text(old(self).stderr_line)
                } else {
                    None
                },
    {
        let prev = match stream {
            Stream::Stdout => {
                let p = self.stdout_line.take();
                self.stdout_line = Some(line);
                p
            },
            Stream::Stderr => {
                let p = self.stderr_line.take();
                self.stderr_line = Some(line);
                p
            },
        };
        if self.trace {
            prev
        } else {
            None
        }
    }

    /// The result of the command once it has ended: the last line is the last line of its
    /// standard output, or else of its standard error, or else empty; a missing exit code reads
    /// as -1.
    pub fn finish(self, success: bool, code: Option<i32>) -> (r: CommandResult)
        ensures
            r.success == success,
            r.exit_code == match code {
                Some(c) => c,
                None => -1i32,
            },
            r.last_line@ == match opt_text(self.stdout_line) {
                Some(l) => l,
                None => match opt_text(self.stderr_line) {
                    Some(l) => l,
                    None => Seq::empty(),
                },
            },
    {
        let exit_code = match code {
            Some(c) => c,
            None => -1,
        };
        let last_line = match self.stdout_line {
            Some(l) => l,
            None => match self.stderr_line {
                Some(l) => l,
                None => String::new(),
            },
        };
        CommandResult { success, exit_code, last_line }
    }
}

/// The position of the deepest `.workshops` component of a path, if any.
pub open spec fn workshops_index(path: Seq<Seq<char>>) -> Option<int>
    decreases path.len(),
{
    if path.len() == 0 {
        None
    } else if path.last() == ".workshops"@ {
        Some(path.len() - 1)
    } else {
        workshops_index(path.drop_last())
    }
}

/// A deepest `.workshops` component lies in the path and is one.
proof fn lemma_workshops_index(path: Seq<Seq<char>>)
    ensures
        workshops_index(path) matches Some(i) ==> 0 <= i < path.len() && path[i] == ".workshops"@,
    decreases path.len(),
{
    if path.len() > 0 && path.last() != ".workshops"@ {
        lemma_workshops_index(path.drop_last());
    }
}

/// Errors from working out the docker compose paths.
#[derive(Debug, Clone, PartialEq, Eq)]
pub enum PathError {
    /// No component of the lesson's path is `.workshops`.
    NoWorkshopsDirectory,
}

/// The docker compose environment of a lesson, from the components of its directory: the
/// project root is the directory above the deepest `.workshops` component, and the lesson path
/// is the rest of the lesson's directory below it.
pub fn docker_env_paths(lesson_dir: &Vec<String>) -> (r: Result<(Vec<String>, Vec<String>), PathError>)
    ensures
        match workshops_index(strings_view(lesson_dir@)) {
            Some(i) => r matches Ok((root, rel)) && strings_view(root@) == strings_view(
                lesson_dir@,
            ).take(i) && strings_view(rel@) == strings_view(lesson_dir@).skip(i),
            None => r == Err::<(Vec<String>, Vec<String>), PathError>(PathError::NoWorkshopsDirectory),
        },
{
    let ghost path = strings_view(lesson_dir@);
    let mut k = lesson_dir.len();
    proof {
        assert(path.take(k as int) =~= path);
    }
    while k > 0
        invariant
            k <= lesson_dir.len(),
            path == strings_view(lesson_dir@),
            workshops_index(path) == workshops_index(path.take(k as int)),
        decreases k,
    {
        proof {
            assert(path.take(k as int).drop_last() =~= path.take(k - 1));
            assert(path.take(k as int).last() == lesson_dir@[k - 1]@);
        }
        if crate::text::str_eq(lesson_dir[k - 1].as_str(), ".workshops") {
            let mut root: Vec<String> = Vec::new();
            let mut rel: Vec<String> = Vec::new();
            let mut j: usize = 0;
            while j < lesson_dir.len()
                invariant
                    0 < k <= lesson_dir.len(),
                    j <= lesson_dir.len(),
                    path == strings_view(lesson_dir@),
                    j < k ==> strings_view(root@) == path.take(j as int) && rel@.len() == 0,
                    j >= k ==> strings_view(root@) == path.take(k - 1) && strings_view(rel@)
                        == path.subrange(k - 1, j as int),
                decreases lesson_dir.len() - j,
            {
                let part = lesson_dir[j].clone();
                if j < k - 1 {
                    let ghost before = root@;
                    root.push(part);
                    proof {
                        crate::text::lemma_strings_view_push(before, part);
                        assert(path.take(j + 1) =~= path.take(j as int).push(part@));
                    }
                } else {
                    let ghost before = rel@;
                    rel.push(part);
                    proof {
                        crate::text::lemma_strings_view_push(before, part);
                        if j == k - 1 {
                            assert(strings_view(rel@) =~= path.subrange(k - 1, j + 1));
                        } else {
                            assert(path.subrange(k - 1, j + 1) =~= path.subrange(k - 1, j as int).push(part@));
                        }
                    }
                }
                j = j + 1;
            }
            proof {
                assert(path.subrange(k - 1, lesson_dir.len() as int) =~= path.skip(k - 1));
            }
            return Ok((root, rel));
        }
        k = k - 1;
    }
    proof {
        assert(path.take(0) =~= Seq::<Seq<char>>::empty());
    }
    Err(PathError::NoWorkshopsDirectory)
}

/// Events by value.
pub open spec fn evts_view(v: Seq<Evt>) -> Seq<EvtView> {
    Seq::new(v.len(), |i: int| evt_view(v[i]))
}

/// What starting a command tells the screens: the log is shown, and it reports the command
/// line.
pub open spec fn start_events(info: Seq<char>) -> Seq<EvtView> {
    seq![
        (None, Box::new(UiEventView::ShowLog(None))),
        (Some(Screens::Log), Box::new(UiEventView::CommandStarted(StatusMode::Messages, info))),
    ]
}

/// What a command's end tells the screens: the log is hidden again where the command
/// succeeded, and stays shown where it failed.
pub open spec fn end_events(success: bool) -> Seq<EvtView> {
    if success {
        seq![(None, Box::new(UiEventView::HideLog(None)))]
    } else {
        Seq::empty()
    }
}

/// The events sent when a command starts, given its command line.
pub fn command_start_events(info: String) -> (r: Vec<Evt>)
    ensures
        evts_view(r@) == start_events(info@),
{
    let mut r: Vec<Evt> = Vec::new();
    r.push(evt(None, UiEvent::ShowLog(None)));
    r.push(evt(Some(Screens::Log), UiEvent::CommandStarted(StatusMode::Messages, info)));
    proof {
        assert(evts_view(r@) =~= start_events(info@));
    }
    r
}

/// The events sent when a command has ended, given whether it succeeded.
pub fn command_end_events(success: bool) -> (r: Vec<Evt>)
    ensures
        evts_view(r@) == end_events(success),
{
    let mut r: Vec<Evt> = Vec::new();
    if success {
        r.push(evt(None, UiEvent::HideLog(None)));
    }
    proof {
        assert(evts_view(r@) =~= end_events(success));
    }
    r
}

} // verus!
