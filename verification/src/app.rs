//! The application shell's decisions: which screen is shown, whether the log is shown, and
//! what each event addressed to the application leads to. The terminal front end performs the
//! actions and hands the events back.

use crate::languages::{programming, programming_name, spoken, spoken_name};
use crate::models::workshop::{language_path, WorkshopData};
use crate::text::{owned, strings_view};
use crate::ui::{
    copy_event, copy_language_map, copy_opt_evt, event_view, evt, evt_view, opt_evt_view, opt_str,
    Evt, EvtView, Key, Screens, UiEvent, UiEventView,
};
use vstd::prelude::*;

verus! {

/// What the front end does for the application.
pub enum Action {
    /// Stop the application.
    Quit,
    /// Queue an event.
    Send(Evt),
    /// Wait this many milliseconds.
    Sleep(u64),
    /// Hand an event to a screen.
    Forward(Screens, UiEvent),
    /// Hand an event to every screen, in order.
    Broadcast(UiEvent),
    /// Record the spoken language, and whether it is the default.
    SetSpokenLanguage(Option<spoken::Code>, bool),
    /// Record the programming language, and whether it is the default.
    SetProgrammingLanguage(Option<programming::Code>, bool),
    /// Record the workshop.
    SetWorkshop(Option<String>),
    /// Create the workshop's local data directory.
    InitDataDir(String),
    /// Record the lesson.
    SetLesson(Option<String>),
    /// Check a workshop's dependencies, then send one of the two events.
    CheckDeps(String, Option<Evt>, Option<Evt>),
    /// Check the lesson's solution, then send one of the two events.
    CheckSolution(Option<Evt>, Option<Evt>),
    /// Install a workshop from a URL, then send the event.
    InstallWorkshop(String, Option<Evt>),
}

/// An action, by value.
pub enum ActionView {
    Quit,
    Send(EvtView),
    Sleep(u64),
    Forward(Screens, UiEventView),
    Broadcast(UiEventView),
    SetSpokenLanguage(Option<spoken::Code>, bool),
    SetProgrammingLanguage(Option<programming::Code>, bool),
    SetWorkshop(Option<Seq<char>>),
    InitDataDir(Seq<char>),
    SetLesson(Option<Seq<char>>),
    CheckDeps(Seq<char>, Option<EvtView>, Option<EvtView>),
    CheckSolution(Option<EvtView>, Option<EvtView>),
    InstallWorkshop(Seq<char>, Option<EvtView>),
}

/// An action by value.
pub open spec fn action_view(a: Action) -> ActionView {
    match a {
        Action::Quit => ActionView::Quit,
        Action::Send(e) => ActionView::Send(evt_view(e)),
        Action::Sleep(d) => ActionView::Sleep(d),
        Action::Forward(s, e) => ActionView::Forward(s, event_view(e)),
        Action::Broadcast(e) => ActionView::Broadcast(event_view(e)),
        Action::SetSpokenLanguage(l, d) => ActionView::SetSpokenLanguage(l, d),
        Action::SetProgrammingLanguage(l, d) => ActionView::SetProgrammingLanguage(l, d),
        Action::SetWorkshop(w) => ActionView::SetWorkshop(opt_str(w)),
        Action::InitDataDir(w) => ActionView::InitDataDir(w@),
        Action::SetLesson(l) => ActionView::SetLesson(opt_str(l)),
        Action::CheckDeps(w, s, f) => ActionView::CheckDeps(w@, opt_evt_view(s), opt_evt_view(f)),
        Action::CheckSolution(s, f) => ActionView::CheckSolution(opt_evt_view(s), opt_evt_view(f)),
        Action::InstallWorkshop(u, n) => ActionView::InstallWorkshop(u@, opt_evt_view(n)),
    }
}

/// Actions by value.
pub open spec fn actions_view(s: Seq<Action>) -> Seq<ActionView> {
    Seq::new(s.len(), |i: int| action_view(s[i]))
}

/// The application shell's state.
pub struct App {
    log: bool,
    screen: Screens,
    quit: bool,
}

/// The shell's state, by value: whether the log is shown, the screen shown, and whether the
/// application is quitting.
pub struct AppView {
    pub log: bool,
    pub screen: Screens,
    pub quit: bool,
}

impl View for App {
    type V = AppView;

    closed spec fn view(&self) -> AppView {
        AppView { log: self.log, screen: self.screen, quit: self.quit }
    }
}

/// Queue the event, if there is one.
pub open spec fn send_opt(n: Option<EvtView>) -> Seq<ActionView> {
    match n {
        Some(e) => seq![ActionView::Send(e)],
        None => Seq::empty(),
    }
}

/// An addressed event by value.
pub open spec fn to(screen: Option<Screens>, e: UiEventView) -> EvtView {
    (screen, Box::new(e))
}

/// The dialog that asks whether a language becomes the default, with the events for "yes" and
/// "no".
pub open spec fn ask_default(yes: UiEventView, no: UiEventView) -> EvtView {
    to(
        Some(Screens::SetDefault),
        UiEventView::SetDefault("Set as Default?"@, Some(to(None, yes)), Some(to(None, no))),
    )
}

/// The shell's state after an event and the actions it leads to, given the recorded spoken and
/// programming languages.
pub open spec fn ui_step(
    v: AppView,
    screen: Option<Screens>,
    e: UiEventView,
    spoken: Option<spoken::Code>,
    programming: Option<programming::Code>,
) -> (AppView, Seq<ActionView>) {
    match screen {
        Some(dest) => (v, seq![ActionView::Forward(dest, e)]),
        None => match e {
            UiEventView::Quit => (AppView { quit: true, ..v }, seq![ActionView::Quit]),
            UiEventView::ToggleLog => (AppView { log: !v.log, ..v }, Seq::empty()),
            UiEventView::ShowLog(n) => (AppView { log: true, ..v }, send_opt(n)),
            UiEventView::HideLog(n) => (AppView { log: false, ..v }, send_opt(n)),
            UiEventView::Delay(d, n) => (v, seq![ActionView::Sleep(d)] + send_opt(n)),
            UiEventView::Show(s) => (AppView { screen: s, ..v }, Seq::empty()),
            UiEventView::SetSpokenLanguage(l, d, n) => match d {
                Some(d) => (v, seq![ActionView::SetSpokenLanguage(l, d)] + send_opt(n)),
                None => (
                    v,
                    seq![
                        ActionView::SetSpokenLanguage(l, false),
                        ActionView::Send(
                            ask_default(
                                UiEventView::SetSpokenLanguage(l, Some(true), n),
                                UiEventView::SetSpokenLanguage(l, Some(false), n),
                            ),
                        ),
                    ],
                ),
            },
            UiEventView::SetProgrammingLanguage(l, d, n) => match d {
                Some(d) => (v, seq![ActionView::SetProgrammingLanguage(l, d)] + send_opt(n)),
                None => (
                    v,
                    seq![
                        ActionView::SetProgrammingLanguage(l, false),
                        ActionView::Send(
                            ask_default(
                                UiEventView::SetProgrammingLanguage(l, Some(true), n),
                                UiEventView::SetProgrammingLanguage(l, Some(false), n),
                            ),
                        ),
                    ],
                ),
            },
            UiEventView::SetWorkshop(w, langs) => match w {
                Some(w) => {
                    let again = Some(to(None, UiEventView::SetWorkshop(Some(w), langs)));
                    if spoken is None {
                        (
                            v,
                            seq![
                                ActionView::Send(
                                    to(
                                        Some(Screens::Spoken),
                                        UiEventView::ChangeSpokenLanguage(langs, None, false, again),
                                    ),
                                ),
                            ],
                        )
                    } else if programming is None {
                        (
                            v,
                            seq![
                                ActionView::Send(
                                    to(
                                        Some(Screens::Programming),
                                        UiEventView::ChangeProgrammingLanguage(
                                            langs,
                                            None,
                                            false,
                                            again,
                                        ),
                                    ),
                                ),
                            ],
                        )
                    } else {
                        let load = to(Some(Screens::Lessons), UiEventView::LoadLessons);
                        let hide = to(None, UiEventView::HideLog(Some(load)));
                        (
                            v,
                            seq![
                                ActionView::SetWorkshop(Some(w)),
                                ActionView::InitDataDir(w),
                                ActionView::Send(to(None, UiEventView::CheckDeps(w, Some(hide), None))),
                            ],
                        )
                    }
                },
                None => (
                    v,
                    seq![
                        ActionView::SetWorkshop(None),
                        ActionView::Send(to(Some(Screens::Workshops), UiEventView::LoadWorkshops)),
                    ],
                ),
            },
            UiEventView::SetLesson(l) => match l {
                Some(l) => (
                    v,
                    seq![
                        ActionView::SetLesson(Some(l)),
                        ActionView::Send(to(Some(Screens::Lesson), UiEventView::LoadLesson)),
                    ],
                ),
                None => (
                    v,
                    seq![
                        ActionView::SetLesson(None),
                        ActionView::Send(to(Some(Screens::Lessons), UiEventView::LoadLessons)),
                    ],
                ),
            },
            UiEventView::CheckDeps(w, s, f) => (v, seq![ActionView::CheckDeps(w, s, f)]),
            UiEventView::CheckSolution(s, f) => (v, seq![ActionView::CheckSolution(s, f)]),
            UiEventView::InstallWorkshop(u, n) => (v, seq![ActionView::InstallWorkshop(u, n)]),
            _ => (v, seq![ActionView::Broadcast(e)]),
        },
    }
}

/// Where a key goes.
#[derive(Clone, Copy, Debug, PartialEq, Eq, Structural)]
pub enum KeyRoute {
    /// Quit the application.
    Quit,
    /// Queue the event that toggles the log.
    ToggleLog,
    /// Hand the key to a screen.
    Screen(Screens),
}

/// Where a key goes: `q` quits and the backquote toggles the log on every screen; any other key
/// goes to the log where it is shown, else to the screen shown.
pub open spec fn key_route(v: AppView, key: Key) -> KeyRoute {
    if key == Key::Char('q') || key == Key::Char('Q') {
        KeyRoute::Quit
    } else if key == Key::Char('`') {
        KeyRoute::ToggleLog
    } else if v.log {
        KeyRoute::Screen(Screens::Log)
    } else {
        KeyRoute::Screen(v.screen)
    }
}

/// Queue the event, if there is one.
fn send_opt_exec(n: Option<Evt>) -> (r: Vec<Action>)
    ensures
        actions_view(r@) == send_opt(opt_evt_view(n)),
{
    let mut r: Vec<Action> = Vec::new();
    match n {
        Some(e) => {
            r.push(Action::Send(e));
        },
        None => {},
    }
    proof {
        assert(actions_view(r@) =~= send_opt(opt_evt_view(n)));
    }
    r
}

/// One action.
fn one(a: Action) -> (r: Vec<Action>)
    ensures
        actions_view(r@) == seq![action_view(a)],
{
    let mut r: Vec<Action> = Vec::new();
    r.push(a);
    proof {
        assert(actions_view(r@) =~= seq![action_view(a)]);
    }
    r
}

/// Two actions.
fn two(a: Action, b: Action) -> (r: Vec<Action>)
    ensures
        actions_view(r@) == seq![action_view(a), action_view(b)],
{
    let mut r: Vec<Action> = Vec::new();
    r.push(a);
    r.push(b);
    proof {
        assert(actions_view(r@) =~= seq![action_view(a), action_view(b)]);
    }
    r
}

/// An action followed by queueing the event, if there is one.
fn then_send(a: Action, n: Option<Evt>) -> (r: Vec<Action>)
    ensures
        actions_view(r@) == seq![action_view(a)] + send_opt(opt_evt_view(n)),
{
    let mut r: Vec<Action> = Vec::new();
    r.push(a);
    match n {
        Some(e) => {
            r.push(Action::Send(e));
        },
        None => {},
    }
    proof {
        assert(actions_view(r@) =~= seq![action_view(a)] + send_opt(opt_evt_view(n)));
    }
    r
}

impl App {
    /// A shell showing the workshops, with the log hidden.
    pub fn new() -> (r: Self)
        ensures
            r@ == (AppView { log: false, screen: Screens::Workshops, quit: false }),
    {
        App { log: false, screen: Screens::Workshops, quit: false }
    }

    /// Whether the log is shown.
    pub fn log_shown(&self) -> (r: bool)
        ensures
            r == self@.log,
    {
        self.log
    }

    /// The screen shown.
    pub fn screen(&self) -> (r: Screens)
        ensures
            r == self@.screen,
    {
        self.screen
    }

    /// Whether the application is quitting.
    pub fn quitting(&self) -> (r: bool)
        ensures
            r == self@.quit,
    {
        self.quit
    }

    /// The screen drawn: the log where it is shown, else the screen shown.
    pub fn drawn_screen(&self) -> (r: Screens)
        ensures
            r == if self@.log {
                Screens::Log
            } else {
                self@.screen
            },
    {
        if self.log {
            Screens::Log
        } else {
            self.screen
        }
    }

    /// Where a key goes.
    pub fn handle_input_event(&mut self, key: Key) -> (r: KeyRoute)
        ensures
            r == key_route(old(self)@, key),
            final(self)@ == if r == KeyRoute::Quit {
                AppView { quit: true, ..old(self)@ }
            } else {
                old(self)@
            },
    {
        match key {
            Key::Char('q') | Key::Char('Q') => {
                self.quit = true;
                KeyRoute::Quit
            },
            Key::Char('`') => KeyRoute::ToggleLog,
            _ => {
                if self.log {
                    KeyRoute::Screen(Screens::Log)
                } else {
                    KeyRoute::Screen(self.screen)
                }
            },
        }
    }

    /// handle UI events
    pub fn handle_ui_event(
        &mut self,
        screen: Option<Screens>,
        event: UiEvent,
        spoken_language: Option<spoken::Code>,
        programming_language: Option<programming::Code>,
    ) -> (r: Vec<Action>)
        ensures
            (final(self)@, actions_view(r@)) == ui_step(
                old(self)@,
                screen,
                event_view(event),
                spoken_language,
                programming_language,
            ),
    {
        let ghost e = event_view(event);
        if let Some(dest) = screen {
            return one(Action::Forward(dest, event));
        }
        match event {
            UiEvent::Quit => {
                self.quit = true;
                one(Action::Quit)
            },
            UiEvent::ToggleLog => {
                self.log = !self.log;
                Vec::new()
            },
            UiEvent::ShowLog(next) => {
                self.log = true;
                send_opt_exec(next)
            },
            UiEvent::HideLog(next) => {
                self.log = false;
                send_opt_exec(next)
            },
            UiEvent::Delay(duration, next) => then_send(Action::Sleep(duration), next),
            UiEvent::Show(s) => {
                self.screen = s;
                Vec::new()
            },
            UiEvent::SetSpokenLanguage(lang, default, next) => match default {
                Some(d) => then_send(Action::SetSpokenLanguage(lang, d), next),
                None => {
                    let yes = evt(None, UiEvent::SetSpokenLanguage(lang, Some(true), copy_opt_evt(&next)));
                    let no = evt(None, UiEvent::SetSpokenLanguage(lang, Some(false), next));
                    let dialog = evt(
                        Some(Screens::SetDefault),
                        UiEvent::SetDefault(owned("Set as Default?"), Some(yes), Some(no)),
                    );
                    two(Action::SetSpokenLanguage(lang, false), Action::Send(dialog))
                },
            },
            UiEvent::SetProgrammingLanguage(lang, default, next) => match default {
                Some(d) => then_send(Action::SetProgrammingLanguage(lang, d), next),
                None => {
                    let yes = evt(
                        None,
                        UiEvent::SetProgrammingLanguage(lang, Some(true), copy_opt_evt(&next)),
                    );
                    let no = evt(None, UiEvent::SetProgrammingLanguage(lang, Some(false), next));
                    let dialog = evt(
                        Some(Screens::SetDefault),
                        UiEvent::SetDefault(owned("Set as Default?"), Some(yes), Some(no)),
                    );
                    two(Action::SetProgrammingLanguage(lang, false), Action::Send(dialog))
                },
            },
            UiEvent::SetWorkshop(workshop, all_languages) => match workshop {
                Some(w) => {
                    if spoken_language.is_none() {
                        let again = evt(
                            None,
                            UiEvent::SetWorkshop(Some(w), copy_language_map(&all_languages)),
                        );
                        let change = evt(
                            Some(Screens::Spoken),
                            UiEvent::ChangeSpokenLanguage(all_languages, None, false, Some(again)),
                        );
                        one(Action::Send(change))
                    } else if programming_language.is_none() {
                        let again = evt(
                            None,
                            UiEvent::SetWorkshop(Some(w), copy_language_map(&all_languages)),
                        );
                        let change = evt(
                            Some(Screens::Programming),
                            UiEvent::ChangeProgrammingLanguage(all_languages, None, false, Some(again)),
                        );
                        one(Action::Send(change))
                    } else {
                        let load = evt(Some(Screens::Lessons), UiEvent::LoadLessons);
                        let hide = evt(None, UiEvent::HideLog(Some(load)));
                        let check = evt(None, UiEvent::CheckDeps(w.clone(), Some(hide), None));
                        let mut r: Vec<Action> = Vec::new();
                        r.push(Action::SetWorkshop(Some(w.clone())));
                        r.push(Action::InitDataDir(w.clone()));
                        r.push(Action::Send(check));
                        proof {
                            assert(actions_view(r@) =~= ui_step(
                                old(self)@,
                                screen,
                                e,
                                spoken_language,
                                programming_language,
                            ).1);
                        }
                        r
                    }
                },
                None => two(
                    Action::SetWorkshop(None),
                    Action::Send(evt(Some(Screens::Workshops), UiEvent::LoadWorkshops)),
                ),
            },
            UiEvent::SetLesson(lesson) => match lesson {
                Some(l) => two(
                    Action::SetLesson(Some(l)),
                    Action::Send(evt(Some(Screens::Lesson), UiEvent::LoadLesson)),
                ),
                None => two(
                    Action::SetLesson(None),
                    Action::Send(evt(Some(Screens::Lessons), UiEvent::LoadLessons)),
                ),
            },
            UiEvent::CheckDeps(w, s, f) => one(Action::CheckDeps(w, s, f)),
            UiEvent::CheckSolution(s, f) => one(Action::CheckSolution(s, f)),
            UiEvent::InstallWorkshop(u, n) => one(Action::InstallWorkshop(u, n)),
            other => one(Action::Broadcast(other)),
        }
    }
}

/// Toggling the log twice leaves the shell as it was.
pub proof fn lemma_toggle_log_twice(
    v: AppView,
    spoken: Option<spoken::Code>,
    programming: Option<programming::Code>,
)
    ensures
        ui_step(
            ui_step(v, None, UiEventView::ToggleLog, spoken, programming).0,
            None,
            UiEventView::ToggleLog,
            spoken,
            programming,
        ).0 == v,
{
}

/// An event addressed to a screen goes to that screen alone and leaves the shell as it was.
pub proof fn lemma_addressed_events_pass_through(
    v: AppView,
    dest: Screens,
    e: UiEventView,
    spoken: Option<spoken::Code>,
    programming: Option<programming::Code>,
)
    ensures
        ui_step(v, Some(dest), e, spoken, programming) == (v, seq![ActionView::Forward(dest, e)]),
{
}

/// Choosing a language without saying whether it is the default records it as not the default
/// and asks, where both answers set the same language again, now with the answer, and lead on
/// to the same next event.
pub proof fn lemma_language_choice_asks_default(
    v: AppView,
    l: Option<spoken::Code>,
    n: Option<EvtView>,
    spoken: Option<spoken::Code>,
    programming: Option<programming::Code>,
)
    ensures
        ui_step(v, None, UiEventView::SetSpokenLanguage(l, None, n), spoken, programming).1[0]
            == ActionView::SetSpokenLanguage(l, false),
        ui_step(v, None, UiEventView::SetSpokenLanguage(l, None, n), spoken, programming).1[1]
            == ActionView::Send(
            ask_default(
                UiEventView::SetSpokenLanguage(l, Some(true), n),
                UiEventView::SetSpokenLanguage(l, Some(false), n),
            ),
        ),
        ui_step(v, None, UiEventView::SetSpokenLanguage(l, Some(true), n), spoken, programming).1
            == seq![ActionView::SetSpokenLanguage(l, true)] + send_opt(n),
{
}

/// Work that runs outside the application while it goes on.
pub enum Job {
    /// Run a workshop's dependency check script with Python, then send one of the events.
    Deps { python: String, script: Vec<String>, success: Option<Evt>, failed: Option<Evt> },
    /// Start the lesson's services with docker compose and run its check with Python, then send
    /// one of the events.
    Solution {
        docker_compose: String,
        python: String,
        lesson_dir: Vec<String>,
        success: Option<Evt>,
        failed: Option<Evt>,
    },
    /// Clone a workshop with git, then send the event.
    Install { git: String, url: String, next: Option<Evt> },
}

/// A job, by value.
pub enum JobView {
    Deps { python: Seq<char>, script: Seq<Seq<char>>, success: Option<EvtView>, failed: Option<EvtView> },
    Solution {
        docker_compose: Seq<char>,
        python: Seq<char>,
        lesson_dir: Seq<Seq<char>>,
        success: Option<EvtView>,
        failed: Option<EvtView>,
    },
    Install { git: Seq<char>, url: Seq<char>, next: Option<EvtView> },
}

/// A job by value.
pub open spec fn job_view(j: Job) -> JobView {
    match j {
        Job::Deps { python, script, success, failed } => JobView::Deps {
            python: python@,
            script: strings_view(script@),
            success: opt_evt_view(success),
            failed: opt_evt_view(failed),
        },
        Job::Solution { docker_compose, python, lesson_dir, success, failed } => JobView::Solution {
            docker_compose: docker_compose@,
            python: python@,
            lesson_dir: strings_view(lesson_dir@),
            success: opt_evt_view(success),
            failed: opt_evt_view(failed),
        },
        Job::Install { git, url, next } => JobView::Install {
            git: git@,
            url: url@,
            next: opt_evt_view(next),
        },
    }
}

/// A step of a check: queue an event, or start a job.
pub enum Step {
    Send(Evt),
    Run(Job),
}

/// A step, by value.
pub enum StepView {
    Send(EvtView),
    Run(JobView),
}

/// Steps by value.
pub open spec fn steps_view(s: Seq<Step>) -> Seq<StepView> {
    Seq::new(
        s.len(),
        |i: int|
            match s[i] {
                Step::Send(e) => StepView::Send(evt_view(e)),
                Step::Run(j) => StepView::Run(job_view(j)),
            },
    )
}

/// What a check cannot start without.
#[derive(Clone, Copy, Debug, PartialEq, Eq, Structural)]
pub enum MissingTool {
    NoPythonExecutable,
    NoDockerComposeExecutable,
    NoGitExecutable,
}

/// Queue the event, if there is one.
pub open spec fn send_step(n: Option<EvtView>) -> Seq<StepView> {
    match n {
        Some(e) => seq![StepView::Send(e)],
        None => Seq::empty(),
    }
}

/// Show the log, then log a message.
pub open spec fn announce(message: Seq<char>) -> Seq<StepView> {
    seq![
        StepView::Send(to(None, UiEventView::ShowLog(None))),
        StepView::Send(to(Some(Screens::Log), UiEventView::Log(message))),
    ]
}

/// The message logged when a dependency check starts.
pub open spec fn deps_message(
    workshop: Seq<char>,
    spoken: Option<spoken::Code>,
    programming: Option<programming::Code>,
) -> Seq<char> {
    "r Running dependency check: "@ + workshop + ", "@ + match spoken {
        Some(c) => spoken::english_name(c),
        None => "Any"@,
    } + ", "@ + match programming {
        Some(c) => programming::language_name(c),
        None => "Any"@,
    }
}

/// Queue the event, if there is one.
fn send_step_exec(n: Option<Evt>) -> (r: Vec<Step>)
    ensures
        steps_view(r@) == send_step(opt_evt_view(n)),
{
    let mut r: Vec<Step> = Vec::new();
    match n {
        Some(e) => r.push(Step::Send(e)),
        None => {},
    }
    proof {
        assert(steps_view(r@) =~= send_step(opt_evt_view(n)));
    }
    r
}

/// Show the log, log a message, then start a job.
fn announce_and_run(message: String, job: Job) -> (r: Vec<Step>)
    ensures
        steps_view(r@) == announce(message@) + seq![StepView::Run(job_view(job))],
{
    let mut r: Vec<Step> = Vec::new();
    r.push(Step::Send(evt(None, UiEvent::ShowLog(None))));
    r.push(Step::Send(evt(Some(Screens::Log), UiEvent::Log(message))));
    r.push(Step::Run(job));
    proof {
        assert(steps_view(r@) =~= announce(message@) + seq![StepView::Run(job_view(job))]);
    }
    r
}

/// Show the log, log a message, then queue the event, if there is one.
fn announce_and_send(message: String, n: Option<Evt>) -> (r: Vec<Step>)
    ensures
        steps_view(r@) == announce(message@) + send_step(opt_evt_view(n)),
{
    let mut r: Vec<Step> = Vec::new();
    r.push(Step::Send(evt(None, UiEvent::ShowLog(None))));
    r.push(Step::Send(evt(Some(Screens::Log), UiEvent::Log(message))));
    match n {
        Some(e) => r.push(Step::Send(e)),
        None => {},
    }
    proof {
        assert(steps_view(r@) =~= announce(message@) + send_step(opt_evt_view(n)));
    }
    r
}

/// What a dependency check does once the workshop's data has been looked up: where there is
/// none, it sends the failure event; it needs Python; it shows the log, logs what it checks,
/// and runs the workshop's dependency script, or sends the failure event where the script's
/// path cannot be made.
pub fn check_deps_plan(
    workshop: &str,
    data: Option<&WorkshopData>,
    data_dir: Option<&str>,
    spoken_language: Option<spoken::Code>,
    programming_language: Option<programming::Code>,
    python: Option<String>,
    success: Option<Evt>,
    failed: Option<Evt>,
) -> (r: Result<Vec<Step>, MissingTool>)
    ensures
        match data {
            None => r is Ok && steps_view(r->Ok_0@) == send_step(opt_evt_view(failed)),
            Some(d) => match python {
                None => r == Err::<Vec<Step>, MissingTool>(MissingTool::NoPythonExecutable),
                Some(py) => r is Ok && steps_view(r->Ok_0@) == announce(
                    deps_message(workshop@, spoken_language, programming_language),
                ) + match data_dir {
                    Some(dir) => seq![
                        StepView::Run(
                            JobView::Deps {
                                python: py@,
                                script: language_path(
                                    dir@,
                                    d@,
                                    spoken_language,
                                    programming_language,
                                ).push("deps.py"@),
                                success: opt_evt_view(success),
                                failed: opt_evt_view(failed),
                            },
                        ),
                    ],
                    None => send_step(opt_evt_view(failed)),
                },
            },
        },
{
    let d = match data {
        Some(d) => d,
        None => return Ok(send_step_exec(failed)),
    };
    let py = match python {
        Some(py) => py,
        None => return Err(MissingTool::NoPythonExecutable),
    };
    let mut message = owned("r Running dependency check: ");
    message.append(workshop);
    message.append(", ");
    message.append(spoken_name(spoken_language).as_str());
    message.append(", ");
    message.append(programming_name(programming_language).as_str());
    match d.get_deps_script_path(data_dir, spoken_language, programming_language) {
        Ok(script) => Ok(
            announce_and_run(message, Job::Deps { python: py, script, success, failed }),
        ),
        Err(_) => Ok(announce_and_send(message, failed)),
    }
}

/// What a solution check does once the workshop's data has been looked up: it needs Python and
/// docker compose; without a workshop and a lesson, or the workshop's data, it sends the
/// failure event; otherwise it shows the log, logs the lesson it checks, and runs the check in
/// the lesson's directory, or sends the failure event where that path cannot be made.
pub fn check_solution_plan(
    workshop: Option<&str>,
    lesson: Option<&str>,
    data: Option<&WorkshopData>,
    data_dir: Option<&str>,
    spoken_language: Option<spoken::Code>,
    programming_language: Option<programming::Code>,
    python: Option<String>,
    docker_compose: Option<String>,
    success: Option<Evt>,
    failed: Option<Evt>,
) -> (r: Result<Vec<Step>, MissingTool>)
    ensures
        python is None ==> r == Err::<Vec<Step>, MissingTool>(MissingTool::NoPythonExecutable),
        python is Some && docker_compose is None ==> r == Err::<Vec<Step>, MissingTool>(
            MissingTool::NoDockerComposeExecutable,
        ),
        python is Some && docker_compose is Some ==> r is Ok && steps_view(r->Ok_0@) == if workshop
            is Some && lesson is Some && data is Some {
            announce("r Running solution check: "@ + lesson.unwrap()@) + match data_dir {
                Some(dir) => seq![
                    StepView::Run(
                        JobView::Solution {
                            docker_compose: docker_compose.unwrap()@,
                            python: python.unwrap()@,
                            lesson_dir: language_path(
                                dir@,
                                data.unwrap()@,
                                spoken_language,
                                programming_language,
                            ).push(lesson.unwrap()@),
                            success: opt_evt_view(success),
                            failed: opt_evt_view(failed),
                        },
                    ),
                ],
                None => send_step(opt_evt_view(failed)),
            }
        } else {
            send_step(opt_evt_view(failed))
        },
{
    let py = match python {
        Some(py) => py,
        None => return Err(MissingTool::NoPythonExecutable),
    };
    let dc = match docker_compose {
        Some(dc) => dc,
        None => return Err(MissingTool::NoDockerComposeExecutable),
    };
    match (workshop, lesson, data) {
        (Some(_), Some(l), Some(d)) => {
            let mut message = owned("r Running solution check: ");
            message.append(l);
            match d.get_lesson_dir_path(data_dir, l, spoken_language, programming_language) {
                Ok(dir) => Ok(
                    announce_and_run(
                        message,
                        Job::Solution {
                            docker_compose: dc,
                            python: py,
                            lesson_dir: dir,
                            success,
                            failed,
                        },
                    ),
                ),
                Err(_) => Ok(announce_and_send(message, failed)),
            }
        },
        _ => Ok(send_step_exec(failed)),
    }
}

/// What installing a workshop does: it needs git; it shows the log, logs the URL, and clones
/// the workshop.
pub fn install_plan(url: String, git: Option<String>, next: Option<Evt>) -> (r: Result<
    Vec<Step>,
    MissingTool,
>)
    ensures
        match git {
            None => r == Err::<Vec<Step>, MissingTool>(MissingTool::NoGitExecutable),
            Some(g) => r is Ok && steps_view(r->Ok_0@) == announce(
                "r Installing workshop from: "@ + url@,
            ) + seq![
                StepView::Run(
                    JobView::Install { git: g@, url: url@, next: opt_evt_view(next) },
                ),
            ],
        },
{
    let g = match git {
        Some(g) => g,
        None => return Err(MissingTool::NoGitExecutable),
    };
    let mut message = owned("r Installing workshop from: ");
    message.append(url.as_str());
    Ok(announce_and_run(message, Job::Install { git: g, url, next }))
}

} // verus!
