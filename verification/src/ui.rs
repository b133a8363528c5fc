//! The terminal UI's vocabulary: its screens, the keys it reacts to, the events its screens
//! send one another, and the modes of its status bar.

use crate::command::{command_result_view, copy_result, CommandResult, CommandResultView};
use crate::languages::{programming, spoken};
use crate::models::workshop::{map_view, LanguageEntry, LanguageMap};
use crate::text::copy_vec;
use vstd::prelude::*;

verus! {

/// The screens
#[derive(Clone, Copy, Debug, PartialEq, Eq, Hash, Structural)]
pub enum Screens {
    Welcome,
    Workshops,
    Log,
    License,
    Spoken,
    Programming,
    SetDefault,
    Lessons,
    Lesson,
}

impl Default for Screens {
    fn default() -> (r: Self)
        ensures
            r == Screens::Welcome,
    {
        Screens::Welcome
    }
}

/// The screen with a number, in the order the screens are declared.
pub open spec fn screen_of(value: u8) -> Screens
    recommends
        value <= 8,
{
    if value == 0 {
        Screens::Welcome
    } else if value == 1 {
        Screens::Workshops
    } else if value == 2 {
        Screens::Log
    } else if value == 3 {
        Screens::License
    } else if value == 4 {
        Screens::Spoken
    } else if value == 5 {
        Screens::Programming
    } else if value == 6 {
        Screens::SetDefault
    } else if value == 7 {
        Screens::Lessons
    } else {
        Screens::Lesson
    }
}

/// The number of a screen, in the order the screens are declared.
pub open spec fn screen_number(s: Screens) -> u8 {
    match s {
        Screens::Welcome => 0,
        Screens::Workshops => 1,
        Screens::Log => 2,
        Screens::License => 3,
        Screens::Spoken => 4,
        Screens::Programming => 5,
        Screens::SetDefault => 6,
        Screens::Lessons => 7,
        Screens::Lesson => 8,
    }
}

/// The name a screen is displayed with.
pub open spec fn screen_name(s: Screens) -> Seq<char> {
    match s {
        Screens::Welcome => "Welcome"@,
        Screens::Workshops => "Workshops"@,
        Screens::Log => "Log"@,
        Screens::License => "License"@,
        Screens::Spoken => "Spoken"@,
        Screens::Programming => "Programming"@,
        Screens::SetDefault => "Set Default"@,
        Screens::Lessons => "Lessons"@,
        Screens::Lesson => "Lesson"@,
    }
}

impl Screens {
    /// All screens, in order.
    pub fn iter() -> (r: Vec<Screens>)
        ensures
            r@.len() == 9,
            forall|i: int| 0 <= i < 9 ==> r@[i] == screen_of(i as u8),
    {
        let mut r: Vec<Screens> = Vec::new();
        let mut i: u8 = 0;
        while i <= 8
            invariant
                i <= 9,
                r@.len() == i,
                forall|j: int| 0 <= j < i ==> r@[j] == screen_of(j as u8),
            decreases 9 - i,
        {
            r.push(Screens::from_u8(i));
            i = i + 1;
        }
        r
    }

    /// The screen with a number.
    pub fn from_u8(value: u8) -> (r: Screens)
        requires
            value <= 8,
        ensures
            r == screen_of(value),
    {
        match value {
            0 => Screens::Welcome,
            1 => Screens::Workshops,
            2 => Screens::Log,
            3 => Screens::License,
            4 => Screens::Spoken,
            5 => Screens::Programming,
            6 => Screens::SetDefault,
            7 => Screens::Lessons,
            _ => Screens::Lesson,
        }
    }

    /// The number of a screen.
    pub fn to_u8(self) -> (r: u8)
        ensures
            r == screen_number(self),
    {
        match self {
            Screens::Welcome => 0,
            Screens::Workshops => 1,
            Screens::Log => 2,
            Screens::License => 3,
            Screens::Spoken => 4,
            Screens::Programming => 5,
            Screens::SetDefault => 6,
            Screens::Lessons => 7,
            Screens::Lesson => 8,
        }
    }

    /// The name the screen is displayed with.
    pub fn name(self) -> (r: &'static str)
        ensures
            r@ == screen_name(self),
    {
        match self {
            Screens::Welcome => "Welcome",
            Screens::Workshops => "Workshops",
            Screens::Log => "Log",
            Screens::License => "License",
            Screens::Spoken => "Spoken",
            Screens::Programming => "Programming",
            Screens::SetDefault => "Set Default",
            Screens::Lessons => "Lessons",
            Screens::Lesson => "Lesson",
        }
    }
}

/// A screen's number gives the screen back, and each number up to eight names a screen whose
/// number it is.
pub proof fn lemma_screen_numbers(s: Screens, value: u8)
    ensures
        screen_of(screen_number(s)) == s,
        screen_number(s) <= 8,
        value <= 8 ==> screen_number(screen_of(value)) == value,
{
}

/// A key the screens react to.
#[derive(Clone, Copy, Debug, PartialEq, Eq, Structural)]
pub enum Key {
    Char(char),
    Up,
    Down,
    PageUp,
    PageDown,
    Enter,
    Esc,
    /// The tab key; `true` when shift is held.
    Tab(bool),
    /// Any other key.
    Other,
}

/// What the status bar shows.
#[derive(Clone, Copy, Debug, PartialEq, Eq, Structural)]
pub enum StatusMode {
    Blank,
    Messages,
    Progress,
}

impl Default for StatusMode {
    fn default() -> (r: Self)
        ensures
            r == StatusMode::Blank,
    {
        StatusMode::Blank
    }
}

/// An event addressed to a screen, or to the application itself where no screen is named.
pub type Evt = (Option<Screens>, Box<UiEvent>);

/// UI events
pub enum UiEvent {
    /// log event
    Log(String),
    /// toggle the log
    ToggleLog,
    /// show the log
    ShowLog(Option<Evt>),
    /// hide the log
    HideLog(Option<Evt>),
    /// wait this many milliseconds, then send the event
    Delay(u64, Option<Evt>),
    /// quit the application
    Quit,
    /// show the specified screen
    Show(Screens),
    /// load the workshops
    LoadWorkshops,
    /// set the workshop
    SetWorkshop(Option<String>, Vec<LanguageEntry>),
    /// load the license for a workshop
    ShowLicense(String),
    /// change the spoken language: the languages, the current one, whether "Any" is offered,
    /// and the event to send once one is chosen
    ChangeSpokenLanguage(Vec<LanguageEntry>, Option<spoken::Code>, bool, Option<Evt>),
    /// set the spoken language, whether it becomes the default (unknown yet where `None`), and
    /// the event to send after
    SetSpokenLanguage(Option<spoken::Code>, Option<bool>, Option<Evt>),
    /// change the programming language
    ChangeProgrammingLanguage(Vec<LanguageEntry>, Option<programming::Code>, bool, Option<Evt>),
    /// set the programming language
    SetProgrammingLanguage(Option<programming::Code>, Option<bool>, Option<Evt>),
    /// initialize the "set default" dialog: its title, and the events for "yes" and "no"
    SetDefault(String, Option<Evt>, Option<Evt>),
    /// load lessons
    LoadLessons,
    /// set the lesson
    SetLesson(Option<String>),
    /// load the selected lesson
    LoadLesson,
    /// check dependencies for the specified workshop
    CheckDeps(String, Option<Evt>, Option<Evt>),
    /// check the solution to the lesson
    CheckSolution(Option<Evt>, Option<Evt>),
    /// the solution is correct
    SolutionComplete,
    /// the solution is incorrect
    SolutionIncomplete,
    /// command started
    CommandStarted(StatusMode, String),
    /// command output, with a progress percentage where there is one
    CommandOutput(String, Option<u8>),
    /// command completed
    CommandCompleted(CommandResult, Option<Evt>, Option<Evt>),
    /// install a workshop from a URL
    InstallWorkshop(String, Option<Evt>),
}

/// An addressed event, by value.
pub type EvtView = (Option<Screens>, Box<UiEventView>);

/// An event, by value.
pub enum UiEventView {
    Log(Seq<char>),
    ToggleLog,
    ShowLog(Option<EvtView>),
    HideLog(Option<EvtView>),
    Delay(u64, Option<EvtView>),
    Quit,
    Show(Screens),
    LoadWorkshops,
    SetWorkshop(Option<Seq<char>>, LanguageMap),
    ShowLicense(Seq<char>),
    ChangeSpokenLanguage(LanguageMap, Option<spoken::Code>, bool, Option<EvtView>),
    SetSpokenLanguage(Option<spoken::Code>, Option<bool>, Option<EvtView>),
    ChangeProgrammingLanguage(LanguageMap, Option<programming::Code>, bool, Option<EvtView>),
    SetProgrammingLanguage(Option<programming::Code>, Option<bool>, Option<EvtView>),
    SetDefault(Seq<char>, Option<EvtView>, Option<EvtView>),
    LoadLessons,
    SetLesson(Option<Seq<char>>),
    LoadLesson,
    CheckDeps(Seq<char>, Option<EvtView>, Option<EvtView>),
    CheckSolution(Option<EvtView>, Option<EvtView>),
    SolutionComplete,
    SolutionIncomplete,
    CommandStarted(StatusMode, Seq<char>),
    CommandOutput(Seq<char>, Option<u8>),
    CommandCompleted(CommandResultView, Option<EvtView>, Option<EvtView>),
    InstallWorkshop(Seq<char>, Option<EvtView>),
}

/// An optional string, by value.
pub open spec fn opt_str(o: Option<String>) -> Option<Seq<char>> {
    match o {
        Some(s) => Some(s@),
        None => None,
    }
}

/// An event by value.
pub open spec fn event_view(e: UiEvent) -> UiEventView
    decreases e,
{
    match e {
        UiEvent::Log(m) => UiEventView::Log(m@),
        UiEvent::ToggleLog => UiEventView::ToggleLog,
        UiEvent::ShowLog(n) => UiEventView::ShowLog(opt_evt_view(n)),
        UiEvent::HideLog(n) => UiEventView::HideLog(opt_evt_view(n)),
        UiEvent::Delay(d, n) => UiEventView::Delay(d, opt_evt_view(n)),
        UiEvent::Quit => UiEventView::Quit,
        UiEvent::Show(s) => UiEventView::Show(s),
        UiEvent::LoadWorkshops => UiEventView::LoadWorkshops,
        UiEvent::SetWorkshop(w, l) => UiEventView::SetWorkshop(opt_str(w), map_view(l@)),
        UiEvent::ShowLicense(t) => UiEventView::ShowLicense(t@),
        UiEvent::ChangeSpokenLanguage(l, s, a, n) => UiEventView::ChangeSpokenLanguage(
            map_view(l@),
            s,
            a,
            opt_evt_view(n),
        ),
        UiEvent::SetSpokenLanguage(s, d, n) => UiEventView::SetSpokenLanguage(s, d, opt_evt_view(n)),
        UiEvent::ChangeProgrammingLanguage(l, p, a, n) => UiEventView::ChangeProgrammingLanguage(
            map_view(l@),
            p,
            a,
            opt_evt_view(n),
        ),
        UiEvent::SetProgrammingLanguage(p, d, n) => UiEventView::SetProgrammingLanguage(
            p,
            d,
            opt_evt_view(n),
        ),
        UiEvent::SetDefault(t, y, n) => UiEventView::SetDefault(t@, opt_evt_view(y), opt_evt_view(n)),
        UiEvent::LoadLessons => UiEventView::LoadLessons,
        UiEvent::SetLesson(l) => UiEventView::SetLesson(opt_str(l)),
        UiEvent::LoadLesson => UiEventView::LoadLesson,
        UiEvent::CheckDeps(w, s, f) => UiEventView::CheckDeps(w@, opt_evt_view(s), opt_evt_view(f)),
        UiEvent::CheckSolution(s, f) => UiEventView::CheckSolution(opt_evt_view(s), opt_evt_view(f)),
        UiEvent::SolutionComplete => UiEventView::SolutionComplete,
        UiEvent::SolutionIncomplete => UiEventView::SolutionIncomplete,
        UiEvent::CommandStarted(m, t) => UiEventView::CommandStarted(m, t@),
        UiEvent::CommandOutput(t, p) => UiEventView::CommandOutput(t@, p),
        UiEvent::CommandCompleted(r, s, f) => UiEventView::CommandCompleted(
            command_result_view(r),
            opt_evt_view(s),
            opt_evt_view(f),
        ),
        UiEvent::InstallWorkshop(u, n) => UiEventView::InstallWorkshop(u@, opt_evt_view(n)),
    }
}

/// An optional addressed event by value.
pub open spec fn opt_evt_view(o: Option<Evt>) -> Option<EvtView>
    decreases o,
{
    match o {
        Some(e) => Some((e.0, Box::new(event_view(*e.1)))),
        None => None,
    }
}

/// An addressed event by value.
pub open spec fn evt_view(e: Evt) -> EvtView {
    (e.0, Box::new(event_view(*e.1)))
}

/// A copy of a language map.
pub fn copy_language_map(v: &Vec<LanguageEntry>) -> (r: Vec<LanguageEntry>)
    ensures
        map_view(r@) == map_view(v@),
{
    let mut r: Vec<LanguageEntry> = Vec::new();
    let mut i: usize = 0;
    while i < v.len()
        invariant
            i <= v.len(),
            r@.len() == i,
            map_view(r@) == map_view(v@).take(i as int),
        decreases v.len() - i,
    {
        let langs = copy_vec(&v[i].1);
        let entry = (v[i].0, langs);
        let ghost before = r@;
        r.push(entry);
        proof {
            assert(r@ == before.push(entry));
            assert(r@.len() == i + 1);
            assert(r@[i as int] == entry);
            assert(entry.1@ == v@[i as int].1@);
            assert(entry.0 == v@[i as int].0);
            assert(map_view(r@)[i as int] == (v@[i as int].0, v@[i as int].1@));
            assert(map_view(r@) =~= map_view(v@).take(i + 1));
        }
        i = i + 1;
    }
    proof {
        assert(map_view(v@).take(v.len() as int) =~= map_view(v@));
    }
    r
}

/// A copy of an optional string.
fn copy_opt_str(o: &Option<String>) -> (r: Option<String>)
    ensures
        opt_str(r) == opt_str(*o),
{
    match o {
        Some(s) => Some(s.clone()),
        None => None,
    }
}

/// A copy of an event.
pub fn copy_event(e: &UiEvent) -> (r: UiEvent)
    ensures
        event_view(r) == event_view(*e),
    decreases e,
{
    match e {
        UiEvent::Log(m) => UiEvent::Log(m.clone()),
        UiEvent::ToggleLog => UiEvent::ToggleLog,
        UiEvent::ShowLog(n) => UiEvent::ShowLog(copy_opt_evt(n)),
        UiEvent::HideLog(n) => UiEvent::HideLog(copy_opt_evt(n)),
        UiEvent::Delay(d, n) => UiEvent::Delay(*d, copy_opt_evt(n)),
        UiEvent::Quit => UiEvent::Quit,
        UiEvent::Show(s) => UiEvent::Show(*s),
        UiEvent::LoadWorkshops => UiEvent::LoadWorkshops,
        UiEvent::SetWorkshop(w, l) => UiEvent::SetWorkshop(copy_opt_str(w), copy_language_map(l)),
        UiEvent::ShowLicense(t) => UiEvent::ShowLicense(t.clone()),
        UiEvent::ChangeSpokenLanguage(l, s, a, n) => UiEvent::ChangeSpokenLanguage(
            copy_language_map(l),
            *s,
            *a,
            copy_opt_evt(n),
        ),
        UiEvent::SetSpokenLanguage(s, d, n) => UiEvent::SetSpokenLanguage(*s, *d, copy_opt_evt(n)),
        UiEvent::ChangeProgrammingLanguage(l, p, a, n) => UiEvent::ChangeProgrammingLanguage(
            copy_language_map(l),
            *p,
            *a,
            copy_opt_evt(n),
        ),
        UiEvent::SetProgrammingLanguage(p, d, n) => UiEvent::SetProgrammingLanguage(
            *p,
            *d,
            copy_opt_evt(n),
        ),
        UiEvent::SetDefault(t, y, n) => UiEvent::SetDefault(t.clone(), copy_opt_evt(y), copy_opt_evt(n)),
        UiEvent::LoadLessons => UiEvent::LoadLessons,
        UiEvent::SetLesson(l) => UiEvent::SetLesson(copy_opt_str(l)),
        UiEvent::LoadLesson => UiEvent::LoadLesson,
        UiEvent::CheckDeps(w, s, f) => UiEvent::CheckDeps(w.clone(), copy_opt_evt(s), copy_opt_evt(f)),
        UiEvent::CheckSolution(s, f) => UiEvent::CheckSolution(copy_opt_evt(s), copy_opt_evt(f)),
        UiEvent::SolutionComplete => UiEvent::SolutionComplete,
        UiEvent::SolutionIncomplete => UiEvent::SolutionIncomplete,
        UiEvent::CommandStarted(m, t) => UiEvent::CommandStarted(*m, t.clone()),
        UiEvent::CommandOutput(t, p) => UiEvent::CommandOutput(t.clone(), *p),
        UiEvent::CommandCompleted(r, s, f) => UiEvent::CommandCompleted(
            copy_result(r),
            copy_opt_evt(s),
            copy_opt_evt(f),
        ),
        UiEvent::InstallWorkshop(u, n) => UiEvent::InstallWorkshop(u.clone(), copy_opt_evt(n)),
    }
}

/// A copy of an optional addressed event.
pub fn copy_opt_evt(o: &Option<Evt>) -> (r: Option<Evt>)
    ensures
        opt_evt_view(r) == opt_evt_view(*o),
    decreases o,
{
    match o {
        Some(e) => {
            let inner = copy_event(&e.1);
            Some((e.0, Box::new(inner)))
        },
        None => None,
    }
}

/// An addressed event.
pub fn evt(screen: Option<Screens>, event: UiEvent) -> (r: Evt)
    ensures
        r.0 == screen,
        event_view(*r.1) == event_view(event),
{
    (screen, Box::new(event))
}

} // verus!
