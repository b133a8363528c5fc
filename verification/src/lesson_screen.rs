//! The lesson screen: the lesson's text in a lesson box, the keys that move through it, and what
//! the screen sends when a solution is checked.

use crate::command::CommandResult;
use crate::languages::{programming, spoken};
use crate::lessonbox::{
    after_toggle, empty_box, highlighted_hint, lesson_box_inv, window_end_fits, with_highlight_visible,
    LessonBoxState, LessonBoxView,
};
use crate::markdown::{blocks_of, markdown_events, parse_markdown};
use crate::models::lesson::Status;
use crate::render::{blocks_render, contents_render};
use crate::scrolltext::{sat_sub, Scroll};
use crate::text::{owned, str_eq, strings_view};
use crate::ui::{evt, opt_evt_view, Evt, EvtView, Key, Screens, UiEvent, UiEventView};
use vstd::prelude::*;

verus! {

/// The lesson screen's state.
pub struct Lesson {
    workshop_title: String,
    lesson_title: String,
    lesson_state: LessonBoxState,
    spoken_language: Option<spoken::Code>,
    programming_language: Option<programming::Code>,
}

/// The lesson screen's state, by value.
pub struct LessonView {
    pub workshop_title: Seq<char>,
    pub lesson_title: Seq<char>,
    pub lesson_state: LessonBoxView,
    pub spoken_language: Option<spoken::Code>,
    pub programming_language: Option<programming::Code>,
}

impl View for Lesson {
    type V = LessonView;

    closed spec fn view(&self) -> LessonView {
        LessonView {
            workshop_title: self.workshop_title@,
            lesson_title: self.lesson_title@,
            lesson_state: self.lesson_state@,
            spoken_language: self.spoken_language,
            programming_language: self.programming_language,
        }
    }
}

/// The keys that move the highlight.
pub open spec fn moves_highlight(key: Key) -> bool {
    key == Key::Char('j') || key == Key::Char('J') || key == Key::Down || key == Key::Char('k')
        || key == Key::Char('K') || key == Key::Up
}

/// The lesson box after a key: page up and down scroll to the top and bottom, `j` and `k` (and
/// the arrows) move the highlight, and enter toggles the highlighted hint at eighty columns.
pub open spec fn lesson_box_after_key(v: LessonBoxView, key: Key) -> LessonBoxView {
    match key {
        Key::PageUp => LessonBoxView { scroll: Scroll::Top, ..v },
        Key::PageDown => LessonBoxView { scroll: Scroll::Bottom, ..v },
        Key::Char('j') | Key::Char('J') | Key::Down => if v.highlighted_line < sat_sub(
            v.total_lines,
            1,
        ) {
            with_highlight_visible(
                LessonBoxView { highlighted_line: (v.highlighted_line + 1) as usize, ..v },
            )
        } else {
            v
        },
        Key::Char('k') | Key::Char('K') | Key::Up => if v.highlighted_line > 0 {
            with_highlight_visible(
                LessonBoxView { highlighted_line: (v.highlighted_line - 1) as usize, ..v },
            )
        } else {
            v
        },
        Key::Enter => match highlighted_hint(v) {
            Some(n) => after_toggle(v, n, 80),
            None => v,
        },
        _ => v,
    }
}

/// The event a key on the lesson screen sends: `c` shows the log and checks the solution,
/// reporting back to this screen, and `b` or escape leaves the lesson.
pub open spec fn lesson_key_event(key: Key) -> Option<EvtView> {
    if key == Key::Char('c') || key == Key::Char('C') {
        let success = (Some(Screens::Lesson), Box::new(UiEventView::SolutionComplete));
        let failure = (Some(Screens::Lesson), Box::new(UiEventView::SolutionIncomplete));
        let check = (None, Box::new(UiEventView::CheckSolution(Some(success), Some(failure))));
        Some((None, Box::new(UiEventView::ShowLog(Some(check)))))
    } else if key == Key::Char('b') || key == Key::Esc {
        Some((None, Box::new(UiEventView::SetLesson(None))))
    } else {
        None
    }
}

impl Lesson {
    /// An empty lesson screen.
    pub fn new() -> (r: Self)
        ensures
            r.wf(),
            r@ == (LessonView {
                workshop_title: Seq::empty(),
                lesson_title: Seq::empty(),
                lesson_state: empty_box(),
                spoken_language: None,
                programming_language: None,
            }),
    {
        let lesson_state = LessonBoxState::new();
        Lesson {
            workshop_title: String::new(),
            lesson_title: String::new(),
            lesson_state,
            spoken_language: None,
            programming_language: None,
        }
    }

    /// The screen's lesson box keeps its invariant.
    pub open spec fn wf(&self) -> bool {
        lesson_box_inv(self@.lesson_state)
    }

    /// Show a lesson: its workshop's title, its title, its text, and the languages it is in.
    pub fn init(
        &mut self,
        workshop_title: &str,
        lesson_title: &str,
        text: &str,
        spoken_language: Option<spoken::Code>,
        programming_language: Option<programming::Code>,
    )
        requires
            blocks_render(blocks_of(markdown_events(text@))),
        ensures
            final(self).wf(),
            final(self)@.workshop_title == workshop_title@,
            final(self)@.lesson_title == lesson_title@,
            final(self)@.lesson_state.content == blocks_of(markdown_events(text@)),
            final(self)@.lesson_state.scroll == Scroll::Top,
            final(self)@.lesson_state.highlighted_line == 0,
            final(self)@.spoken_language == spoken_language,
            final(self)@.programming_language == programming_language,
    {
        self.workshop_title = owned(workshop_title);
        self.lesson_title = owned(lesson_title);
        self.lesson_state = LessonBoxState::from_markdown(text);
        self.spoken_language = spoken_language;
        self.programming_language = programming_language;
    }

    /// Show a lesson where every code line of its text can be highlighted, as `init` does;
    /// where one cannot, nothing changes and `false` is returned.
    pub fn try_init(
        &mut self,
        workshop_title: &str,
        lesson_title: &str,
        text: &str,
        spoken_language: Option<spoken::Code>,
        programming_language: Option<programming::Code>,
    ) -> (r: bool)
        requires
            old(self).wf(),
        ensures
            r == blocks_render(blocks_of(markdown_events(text@))),
            !r ==> final(self)@ == old(self)@,
            final(self).wf(),
            r ==> {
                &&& final(self)@.workshop_title == workshop_title@
                &&& final(self)@.lesson_title == lesson_title@
                &&& final(self)@.lesson_state.content == blocks_of(markdown_events(text@))
                &&& final(self)@.lesson_state.scroll == Scroll::Top
                &&& final(self)@.lesson_state.highlighted_line == 0
                &&& final(self)@.spoken_language == spoken_language
                &&& final(self)@.programming_language == programming_language
            },
    {
        let blocks = parse_markdown(text);
        if contents_render(&blocks) {
            self.init(workshop_title, lesson_title, text, spoken_language, programming_language);
            true
        } else {
            false
        }
    }

    /// The lesson box.
    pub fn lesson_state(&mut self) -> (r: &mut LessonBoxState)
        ensures
            r@ == old(self)@.lesson_state,
            final(self)@ == (LessonView { lesson_state: final(r)@, ..old(self)@ }),
    {
        &mut self.lesson_state
    }

    /// handle input events
    pub fn handle_input_event(&mut self, key: Key) -> (r: Option<Evt>)
        requires
            old(self).wf(),
            moves_highlight(key) ==> window_end_fits(old(self)@.lesson_state),
        ensures
            final(self).wf(),
            final(self)@ == (LessonView {
                lesson_state: lesson_box_after_key(old(self)@.lesson_state, key),
                ..old(self)@
            }),
            opt_evt_view(r) == lesson_key_event(key),
    {
        match key {
            Key::PageUp => {
                self.lesson_state.scroll_top();
                None
            },
            Key::PageDown => {
                self.lesson_state.scroll_bottom();
                None
            },
            Key::Char('j') | Key::Char('J') | Key::Down => {
                self.lesson_state.highlight_down();
                None
            },
            Key::Char('k') | Key::Char('K') | Key::Up => {
                self.lesson_state.highlight_up();
                None
            },
            Key::Enter => {
                self.lesson_state.toggle_highlighted_hint(80);
                None
            },
            Key::Char('c') | Key::Char('C') => {
                let success = evt(Some(Screens::Lesson), UiEvent::SolutionComplete);
                let failure = evt(Some(Screens::Lesson), UiEvent::SolutionIncomplete);
                let check = evt(None, UiEvent::CheckSolution(Some(success), Some(failure)));
                Some(evt(None, UiEvent::ShowLog(Some(check))))
            },
            Key::Char('b') | Key::Esc => Some(evt(None, UiEvent::SetLesson(None))),
            _ => None,
        }
    }
}

/// Opening a lesson that was not started marks it as in progress.
pub fn status_on_open(status: Status) -> (r: Option<Status>)
    ensures
        r == if status == Status::NotStarted {
            Some(Status::InProgress)
        } else {
            None
        },
{
    if status == Status::NotStarted {
        Some(Status::InProgress)
    } else {
        None
    }
}

/// Whether every lesson is completed.
pub fn all_lessons_completed(statuses: &Vec<Status>) -> (r: bool)
    ensures
        r == forall|i: int| 0 <= i < statuses@.len() ==> statuses@[i] == Status::Completed,
{
    let mut i: usize = 0;
    while i < statuses.len()
        invariant
            i <= statuses.len(),
            forall|j: int| 0 <= j < i ==> statuses@[j] == Status::Completed,
        decreases statuses.len() - i,
    {
        if statuses[i] != Status::Completed {
            return false;
        }
        i = i + 1;
    }
    true
}

/// What a completed solution sends: where every lesson is now completed, the log reports it and
/// then leaves the workshop; otherwise the log hides and the lessons reload.
pub open spec fn completion_event(all_completed: bool) -> EvtView {
    if all_completed {
        let set_workshop = (None, Box::new(UiEventView::SetWorkshop(None, Seq::empty())));
        let hide = (None, Box::new(UiEventView::HideLog(Some(set_workshop))));
        (
            Some(Screens::Log),
            Box::new(
                UiEventView::CommandCompleted(
                    (true, 0i32, "All lessons completed!"@),
                    Some(hide),
                    None,
                ),
            ),
        )
    } else {
        let load = (Some(Screens::Lessons), Box::new(UiEventView::LoadLessons));
        (None, Box::new(UiEventView::HideLog(Some(load))))
    }
}

/// What a completed solution sends.
pub fn solution_complete_event(all_completed: bool) -> (r: Evt)
    ensures
        crate::ui::evt_view(r) == completion_event(all_completed),
{
    if all_completed {
        let set_workshop = evt(None, UiEvent::SetWorkshop(None, Vec::new()));
        let hide = evt(None, UiEvent::HideLog(Some(set_workshop)));
        let result = CommandResult {
            success: true,
            exit_code: 0,
            last_line: owned("All lessons completed!"),
        };
        let r = evt(Some(Screens::Log), UiEvent::CommandCompleted(result, Some(hide), None));
        proof {
            assert(crate::models::workshop::map_view(Seq::<crate::models::workshop::LanguageEntry>::empty()) =~= Seq::empty());
        }
        r
    } else {
        let load = evt(Some(Screens::Lessons), UiEvent::LoadLessons);
        evt(None, UiEvent::HideLog(Some(load)))
    }
}

/// What an incomplete solution sends: the log hides and the lesson reloads.
pub fn solution_incomplete_event() -> (r: Evt)
    ensures
        crate::ui::evt_view(r) == (None::<Screens>, Box::new(
            UiEventView::HideLog(Some((Some(Screens::Lesson), Box::new(UiEventView::LoadLesson)))),
        )),
{
    let load = evt(Some(Screens::Lesson), UiEvent::LoadLesson);
    evt(None, UiEvent::HideLog(Some(load)))
}

/// What a completed solution writes and sends: the position of the lesson to mark completed,
/// whether the workshop is then completed too, and the event to send.
pub struct Completion {
    pub index: usize,
    pub workshop_completed: bool,
    pub event: Evt,
}

/// The first position at which a lesson has the name.
pub open spec fn first_named(names: Seq<Seq<char>>, name: Seq<char>) -> Option<int> {
    if exists|i: int| 0 <= i < names.len() && names[i] == name {
        Some(
            choose|i: int|
                0 <= i < names.len() && names[i] == name && forall|j: int|
                    0 <= j < i ==> names[j] != name,
        )
    } else {
        None
    }
}

/// Every lesson is completed once the one at `index` is.
pub open spec fn completed_with(statuses: Seq<Status>, index: int) -> bool {
    forall|j: int| 0 <= j < statuses.len() && j != index ==> statuses[j] == Status::Completed
}

/// The first position at which a name stands, if any.
fn find_named(names: &Vec<String>, lesson: &str) -> (r: Option<usize>)
    ensures
        match r {
            Some(k) => k < names.len() && strings_view(names@)[k as int] == lesson@ && forall|j: int|
                0 <= j < k ==> strings_view(names@)[j] != lesson@,
            None => forall|j: int| 0 <= j < names.len() ==> strings_view(names@)[j] != lesson@,
        },
{
    let mut k: usize = 0;
    while k < names.len()
        invariant
            k <= names.len(),
            forall|j: int| 0 <= j < k ==> strings_view(names@)[j] != lesson@,
        decreases names.len() - k,
    {
        if str_eq(names[k].as_str(), lesson) {
            return Some(k);
        }
        k = k + 1;
    }
    None
}

/// A solution to the lesson named `lesson` was found complete, among the workshop's lessons,
/// given by their names and their statuses before it: where a lesson has that name, the first
/// such is marked completed, the workshop is completed when every lesson then is, and the
/// event is the one for that; where none has it, nothing is written or sent.
pub fn solution_complete(lesson: &str, names: &Vec<String>, statuses: &Vec<Status>) -> (r:
    Option<Completion>)
    requires
        names.len() == statuses.len(),
    ensures
        match first_named(strings_view(names@), lesson@) {
            None => r is None,
            Some(i) => r is Some && r->Some_0.index == i && r->Some_0.workshop_completed
                == completed_with(statuses@, i) && crate::ui::evt_view(r->Some_0.event)
                == completion_event(completed_with(statuses@, i)),
        },
{
    let ghost nv = strings_view(names@);
    let k = match find_named(names, lesson) {
        Some(k) => k,
        None => {
            proof {
                assert(!(exists|i: int| 0 <= i < nv.len() && nv[i] == lesson@)) by {
                    if exists|i: int| 0 <= i < nv.len() && nv[i] == lesson@ {
                        let i = choose|i: int| 0 <= i < nv.len() && nv[i] == lesson@;
                        assert(nv[i] != lesson@);
                    }
                }
            }
            return None;
        },
    };
    proof {
        let f = first_named(nv, lesson@)->Some_0;
        assert(0 <= f < nv.len() && nv[f] == lesson@ && forall|j: int| 0 <= j < f ==> nv[j] != lesson@);
        if f < k {
            assert(nv[f] != lesson@);
        }
        if f > k {
            assert(nv[k as int] != lesson@);
        }
    }
    let mut all = true;
    let mut j: usize = 0;
    while j < statuses.len()
        invariant
            j <= statuses.len(),
            k < statuses.len(),
            all == forall|m: int| 0 <= m < j && m != k ==> statuses@[m] == Status::Completed,
        decreases statuses.len() - j,
    {
        if j != k && statuses[j] != Status::Completed {
            all = false;
        }
        j = j + 1;
    }
    Some(Completion { index: k, workshop_completed: all, event: solution_complete_event(all) })
}

} // verus!
