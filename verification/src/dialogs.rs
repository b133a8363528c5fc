//! The dialog screens: the list selection they share, the spoken and programming language
//! pickers, the "set as default" question, the license viewer and the welcome screen.

use crate::languages::{programming, spoken};
use crate::scrolltext::{sat_add, scrolled_down, scrolled_up, Scroll, ScrollText, ScrollTextView};
use crate::text::owned;
use crate::ui::{evt, opt_evt_view, Evt, EvtView, Key, Screens, UiEvent, UiEventView};
use vstd::prelude::*;

verus! {

/// A list's selection, as the terminal list widget keeps it: moving needs no knowledge of the
/// list's length, and drawing the list pulls the selection back onto it.
#[derive(Clone, Copy, Debug, PartialEq, Eq, Structural)]
pub struct ListSelection {
    pub selected: Option<usize>,
}

/// The selection one item down: the first item where none is selected.
pub open spec fn next_selection(s: Option<usize>) -> Option<usize> {
    match s {
        Some(i) => Some(if i < usize::MAX {
            (i + 1) as usize
        } else {
            usize::MAX
        }),
        None => Some(0),
    }
}

/// The selection one item up: the last item where none is selected.
pub open spec fn previous_selection(s: Option<usize>) -> Option<usize> {
    match s {
        Some(i) => Some(if i > 0 {
            (i - 1) as usize
        } else {
            0
        }),
        None => Some(usize::MAX),
    }
}

/// The selection once a list of `len` items is drawn: none for an empty list, else pulled back
/// onto the last item where it lies past it.
pub open spec fn drawn_selection(s: Option<usize>, len: usize) -> Option<usize> {
    if len == 0 {
        None
    } else {
        match s {
            Some(i) => Some(if i >= len {
                (len - 1) as usize
            } else {
                i
            }),
            None => None,
        }
    }
}

impl ListSelection {
    /// Select an item, or none.
    pub fn select(&mut self, index: Option<usize>)
        ensures
            final(self).selected == index,
    {
        self.selected = index;
    }

    /// Select the next item, or the first one if no item is selected.
    pub fn select_next(&mut self)
        ensures
            final(self).selected == next_selection(old(self).selected),
    {
        self.selected = match self.selected {
            Some(i) => Some(i.saturating_add(1)),
            None => Some(0),
        };
    }

    /// Select the previous item, or the last one if no item is selected.
    pub fn select_previous(&mut self)
        ensures
            final(self).selected == previous_selection(old(self).selected),
    {
        self.selected = match self.selected {
            Some(i) => Some(i.saturating_sub(1)),
            None => Some(usize::MAX),
        };
    }

    /// Select the first item.
    pub fn select_first(&mut self)
        ensures
            final(self).selected == Some(0usize),
    {
        self.selected = Some(0);
    }

    /// Select the last item; drawing the list finds which one that is.
    pub fn select_last(&mut self)
        ensures
            final(self).selected == Some(usize::MAX),
    {
        self.selected = Some(usize::MAX);
    }

    /// Pull the selection onto a list of `len` items, as drawing it does.
    pub fn draw(&mut self, len: usize)
        ensures
            final(self).selected == drawn_selection(old(self).selected, len),
    {
        if len == 0 {
            self.selected = None;
        } else {
            match self.selected {
                Some(i) => {
                    if i >= len {
                        self.selected = Some(len - 1);
                    }
                },
                None => {},
            }
        }
    }
}

/// The item shown for a language position: positions move down one where "Any" heads the list.
pub open spec fn lang_to_selection(index: usize, allow_any: bool) -> int {
    if allow_any {
        index + 1
    } else {
        index as int
    }
}

/// The language position an item stands for: one up where "Any" heads the list.
pub open spec fn selection_to_lang(index: usize, allow_any: bool) -> int {
    if allow_any {
        if index > 0 {
            index - 1
        } else {
            0
        }
    } else {
        index as int
    }
}

/// The language an item stands for: none for "Any" or past the end.
pub open spec fn language_at<T>(langs: Seq<T>, index: usize, allow_any: bool) -> Option<T> {
    if index == 0 && allow_any {
        None
    } else {
        let k = selection_to_lang(index, allow_any);
        if 0 <= k < langs.len() {
            Some(langs[k])
        } else {
            None
        }
    }
}

/// The item selected for a language: its position, or the first item where there is none or
/// it is not listed.
pub open spec fn selection_for<T>(langs: Seq<T>, lang: Option<T>, allow_any: bool) -> Option<
    usize,
> {
    match lang {
        Some(code) => if langs.contains(code) {
            Some(lang_to_selection(first_position(langs, code) as usize, allow_any) as usize)
        } else {
            Some(0)
        },
        None => Some(0),
    }
}

/// The number of items a language picker lists: its languages, and "Any" where it is offered.
pub open spec fn item_count(count: usize, allow_any: bool) -> usize {
    if allow_any {
        sat_add(count, 1)
    } else {
        count
    }
}

/// The height of a language dialog: one line per item and four for its frame.
pub open spec fn dialog_lines(count: nat, allow_any: bool) -> int {
    (count as u16) + (if allow_any {
        1int
    } else {
        0
    }) + 4
}

/// The position of the first occurrence of a spoken language.
fn position_spoken(langs: &Vec<spoken::Code>, code: spoken::Code) -> (r: Option<usize>)
    ensures
        match r {
            Some(i) => i < langs@.len() && langs@[i as int] == code && forall|j: int|
                0 <= j < i ==> langs@[j] != code,
            None => !langs@.contains(code),
        },
{
    let mut i: usize = 0;
    while i < langs.len()
        invariant
            i <= langs.len(),
            forall|j: int| 0 <= j < i ==> langs@[j] != code,
        decreases langs.len() - i,
    {
        if langs[i] == code {
            return Some(i);
        }
        i = i + 1;
    }
    None
}

/// The position of the first occurrence of a programming language.
fn position_programming(langs: &Vec<programming::Code>, code: programming::Code) -> (r: Option<
    usize,
>)
    ensures
        match r {
            Some(i) => i < langs@.len() && langs@[i as int] == code && forall|j: int|
                0 <= j < i ==> langs@[j] != code,
            None => !langs@.contains(code),
        },
{
    let mut i: usize = 0;
    while i < langs.len()
        invariant
            i <= langs.len(),
            forall|j: int| 0 <= j < i ==> langs@[j] != code,
        decreases langs.len() - i,
    {
        if langs[i] == code {
            return Some(i);
        }
        i = i + 1;
    }
    None
}

/// The position where an element first occurs.
pub open spec fn first_position<T>(s: Seq<T>, x: T) -> int {
    choose|i: int| 0 <= i < s.len() && s[i] == x && forall|j: int| 0 <= j < i ==> s[j] != x
}

/// The first position of an element is where it first occurs.
proof fn lemma_first_position<T>(s: Seq<T>, x: T, i: int)
    requires
        0 <= i < s.len(),
        s[i] == x,
        forall|j: int| 0 <= j < i ==> s[j] != x,
    ensures
        s.contains(x),
        first_position(s, x) == i,
{
    assert(s.contains(x));
    let k = first_position(s, x);
    assert(0 <= k < s.len() && s[k] == x && forall|j: int| 0 <= j < k ==> s[j] != x);
    if k < i {
        assert(s[k] != x);
    }
    if k > i {
        assert(s[i] != x);
    }
}

/// The spoken language picker.
pub struct Spoken {
    spoken_languages: Vec<spoken::Code>,
    spoken_language: Option<spoken::Code>,
    allow_any: bool,
    event: Option<Evt>,
    lines: u16,
    list_state: ListSelection,
}

/// The spoken language picker's state, by value.
pub struct SpokenView {
    pub spoken_languages: Seq<spoken::Code>,
    pub spoken_language: Option<spoken::Code>,
    pub allow_any: bool,
    pub event: Option<EvtView>,
    pub lines: u16,
    pub selected: Option<usize>,
}

impl View for Spoken {
    type V = SpokenView;

    closed spec fn view(&self) -> SpokenView {
        SpokenView {
            spoken_languages: self.spoken_languages@,
            spoken_language: self.spoken_language,
            allow_any: self.allow_any,
            event: opt_evt_view(self.event),
            lines: self.lines,
            selected: self.list_state.selected,
        }
    }
}

/// What a key does in a language picker: the keys that move the selection, `b` and escape back
/// to the workshops, and enter choosing the selected item.
pub open spec fn picker_selection(key: Key, selected: Option<usize>) -> Option<usize> {
    match key {
        Key::PageUp => Some(0),
        Key::PageDown => Some(usize::MAX),
        Key::Char('j') | Key::Down => next_selection(selected),
        Key::Char('k') | Key::Up => previous_selection(selected),
        _ => selected,
    }
}

/// The event a key in a language picker sends: back to the workshops on `b` and escape, and
/// the chosen language with the event to send after it on enter, where an item is selected.
pub open spec fn picker_event(
    key: Key,
    selected: Option<usize>,
    chosen: UiEventView,
) -> Option<EvtView> {
    match key {
        Key::Char('b') | Key::Esc => Some(
            (Some(Screens::Workshops), Box::new(UiEventView::LoadWorkshops)),
        ),
        Key::Enter => if selected is Some {
            Some((None, Box::new(chosen)))
        } else {
            None
        },
        _ => None,
    }
}

impl Spoken {
    /// An empty picker.
    pub fn new() -> (r: Self)
        ensures
            r@ == (SpokenView {
                spoken_languages: Seq::empty(),
                spoken_language: None,
                allow_any: false,
                event: None,
                lines: 0,
                selected: None,
            }),
    {
        Spoken {
            spoken_languages: Vec::new(),
            spoken_language: None,
            allow_any: false,
            event: None,
            lines: 0,
            list_state: ListSelection { selected: None },
        }
    }

    /// Set the picker up: its languages, the current one, whether "Any" is offered, and the
    /// event to send once one is chosen; the current language is selected (the first item
    /// where it is none or not listed).
    pub fn init(
        &mut self,
        spoken_languages: Vec<spoken::Code>,
        spoken_language: Option<spoken::Code>,
        allow_any: bool,
        event: Option<Evt>,
    )
        requires
            dialog_lines(spoken_languages@.len(), allow_any) <= u16::MAX,
        ensures
            final(self)@ == (SpokenView {
                spoken_languages: spoken_languages@,
                spoken_language,
                allow_any,
                event: opt_evt_view(event),
                lines: dialog_lines(spoken_languages@.len(), allow_any) as u16,
                selected: selection_for(spoken_languages@, spoken_language, allow_any),
            }),
    {
        let count = #[verifier::truncate] (spoken_languages.len() as u16);
        let lines = if allow_any {
            count + 1 + 4
        } else {
            count + 4
        };
        let selected = match spoken_language {
            Some(code) => match position_spoken(&spoken_languages, code) {
                Some(index) => {
                    proof {
                        lemma_first_position(spoken_languages@, code, index as int);
                    }
                    Some(
                        if allow_any {
                            index + 1
                        } else {
                            index
                        },
                    )
                },
                None => Some(0),
            },
            None => Some(0),
        };
        self.spoken_languages = spoken_languages;
        self.spoken_language = spoken_language;
        self.allow_any = allow_any;
        self.event = event;
        self.lines = lines;
        self.list_state.select(selected);
    }

    /// The names listed: "Any" first where it is offered, then each language's English name.
    pub fn language_names(&self) -> (r: Vec<String>)
        ensures
            r@.len() == self@.spoken_languages.len() + if self@.allow_any {
                1int
            } else {
                0
            },
            forall|i: int|
                0 <= i < r@.len() ==> (#[trigger] r@[i])@ == if self@.allow_any && i == 0 {
                    "Any"@
                } else {
                    spoken::english_name(
                        self@.spoken_languages[i - if self@.allow_any {
                            1int
                        } else {
                            0
                        }],
                    )
                },
    {
        let mut names: Vec<String> = Vec::new();
        if self.allow_any {
            names.push(owned("Any"));
        }
        let shift: usize = if self.allow_any {
            1
        } else {
            0
        };
        let mut i: usize = 0;
        while i < self.spoken_languages.len()
            invariant
                i <= self.spoken_languages.len(),
                shift == if self@.allow_any {
                    1usize
                } else {
                    0
                },
                names@.len() == i + shift,
                self@.allow_any ==> names@[0]@ == "Any"@,
                forall|j: int|
                    shift <= j < names@.len() ==> (#[trigger] names@[j])@ == spoken::english_name(
                        self@.spoken_languages[j - shift],
                    ),
            decreases self.spoken_languages.len() - i,
        {
            names.push(owned(self.spoken_languages[i].get_name_in_english()));
            i = i + 1;
        }
        names
    }

    /// The language an item stands for.
    pub fn language_from_selection(&self, index: usize) -> (r: Option<spoken::Code>)
        ensures
            r == language_at(self@.spoken_languages, index, self@.allow_any),
    {
        if index == 0 && self.allow_any {
            None
        } else {
            let k = if self.allow_any {
                index.saturating_sub(1)
            } else {
                index
            };
            if k < self.spoken_languages.len() {
                Some(self.spoken_languages[k])
            } else {
                None
            }
        }
    }

    /// Pull the selection onto the list, as drawing it does.
    pub fn draw(&mut self)
        ensures
            final(self)@ == (SpokenView {
                selected: drawn_selection(
                    old(self)@.selected,
                    item_count(old(self)@.spoken_languages.len() as usize, old(self)@.allow_any),
                ),
                ..old(self)@
            }),
    {
        let len = if self.allow_any {
            self.spoken_languages.len().saturating_add(1)
        } else {
            self.spoken_languages.len()
        };
        self.list_state.draw(len);
    }

    /// handle input events
    pub fn handle_input_event(&mut self, key: Key) -> (r: Option<Evt>)
        ensures
            final(self)@.selected == picker_selection(key, old(self)@.selected),
            final(self)@.spoken_languages == old(self)@.spoken_languages,
            final(self)@.allow_any == old(self)@.allow_any,
            final(self)@.event == if key == Key::Enter {
                None
            } else {
                old(self)@.event
            },
            opt_evt_view(r) == picker_event(
                key,
                old(self)@.selected,
                UiEventView::SetSpokenLanguage(
                    language_at(
                        old(self)@.spoken_languages,
                        old(self)@.selected.unwrap(),
                        old(self)@.allow_any,
                    ),
                    None,
                    old(self)@.event,
                ),
            ),
    {
        match key {
            Key::PageUp => {
                self.list_state.select_first();
                None
            },
            Key::PageDown => {
                self.list_state.select_last();
                None
            },
            Key::Char('b') | Key::Esc => Some(evt(Some(Screens::Workshops), UiEvent::LoadWorkshops)),
            Key::Char('j') | Key::Down => {
                self.list_state.select_next();
                None
            },
            Key::Char('k') | Key::Up => {
                self.list_state.select_previous();
                None
            },
            Key::Enter => {
                let event = self.event.take();
                match self.list_state.selected {
                    Some(selected) => {
                        let lang = self.language_from_selection(selected);
                        Some(evt(None, UiEvent::SetSpokenLanguage(lang, None, event)))
                    },
                    None => None,
                }
            },
            _ => None,
        }
    }
}

/// The programming language picker.
pub struct Programming {
    programming_languages: Vec<programming::Code>,
    programming_language: Option<programming::Code>,
    allow_any: bool,
    event: Option<Evt>,
    lines: u16,
    list_state: ListSelection,
}

/// The programming language picker's state, by value.
pub struct ProgrammingView {
    pub programming_languages: Seq<programming::Code>,
    pub programming_language: Option<programming::Code>,
    pub allow_any: bool,
    pub event: Option<EvtView>,
    pub lines: u16,
    pub selected: Option<usize>,
}

impl View for Programming {
    type V = ProgrammingView;

    closed spec fn view(&self) -> ProgrammingView {
        ProgrammingView {
            programming_languages: self.programming_languages@,
            programming_language: self.programming_language,
            allow_any: self.allow_any,
            event: opt_evt_view(self.event),
            lines: self.lines,
            selected: self.list_state.selected,
        }
    }
}

impl Programming {
    /// An empty picker.
    pub fn new() -> (r: Self)
        ensures
            r@ == (ProgrammingView {
                programming_languages: Seq::empty(),
                programming_language: None,
                allow_any: false,
                event: None,
                lines: 0,
                selected: None,
            }),
    {
        Programming {
            programming_languages: Vec::new(),
            programming_language: None,
            allow_any: false,
            event: None,
            lines: 0,
            list_state: ListSelection { selected: None },
        }
    }

    /// Set the picker up: its languages, the current one, whether "Any" is offered, and the
    /// event to send once one is chosen; the current language is selected (the first item
    /// where it is none or not listed).
    pub fn init(
        &mut self,
        programming_languages: Vec<programming::Code>,
        programming_language: Option<programming::Code>,
        allow_any: bool,
        event: Option<Evt>,
    )
        requires
            dialog_lines(programming_languages@.len(), allow_any) <= u16::MAX,
        ensures
            final(self)@ == (ProgrammingView {
                programming_languages: programming_languages@,
                programming_language,
                allow_any,
                event: opt_evt_view(event),
                lines: dialog_lines(programming_languages@.len(), allow_any) as u16,
                selected: selection_for(programming_languages@, programming_language, allow_any),
            }),
    {
        let count = #[verifier::truncate] (programming_languages.len() as u16);
        let lines = if allow_any {
            count + 1 + 4
        } else {
            count + 4
        };
        let selected = match programming_language {
            Some(code) => match position_programming(&programming_languages, code) {
                Some(index) => {
                    proof {
                        lemma_first_position(programming_languages@, code, index as int);
                    }
                    Some(
                        if allow_any {
                            index + 1
                        } else {
                            index
                        },
                    )
                },
                None => Some(0),
            },
            None => Some(0),
        };
        self.programming_languages = programming_languages;
        self.programming_language = programming_language;
        self.allow_any = allow_any;
        self.event = event;
        self.lines = lines;
        self.list_state.select(selected);
    }

    /// The names listed: "Any" first where it is offered, then each language's name.
    pub fn language_names(&self) -> (r: Vec<String>)
        ensures
            r@.len() == self@.programming_languages.len() + if self@.allow_any {
                1int
            } else {
                0
            },
            forall|i: int|
                0 <= i < r@.len() ==> (#[trigger] r@[i])@ == if self@.allow_any && i == 0 {
                    "Any"@
                } else {
                    programming::language_name(
                        self@.programming_languages[i - if self@.allow_any {
                            1int
                        } else {
                            0
                        }],
                    )
                },
    {
        let mut names: Vec<String> = Vec::new();
        if self.allow_any {
            names.push(owned("Any"));
        }
        let shift: usize = if self.allow_any {
            1
        } else {
            0
        };
        let mut i: usize = 0;
        while i < self.programming_languages.len()
            invariant
                i <= self.programming_languages.len(),
                shift == if self@.allow_any {
                    1usize
                } else {
                    0
                },
                names@.len() == i + shift,
                self@.allow_any ==> names@[0]@ == "Any"@,
                forall|j: int|
                    shift <= j < names@.len() ==> (#[trigger] names@[j])@ == programming::language_name(
                        self@.programming_languages[j - shift],
                    ),
            decreases self.programming_languages.len() - i,
        {
            names.push(owned(self.programming_languages[i].get_name()));
            i = i + 1;
        }
        names
    }

    /// The language an item stands for.
    pub fn language_from_selection(&self, index: usize) -> (r: Option<programming::Code>)
        ensures
            r == language_at(self@.programming_languages, index, self@.allow_any),
    {
        if index == 0 && self.allow_any {
            None
        } else {
            let k = if self.allow_any {
                index.saturating_sub(1)
            } else {
                index
            };
            if k < self.programming_languages.len() {
                Some(self.programming_languages[k])
            } else {
                None
            }
        }
    }

    /// Pull the selection onto the list, as drawing it does.
    pub fn draw(&mut self)
        ensures
            final(self)@ == (ProgrammingView {
                selected: drawn_selection(
                    old(self)@.selected,
                    item_count(old(self)@.programming_languages.len() as usize, old(self)@.allow_any),
                ),
                ..old(self)@
            }),
    {
        let len = if self.allow_any {
            self.programming_languages.len().saturating_add(1)
        } else {
            self.programming_languages.len()
        };
        self.list_state.draw(len);
    }

    /// handle input events
    pub fn handle_input_event(&mut self, key: Key) -> (r: Option<Evt>)
        ensures
            final(self)@.selected == picker_selection(key, old(self)@.selected),
            final(self)@.programming_languages == old(self)@.programming_languages,
            final(self)@.allow_any == old(self)@.allow_any,
            final(self)@.event == if key == Key::Enter {
                None
            } else {
                old(self)@.event
            },
            opt_evt_view(r) == picker_event(
                key,
                old(self)@.selected,
                UiEventView::SetProgrammingLanguage(
                    language_at(
                        old(self)@.programming_languages,
                        old(self)@.selected.unwrap(),
                        old(self)@.allow_any,
                    ),
                    None,
                    old(self)@.event,
                ),
            ),
    {
        match key {
            Key::PageUp => {
                self.list_state.select_first();
                None
            },
            Key::PageDown => {
                self.list_state.select_last();
                None
            },
            Key::Char('b') | Key::Esc => Some(evt(Some(Screens::Workshops), UiEvent::LoadWorkshops)),
            Key::Char('j') | Key::Down => {
                self.list_state.select_next();
                None
            },
            Key::Char('k') | Key::Up => {
                self.list_state.select_previous();
                None
            },
            Key::Enter => {
                let event = self.event.take();
                match self.list_state.selected {
                    Some(selected) => {
                        let lang = self.language_from_selection(selected);
                        Some(evt(None, UiEvent::SetProgrammingLanguage(lang, None, event)))
                    },
                    None => None,
                }
            },
            _ => None,
        }
    }
}

/// The "set as default" question.
pub struct SetDefault {
    title: String,
    list_state: ListSelection,
    yes: Option<Evt>,
    no: Option<Evt>,
    spoken_language: Option<spoken::Code>,
}

/// The question's state, by value.
pub struct SetDefaultView {
    pub title: Seq<char>,
    pub selected: Option<usize>,
    pub yes: Option<EvtView>,
    pub no: Option<EvtView>,
    pub spoken_language: Option<spoken::Code>,
}

impl View for SetDefault {
    type V = SetDefaultView;

    closed spec fn view(&self) -> SetDefaultView {
        SetDefaultView {
            title: self.title@,
            selected: self.list_state.selected,
            yes: opt_evt_view(self.yes),
            no: opt_evt_view(self.no),
            spoken_language: self.spoken_language,
        }
    }
}

impl SetDefault {
    /// An empty question.
    pub fn new() -> (r: Self)
        ensures
            r@ == (SetDefaultView {
                title: Seq::empty(),
                selected: None,
                yes: None,
                no: None,
                spoken_language: None,
            }),
    {
        SetDefault {
            title: String::new(),
            list_state: ListSelection { selected: None },
            yes: None,
            no: None,
            spoken_language: None,
        }
    }

    /// Ask a question, with the events for "yes" and "no"; "Yes" is selected.
    pub fn init(
        &mut self,
        title: String,
        spoken_language: Option<spoken::Code>,
        yes: Option<Evt>,
        no: Option<Evt>,
    )
        ensures
            final(self)@ == (SetDefaultView {
                title: title@,
                selected: Some(0),
                yes: opt_evt_view(yes),
                no: opt_evt_view(no),
                spoken_language,
            }),
    {
        self.title = title;
        self.spoken_language = spoken_language;
        self.yes = yes;
        self.no = no;
        self.list_state.select(Some(0));
    }

    /// The answers listed.
    pub fn answers(&self) -> (r: Vec<String>)
        ensures
            r@.len() == 2,
            r@[0]@ == "Yes"@,
            r@[1]@ == "No"@,
    {
        let mut r: Vec<String> = Vec::new();
        r.push(owned("Yes"));
        r.push(owned("No"));
        r
    }

    /// Pull the selection onto the two answers, as drawing them does.
    pub fn draw(&mut self)
        ensures
            final(self)@ == (SetDefaultView {
                selected: drawn_selection(old(self)@.selected, 2),
                ..old(self)@
            }),
    {
        self.list_state.draw(2);
    }

    /// handle input events: `j` and `k` (and the arrows) move the selection; enter sends the
    /// "yes" event where "Yes" is selected and the "no" event otherwise, and forgets both.
    pub fn handle_input_event(&mut self, key: Key) -> (r: Option<Evt>)
        ensures
            final(self)@.selected == match key {
                Key::Char('j') | Key::Down => next_selection(old(self)@.selected),
                Key::Char('k') | Key::Up => previous_selection(old(self)@.selected),
                _ => old(self)@.selected,
            },
            final(self)@.title == old(self)@.title,
            key == Key::Enter ==> final(self)@.yes is None && final(self)@.no is None
                && opt_evt_view(r) == if old(self)@.selected == Some(0usize) {
                old(self)@.yes
            } else {
                old(self)@.no
            },
            key != Key::Enter ==> final(self)@.yes == old(self)@.yes && final(self)@.no == old(
                self,
            )@.no && r is None,
    {
        match key {
            Key::Char('j') | Key::Down => {
                self.list_state.select_next();
                None
            },
            Key::Char('k') | Key::Up => {
                self.list_state.select_previous();
                None
            },
            Key::Enter => {
                let yes = self.yes.take();
                let no = self.no.take();
                match self.list_state.selected {
                    Some(0) => yes,
                    _ => no,
                }
            },
            _ => None,
        }
    }
}

/// The license viewer.
pub struct License {
    text: String,
    st: ScrollText,
    spoken_language: Option<spoken::Code>,
}

/// The license viewer's state, by value.
pub struct LicenseView {
    pub text: Seq<char>,
    pub st: ScrollTextView,
    pub spoken_language: Option<spoken::Code>,
}

impl View for License {
    type V = LicenseView;

    closed spec fn view(&self) -> LicenseView {
        LicenseView { text: self.text@, st: self.st@, spoken_language: self.spoken_language }
    }
}

impl License {
    /// Create a new license screen, scrolled to the top.
    pub fn new() -> (r: Self)
        ensures
            r@ == (LicenseView {
                text: Seq::empty(),
                st: ScrollTextView { scroll: Scroll::Top, lines: 0, window_lines: 0 },
                spoken_language: None,
            }),
    {
        let mut st = ScrollText::default();
        st.scroll_top();
        License { text: String::new(), st, spoken_language: None }
    }

    /// set the license text
    pub fn set_license(&mut self, text: String, spoken_language: Option<spoken::Code>)
        ensures
            final(self)@ == (LicenseView { text: text@, spoken_language, ..old(self)@ }),
    {
        self.text = text;
        self.spoken_language = spoken_language;
    }

    /// The license text.
    pub fn text(&self) -> (r: &str)
        ensures
            r@ == self@.text,
    {
        self.text.as_str()
    }

    /// The scrolling state.
    pub fn scroll_text(&mut self) -> (r: &mut ScrollText)
        ensures
            r@ == old(self)@.st,
            final(self)@ == (LicenseView { st: final(r)@, ..old(self)@ }),
    {
        &mut self.st
    }

    /// handle input events: page up and down go to the top and bottom, `j` and `k` (and the
    /// arrows) scroll, and `b` or escape goes back to the workshops.
    pub fn handle_input_event(&mut self, key: Key) -> (r: Option<Evt>)
        requires
            old(self)@.st.window_lines < usize::MAX,
        ensures
            final(self)@ == (LicenseView {
                st: ScrollTextView {
                    scroll: match key {
                        Key::PageUp => Scroll::Top,
                        Key::PageDown => Scroll::Bottom,
                        Key::Char('j') | Key::Down => scrolled_down(old(self)@.st.scroll),
                        Key::Char('k') | Key::Up => scrolled_up(
                            old(self)@.st.scroll,
                            old(self)@.st.lines,
                            old(self)@.st.window_lines,
                        ),
                        _ => old(self)@.st.scroll,
                    },
                    ..old(self)@.st
                },
                ..old(self)@
            }),
            opt_evt_view(r) == if key == Key::Char('b') || key == Key::Esc {
                Some((Some(Screens::Workshops), Box::new(UiEventView::LoadWorkshops)))
            } else {
                None
            },
    {
        match key {
            Key::PageUp => {
                self.st.scroll_top();
                None
            },
            Key::PageDown => {
                self.st.scroll_bottom();
                None
            },
            Key::Char('b') | Key::Esc => Some(evt(Some(Screens::Workshops), UiEvent::LoadWorkshops)),
            Key::Char('j') | Key::Down => {
                self.st.scroll_down();
                None
            },
            Key::Char('k') | Key::Up => {
                self.st.scroll_up();
                None
            },
            _ => None,
        }
    }
}

/// The welcome screen: enter goes on to the workshops.
pub fn welcome_input(key: Key) -> (r: Option<Evt>)
    ensures
        opt_evt_view(r) == if key == Key::Enter {
            Some((Some(Screens::Workshops), Box::new(UiEventView::LoadWorkshops)))
        } else {
            None
        },
{
    if key == Key::Enter {
        Some(evt(Some(Screens::Workshops), UiEvent::LoadWorkshops))
    } else {
        None
    }
}

/// Choosing the item a picker selects for a listed language gives that language back, and the
/// first item of a picker that offers "Any" stands for no language.
pub proof fn lemma_selection_round_trip<T>(langs: Seq<T>, code: T, allow_any: bool)
    requires
        langs.contains(code),
        langs.len() < usize::MAX,
    ensures
        language_at(langs, selection_for(langs, Some(code), allow_any).unwrap(), allow_any)
            == Some(code),
        allow_any ==> language_at(langs, 0, allow_any) is None,
{
    let i = choose|i: int| 0 <= i < langs.len() && langs[i] == code;
    let k = first_position(langs, code);
    lemma_first_exists(langs, code, i);
    assert(0 <= k < langs.len() && langs[k] == code);
}

/// An element that occurs somewhere has a first position.
proof fn lemma_first_exists<T>(s: Seq<T>, x: T, i: int)
    requires
        0 <= i < s.len(),
        s[i] == x,
    ensures
        exists|k: int| 0 <= k < s.len() && s[k] == x && forall|j: int| 0 <= j < k ==> s[j] != x,
    decreases i,
{
    if exists|j: int| 0 <= j < i && s[j] == x {
        let j = choose|j: int| 0 <= j < i && s[j] == x;
        lemma_first_exists(s, x, j);
    } else {
        assert(forall|j: int| 0 <= j < i ==> s[j] != x);
    }
}

} // verus!
