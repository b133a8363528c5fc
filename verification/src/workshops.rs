//! The workshops screen: the workshops listed under their status marks in title order, the
//! selected workshop's metadata, description and setup instructions, and what each key does.

use crate::languages::{programming, spoken};
use crate::lessonbox::{empty_box, lesson_box_inv, LessonBoxState, LessonBoxView};
use crate::models::workshop::{map_view, status_text, LanguageEntry, LanguageMap, Status, Workshop};
use crate::scrolltext::{
    scrolled_down, scrolled_up, Scroll, ScrollBox, ScrollBoxView, ScrollTextView,
};
use crate::sorted::{inserted, keys_increase, SortedMap};
use crate::text::{joined_by, join, owned, strings_view};
use crate::ui::{
    copy_language_map, evt, opt_evt_view, Evt, EvtView, Key, Screens, UiEvent, UiEventView,
};
use vstd::prelude::*;

verus! {

/// The mark before a workshop's title: done, under way, or blank.
pub open spec fn workshop_mark(s: Status) -> Seq<char> {
    match s {
        Status::Completed => "✅ "@,
        Status::InProgress => "🤔 "@,
        Status::NotStarted => "   "@,
    }
}

/// The title a workshop is listed with: its mark, a space and its title.
pub open spec fn workshop_title(s: Status, title: Seq<char>) -> Seq<char> {
    workshop_mark(s) + " "@ + title
}

/// A workshop as listed: its name, title and status.
pub type EntryView = (Seq<char>, Seq<char>, Status);

/// The map from listed titles to workshops' names, each given in turn, so that the last
/// workshop with a listed title keeps it.
pub open spec fn workshop_titles(s: Seq<EntryView>) -> Seq<(Seq<char>, Seq<char>)>
    decreases s.len(),
{
    if s.len() == 0 {
        Seq::empty()
    } else {
        inserted(workshop_titles(s.drop_last()), workshop_title(s.last().2, s.last().1), s.last().0)
    }
}

/// Which part of the screen keys move.
#[derive(Clone, Copy, Debug, PartialEq, Eq, Structural)]
pub enum Focus {
    List,
    Metadata,
    Description,
    SetupInstructions,
}

/// The name a part of the screen is displayed with.
pub open spec fn focus_text(f: Focus) -> Seq<char> {
    match f {
        Focus::List => "List"@,
        Focus::Metadata => "Metadata"@,
        Focus::Description => "Description"@,
        Focus::SetupInstructions => "Setup Instructions"@,
    }
}

impl Focus {
    /// The part's name as it is displayed.
    pub fn to_string(&self) -> (r: String)
        ensures
            r@ == focus_text(*self),
    {
        match self {
            Focus::List => owned("List"),
            Focus::Metadata => owned("Metadata"),
            Focus::Description => owned("Description"),
            Focus::SetupInstructions => owned("Setup Instructions"),
        }
    }
}

/// The part that takes the focus next, or before where `back` holds.
pub open spec fn next_focus(f: Focus, back: bool) -> Focus {
    if back {
        match f {
            Focus::List => Focus::SetupInstructions,
            Focus::Metadata => Focus::List,
            Focus::Description => Focus::Metadata,
            Focus::SetupInstructions => Focus::Description,
        }
    } else {
        match f {
            Focus::List => Focus::Metadata,
            Focus::Metadata => Focus::Description,
            Focus::Description => Focus::SetupInstructions,
            Focus::SetupInstructions => Focus::List,
        }
    }
}

/// What the front end does after a key on the workshops screen.
pub enum WorkshopsAction {
    /// Nothing.
    Nothing,
    /// The selection moved: look the selected workshop's data up again.
    Recache,
    /// Queue an event.
    Send(Evt),
    /// Clear the chosen languages and ask for them from all that workshops offer.
    Filter,
    /// Open a web page.
    OpenHomepage(String),
    /// Clear the chosen languages and choose the named workshop, where one is selected.
    Select(Option<String>),
}

/// An action, by value.
pub enum WorkshopsActionView {
    Nothing,
    Recache,
    Send(EvtView),
    Filter,
    OpenHomepage(Seq<char>),
    Select(Option<Seq<char>>),
}

/// An action by value.
pub open spec fn action_view(a: WorkshopsAction) -> WorkshopsActionView {
    match a {
        WorkshopsAction::Nothing => WorkshopsActionView::Nothing,
        WorkshopsAction::Recache => WorkshopsActionView::Recache,
        WorkshopsAction::Send(e) => WorkshopsActionView::Send(crate::ui::evt_view(e)),
        WorkshopsAction::Filter => WorkshopsActionView::Filter,
        WorkshopsAction::OpenHomepage(u) => WorkshopsActionView::OpenHomepage(u@),
        WorkshopsAction::Select(k) => WorkshopsActionView::Select(
            match k {
                Some(k) => Some(k@),
                None => None,
            },
        ),
    }
}

/// The workshops screen's state.
pub struct Workshops {
    count: usize,
    titles_map: SortedMap<String>,
    selected: Option<usize>,
    focused: Focus,
    metadata: ScrollBox,
    description: LessonBoxState,
    setup: LessonBoxState,
    cached: Option<(String, String)>,
    spoken_language: Option<spoken::Code>,
    programming_language: Option<programming::Code>,
}

/// The workshops screen's state, by value: how many workshops it lists, its map from listed
/// titles to names, the selected position, the focused part, its three boxes, the selected
/// workshop's homepage and license where they are looked up, and the chosen languages.
pub struct WorkshopsView {
    pub count: usize,
    pub titles_map: Seq<(Seq<char>, Seq<char>)>,
    pub selected: Option<usize>,
    pub focused: Focus,
    pub metadata: ScrollBoxView,
    pub description: LessonBoxView,
    pub setup: LessonBoxView,
    pub cached: Option<(Seq<char>, Seq<char>)>,
    pub spoken_language: Option<spoken::Code>,
    pub programming_language: Option<programming::Code>,
}

impl View for Workshops {
    type V = WorkshopsView;

    closed spec fn view(&self) -> WorkshopsView {
        WorkshopsView {
            count: self.count,
            titles_map: crate::lessons::entries_of_strings(self.titles_map@),
            selected: self.selected,
            focused: self.focused,
            metadata: self.metadata@,
            description: self.description@,
            setup: self.setup@,
            cached: match self.cached {
                Some(c) => Some((c.0@, c.1@)),
                None => None,
            },
            spoken_language: self.spoken_language,
            programming_language: self.programming_language,
        }
    }
}

/// The workshops screen's invariant.
pub open spec fn workshops_inv(v: WorkshopsView) -> bool {
    &&& keys_increase(v.titles_map)
    &&& (v.selected matches Some(i) ==> i < v.count)
    &&& lesson_box_inv(v.description)
    &&& lesson_box_inv(v.setup)
}

/// The name of the selected workshop: none where there are no workshops or the list does not
/// have the focus; else the name at the selected position (the first where none is selected)
/// in title order, if it holds one.
pub open spec fn selected_workshop(v: WorkshopsView) -> Option<Seq<char>> {
    if v.count == 0 || v.focused != Focus::List {
        None
    } else {
        let i = match v.selected {
            Some(i) => i,
            None => 0,
        };
        if i < v.titles_map.len() {
            Some(v.titles_map[i as int].1)
        } else {
            None
        }
    }
}

/// The keys that move the focused part.
pub open spec fn moves(key: Key) -> bool {
    key == Key::PageUp || key == Key::PageDown || key == Key::Char('j') || key == Key::Char('J')
        || key == Key::Down || key == Key::Char('k') || key == Key::Char('K') || key == Key::Up
}

/// A key moves toward the end.
pub open spec fn moves_down(key: Key) -> bool {
    key == Key::Char('j') || key == Key::Char('J') || key == Key::Down
}

/// A key moves toward the start.
pub open spec fn moves_up(key: Key) -> bool {
    key == Key::Char('k') || key == Key::Char('K') || key == Key::Up
}

/// A scrolling box's position after a key.
pub open spec fn scroll_after(s: Scroll, lines: usize, window: usize, key: Key) -> Scroll {
    if key == Key::PageUp {
        Scroll::Top
    } else if key == Key::PageDown {
        Scroll::Bottom
    } else if moves_down(key) {
        scrolled_down(s)
    } else if moves_up(key) {
        scrolled_up(s, lines, window)
    } else {
        s
    }
}

/// The selection after a key moves through a non-empty list.
pub open spec fn list_after(selected: Option<usize>, count: usize, key: Key) -> Option<usize> {
    let i = match selected {
        Some(i) => i,
        None => 0,
    };
    if key == Key::PageUp {
        Some(0)
    } else if key == Key::PageDown {
        Some((count - 1) as usize)
    } else if moves_down(key) {
        Some(
            if i + 1 < count {
                (i + 1) as usize
            } else {
                (count - 1) as usize
            },
        )
    } else {
        Some(
            if i > 0 {
                (i - 1) as usize
            } else {
                0
            },
        )
    }
}

/// The screen after a key and what the front end does next.
pub open spec fn workshops_step(v: WorkshopsView, key: Key) -> (WorkshopsView, WorkshopsActionView) {
    if moves(key) {
        match v.focused {
            Focus::List => if v.count > 0 {
                (WorkshopsView { selected: list_after(v.selected, v.count, key), ..v },
                WorkshopsActionView::Recache)
            } else {
                (v, WorkshopsActionView::Nothing)
            },
            Focus::Metadata => (
                WorkshopsView {
                    metadata: ScrollBoxView {
                        scroll: ScrollTextView {
                            scroll: scroll_after(
                                v.metadata.scroll.scroll,
                                v.metadata.scroll.lines,
                                v.metadata.scroll.window_lines,
                                key,
                            ),
                            ..v.metadata.scroll
                        },
                        ..v.metadata
                    },
                    ..v
                },
                WorkshopsActionView::Nothing,
            ),
            Focus::Description => (
                WorkshopsView {
                    description: LessonBoxView {
                        scroll: scroll_after(
                            v.description.scroll,
                            v.description.total_lines,
                            v.description.window_lines,
                            key,
                        ),
                        ..v.description
                    },
                    ..v
                },
                WorkshopsActionView::Nothing,
            ),
            Focus::SetupInstructions => (
                WorkshopsView {
                    setup: LessonBoxView {
                        scroll: scroll_after(
                            v.setup.scroll,
                            v.setup.total_lines,
                            v.setup.window_lines,
                            key,
                        ),
                        ..v.setup
                    },
                    ..v
                },
                WorkshopsActionView::Nothing,
            ),
        }
    } else {
        match key {
            Key::Char('l') | Key::Char('L') => (
                v,
                match v.cached {
                    Some(c) => WorkshopsActionView::Send(
                        (Some(Screens::License), Box::new(UiEventView::ShowLicense(c.1))),
                    ),
                    None => WorkshopsActionView::Nothing,
                },
            ),
            Key::Char('f') | Key::Char('F') => (v, WorkshopsActionView::Filter),
            Key::Char('w') | Key::Char('W') => (
                v,
                match v.cached {
                    Some(c) => WorkshopsActionView::OpenHomepage(c.0),
                    None => WorkshopsActionView::Nothing,
                },
            ),
            Key::Tab(back) => (
                WorkshopsView { focused: next_focus(v.focused, back), ..v },
                WorkshopsActionView::Nothing,
            ),
            Key::Enter => (v, WorkshopsActionView::Select(selected_workshop(v))),
            _ => (v, WorkshopsActionView::Nothing),
        }
    }
}

/// What a key asks of the screen can be done: the boxes' windows must leave room to scroll up.
pub open spec fn key_ok(v: WorkshopsView, key: Key) -> bool {
    &&& (moves_up(key) && v.focused == Focus::Metadata ==> v.metadata.scroll.window_lines
        < usize::MAX)
    &&& (moves_up(key) && v.focused == Focus::Description ==> v.description.window_lines
        < usize::MAX)
    &&& (moves_up(key) && v.focused == Focus::SetupInstructions ==> v.setup.window_lines
        < usize::MAX)
}

/// The text of the metadata box: the workshop's status, authors, copyright, license, homepage
/// and difficulty, then each spoken language's native name with the names of its programming
/// languages.
pub open spec fn metadata_text(
    status: Status,
    authors: Seq<Seq<char>>,
    copyright: Seq<char>,
    license: Seq<char>,
    homepage: Seq<char>,
    difficulty: Seq<char>,
    languages: LanguageMap,
) -> Seq<char> {
    "Status: "@ + status_text(status) + "\nAuthors: "@ + joined_by(
        Seq::new(authors.len(), |i: int| " - "@ + authors[i]),
        "\n"@,
    ) + "\nCopyright: "@ + copyright + "\nLicense: "@ + license + "\nHomepage: "@ + homepage
        + "\nDifficulty: "@ + difficulty + "\nLanguages:\n"@ + joined_by(
        Seq::new(
            languages.len(),
            |i: int|
                " - "@ + spoken::native_name(languages[i].0) + ": "@ + joined_by(
                    Seq::new(
                        languages[i].1.len(),
                        |j: int| programming::language_name(languages[i].1[j]),
                    ),
                    ", "@,
                ),
        ),
        "\n"@,
    )
}

/// The line of a spoken language in the metadata box.
fn language_line(entry: &LanguageEntry) -> (r: String)
    ensures
        r@ == " - "@ + spoken::native_name(entry.0) + ": "@ + joined_by(
            Seq::new(entry.1@.len(), |j: int| programming::language_name(entry.1@[j])),
            ", "@,
        ),
{
    let mut names: Vec<String> = Vec::new();
    let mut j: usize = 0;
    while j < entry.1.len()
        invariant
            j <= entry.1.len(),
            strings_view(names@) == Seq::new(
                j as nat,
                |k: int| programming::language_name(entry.1@[k]),
            ),
        decreases entry.1.len() - j,
    {
        let name = owned(entry.1[j].get_name());
        let ghost before = names@;
        names.push(name);
        proof {
            crate::text::lemma_strings_view_push(before, name);
            assert(strings_view(names@) =~= Seq::new(
                (j + 1) as nat,
                |k: int| programming::language_name(entry.1@[k]),
            ));
        }
        j = j + 1;
    }
    proof {
        assert(Seq::new(j as nat, |k: int| programming::language_name(entry.1@[k])) =~= Seq::new(
            entry.1@.len(),
            |k: int| programming::language_name(entry.1@[k]),
        ));
    }
    let mut r = owned(" - ");
    r.append(entry.0.get_name_in_native());
    r.append(": ");
    r.append(join(&names, ", ").as_str());
    r
}

/// The text of the metadata box for a workshop and its languages.
pub fn metadata_for(workshop: &Workshop, languages: &Vec<LanguageEntry>) -> (r: String)
    ensures
        r@ == metadata_text(
            workshop.status,
            strings_view(workshop.authors@),
            workshop.copyright@,
            workshop.license@,
            workshop.homepage@,
            workshop.difficulty@,
            map_view(languages@),
        ),
{
    let mut authors: Vec<String> = Vec::new();
    let ghost a = strings_view(workshop.authors@);
    let mut i: usize = 0;
    while i < workshop.authors.len()
        invariant
            i <= workshop.authors.len(),
            a == strings_view(workshop.authors@),
            strings_view(authors@) == Seq::new(i as nat, |k: int| " - "@ + a[k]),
        decreases workshop.authors.len() - i,
    {
        let mut line = owned(" - ");
        line.append(workshop.authors[i].as_str());
        let ghost before = authors@;
        authors.push(line);
        proof {
            crate::text::lemma_strings_view_push(before, line);
            assert(strings_view(authors@) =~= Seq::new((i + 1) as nat, |k: int| " - "@ + a[k]));
        }
        i = i + 1;
    }
    let mut langs: Vec<String> = Vec::new();
    let ghost m = map_view(languages@);
    let mut k: usize = 0;
    while k < languages.len()
        invariant
            k <= languages.len(),
            m == map_view(languages@),
            strings_view(langs@) == Seq::new(
                k as nat,
                |t: int|
                    " - "@ + spoken::native_name(m[t].0) + ": "@ + joined_by(
                        Seq::new(m[t].1.len(), |j: int| programming::language_name(m[t].1[j])),
                        ", "@,
                    ),
            ),
        decreases languages.len() - k,
    {
        let line = language_line(&languages[k]);
        let ghost before = langs@;
        langs.push(line);
        proof {
            crate::text::lemma_strings_view_push(before, line);
            assert(m[k as int] == (languages@[k as int].0, languages@[k as int].1@));
            assert(strings_view(langs@) =~= Seq::new(
                (k + 1) as nat,
                |t: int|
                    " - "@ + spoken::native_name(m[t].0) + ": "@ + joined_by(
                        Seq::new(m[t].1.len(), |j: int| programming::language_name(m[t].1[j])),
                        ", "@,
                    ),
            ));
        }
        k = k + 1;
    }
    let mut r = owned("Status: ");
    r.append(workshop.status.as_str());
    r.append("\nAuthors: ");
    r.append(join(&authors, "\n").as_str());
    r.append("\nCopyright: ");
    r.append(workshop.copyright.as_str());
    r.append("\nLicense: ");
    r.append(workshop.license.as_str());
    r.append("\nHomepage: ");
    r.append(workshop.homepage.as_str());
    r.append("\nDifficulty: ");
    r.append(workshop.difficulty.as_str());
    r.append("\nLanguages:\n");
    r.append(join(&langs, "\n").as_str());
    proof {
        assert(Seq::new(workshop.authors@.len(), |t: int| " - "@ + a[t]) =~= Seq::new(
            a.len(),
            |t: int| " - "@ + a[t],
        ));
    }
    r
}

/// The event that asks for the languages to filter the workshops by: a spoken language, then a
/// programming language, each from all the workshops offer and "Any", then reload the
/// workshops.
pub open spec fn filter_event(all: LanguageMap) -> EvtView {
    let reload = (Some(Screens::Workshops), Box::new(UiEventView::LoadWorkshops));
    let programming = (
        Some(Screens::Programming),
        Box::new(UiEventView::ChangeProgrammingLanguage(all, None, true, Some(reload))),
    );
    (Some(Screens::Spoken), Box::new(UiEventView::ChangeSpokenLanguage(all, None, true, Some(programming))))
}

/// The event that asks for the languages to filter the workshops by.
pub fn filter_workshops(all_languages: Vec<LanguageEntry>) -> (r: Evt)
    ensures
        crate::ui::evt_view(r) == filter_event(map_view(all_languages@)),
{
    let reload = evt(Some(Screens::Workshops), UiEvent::LoadWorkshops);
    let programming = evt(
        Some(Screens::Programming),
        UiEvent::ChangeProgrammingLanguage(copy_language_map(&all_languages), None, true, Some(reload)),
    );
    evt(
        Some(Screens::Spoken),
        UiEvent::ChangeSpokenLanguage(all_languages, None, true, Some(programming)),
    )
}

/// The event that chooses a workshop, with the languages it offers.
pub fn select_workshop(key: String, languages: Vec<LanguageEntry>) -> (r: Evt)
    ensures
        crate::ui::evt_view(r) == (None::<Screens>, Box::new(
            UiEventView::SetWorkshop(Some(key@), map_view(languages@)),
        )),
{
    evt(None, UiEvent::SetWorkshop(Some(key), languages))
}

/// The title a workshop is listed with.
fn workshop_title_exec(status: Status, title: &str) -> (r: String)
    ensures
        r@ == workshop_title(status, title@),
{
    let mut t = owned(
        match status {
            Status::Completed => "✅ ",
            Status::InProgress => "🤔 ",
            Status::NotStarted => "   ",
        },
    );
    t.append(" ");
    t.append(title);
    t
}

/// Workshops by value.
pub open spec fn entries_view(v: Seq<(String, String, Status)>) -> Seq<EntryView> {
    Seq::new(v.len(), |i: int| (v[i].0@, v[i].1@, v[i].2))
}

impl Workshops {
    /// An empty workshops screen, with the list focused.
    pub fn new() -> (r: Self)
        ensures
            workshops_inv(r@),
            r@ == (WorkshopsView {
                count: 0,
                titles_map: Seq::empty(),
                selected: None,
                focused: Focus::List,
                metadata: ScrollBoxView {
                    scroll: ScrollTextView { scroll: Scroll::Top, lines: 0, window_lines: 0 },
                    text: Seq::empty(),
                },
                description: empty_box(),
                setup: empty_box(),
                cached: None,
                spoken_language: None,
                programming_language: None,
            }),
    {
        let r = Workshops {
            count: 0,
            titles_map: SortedMap::new(),
            selected: None,
            focused: Focus::List,
            metadata: ScrollBox::default(),
            description: LessonBoxState::new(),
            setup: LessonBoxState::new(),
            cached: None,
            spoken_language: None,
            programming_language: None,
        };
        proof {
            assert(crate::lessons::entries_of_strings(r.titles_map@) =~= Seq::<
                (Seq<char>, Seq<char>),
            >::empty());
        }
        r
    }

    /// The screen's invariant holds.
    pub open spec fn wf(&self) -> bool {
        workshops_inv(self@)
    }

    /// List workshops, each by its name, title and status, with the chosen languages; the first
    /// is selected where there are any. The selected workshop's data is looked up next.
    pub fn init(
        &mut self,
        workshops: &Vec<(String, String, Status)>,
        spoken_language: Option<spoken::Code>,
        programming_language: Option<programming::Code>,
    )
        requires
            old(self).wf(),
        ensures
            final(self).wf(),
            final(self)@ == (WorkshopsView {
                count: workshops@.len() as usize,
                titles_map: workshop_titles(entries_view(workshops@)),
                selected: if workshops@.len() == 0 {
                    None
                } else {
                    Some(0usize)
                },
                spoken_language,
                programming_language,
                ..old(self)@
            }),
    {
        let ghost e = entries_view(workshops@);
        let mut map: SortedMap<String> = SortedMap::new();
        let mut i: usize = 0;
        proof {
            assert(e.take(0) =~= Seq::<EntryView>::empty());
            assert(crate::lessons::entries_of_strings(map@) =~= Seq::<(Seq<char>, Seq<char>)>::empty());
        }
        while i < workshops.len()
            invariant
                i <= workshops.len(),
                e == entries_view(workshops@),
                map.wf(),
                crate::lessons::entries_of_strings(map@) == workshop_titles(e.take(i as int)),
            decreases workshops.len() - i,
        {
            let title = workshop_title_exec(workshops[i].2, workshops[i].1.as_str());
            let key = workshops[i].0.clone();
            proof {
                let t = e.take(i + 1);
                assert(t.drop_last() =~= e.take(i as int));
                assert(t.last() == e[i as int]);
                crate::lessons::lemma_strings_inserted(map@, title@, key);
            }
            map.insert(title, key);
            i = i + 1;
        }
        proof {
            assert(e.take(workshops.len() as int) =~= e);
            crate::lessons::lemma_keys_increase_strings(map@);
        }
        self.count = workshops.len();
        self.titles_map = map;
        self.selected = if workshops.len() == 0 {
            None
        } else {
            Some(0)
        };
        self.spoken_language = spoken_language;
        self.programming_language = programming_language;
    }

    /// The name of the selected workshop.
    pub fn get_selected_workshop_key(&self) -> (r: Option<String>)
        ensures
            match r {
                Some(k) => selected_workshop(self@) == Some(k@),
                None => selected_workshop(self@) is None,
            },
    {
        if self.count == 0 || self.focused != Focus::List {
            return None;
        }
        let i = match self.selected {
            Some(i) => i,
            None => 0,
        };
        if i < self.titles_map.len() {
            Some(self.titles_map.get(i).1.clone())
        } else {
            None
        }
    }

    /// The titles listed, in order.
    pub fn titles(&self) -> (r: Vec<String>)
        ensures
            r@.len() == self@.titles_map.len(),
            forall|i: int| 0 <= i < r@.len() ==> (#[trigger] r@[i])@ == self@.titles_map[i].0,
    {
        self.titles_map.keys()
    }

    /// Show the selected workshop's data: its metadata text, its description and setup
    /// instructions, its homepage and its license.
    pub fn set_selected(
        &mut self,
        metadata: &str,
        description: LessonBoxState,
        setup: LessonBoxState,
        homepage: String,
        license: String,
    )
        requires
            old(self).wf(),
            description.wf(),
            setup.wf(),
        ensures
            final(self).wf(),
            final(self)@ == (WorkshopsView {
                metadata: ScrollBoxView { text: metadata@, ..old(self)@.metadata },
                description: description@,
                setup: setup@,
                cached: Some((homepage@, license@)),
                ..old(self)@
            }),
    {
        self.metadata.set_text(metadata);
        self.description = description;
        self.setup = setup;
        self.cached = Some((homepage, license));
    }

    /// Show that no workshop is selected.
    pub fn clear_selected(&mut self)
        requires
            old(self).wf(),
        ensures
            final(self).wf(),
            final(self)@.metadata.text == "No metadata available for the selected workshop"@,
            final(self)@.description.content.len() == 0,
            final(self)@.setup.content.len() == 0,
            final(self)@.cached is None,
            final(self)@.titles_map == old(self)@.titles_map,
            final(self)@.selected == old(self)@.selected,
            final(self)@.focused == old(self)@.focused,
            final(self)@.count == old(self)@.count,
    {
        self.metadata.set_text("No metadata available for the selected workshop");
        self.description = LessonBoxState::new();
        self.setup = LessonBoxState::new();
        self.cached = None;
    }

    /// The selected position.
    pub fn selected(&self) -> (r: Option<usize>)
        ensures
            r == self@.selected,
    {
        self.selected
    }

    /// Which part has the focus.
    pub fn focused(&self) -> (r: Focus)
        ensures
            r == self@.focused,
    {
        self.focused
    }

    /// The metadata box.
    pub fn metadata_box(&mut self) -> (r: &mut ScrollBox)
        ensures
            r@ == old(self)@.metadata,
            final(self)@ == (WorkshopsView { metadata: final(r)@, ..old(self)@ }),
    {
        &mut self.metadata
    }

    /// The description box.
    pub fn description_box(&mut self) -> (r: &mut LessonBoxState)
        ensures
            r@ == old(self)@.description,
            final(self)@ == (WorkshopsView { description: final(r)@, ..old(self)@ }),
    {
        &mut self.description
    }

    /// The setup instructions box.
    pub fn setup_box(&mut self) -> (r: &mut LessonBoxState)
        ensures
            r@ == old(self)@.setup,
            final(self)@ == (WorkshopsView { setup: final(r)@, ..old(self)@ }),
    {
        &mut self.setup
    }

    /// handle input events
    pub fn handle_input_event(&mut self, key: Key) -> (r: WorkshopsAction)
        requires
            old(self).wf(),
            key_ok(old(self)@, key),
        ensures
            final(self).wf(),
            (final(self)@, action_view(r)) == workshops_step(old(self)@, key),
    {
        if key == Key::PageUp || key == Key::PageDown || key == Key::Char('j') || key == Key::Char(
            'J',
        ) || key == Key::Down || key == Key::Char('k') || key == Key::Char('K') || key == Key::Up {
            match self.focused {
                Focus::List => {
                    if self.count == 0 {
                        return WorkshopsAction::Nothing;
                    }
                    let n = self.count;
                    let i = match self.selected {
                        Some(i) => i,
                        None => 0,
                    };
                    self.selected = if key == Key::PageUp {
                        Some(0)
                    } else if key == Key::PageDown {
                        Some(n - 1)
                    } else if key == Key::Char('j') || key == Key::Char('J') || key == Key::Down {
                        Some(
                            if i + 1 < n {
                                i + 1
                            } else {
                                n - 1
                            },
                        )
                    } else {
                        Some(
                            if i > 0 {
                                i - 1
                            } else {
                                0
                            },
                        )
                    };
                    WorkshopsAction::Recache
                },
                Focus::Metadata => {
                    if key == Key::PageUp {
                        self.metadata.scroll_top();
                    } else if key == Key::PageDown {
                        self.metadata.scroll_bottom();
                    } else if key == Key::Char('j') || key == Key::Char('J') || key == Key::Down {
                        self.metadata.scroll_down();
                    } else {
                        self.metadata.scroll_up();
                    }
                    WorkshopsAction::Nothing
                },
                Focus::Description => {
                    if key == Key::PageUp {
                        self.description.scroll_top();
                    } else if key == Key::PageDown {
                        self.description.scroll_bottom();
                    } else if key == Key::Char('j') || key == Key::Char('J') || key == Key::Down {
                        self.description.scroll_down();
                    } else {
                        self.description.scroll_up();
                    }
                    WorkshopsAction::Nothing
                },
                Focus::SetupInstructions => {
                    if key == Key::PageUp {
                        self.setup.scroll_top();
                    } else if key == Key::PageDown {
                        self.setup.scroll_bottom();
                    } else if key == Key::Char('j') || key == Key::Char('J') || key == Key::Down {
                        self.setup.scroll_down();
                    } else {
                        self.setup.scroll_up();
                    }
                    WorkshopsAction::Nothing
                },
            }
        } else {
            match key {
                Key::Char('l') | Key::Char('L') => match &self.cached {
                    Some(c) => WorkshopsAction::Send(
                        evt(Some(Screens::License), UiEvent::ShowLicense(c.1.clone())),
                    ),
                    None => WorkshopsAction::Nothing,
                },
                Key::Char('f') | Key::Char('F') => WorkshopsAction::Filter,
                Key::Char('w') | Key::Char('W') => match &self.cached {
                    Some(c) => WorkshopsAction::OpenHomepage(c.0.clone()),
                    None => WorkshopsAction::Nothing,
                },
                Key::Tab(back) => {
                    self.focused = if back {
                        match self.focused {
                            Focus::List => Focus::SetupInstructions,
                            Focus::Metadata => Focus::List,
                            Focus::Description => Focus::Metadata,
                            Focus::SetupInstructions => Focus::Description,
                        }
                    } else {
                        match self.focused {
                            Focus::List => Focus::Metadata,
                            Focus::Metadata => Focus::Description,
                            Focus::Description => Focus::SetupInstructions,
                            Focus::SetupInstructions => Focus::List,
                        }
                    };
                    WorkshopsAction::Nothing
                },
                Key::Enter => WorkshopsAction::Select(self.get_selected_workshop_key()),
                _ => WorkshopsAction::Nothing,
            }
        }
    }
}

/// Moving the focus forward four times, or back four times, comes back to where it was, and
/// moving back undoes moving forward.
pub proof fn lemma_focus_cycle(f: Focus)
    ensures
        next_focus(next_focus(next_focus(next_focus(f, false), false), false), false) == f,
        next_focus(next_focus(next_focus(next_focus(f, true), true), true), true) == f,
        next_focus(next_focus(f, false), true) == f,
{
}

} // verus!
