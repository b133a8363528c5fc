//! The lessons screen: a workshop's lessons in order, each titled with its status, the rule
//! that a lesson opens only once the one before it is completed, and the keys that move
//! through the list and the lesson's description.

use crate::languages::{programming, spoken};
use crate::models::lesson::Status;
use crate::scrolltext::{scrolled_down, scrolled_up, Scroll, ScrollText, ScrollTextView};
use crate::sorted::{
    entries_of, inserted, keys_increase, lemma_keys_unique, position_of, SortedMap,
};
use crate::text::{owned, strings_view};
use crate::ui::{evt, opt_evt_view, Evt, EvtView, Key, Screens, UiEvent, UiEventView};
use vstd::prelude::*;

verus! {

/// A lesson as the list shows it: its title, description and status.
pub struct LessonMeta {
    pub title: String,
    pub description: String,
    pub status: Status,
}

/// A lesson's metadata, by value.
pub type LessonMetaView = (Seq<char>, Seq<char>, Status);

/// A lesson's metadata by value.
pub open spec fn meta_view(m: LessonMeta) -> LessonMetaView {
    (m.title@, m.description@, m.status)
}

/// Lessons keyed by name, by value.
pub open spec fn metas_view(s: Seq<(Seq<char>, LessonMeta)>) -> Seq<(Seq<char>, LessonMetaView)> {
    Seq::new(s.len(), |i: int| (s[i].0, meta_view(s[i].1)))
}

/// The lessons after each of a list is added by its name, in turn.
pub open spec fn lessons_from(infos: Seq<(Seq<char>, LessonMetaView)>) -> Seq<
    (Seq<char>, LessonMetaView),
>
    decreases infos.len(),
{
    if infos.len() == 0 {
        Seq::empty()
    } else {
        inserted(lessons_from(infos.drop_last()), infos.last().0, infos.last().1)
    }
}

/// The mark before a lesson's title: done, under way, or blank.
pub open spec fn lesson_mark(s: Status) -> Seq<char> {
    match s {
        Status::Completed => "✅"@,
        Status::InProgress => "⚙️"@,
        Status::NotStarted => "  "@,
    }
}

/// The title a lesson is listed with: its mark, a space and its title.
pub open spec fn listed_title(m: LessonMetaView) -> Seq<char> {
    lesson_mark(m.2) + " "@ + m.0
}

/// The titles of the lessons, in the lessons' order.
pub open spec fn listed_titles(s: Seq<(Seq<char>, LessonMetaView)>) -> Seq<Seq<char>> {
    Seq::new(s.len(), |i: int| listed_title(s[i].1))
}

/// The map from listed titles to lessons' names, each title given its lesson's name in the
/// lessons' order, so that the last lesson with a title keeps it.
pub open spec fn title_map(s: Seq<(Seq<char>, LessonMetaView)>) -> Seq<(Seq<char>, Seq<char>)>
    decreases s.len(),
{
    if s.len() == 0 {
        Seq::empty()
    } else {
        inserted(title_map(s.drop_last()), listed_title(s.last().1), s.last().0)
    }
}

/// The names of the lessons, in the order of their listed titles.
pub open spec fn keys_by_title(m: Seq<(Seq<char>, Seq<char>)>) -> Seq<Seq<char>> {
    Seq::new(m.len(), |i: int| m[i].1)
}

/// The status of the lesson with a name, if there is one.
pub open spec fn status_of(s: Seq<(Seq<char>, LessonMetaView)>, key: Seq<char>) -> Option<Status> {
    if exists|i: int| 0 <= i < s.len() && s[i].0 == key {
        Some(s[choose|i: int| 0 <= i < s.len() && s[i].0 == key].1.2)
    } else {
        None
    }
}

/// The metadata of the lesson with a name, if there is one.
pub open spec fn meta_of(s: Seq<(Seq<char>, LessonMetaView)>, key: Seq<char>) -> Option<
    LessonMetaView,
> {
    if exists|i: int| 0 <= i < s.len() && s[i].0 == key {
        Some(s[choose|i: int| 0 <= i < s.len() && s[i].0 == key].1)
    } else {
        None
    }
}

/// Which part of the screen keys move.
#[derive(Clone, Copy, Debug, PartialEq, Eq, Structural)]
pub enum LessonsFocus {
    List,
    Info,
}

/// The lessons screen's state.
pub struct Lessons {
    lessons: SortedMap<LessonMeta>,
    titles: Vec<String>,
    titles_map: SortedMap<String>,
    workshop_title: String,
    selected: Option<usize>,
    st: ScrollText,
    focused: LessonsFocus,
    spoken_language: Option<spoken::Code>,
    programming_language: Option<programming::Code>,
}

/// The lessons screen's state, by value.
pub struct LessonsView {
    pub lessons: Seq<(Seq<char>, LessonMetaView)>,
    pub titles: Seq<Seq<char>>,
    pub titles_map: Seq<(Seq<char>, Seq<char>)>,
    pub workshop_title: Seq<char>,
    pub selected: Option<usize>,
    pub st: ScrollTextView,
    pub focused: LessonsFocus,
    pub spoken_language: Option<spoken::Code>,
    pub programming_language: Option<programming::Code>,
}

impl View for Lessons {
    type V = LessonsView;

    closed spec fn view(&self) -> LessonsView {
        LessonsView {
            lessons: metas_view(self.lessons@),
            titles: strings_view(self.titles@),
            titles_map: entries_of_strings(self.titles_map@),
            workshop_title: self.workshop_title@,
            selected: self.selected,
            st: self.st@,
            focused: self.focused,
            spoken_language: self.spoken_language,
            programming_language: self.programming_language,
        }
    }
}

/// A map from texts to strings, by value.
pub open spec fn entries_of_strings(s: Seq<(Seq<char>, String)>) -> Seq<(Seq<char>, Seq<char>)> {
    Seq::new(s.len(), |i: int| (s[i].0, s[i].1@))
}

/// The lessons screen's invariant: lessons and titles are in order, one title per lesson, and
/// a selection lies on the list.
pub open spec fn lessons_inv(v: LessonsView) -> bool {
    &&& keys_increase(v.lessons)
    &&& keys_increase(v.titles_map)
    &&& v.titles == listed_titles(v.lessons)
    &&& v.titles_map == title_map(v.lessons)
    &&& (v.selected matches Some(i) ==> i < v.lessons.len())
    &&& v.lessons.len() < usize::MAX
}

/// The name of the selected lesson: the name at the selected position (the first where none is
/// selected) in title order, if there are lessons and the position holds one.
pub open spec fn selected_key(v: LessonsView) -> Option<Seq<char>> {
    if v.lessons.len() == 0 {
        None
    } else {
        let i = match v.selected {
            Some(i) => i,
            None => 0,
        };
        let keys = keys_by_title(v.titles_map);
        if i < keys.len() {
            Some(keys[i as int])
        } else {
            None
        }
    }
}

/// A lesson can be opened: it is the first, or the lesson before it is completed.
pub open spec fn can_select(v: LessonsView, index: usize) -> bool {
    let keys = keys_by_title(v.titles_map);
    index == 0 || (0 < index < keys.len() && status_of(v.lessons, keys[index - 1]) == Some(
        Status::Completed,
    ))
}

/// A lesson is completed.
pub open spec fn is_completed(v: LessonsView, index: usize) -> bool {
    let keys = keys_by_title(v.titles_map);
    index < keys.len() && status_of(v.lessons, keys[index as int]) == Some(Status::Completed)
}

/// The selection after a key moves it through the list: to the first or last lesson, or one
/// down or up, staying on the list; nothing moves on an empty list.
pub open spec fn list_selection_after(v: LessonsView, key: Key) -> Option<usize> {
    let n = v.lessons.len();
    if n == 0 {
        v.selected
    } else {
        let i = match v.selected {
            Some(i) => i,
            None => 0,
        };
        match key {
            Key::PageUp => Some(0),
            Key::PageDown => Some((n - 1) as usize),
            Key::Char('j') | Key::Char('J') | Key::Down => Some(
                if i + 1 < n {
                    (i + 1) as usize
                } else {
                    (n - 1) as usize
                },
            ),
            Key::Char('k') | Key::Char('K') | Key::Up => Some(
                if i > 0 {
                    (i - 1) as usize
                } else {
                    0
                },
            ),
            _ => v.selected,
        }
    }
}

/// The description box's position after a key, where it has the focus.
pub open spec fn info_scroll_after(v: LessonsView, key: Key) -> Scroll {
    match key {
        Key::PageUp => Scroll::Top,
        Key::PageDown => Scroll::Bottom,
        Key::Char('j') | Key::Char('J') | Key::Down => scrolled_down(v.st.scroll),
        Key::Char('k') | Key::Char('K') | Key::Up => scrolled_up(
            v.st.scroll,
            v.st.lines,
            v.st.window_lines,
        ),
        _ => v.st.scroll,
    }
}

/// The screen after a key: the focused part moves, tab moves the focus.
pub open spec fn lessons_after_key(v: LessonsView, key: Key) -> LessonsView {
    match key {
        Key::Tab(_) => LessonsView {
            focused: if v.focused == LessonsFocus::List {
                LessonsFocus::Info
            } else {
                LessonsFocus::List
            },
            ..v
        },
        _ => if v.focused == LessonsFocus::List {
            LessonsView { selected: list_selection_after(v, key), ..v }
        } else {
            LessonsView { st: ScrollTextView { scroll: info_scroll_after(v, key), ..v.st }, ..v }
        },
    }
}

/// The event a key sends: `b` and escape leave the workshop; enter opens the selected lesson
/// where it can be opened: the first lesson, or one whose previous lesson is completed. A
/// completed lesson opens again, to be read once more.
pub open spec fn lessons_key_event(v: LessonsView, key: Key) -> Option<EvtView> {
    match key {
        Key::Char('b') | Key::Esc => Some(
            (None, Box::new(UiEventView::SetWorkshop(None, Seq::empty()))),
        ),
        Key::Enter => match v.selected {
            Some(i) => if can_select(v, i) {
                Some((None, Box::new(UiEventView::SetLesson(selected_key(v)))))
            } else {
                None
            },
            None => None,
        },
        _ => None,
    }
}

/// Enter opens the first lesson, and a later one only when the lesson listed just before it is
/// completed: while that lesson is not started or still in progress, Enter sends nothing.
pub proof fn lemma_enter_opens_after_completed(v: LessonsView, i: usize)
    requires
        v.selected == Some(i),
    ensures
        i == 0 ==> can_select(v, i),
        i > 0 ==> (can_select(v, i) <==> i < v.titles_map.len() && status_of(
            v.lessons,
            v.titles_map[i - 1].1,
        ) == Some(Status::Completed)),
        i > 0 && i < v.titles_map.len() && status_of(v.lessons, v.titles_map[i - 1].1) == Some(
            Status::InProgress,
        ) ==> lessons_key_event(v, Key::Enter) is None,
        i > 0 && i < v.titles_map.len() && status_of(v.lessons, v.titles_map[i - 1].1) == Some(
            Status::NotStarted,
        ) ==> lessons_key_event(v, Key::Enter) is None,
        lessons_key_event(v, Key::Enter) is Some <==> (i == 0 || (i < v.titles_map.len()
            && status_of(v.lessons, v.titles_map[i - 1].1) == Some(Status::Completed))),
{
    if i > 0 && i < v.titles_map.len() {
        assert(keys_by_title(v.titles_map)[i - 1] == v.titles_map[i - 1].1);
    }
}

/// Viewing lessons keeps their names.
proof fn lemma_metas_view_inserted(s: Seq<(Seq<char>, LessonMeta)>, k: Seq<char>, m: LessonMeta)
    ensures
        metas_view(inserted(s, k, m)) == inserted(metas_view(s), k, meta_view(m)),
{
    lemma_position_of_metas(s, k);
    crate::sorted::lemma_position_bounds(s, k);
    let p = position_of(s, k);
    if p < s.len() && s[p].0 == k {
        assert(metas_view(s)[p].0 == k);
        assert(metas_view(s.update(p, (k, m))) =~= metas_view(s).update(p, (k, meta_view(m))));
    } else {
        if p < s.len() {
            assert(metas_view(s)[p].0 == s[p].0);
        }
        assert(metas_view(s.insert(p, (k, m))) =~= metas_view(s).insert(p, (k, meta_view(m))));
    }
}

/// Where a name belongs does not depend on the lessons' metadata.
proof fn lemma_position_of_metas(s: Seq<(Seq<char>, LessonMeta)>, k: Seq<char>)
    ensures
        position_of(metas_view(s), k) == position_of(s, k),
    decreases s.len(),
{
    if s.len() > 0 {
        assert(metas_view(s).drop_last() =~= metas_view(s.drop_last()));
        lemma_position_of_metas(s.drop_last(), k);
    }
}

/// Viewing a map to strings keeps its keys.
pub proof fn lemma_strings_inserted(s: Seq<(Seq<char>, String)>, k: Seq<char>, v: String)
    ensures
        entries_of_strings(inserted(s, k, v)) == inserted(entries_of_strings(s), k, v@),
{
    lemma_position_of_strings(s, k);
    crate::sorted::lemma_position_bounds(s, k);
    let p = position_of(s, k);
    if p < s.len() && s[p].0 == k {
        assert(entries_of_strings(s)[p].0 == k);
        assert(entries_of_strings(s.update(p, (k, v))) =~= entries_of_strings(s).update(p, (k, v@)));
    } else {
        if p < s.len() {
            assert(entries_of_strings(s)[p].0 == s[p].0);
        }
        assert(entries_of_strings(s.insert(p, (k, v))) =~= entries_of_strings(s).insert(p, (k, v@)));
    }
}

/// Where a key belongs does not depend on the values.
pub proof fn lemma_position_of_strings(s: Seq<(Seq<char>, String)>, k: Seq<char>)
    ensures
        position_of(entries_of_strings(s), k) == position_of(s, k),
    decreases s.len(),
{
    if s.len() > 0 {
        assert(entries_of_strings(s).drop_last() =~= entries_of_strings(s.drop_last()));
        lemma_position_of_strings(s.drop_last(), k);
    }
}

/// The keys of a map whose keys increase keep increasing when viewed.
proof fn lemma_keys_increase_view(s: Seq<(Seq<char>, LessonMeta)>)
    ensures
        keys_increase(metas_view(s)) == keys_increase(s),
{
    assert forall|i: int, j: int| 0 <= i < j < s.len() implies (metas_view(s)[i].0 == s[i].0
        && metas_view(s)[j].0 == s[j].0) by {}
    if keys_increase(s) {
        assert forall|i: int, j: int| 0 <= i < j < metas_view(s).len() implies crate::sorted::text_lt(
            #[trigger] metas_view(s)[i].0,
            #[trigger] metas_view(s)[j].0,
        ) by {
            assert(crate::sorted::text_lt(s[i].0, s[j].0));
        }
    }
    if keys_increase(metas_view(s)) {
        assert forall|i: int, j: int| 0 <= i < j < s.len() implies crate::sorted::text_lt(
            #[trigger] s[i].0,
            #[trigger] s[j].0,
        ) by {
            assert(crate::sorted::text_lt(metas_view(s)[i].0, metas_view(s)[j].0));
        }
    }
}

/// The keys of a map to strings keep increasing when viewed.
pub proof fn lemma_keys_increase_strings(s: Seq<(Seq<char>, String)>)
    ensures
        keys_increase(entries_of_strings(s)) == keys_increase(s),
{
    if keys_increase(s) {
        assert forall|i: int, j: int|
            0 <= i < j < entries_of_strings(s).len() implies crate::sorted::text_lt(
            #[trigger] entries_of_strings(s)[i].0,
            #[trigger] entries_of_strings(s)[j].0,
        ) by {
            assert(crate::sorted::text_lt(s[i].0, s[j].0));
        }
    }
    if keys_increase(entries_of_strings(s)) {
        assert forall|i: int, j: int| 0 <= i < j < s.len() implies crate::sorted::text_lt(
            #[trigger] s[i].0,
            #[trigger] s[j].0,
        ) by {
            assert(crate::sorted::text_lt(
                entries_of_strings(s)[i].0,
                entries_of_strings(s)[j].0,
            ));
        }
    }
}

/// Lessons built from a list have increasing names.
proof fn lemma_lessons_from_increase(infos: Seq<(Seq<char>, LessonMetaView)>)
    ensures
        keys_increase(lessons_from(infos)),
    decreases infos.len(),
{
    if infos.len() > 0 {
        lemma_lessons_from_increase(infos.drop_last());
        crate::sorted::lemma_inserted_keys_increase(
            lessons_from(infos.drop_last()),
            infos.last().0,
            infos.last().1,
        );
    } else {
        assert(keys_increase(Seq::<(Seq<char>, LessonMetaView)>::empty()));
    }
}

/// The title map's keys increase.
proof fn lemma_title_map_increase(s: Seq<(Seq<char>, LessonMetaView)>)
    ensures
        keys_increase(title_map(s)),
    decreases s.len(),
{
    if s.len() > 0 {
        lemma_title_map_increase(s.drop_last());
        crate::sorted::lemma_inserted_keys_increase(
            title_map(s.drop_last()),
            listed_title(s.last().1),
            s.last().0,
        );
    } else {
        assert(keys_increase(Seq::<(Seq<char>, Seq<char>)>::empty()));
    }
}

/// A lesson's metadata by value, for a list of named lessons.
pub open spec fn infos_view(v: Seq<(String, LessonMeta)>) -> Seq<(Seq<char>, LessonMetaView)> {
    Seq::new(v.len(), |i: int| (v[i].0@, meta_view(v[i].1)))
}

/// The title a lesson is listed with.
fn listed_title_exec(m: &LessonMeta) -> (r: String)
    ensures
        r@ == listed_title(meta_view(*m)),
{
    let mut t = owned(
        match m.status {
            Status::Completed => "✅",
            Status::InProgress => "⚙️",
            Status::NotStarted => "  ",
        },
    );
    t.append(" ");
    t.append(m.title.as_str());
    t
}

/// The status of the lesson with a name.
fn find_status(lessons: &SortedMap<LessonMeta>, key: &str) -> (r: Option<Status>)
    requires
        keys_increase(lessons@),
    ensures
        r == status_of(metas_view(lessons@), key@),
{
    proof {
        lemma_keys_increase_view(lessons@);
    }
    match lessons.find(key) {
        Some(i) => {
            proof {
                let s = metas_view(lessons@);
                assert(s[i as int].0 == key@);
                let c = choose|j: int| 0 <= j < s.len() && s[j].0 == key@;
                lemma_keys_unique(s, c, i as int);
            }
            Some(lessons.get(i).1.status)
        },
        None => {
            proof {
                let s = metas_view(lessons@);
                assert forall|j: int| 0 <= j < s.len() implies s[j].0 != key@ by {
                    assert(s[j].0 == lessons@[j].0);
                }
            }
            None
        },
    }
}

impl Lessons {
    /// An empty lessons screen.
    pub fn new() -> (r: Self)
        ensures
            lessons_inv(r@),
            r@ == (LessonsView {
                lessons: Seq::empty(),
                titles: Seq::empty(),
                titles_map: Seq::empty(),
                workshop_title: Seq::empty(),
                selected: None,
                st: ScrollTextView { scroll: Scroll::Top, lines: 0, window_lines: 0 },
                focused: LessonsFocus::List,
                spoken_language: None,
                programming_language: None,
            }),
    {
        let r = Lessons {
            lessons: SortedMap::new(),
            titles: Vec::new(),
            titles_map: SortedMap::new(),
            workshop_title: String::new(),
            selected: None,
            st: ScrollText::default(),
            focused: LessonsFocus::List,
            spoken_language: None,
            programming_language: None,
        };
        proof {
            assert(metas_view(r.lessons@) =~= Seq::<(Seq<char>, LessonMetaView)>::empty());
            assert(strings_view(r.titles@) =~= Seq::<Seq<char>>::empty());
            assert(entries_of_strings(r.titles_map@) =~= Seq::<(Seq<char>, Seq<char>)>::empty());
            assert(listed_titles(Seq::<(Seq<char>, LessonMetaView)>::empty()) =~= Seq::<
                Seq<char>,
            >::empty());
        }
        r
    }

    /// The screen's invariant holds.
    pub open spec fn wf(&self) -> bool {
        lessons_inv(self@)
    }

    /// Show a workshop's lessons: each keyed by its name, listed in name order under its
    /// status mark and title; the first is selected where there are any.
    pub fn init(
        &mut self,
        infos: Vec<(String, LessonMeta)>,
        workshop_title: &str,
        spoken_language: Option<spoken::Code>,
        programming_language: Option<programming::Code>,
    )
        requires
            infos@.len() < usize::MAX,
        ensures
            final(self).wf(),
            final(self)@.lessons == lessons_from(infos_view(infos@)),
            final(self)@.workshop_title == workshop_title@,
            final(self)@.selected == if final(self)@.lessons.len() == 0 {
                None
            } else {
                Some(0usize)
            },
            final(self)@.focused == old(self)@.focused,
            final(self)@.st == old(self)@.st,
            final(self)@.spoken_language == spoken_language,
            final(self)@.programming_language == programming_language,
    {
        let ghost iv = infos_view(infos@);
        let mut infos = infos;
        let mut lessons: SortedMap<LessonMeta> = SortedMap::new();
        let n = infos.len();
        let ghost all = infos@;
        let mut k: usize = 0;
        proof {
            assert(iv.take(0) =~= Seq::<(Seq<char>, LessonMetaView)>::empty());
            assert(metas_view(lessons@) =~= Seq::<(Seq<char>, LessonMetaView)>::empty());
        }
        while k < n
            invariant
                k <= n,
                n == all.len(),
                infos@ == all.skip(k as int),
                iv == infos_view(all),
                lessons.wf(),
                metas_view(lessons@) == lessons_from(iv.take(k as int)),
                lessons@.len() <= k,
            decreases n - k,
        {
            let (key, meta) = infos.remove(0);
            proof {
                assert(all[k as int] == (key, meta));
                assert(infos@ =~= all.skip(k + 1));
                let t = iv.take(k + 1);
                assert(t.drop_last() =~= iv.take(k as int));
                assert(t.last() == (key@, meta_view(meta)));
                lemma_metas_view_inserted(lessons@, key@, meta);
                crate::sorted::lemma_inserted_len(lessons@, key@, meta);
            }
            lessons.insert(key, meta);
            k = k + 1;
        }
        proof {
            assert(iv.take(n as int) =~= iv);
            lemma_keys_increase_view(lessons@);
        }
        let ghost lv = metas_view(lessons@);
        let mut titles: Vec<String> = Vec::new();
        let mut titles_map: SortedMap<String> = SortedMap::new();
        let mut i: usize = 0;
        proof {
            assert(entries_of_strings(titles_map@) =~= Seq::<(Seq<char>, Seq<char>)>::empty());
            assert(lv.take(0) =~= Seq::<(Seq<char>, LessonMetaView)>::empty());
        }
        while i < lessons.len()
            invariant
                i <= lessons@.len(),
                lv == metas_view(lessons@),
                titles@.len() == i,
                forall|j: int| 0 <= j < i ==> (#[trigger] titles@[j])@ == listed_title(lv[j].1),
                titles_map.wf(),
                entries_of_strings(titles_map@) == title_map(lv.take(i as int)),
            decreases lessons@.len() - i,
        {
            let entry = lessons.get(i);
            let title = listed_title_exec(&entry.1);
            proof {
                assert(lv[i as int] == (entry.0@, meta_view(entry.1)));
            }
            titles.push(title.clone());
            proof {
                let t = lv.take(i + 1);
                assert(t.drop_last() =~= lv.take(i as int));
                assert(t.last() == lv[i as int]);
                lemma_strings_inserted(titles_map@, title@, entry.0);
            }
            titles_map.insert(title, entry.0.clone());
            i = i + 1;
        }
        proof {
            assert(lv.take(lessons@.len() as int) =~= lv);
            assert(strings_view(titles@) =~= listed_titles(lv));
            lemma_keys_increase_strings(titles_map@);
        }
        let selected = if lessons.len() == 0 {
            None
        } else {
            Some(0)
        };
        self.lessons = lessons;
        self.titles = titles;
        self.titles_map = titles_map;
        self.workshop_title = owned(workshop_title);
        self.selected = selected;
        self.spoken_language = spoken_language;
        self.programming_language = programming_language;
    }

    /// The name of the selected lesson.
    pub fn get_selected_lesson_key(&self) -> (r: Option<String>)
        requires
            self.wf(),
        ensures
            match r {
                Some(k) => selected_key(self@) == Some(k@),
                None => selected_key(self@) is None,
            },
    {
        if self.lessons.len() == 0 {
            return None;
        }
        let i = match self.selected {
            Some(i) => i,
            None => 0,
        };
        if i < self.titles_map.len() {
            Some(self.titles_map.get(i).1.clone())
        } else {
            None
        }
    }

    /// Whether the lesson at a position can be opened.
    pub fn can_select_lesson(&self, index: usize) -> (r: bool)
        requires
            self.wf(),
        ensures
            r == can_select(self@, index),
    {
        proof {
            lemma_keys_increase_view(self.lessons@);
        }
        if index == 0 {
            return true;
        }
        if index < self.titles_map.len() {
            let prev = self.titles_map.get(index - 1);
            return match find_status(&self.lessons, prev.1.as_str()) {
                Some(s) => s == Status::Completed,
                None => false,
            };
        }
        false
    }

    /// Whether the lesson at a position is completed.
    pub fn is_lesson_completed(&self, index: usize) -> (r: bool)
        requires
            self.wf(),
        ensures
            r == is_completed(self@, index),
    {
        proof {
            lemma_keys_increase_view(self.lessons@);
        }
        if index < self.titles_map.len() {
            let key = self.titles_map.get(index);
            return match find_status(&self.lessons, key.1.as_str()) {
                Some(s) => s == Status::Completed,
                None => false,
            };
        }
        false
    }

    /// The titles listed, in order.
    pub fn titles(&self) -> (r: &Vec<String>)
        ensures
            strings_view(r@) == self@.titles,
    {
        &self.titles
    }

    /// The selected position.
    pub fn selected(&self) -> (r: Option<usize>)
        ensures
            r == self@.selected,
    {
        self.selected
    }

    /// Which part has the focus.
    pub fn focused(&self) -> (r: LessonsFocus)
        ensures
            r == self@.focused,
    {
        self.focused
    }

    /// The description shown for the selected lesson, or the note that there is none.
    pub fn info_text(&self) -> (r: String)
        requires
            self.wf(),
        ensures
            r@ == match selected_key(self@) {
                Some(k) => match meta_of(self@.lessons, k) {
                    Some(m) => m.1,
                    None => "No lessons support the selected spoken and programming languages"@,
                },
                None => "No lessons support the selected spoken and programming languages"@,
            },
    {
        proof {
            lemma_keys_increase_view(self.lessons@);
        }
        match self.get_selected_lesson_key() {
            Some(k) => match self.lessons.find(k.as_str()) {
                Some(i) => {
                    proof {
                        let s = metas_view(self.lessons@);
                        assert(s[i as int].0 == k@);
                        let c = choose|j: int| 0 <= j < s.len() && s[j].0 == k@;
                        lemma_keys_unique(s, c, i as int);
                    }
                    self.lessons.get(i).1.description.clone()
                },
                None => {
                    proof {
                        let s = metas_view(self.lessons@);
                        assert forall|j: int| 0 <= j < s.len() implies s[j].0 != k@ by {
                            assert(s[j].0 == self.lessons@[j].0);
                        }
                    }
                    owned("No lessons support the selected spoken and programming languages")
                },
            },
            None => owned("No lessons support the selected spoken and programming languages"),
        }
    }

    /// The description box's scrolling state.
    pub fn scroll_text(&mut self) -> (r: &mut ScrollText)
        ensures
            r@ == old(self)@.st,
            final(self)@ == (LessonsView { st: final(r)@, ..old(self)@ }),
    {
        &mut self.st
    }

    /// handle input events
    pub fn handle_input_event(&mut self, key: Key) -> (r: Option<Evt>)
        requires
            old(self).wf(),
            old(self)@.st.window_lines < usize::MAX,
        ensures
            final(self).wf(),
            final(self)@ == lessons_after_key(old(self)@, key),
            opt_evt_view(r) == lessons_key_event(old(self)@, key),
    {
        match key {
            Key::Tab(_) => {
                self.focused = match self.focused {
                    LessonsFocus::List => LessonsFocus::Info,
                    LessonsFocus::Info => LessonsFocus::List,
                };
                return None;
            },
            Key::Char('b') | Key::Esc => {
                let r = evt(None, UiEvent::SetWorkshop(None, Vec::new()));
                proof {
                    assert(crate::models::workshop::map_view(
                        Seq::<crate::models::workshop::LanguageEntry>::empty(),
                    ) =~= Seq::empty());
                }
                return Some(r);
            },
            Key::Enter => {
                return match self.selected {
                    Some(i) => {
                        if self.can_select_lesson(i) {
                            Some(evt(None, UiEvent::SetLesson(self.get_selected_lesson_key())))
                        } else {
                            None
                        }
                    },
                    None => None,
                };
            },
            _ => {},
        }
        if self.focused == LessonsFocus::List {
            let n = self.lessons.len();
            if n > 0 {
                let i = match self.selected {
                    Some(i) => i,
                    None => 0,
                };
                match key {
                    Key::PageUp => self.selected = Some(0),
                    Key::PageDown => self.selected = Some(n - 1),
                    Key::Char('j') | Key::Char('J') | Key::Down => {
                        self.selected = Some(
                            if i + 1 < n {
                                i + 1
                            } else {
                                n - 1
                            },
                        );
                    },
                    Key::Char('k') | Key::Char('K') | Key::Up => {
                        self.selected = Some(
                            if i > 0 {
                                i - 1
                            } else {
                                0
                            },
                        );
                    },
                    _ => {},
                }
            }
        } else {
            match key {
                Key::PageUp => self.st.scroll_top(),
                Key::PageDown => self.st.scroll_bottom(),
                Key::Char('j') | Key::Char('J') | Key::Down => self.st.scroll_down(),
                Key::Char('k') | Key::Char('K') | Key::Up => self.st.scroll_up(),
                _ => {},
            }
        }
        None
    }
}

} // verus!
