//! The front end of the engine: a stack of screens, what each user interface event does to it,
//! and what it asks of the engine and of the configuration.

use crate::languages::{programming, spoken};
use crate::text::owned;
use crate::ui::Key;
use vstd::prelude::*;

verus! {

/// The screens of the engine's front end.
#[derive(Clone, Copy, Debug, PartialEq, Eq, Structural)]
pub enum Screens {
    Workshops,
    Log,
    License,
    Spoken,
    SpokenSetDefault,
    Programming,
    ProgrammingSetDefault,
    Lessons,
}

/// What happens in the front end.
pub enum FrontEvent {
    /// Go back to the previous screen.
    Back,
    /// Quit.
    Quit,
    /// Show the workshop choice.
    SelectWorkshop,
    /// A workshop was chosen.
    SetWorkshop(String),
    /// Show or hide the log.
    ToggleLog,
    /// Show the license.
    ShowLicense,
    /// Open a web page.
    Homepage(String),
    /// Ask for the spoken language.
    ChangeSpokenLanguage,
    /// A spoken language is being chosen.
    SelectSpokenLanguage,
    /// A spoken language was chosen.
    SetSpokenLanguage(Option<spoken::Code>),
    /// The answer to whether the spoken language becomes the default.
    SetSpokenLanguageDefault(Option<spoken::Code>),
    /// Ask for the programming language.
    ChangeProgrammingLanguage,
    /// A programming language is being chosen.
    SelectProgrammingLanguage,
    /// A programming language was chosen.
    SetProgrammingLanguage(Option<programming::Code>),
    /// The answer to whether the programming language becomes the default.
    SetProgrammingLanguageDefault(Option<programming::Code>),
}

/// An event by value.
pub enum FrontEventView {
    Back,
    Quit,
    SelectWorkshop,
    SetWorkshop(Seq<char>),
    ToggleLog,
    ShowLicense,
    Homepage(Seq<char>),
    ChangeSpokenLanguage,
    SelectSpokenLanguage,
    SetSpokenLanguage(Option<spoken::Code>),
    SetSpokenLanguageDefault(Option<spoken::Code>),
    ChangeProgrammingLanguage,
    SelectProgrammingLanguage,
    SetProgrammingLanguage(Option<programming::Code>),
    SetProgrammingLanguageDefault(Option<programming::Code>),
}

impl View for FrontEvent {
    type V = FrontEventView;

    open spec fn view(&self) -> FrontEventView {
        match self {
            FrontEvent::Back => FrontEventView::Back,
            FrontEvent::Quit => FrontEventView::Quit,
            FrontEvent::SelectWorkshop => FrontEventView::SelectWorkshop,
            FrontEvent::SetWorkshop(w) => FrontEventView::SetWorkshop(w@),
            FrontEvent::ToggleLog => FrontEventView::ToggleLog,
            FrontEvent::ShowLicense => FrontEventView::ShowLicense,
            FrontEvent::Homepage(u) => FrontEventView::Homepage(u@),
            FrontEvent::ChangeSpokenLanguage => FrontEventView::ChangeSpokenLanguage,
            FrontEvent::SelectSpokenLanguage => FrontEventView::SelectSpokenLanguage,
            FrontEvent::SetSpokenLanguage(s) => FrontEventView::SetSpokenLanguage(*s),
            FrontEvent::SetSpokenLanguageDefault(s) => FrontEventView::SetSpokenLanguageDefault(*s),
            FrontEvent::ChangeProgrammingLanguage => FrontEventView::ChangeProgrammingLanguage,
            FrontEvent::SelectProgrammingLanguage => FrontEventView::SelectProgrammingLanguage,
            FrontEvent::SetProgrammingLanguage(p) => FrontEventView::SetProgrammingLanguage(*p),
            FrontEvent::SetProgrammingLanguageDefault(p) => FrontEventView::SetProgrammingLanguageDefault(*p),
        }
    }
}

/// What the front end asks of the engine.
#[derive(Clone, Copy, Debug, PartialEq, Eq, Structural)]
pub enum EngineCall {
    Back,
    Quit,
    ChangeSpokenLanguage,
    ChangeProgrammingLanguage,
}

/// What an event makes the front end do outside its stack of screens.
pub enum Effect {
    /// Send this to the engine.
    Engine(EngineCall),
    /// Save the spoken language as the default.
    SaveSpokenLanguage(Option<spoken::Code>),
    /// Save the programming language as the default.
    SaveProgrammingLanguage(Option<programming::Code>),
    /// Open a web page.
    OpenHomepage(String),
}

/// An effect by value.
pub enum EffectView {
    Engine(EngineCall),
    SaveSpokenLanguage(Option<spoken::Code>),
    SaveProgrammingLanguage(Option<programming::Code>),
    OpenHomepage(Seq<char>),
}

impl View for Effect {
    type V = EffectView;

    open spec fn view(&self) -> EffectView {
        match self {
            Effect::Engine(c) => EffectView::Engine(*c),
            Effect::SaveSpokenLanguage(s) => EffectView::SaveSpokenLanguage(*s),
            Effect::SaveProgrammingLanguage(p) => EffectView::SaveProgrammingLanguage(*p),
            Effect::OpenHomepage(u) => EffectView::OpenHomepage(u@),
        }
    }
}

/// Effects by value.
pub open spec fn effects_view(v: Seq<Effect>) -> Seq<EffectView> {
    Seq::new(v.len(), |i: int| v[i]@)
}

/// The stack with a screen pushed unless it is already shown.
pub open spec fn show(stack: Seq<Screens>, s: Screens) -> Seq<Screens> {
    if stack.len() > 0 && stack.last() == s {
        stack
    } else {
        stack.push(s)
    }
}

/// The stack with the shown screen taken off, if there is one.
pub open spec fn pop(stack: Seq<Screens>) -> Seq<Screens> {
    if stack.len() > 0 {
        stack.drop_last()
    } else {
        stack
    }
}

/// What an event does: the stack of screens after it, what it asks of the engine and the
/// configuration, in order, and whether the front end goes on.
pub open spec fn front_step(stack: Seq<Screens>, e: FrontEventView) -> (Seq<Screens>, Seq<EffectView>, bool) {
    match e {
        FrontEventView::Back => if stack.len() > 0 {
            (stack.drop_last(), seq![EffectView::Engine(EngineCall::Back)], true)
        } else {
            (stack, Seq::empty(), true)
        },
        FrontEventView::Quit => (stack, seq![EffectView::Engine(EngineCall::Quit)], false),
        FrontEventView::SelectWorkshop => (
            if stack.len() > 0 && stack.last() == Screens::Spoken {
                stack
            } else {
                stack.push(Screens::Workshops)
            },
            Seq::empty(),
            true,
        ),
        FrontEventView::SetWorkshop(_) => (stack, Seq::empty(), true),
        FrontEventView::ToggleLog => (
            if stack.len() > 0 && stack.last() == Screens::Log {
                stack.drop_last()
            } else {
                stack.push(Screens::Log)
            },
            Seq::empty(),
            true,
        ),
        FrontEventView::ShowLicense => (show(stack, Screens::License), Seq::empty(), true),
        FrontEventView::Homepage(u) => (stack, seq![EffectView::OpenHomepage(u)], true),
        FrontEventView::ChangeSpokenLanguage => (
            show(stack, Screens::Spoken),
            seq![EffectView::Engine(EngineCall::ChangeSpokenLanguage)],
            true,
        ),
        FrontEventView::SelectSpokenLanguage => (stack, Seq::empty(), true),
        FrontEventView::SetSpokenLanguage(_) => (
            pop(stack).push(Screens::SpokenSetDefault),
            Seq::empty(),
            true,
        ),
        FrontEventView::SetSpokenLanguageDefault(s) => (
            pop(stack),
            seq![EffectView::SaveSpokenLanguage(s), EffectView::Engine(EngineCall::Back)],
            true,
        ),
        FrontEventView::ChangeProgrammingLanguage => (
            show(stack, Screens::Programming),
            seq![EffectView::Engine(EngineCall::ChangeProgrammingLanguage)],
            true,
        ),
        FrontEventView::SelectProgrammingLanguage => (stack, Seq::empty(), true),
        FrontEventView::SetProgrammingLanguage(_) => (
            pop(stack).push(Screens::ProgrammingSetDefault),
            Seq::empty(),
            true,
        ),
        FrontEventView::SetProgrammingLanguageDefault(p) => (
            pop(stack),
            seq![
                EffectView::SaveProgrammingLanguage(p),
                EffectView::Engine(EngineCall::Back),
            ],
            true,
        ),
    }
}

/// Where a key goes in the front end.
#[derive(Clone, Copy, Debug, PartialEq, Eq, Structural)]
pub enum KeyTarget {
    /// The key quits.
    Quit,
    /// The key shows or hides the log.
    ToggleLog,
    /// The key goes to the shown screen.
    Screen(Screens),
    /// No screen is shown.
    Nowhere,
}

/// The front end of the engine: its stack of screens, the last one shown.
pub struct Front {
    screen: Vec<Screens>,
}

impl View for Front {
    type V = Seq<Screens>;

    closed spec fn view(&self) -> Seq<Screens> {
        self.screen@
    }
}

/// One effect.
fn one(e: Effect) -> (r: Vec<Effect>)
    ensures
        effects_view(r@) == seq![e@],
{
    let mut r: Vec<Effect> = Vec::new();
    r.push(e);
    proof {
        assert(effects_view(r@) =~= seq![e@]);
    }
    r
}

/// Two effects.
fn two(a: Effect, b: Effect) -> (r: Vec<Effect>)
    ensures
        effects_view(r@) == seq![a@, b@],
{
    let mut r: Vec<Effect> = Vec::new();
    r.push(a);
    r.push(b);
    proof {
        assert(effects_view(r@) =~= seq![a@, b@]);
    }
    r
}

/// No effect.
fn none() -> (r: Vec<Effect>)
    ensures
        effects_view(r@) == Seq::<EffectView>::empty(),
{
    let r: Vec<Effect> = Vec::new();
    proof {
        assert(effects_view(r@) =~= Seq::<EffectView>::empty());
    }
    r
}

impl Front {
    /// A front end showing the workshop choice.
    pub fn new() -> (r: Self)
        ensures
            r@ == seq![Screens::Workshops],
    {
        let mut screen: Vec<Screens> = Vec::new();
        screen.push(Screens::Workshops);
        proof {
            assert(screen@ =~= seq![Screens::Workshops]);
        }
        Front { screen }
    }

    /// The screen shown, if any.
    pub fn shown(&self) -> (r: Option<Screens>)
        ensures
            r == if self@.len() > 0 {
                Some(self@.last())
            } else {
                None
            },
    {
        let n = self.screen.len();
        if n > 0 {
            Some(self.screen[n - 1])
        } else {
            None
        }
    }

    /// The number of screens on the stack.
    pub fn depth(&self) -> (r: usize)
        ensures
            r == self@.len(),
    {
        self.screen.len()
    }

    fn top_is(&self, s: Screens) -> (r: bool)
        ensures
            r == (self@.len() > 0 && self@.last() == s),
    {
        let n = self.screen.len();
        n > 0 && self.screen[n - 1] == s
    }

    fn pop_screen(&mut self)
        ensures
            final(self)@ == pop(old(self)@),
    {
        if self.screen.len() > 0 {
            self.screen.pop();
            proof {
                assert(self.screen@ =~= old(self)@.drop_last());
            }
        }
    }

    fn show_screen(&mut self, s: Screens)
        ensures
            final(self)@ == show(old(self)@, s),
    {
        if !self.top_is(s) {
            self.screen.push(s);
        }
    }

    /// Take an event: change the stack of screens, and say what to ask of the engine and the
    /// configuration, and whether to go on.
    pub fn handle_ui_event(&mut self, event: FrontEvent) -> (r: (Vec<Effect>, bool))
        ensures
            (final(self)@, effects_view(r.0@), r.1) == front_step(old(self)@, event@),
    {
        match event {
            FrontEvent::Back => {
                if self.screen.len() > 0 {
                    self.pop_screen();
                    (one(Effect::Engine(EngineCall::Back)), true)
                } else {
                    (none(), true)
                }
            },
            FrontEvent::Quit => (one(Effect::Engine(EngineCall::Quit)), false),
            FrontEvent::SelectWorkshop => {
                if !self.top_is(Screens::Spoken) {
                    self.screen.push(Screens::Workshops);
                }
                (none(), true)
            },
            FrontEvent::SetWorkshop(_) => (none(), true),
            FrontEvent::ToggleLog => {
                if self.top_is(Screens::Log) {
                    self.pop_screen();
                } else {
                    self.screen.push(Screens::Log);
                }
                (none(), true)
            },
            FrontEvent::ShowLicense => {
                self.show_screen(Screens::License);
                (none(), true)
            },
            FrontEvent::Homepage(url) => (one(Effect::OpenHomepage(url)), true),
            FrontEvent::ChangeSpokenLanguage => {
                self.show_screen(Screens::Spoken);
                (one(Effect::Engine(EngineCall::ChangeSpokenLanguage)), true)
            },
            FrontEvent::SelectSpokenLanguage => (none(), true),
            FrontEvent::SetSpokenLanguage(_) => {
                self.pop_screen();
                self.screen.push(Screens::SpokenSetDefault);
                (none(), true)
            },
            FrontEvent::SetSpokenLanguageDefault(s) => {
                self.pop_screen();
                (two(Effect::SaveSpokenLanguage(s), Effect::Engine(EngineCall::Back)), true)
            },
            FrontEvent::ChangeProgrammingLanguage => {
                self.show_screen(Screens::Programming);
                (one(Effect::Engine(EngineCall::ChangeProgrammingLanguage)), true)
            },
            FrontEvent::SelectProgrammingLanguage => (none(), true),
            FrontEvent::SetProgrammingLanguage(_) => {
                self.pop_screen();
                self.screen.push(Screens::ProgrammingSetDefault);
                (none(), true)
            },
            FrontEvent::SetProgrammingLanguageDefault(p) => {
                self.pop_screen();
                (two(Effect::SaveProgrammingLanguage(p), Effect::Engine(EngineCall::Back)), true)
            },
        }
    }

    /// Where a key goes: `q` quits and the backquote toggles the log on every screen; any
    /// other key goes to the screen shown.
    pub fn route_key(&self, key: Key) -> (r: KeyTarget)
        ensures
            r == if key == Key::Char('q') || key == Key::Char('Q') {
                KeyTarget::Quit
            } else if key == Key::Char('`') {
                KeyTarget::ToggleLog
            } else if self@.len() > 0 {
                KeyTarget::Screen(self@.last())
            } else {
                KeyTarget::Nowhere
            },
    {
        if key == Key::Char('q') || key == Key::Char('Q') {
            KeyTarget::Quit
        } else if key == Key::Char('`') {
            KeyTarget::ToggleLog
        } else {
            match self.shown() {
                Some(s) => KeyTarget::Screen(s),
                None => KeyTarget::Nowhere,
            }
        }
    }

    /// Which screen takes a message from the engine: log lines always go to the log, anything
    /// else to the screen shown.
    pub fn route_message(&self, is_log: bool) -> (r: Option<Screens>)
        ensures
            r == if is_log {
                Some(Screens::Log)
            } else if self@.len() > 0 {
                Some(self@.last())
            } else {
                None
            },
    {
        if is_log {
            Some(Screens::Log)
        } else {
            self.shown()
        }
    }
}

/// Toggling the log twice brings the same screens back, unless the log is shown on top of
/// the log.
pub proof fn lemma_toggle_log_twice(stack: Seq<Screens>)
    requires
        !(stack.len() >= 2 && stack.last() == Screens::Log && stack[stack.len() - 2]
            == Screens::Log),
    ensures
        front_step(front_step(stack, FrontEventView::ToggleLog).0, FrontEventView::ToggleLog).0 == stack,
{
    assert(stack.push(Screens::Log).drop_last() =~= stack);
    if stack.len() > 0 && stack.last() == Screens::Log {
        assert(stack.drop_last().push(Screens::Log) =~= stack);
    }
}

/// Choosing a spoken language from its picker and answering whether it becomes the default
/// leaves the screens below the picker, saves the answer, and sends the engine back once.
pub proof fn lemma_spoken_choice_returns(
    stack: Seq<Screens>,
    s: Option<spoken::Code>,
    d: Option<spoken::Code>,
)
    requires
        stack.len() > 0,
        stack.last() == Screens::Spoken,
    ensures
        ({
            let chosen = front_step(stack, FrontEventView::SetSpokenLanguage(s));
            let answered = front_step(chosen.0, FrontEventView::SetSpokenLanguageDefault(d));
            &&& chosen.1.len() == 0
            &&& answered.0 == stack.drop_last()
            &&& answered.1 == seq![
                EffectView::SaveSpokenLanguage(d),
                EffectView::Engine(EngineCall::Back),
            ]
        }),
{
    assert(stack.drop_last().push(Screens::SpokenSetDefault).drop_last() =~= stack.drop_last());
}

/// Choosing a programming language from its picker and answering whether it becomes the
/// default leaves the screens below the picker, saves the answer, and sends the engine back
/// once.
pub proof fn lemma_programming_choice_returns(
    stack: Seq<Screens>,
    p: Option<programming::Code>,
    d: Option<programming::Code>,
)
    requires
        stack.len() > 0,
        stack.last() == Screens::Programming,
    ensures
        ({
            let chosen = front_step(stack, FrontEventView::SetProgrammingLanguage(p));
            let answered = front_step(chosen.0, FrontEventView::SetProgrammingLanguageDefault(d));
            &&& chosen.1.len() == 0
            &&& answered.0 == stack.drop_last()
            &&& answered.1 == seq![
                EffectView::SaveProgrammingLanguage(d),
                EffectView::Engine(EngineCall::Back),
            ]
        }),
{
    assert(stack.drop_last().push(Screens::ProgrammingSetDefault).drop_last() =~= stack.drop_last());
}

/// Only quitting stops the front end, and it always asks the engine to quit.
pub proof fn lemma_only_quit_stops(stack: Seq<Screens>, e: FrontEventView)
    ensures
        !front_step(stack, e).2 <==> e is Quit,
        e is Quit ==> front_step(stack, e).1 == seq![EffectView::Engine(EngineCall::Quit)],
{
}

} // verus!
