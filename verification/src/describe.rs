//! One line of text for each message between the engine and the user interface, as the
//! engine's log shows it.

use crate::engine::{Message, MessageView, Request, RequestView};
use crate::languages::{programming, spoken};
use crate::text::{owned, push_char};
use vstd::prelude::*;
use vstd::string::*;

verus! {

/// The character of a decimal digit.
pub open spec fn digit_char(d: nat) -> char {
    if d == 0 {
        '0'
    } else if d == 1 {
        '1'
    } else if d == 2 {
        '2'
    } else if d == 3 {
        '3'
    } else if d == 4 {
        '4'
    } else if d == 5 {
        '5'
    } else if d == 6 {
        '6'
    } else if d == 7 {
        '7'
    } else if d == 8 {
        '8'
    } else {
        '9'
    }
}

/// A number written in decimal, without leading zeros.
pub open spec fn decimal(n: nat) -> Seq<char>
    decreases n,
{
    if n < 10 {
        seq![digit_char(n)]
    } else {
        decimal(n / 10).push(digit_char(n % 10))
    }
}

/// An optional spoken language as `Some(code)` or `None`.
pub open spec fn spoken_option_text(o: Option<spoken::Code>) -> Seq<char> {
    match o {
        Some(c) => "Some("@ + spoken::code_str(c) + ")"@,
        None => "None"@,
    }
}

/// An optional programming language as `Some(code)` or `None`.
pub open spec fn programming_option_text(o: Option<programming::Code>) -> Seq<char> {
    match o {
        Some(c) => "Some("@ + programming::code_str(c) + ")"@,
        None => "None"@,
    }
}

/// The line for a message to the user interface.
pub open spec fn message_text(m: MessageView) -> Seq<char> {
    match m {
        MessageView::SelectWorkshop(ws, _, _) => "SelectWorkshop with "@ + decimal(ws.len())
            + " workshops"@,
        MessageView::ShowWorkshopDescription(n, t) => "ShowWorkshopDescription: "@ + n + " "@ + t,
        MessageView::ShowWorkshopSetupInstructions(n, t) => "ShowWorkshopSetupInstructions: "@ + n
            + " "@ + t,
        MessageView::ShowWorkshopSpokenLanguages(n, ls) => "ShowWorkshopSpokenLanguages: "@ + n
            + " with "@ + decimal(ls.len()) + " languages"@,
        MessageView::ShowWorkshopProgrammingLanguages(n, ls) => "ShowWorkshopProgrammingLanguages: "@
            + n + " with "@ + decimal(ls.len()) + " languages"@,
        MessageView::SelectLesson(ls, _, _, _) => "SelectLesson with "@ + decimal(ls.len())
            + " lessons"@,
        MessageView::ShowLicense(t) => "ShowLicense: "@ + t,
        MessageView::SelectSpokenLanguage(ls, _) => "SelectSpokenLanguage with "@ + decimal(
            ls.len(),
        ) + " languages"@,
        MessageView::SetSpokenLanguageDefault(s) => "SetSpokenLanguageDefault: "@
            + spoken_option_text(s),
        MessageView::SelectProgrammingLanguage(ls, _) => "SelectProgrammingLanguage with "@
            + decimal(ls.len()) + " languages"@,
        MessageView::SetProgrammingLanguageDefault(p) => "SetProgrammingLanguageDefault: "@
            + programming_option_text(p),
        MessageView::Error(e) => "Error: "@ + e,
        MessageView::Quit => "Quit"@,
    }
}

/// The line for a request from the user interface.
pub open spec fn request_text(q: RequestView) -> Seq<char> {
    match q {
        RequestView::Config(..) => "Config message"@,
        RequestView::GetWorkshopDescription(n, _) => "GetWorkshopDescription for workshop: "@ + n,
        RequestView::GetWorkshopSetupInstructions(n, _) =>
            "GetWorkshopSetupInstructions for workshop: "@ + n,
        RequestView::GetWorkshopSpokenLanguages(n) => "GetWorkshopSpokenLanguages for workshop: "@
            + n,
        RequestView::GetWorkshopProgrammingLanguages(n) =>
            "GetWorkshopProgrammingLanguages for workshop: "@ + n,
        RequestView::GetLicense(n, _) => "GetLicense for workshop: "@ + n,
        RequestView::ChangeSpokenLanguage => "ChangeSpokenLanguage"@,
        RequestView::SetSpokenLanguage(s, _) => "SetSpokenLanguage: "@ + spoken_option_text(s),
        RequestView::ChangeProgrammingLanguage => "ChangeProgrammingLanguage"@,
        RequestView::SetProgrammingLanguage(p, _) => "SetProgrammingLanguage: "@
            + programming_option_text(p),
        RequestView::SetWorkshop(n, _) => "SetWorkshop: "@ + n,
        RequestView::Back => "Back"@,
        RequestView::Quit => "Quit"@,
        RequestView::SetLesson(n) => "SetLesson: "@ + n,
        RequestView::Log(m) => "Log: "@ + m,
    }
}

/// The character of a decimal digit.
fn digit(d: usize) -> (r: char)
    requires
        d < 10,
    ensures
        r == digit_char(d as nat),
{
    if d == 0 {
        '0'
    } else if d == 1 {
        '1'
    } else if d == 2 {
        '2'
    } else if d == 3 {
        '3'
    } else if d == 4 {
        '4'
    } else if d == 5 {
        '5'
    } else if d == 6 {
        '6'
    } else if d == 7 {
        '7'
    } else if d == 8 {
        '8'
    } else {
        '9'
    }
}

/// Append a number in decimal.
pub fn push_decimal(s: &mut String, n: usize)
    ensures
        final(s)@ == old(s)@ + decimal(n as nat),
    decreases n,
{
    if n >= 10 {
        push_decimal(s, n / 10);
        push_char(s, digit(n % 10));
        proof {
            assert(s@ =~= old(s)@ + decimal((n / 10) as nat).push(digit_char((n % 10) as nat)));
        }
    } else {
        push_char(s, digit(n));
        proof {
            assert(s@ =~= old(s)@ + decimal(n as nat));
        }
    }
}

/// Append an optional spoken language as `Some(code)` or `None`.
fn push_spoken_option(s: &mut String, o: Option<spoken::Code>)
    ensures
        final(s)@ == old(s)@ + spoken_option_text(o),
{
    match o {
        Some(c) => {
            s.append("Some(");
            s.append(c.as_str());
            s.append(")");
            proof {
                assert(s@ =~= old(s)@ + spoken_option_text(o));
            }
        },
        None => {
            s.append("None");
        },
    }
}

/// Append an optional programming language as `Some(code)` or `None`.
fn push_programming_option(s: &mut String, o: Option<programming::Code>)
    ensures
        final(s)@ == old(s)@ + programming_option_text(o),
{
    match o {
        Some(c) => {
            s.append("Some(");
            s.append(c.as_str());
            s.append(")");
            proof {
                assert(s@ =~= old(s)@ + programming_option_text(o));
            }
        },
        None => {
            s.append("None");
        },
    }
}

/// A string holding `head` followed by `tail`.
fn text2(head: &str, tail: &str) -> (r: String)
    ensures
        r@ == head@ + tail@,
{
    let mut r = String::new();
    r.append(head);
    r.append(tail);
    proof {
        assert(r@ =~= head@ + tail@);
    }
    r
}

/// A string holding `head`, a number in decimal, and `tail`.
fn counted(head: &str, n: usize, tail: &str) -> (r: String)
    ensures
        r@ == head@ + decimal(n as nat) + tail@,
{
    let mut r = String::new();
    r.append(head);
    push_decimal(&mut r, n);
    r.append(tail);
    proof {
        assert(r@ =~= head@ + decimal(n as nat) + tail@);
    }
    r
}

impl Message {
    /// The line the log shows for this message.
    pub fn to_string(&self) -> (r: String)
        ensures
            r@ == message_text(self@),
    {
        match self {
            Message::SelectWorkshop { workshops, .. } => counted(
                "SelectWorkshop with ",
                workshops.len(),
                " workshops",
            ),
            Message::ShowWorkshopDescription { name, text } => {
                let mut r = text2("ShowWorkshopDescription: ", name.as_str());
                r.append(" ");
                r.append(text.as_str());
                proof {
                    assert(r@ =~= message_text(self@));
                }
                r
            },
            Message::ShowWorkshopSetupInstructions { name, text } => {
                let mut r = text2("ShowWorkshopSetupInstructions: ", name.as_str());
                r.append(" ");
                r.append(text.as_str());
                proof {
                    assert(r@ =~= message_text(self@));
                }
                r
            },
            Message::ShowWorkshopSpokenLanguages { name, spoken_languages } => {
                let mut r = text2("ShowWorkshopSpokenLanguages: ", name.as_str());
                r.append(" with ");
                push_decimal(&mut r, spoken_languages.len());
                r.append(" languages");
                proof {
                    assert(r@ =~= message_text(self@));
                }
                r
            },
            Message::ShowWorkshopProgrammingLanguages { name, programming_languages } => {
                let mut r = text2("ShowWorkshopProgrammingLanguages: ", name.as_str());
                r.append(" with ");
                push_decimal(&mut r, programming_languages.len());
                r.append(" languages");
                proof {
                    assert(r@ =~= message_text(self@));
                }
                r
            },
            Message::SelectLesson { lessons, .. } => counted(
                "SelectLesson with ",
                lessons.len(),
                " lessons",
            ),
            Message::ShowLicense { text } => text2("ShowLicense: ", text.as_str()),
            Message::SelectSpokenLanguage { spoken_languages, .. } => counted(
                "SelectSpokenLanguage with ",
                spoken_languages.len(),
                " languages",
            ),
            Message::SetSpokenLanguageDefault { spoken_language } => {
                let mut r = owned("SetSpokenLanguageDefault: ");
                push_spoken_option(&mut r, *spoken_language);
                proof {
                    assert(r@ =~= message_text(self@));
                }
                r
            },
            Message::SelectProgrammingLanguage { programming_languages, .. } => counted(
                "SelectProgrammingLanguage with ",
                programming_languages.len(),
                " languages",
            ),
            Message::SetProgrammingLanguageDefault { programming_language } => {
                let mut r = owned("SetProgrammingLanguageDefault: ");
                push_programming_option(&mut r, *programming_language);
                proof {
                    assert(r@ =~= message_text(self@));
                }
                r
            },
            Message::Error { error } => text2("Error: ", error.as_str()),
            Message::Quit => owned("Quit"),
        }
    }
}

impl Request {
    /// The line the log shows for this request.
    pub fn to_string(&self) -> (r: String)
        ensures
            r@ == request_text(self@),
    {
        match self {
            Request::Config { .. } => owned("Config message"),
            Request::GetWorkshopDescription { name, .. } => text2(
                "GetWorkshopDescription for workshop: ",
                name.as_str(),
            ),
            Request::GetWorkshopSetupInstructions { name, .. } => text2(
                "GetWorkshopSetupInstructions for workshop: ",
                name.as_str(),
            ),
            Request::GetWorkshopSpokenLanguages { name } => text2(
                "GetWorkshopSpokenLanguages for workshop: ",
                name.as_str(),
            ),
            Request::GetWorkshopProgrammingLanguages { name } => text2(
                "GetWorkshopProgrammingLanguages for workshop: ",
                name.as_str(),
            ),
            Request::GetLicense { name, .. } => text2("GetLicense for workshop: ", name.as_str()),
            Request::ChangeSpokenLanguage => owned("ChangeSpokenLanguage"),
            Request::SetSpokenLanguage { spoken_language, .. } => {
                let mut r = owned("SetSpokenLanguage: ");
                push_spoken_option(&mut r, *spoken_language);
                r
            },
            Request::ChangeProgrammingLanguage => owned("ChangeProgrammingLanguage"),
            Request::SetProgrammingLanguage { programming_language, .. } => {
                let mut r = owned("SetProgrammingLanguage: ");
                push_programming_option(&mut r, *programming_language);
                r
            },
            Request::SetWorkshop { name, .. } => text2("SetWorkshop: ", name.as_str()),
            Request::Back => owned("Back"),
            Request::Quit => owned("Quit"),
            Request::SetLesson { name } => text2("SetLesson: ", name.as_str()),
            Request::Log { msg } => text2("Log: ", msg.as_str()),
        }
    }
}

} // verus!
