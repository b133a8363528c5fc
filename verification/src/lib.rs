//! Verified core of the workshop runner: languages, workshop models, lesson
//! rendering state, scrolling widgets' state machines and the UI decisions.

pub mod text;
pub mod languages;
pub mod models;
pub mod markdown;
pub mod highlight;
pub mod render;
pub mod scrolltext;
pub mod lessonbox;
pub mod command;
pub mod ui;
pub mod app;
pub mod statusbar;
pub mod scrolllog;
pub mod logscreen;
pub mod dialogs;
pub mod lesson_screen;
pub mod sorted;
pub mod lessons;
pub mod workshops;
pub mod catalog;
pub mod engine;
pub mod config;
pub mod settings;
pub mod python;
pub mod front;
pub mod describe;
pub mod logline;
