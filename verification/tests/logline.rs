use workshop::logline::{event_line, span_line, Level, SpanDepth};

#[test]
fn level_markers_prefix_plain_messages() {
    assert_eq!(event_line(Level::Error, 0, "boom"), "! boom");
    assert_eq!(event_line(Level::Warn, 0, "careful"), "^ careful");
    assert_eq!(event_line(Level::Info, 0, "hello"), "i hello");
    assert_eq!(event_line(Level::Debug, 0, "detail"), "  detail");
    assert_eq!(event_line(Level::Trace, 0, "trace"), "  trace");
}

#[test]
fn own_markers_are_kept_and_indented() {
    assert_eq!(event_line(Level::Info, 2, "r Running check"), "r     Running check");
    assert_eq!(event_line(Level::Error, 1, "v done"), "v   done");
    assert_eq!(event_line(Level::Info, 1, "* star"), "*   star");
    // a letter that is no marker, or a marker letter without a space, takes the level's marker
    assert_eq!(event_line(Level::Info, 1, "a b"), "i   a b");
    assert_eq!(event_line(Level::Warn, 0, "rx"), "^ rx");
    assert_eq!(event_line(Level::Info, 0, "r"), "i r");
    assert_eq!(event_line(Level::Info, 0, ""), "i ");
}

#[test]
fn messages_with_wide_characters() {
    assert_eq!(event_line(Level::Info, 1, "x é ü"), "x   é ü");
    assert_eq!(event_line(Level::Info, 0, "é"), "i é");
}

#[test]
fn span_lines() {
    assert_eq!(span_line(true, 0, "load"), "> load");
    assert_eq!(span_line(false, 2, "load"), "<     load");
}

#[test]
fn entering_and_leaving_spans() {
    let mut d = SpanDepth::new();
    assert_eq!(d.depth(), 0);
    assert_eq!(d.enter("outer"), "> outer");
    assert_eq!(d.depth(), 1);
    assert_eq!(d.enter("inner"), ">   inner");
    assert_eq!(d.event(Level::Info, "work"), "i     work");
    assert_eq!(d.exit("inner"), "<   inner");
    assert_eq!(d.exit("outer"), "< outer");
    assert_eq!(d.depth(), 0);
    assert_eq!(d.exit("stray"), "< stray");
    assert_eq!(d.depth(), 0);
}
