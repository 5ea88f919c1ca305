use accountable_refcell::{capture_stack, is_machinery, render_frame, render_trace, Frame,
    StackTrace, SymbolInfo};

fn named(name: &str) -> Frame {
    Frame {
        symbol: Some(SymbolInfo { name: Some(name.to_string()), file: None, line: None }),
    }
}

#[test]
fn unresolved_frame_renders_placeholder() {
    let f = Frame { symbol: None };
    assert_eq!("<no-info>", render_frame(&f));
}

#[test]
fn nameless_symbol_renders_unknown() {
    let f = Frame { symbol: Some(SymbolInfo { name: None, file: None, line: None }) };
    assert_eq!("<unknown>", render_frame(&f));
}

#[test]
fn named_frame_with_location_renders_name_file_and_line() {
    let f = Frame {
        symbol: Some(SymbolInfo {
            name: Some("foo::bar".to_string()),
            file: Some("\"src/main.rs\"".to_string()),
            line: Some(42),
        }),
    };
    assert_eq!("foo::bar at \"src/main.rs\":42", render_frame(&f));
}

#[test]
fn location_needs_both_file_and_line() {
    let with_file = Frame {
        symbol: Some(SymbolInfo {
            name: Some("foo".to_string()),
            file: Some("\"a.rs\"".to_string()),
            line: None,
        }),
    };
    assert_eq!("foo", render_frame(&with_file));
    let with_line = Frame {
        symbol: Some(SymbolInfo { name: Some("foo".to_string()), file: None, line: Some(3) }),
    };
    assert_eq!("foo", render_frame(&with_line));
}

#[test]
fn machinery_frames_are_recognized() {
    assert!(is_machinery(&named("backtrace::capture::Backtrace::new")));
    assert!(!is_machinery(&named("backtrace")));
    assert!(!is_machinery(&named("other::backtrace::x")));
    assert!(!is_machinery(&Frame { symbol: None }));
    assert!(!is_machinery(&Frame {
        symbol: Some(SymbolInfo { name: None, file: None, line: None })
    }));
}

#[test]
fn rendering_numbers_kept_frames_from_one_and_elides_machinery() {
    let t = StackTrace {
        frames: vec![
            named("backtrace::trace"),
            named("alpha"),
            Frame { symbol: None },
            named("backtrace::capture"),
            named("omega"),
        ],
    };
    let lines = render_trace(&t);
    assert_eq!(
        vec![
            "   1: alpha".to_string(),
            "   2: <no-info>".to_string(),
            "   3: omega".to_string(),
        ],
        lines
    );
}

#[test]
fn rendering_pads_numbers_to_four_columns() {
    let mut frames = Vec::new();
    for _ in 0..1000 {
        frames.push(named("f"));
    }
    let lines = render_trace(&StackTrace { frames });
    assert_eq!("   9: f", lines[8]);
    assert_eq!("  10: f", lines[9]);
    assert_eq!(" 100: f", lines[99]);
    assert_eq!("1000: f", lines[999]);
}

#[test]
fn captured_stack_renders_without_machinery_frames() {
    let t = capture_stack();
    let lines = render_trace(&t);
    for line in &lines {
        // the text after the number never starts with the elided prefix
        if let Some(pos) = line.find(": ") {
            assert!(!line[pos + 2..].starts_with("backtrace::"));
        }
    }
}
