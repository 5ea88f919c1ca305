//! Symbolic stack snapshots: capture at the moment an access is granted, and
//! a filtered, human-readable rendering that elides frames belonging to the
//! capture machinery itself.

use vstd::prelude::*;
use vstd::string::{StrSliceExecFns, StringExecFns};

verus! {

/// Symbol information for one resolved stack frame, reduced to plain values.
pub struct SymbolInfo {
    /// The demangled symbol name, when the platform could resolve one.
    pub name: Option<String>,
    /// The source file, already rendered as text, when known.
    pub file: Option<String>,
    /// The source line, when known.
    pub line: Option<u32>,
}

/// One frame of a captured call stack. A frame with no symbol information at
/// all is kept, and rendered as such.
pub struct Frame {
    pub symbol: Option<SymbolInfo>,
}

/// A symbolic snapshot of the call stack at the moment an access was granted.
/// Used only for diagnostic reporting on conflict; capture never fails the
/// operation that asked for it.
pub struct StackTrace {
    pub frames: Vec<Frame>,
}

/// Relies on backtrace::Backtrace::new to walk and symbolicate the current
/// call stack; the frames are copied out as plain values. The snapshot depends
/// on the machine and the moment of the call, so nothing is promised of it.
#[verifier::external_body]
pub fn capture_stack() -> (t: StackTrace)
{
    let mut frames: Vec<Frame> = Vec::new();
    for f in backtrace::Backtrace::new().frames() {
        let symbol = f.symbols().first().map(|s| SymbolInfo {
            name: s.name().and_then(|n| n.as_str()).map(|n| n.to_owned()),
            file: s.filename().map(|p| format!("{:?}", p)),
            line: s.lineno(),
        });
        frames.push(Frame { symbol });
    }
    StackTrace { frames }
}

/// The symbol-name prefix of the capture machinery's own frames; frames that
/// carry it are elided from a rendering.
pub open spec fn machinery_prefix() -> Seq<char> {
    "backtrace::"@
}

/// Whether a frame belongs to the capture machinery itself: it resolved to a
/// name that starts with the machinery's prefix.
pub open spec fn is_machinery_frame(f: Frame) -> bool {
    match f.symbol {
        Some(s) => match s.name {
            Some(n) => n@.len() >= machinery_prefix().len() && n@.subrange(
                0,
                machinery_prefix().len() as int,
            ) == machinery_prefix(),
            None => false,
        },
        None => false,
    }
}

/// The character for one decimal digit.
pub open spec fn digit_char(d: nat) -> char {
    if d == 0 {
        '0'
    } else if d == 1 {
        '1'
    } else if d == 2 {
        '2'
    } else if d == 3 {
        '3'
    } else if d == 4 {
        '4'
    } else if d == 5 {
        '5'
    } else if d == 6 {
        '6'
    } else if d == 7 {
        '7'
    } else if d == 8 {
        '8'
    } else {
        '9'
    }
}

/// The decimal digits of a number, most significant first.
pub open spec fn dec_digits(n: nat) -> Seq<char>
    decreases n,
{
    if n < 10 {
        seq![digit_char(n)]
    } else {
        dec_digits(n / 10) + seq![digit_char(n % 10)]
    }
}

/// A frame number, right-aligned to a width of four columns.
pub open spec fn padded_index(n: nat) -> Seq<char> {
    let d = dec_digits(n);
    if d.len() == 1 {
        "   "@ + d
    } else if d.len() == 2 {
        "  "@ + d
    } else if d.len() == 3 {
        " "@ + d
    } else {
        d
    }
}

/// The text of one rendered frame: its name, or a placeholder where symbol
/// information is missing, followed by the source position when both file and
/// line are known.
pub open spec fn frame_text(f: Frame) -> Seq<char> {
    match f.symbol {
        None => "<no-info>"@,
        Some(s) => {
            let base = match s.name {
                None => "<unknown>"@,
                Some(n) => n@,
            };
            match (s.file, s.line) {
                (Some(file), Some(line)) => base + " at "@ + file@ + ":"@ + dec_digits(
                    line as nat,
                ),
                _ => base,
            }
        },
    }
}

/// One rendered line: the frame number, a separator, the frame's text.
pub open spec fn rendered_line(number: nat, f: Frame) -> Seq<char> {
    padded_index(number) + ": "@ + frame_text(f)
}

/// The rendering of a snapshot's frames, numbering the kept frames from
/// `number` upward and eliding the capture machinery's own frames.
pub open spec fn rendered_lines(frames: Seq<Frame>, number: nat) -> Seq<Seq<char>>
    decreases frames.len(),
{
    if frames.len() == 0 {
        Seq::empty()
    } else if is_machinery_frame(frames[0]) {
        rendered_lines(frames.drop_first(), number)
    } else {
        seq![rendered_line(number, frames[0])] + rendered_lines(frames.drop_first(), number + 1)
    }
}

/// Whether the name starts with the capture machinery's prefix.
fn has_machinery_prefix(name: &str) -> (b: bool)
    ensures
        b == (name@.len() >= machinery_prefix().len() && name@.subrange(
            0,
            machinery_prefix().len() as int,
        ) == machinery_prefix()),
{
    let prefix: &str = "backtrace::";
    proof {
        reveal_strlit("backtrace::");
    }
    let n = name.unicode_len();
    let p = prefix.unicode_len();
    if n < p {
        return false;
    }
    let mut i: usize = 0;
    while i < p
        invariant
            prefix@ == machinery_prefix(),
            p == machinery_prefix().len(),
            n == name@.len(),
            n >= p,
            0 <= i <= p,
            forall|j: int| 0 <= j < i ==> name@[j] == machinery_prefix()[j],
        decreases p - i,
    {
        if name.get_char(i) != prefix.get_char(i) {
            proof {
                assert(name@.subrange(0, p as int)[i as int] == name@[i as int]);
            }
            return false;
        }
        i += 1;
    }
    proof {
        assert(name@.subrange(0, p as int) =~= machinery_prefix());
    }
    true
}

/// Whether a frame belongs to the capture machinery and is to be elided.
pub fn is_machinery(f: &Frame) -> (b: bool)
    ensures
        b == is_machinery_frame(*f),
{
    match &f.symbol {
        Some(sym) => match &sym.name {
            Some(n) => has_machinery_prefix(n.as_str()),
            None => false,
        },
        None => false,
    }
}

/// The character for one decimal digit, as text.
fn digit_literal(d: usize) -> (s: &'static str)
    requires
        d < 10,
    ensures
        s@ == seq![digit_char(d as nat)],
{
    if d == 0 {
        proof {
            reveal_strlit("0");
            assert("0"@ =~= seq![digit_char(0)]);
        }
        "0"
    } else if d == 1 {
        proof {
            reveal_strlit("1");
            assert("1"@ =~= seq![digit_char(1)]);
        }
        "1"
    } else if d == 2 {
        proof {
            reveal_strlit("2");
            assert("2"@ =~= seq![digit_char(2)]);
        }
        "2"
    } else if d == 3 {
        proof {
            reveal_strlit("3");
            assert("3"@ =~= seq![digit_char(3)]);
        }
        "3"
    } else if d == 4 {
        proof {
            reveal_strlit("4");
            assert("4"@ =~= seq![digit_char(4)]);
        }
        "4"
    } else if d == 5 {
        proof {
            reveal_strlit("5");
            assert("5"@ =~= seq![digit_char(5)]);
        }
        "5"
    } else if d == 6 {
        proof {
            reveal_strlit("6");
            assert("6"@ =~= seq![digit_char(6)]);
        }
        "6"
    } else if d == 7 {
        proof {
            reveal_strlit("7");
            assert("7"@ =~= seq![digit_char(7)]);
        }
        "7"
    } else if d == 8 {
        proof {
            reveal_strlit("8");
            assert("8"@ =~= seq![digit_char(8)]);
        }
        "8"
    } else {
        proof {
            reveal_strlit("9");
            assert("9"@ =~= seq![digit_char(9)]);
        }
        "9"
    }
}

/// The decimal digits of a number, as text.
fn dec_string(n: usize) -> (s: String)
    ensures
        s@ == dec_digits(n as nat),
    decreases n,
{
    if n < 10 {
        digit_literal(n).to_owned()
    } else {
        let mut s = dec_string(n / 10);
        s.append(digit_literal(n % 10));
        s
    }
}

/// A frame number, right-aligned to a width of four columns.
fn format_index(n: usize) -> (s: String)
    ensures
        s@ == padded_index(n as nat),
{
    let d = dec_string(n);
    let len = d.as_str().unicode_len();
    if len == 1 {
        let mut s = "   ".to_owned();
        s.append(d.as_str());
        s
    } else if len == 2 {
        let mut s = "  ".to_owned();
        s.append(d.as_str());
        s
    } else if len == 3 {
        let mut s = " ".to_owned();
        s.append(d.as_str());
        s
    } else {
        d
    }
}

/// The text of one rendered frame.
pub fn render_frame(f: &Frame) -> (s: String)
    ensures
        s@ == frame_text(*f),
{
    match &f.symbol {
        None => "<no-info>".to_owned(),
        Some(sym) => {
            let mut s = match &sym.name {
                None => "<unknown>".to_owned(),
                Some(n) => n.clone(),
            };
            if let Some(file) = &sym.file {
                if let Some(line) = sym.line {
                    s.append(" at ");
                    s.append(file.as_str());
                    s.append(":");
                    let line_text = dec_string(line as usize);
                    s.append(line_text.as_str());
                }
            }
            s
        },
    }
}

/// One rendered line for the frame, under the given number.
fn render_line(number: usize, f: &Frame) -> (s: String)
    ensures
        s@ == rendered_line(number as nat, *f),
{
    let mut s = format_index(number);
    s.append(": ");
    let body = render_frame(f);
    s.append(body.as_str());
    s
}

/// Render a snapshot for a reader: one line per frame, numbered from 1, with
/// the capture machinery's own frames elided.
pub fn render_trace(t: &StackTrace) -> (lines: Vec<String>)
    ensures
        lines.deep_view() == rendered_lines(t.frames@, 1),
{
    let mut lines: Vec<String> = Vec::new();
    let mut i: usize = 0;
    proof {
        assert(lines.deep_view() =~= Seq::<Seq<char>>::empty());
        assert(t.frames@.skip(0) =~= t.frames@);
        assert(Seq::<Seq<char>>::empty() + rendered_lines(t.frames@, 1) =~= rendered_lines(
            t.frames@,
            1,
        ));
    }
    while i < t.frames.len()
        invariant
            0 <= i <= t.frames@.len(),
            lines.deep_view().len() <= i,
            rendered_lines(t.frames@, 1) == lines.deep_view() + rendered_lines(
                t.frames@.skip(i as int),
                lines.deep_view().len() + 1,
            ),
        decreases t.frames@.len() - i,
    {
        proof {
            assert(t.frames@.skip(i as int)[0] == t.frames@[i as int]);
            assert(t.frames@.skip(i as int).drop_first() =~= t.frames@.skip(i as int + 1));
        }
        let f = &t.frames[i];
        if !is_machinery(f) {
            let number = lines.len() + 1;
            let line = render_line(number, f);
            let ghost pre = lines.deep_view();
            lines.push(line);
            proof {
                assert(lines.deep_view() =~= pre.push(line@));
                assert(pre.push(line@) =~= pre + seq![line@]);
                assert(pre + (seq![line@] + rendered_lines(
                    t.frames@.skip(i as int + 1),
                    pre.len() + 2,
                )) =~= (pre + seq![line@]) + rendered_lines(
                    t.frames@.skip(i as int + 1),
                    pre.len() + 2,
                ));
            }
        }
        i += 1;
    }
    proof {
        assert(t.frames@.skip(i as int) =~= Seq::<Frame>::empty());
        assert(lines.deep_view() + Seq::<Seq<char>>::empty() =~= lines.deep_view());
    }
    lines
}

} // verus!
