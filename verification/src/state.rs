//! Application state and the key-event state machine: the scroll/follow
//! navigation handler and the pattern-editing dialog controller, over decoded
//! key presses.

use vstd::prelude::*;
use vstd::string::StrSliceExecFns;
use vstd::string::StringExecFns;
use crate::pattern::{build_pattern, compile_error_of, pattern_compiles, Pattern};
use crate::view::{max_start, spec_max_start};

verus! {

/// Startup configuration: the initial pattern list and the global
/// ignore-case default.
pub struct Args {
    /// Patterns to compile at startup.
    pub patterns: Vec<String>,
    /// When set, new patterns match case-insensitively.
    pub ignore_case: bool,
}

/// The library's error type. Terminal failures are carried as their display
/// text; pattern-compile failures likewise.
#[derive(Debug)]
pub enum LogrError {
    /// A terminal or input/output failure, by its display text.
    Io(String),
    /// A pattern-compilation failure, by its display text.
    Regex(String),
}

/// What one batch of key events asks of the caller.
#[derive(Clone, Copy, Debug, PartialEq, Eq, Structural)]
pub struct EventResult {
    /// The user asked to quit.
    pub exit: bool,
    /// At least one event was consumed, so the screen should be redrawn.
    pub redraw: bool,
}

/// A decoded key press, independent of any terminal backend.
#[derive(Clone, Copy, Debug, PartialEq, Eq, Structural)]
pub enum KeyCode {
    /// The escape key.
    Esc,
    /// The enter key.
    Enter,
    /// The up arrow.
    Up,
    /// The down arrow.
    Down,
    /// The left arrow.
    Left,
    /// The right arrow.
    Right,
    /// The delete key.
    Delete,
    /// The backspace key.
    Backspace,
    /// The home key.
    Home,
    /// The end key.
    End,
    /// The page-up key.
    PageUp,
    /// The page-down key.
    PageDown,
    /// A printable character.
    Char(char),
    /// Any key this library does not react to.
    Other,
}

/// The whole mutable state of the pager: the pattern list, the editing
/// dialog, and the scroll window.
pub struct AppState {
    /// Active highlight patterns, in registration order.
    pub patterns: Vec<Pattern>,
    /// Dialog cursor: an index into `patterns`, or `patterns.len()` for the
    /// input row.
    pub selected: usize,
    /// Whether the pattern-editing dialog is open.
    pub dialog_open: bool,
    /// The dialog's input buffer.
    pub input: String,
    /// The last pattern-compilation failure shown in the dialog.
    pub pattern_error: Option<String>,
    /// Global default: new patterns match case-insensitively.
    pub ignore_case: bool,
    /// Scroll offset, meaningful when `follow` is off.
    pub scroll: usize,
    /// Whether the view tracks the newest line.
    pub follow: bool,
    /// Whether long lines wrap.
    pub wrap: bool,
}

/// A Unicode whitespace character, as `str::trim` understands it.
pub open spec fn is_space_char(c: char) -> bool {
    ||| c == ' '
    ||| c == '\t'
    ||| c == '\n'
    ||| c == '\r'
    ||| c == '\u{b}'
    ||| c == '\u{c}'
    ||| c == '\u{85}'
    ||| c == '\u{a0}'
    ||| c == '\u{1680}'
    ||| ('\u{2000}' <= c && c <= '\u{200a}')
    ||| c == '\u{2028}'
    ||| c == '\u{2029}'
    ||| c == '\u{202f}'
    ||| c == '\u{205f}'
    ||| c == '\u{3000}'
}

/// Blank after trimming: nothing but whitespace.
pub open spec fn spec_is_blank(s: Seq<char>) -> bool {
    forall|i: int| 0 <= i < s.len() ==> is_space_char(#[trigger] s[i])
}

/// Whether `s` trims to the empty string.
pub fn is_blank(s: &String) -> (r: bool)
    ensures
        r == spec_is_blank(s@),
{
    let text = s.as_str();
    let n = text.unicode_len();
    let mut i: usize = 0;
    while i < n
        invariant
            0 <= i <= n,
            n == text@.len(),
            text@ == s@,
            forall|j: int| 0 <= j < i ==> is_space_char(#[trigger] text@[j]),
        decreases n - i,
    {
        let c = text.get_char(i);
        if !(c == ' ' || c == '\t' || c == '\n' || c == '\r' || c == '\u{b}' || c == '\u{c}'
            || c == '\u{85}' || c == '\u{a0}' || c == '\u{1680}' || ('\u{2000}' <= c && c
            <= '\u{200a}') || c == '\u{2028}' || c == '\u{2029}' || c == '\u{202f}' || c
            == '\u{205f}' || c == '\u{3000}') {
            return false;
        }
        i += 1;
    }
    true
}

/// The message shown for a pattern that failed to compile with the given
/// case mode.
pub open spec fn invalid_msg(pattern: Seq<char>, case_sensitive: bool) -> Seq<char> {
    "Invalid pattern: "@ + compile_error_of(pattern, case_sensitive)
}

/// Prefixes a compile failure with the dialog's error banner text.
fn invalid_pattern_message(err: String) -> (r: String)
    ensures
        r@ == "Invalid pattern: "@ + err@,
{
    let mut m = String::from_str("Invalid pattern: ");
    m.append(err.as_str());
    m
}

/// The error text, compared by content.
pub open spec fn err_view(e: Option<String>) -> Option<Seq<char>> {
    match e {
        Option::None => Option::None,
        Option::Some(s) => Option::Some(s@),
    }
}

impl AppState {
    /// Validity: the dialog cursor stays within the list plus the input row,
    /// and every stored pattern satisfies its compilation invariant.
    pub open spec fn wf(self) -> bool {
        &&& self.selected <= self.patterns@.len()
        &&& forall|j: int|
            0 <= j < self.patterns@.len() ==> (#[trigger] self.patterns@[j]).wf()
    }

    /// Fresh state over an initial pattern list: dialog closed, view
    /// following the newest line.
    pub fn new(patterns: Vec<Pattern>, ignore_case: bool) -> (r: AppState)
        ensures
            r.patterns@ == patterns@,
            r.selected == 0,
            !r.dialog_open,
            r.input@ =~= Seq::<char>::empty(),
            r.pattern_error is None,
            r.ignore_case == ignore_case,
            r.scroll == 0,
            r.follow,
            !r.wrap,
            (forall|j: int| 0 <= j < patterns@.len() ==> (#[trigger] patterns@[j]).wf())
                ==> r.wf(),
    {
        AppState {
            patterns,
            selected: 0,
            dialog_open: false,
            input: String::new(),
            pattern_error: None,
            ignore_case,
            scroll: 0,
            follow: true,
            wrap: false,
        }
    }
}

/// Everything except the dialog's own fields is untouched.
pub open spec fn same_outside_dialog(a: AppState, b: AppState) -> bool {
    &&& b.patterns@ == a.patterns@
    &&& b.ignore_case == a.ignore_case
    &&& b.scroll == a.scroll
    &&& b.follow == a.follow
    &&& b.wrap == a.wrap
}

/// Everything except `scroll` and `follow` is untouched.
pub open spec fn same_outside_view(a: AppState, b: AppState) -> bool {
    &&& b.patterns@ == a.patterns@
    &&& b.selected == a.selected
    &&& b.dialog_open == a.dialog_open
    &&& b.input@ == a.input@
    &&& err_view(b.pattern_error) == err_view(a.pattern_error)
    &&& b.ignore_case == a.ignore_case
    &&& b.wrap == a.wrap
}

/// Scroll step: half a window, at least one line.
pub open spec fn spec_delta(height: int) -> int {
    if height / 2 >= 1 {
        height / 2
    } else {
        1
    }
}

/// One upward line step: leaving follow mode snaps to the bottom first, then
/// the offset moves up one line, floored at the top. Follow is always off
/// afterwards.
pub open spec fn spec_line_up(scroll: int, follow: bool, m: int) -> (int, bool) {
    let s = if follow {
        m
    } else {
        scroll
    };
    (if s > 0 {
        s - 1
    } else {
        s
    }, false)
}

/// One downward line step: below the bottom the offset moves down one line;
/// at or past the bottom, follow re-engages and the offset pins to the
/// bottom position it already had.
pub open spec fn spec_line_down(scroll: int, follow: bool, m: int) -> (int, bool) {
    let s = if follow {
        m
    } else {
        scroll
    };
    if s < m {
        (s + 1, follow)
    } else {
        (s, true)
    }
}

/// Half-page up: like `spec_line_up` with a larger step, floored at the top.
pub open spec fn spec_page_up(scroll: int, follow: bool, m: int, delta: int) -> (int, bool) {
    let s = if follow {
        m
    } else {
        scroll
    };
    (if s - delta >= 0 {
        s - delta
    } else {
        0
    }, false)
}

/// Half-page down, clamped to the bottom; reaching the bottom re-engages
/// follow.
pub open spec fn spec_page_down(scroll: int, follow: bool, m: int, delta: int) -> (int, bool) {
    let s = if follow {
        m
    } else {
        scroll
    };
    let s1 = if s + delta <= m {
        s + delta
    } else {
        m
    };
    (s1, s1 == m || (follow && s1 == s))
}

impl AppState {
    /// Scrolls one line towards the top; disengages follow mode.
    pub fn line_up(&mut self, total_lines: usize, view_height: usize)
        ensures
            total_lines > 0 ==> (final(self).scroll as int, final(self).follow)
                == spec_line_up(
                old(self).scroll as int,
                old(self).follow,
                spec_max_start(total_lines as int, view_height as int),
            ),
            total_lines == 0 ==> *final(self) == *old(self),
            same_outside_view(*old(self), *final(self)),
    {
        if total_lines > 0 {
            let m = max_start(total_lines, view_height);
            if self.follow {
                self.follow = false;
                self.scroll = m;
            }
            if self.scroll > 0 {
                self.scroll = self.scroll - 1;
            }
        }
    }

    /// Scrolls one line towards the bottom; reaching the bottom re-engages
    /// follow mode.
    pub fn line_down(&mut self, total_lines: usize, view_height: usize)
        ensures
            total_lines > 0 ==> (final(self).scroll as int, final(self).follow)
                == spec_line_down(
                old(self).scroll as int,
                old(self).follow,
                spec_max_start(total_lines as int, view_height as int),
            ),
            total_lines == 0 ==> *final(self) == *old(self),
            same_outside_view(*old(self), *final(self)),
    {
        if total_lines > 0 {
            let m = max_start(total_lines, view_height);
            if self.follow {
                self.scroll = m;
            }
            if self.scroll < m {
                self.scroll = self.scroll + 1;
            } else {
                self.follow = true;
            }
        }
    }

    /// Scrolls half a window towards the top; disengages follow mode.
    pub fn page_up(&mut self, total_lines: usize, view_height: usize)
        ensures
            total_lines > 0 ==> (final(self).scroll as int, final(self).follow)
                == spec_page_up(
                old(self).scroll as int,
                old(self).follow,
                spec_max_start(total_lines as int, view_height as int),
                spec_delta(view_height as int),
            ),
            total_lines == 0 ==> *final(self) == *old(self),
            same_outside_view(*old(self), *final(self)),
    {
        if total_lines > 0 {
            let m = max_start(total_lines, view_height);
            let delta = if view_height / 2 >= 1 {
                view_height / 2
            } else {
                1
            };
            if self.follow {
                self.follow = false;
                self.scroll = m;
            }
            if self.scroll >= delta {
                self.scroll = self.scroll - delta;
            } else {
                self.scroll = 0;
            }
        }
    }

    /// Scrolls half a window towards the bottom, clamped to the bottom;
    /// reaching it re-engages follow mode.
    pub fn page_down(&mut self, total_lines: usize, view_height: usize)
        ensures
            total_lines > 0 ==> (final(self).scroll as int, final(self).follow)
                == spec_page_down(
                old(self).scroll as int,
                old(self).follow,
                spec_max_start(total_lines as int, view_height as int),
                spec_delta(view_height as int),
            ),
            total_lines == 0 ==> *final(self) == *old(self),
            same_outside_view(*old(self), *final(self)),
    {
        if total_lines > 0 {
            let m = max_start(total_lines, view_height);
            let delta = if view_height / 2 >= 1 {
                view_height / 2
            } else {
                1
            };
            if self.follow {
                self.scroll = m;
            }
            if self.scroll >= m {
                self.scroll = m;
            } else if m - self.scroll <= delta {
                self.scroll = m;
            } else {
                self.scroll = self.scroll + delta;
            }
            if self.scroll == m {
                self.follow = true;
            }
        }
    }

    /// Jumps to the first line; disengages follow mode.
    pub fn jump_top(&mut self, total_lines: usize)
        ensures
            total_lines > 0 ==> final(self).scroll == 0 && !final(self).follow,
            total_lines == 0 ==> *final(self) == *old(self),
            same_outside_view(*old(self), *final(self)),
    {
        if total_lines > 0 {
            self.follow = false;
            self.scroll = 0;
        }
    }

    /// Jumps to the bottom and re-engages follow mode.
    pub fn jump_bottom(&mut self, total_lines: usize, view_height: usize)
        ensures
            total_lines > 0 ==> final(self).scroll == spec_max_start(
                total_lines as int,
                view_height as int,
            ) && final(self).follow,
            total_lines == 0 ==> *final(self) == *old(self),
            same_outside_view(*old(self), *final(self)),
    {
        if total_lines > 0 {
            self.follow = true;
            self.scroll = max_start(total_lines, view_height);
        }
    }
}

/// The dialog controller's transition relation: state `b` and output `out`
/// are a correct reaction to `code` pressed in state `a`. Each arm mirrors
/// one row of the dialog's key table; keys not listed leave the state
/// unchanged.
pub open spec fn dialog_step(
    a: AppState,
    code: KeyCode,
    ctrl: bool,
    redraw: bool,
    b: AppState,
    out: Option<EventResult>,
) -> bool {
    match code {
        KeyCode::Esc => {
            &&& b.dialog_open == false
            &&& b.input@ =~= Seq::<char>::empty()
            &&& b.pattern_error is None
            &&& b.selected == a.selected
            &&& same_outside_dialog(a, b)
            &&& out is None
        },
        KeyCode::Enter => {
            &&& out is None
            &&& if spec_is_blank(a.input@) {
                &&& b.dialog_open == false
                &&& b.pattern_error is None
                &&& b.input@ == a.input@
                &&& b.selected == a.selected
                &&& same_outside_dialog(a, b)
            } else if pattern_compiles(a.input@, !a.ignore_case) {
                &&& b.patterns@.len() == a.patterns@.len() + 1
                &&& b.patterns@.drop_last() == a.patterns@
                &&& b.patterns@.last().spec_text() == a.input@
                &&& b.patterns@.last().spec_case_sensitive() == !a.ignore_case
                &&& b.patterns@.last().wf()
                &&& b.dialog_open == false
                &&& b.input@ =~= Seq::<char>::empty()
                &&& b.pattern_error is None
                &&& b.selected == a.selected
                &&& b.ignore_case == a.ignore_case
                &&& b.scroll == a.scroll
                &&& b.follow == a.follow
                &&& b.wrap == a.wrap
            } else {
                &&& err_view(b.pattern_error) == Some(invalid_msg(a.input@, !a.ignore_case))
                &&& b.dialog_open == a.dialog_open
                &&& b.input@ == a.input@
                &&& b.selected == a.selected
                &&& same_outside_dialog(a, b)
            }
        },
        KeyCode::Up => {
            &&& b.selected == if a.selected > 0 {
                (a.selected - 1) as usize
            } else {
                0usize
            }
            &&& b.dialog_open == a.dialog_open
            &&& b.input@ == a.input@
            &&& err_view(b.pattern_error) == err_view(a.pattern_error)
            &&& same_outside_dialog(a, b)
            &&& out is None
        },
        KeyCode::Down => {
            &&& b.selected == if a.selected < a.patterns@.len() {
                (a.selected + 1) as usize
            } else {
                a.selected
            }
            &&& b.dialog_open == a.dialog_open
            &&& b.input@ == a.input@
            &&& err_view(b.pattern_error) == err_view(a.pattern_error)
            &&& same_outside_dialog(a, b)
            &&& out is None
        },
        KeyCode::Left | KeyCode::Right => {
            &&& out is None
            &&& if a.selected < a.patterns@.len() {
                let sel = a.selected as int;
                let text = a.patterns@[sel].spec_text();
                let flipped = !a.patterns@[sel].spec_case_sensitive();
                if pattern_compiles(text, flipped) {
                    &&& b.patterns@.len() == a.patterns@.len()
                    &&& forall|j: int|
                        0 <= j < a.patterns@.len() && j != sel ==> b.patterns@[j]
                            == a.patterns@[j]
                    &&& b.patterns@[sel].spec_text() == text
                    &&& b.patterns@[sel].spec_case_sensitive() == flipped
                    &&& b.patterns@[sel].wf()
                    &&& b.dialog_open == a.dialog_open
                    &&& b.input@ == a.input@
                    &&& err_view(b.pattern_error) == err_view(a.pattern_error)
                    &&& b.selected == a.selected
                    &&& b.ignore_case == a.ignore_case
                    &&& b.scroll == a.scroll
                    &&& b.follow == a.follow
                    &&& b.wrap == a.wrap
                } else {
                    &&& err_view(b.pattern_error) == Some(invalid_msg(text, flipped))
                    &&& b.dialog_open == a.dialog_open
                    &&& b.input@ == a.input@
                    &&& b.selected == a.selected
                    &&& same_outside_dialog(a, b)
                }
            } else {
                b == a
            }
        },
        KeyCode::Delete => {
            &&& out is None
            &&& if a.selected < a.patterns@.len() {
                &&& b.patterns@ == a.patterns@.remove(a.selected as int)
                &&& b.selected == if a.patterns@.len() == 1 {
                    0usize
                } else {
                    a.selected
                }
                &&& b.dialog_open == a.dialog_open
                &&& b.input@ == a.input@
                &&& err_view(b.pattern_error) == err_view(a.pattern_error)
                &&& b.ignore_case == a.ignore_case
                &&& b.scroll == a.scroll
                &&& b.follow == a.follow
                &&& b.wrap == a.wrap
            } else {
                b == a
            }
        },
        KeyCode::Backspace => {
            &&& b.input@ == if a.input@.len() > 0 {
                a.input@.drop_last()
            } else {
                a.input@
            }
            &&& b.selected == a.patterns@.len()
            &&& b.dialog_open == a.dialog_open
            &&& err_view(b.pattern_error) == err_view(a.pattern_error)
            &&& same_outside_dialog(a, b)
            &&& out is None
        },
        KeyCode::Char(c) => {
            if ctrl {
                if c == 'c' {
                    &&& b == a
                    &&& out == Some(EventResult { exit: true, redraw })
                } else {
                    &&& b == a
                    &&& out is None
                }
            } else {
                &&& b.input@ == a.input@.push(c)
                &&& b.selected == a.patterns@.len()
                &&& b.dialog_open == a.dialog_open
                &&& err_view(b.pattern_error) == err_view(a.pattern_error)
                &&& same_outside_dialog(a, b)
                &&& out is None
            }
        },
        _ => b == a && out is None,
    }
}

/// Handles one key press while the pattern dialog is open. Mirrors the
/// dialog's key table; the result is `Ok(Some(..))` exactly when the press
/// asks the caller to exit.
pub fn handle_dialog_event(app: &mut AppState, code: KeyCode, ctrl: bool, redraw: bool) -> (r:
    Result<Option<EventResult>, LogrError>)
    requires
        old(app).wf(),
    ensures
        r is Ok,
        r matches Ok(out) ==> dialog_step(*old(app), code, ctrl, redraw, *final(app), out),
        final(app).wf(),
{
    match code {
        KeyCode::Esc => {
            app.dialog_open = false;
            app.input = String::new();
            app.pattern_error = None;
        },
        KeyCode::Char(c) if ctrl && c == 'c' => {
            return Ok(Some(EventResult { exit: true, redraw }));
        },
        KeyCode::Enter => {
            if !is_blank(&app.input) {
                let text = app.input.clone();
                match build_pattern(text, !app.ignore_case) {
                    Ok(p) => {
                        app.patterns.push(p);
                        proof {
                            assert(app.patterns@.drop_last() =~= old(app).patterns@);
                        }
                        app.dialog_open = false;
                        app.input = String::new();
                        app.pattern_error = None;
                    },
                    Err(m) => {
                        app.pattern_error = Some(invalid_pattern_message(m));
                    },
                }
            } else {
                app.dialog_open = false;
                app.pattern_error = None;
            }
        },
        KeyCode::Up => {
            if app.selected > 0 {
                app.selected = app.selected - 1;
            }
        },
        KeyCode::Down => {
            if app.selected < app.patterns.len() {
                app.selected = app.selected + 1;
            }
        },
        KeyCode::Left | KeyCode::Right => {
            if app.selected < app.patterns.len() {
                let sel = app.selected;
                let p = vstd::std_specs::vec::vec_index_mut(&mut app.patterns, sel);
                let toggled = p.toggle_case();
                match toggled {
                    Ok(()) => {
                        proof {
                            assert(app.patterns@.len() == old(app).patterns@.len());
                        }
                    },
                    Err(m) => {
                        proof {
                            assert(app.patterns@ =~= old(app).patterns@);
                        }
                        app.pattern_error = Some(invalid_pattern_message(m));
                    },
                }
            }
        },
        KeyCode::Delete => {
            if app.selected < app.patterns.len() {
                app.patterns.remove(app.selected);
                if app.patterns.len() == 0 {
                    app.selected = 0;
                }
            }
        },
        KeyCode::Backspace => {
            pop_char(&mut app.input);
            app.selected = app.patterns.len();
        },
        KeyCode::Char(c) => {
            if !ctrl {
                push_char(&mut app.input, c);
                app.selected = app.patterns.len();
            }
        },
        _ => {},
    }
    Ok(None)
}

/// Relies on `String::push`: appends exactly the one character.
#[verifier::external_body]
fn push_char(s: &mut String, c: char)
    ensures
        final(s)@ == old(s)@.push(c),
{
    s.push(c);
}

/// Relies on `String::pop`: removes and returns the last character, if any.
#[verifier::external_body]
fn pop_char(s: &mut String) -> (r: Option<char>)
    ensures
        old(s)@.len() == 0 ==> r is None && final(s)@ == old(s)@,
        old(s)@.len() > 0 ==> r == Some(old(s)@.last()) && final(s)@ == old(s)@.drop_last(),
{
    s.pop()
}

/// The navigation handler's transition relation: state `b` and output `out`
/// are a correct reaction to `code` pressed in state `a` with the dialog
/// closed. Scroll keys are no-ops while the line buffer is empty.
pub open spec fn main_step(
    a: AppState,
    total: int,
    height: int,
    code: KeyCode,
    ctrl: bool,
    shift: bool,
    redraw: bool,
    b: AppState,
    out: Option<EventResult>,
) -> bool {
    let m = spec_max_start(total, height);
    let delta = spec_delta(height);
    match code {
        KeyCode::Char(c) => {
            if c == 'q' {
                b == a && out == Some(EventResult { exit: true, redraw })
            } else if c == 'p' {
                &&& b.dialog_open == true
                &&& b.input@ =~= Seq::<char>::empty()
                &&& b.pattern_error is None
                &&& b.selected == 0
                &&& same_outside_dialog(a, b)
                &&& out is None
            } else if c == 'w' {
                &&& b == AppState { wrap: !a.wrap, ..a }
                &&& out is None
            } else if c == 'c' && ctrl {
                b == a && out == Some(EventResult { exit: true, redraw })
            } else if c == 'k' {
                scroll_to(a, b, spec_line_up(a.scroll as int, a.follow, m), total) && out is None
            } else if c == 'j' {
                scroll_to(a, b, spec_line_down(a.scroll as int, a.follow, m), total) && out is None
            } else if c == 'u' && ctrl {
                scroll_to(a, b, spec_page_up(a.scroll as int, a.follow, m, delta), total)
                    && out is None
            } else if c == 'd' && ctrl {
                scroll_to(a, b, spec_page_down(a.scroll as int, a.follow, m, delta), total)
                    && out is None
            } else if c == 'g' && !shift {
                scroll_to(a, b, (0, false), total) && out is None
            } else if c == 'G' {
                scroll_to(a, b, (m, true), total) && out is None
            } else {
                b == a && out is None
            }
        },
        KeyCode::Up => scroll_to(a, b, spec_line_up(a.scroll as int, a.follow, m), total)
            && out is None,
        KeyCode::Down => scroll_to(a, b, spec_line_down(a.scroll as int, a.follow, m), total)
            && out is None,
        KeyCode::PageUp => {
            if ctrl {
                scroll_to(a, b, spec_page_up(a.scroll as int, a.follow, m, delta), total)
                    && out is None
            } else {
                b == a && out is None
            }
        },
        KeyCode::PageDown => {
            if ctrl {
                scroll_to(a, b, spec_page_down(a.scroll as int, a.follow, m, delta), total)
                    && out is None
            } else {
                b == a && out is None
            }
        },
        KeyCode::Home => {
            if !shift {
                scroll_to(a, b, (0, false), total) && out is None
            } else {
                b == a && out is None
            }
        },
        KeyCode::End => scroll_to(a, b, (m, true), total) && out is None,
        _ => b == a && out is None,
    }
}

/// A scroll key's effect: the view moves to `target` when there are lines,
/// and nothing else changes; with an empty buffer the key is a no-op.
pub open spec fn scroll_to(a: AppState, b: AppState, target: (int, bool), total: int) -> bool {
    &&& total > 0 ==> (b.scroll as int, b.follow) == target
    &&& total == 0 ==> b == a
    &&& same_outside_view(a, b)
}

/// Handles one key press in the main navigation mode. The result is
/// `Some(..)` exactly when the press asks the caller to exit.
pub fn handle_main_event(
    app: &mut AppState,
    total_lines: usize,
    view_height: usize,
    code: KeyCode,
    ctrl: bool,
    shift: bool,
    redraw: bool,
) -> (r: Option<EventResult>)
    requires
        old(app).wf(),
    ensures
        main_step(
            *old(app),
            total_lines as int,
            view_height as int,
            code,
            ctrl,
            shift,
            redraw,
            *final(app),
            r,
        ),
        final(app).wf(),
{
    match code {
        KeyCode::Char('q') => {
            return Some(EventResult { exit: true, redraw });
        },
        KeyCode::Char('p') => {
            app.dialog_open = true;
            app.input = String::new();
            app.pattern_error = None;
            app.selected = 0;
        },
        KeyCode::Char('w') => {
            app.wrap = !app.wrap;
        },
        KeyCode::Char('c') if ctrl => {
            return Some(EventResult { exit: true, redraw });
        },
        KeyCode::Up | KeyCode::Char('k') => {
            app.line_up(total_lines, view_height);
        },
        KeyCode::Down | KeyCode::Char('j') => {
            app.line_down(total_lines, view_height);
        },
        KeyCode::PageUp if ctrl => {
            app.page_up(total_lines, view_height);
        },
        KeyCode::Char('u') if ctrl => {
            app.page_up(total_lines, view_height);
        },
        KeyCode::PageDown if ctrl => {
            app.page_down(total_lines, view_height);
        },
        KeyCode::Char('d') if ctrl => {
            app.page_down(total_lines, view_height);
        },
        KeyCode::Home if !shift => {
            app.jump_top(total_lines);
        },
        KeyCode::Char('g') if !shift => {
            app.jump_top(total_lines);
        },
        KeyCode::End | KeyCode::Char('G') => {
            app.jump_bottom(total_lines, view_height);
        },
        _ => {},
    }
    None
}

/// Routes one decoded key press: to the dialog controller while the dialog
/// is open, to the main navigation handler otherwise.
pub fn handle_key(
    app: &mut AppState,
    total_lines: usize,
    view_height: usize,
    code: KeyCode,
    ctrl: bool,
    shift: bool,
    redraw: bool,
) -> (r: Result<Option<EventResult>, LogrError>)
    requires
        old(app).wf(),
    ensures
        r is Ok,
        old(app).dialog_open ==> (r matches Ok(out) ==> dialog_step(
            *old(app),
            code,
            ctrl,
            redraw,
            *final(app),
            out,
        )),
        !old(app).dialog_open ==> (r matches Ok(out) ==> main_step(
            *old(app),
            total_lines as int,
            view_height as int,
            code,
            ctrl,
            shift,
            redraw,
            *final(app),
            out,
        )),
        final(app).wf(),
{
    if app.dialog_open {
        handle_dialog_event(app, code, ctrl, redraw)
    } else {
        Ok(handle_main_event(app, total_lines, view_height, code, ctrl, shift, redraw))
    }
}

/// Law: one upward step out of follow mode disengages it and lands one line
/// above the bottom (or at the top when the bottom is the top).
pub proof fn lemma_follow_disengage(scroll: int, total: int, height: int)
    requires
        total > 0,
        height >= 0,
    ensures
        ({
            let m = spec_max_start(total, height);
            spec_line_up(scroll, true, m) == (if m > 0 {
                m - 1
            } else {
                0
            }, false)
        }),
{
}

/// Law: a downward step in follow mode keeps the view pinned to the bottom
/// with follow still engaged, and a downward step at the bottom re-engages
/// follow without moving.
pub proof fn lemma_follow_reengage(scroll: int, follow: bool, total: int, height: int)
    requires
        total > 0,
        height >= 0,
    ensures
        spec_line_down(scroll, true, spec_max_start(total, height)) == (
            spec_max_start(total, height),
            true,
        ),
        scroll >= spec_max_start(total, height) ==> spec_line_down(
            scroll,
            follow,
            spec_max_start(total, height),
        ) == (if follow {
            spec_max_start(total, height)
        } else {
            scroll
        }, true),
{
}

} // verus!
