//! The keybinding operation language: a binding line has the form
//! `KEY:OP[+OP]*`, each operation is a whitespace-tokenized word of a small
//! closed grammar, and anything that matches no word of the grammar is a
//! shell command to execute. Parsing is a pure function of the input.

use crate::scan::{
    ends_with_char, parse_steps, spec_ends_with, spec_parse_steps, spec_split, spec_tokens,
    spec_trim, split_on, str_eq, tokenize, trim,
};
use crate::stateful_list::StatefulList;
use crate::tui::{
    spec_exec_operation, spec_run_ops, ActionView, PendingExecution, RequestedAction, RunView,
};
use vstd::prelude::*;

verus! {

/// A key identifier: a named key or a single character.
#[derive(Clone, Copy, PartialEq, Eq, Structural, Debug, Hash)]
pub enum Key {
    Esc,
    Enter,
    Left,
    Right,
    Up,
    Down,
    Home,
    End,
    PageUp,
    PageDown,
    BackTab,
    Backspace,
    Delete,
    Insert,
    F(u8),
    Tab,
    Char(char),
}

impl View for Key {
    type V = Key;

    open spec fn view(&self) -> Key {
        *self
    }
}

impl DeepView for Key {
    type V = Key;

    open spec fn deep_view(&self) -> Key {
        *self
    }
}

/// A cursor movement.
#[derive(Clone, Copy, PartialEq, Eq, Structural, Debug)]
pub enum MoveCursor {
    Down(usize),
    Up(usize),
    First,
    Last,
}

/// A change to the selection.
#[derive(Clone, Copy, PartialEq, Eq, Structural, Debug)]
pub enum SelectOperation {
    Select,
    Unselect,
    Toggle,
    SelectAll,
    UnselectAll,
}

/// A shell command bound to a key: run detached when `background` holds,
/// otherwise run in the foreground, suppressing key handling until it ends.
#[derive(Clone, Debug, PartialEq, Eq)]
pub struct Command {
    pub command: String,
    pub background: bool,
}

/// Mathematical value of a `Command`.
pub ghost struct CommandView {
    pub command: Seq<char>,
    pub background: bool,
}

impl View for Command {
    type V = CommandView;

    open spec fn view(&self) -> CommandView {
        CommandView { command: self.command@, background: self.background }
    }
}

impl DeepView for Command {
    type V = CommandView;

    open spec fn deep_view(&self) -> CommandView {
        self@
    }
}

/// One typed action bound to a key.
#[derive(Clone, Debug, PartialEq, Eq)]
pub enum Operation {
    Exit,
    Reload,
    MoveCursor(MoveCursor),
    SelectLine(SelectOperation),
    Execute(Command),
}

/// Mathematical value of an `Operation`.
pub ghost enum OpView {
    Exit,
    Reload,
    MoveCursor(MoveCursor),
    SelectLine(SelectOperation),
    Execute(CommandView),
}

impl View for Operation {
    type V = OpView;

    open spec fn view(&self) -> OpView {
        match self {
            Operation::Exit => OpView::Exit,
            Operation::Reload => OpView::Reload,
            Operation::MoveCursor(m) => OpView::MoveCursor(*m),
            Operation::SelectLine(s) => OpView::SelectLine(*s),
            Operation::Execute(c) => OpView::Execute(c@),
        }
    }
}

impl DeepView for Operation {
    type V = OpView;

    open spec fn deep_view(&self) -> OpView {
        self@
    }
}

/// The ordered operations bound to one key.
pub type Operations = Vec<Operation>;

/// Binding lines as read from configuration: key name to operation strings.
pub type KeybindingsRaw = Vec<(String, Vec<String>)>;

/// The parsed keybinding table; on duplicate keys the later entry wins.
pub type Keybindings = Vec<(Key, Operations)>;

/// A configuration-time parse failure; the process must not start on one.
#[derive(Debug, PartialEq, Eq)]
pub enum ParseError {
    /// A numeric step argument that is not a non-negative integer, with the
    /// offending token and the originating operation string.
    MalformedOperation { token: String, src: String },
    /// A binding line without a `:` separator.
    MalformedBinding { line: String },
    /// A key name outside the fixed lookup table.
    UnknownKey { key: String },
}

/// Mathematical value of a `ParseError`.
pub ghost enum ParseErrorView {
    MalformedOperation { token: Seq<char>, src: Seq<char> },
    MalformedBinding { line: Seq<char> },
    UnknownKey { key: Seq<char> },
}

impl View for ParseError {
    type V = ParseErrorView;

    open spec fn view(&self) -> ParseErrorView {
        match self {
            ParseError::MalformedOperation { token, src } => ParseErrorView::MalformedOperation {
                token: token@,
                src: src@,
            },
            ParseError::MalformedBinding { line } => ParseErrorView::MalformedBinding {
                line: line@,
            },
            ParseError::UnknownKey { key } => ParseErrorView::UnknownKey { key: key@ },
        }
    }
}

// ---------------------------------------------------------------------------
// Operations
// ---------------------------------------------------------------------------

/// Any string that matches no word of the grammar is a shell command; a
/// trailing `&` in the raw text — ignoring trailing whitespace — marks it to
/// be run detached.
pub open spec fn spec_execute_fallback(s: Seq<char>) -> Result<OpView, ParseErrorView> {
    Ok(OpView::Execute(CommandView { command: s, background: spec_ends_with(s, '&') }))
}

/// The operation a string denotes: a word of the grammar, or a shell command.
/// Total: every string maps to an operation or to exactly one error.
pub open spec fn spec_parse_operation(s: Seq<char>) -> Result<OpView, ParseErrorView> {
    let toks = spec_tokens(s);
    if toks.len() == 1 {
        let t = toks[0];
        if t == "exit"@ {
            Ok(OpView::Exit)
        } else if t == "reload"@ {
            Ok(OpView::Reload)
        } else if t == "down"@ {
            Ok(OpView::MoveCursor(MoveCursor::Down(1)))
        } else if t == "up"@ {
            Ok(OpView::MoveCursor(MoveCursor::Up(1)))
        } else if t == "first"@ {
            Ok(OpView::MoveCursor(MoveCursor::First))
        } else if t == "last"@ {
            Ok(OpView::MoveCursor(MoveCursor::Last))
        } else if t == "select"@ {
            Ok(OpView::SelectLine(SelectOperation::Select))
        } else if t == "unselect"@ {
            Ok(OpView::SelectLine(SelectOperation::Unselect))
        } else if t == "select-toggle"@ {
            Ok(OpView::SelectLine(SelectOperation::Toggle))
        } else if t == "select-all"@ {
            Ok(OpView::SelectLine(SelectOperation::SelectAll))
        } else if t == "unselect-all"@ {
            Ok(OpView::SelectLine(SelectOperation::UnselectAll))
        } else {
            spec_execute_fallback(s)
        }
    } else if toks.len() == 2 && (toks[0] == "down"@ || toks[0] == "up"@) {
        match spec_parse_steps(toks[1]) {
            Some(v) => Ok(
                OpView::MoveCursor(
                    if toks[0] == "down"@ {
                        MoveCursor::Down(v as usize)
                    } else {
                        MoveCursor::Up(v as usize)
                    },
                ),
            ),
            None => Err(ParseErrorView::MalformedOperation { token: toks[1], src: s }),
        }
    } else {
        spec_execute_fallback(s)
    }
}

impl Operation {
    /// Parses one operation string.
    pub fn from_str(src: &str) -> (r: Result<Operation, ParseError>)
        ensures
            match r {
                Ok(op) => spec_parse_operation(src@) == Ok::<OpView, ParseErrorView>(op@),
                Err(e) => spec_parse_operation(src@) == Err::<OpView, ParseErrorView>(e@),
            },
    {
        let tokens = tokenize(src);
        if tokens.len() == 1 {
            let t = tokens[0];
            proof {
                assert(t@ == spec_tokens(src@)[0]);
            }
            if str_eq(t, "exit") {
                Ok(Operation::Exit)
            } else if str_eq(t, "reload") {
                Ok(Operation::Reload)
            } else if str_eq(t, "down") {
                Ok(Operation::MoveCursor(MoveCursor::Down(1)))
            } else if str_eq(t, "up") {
                Ok(Operation::MoveCursor(MoveCursor::Up(1)))
            } else if str_eq(t, "first") {
                Ok(Operation::MoveCursor(MoveCursor::First))
            } else if str_eq(t, "last") {
                Ok(Operation::MoveCursor(MoveCursor::Last))
            } else if str_eq(t, "select") {
                Ok(Operation::SelectLine(SelectOperation::Select))
            } else if str_eq(t, "unselect") {
                Ok(Operation::SelectLine(SelectOperation::Unselect))
            } else if str_eq(t, "select-toggle") {
                Ok(Operation::SelectLine(SelectOperation::Toggle))
            } else if str_eq(t, "select-all") {
                Ok(Operation::SelectLine(SelectOperation::SelectAll))
            } else if str_eq(t, "unselect-all") {
                Ok(Operation::SelectLine(SelectOperation::UnselectAll))
            } else {
                Self::execute_fallback(src)
            }
        } else if tokens.len() == 2 && (str_eq(tokens[0], "down") || str_eq(tokens[0], "up")) {
            proof {
                assert(tokens[0]@ == spec_tokens(src@)[0]);
                assert(tokens[1]@ == spec_tokens(src@)[1]);
            }
            match parse_steps(tokens[1]) {
                Some(v) => {
                    if str_eq(tokens[0], "down") {
                        Ok(Operation::MoveCursor(MoveCursor::Down(v)))
                    } else {
                        Ok(Operation::MoveCursor(MoveCursor::Up(v)))
                    }
                },
                None => Err(
                    ParseError::MalformedOperation { token: tokens[1].to_owned(), src: src.to_owned() },
                ),
            }
        } else {
            Self::execute_fallback(src)
        }
    }

    fn execute_fallback(src: &str) -> (r: Result<Operation, ParseError>)
        ensures
            r matches Ok(op) && spec_execute_fallback(src@) == Ok::<OpView, ParseErrorView>(op@),
    {
        Ok(
            Operation::Execute(
                Command { command: src.to_owned(), background: ends_with_char(src, '&') },
            ),
        )
    }
}

/// Operations of a sequence of operation strings, in order; the first
/// failing string decides the error.
pub open spec fn spec_operations_from(segs: Seq<Seq<char>>) -> Result<Seq<OpView>, ParseErrorView>
    decreases segs.len(),
{
    if segs.len() == 0 {
        Ok(Seq::empty())
    } else {
        match spec_parse_operation(segs[0]) {
            Err(e) => Err(e),
            Ok(op) => match spec_operations_from(segs.drop_first()) {
                Err(e) => Err(e),
                Ok(rest) => Ok(seq![op] + rest),
            },
        }
    }
}

/// Prefixes a result with already-parsed operations.
pub open spec fn spec_ops_concat(
    pre: Seq<OpView>,
    r: Result<Seq<OpView>, ParseErrorView>,
) -> Result<Seq<OpView>, ParseErrorView> {
    match r {
        Ok(rest) => Ok(pre + rest),
        Err(e) => Err(e),
    }
}

fn operations_from_str(ops: &Vec<String>) -> (r: Result<Vec<Operation>, ParseError>)
    ensures
        match r {
            Ok(parsed) => spec_operations_from(ops.deep_view()) == Ok::<
                Seq<OpView>,
                ParseErrorView,
            >(parsed.deep_view()),
            Err(e) => spec_operations_from(ops.deep_view()) == Err::<
                Seq<OpView>,
                ParseErrorView,
            >(e@),
        },
{
    let ghost segs = ops.deep_view();
    let mut parsed: Vec<Operation> = Vec::new();
    proof {
        assert(parsed.deep_view() =~= Seq::<OpView>::empty());
        assert(segs.skip(0) =~= segs);
        if spec_operations_from(segs) is Ok {
            assert(Seq::<OpView>::empty() + spec_operations_from(segs)->Ok_0 =~= spec_operations_from(
                segs,
            )->Ok_0);
        }
    }
    let mut i: usize = 0;
    while i < ops.len()
        invariant
            segs == ops.deep_view(),
            i <= ops.len(),
            spec_operations_from(segs) == spec_ops_concat(
                parsed.deep_view(),
                spec_operations_from(segs.skip(i as int)),
            ),
        decreases ops.len() - i,
    {
        proof {
            assert(segs.skip(i as int)[0] == segs[i as int]);
            assert(segs.skip(i as int).drop_first() =~= segs.skip(i as int + 1));
        }
        match Operation::from_str(ops[i].as_str()) {
            Ok(op) => {
                let ghost before = parsed.deep_view();
                parsed.push(op);
                proof {
                    assert(parsed.deep_view() =~= before + seq![op@]);
                    if spec_operations_from(segs.skip(i as int + 1)) is Ok {
                        let rest = spec_operations_from(segs.skip(i as int + 1))->Ok_0;
                        assert(before + (seq![op@] + rest) =~= (before + seq![op@]) + rest);
                    }
                }
                i += 1;
            },
            Err(e) => {
                return Err(e);
            },
        }
    }
    proof {
        assert(segs.skip(i as int) =~= Seq::<Seq<char>>::empty());
        assert(parsed.deep_view() + Seq::<OpView>::empty() =~= parsed.deep_view());
    }
    Ok(parsed)
}

// ---------------------------------------------------------------------------
// Binding lines
// ---------------------------------------------------------------------------

/// The key name and trimmed operation strings of a binding line
/// `KEY:OP[+OP]*`; a line without `:` is malformed.
pub open spec fn spec_parse_str(s: Seq<char>) -> Result<
    (Seq<char>, Seq<Seq<char>>),
    ParseErrorView,
> {
    if !s.contains(':') {
        Err(ParseErrorView::MalformedBinding { line: s })
    } else {
        let j = crate::scan::find_from(s, ':', 0);
        Ok(
            (
                s.subrange(0, j),
                spec_split(s.subrange(j + 1, s.len() as int), '+').map_values(
                    |t: Seq<char>| spec_trim(t),
                ),
            ),
        )
    }
}

/// Splits a binding line on the first `:` into the key name and the
/// `+`-separated, trimmed operation strings.
pub fn parse_str(s: &str) -> (r: Result<(String, Vec<String>), ParseError>)
    ensures
        match r {
            Ok(kv) => spec_parse_str(s@) == Ok::<(Seq<char>, Seq<Seq<char>>), ParseErrorView>(
                kv.deep_view(),
            ),
            Err(e) => spec_parse_str(s@) == Err::<(Seq<char>, Seq<Seq<char>>), ParseErrorView>(e@),
        },
{
    let n = s.unicode_len();
    let mut j: usize = 0;
    let mut found = if j == n {
        true
    } else {
        s.get_char(j) == ':'
    };
    while !found
        invariant
            n == s@.len(),
            j <= n,
            found == (j == n || s@[j as int] == ':'),
            forall|k: int| 0 <= k < j ==> s@[k] != ':',
        decreases n - j,
    {
        j += 1;
        found = if j == n {
            true
        } else {
            s.get_char(j) == ':'
        };
    }
    proof {
        crate::scan::lemma_find_from_contains(s@, ':');
        crate::scan::lemma_find_from(s@, ':', 0);
    }
    if j == n {
        proof {
            if s@.contains(':') {
                let k = choose|k: int| 0 <= k < s@.len() && s@[k] == ':';
                assert(s@[k] != ':');
            }
        }
        return Err(ParseError::MalformedBinding { line: s.to_owned() });
    }
    proof {
        assert(s@[j as int] == ':');
        assert(s@.contains(':'));
        assert(crate::scan::find_from(s@, ':', 0) == j) by {
            if crate::scan::find_from(s@, ':', 0) < j {
                assert(s@[crate::scan::find_from(s@, ':', 0)] != ':');
            }
        }
    }
    let key = s.substring_char(0, j).to_owned();
    let rest = s.substring_char(j + 1, n);
    let parts = split_on(rest, '+');
    let mut ops: Vec<String> = Vec::new();
    let mut i: usize = 0;
    while i < parts.len()
        invariant
            i <= parts.len(),
            ops.deep_view() =~= parts.deep_view().take(i as int).map_values(
                |t: Seq<char>| spec_trim(t),
            ),
        decreases parts.len() - i,
    {
        let ghost before = ops.deep_view();
        ops.push(trim(parts[i]).to_owned());
        proof {
            assert(ops.deep_view() =~= before.push(spec_trim(parts.deep_view()[i as int])));
            assert(ops.deep_view() =~= parts.deep_view().take(i as int + 1).map_values(
                |t: Seq<char>| spec_trim(t),
            ));
        }
        i += 1;
    }
    proof {
        assert(parts.deep_view().take(parts.len() as int) =~= parts.deep_view());
    }
    Ok((key, ops))
}

/// Parsing is deterministic: `Operation::from_str` guarantees its result
/// equals `spec_parse_operation` of the input, a total function, so any two
/// results of parsing the same string are structurally equal.
pub proof fn lemma_parse_operation_deterministic(
    s: Seq<char>,
    r1: Result<OpView, ParseErrorView>,
    r2: Result<OpView, ParseErrorView>,
)
    requires
        r1 == spec_parse_operation(s),
        r2 == spec_parse_operation(s),
    ensures
        r1 == r2,
{
}

/// A sequence of operation strings parses exactly when each one parses.
pub proof fn lemma_operations_from_ok(segs: Seq<Seq<char>>)
    ensures
        spec_operations_from(segs) is Ok <==> (forall|i: int|
            0 <= i < segs.len() ==> spec_parse_operation(#[trigger] segs[i]) is Ok),
    decreases segs.len(),
{
    if segs.len() > 0 {
        lemma_operations_from_ok(segs.drop_first());
        if spec_operations_from(segs) is Ok {
            assert forall|i: int| 0 <= i < segs.len() implies spec_parse_operation(
                #[trigger] segs[i],
            ) is Ok by {
                if i > 0 {
                    assert(segs.drop_first()[i - 1] == segs[i]);
                }
            }
        } else {
            if forall|i: int| 0 <= i < segs.len() ==> spec_parse_operation(
                #[trigger] segs[i],
            ) is Ok {
                assert(spec_parse_operation(segs[0]) is Ok);
                assert forall|i: int| 0 <= i < segs.drop_first().len() implies spec_parse_operation(
                    #[trigger] segs.drop_first()[i],
                ) is Ok by {
                    assert(segs.drop_first()[i] == segs[i + 1]);
                }
                assert(spec_operations_from(segs.drop_first()) is Ok);
                assert(false);
            }
        }
    }
}

/// A binding line that holds a `:` always splits into a key name and
/// segments, and the segments parse as a whole exactly when every
/// `+`-separated, trimmed segment parses on its own.
pub proof fn lemma_parse_binding_line(line: Seq<char>)
    requires
        line.contains(':'),
    ensures
        spec_parse_str(line) is Ok,
        ({
            let segs = (spec_parse_str(line)->Ok_0).1;
            spec_operations_from(segs) is Ok <==> (forall|i: int|
                0 <= i < segs.len() ==> spec_parse_operation(#[trigger] segs[i]) is Ok)
        }),
{
    lemma_operations_from_ok((spec_parse_str(line)->Ok_0).1);
}

// ---------------------------------------------------------------------------
// Key names
// ---------------------------------------------------------------------------

/// The fixed key-name table: a named key, or any single character.
pub open spec fn spec_keycode(s: Seq<char>) -> Option<Key> {
    if s == "esc"@ {
        Some(Key::Esc)
    } else if s == "enter"@ {
        Some(Key::Enter)
    } else if s == "left"@ {
        Some(Key::Left)
    } else if s == "right"@ {
        Some(Key::Right)
    } else if s == "up"@ {
        Some(Key::Up)
    } else if s == "down"@ {
        Some(Key::Down)
    } else if s == "home"@ {
        Some(Key::Home)
    } else if s == "end"@ {
        Some(Key::End)
    } else if s == "pageup"@ {
        Some(Key::PageUp)
    } else if s == "pagedown"@ {
        Some(Key::PageDown)
    } else if s == "backtab"@ {
        Some(Key::BackTab)
    } else if s == "backspace"@ {
        Some(Key::Backspace)
    } else if s == "del"@ || s == "delete"@ {
        Some(Key::Delete)
    } else if s == "ins"@ || s == "insert"@ {
        Some(Key::Insert)
    } else if s == "f1"@ {
        Some(Key::F(1))
    } else if s == "f2"@ {
        Some(Key::F(2))
    } else if s == "f3"@ {
        Some(Key::F(3))
    } else if s == "f4"@ {
        Some(Key::F(4))
    } else if s == "f5"@ {
        Some(Key::F(5))
    } else if s == "f6"@ {
        Some(Key::F(6))
    } else if s == "f7"@ {
        Some(Key::F(7))
    } else if s == "f8"@ {
        Some(Key::F(8))
    } else if s == "f9"@ {
        Some(Key::F(9))
    } else if s == "f10"@ {
        Some(Key::F(10))
    } else if s == "f11"@ {
        Some(Key::F(11))
    } else if s == "f12"@ {
        Some(Key::F(12))
    } else if s == "space"@ {
        Some(Key::Char(' '))
    } else if s == "tab"@ {
        Some(Key::Tab)
    } else if s.len() == 1 {
        Some(Key::Char(s[0]))
    } else {
        None
    }
}

/// Resolves a key name through the fixed lookup table.
pub fn keycode_from_str(s: &str) -> (r: Result<Key, ParseError>)
    ensures
        match r {
            Ok(k) => spec_keycode(s@) == Some(k),
            Err(e) => spec_keycode(s@) is None && e@ == (ParseErrorView::UnknownKey { key: s@ }),
        },
{
    if str_eq(s, "esc") {
        Ok(Key::Esc)
    } else if str_eq(s, "enter") {
        Ok(Key::Enter)
    } else if str_eq(s, "left") {
        Ok(Key::Left)
    } else if str_eq(s, "right") {
        Ok(Key::Right)
    } else if str_eq(s, "up") {
        Ok(Key::Up)
    } else if str_eq(s, "down") {
        Ok(Key::Down)
    } else if str_eq(s, "home") {
        Ok(Key::Home)
    } else if str_eq(s, "end") {
        Ok(Key::End)
    } else if str_eq(s, "pageup") {
        Ok(Key::PageUp)
    } else if str_eq(s, "pagedown") {
        Ok(Key::PageDown)
    } else if str_eq(s, "backtab") {
        Ok(Key::BackTab)
    } else if str_eq(s, "backspace") {
        Ok(Key::Backspace)
    } else if str_eq(s, "del") || str_eq(s, "delete") {
        Ok(Key::Delete)
    } else if str_eq(s, "ins") || str_eq(s, "insert") {
        Ok(Key::Insert)
    } else if str_eq(s, "f1") {
        Ok(Key::F(1))
    } else if str_eq(s, "f2") {
        Ok(Key::F(2))
    } else if str_eq(s, "f3") {
        Ok(Key::F(3))
    } else if str_eq(s, "f4") {
        Ok(Key::F(4))
    } else if str_eq(s, "f5") {
        Ok(Key::F(5))
    } else if str_eq(s, "f6") {
        Ok(Key::F(6))
    } else if str_eq(s, "f7") {
        Ok(Key::F(7))
    } else if str_eq(s, "f8") {
        Ok(Key::F(8))
    } else if str_eq(s, "f9") {
        Ok(Key::F(9))
    } else if str_eq(s, "f10") {
        Ok(Key::F(10))
    } else if str_eq(s, "f11") {
        Ok(Key::F(11))
    } else if str_eq(s, "f12") {
        Ok(Key::F(12))
    } else if str_eq(s, "space") {
        Ok(Key::Char(' '))
    } else if str_eq(s, "tab") {
        Ok(Key::Tab)
    } else if s.unicode_len() == 1 {
        Ok(Key::Char(s.get_char(0)))
    } else {
        Err(ParseError::UnknownKey { key: s.to_owned() })
    }
}

// ---------------------------------------------------------------------------
// The keybinding table
// ---------------------------------------------------------------------------

/// The parsed table of a sequence of raw bindings, in order; the first
/// failing entry decides the error.
pub open spec fn spec_parse_raw(entries: Seq<(Seq<char>, Seq<Seq<char>>)>) -> Result<
    Seq<(Key, Seq<OpView>)>,
    ParseErrorView,
>
    decreases entries.len(),
{
    if entries.len() == 0 {
        Ok(Seq::empty())
    } else {
        match spec_keycode(entries[0].0) {
            None => Err(ParseErrorView::UnknownKey { key: entries[0].0 }),
            Some(k) => match spec_operations_from(entries[0].1) {
                Err(e) => Err(e),
                Ok(ops) => match spec_parse_raw(entries.drop_first()) {
                    Err(e) => Err(e),
                    Ok(rest) => Ok(seq![(k, ops)] + rest),
                },
            },
        }
    }
}

/// Prefixes a result with already-parsed bindings.
pub open spec fn spec_bindings_concat(
    pre: Seq<(Key, Seq<OpView>)>,
    r: Result<Seq<(Key, Seq<OpView>)>, ParseErrorView>,
) -> Result<Seq<(Key, Seq<OpView>)>, ParseErrorView> {
    match r {
        Ok(rest) => Ok(pre + rest),
        Err(e) => Err(e),
    }
}

/// Parses raw binding entries into the keybinding table, entry by entry.
pub fn parse_raw(raw: KeybindingsRaw) -> (r: Result<Keybindings, ParseError>)
    ensures
        match r {
            Ok(kb) => spec_parse_raw(raw.deep_view()) == Ok::<
                Seq<(Key, Seq<OpView>)>,
                ParseErrorView,
            >(kb.deep_view()),
            Err(e) => spec_parse_raw(raw.deep_view()) == Err::<
                Seq<(Key, Seq<OpView>)>,
                ParseErrorView,
            >(e@),
        },
{
    let ghost entries = raw.deep_view();
    let mut table: Keybindings = Vec::new();
    proof {
        assert(table.deep_view() =~= Seq::<(Key, Seq<OpView>)>::empty());
        assert(entries.skip(0) =~= entries);
        if spec_parse_raw(entries) is Ok {
            assert(Seq::<(Key, Seq<OpView>)>::empty() + spec_parse_raw(entries)->Ok_0
                =~= spec_parse_raw(entries)->Ok_0);
        }
    }
    let mut i: usize = 0;
    while i < raw.len()
        invariant
            entries == raw.deep_view(),
            i <= raw.len(),
            spec_parse_raw(entries) == spec_bindings_concat(
                table.deep_view(),
                spec_parse_raw(entries.skip(i as int)),
            ),
        decreases raw.len() - i,
    {
        proof {
            assert(entries.skip(i as int)[0] == entries[i as int]);
            assert(entries.skip(i as int).drop_first() =~= entries.skip(i as int + 1));
        }
        let key = match keycode_from_str(raw[i].0.as_str()) {
            Ok(k) => k,
            Err(e) => {
                return Err(e);
            },
        };
        let ops = match operations_from_str(&raw[i].1) {
            Ok(ops) => ops,
            Err(e) => {
                return Err(e);
            },
        };
        let ghost before = table.deep_view();
        table.push((key, ops));
        proof {
            assert(table.deep_view() =~= before + seq![(key, ops.deep_view())]);
            if spec_parse_raw(entries.skip(i as int + 1)) is Ok {
                let rest = spec_parse_raw(entries.skip(i as int + 1))->Ok_0;
                assert(before + (seq![(key, ops.deep_view())] + rest) =~= (before + seq![
                    (key, ops.deep_view()),
                ]) + rest);
            }
        }
        i += 1;
    }
    proof {
        assert(entries.skip(i as int) =~= Seq::<(Seq<char>, Seq<Seq<char>>)>::empty());
        assert(table.deep_view() + Seq::<(Key, Seq<OpView>)>::empty() =~= table.deep_view());
    }
    Ok(table)
}

/// The mapping a sequence of raw bindings denotes: on duplicate key names
/// the later entry wins.
pub open spec fn spec_keybindings_map(entries: Seq<(Seq<char>, Seq<Seq<char>>)>) -> Map<
    Seq<char>,
    Seq<Seq<char>>,
>
    decreases entries.len(),
{
    if entries.len() == 0 {
        Map::empty()
    } else {
        spec_keybindings_map(entries.drop_last()).insert(entries.last().0, entries.last().1)
    }
}

/// Appends `new` after `old`, so that on a shared key name the entry of
/// `new` decides the binding.
pub fn merge_raw(new: KeybindingsRaw, old: KeybindingsRaw) -> (merged: KeybindingsRaw)
    ensures
        merged.deep_view() == old.deep_view() + new.deep_view(),
{
    let mut merged = old;
    let mut new = new;
    let ghost oldv = merged.deep_view();
    let ghost newv = new.deep_view();
    merged.append(&mut new);
    proof {
        assert(merged.deep_view() =~= oldv + newv);
    }
    merged
}

/// Merging binds every key of `new` as `new` does, and every other key as
/// `old` does: the mapping of `old ++ new` is the union preferring `new`.
pub proof fn lemma_merge_raw_new_wins(
    new: Seq<(Seq<char>, Seq<Seq<char>>)>,
    old: Seq<(Seq<char>, Seq<Seq<char>>)>,
)
    ensures
        spec_keybindings_map(old + new) =~= spec_keybindings_map(old).union_prefer_right(
            spec_keybindings_map(new),
        ),
    decreases new.len(),
{
    if new.len() == 0 {
        assert(old + new =~= old);
    } else {
        lemma_merge_raw_new_wins(new.drop_last(), old);
        assert((old + new).drop_last() =~= old + new.drop_last());
        assert((old + new).last() == new.last());
    }
}

/// The bound operations of `key`: the last matching entry decides.
pub open spec fn spec_lookup(entries: Seq<(Key, Seq<OpView>)>, key: Key) -> Option<Seq<OpView>>
    decreases entries.len(),
{
    if entries.len() == 0 {
        None
    } else if entries.last().0 == key {
        Some(entries.last().1)
    } else {
        spec_lookup(entries.drop_last(), key)
    }
}

/// Looks `key` up in the table; on duplicate keys the later entry wins.
pub fn get_bound<'a>(bindings: &'a Keybindings, key: Key) -> (r: Option<&'a Operations>)
    ensures
        match r {
            Some(ops) => spec_lookup(bindings.deep_view(), key) == Some(ops.deep_view()),
            None => spec_lookup(bindings.deep_view(), key) is None,
        },
{
    let mut i = bindings.len();
    proof {
        assert(bindings.deep_view().take(i as int) =~= bindings.deep_view());
    }
    while i > 0
        invariant
            i <= bindings.len(),
            spec_lookup(bindings.deep_view(), key) == spec_lookup(
                bindings.deep_view().take(i as int),
                key,
            ),
        decreases i,
    {
        i -= 1;
        proof {
            assert(bindings.deep_view().take(i as int + 1).last() == bindings.deep_view()[i as int]);
            assert(bindings.deep_view().take(i as int + 1).drop_last() =~= bindings.deep_view().take(
                i as int,
            ));
        }
        if key_eq(&bindings[i].0, key) {
            return Some(&bindings[i].1);
        }
    }
    proof {
        assert(bindings.deep_view().take(0) =~= Seq::<(Key, Seq<OpView>)>::empty());
    }
    None
}

/// Whether two keys are the same key.
fn key_eq(a: &Key, b: Key) -> (r: bool)
    ensures
        r == (*a == b),
{
    *a == b
}

/// The built-in bindings: quit, reload, vi-style movement and selection.
pub open spec fn spec_default_raw() -> Seq<(Seq<char>, Seq<Seq<char>>)> {
    seq![
        ("q"@, seq!["exit"@]),
        ("r"@, seq!["reload"@]),
        ("space"@, seq!["select-toggle"@, "down"@]),
        ("v"@, seq!["select-toggle"@]),
        ("esc"@, seq!["unselect-all"@]),
        ("down"@, seq!["down"@]),
        ("up"@, seq!["up"@]),
        ("j"@, seq!["down"@]),
        ("k"@, seq!["up"@]),
        ("g"@, seq!["first"@]),
        ("G"@, seq!["last"@]),
    ]
}

/// Builds the built-in raw bindings.
pub fn default_raw() -> (raw: KeybindingsRaw)
    ensures
        raw.deep_view() == spec_default_raw(),
{
    let mut raw: KeybindingsRaw = Vec::new();
    raw.push(("q".to_owned(), vec!["exit".to_owned()]));
    raw.push(("r".to_owned(), vec!["reload".to_owned()]));
    raw.push(("space".to_owned(), vec!["select-toggle".to_owned(), "down".to_owned()]));
    raw.push(("v".to_owned(), vec!["select-toggle".to_owned()]));
    raw.push(("esc".to_owned(), vec!["unselect-all".to_owned()]));
    raw.push(("down".to_owned(), vec!["down".to_owned()]));
    raw.push(("up".to_owned(), vec!["up".to_owned()]));
    raw.push(("j".to_owned(), vec!["down".to_owned()]));
    raw.push(("k".to_owned(), vec!["up".to_owned()]));
    raw.push(("g".to_owned(), vec!["first".to_owned()]));
    raw.push(("G".to_owned(), vec!["last".to_owned()]));
    proof {
        assert(raw.deep_view() =~~= spec_default_raw());
    }
    raw
}

// ---------------------------------------------------------------------------
// Executing bound operations
// ---------------------------------------------------------------------------

/// Executes one operation against the list state and says what the
/// surroundings must do for it; a command captures the line under the
/// cursor at this moment.
pub fn exec_operation(operation: &Operation, state: &mut StatefulList) -> (r: RequestedAction)
    requires
        old(state).wf(),
    ensures
        final(state).wf(),
        (final(state)@, r@) == spec_exec_operation(operation@, old(state)@),
{
    match operation {
        Operation::MoveCursor(MoveCursor::Down(steps)) => {
            state.down(*steps);
            RequestedAction::Continue
        },
        Operation::MoveCursor(MoveCursor::Up(steps)) => {
            state.up(*steps);
            RequestedAction::Continue
        },
        Operation::MoveCursor(MoveCursor::First) => {
            state.first();
            RequestedAction::Continue
        },
        Operation::MoveCursor(MoveCursor::Last) => {
            state.last();
            RequestedAction::Continue
        },
        Operation::SelectLine(SelectOperation::Select) => {
            state.select();
            RequestedAction::Continue
        },
        Operation::SelectLine(SelectOperation::Unselect) => {
            state.unselect();
            RequestedAction::Continue
        },
        Operation::SelectLine(SelectOperation::Toggle) => {
            state.select_toggle();
            RequestedAction::Continue
        },
        Operation::SelectLine(SelectOperation::SelectAll) => {
            state.select_all();
            RequestedAction::Continue
        },
        Operation::SelectLine(SelectOperation::UnselectAll) => {
            state.unselect_all();
            RequestedAction::Continue
        },
        Operation::Execute(command) => {
            let pending = PendingExecution {
                command: command.command.clone(),
                line: state.get_selected_line(),
            };
            if command.background {
                RequestedAction::Detach(pending)
            } else {
                RequestedAction::Block(pending)
            }
        },
        Operation::Reload => RequestedAction::Reload,
        Operation::Exit => RequestedAction::Exit,
    }
}

/// Executes the operations bound to `key` in order against the list state.
/// `exit` stops the run at once; the second component says whether it did.
/// A key with no binding changes nothing.
pub fn handle_key(key: Key, keybindings: &Keybindings, state: &mut StatefulList) -> (r: (
    Vec<RequestedAction>,
    bool,
))
    requires
        old(state).wf(),
    ensures
        final(state).wf(),
        ({
            let run = match spec_lookup(keybindings.deep_view(), key) {
                Some(ops) => spec_run_ops(ops, old(state)@),
                None => RunView { st: old(state)@, actions: Seq::empty(), exited: false },
            };
            &&& final(state)@ == run.st
            &&& r.0.deep_view() == run.actions
            &&& r.1 == run.exited
        }),
{
    let mut actions: Vec<RequestedAction> = Vec::new();
    proof {
        assert(actions.deep_view() =~= Seq::<ActionView>::empty());
    }
    let ops = match get_bound(keybindings, key) {
        Some(ops) => ops,
        None => {
            return (actions, false);
        },
    };
    let ghost opsv = ops.deep_view();
    let ghost st0 = state@;
    proof {
        assert(opsv.skip(0) =~= opsv);
        assert(Seq::<ActionView>::empty() + spec_run_ops(opsv, st0).actions =~= spec_run_ops(
            opsv,
            st0,
        ).actions);
    }
    let mut i: usize = 0;
    while i < ops.len()
        invariant
            state.wf(),
            i <= ops.len(),
            opsv == ops.deep_view(),
            st0 == old(state)@,
            spec_lookup(keybindings.deep_view(), key) == Some(opsv),
            spec_run_ops(opsv, st0).st == spec_run_ops(opsv.skip(i as int), state@).st,
            spec_run_ops(opsv, st0).actions == actions.deep_view() + spec_run_ops(
                opsv.skip(i as int),
                state@,
            ).actions,
            spec_run_ops(opsv, st0).exited == spec_run_ops(opsv.skip(i as int), state@).exited,
        decreases ops.len() - i,
    {
        proof {
            assert(opsv.skip(i as int)[0] == opsv[i as int]);
            assert(opsv.skip(i as int).drop_first() =~= opsv.skip(i as int + 1));
        }
        let ghost st_before = state@;
        let act = exec_operation(&ops[i], state);
        let is_exit = matches!(act, RequestedAction::Exit);
        let ghost before = actions.deep_view();
        actions.push(act);
        proof {
            assert(actions.deep_view() =~= before.push(act@));
        }
        if is_exit {
            proof {
                let op = opsv[i as int];
                match op {
                    OpView::Exit => {},
                    OpView::Reload => {
                        assert(false);
                    },
                    OpView::MoveCursor(_) => {
                        assert(false);
                    },
                    OpView::SelectLine(_) => {
                        assert(false);
                    },
                    OpView::Execute(_) => {
                        assert(false);
                    },
                }
                assert(before + seq![ActionView::Exit] =~= actions.deep_view());
            }
            return (actions, true);
        }
        proof {
            assert(before.push(act@) + spec_run_ops(opsv.skip(i as int + 1), state@).actions
                =~= before + (seq![act@] + spec_run_ops(opsv.skip(i as int + 1), state@).actions));
        }
        i += 1;
    }
    proof {
        assert(opsv.skip(ops.len() as int) =~= Seq::<OpView>::empty());
        assert(actions.deep_view() + Seq::<ActionView>::empty() =~= actions.deep_view());
    }
    (actions, false)
}

} // verus!
