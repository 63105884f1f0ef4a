//! Keys while a command runs in the embedded terminal: the bytes a key sends
//! to the running process, and closing the view once the process has exited;
//! the status line shown meanwhile; and the program and arguments a
//! command's parts start.

use vstd::prelude::*;

use crate::events::{EventResult, KeyCode, KeyPress};
use crate::text::{string_of, views};

verus! {

/// Actions the execution view can emit to its parent.
#[derive(Debug, Clone, Copy, PartialEq, Eq, Structural)]
pub enum ExecutionAction {
    /// User closed the execution view (process had exited).
    Close,
}

/// The bytes a key sends to the terminal: Ctrl+C and Ctrl+D their control
/// characters, a character its UTF-8 encoding, and the usual sequences for
/// Enter, Backspace, Tab, Esc, the arrows, Home, End and Delete.
pub open spec fn key_bytes_spec(key: KeyPress) -> Option<Seq<u8>> {
    match key.code {
        KeyCode::Char(c) => if key.control && c == 'c' {
            Some(seq![3u8])
        } else if key.control && c == 'd' {
            Some(seq![4u8])
        } else {
            Some(vstd::utf8::encode_utf8(seq![c]))
        },
        KeyCode::Enter => Some(seq![13u8]),
        KeyCode::Backspace => Some(seq![127u8]),
        KeyCode::Tab => Some(seq![9u8]),
        KeyCode::Esc => Some(seq![27u8]),
        KeyCode::Up => Some(seq![27u8, 91u8, 65u8]),
        KeyCode::Down => Some(seq![27u8, 91u8, 66u8]),
        KeyCode::Right => Some(seq![27u8, 91u8, 67u8]),
        KeyCode::Left => Some(seq![27u8, 91u8, 68u8]),
        KeyCode::Home => Some(seq![27u8, 91u8, 72u8]),
        KeyCode::End => Some(seq![27u8, 91u8, 70u8]),
        KeyCode::Delete => Some(seq![27u8, 91u8, 51u8, 126u8]),
        _ => None,
    }
}

/// The bytes a key sends to the running process, if any.
pub fn key_bytes(key: KeyPress) -> (r: Option<Vec<u8>>)
    ensures
        match key_bytes_spec(key) {
            Some(b) => r matches Some(v) && v@ == b,
            None => r is None,
        },
{
    match key.code {
        KeyCode::Char(c) => {
            if key.control && c == 'c' {
                return Some(vec![3u8]);
            }
            if key.control && c == 'd' {
                return Some(vec![4u8]);
            }
            let mut s = String::new();
            crate::text::string_push(&mut s, c);
            let bytes = vstd::slice::slice_to_vec(s.as_str().as_bytes());
            assert(s@ =~= seq![c]);
            Some(bytes)
        },
        KeyCode::Enter => Some(vec![13u8]),
        KeyCode::Backspace => Some(vec![127u8]),
        KeyCode::Tab => Some(vec![9u8]),
        KeyCode::Esc => Some(vec![27u8]),
        KeyCode::Up => Some(vec![27u8, 91u8, 65u8]),
        KeyCode::Down => Some(vec![27u8, 91u8, 66u8]),
        KeyCode::Right => Some(vec![27u8, 91u8, 67u8]),
        KeyCode::Left => Some(vec![27u8, 91u8, 68u8]),
        KeyCode::Home => Some(vec![27u8, 91u8, 72u8]),
        KeyCode::End => Some(vec![27u8, 91u8, 70u8]),
        KeyCode::Delete => Some(vec![27u8, 91u8, 51u8, 126u8]),
        _ => None,
    }
}

/// The status bar's text: while the process runs, that input goes to it;
/// once it has exited, its exit status ("unknown" when there is none) and
/// how to close the view.
pub open spec fn status_text_spec(exited: bool, exit_status: Seq<char>) -> Seq<char> {
    if exited {
        " Exited ("@ + (if exit_status.len() == 0 {
            "unknown"@
        } else {
            exit_status
        }) + ") — press Esc/⏎/q to close "@
    } else {
        " Running… (input is forwarded to the process) "@
    }
}

/// The status bar's text (see `status_text_spec`).
pub fn status_text(exited: bool, exit_status: &str) -> (r: String)
    ensures
        r@ == status_text_spec(exited, exit_status@),
{
    if exited {
        let mut r = crate::text::string_of(" Exited (");
        if exit_status.unicode_len() == 0 {
            crate::text::push_all(&mut r, "unknown");
        } else {
            crate::text::push_all(&mut r, exit_status);
        }
        crate::text::push_all(&mut r, ") — press Esc/⏎/q to close ");
        r
    } else {
        crate::text::string_of(" Running… (input is forwarded to the process) ")
    }
}

/// A key in the execution view: once the process has exited, Esc, Enter and
/// q close the view and other keys are swallowed; while it runs, the key's
/// bytes go to it.
pub fn execution_key(exited: bool, key: KeyPress) -> (r: (EventResult<ExecutionAction>, Option<Vec<u8>>))
    ensures
        exited ==> r.1 is None && r.0 == match key.code {
            KeyCode::Esc | KeyCode::Enter | KeyCode::Char('q') => EventResult::Action(ExecutionAction::Close),
            _ => EventResult::<ExecutionAction>::Consumed,
        },
        !exited ==> r.0 is Consumed && match key_bytes_spec(key) {
            Some(b) => r.1 matches Some(v) && v@ == b,
            None => r.1 is None,
        },
{
    if exited {
        match key.code {
            KeyCode::Esc | KeyCode::Enter | KeyCode::Char('q') => (EventResult::Action(ExecutionAction::Close), None),
            _ => (EventResult::Consumed, None),
        }
    } else {
        (EventResult::Consumed, key_bytes(key))
    }
}


/// The program and its arguments for the command's parts: the first part
/// and the rest; `None` when there is no command to execute.
pub fn program_and_args(parts: &Vec<String>) -> (r: Option<(String, Vec<String>)>)
    ensures
        r is None <==> parts@.len() == 0,
        r matches Some((program, args)) ==> program@ == parts@[0]@ && views(args@) == views(parts@).drop_first(),
{
    if parts.len() == 0 {
        return None;
    }
    let mut args: Vec<String> = Vec::new();
    let mut i: usize = 1;
    while i < parts.len()
        invariant
            1 <= i <= parts@.len(),
            views(args@) == views(parts@).subrange(1, i as int),
        decreases parts.len() - i,
    {
        let ghost before = args@;
        let a = string_of(parts[i].as_str());
        args.push(a);
        assert(args@ == before.push(a));
        assert(views(args@) =~= views(before).push(parts@[i as int]@));
        assert(views(args@) =~= views(parts@).subrange(1, i + 1));
        i = i + 1;
    }
    assert(views(parts@).subrange(1, parts@.len() as int) =~= views(parts@).drop_first());
    Some((string_of(parts[0].as_str()), args))
}


/// The key a terminal reads from `bytes` (ECMA-48 / xterm input): carriage
/// return, DEL, tab and a lone ESC; ESC `[` introduces a control sequence
/// whose final byte names the key: `A` cursor up, `B` cursor down, `C`
/// cursor forward (right), `D` cursor back (left), `H` home, `F` end, and
/// `3~` delete.
pub open spec fn terminal_key(bytes: Seq<u8>) -> Option<KeyCode> {
    if bytes == seq![13u8] {
        Some(KeyCode::Enter)
    } else if bytes == seq![127u8] {
        Some(KeyCode::Backspace)
    } else if bytes == seq![9u8] {
        Some(KeyCode::Tab)
    } else if bytes == seq![27u8] {
        Some(KeyCode::Esc)
    } else if bytes.len() >= 3 && bytes[0] == 27u8 && bytes[1] == 91u8 {
        let rest = bytes.skip(2);
        if rest == seq![65u8] {
            Some(KeyCode::Up)
        } else if rest == seq![66u8] {
            Some(KeyCode::Down)
        } else if rest == seq![67u8] {
            Some(KeyCode::Right)
        } else if rest == seq![68u8] {
            Some(KeyCode::Left)
        } else if rest == seq![72u8] {
            Some(KeyCode::Home)
        } else if rest == seq![70u8] {
            Some(KeyCode::End)
        } else if rest == seq![51u8, 126u8] {
            Some(KeyCode::Delete)
        } else {
            None
        }
    } else {
        None
    }
}

/// Every key other than a character reaches the running process as bytes
/// the terminal reads back as that same key: the arrows as the ANSI cursor
/// sequences of their own direction, Enter, Backspace, Tab, Esc, Home, End
/// and Delete as theirs.
pub proof fn lemma_key_bytes_read_back(key: KeyPress)
    requires
        !(key.code is Char),
        key.code != KeyCode::BackTab,
        key.code != KeyCode::Other,
    ensures
        key_bytes_spec(key) matches Some(b) && terminal_key(b) == Some(key.code),
{
    let b = key_bytes_spec(key)->0;
    assert(seq![13u8][0] == 13u8 && seq![127u8][0] == 127u8 && seq![9u8][0] == 9u8 && seq![27u8][0] == 27u8);
    assert(seq![65u8][0] == 65u8 && seq![66u8][0] == 66u8 && seq![67u8][0] == 67u8 && seq![68u8][0] == 68u8);
    assert(seq![72u8][0] == 72u8 && seq![70u8][0] == 70u8);
    assert(seq![13u8].len() == 1 && seq![127u8].len() == 1 && seq![9u8].len() == 1 && seq![27u8].len() == 1);
    if b.len() == 3 || b.len() == 4 {
        let rest = b.skip(2);
        assert(rest[0] == b[2]);
        match key.code {
            KeyCode::Up => assert(rest =~= seq![65u8]),
            KeyCode::Down => assert(rest =~= seq![66u8]),
            KeyCode::Right => assert(rest =~= seq![67u8]),
            KeyCode::Left => assert(rest =~= seq![68u8]),
            KeyCode::Home => assert(rest =~= seq![72u8]),
            KeyCode::End => assert(rest =~= seq![70u8]),
            _ => assert(rest =~= seq![51u8, 126u8]),
        }
    } else {
        assert(b.len() == 1);
        assert(b[0] == key_bytes_spec(key)->0[0]);
        match key.code {
            KeyCode::Enter => assert(b =~= seq![13u8]),
            KeyCode::Backspace => assert(b =~= seq![127u8]),
            KeyCode::Tab => assert(b =~= seq![9u8]),
            _ => assert(b =~= seq![27u8]),
        }
    }
}

} // verus!
