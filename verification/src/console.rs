//! Data types and text-editing state of the board console front end.
//!
//! Rendering, key handling and the channel plumbing live outside the
//! library; what is here is the state the front end keeps and the editing
//! operations on it.

use vstd::prelude::*;

use crate::text::push_char;

verus! {

/// One decoded message from the board: the writing process and its bytes.
#[derive(Clone, Debug)]
pub struct BoardMessage {
    pub pid: u8,
    pub is_app: bool,
    pub payload: Vec<u8>,
}

impl Default for BoardMessage {
    /// An empty message from process zero.
    fn default() -> (r: Self)
        ensures
            r.pid == 0,
            !r.is_app,
            r.payload@.len() == 0,
    {
        BoardMessage { pid: 0, is_app: false, payload: Vec::new() }
    }
}

/// A message event delivered to the console: which application wrote it
/// and what arrived.
#[derive(Clone, Debug)]
pub struct NewMessageEvent {
    pub app: String,
    pub pid: u8,
    pub is_app: bool,
    pub payload: Vec<u8>,
}

/// What the board connection reports to the console.
#[derive(Clone, Debug)]
pub enum Event {
    NewMessage(NewMessageEvent),
    LostConnection(String),
}

/// The state of the connection to a board.
#[derive(Clone, Debug)]
pub enum BoardConnectionStatus {
    Uninitialized,
    Connecting,
    Connected { port: String },
    Errored { err: String },
}

/// Why the console is shutting down.
#[derive(Clone, Copy, Debug, PartialEq, Eq, Structural)]
pub enum Interrupted {
    OsSignal,
    UserRequest,
}

/// Which ports the setup view lists.
#[derive(Clone, Copy, Debug, PartialEq, Eq, Structural)]
pub enum ShowState {
    ShowBoardsOnly,
    ShowAllSerialPorts,
}

/// The two panes of the terminal view.
#[derive(Clone, Copy, Debug, PartialEq, Eq, Structural)]
pub enum Section {
    AppsList,
    Terminal,
}

impl Section {
    /// How many panes there are.
    pub fn count() -> (r: usize)
        ensures
            r == 2,
    {
        2
    }

    /// The index of a pane.
    pub fn to_usize(&self) -> (r: usize)
        ensures
            r == (match self {
                Section::AppsList => 0int,
                Section::Terminal => 1int,
            }),
    {
        match self {
            Section::AppsList => 0,
            Section::Terminal => 1,
        }
    }

    /// The pane at an index, if any.
    pub fn from_usize(value: usize) -> (r: Option<Section>)
        ensures
            r == (match value {
                0usize => Some(Section::AppsList),
                1usize => Some(Section::Terminal),
                _ => None::<Section>,
            }),
    {
        match value {
            0 => Some(Section::AppsList),
            1 => Some(Section::Terminal),
            _ => None,
        }
    }
}

impl Default for Section {
    /// The pane the view starts on.
    fn default() -> (r: Self)
        ensures
            r == Section::AppsList,
    {
        Section::AppsList
    }
}

/// What a pane does when it gains or loses focus.
pub trait SectionActivation {
    fn activate(&mut self);

    fn deactivate(&mut self);
}

/// One help line: the keys and what they do.
pub struct UsageInfoLine {
    pub keys: Vec<String>,
    pub description: String,
}

/// The help text of a pane.
pub struct UsageInfo {
    pub description: Option<String>,
    pub lines: Vec<UsageInfoLine>,
}

/// The text-input view: the entered text and the cursor position, which
/// never leaves the text.
pub struct InputBox {
    text: String,
    cursor_position: usize,
}

impl InputBox {
    /// The cursor always sits on a character boundary inside the text.
    pub open spec fn wf(&self) -> bool {
        self.spec_cursor() <= self.spec_text().len()
    }

    pub closed spec fn spec_text(&self) -> Seq<char> {
        self.text@
    }

    pub closed spec fn spec_cursor(&self) -> int {
        self.cursor_position as int
    }

    /// An empty input with the cursor at the start.
    pub fn new() -> (r: InputBox)
        ensures
            r.wf(),
            r.spec_text().len() == 0,
            r.spec_cursor() == 0,
    {
        InputBox { text: String::new(), cursor_position: 0 }
    }

    /// The entered text.
    pub fn text(&self) -> (r: &str)
        ensures
            r@ == self.spec_text(),
    {
        self.text.as_str()
    }

    /// Whether nothing is entered.
    pub fn is_empty(&self) -> (r: bool)
        ensures
            r == (self.spec_text().len() == 0),
    {
        self.text.as_str().is_empty()
    }

    /// Drop the text and put the cursor back at the start.
    pub fn clear(&mut self)
        ensures
            final(self).wf(),
            final(self).spec_text().len() == 0,
            final(self).spec_cursor() == 0,
    {
        self.text = String::new();
        self.cursor_position = 0;
    }

    /// Move the cursor one character to the left, stopping at the start.
    pub fn move_cursor_left(&mut self)
        requires
            old(self).wf(),
        ensures
            final(self).wf(),
            final(self).spec_text() == old(self).spec_text(),
            final(self).spec_cursor() == (if old(self).spec_cursor() > 0 {
                old(self).spec_cursor() - 1
            } else {
                0
            }),
    {
        if self.cursor_position > 0 {
            self.cursor_position = self.cursor_position - 1;
        }
    }

    /// Move the cursor one character to the right, stopping at the end of
    /// the text.
    pub fn move_cursor_right(&mut self)
        requires
            old(self).wf(),
        ensures
            final(self).wf(),
            final(self).spec_text() == old(self).spec_text(),
            final(self).spec_cursor() == (if old(self).spec_cursor() < old(self).spec_text().len() {
                old(self).spec_cursor() + 1
            } else {
                old(self).spec_cursor()
            }),
    {
        let n = self.text.as_str().unicode_len();
        if self.cursor_position < n {
            self.cursor_position = self.cursor_position + 1;
        }
    }

    /// Insert a character at the cursor and move the cursor past it.
    pub fn enter_char(&mut self, c: char)
        requires
            old(self).wf(),
            old(self).spec_text().len() < usize::MAX,
        ensures
            final(self).wf(),
            final(self).spec_text() == old(self).spec_text().take(old(self).spec_cursor()).push(
                c,
            ) + old(self).spec_text().skip(old(self).spec_cursor()),
            final(self).spec_cursor() == old(self).spec_cursor() + 1,
    {
        let n = self.text.as_str().unicode_len();
        let cursor = self.cursor_position;
        let mut rebuilt = String::new();

        let mut i: usize = 0;
        while i < cursor
            invariant
                i <= cursor <= n,
                n == self.text@.len(),
                rebuilt@ == self.text@.take(i as int),
            decreases cursor - i,
        {
            let ch = self.text.as_str().get_char(i);
            push_char(&mut rebuilt, ch);
            proof {
                assert(self.text@.take(i + 1) =~= self.text@.take(i as int).push(
                    self.text@[i as int],
                ));
            }
            i += 1;
        }
        push_char(&mut rebuilt, c);
        proof {
            assert(rebuilt@ =~= self.text@.take(cursor as int).push(c) + self.text@.subrange(
                cursor as int,
                cursor as int,
            ));
        }
        let mut j: usize = cursor;
        while j < n
            invariant
                cursor <= j <= n,
                n == self.text@.len(),
                rebuilt@ == self.text@.take(cursor as int).push(c) + self.text@.subrange(
                    cursor as int,
                    j as int,
                ),
            decreases n - j,
        {
            let ch = self.text.as_str().get_char(j);
            push_char(&mut rebuilt, ch);
            proof {
                assert(self.text@.subrange(cursor as int, j + 1) =~= self.text@.subrange(
                    cursor as int,
                    j as int,
                ).push(self.text@[j as int]));
                assert(rebuilt@ =~= self.text@.take(cursor as int).push(c) + self.text@.subrange(
                    cursor as int,
                    j + 1,
                ));
            }
            j += 1;
        }
        proof {
            assert(self.text@.subrange(cursor as int, n as int) =~= self.text@.skip(cursor as int));
        }
        self.text = rebuilt;
        self.cursor_position = cursor + 1;
    }

    /// Delete the character before the cursor, when there is one, and
    /// move the cursor onto its place.
    pub fn delete_char(&mut self)
        requires
            old(self).wf(),
        ensures
            final(self).wf(),
            final(self).spec_text() == (if old(self).spec_cursor() > 0 {
                old(self).spec_text().take(old(self).spec_cursor() - 1) + old(
                    self,
                ).spec_text().skip(old(self).spec_cursor())
            } else {
                old(self).spec_text()
            }),
            final(self).spec_cursor() == (if old(self).spec_cursor() > 0 {
                old(self).spec_cursor() - 1
            } else {
                0
            }),
    {
        if self.cursor_position == 0 {
            return ;
        }
        let n = self.text.as_str().unicode_len();
        let cursor = self.cursor_position;
        let mut rebuilt = String::new();
        let mut i: usize = 0;
        while i < cursor - 1
            invariant
                1 <= cursor <= n,
                i <= cursor - 1,
                n == self.text@.len(),
                rebuilt@ == self.text@.take(i as int),
            decreases cursor - 1 - i,
        {
            let ch = self.text.as_str().get_char(i);
            push_char(&mut rebuilt, ch);
            proof {
                assert(self.text@.take(i + 1) =~= self.text@.take(i as int).push(
                    self.text@[i as int],
                ));
            }
            i += 1;
        }
        proof {
            assert(rebuilt@ =~= self.text@.take(cursor - 1) + self.text@.subrange(
                cursor as int,
                cursor as int,
            ));
        }
        let mut j: usize = cursor;
        while j < n
            invariant
                1 <= cursor <= j <= n,
                n == self.text@.len(),
                rebuilt@ == self.text@.take(cursor - 1) + self.text@.subrange(
                    cursor as int,
                    j as int,
                ),
            decreases n - j,
        {
            let ch = self.text.as_str().get_char(j);
            push_char(&mut rebuilt, ch);
            proof {
                assert(self.text@.subrange(cursor as int, j + 1) =~= self.text@.subrange(
                    cursor as int,
                    j as int,
                ).push(self.text@[j as int]));
                assert(rebuilt@ =~= self.text@.take(cursor - 1) + self.text@.subrange(
                    cursor as int,
                    j + 1,
                ));
            }
            j += 1;
        }
        proof {
            assert(self.text@.subrange(cursor as int, n as int) =~= self.text@.skip(cursor as int));
            assert(rebuilt@.len() == n - 1);
        }
        self.text = rebuilt;
        self.cursor_position = cursor - 1;
    }
}

/// The scrollback view over what an application printed.
pub struct output_box<T> {
    content: Vec<T>,
}

impl<T> output_box<T> {
    /// An empty scrollback.
    pub fn new() -> (r: output_box<T>)
        ensures
            r.spec_content().len() == 0,
    {
        output_box { content: Vec::new() }
    }

    pub closed spec fn spec_content(&self) -> Seq<T> {
        self.content@
    }

    /// Everything held.
    pub fn content(&self) -> (r: &Vec<T>)
        ensures
            r@ == self.spec_content(),
    {
        &self.content
    }

    /// Whether nothing is held.
    pub fn is_empty(&self) -> (r: bool)
        ensures
            r == (self.spec_content().len() == 0),
    {
        self.content.is_empty()
    }

    /// Drop everything held.
    pub fn clear(&mut self)
        ensures
            final(self).spec_content().len() == 0,
    {
        self.content.clear();
    }

    /// Append one entry.
    pub fn push(&mut self, value: T)
        ensures
            final(self).spec_content() == old(self).spec_content().push(value),
    {
        self.content.push(value);
    }
}

} // verus!
