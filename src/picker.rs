//! The picker: history entries, the query, its matches and the cursor, driven
//! one event at a time.
use crate::filter::{filter_entries, filtered};
use crate::paging::{
    advance_down, advance_up, cursor_at, lemma_cursor_of_position, page_bounds, visible_slice,
    Cursor,
};
use vstd::prelude::*;

verus! {

/// One input to the picker, as the terminal loop hands it over.
pub enum Event {
    /// Next item (arrow down, or control-n).
    Down,
    /// Previous item (arrow up, or control-p).
    Up,
    /// Take the highlighted item (Enter).
    Commit,
    /// Leave without taking anything (Escape).
    Cancel,
    /// The query text as the line editor holds it after a key it handled.
    Edit(String),
    /// Nothing happened before the wait for a key ran out.
    Idle,
}

/// What the picker does after an event.
#[derive(Debug, PartialEq, Eq)]
pub enum Outcome {
    /// Keep going: redraw and wait for the next event.
    Running,
    /// The user pressed commit: the highlighted entry, or `None` when nothing
    /// matched and so nothing was highlighted.
    Committed(Option<String>),
    /// The user left; nothing is taken.
    Cancelled,
}

/// The picker's state as a mathematical value.
pub struct PickerView {
    pub entries: Seq<String>,
    pub capacity: int,
    pub query: Seq<char>,
    pub cursor: Cursor,
}

impl PickerView {
    /// The entries that hold the query, in history order.
    pub open spec fn matches(self) -> Seq<String> {
        filtered(self.entries, self.query)
    }

    /// Position of the highlighted match in `matches()`.
    pub open spec fn position(self) -> int {
        self.cursor.position(self.capacity)
    }

    /// A positive page size, and a cursor on a match (or at `(0, 0)` when none).
    pub open spec fn valid(self) -> bool {
        self.capacity > 0 && self.cursor.valid(self.capacity, self.matches().len() as int)
    }

    /// The highlighted entry, if any entry matches.
    pub open spec fn selection(self) -> Option<String> {
        if self.matches().len() == 0 {
            None
        } else {
            Some(self.matches()[self.position()])
        }
    }

    /// The cursor one match further down, held on the last match.
    pub open spec fn cursor_down(self) -> Cursor {
        if self.position() + 1 < self.matches().len() {
            cursor_at(self.position() + 1, self.capacity)
        } else {
            self.cursor
        }
    }

    /// The cursor one match further up, held on the first match.
    pub open spec fn cursor_up(self) -> Cursor {
        if self.position() > 0 {
            cursor_at(self.position() - 1, self.capacity)
        } else {
            self.cursor
        }
    }

    /// The state after a new query text: a changed query puts the cursor back
    /// on the first match of the first page; the same text changes nothing.
    pub open spec fn with_query(self, q: Seq<char>) -> PickerView {
        if q == self.query {
            self
        } else {
            PickerView { query: q, cursor: Cursor { page: 0, index: 0 }, ..self }
        }
    }

    /// The state and outcome after one event.
    pub open spec fn transition(self, e: Event) -> (PickerView, Outcome) {
        match e {
            Event::Down => (PickerView { cursor: self.cursor_down(), ..self }, Outcome::Running),
            Event::Up => (PickerView { cursor: self.cursor_up(), ..self }, Outcome::Running),
            Event::Commit => (self, Outcome::Committed(self.selection())),
            Event::Cancel => (self, Outcome::Cancelled),
            Event::Edit(q) => (self.with_query(q@), Outcome::Running),
            Event::Idle => (self, Outcome::Running),
        }
    }
}


/// The picker's state. Matches are kept for the current query; the cursor
/// always names one of them, or rests at `(0, 0)` when there are none.
pub struct Picker {
    entries: Vec<String>,
    capacity: usize,
    query: String,
    matches: Vec<String>,
    cursor: Cursor,
}

impl View for Picker {
    type V = PickerView;

    closed spec fn view(&self) -> PickerView {
        PickerView {
            entries: self.entries@,
            capacity: self.capacity as int,
            query: self.query@,
            cursor: self.cursor,
        }
    }
}

impl Picker {
    /// The stored matches are those of the current query, and the view is valid.
    pub closed spec fn wf(&self) -> bool {
        &&& self.matches@ == filtered(self.entries@, self.query@)
        &&& self@.valid()
    }

    /// A picker over `entries` with an empty query, so every entry matches,
    /// and the cursor on the first one.
    pub fn new(entries: Vec<String>, capacity: usize) -> (r: Picker)
        requires
            capacity > 0,
        ensures
            r.wf(),
            r@.valid(),
            r@.entries == entries@,
            r@.capacity == capacity,
            r@.query == Seq::<char>::empty(),
            r@.cursor == (Cursor { page: 0, index: 0 }),
    {
        let query = String::new();
        let matches = filter_entries(&entries, query.as_str());
        Picker { entries, capacity, query, matches, cursor: Cursor::start() }
    }

    /// The query text the matches are computed for.
    pub fn query(&self) -> (r: &str)
        ensures
            r@ == self@.query,
    {
        self.query.as_str()
    }

    /// The entries that hold the query, in history order.
    pub fn matches(&self) -> (r: &Vec<String>)
        requires
            self.wf(),
        ensures
            r@ == self@.matches(),
    {
        &self.matches
    }

    /// The highlighted cursor.
    pub fn cursor(&self) -> (r: Cursor)
        ensures
            r == self@.cursor,
    {
        self.cursor
    }

    /// The highlighted entry; `None` when nothing matches.
    pub fn selected(&self) -> (r: Option<String>)
        requires
            self.wf(),
        ensures
            r == self@.selection(),
    {
        if self.matches.len() == 0 {
            None
        } else {
            let pos = self.cursor.page * self.capacity + self.cursor.index;
            Some(self.matches[pos].clone())
        }
    }

    /// Moves the highlight one match down, holding on the last match.
    pub fn move_down(&mut self)
        requires
            old(self).wf(),
        ensures
            final(self).wf(),
            final(self)@ == (PickerView { cursor: old(self)@.cursor_down(), ..old(self)@ }),
    {
        let c = advance_down(self.cursor, self.capacity, self.matches.len());
        proof {
            if self.matches@.len() > 0 {
                lemma_cursor_of_position(c, self.capacity as int);
                lemma_cursor_of_position(self.cursor, self.capacity as int);
            }
        }
        self.cursor = c;
    }

    /// Moves the highlight one match up, holding on the first match.
    pub fn move_up(&mut self)
        requires
            old(self).wf(),
        ensures
            final(self).wf(),
            final(self)@ == (PickerView { cursor: old(self)@.cursor_up(), ..old(self)@ }),
    {
        let c = advance_up(self.cursor, self.capacity, self.matches.len());
        proof {
            if self.matches@.len() > 0 {
                lemma_cursor_of_position(c, self.capacity as int);
                lemma_cursor_of_position(self.cursor, self.capacity as int);
            }
        }
        self.cursor = c;
    }

    /// Takes the query text from the line editor. When it differs from the
    /// current query, the matches are computed anew and the cursor goes back
    /// to `(0, 0)`.
    pub fn set_query(&mut self, query: String)
        requires
            old(self).wf(),
        ensures
            final(self).wf(),
            final(self)@ == old(self)@.with_query(query@),
            final(self)@.query == query@,
            old(self)@.query != query@ ==> final(self)@.cursor == (Cursor { page: 0, index: 0 }),
    {
        if self.query != query {
            self.matches = filter_entries(&self.entries, query.as_str());
            self.query = query;
            self.cursor = Cursor::start();
        }
    }

    /// Applies one event and says whether the picker goes on, and with what
    /// it ended.
    pub fn step(&mut self, event: Event) -> (r: Outcome)
        requires
            old(self).wf(),
        ensures
            final(self).wf(),
            (final(self)@, r) == old(self)@.transition(event),
    {
        match event {
            Event::Down => {
                self.move_down();
                Outcome::Running
            },
            Event::Up => {
                self.move_up();
                Outcome::Running
            },
            Event::Commit => Outcome::Committed(self.selected()),
            Event::Cancel => Outcome::Cancelled,
            Event::Edit(q) => {
                self.set_query(q);
                Outcome::Running
            },
            Event::Idle => Outcome::Running,
        }
    }

    /// The entries on the page the cursor is on, in order.
    pub fn visible(&self) -> (r: Vec<String>)
        requires
            self.wf(),
        ensures
            r@ == self@.matches().subrange(
                page_bounds(self@.matches().len() as int, self@.cursor.page as int, self@.capacity).0,
                page_bounds(self@.matches().len() as int, self@.cursor.page as int, self@.capacity).1,
            ),
    {
        visible_slice(&self.matches, self.cursor.page, self.capacity)
    }

    /// The highlighted row of the visible page; `None` when nothing matches.
    /// The row always lies inside the page, also when the page is short.
    pub fn highlighted_row(&self) -> (r: Option<usize>)
        requires
            self.wf(),
        ensures
            self@.matches().len() == 0 <==> r is None,
            r matches Some(i) ==> i == self@.cursor.index && i < page_bounds(
                self@.matches().len() as int,
                self@.cursor.page as int,
                self@.capacity,
            ).1 - page_bounds(
                self@.matches().len() as int,
                self@.cursor.page as int,
                self@.capacity,
            ).0,
    {
        if self.matches.len() == 0 {
            None
        } else {
            Some(self.cursor.index)
        }
    }
}

} // verus!
