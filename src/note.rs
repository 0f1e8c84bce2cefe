use vstd::prelude::*;

verus! {

/// A point in time, as microseconds since the Unix epoch (UTC).
#[derive(Clone, Copy, Debug, PartialEq, Eq, Structural)]
pub struct Timestamp {
    pub micros: i64,
}

/// A titled text record with its creation and last-update times.
#[derive(Clone, Debug)]
pub struct Note {
    pub id: String,
    pub title: String,
    pub content: String,
    pub created_at: Timestamp,
    pub updated_at: Timestamp,
}

/// What a note is, mathematically.
pub ghost struct NoteView {
    pub id: Seq<char>,
    pub title: Seq<char>,
    pub content: Seq<char>,
    pub created_at: int,
    pub updated_at: int,
}

impl View for Note {
    type V = NoteView;

    open spec fn view(&self) -> NoteView {
        NoteView {
            id: self.id@,
            title: self.title@,
            content: self.content@,
            created_at: self.created_at.micros as int,
            updated_at: self.updated_at.micros as int,
        }
    }
}

impl NoteView {
    /// A note is never updated before it was created.
    pub open spec fn wf(self) -> bool {
        self.created_at <= self.updated_at
    }
}

/// The fields of a note to be created.
#[derive(Clone, Debug)]
pub struct CreateNoteRequest {
    pub title: String,
    pub content: String,
}

/// The fields of a note to be replaced; an absent field is left as it is.
#[derive(Clone, Debug)]
pub struct UpdateNoteRequest {
    pub title: Option<String>,
    pub content: Option<String>,
}

pub open spec fn opt_view(o: Option<String>) -> Option<Seq<char>> {
    match o {
        Some(s) => Some(s@),
        None => None,
    }
}

/// The note that creation makes: both times are the moment of creation.
pub open spec fn new_note(id: Seq<char>, title: Seq<char>, content: Seq<char>, now: int) -> NoteView {
    NoteView { id, title, content, created_at: now, updated_at: now }
}

/// The note after an update at time `now`: the given fields replace the old
/// ones, and the update time moves to `now`, or stays where it was if the
/// clock reads earlier than it.
pub open spec fn updated_note(
    n: NoteView,
    title: Option<Seq<char>>,
    content: Option<Seq<char>>,
    now: int,
) -> NoteView {
    NoteView {
        id: n.id,
        title: match title {
            Some(t) => t,
            None => n.title,
        },
        content: match content {
            Some(c) => c,
            None => n.content,
        },
        created_at: n.created_at,
        updated_at: if now < n.updated_at {
            n.updated_at
        } else {
            now
        },
    }
}

impl Note {
    /// A copy of the note, field for field.
    pub fn copied(&self) -> (r: Note)
        ensures
            r@ == self@,
    {
        Note {
            id: self.id.clone(),
            title: self.title.clone(),
            content: self.content.clone(),
            created_at: self.created_at,
            updated_at: self.updated_at,
        }
    }

    /// Applies an update at time `now` in place.
    pub fn apply_update(&mut self, req: UpdateNoteRequest, now: Timestamp)
        ensures
            final(self)@ == updated_note(
                old(self)@,
                opt_view(req.title),
                opt_view(req.content),
                now.micros as int,
            ),
    {
        match req.title {
            Some(t) => {
                self.title = t;
            },
            None => {},
        }
        match req.content {
            Some(c) => {
                self.content = c;
            },
            None => {},
        }
        if now.micros >= self.updated_at.micros {
            self.updated_at = now;
        }
    }
}

} // verus!
