use vstd::prelude::*;
use crate::note::{
    CreateNoteRequest, Note, NoteView, Timestamp, UpdateNoteRequest, new_note, opt_view,
    updated_note,
};
use crate::store::{Store, lists};

verus! {

/// The answer to a request, before it is written out on the wire.
#[derive(Debug)]
pub enum Reply {
    /// 201, the new note.
    Created(Note),
    /// 200, one note.
    One(Note),
    /// 200, every note.
    Many(Vec<Note>),
    /// 204, no body.
    NoContent,
    /// 404, no body.
    NotFound,
    /// 200, the health text.
    Health,
    /// 302, to the static start page.
    Redirect,
}

/// What a reply is, mathematically.
pub ghost enum ReplyView {
    Created(NoteView),
    One(NoteView),
    Many(Seq<NoteView>),
    NoContent,
    NotFound,
    Health,
    Redirect,
}

impl View for Reply {
    type V = ReplyView;

    open spec fn view(&self) -> ReplyView {
        match self {
            Reply::Created(n) => ReplyView::Created(n@),
            Reply::One(n) => ReplyView::One(n@),
            Reply::Many(v) => ReplyView::Many(v@.map_values(|n: Note| n@)),
            Reply::NoContent => ReplyView::NoContent,
            Reply::NotFound => ReplyView::NotFound,
            Reply::Health => ReplyView::Health,
            Reply::Redirect => ReplyView::Redirect,
        }
    }
}

/// The HTTP status of each kind of reply.
pub open spec fn status_of(r: ReplyView) -> u16 {
    match r {
        ReplyView::Created(_) => 201,
        ReplyView::One(_) => 200,
        ReplyView::Many(_) => 200,
        ReplyView::NoContent => 204,
        ReplyView::NotFound => 404,
        ReplyView::Health => 200,
        ReplyView::Redirect => 302,
    }
}

/// Whether the reply carries no body at all.
pub open spec fn is_empty_body(r: ReplyView) -> bool {
    r is NoContent || r is NotFound || r is Redirect
}

impl Reply {
    /// The HTTP status code of the reply.
    pub fn status(&self) -> (r: u16)
        ensures
            r == status_of(self@),
    {
        match self {
            Reply::Created(_) => 201,
            Reply::One(_) => 200,
            Reply::Many(_) => 200,
            Reply::NoContent => 204,
            Reply::NotFound => 404,
            Reply::Health => 200,
            Reply::Redirect => 302,
        }
    }
}

/// The body of the health reply.
pub fn health_body() -> (r: &'static str)
    ensures
        r@ == "Healthy!\n"@,
{
    "Healthy!\n"
}

/// The content type of the health reply.
pub fn health_content_type() -> (r: &'static str)
    ensures
        r@ == "application/json"@,
{
    "application/json"
}

/// Where the root path redirects to.
pub fn redirect_location() -> (r: &'static str)
    ensures
        r@ == "/static/index.html"@,
{
    "/static/index.html"
}

/// Relies on uuid::Uuid::new_v4 and the Display impl of Uuid: a random
/// version 4 UUID, written in its hyphenated form of 36 characters.
#[verifier::external_body]
fn fresh_id() -> (r: String)
    ensures
        r@.len() == 36,
{
    uuid::Uuid::new_v4().to_string()
}

/// Relies on chrono's `From<SystemTime> for DateTime<Utc>` and
/// DateTime::timestamp_micros: the system clock in microseconds since the
/// Unix epoch, negative when the clock reads before the epoch.
#[verifier::external_body]
fn current_time() -> (r: Timestamp) {
    Timestamp {
        micros: chrono::DateTime::<chrono::Utc>::from(std::time::SystemTime::now()).timestamp_micros(),
    }
}

/// The store and reply after creating a note with this id at time `now`.
pub open spec fn create_outcome(
    m: Map<Seq<char>, NoteView>,
    id: Seq<char>,
    title: Seq<char>,
    content: Seq<char>,
    now: int,
) -> (Map<Seq<char>, NoteView>, ReplyView) {
    let n = new_note(id, title, content, now);
    (m.insert(id, n), ReplyView::Created(n))
}

/// The reply to fetching the note with this id.
pub open spec fn get_outcome(m: Map<Seq<char>, NoteView>, id: Seq<char>) -> ReplyView {
    if m.contains_key(id) {
        ReplyView::One(m[id])
    } else {
        ReplyView::NotFound
    }
}

/// The store and reply after updating the note with this id at time `now`.
pub open spec fn update_outcome(
    m: Map<Seq<char>, NoteView>,
    id: Seq<char>,
    title: Option<Seq<char>>,
    content: Option<Seq<char>>,
    now: int,
) -> (Map<Seq<char>, NoteView>, ReplyView) {
    if m.contains_key(id) {
        let n = updated_note(m[id], title, content, now);
        (m.insert(id, n), ReplyView::One(n))
    } else {
        (m, ReplyView::NotFound)
    }
}

/// The store and reply after deleting the note with this id.
pub open spec fn delete_outcome(m: Map<Seq<char>, NoteView>, id: Seq<char>) -> (
    Map<Seq<char>, NoteView>,
    ReplyView,
) {
    if m.contains_key(id) {
        (m.remove(id), ReplyView::NoContent)
    } else {
        (m, ReplyView::NotFound)
    }
}

/// Creates a note with the given id and creation time.
pub fn create_note_at(store: &mut Store, req: CreateNoteRequest, id: String, now: Timestamp) -> (r: Reply)
    requires
        old(store).wf(),
    ensures
        final(store).wf(),
        (final(store)@, r@) == create_outcome(old(store)@, id@, req.title@, req.content@, now.micros as int),
{
    let note = Note { id, title: req.title, content: req.content, created_at: now, updated_at: now };
    let out = note.copied();
    store.insert(note);
    Reply::Created(out)
}

/// Creates a note under a fresh id, stamped with the current time.
pub fn create_note(store: &mut Store, req: CreateNoteRequest) -> (r: Reply)
    requires
        old(store).wf(),
    ensures
        final(store).wf(),
        match r@ {
            ReplyView::Created(n) => n.id.len() == 36
                && (final(store)@, r@) == create_outcome(old(store)@, n.id, req.title@, req.content@, n.created_at),
            _ => false,
        },
{
    let id = fresh_id();
    let now = current_time();
    create_note_at(store, req, id, now)
}

/// Every note, each once, in no promised order.
pub fn get_notes(store: &Store) -> (r: Reply)
    requires
        store.wf(),
    ensures
        match r@ {
            ReplyView::Many(l) => lists(store@, l),
            _ => false,
        },
{
    Reply::Many(store.list())
}

/// The note with this id, or not found.
pub fn get_note(store: &Store, id: &String) -> (r: Reply)
    requires
        store.wf(),
    ensures
        r@ == get_outcome(store@, id@),
{
    match store.get(id) {
        Some(n) => Reply::One(n),
        None => Reply::NotFound,
    }
}

/// Updates the note with this id as of time `now`, or answers not found.
pub fn update_note_at(store: &mut Store, id: &String, req: UpdateNoteRequest, now: Timestamp) -> (r: Reply)
    requires
        old(store).wf(),
    ensures
        final(store).wf(),
        (final(store)@, r@) == update_outcome(
            old(store)@,
            id@,
            opt_view(req.title),
            opt_view(req.content),
            now.micros as int,
        ),
{
    match store.update(id, req, now) {
        Some(n) => Reply::One(n),
        None => Reply::NotFound,
    }
}

/// Updates the note with this id as of the current time, or answers not found.
pub fn update_note(store: &mut Store, id: &String, req: UpdateNoteRequest) -> (r: Reply)
    requires
        old(store).wf(),
    ensures
        final(store).wf(),
        exists|now: int|
            (final(store)@, r@) == #[trigger] update_outcome(
                old(store)@,
                id@,
                opt_view(req.title),
                opt_view(req.content),
                now,
            ),
{
    let now = current_time();
    update_note_at(store, id, req, now)
}

/// Deletes the note with this id, or answers not found.
pub fn delete_note(store: &mut Store, id: &String) -> (r: Reply)
    requires
        old(store).wf(),
    ensures
        final(store).wf(),
        (final(store)@, r@) == delete_outcome(old(store)@, id@),
{
    if store.remove(id) {
        Reply::NoContent
    } else {
        Reply::NotFound
    }
}

/// The health check: always healthy, whatever the store holds.
pub fn get_health_status() -> (r: Reply)
    ensures
        r@ == ReplyView::Health,
        status_of(r@) == 200,
{
    Reply::Health
}

/// The root path sends the client to the static start page.
pub fn redirect_root() -> (r: Reply)
    ensures
        r@ == ReplyView::Redirect,
        status_of(r@) == 302,
{
    Reply::Redirect
}

} // verus!
