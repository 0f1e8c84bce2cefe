use notes_service::handlers::{
    create_note, create_note_at, delete_note, get_health_status, get_note, get_notes,
    health_body, health_content_type, redirect_location, redirect_root, update_note,
    update_note_at, Reply,
};
use notes_service::note::{CreateNoteRequest, Note, Timestamp, UpdateNoteRequest};
use notes_service::store::Store;

fn req(title: &str, content: &str) -> CreateNoteRequest {
    CreateNoteRequest { title: title.to_string(), content: content.to_string() }
}

fn created(r: Reply) -> Note {
    match r {
        Reply::Created(n) => n,
        other => panic!("expected a created note, got {:?}", other),
    }
}

fn one(r: Reply) -> Note {
    match r {
        Reply::One(n) => n,
        other => panic!("expected one note, got {:?}", other),
    }
}

#[test]
fn concrete_scenario() {
    let mut store = Store::new();
    let r = create_note(&mut store, req("A", "B"));
    assert_eq!(r.status(), 201);
    let n = created(r);
    assert_eq!(n.title, "A");
    assert_eq!(n.content, "B");
    assert!(!n.id.is_empty());
    let g = get_note(&store, &n.id);
    assert_eq!(g.status(), 200);
    let f = one(g);
    assert_eq!(f.title, "A");
    assert_eq!(f.content, "B");
    let d = delete_note(&mut store, &n.id);
    assert_eq!(d.status(), 204);
    assert!(matches!(d, Reply::NoContent));
    let g2 = get_note(&store, &n.id);
    assert_eq!(g2.status(), 404);
    assert!(matches!(g2, Reply::NotFound));
}

#[test]
fn round_trip_keeps_fields_and_times() {
    let mut store = Store::new();
    let n = created(create_note(&mut store, req("title", "content")));
    let f = one(get_note(&store, &n.id));
    assert_eq!(f.id, n.id);
    assert_eq!(f.title, "title");
    assert_eq!(f.content, "content");
    assert_eq!(f.created_at, f.updated_at);
    assert_eq!(f.created_at, n.created_at);
}

#[test]
fn fresh_ids_are_uuids_and_differ() {
    let mut store = Store::new();
    let a = created(create_note(&mut store, req("a", "1")));
    let b = created(create_note(&mut store, req("b", "2")));
    assert_eq!(a.id.len(), 36);
    assert_eq!(a.id.chars().filter(|c| *c == '-').count(), 4);
    assert_ne!(a.id, b.id);
}

#[test]
fn clock_is_after_the_epoch() {
    let mut store = Store::new();
    let a = created(create_note(&mut store, req("a", "1")));
    // 2020-01-01T00:00:00Z
    assert!(a.created_at.micros > 1_577_836_800_000_000);
}

#[test]
fn create_at_given_id_and_time() {
    let mut store = Store::new();
    let n = created(create_note_at(&mut store, req("T", "C"), "n1".to_string(), Timestamp { micros: 5 }));
    assert_eq!(n.id, "n1");
    assert_eq!(n.created_at, Timestamp { micros: 5 });
    assert_eq!(n.updated_at, Timestamp { micros: 5 });
    let f = one(get_note(&store, &"n1".to_string()));
    assert_eq!(f.title, "T");
}

#[test]
fn update_title_only_keeps_content() {
    let mut store = Store::new();
    create_note_at(&mut store, req("T", "C"), "x".to_string(), Timestamp { micros: 10 });
    let u = UpdateNoteRequest { title: Some("T2".to_string()), content: None };
    let r = update_note_at(&mut store, &"x".to_string(), u, Timestamp { micros: 20 });
    assert_eq!(r.status(), 200);
    let n = one(r);
    assert_eq!(n.title, "T2");
    assert_eq!(n.content, "C");
    assert_eq!(n.created_at, Timestamp { micros: 10 });
    assert_eq!(n.updated_at, Timestamp { micros: 20 });
    let f = one(get_note(&store, &"x".to_string()));
    assert_eq!(f.title, "T2");
    assert_eq!(f.content, "C");
}

#[test]
fn update_content_only_keeps_title() {
    let mut store = Store::new();
    create_note_at(&mut store, req("T", "C"), "x".to_string(), Timestamp { micros: 10 });
    let u = UpdateNoteRequest { title: None, content: Some("C2".to_string()) };
    let n = one(update_note_at(&mut store, &"x".to_string(), u, Timestamp { micros: 30 }));
    assert_eq!(n.title, "T");
    assert_eq!(n.content, "C2");
    assert_eq!(n.updated_at, Timestamp { micros: 30 });
}

#[test]
fn update_with_neither_field_refreshes_time_only() {
    let mut store = Store::new();
    create_note_at(&mut store, req("T", "C"), "x".to_string(), Timestamp { micros: 10 });
    let u = UpdateNoteRequest { title: None, content: None };
    let n = one(update_note_at(&mut store, &"x".to_string(), u, Timestamp { micros: 11 }));
    assert_eq!(n.title, "T");
    assert_eq!(n.content, "C");
    assert_eq!(n.updated_at, Timestamp { micros: 11 });
}

#[test]
fn update_never_moves_time_back() {
    let mut store = Store::new();
    create_note_at(&mut store, req("T", "C"), "x".to_string(), Timestamp { micros: 100 });
    let u = UpdateNoteRequest { title: Some("T2".to_string()), content: None };
    let n = one(update_note_at(&mut store, &"x".to_string(), u, Timestamp { micros: 50 }));
    assert_eq!(n.title, "T2");
    assert_eq!(n.updated_at, Timestamp { micros: 100 });
}

#[test]
fn update_with_clock_keeps_order_of_times() {
    let mut store = Store::new();
    let n = created(create_note(&mut store, req("T", "C")));
    let u = UpdateNoteRequest { title: Some("T2".to_string()), content: None };
    let m = one(update_note(&mut store, &n.id, u));
    assert_eq!(m.title, "T2");
    assert_eq!(m.content, "C");
    assert!(m.updated_at.micros >= n.updated_at.micros);
    assert_eq!(m.created_at, n.created_at);
}

#[test]
fn missing_id_is_not_found_everywhere() {
    let mut store = Store::new();
    create_note_at(&mut store, req("T", "C"), "x".to_string(), Timestamp { micros: 1 });
    let missing = "no-such-id".to_string();
    let g = get_note(&store, &missing);
    assert!(matches!(g, Reply::NotFound));
    assert_eq!(g.status(), 404);
    let u = UpdateNoteRequest { title: Some("T2".to_string()), content: None };
    let p = update_note(&mut store, &missing, u);
    assert!(matches!(p, Reply::NotFound));
    let d = delete_note(&mut store, &missing);
    assert!(matches!(d, Reply::NotFound));
    let f = one(get_note(&store, &"x".to_string()));
    assert_eq!(f.title, "T");
}

#[test]
fn delete_twice_is_not_found_the_second_time() {
    let mut store = Store::new();
    create_note_at(&mut store, req("T", "C"), "x".to_string(), Timestamp { micros: 1 });
    assert_eq!(delete_note(&mut store, &"x".to_string()).status(), 204);
    assert_eq!(delete_note(&mut store, &"x".to_string()).status(), 404);
    assert_eq!(get_note(&store, &"x".to_string()).status(), 404);
}

#[test]
fn list_of_empty_store_is_empty() {
    let store = Store::new();
    let r = get_notes(&store);
    assert_eq!(r.status(), 200);
    match r {
        Reply::Many(v) => assert!(v.is_empty()),
        other => panic!("expected a list, got {:?}", other),
    }
}

#[test]
fn list_holds_every_created_note() {
    let mut store = Store::new();
    let mut ids = Vec::new();
    for i in 0..5 {
        let n = created(create_note(&mut store, req("t", &format!("c{}", i))));
        ids.push(n.id);
    }
    let v = match get_notes(&store) {
        Reply::Many(v) => v,
        other => panic!("expected a list, got {:?}", other),
    };
    assert_eq!(v.len(), 5);
    let mut contents: Vec<String> = v.iter().map(|n| n.content.clone()).collect();
    contents.sort();
    assert_eq!(contents, vec!["c0", "c1", "c2", "c3", "c4"]);
    for id in &ids {
        assert!(v.iter().any(|n| &n.id == id));
    }
}

#[test]
fn insert_with_same_id_replaces() {
    let mut store = Store::new();
    create_note_at(&mut store, req("T", "C"), "x".to_string(), Timestamp { micros: 1 });
    create_note_at(&mut store, req("T2", "C2"), "x".to_string(), Timestamp { micros: 2 });
    match get_notes(&store) {
        Reply::Many(v) => {
            assert_eq!(v.len(), 1);
            assert_eq!(v[0].title, "T2");
        }
        other => panic!("expected a list, got {:?}", other),
    }
}

#[test]
fn health_check_answers_healthy() {
    let mut store = Store::new();
    let r = get_health_status();
    assert!(matches!(r, Reply::Health));
    assert_eq!(r.status(), 200);
    assert_eq!(health_body(), "Healthy!\n");
    assert_eq!(health_content_type(), "application/json");
    create_note(&mut store, req("a", "b"));
    assert_eq!(get_health_status().status(), 200);
}

#[test]
fn root_redirects_to_start_page() {
    let r = redirect_root();
    assert_eq!(r.status(), 302);
    assert_eq!(redirect_location(), "/static/index.html");
}

#[test]
fn store_methods_directly() {
    let mut store = Store::new();
    let n = Note {
        id: "k".to_string(),
        title: "t".to_string(),
        content: "c".to_string(),
        created_at: Timestamp { micros: 3 },
        updated_at: Timestamp { micros: 4 },
    };
    store.insert(n);
    assert_eq!(store.get(&"k".to_string()).map(|n| n.title), Some("t".to_string()));
    assert!(store.get(&"z".to_string()).is_none());
    assert_eq!(store.list().len(), 1);
    let u = UpdateNoteRequest { title: None, content: Some("c2".to_string()) };
    let m = store.update(&"k".to_string(), u, Timestamp { micros: 9 }).unwrap();
    assert_eq!(m.content, "c2");
    assert!(store.remove(&"k".to_string()));
    assert!(!store.remove(&"k".to_string()));
    assert!(store.list().is_empty());
}
