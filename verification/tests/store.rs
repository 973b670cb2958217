use hook_core::query::{Bind, Query, Value};
use hook_core::store::{
    count_from, first_hook, first_note, hits_from, hooks_from, swept_from, valid_ident, HookRow, Note,
    NoteHit, NoteHitRow, NoteRow, OpenError, OpenStep, Store, ALL_HOOKS, COUNT_LIVE_NOTES, CREATE_HOOK,
    CREATE_PERSISTENT_NOTE, CREATE_TEMPORARY_NOTE, DELETE_HOOK, GET_HOOK, GET_HOOK_BY_PUBLIC_ID,
    GET_NOTE, HOOKS_WITHOUT_PUBLIC_ID, LIST_BY_OWNER, SET_PUBLIC_ID, SET_SESSION, SWEEP_NOTES,
};
use hook_core::Hook;

/// The hook rows of a small database, which runs the hook queries.
struct Hooks {
    rows: Vec<[Option<String>; 8]>,
}

const COLUMNS: [&str; 8] =
    ["hid", "public_id", "name", "owner", "room_id", "sender", "device_id", "access_token"];

fn text(q: &Query, name: &str) -> String {
    match &q.binds.iter().find(|b| b.name == name).unwrap().value {
        Value::Text(t) => t.clone(),
        _ => panic!("{name} is no text"),
    }
}

impl Hooks {
    fn row(&self, i: usize) -> HookRow {
        let column = |c: usize| self.rows[i][c].clone();
        HookRow {
            hid: column(0).unwrap(),
            public_id: column(1),
            name: column(2).unwrap(),
            owner: column(3).unwrap(),
            room_id: column(4).unwrap(),
            sender: column(5).unwrap(),
            device_id: column(6).unwrap(),
            access_token: column(7).unwrap(),
        }
    }

    fn matching(&self, q: &Query, column: usize) -> Vec<usize> {
        let wanted = Some(text(q, COLUMNS[column]));
        (0..self.rows.len()).filter(|i| self.rows[*i][column] == wanted).collect()
    }

    fn run(&mut self, q: &Query) -> Vec<HookRow> {
        let hits = if q.text == CREATE_HOOK {
            self.rows.push(COLUMNS.map(|c| Some(text(q, c))));
            vec![]
        } else if q.text == SET_SESSION {
            for i in self.matching(q, 0) {
                self.rows[i][6] = Some(text(q, "device_id"));
                self.rows[i][7] = Some(text(q, "access_token"));
            }
            vec![]
        } else if q.text == SET_PUBLIC_ID {
            for i in self.matching(q, 0) {
                self.rows[i][1] = Some(text(q, "public_id"));
            }
            vec![]
        } else if q.text == DELETE_HOOK {
            for i in self.matching(q, 0).into_iter().rev() {
                if self.rows[i][3] == Some(text(q, "owner")) {
                    self.rows.remove(i);
                }
            }
            vec![]
        } else if q.text == ALL_HOOKS {
            (0..self.rows.len()).collect()
        } else if q.text == GET_HOOK {
            self.matching(q, 0)
        } else if q.text == GET_HOOK_BY_PUBLIC_ID {
            self.matching(q, 1)
        } else if q.text == LIST_BY_OWNER {
            self.matching(q, 3)
        } else if q.text == HOOKS_WITHOUT_PUBLIC_ID {
            (0..self.rows.len()).filter(|i| self.rows[*i][1].is_none()).collect()
        } else {
            panic!("unknown query {}", q.text)
        };
        hits.into_iter().map(|i| self.row(i)).collect()
    }

    fn get(&mut self, store: &Store, id: &str) -> Option<Hook> {
        first_hook(self.run(&store.get_hook(id)))
    }

    fn list(&mut self, store: &Store, owner: &str) -> Vec<Hook> {
        hooks_from(self.run(&store.list_by_owner(owner)))
    }

    fn delete(&mut self, store: &Store, id: &str, owner: &str) -> bool {
        let existing = self.get(store, id);
        match store.delete_hook(id, owner, &existing) {
            Some(q) => {
                self.run(&q);
                true
            }
            None => false,
        }
    }

    fn create(&mut self, made: (Query, Hook)) -> Hook {
        self.try_create(made).unwrap()
    }

    /// Creates a hook, unless one of the unique indexes refuses it.
    fn try_create(&mut self, made: (Query, Hook)) -> Result<Hook, ()> {
        if !self.matching(&made.0, 0).is_empty() || !self.matching(&made.0, 1).is_empty() {
            return Err(());
        }
        self.run(&made.0);
        Ok(made.1)
    }
}

fn memory() -> Store {
    Store::memory().unwrap().0
}

#[test]
fn create_get_list_delete_roundtrip() {
    let store = memory();
    let mut db = Hooks { rows: vec![] };

    // Unknown id -> None.
    assert!(db.get(&store, "nope").is_none());

    let h = db.create(store.create_hook(
        "id1",
        "pub1",
        "alerts",
        "@alice:s",
        "!room:s",
        "hook_alerts_id1",
        "DEV1",
        "tok1",
    ));
    assert_eq!(h.name, "alerts");
    assert_eq!(h.owner, "@alice:s");
    assert_eq!(h.room_id, "!room:s");
    assert_eq!(h.id, "id1");
    assert_eq!(h.public_id, "pub1");
    assert_eq!(h.sender, "hook_alerts_id1");
    assert_eq!(h.device_id, "DEV1");
    assert_eq!(h.access_token, "tok1");

    // Round-trips by id.
    assert_eq!(db.get(&store, &h.id).unwrap(), h);

    // Round-trips by public id too.
    assert_eq!(first_hook(db.run(&store.get_hook_by_public_id("pub1"))).unwrap(), h);
    assert!(first_hook(db.run(&store.get_hook_by_public_id("nope"))).is_none());

    // set_session replaces device + token.
    db.run(&store.set_session("id1", "DEV2", "tok2"));
    let got = db.get(&store, "id1").unwrap();
    assert_eq!(got.device_id, "DEV2");
    assert_eq!(got.access_token, "tok2");

    // A second hook for the same owner + one for another owner.
    let h2 = db.create(store.create_hook(
        "id2",
        "pub2",
        "deploys",
        "@alice:s",
        "!other:s",
        "hook_deploys_id2",
        "D",
        "t",
    ));
    db.create(store.create_hook(
        "id3",
        "pub3",
        "bob-hook",
        "@bob:s",
        "!bobroom:s",
        "hook_bobhook_id3",
        "D",
        "t",
    ));

    let alice = db.list(&store, "@alice:s");
    assert_eq!(alice.len(), 2);
    assert_eq!(alice[0].id, h.id);
    assert_eq!(alice[1].id, h2.id);
    assert_eq!(hooks_from(db.run(&store.all_hooks())).len(), 3);

    // Non-owner cannot delete.
    assert!(!db.delete(&store, &h.id, "@bob:s"));
    assert!(db.get(&store, &h.id).is_some());

    // Owner can delete.
    assert!(db.delete(&store, &h.id, "@alice:s"));
    assert!(db.get(&store, &h.id).is_none());
    assert_eq!(db.list(&store, "@alice:s").len(), 1);

    // Deleting a gone hook is false.
    assert!(!db.delete(&store, &h.id, "@alice:s"));
}

#[test]
fn held_ids_are_refused() {
    let store = memory();
    let mut db = Hooks { rows: vec![] };
    let make = |id: &str, public_id: &str| {
        store.create_hook(id, public_id, "n", "@a:s", "!r:s", "s", "d", "t")
    };
    let first = db.try_create(make("id1", "pub1")).unwrap();
    assert!(db.try_create(make("id1", "pub2")).is_err());
    assert!(db.try_create(make("id2", "pub1")).is_err());
    assert_eq!(hooks_from(db.run(&store.all_hooks())), vec![first]);
    assert!(db.try_create(make("id2", "pub2")).is_ok());
}

#[test]
fn backfill_public_ids_fixes_up_legacy_rows() {
    let store = memory();
    let row = ["legacy1", "", "n", "@a:s", "!r:s", "s", "d", "t"].map(|t| Some(t.to_string()));
    let mut db = Hooks { rows: vec![row] };
    db.rows[0][1] = None;
    assert_eq!(db.get(&store, "legacy1").unwrap().public_id, "");

    let backfill = |db: &mut Hooks| {
        let rows = db.run(&store.hooks_without_public_id());
        let hids: Vec<String> = rows.into_iter().map(|r| r.hid).collect();
        let queries = store.backfill_public_ids(&hids);
        for q in &queries {
            db.run(q);
        }
        queries.len()
    };
    assert_eq!(backfill(&mut db), 1);
    let got = db.get(&store, "legacy1").unwrap();
    assert!(!got.public_id.is_empty());
    assert_eq!(got.public_id.len(), 16);

    // Idempotent: nothing left to backfill.
    assert_eq!(backfill(&mut db), 0);
}

#[test]
fn notes_are_readable_by_any_caller_but_owned_at_creation() {
    let store = memory();
    let (q, n) = store.create_note::<()>("p_note1", "hookA", "hello world", None, None);
    assert_eq!(n.id, "p_note1");
    assert_eq!(n.hook_id, "hookA");
    assert_eq!(n.content, "hello world");
    assert_eq!(n.embedding, None);
    assert_eq!(q.text, CREATE_PERSISTENT_NOTE);
    assert_eq!(text(&q, "nid"), "p_note1");
    assert_eq!(text(&q, "hook_id"), "hookA");
    assert_eq!(text(&q, "content"), "hello world");

    // The look-up names the note alone, and its row reads back as the note.
    let q = store.get_note("p_note1");
    assert_eq!(q.text, GET_NOTE);
    assert_eq!(q.binds.len(), 1);
    assert_eq!(text(&q, "nid"), "p_note1");
    let row = NoteRow::<()> {
        nid: "p_note1".to_string(),
        hook_id: "hookA".to_string(),
        content: "hello world".to_string(),
        embedding: None,
    };
    assert_eq!(first_note(vec![row]).unwrap(), n);
    assert!(first_note(Vec::<NoteRow<()>>::new()).is_none());
}

/// The note rows of a small database, with their expiry, which runs the note
/// queries at a time.
struct Notes {
    rows: Vec<(String, String, String, Option<u64>)>,
}

impl Notes {
    /// Creates a note, unless the unique index refuses it. Returns whether it was
    /// created.
    fn create(&mut self, q: &Query, now: u64) -> bool {
        let ttl = q.binds.iter().find_map(|b| match b.value {
            Value::Number(n) => Some(n),
            _ => None,
        });
        assert_eq!(ttl.is_some(), q.text == CREATE_TEMPORARY_NOTE);
        let expires = ttl.map(|t| now + t);
        if self.rows.iter().any(|r| r.0 == text(q, "nid")) {
            return false;
        }
        self.rows.push((text(q, "nid"), text(q, "hook_id"), text(q, "content"), expires));
        true
    }

    fn get(&self, store: &Store, id: &str, now: u64) -> Option<Note<()>> {
        let q = store.get_note(id);
        assert_eq!(q.text, GET_NOTE);
        let found = self
            .rows
            .iter()
            .filter(|r| r.0 == text(&q, "nid") && r.3.map_or(true, |t| t > now))
            .map(|r| NoteRow {
                nid: r.0.clone(),
                hook_id: r.1.clone(),
                content: r.2.clone(),
                embedding: None,
            });
        first_note(found.collect())
    }

    fn count(&self, store: &Store, hook_id: &str, now: u64) -> usize {
        let q = store.count_live_notes(hook_id);
        assert_eq!(q.text, COUNT_LIVE_NOTES);
        let n = self
            .rows
            .iter()
            .filter(|r| r.1 == text(&q, "hook_id") && r.3.map_or(true, |t| t > now))
            .count();
        count_from(&if n == 0 { vec![] } else { vec![n] })
    }

    fn sweep(&mut self, store: &Store, now: u64) -> usize {
        assert_eq!(store.sweep_expired_notes().text, SWEEP_NOTES);
        let (gone, left): (Vec<_>, Vec<_>) =
            self.rows.drain(..).partition(|r| r.3.is_some_and(|t| t < now));
        self.rows = left;
        swept_from(&gone)
    }
}

#[test]
fn notes_of_any_hook_are_equally_readable() {
    let store = memory();
    let mut db = Notes { rows: vec![] };

    // Unknown id -> None.
    assert!(db.get(&store, "nope", 0).is_none());

    let (q, n) = store.create_note("p_note1", "hookA", "hello world", None, None);
    db.create(&q, 0);
    assert_eq!(db.get(&store, "p_note1", 0).unwrap(), n);

    // A second note under a different hook is equally readable.
    let (q, _) = store.create_note("p_note2", "hookB", "other content", None, None);
    db.create(&q, 0);
    assert_eq!(db.get(&store, "p_note2", 0).unwrap().content, "other content");
    assert_eq!(db.get(&store, "p_note1", u64::MAX).unwrap(), n);
}

#[test]
fn temporary_notes_expire_and_get_swept() {
    let store = memory();
    let mut db = Notes { rows: vec![] };
    db.create(&store.create_note("t_soon", "hookA", "short-lived", None, Some(0)).0, 0);
    db.create(&store.create_note("p_forever", "hookA", "long-lived", None, None).0, 0);
    db.create(&store.create_note("t_later", "hookB", "later", None, Some(10)).0, 0);
    assert!(db.get(&store, "t_soon", 1).is_none());
    assert!(db.get(&store, "p_forever", 1).is_some());
    let before = (db.count(&store, "hookA", 1), db.count(&store, "hookB", 1));
    assert_eq!(db.sweep(&store, 1), 1);
    assert_eq!((db.count(&store, "hookA", 1), db.count(&store, "hookB", 1)), before);
    assert!(db.get(&store, "p_forever", 1).is_some());
    assert_eq!(db.sweep(&store, 1), 0);
}

#[test]
fn a_persistent_note_counts_for_its_hook() {
    let store = memory();
    let mut db = Notes { rows: vec![] };
    assert_eq!(db.count(&store, "hookA", 0), 0);
    db.create(&store.create_note("p_1", "hookA", "x", None, None).0, 0);
    assert_eq!((db.count(&store, "hookA", 9), db.count(&store, "hookB", 9)), (1, 0));
    db.create(&store.create_note("t_1", "hookA", "x", None, Some(5)).0, 0);
    assert_eq!((db.count(&store, "hookA", 4), db.count(&store, "hookA", 5)), (2, 1));
}

#[test]
fn held_note_ids_are_refused() {
    let store = memory();
    let mut db = Notes { rows: vec![] };
    let (first, note) = store.create_note("t_1", "hookA", "x", None, Some(5));
    assert!(db.create(&first, 0));
    let again = store.create_note("t_1", "hookA", "y", None, None).0;
    assert!(!db.create(&again, 1));
    assert_eq!(db.get(&store, "t_1", 1), Some(note));
    assert_eq!(db.count(&store, "hookA", 1), 1);
    // An expired note holds its id until it is swept.
    assert!(!db.create(&again, 9));
    assert_eq!(db.sweep(&store, 9), 1);
    assert!(db.create(&again, 9));
}

type Vector = Vec<f32>;

fn cosine(a: &Vector, b: &Vector) -> f32 {
    let dot = |x: &Vector, y: &Vector| x.iter().zip(y).map(|(p, q)| p * q).sum::<f32>();
    dot(a, b) / (dot(a, a) * dot(b, b)).sqrt()
}

/// Runs a search for at most `k` notes, on notes with their expiry, at a time.
fn search(
    notes: &[(Note<Vector>, Option<u64>)],
    q: &Query<&Vector>,
    k: usize,
    now: u64,
) -> Vec<NoteHit<Vector, f32>> {
    let mut vector = None;
    let mut scope = None;
    for b in &q.binds {
        match &b.value {
            Value::Embedding(v) => vector = *v,
            Value::Text(t) => scope = Some(t.clone()),
            Value::Number(_) => panic!("no number is bound"),
        }
    }
    assert_eq!(scope.is_some(), q.text.contains("hook_id = $scope"));
    let mut rows = Vec::new();
    for (note, expires) in notes {
        let live = expires.map_or(true, |t| t > now);
        let scoped = scope.as_ref().map_or(true, |s| *s == note.hook_id);
        if let (true, true, Some(e)) = (live, scoped, &note.embedding) {
            rows.push(NoteHitRow {
                nid: note.id.clone(),
                hook_id: note.hook_id.clone(),
                content: note.content.clone(),
                embedding: Some(e.clone()),
                score: cosine(e, vector.unwrap()),
            });
        }
    }
    rows.sort_by(|a, b| b.score.total_cmp(&a.score));
    rows.truncate(k);
    hits_from(rows)
}

#[test]
fn search_scopes_by_hook_and_excludes_unembedded_or_expired() {
    let store = memory();
    let unit = |x: f32, y: f32| vec![x, y, 0.0, 0.0, 0.0, 0.0, 0.0, 0.0];
    let note = |id: &str, hook_id: &str, content: &str, embedding: Option<Vector>| {
        let (_, n) = store.create_note(id, hook_id, content, embedding.as_ref(), None);
        Note { id: n.id, hook_id: n.hook_id, content: n.content, embedding: n.embedding.cloned() }
    };
    let notes = vec![
        (note("p_a", "hookA", "about cats", Some(unit(1.0, 0.0))), None),
        (note("p_b", "hookA", "about dogs", Some(unit(0.0, 1.0))), None),
        (note("p_c", "hookB", "also about cats", Some(unit(0.9, 0.1))), None),
        (note("p_d", "hookA", "not yet embedded", None), None),
        (note("t_e", "hookA", "about cats once", Some(unit(1.0, 0.0))), Some(1)),
    ];
    let q = unit(1.0, 0.0);
    let ids = |hits: &[NoteHit<Vector, f32>]| {
        hits.iter().map(|h| h.note.id.clone()).collect::<Vec<_>>()
    };

    // Unscoped: sees notes from both hooks.
    let hits = search(&notes, &store.search_notes(&q, 10, None), 10, 1);
    assert!(ids(&hits).contains(&"p_a".to_owned()));
    assert!(ids(&hits).contains(&"p_c".to_owned()));
    assert!(!ids(&hits).contains(&"p_d".to_owned()));
    assert!(!ids(&hits).contains(&"t_e".to_owned()));
    // Closest match first.
    assert_eq!(hits[0].note.id, "p_a");
    assert_eq!(hits[0].note, notes[0].0);

    // Scoped to hookA: hookB's note is excluded even though it'd rank well.
    let hits = search(&notes, &store.search_notes(&q, 10, Some("hookA")), 10, 1);
    assert!(ids(&hits).contains(&"p_a".to_owned()));
    assert!(!ids(&hits).contains(&"p_c".to_owned()));
}

#[test]
fn temporary_notes_carry_their_time() {
    let store = memory();
    let vector = vec![1.0f32, 0.0];
    let (q, n) = store.create_note("t_soon", "hookA", "short-lived", Some(&vector), Some(7));
    assert_eq!(q.text, CREATE_TEMPORARY_NOTE);
    assert_eq!(q.binds[3], Bind { name: "embedding".to_string(), value: Value::Embedding(Some(&vector)) });
    assert_eq!(q.binds[4], Bind { name: "ttl_secs".to_string(), value: Value::Number(7) });
    assert_eq!(n.embedding, Some(&vector));
    let (q, _) = store.create_note("p_forever", "hookA", "long-lived", Some(&vector), None);
    assert_eq!(q.binds.len(), 4);
    assert_eq!(store.sweep_expired_notes().text, SWEEP_NOTES);
    assert!(SWEEP_NOTES.ends_with("expires_at < time::now() RETURN BEFORE"));
}

#[test]
fn searches_are_scoped() {
    let store = memory();
    let vector = vec![0.5f32];
    let all = store.search_notes(&vector, 10, None);
    assert!(all.text.ends_with("embedding IS NOT NONE AND embedding <|10,64|> $q ORDER BY score DESC"));
    assert_eq!(all.binds.len(), 1);
    let scoped = store.search_notes(&vector, 100, Some("hookA"));
    assert!(scoped.text.ends_with(
        "IS NOT NONE AND hook_id = $scope AND embedding <|100,400|> $q ORDER BY score DESC"
    ));
    assert_eq!(scoped.binds[0].value, Value::Embedding(Some(&vector)));
    assert_eq!(scoped.binds[1], Bind { name: "scope".to_string(), value: Value::Text("hookA".to_string()) });
    assert!(store.search_notes(&vector, 16, None).text.contains("<|16,64|>"));
    assert!(store.search_notes(&vector, 17, None).text.contains("<|17,68|>"));

    let row = |id: &str, score: f32| NoteHitRow {
        nid: id.to_string(),
        hook_id: "h".to_string(),
        content: "c".to_string(),
        embedding: Some(vec![score]),
        score,
    };
    let hits = hits_from(vec![row("a", 0.9), row("b", 0.1)]);
    assert_eq!(hits.len(), 2);
    assert_eq!(hits[0].score, 0.9);
    let expected = Note {
        id: "b".to_string(),
        hook_id: "h".to_string(),
        content: "c".to_string(),
        embedding: Some(vec![0.1]),
    };
    assert_eq!(hits[1].note, expected);
}

#[test]
fn live_notes_are_counted() {
    let q = memory().count_live_notes("h");
    assert_eq!(q.text, COUNT_LIVE_NOTES);
    assert_eq!(text(&q, "hook_id"), "h");
    assert_eq!(count_from(&vec![]), 0);
    assert_eq!(count_from(&vec![7, 8]), 7);
}

#[test]
fn identifiers_are_plain() {
    for good in ["a", "_", "matrixHook", "A_1", "_9"] {
        assert!(valid_ident(good));
    }
    for bad in ["", "1a", "a-b", "a b", "a;", "é", "`a`", "a\n"] {
        assert!(!valid_ident(bad));
    }
}

#[test]
fn stores_are_opened_in_order() {
    let (store, steps) = Store::connect("ws://h", "ns", "db", "root", "pw", 1024).unwrap();
    assert_eq!(store, Store { namespace: "ns".into(), database: "db".into(), vector_dim: 1024 });
    assert_eq!(
        steps,
        vec![
            OpenStep::Connect("ws://h".to_string()),
            OpenStep::SignIn("root".to_string(), "pw".to_string()),
            OpenStep::Run("DEFINE NAMESPACE IF NOT EXISTS ns".to_string()),
            OpenStep::UseNamespace("ns".to_string()),
            OpenStep::Run("DEFINE DATABASE IF NOT EXISTS db".to_string()),
            OpenStep::UseDatabase("db".to_string()),
            OpenStep::Run(store.migrate()),
        ]
    );
    assert!(store.migrate().ends_with("HNSW DIMENSION 1024 DIST COSINE;"));
    assert_eq!(
        store.select(),
        vec![OpenStep::UseNamespace("ns".to_string()), OpenStep::UseDatabase("db".to_string())]
    );
    let (memory, steps) = Store::memory().unwrap();
    assert_eq!(memory.namespace, "matrixHook");
    assert_eq!(memory.database, "hooks");
    assert_eq!(memory.vector_dim, 8);
    assert_eq!(steps.len(), 6);
    assert_eq!(steps[0], OpenStep::Connect("mem://".to_string()));
}

#[test]
fn bad_names_are_refused() {
    let open = |ns: &str, db: &str| Store::connect("ws://h", ns, db, "u", "p", 8).map(|_| ());
    assert_eq!(open("a b", "db"), Err(OpenError::InvalidNamespace));
    assert_eq!(open("a b", "c d"), Err(OpenError::InvalidNamespace));
    assert_eq!(open("ns", "x; REMOVE"), Err(OpenError::InvalidDatabase));
    assert_eq!(open("ns", "db"), Ok(()));
}
