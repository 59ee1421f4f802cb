use tasknet::task::stored::{Change, Key, Path, ReadError, Record, Scalar, Stored};
use tasknet::task::{Id, Priority, Status, Task};
use tasknet::time::DateTime;

fn task_path(id: Id) -> Path {
    Path::root().key("tasks").key(&id.to_string())
}

/// Sets each change that lies directly under `path` in the map `fields`.
fn apply(fields: &mut Vec<(String, Stored)>, path: &Path, changes: Vec<Change>) {
    for c in changes {
        if c.path.keys.len() == path.keys.len() + 1 && c.path.keys[..path.keys.len()] == path.keys[..] {
            let key = c.path.keys.last().unwrap().clone();
            match fields.iter_mut().find(|(k, _)| *k == key) {
                Some(entry) => entry.1 = c.value,
                None => fields.push((key, c.value)),
            }
        }
    }
}

fn created(id: Id) -> Vec<(String, Stored)> {
    let mut fields = Vec::new();
    apply(&mut fields, &task_path(id), Task::create_at(id, DateTime(1_000), DateTime(2_000)));
    fields
}

fn read(fields: Vec<(String, Stored)>, id: Id) -> Result<Task, ReadError> {
    Task::try_from(&Record::Fields(fields), id)
}

fn set(fields: &mut Vec<(String, Stored)>, key: &str, value: Stored) {
    match fields.iter_mut().find(|(k, _)| k == key) {
        Some(entry) => entry.1 = value,
        None => fields.push((key.to_string(), value)),
    }
}

fn remove(fields: &mut Vec<(String, Stored)>, key: &str) {
    fields.retain(|(k, _)| k != key);
}

fn error_of(r: Result<Task, ReadError>) -> ReadError {
    match r {
        Ok(_) => panic!("expected an error"),
        Err(e) => e,
    }
}

#[test]
fn create_writes_an_empty_map_then_the_fields() {
    let id = Id(5);
    let changes = Task::create_at(id, DateTime(1_000), DateTime(2_000));
    assert_eq!(changes.len(), 16);
    assert_eq!(changes[0].path.keys, vec!["tasks".to_string(), id.to_string()]);
    assert!(matches!(changes[0].value, Stored::Object));
    assert_eq!(changes[1].path.keys, vec!["tasks".to_string(), id.to_string(), "entry".to_string()]);
    assert!(matches!(changes[1].value, Stored::Primitive(Scalar::Timestamp(1_000))));
    match &changes[7].value {
        Stored::Primitive(Scalar::Str(s)) => assert_eq!(s, "\"pending\""),
        _ => panic!("status is not a string"),
    }
}

#[test]
fn created_task_reads_back_fresh() {
    let id = Id(5);
    let t = read(created(id), id).unwrap();
    assert_eq!(*t.id(), id);
    assert_eq!(*t.status(), Status::Pending);
    assert_eq!(*t.entry(), DateTime(2_000));
    assert_eq!(t.description(), "");
    assert!(t.project().is_empty());
    assert!(t.tags().is_empty());
    assert_eq!(*t.start(), None);
    assert_eq!(*t.due(), None);
    assert_eq!(*t.priority(), None);
    assert_eq!(t.notes(), "");
}

#[test]
fn created_now_reads_back_pending() {
    let id = Id(6);
    let mut fields = Vec::new();
    apply(&mut fields, &task_path(id), Task::create(id));
    let t = read(fields, id).unwrap();
    assert_eq!(*t.status(), Status::Pending);
}

#[test]
fn edits_read_back() {
    let id = Id(9);
    let path = task_path(id);
    let mut fields = created(id);
    apply(&mut fields, &path, Task::description_changes(&path, "write report"));
    apply(&mut fields, &path, Task::notes_changes(&path, "by friday"));
    apply(&mut fields, &path, Task::project_changes(&path, vec!["work".to_string(), "q3".to_string()]));
    apply(&mut fields, &path, Task::tags_changes(&path, vec!["next".to_string(), "office".to_string()]));
    apply(&mut fields, &path, Task::priority_changes(&path, Some(Priority::Medium)));
    apply(&mut fields, &path, Task::due_changes(&path, Some(DateTime(9_000))));
    apply(&mut fields, &path, Task::scheduled_changes(&path, Some(DateTime(8_000))));
    let t = read(fields, id).unwrap();
    assert_eq!(t.description(), "write report");
    assert_eq!(t.notes(), "by friday");
    assert_eq!(t.project(), &["work".to_string(), "q3".to_string()][..]);
    assert_eq!(t.tags(), &["next".to_string(), "office".to_string()][..]);
    assert_eq!(*t.priority(), Some(Priority::Medium));
    assert_eq!(*t.due(), Some(DateTime(9_000)));
    assert_eq!(*t.scheduled(), Some(DateTime(8_000)));
}

#[test]
fn life_cycle_changes_read_back() {
    let id = Id(11);
    let path = task_path(id);
    let mut fields = created(id);
    apply(&mut fields, &path, Task::tags_changes(&path, vec!["next".to_string(), "x".to_string()]));
    let t = read(created_with(&fields), id).unwrap();
    apply(&mut fields, &path, t.activate_changes_at(&path, DateTime(3_000)));
    let t = read(created_with(&fields), id).unwrap();
    assert_eq!(*t.start(), Some(DateTime(3_000)));
    assert_eq!(t.tags(), &["x".to_string()][..]);
    apply(&mut fields, &path, Task::deactivate_changes(&path));
    let t = read(created_with(&fields), id).unwrap();
    assert_eq!(*t.start(), None);
    assert!(t.restore_changes(&path).is_empty());
    apply(&mut fields, &path, Task::complete_changes_at(&path, DateTime(4_000)));
    let t = read(created_with(&fields), id).unwrap();
    assert_eq!(*t.status(), Status::Completed);
    assert_eq!(t.end(), Some(DateTime(4_000)));
    apply(&mut fields, &path, t.restore_changes(&path));
    let t = read(created_with(&fields), id).unwrap();
    assert_eq!(*t.status(), Status::Pending);
    apply(&mut fields, &path, Task::delete_changes_at(&path, DateTime(5_000)));
    let t = read(created_with(&fields), id).unwrap();
    assert_eq!(*t.status(), Status::Deleted);
    assert_eq!(t.end(), Some(DateTime(5_000)));
}

fn copy(v: &Stored) -> Stored {
    match v {
        Stored::Primitive(Scalar::Str(s)) => Stored::Primitive(Scalar::Str(s.clone())),
        Stored::Primitive(Scalar::Timestamp(t)) => Stored::Primitive(Scalar::Timestamp(*t)),
        Stored::Primitive(Scalar::Null) => Stored::Primitive(Scalar::Null),
        Stored::Primitive(Scalar::Other) => Stored::Primitive(Scalar::Other),
        Stored::Text(t) => Stored::Text(t.clone()),
        Stored::Sequence(items) => Stored::Sequence(items.clone()),
        Stored::Object => Stored::Object,
        Stored::Other => Stored::Other,
    }
}

fn created_with(fields: &[(String, Stored)]) -> Vec<(String, Stored)> {
    fields.iter().map(|(k, v)| (k.clone(), copy(v))).collect()
}

#[test]
fn clock_versions_write_a_time() {
    let path = task_path(Id(1));
    let c = Task::complete_changes(&path);
    assert_eq!(c.len(), 3);
    assert!(matches!(c[0].value, Stored::Primitive(Scalar::Timestamp(_))));
    let d = Task::delete_changes(&path);
    assert_eq!(d.len(), 2);
    let t = Task::new_at(Id(1), DateTime(0));
    let a = t.activate_changes(&path);
    assert_eq!(a.len(), 2);
    assert!(matches!(a[1].value, Stored::Primitive(Scalar::Timestamp(_))));
}

#[test]
fn reading_reports_the_first_bad_field() {
    let id = Id(3);
    assert_eq!(error_of(Task::try_from(&Record::NotAMap, id)), ReadError::NotAMap);
    let mut f = created(id);
    remove(&mut f, "status");
    remove(&mut f, "entry");
    assert_eq!(error_of(read(f, id)), ReadError::Missing(Key::Status));
    let mut f = created(id);
    set(&mut f, "status", Stored::Text("pending".to_string()));
    assert_eq!(error_of(read(f, id)), ReadError::Missing(Key::Status));
    let mut f = created(id);
    set(&mut f, "entry", Stored::Primitive(Scalar::Null));
    assert_eq!(error_of(read(f, id)), ReadError::Missing(Key::Entry));
    let mut f = created(id);
    set(&mut f, "due", Stored::Text("tomorrow".to_string()));
    assert_eq!(error_of(read(f, id)), ReadError::Missing(Key::Due));
    let mut f = created(id);
    remove(&mut f, "notes");
    assert_eq!(error_of(read(f, id)), ReadError::Missing(Key::Notes));
    let mut f = created(id);
    set(&mut f, "tags", Stored::Sequence(vec![Some("a".to_string()), None]));
    assert_eq!(error_of(read(f, id)), ReadError::WrongItem(Key::Tags));
    let mut f = created(id);
    set(&mut f, "project", Stored::Object);
    set(&mut f, "priority", Stored::Primitive(Scalar::Other));
    assert_eq!(error_of(read(f, id)), ReadError::Missing(Key::Project));
    let mut f = created(id);
    set(&mut f, "priority", Stored::Primitive(Scalar::Other));
    assert_eq!(error_of(read(f, id)), ReadError::Missing(Key::Priority));
}

#[test]
fn undecodable_values_stop_the_reading() {
    let id = Id(4);
    let mut f = created(id);
    set(&mut f, "status", Stored::Primitive(Scalar::Str("pending".to_string())));
    assert!(Task::try_read(&Record::Fields(f), id).is_none());
    let mut f = created(id);
    set(&mut f, "status", Stored::Primitive(Scalar::Str("\"done\"".to_string())));
    assert!(Task::try_read(&Record::Fields(f), id).is_none());
    let mut f = created(id);
    set(&mut f, "priority", Stored::Primitive(Scalar::Str("\"X\"".to_string())));
    assert!(Task::try_read(&Record::Fields(f), id).is_none());
    let mut f = created(id);
    set(&mut f, "start", Stored::Primitive(Scalar::Timestamp(i64::MAX)));
    assert!(Task::try_read(&Record::Fields(f), id).is_none());
    // an earlier missing field is reported before a later undecodable one
    let mut f = created(id);
    set(&mut f, "priority", Stored::Primitive(Scalar::Str("\"X\"".to_string())));
    remove(&mut f, "description");
    match Task::try_read(&Record::Fields(f), id) {
        Some(Err(e)) => assert_eq!(e, ReadError::Missing(Key::Description)),
        _ => panic!("expected the description error"),
    }
}

#[test]
fn escaped_json_strings_are_decoded() {
    let id = Id(8);
    let mut f = created(id);
    set(&mut f, "status", Stored::Primitive(Scalar::Str("\"w\\u0061iting\"".to_string())));
    set(&mut f, "priority", Stored::Primitive(Scalar::Str(" \"H\" ".to_string())));
    let t = read(f, id).unwrap();
    assert_eq!(*t.status(), Status::Waiting);
    assert_eq!(*t.priority(), Some(Priority::High));
}

#[test]
fn key_names() {
    assert_eq!(Key::Scheduled.name(), "scheduled");
    assert_eq!(Key::Due.name(), "due");
    assert_eq!(Key::Priority.name(), "priority");
}

#[test]
fn times_at_the_edges_of_the_calendar() {
    let id = Id(9);
    let last = 8_210_266_876_799_999i64;
    let first = -8_334_601_228_800_000i64;
    assert!(chrono::DateTime::from_timestamp_millis(last).is_some());
    assert!(chrono::DateTime::from_timestamp_millis(last + 1).is_none());
    assert!(chrono::DateTime::from_timestamp_millis(first).is_some());
    assert!(chrono::DateTime::from_timestamp_millis(first - 1).is_none());
    for (t, ok) in [(last, true), (last + 1, false), (first, true), (first - 1, false)] {
        let mut f = created(id);
        set(&mut f, "start", Stored::Primitive(Scalar::Timestamp(t)));
        match Task::try_read(&Record::Fields(f), id) {
            Some(Ok(task)) => {
                assert!(ok);
                assert_eq!(*task.start(), Some(DateTime(t)));
            },
            None => assert!(!ok),
            Some(Err(e)) => panic!("unexpected {:?}", e),
        }
    }
}

#[test]
fn status_and_priority_in_json_object_form() {
    let id = Id(10);
    let status_of = |text: &str| {
        let mut f = created(id);
        set(&mut f, "status", Stored::Primitive(Scalar::Str(text.to_string())));
        Task::try_read(&Record::Fields(f), id).map(|r| *r.unwrap().status())
    };
    assert_eq!(status_of("{\"pending\":null}"), Some(Status::Pending));
    assert_eq!(status_of(" { \"completed\" :\n null }\t"), Some(Status::Completed));
    assert_eq!(status_of("{\"\\u0064eleted\":null}"), Some(Status::Deleted));
    assert_eq!(status_of(" \"waiting\" "), Some(Status::Waiting));
    assert_eq!(status_of("{\"pending\":null,}"), None);
    assert_eq!(status_of("{\"pending\":1}"), None);
    assert_eq!(status_of("{\"done\":null}"), None);
    assert_eq!(status_of("{\"pending\":nul}"), None);
    assert_eq!(status_of("{\"pending\":null}x"), None);
    let priority_of = |text: &str| {
        let mut f = created(id);
        set(&mut f, "priority", Stored::Primitive(Scalar::Str(text.to_string())));
        Task::try_read(&Record::Fields(f), id).map(|r| *r.unwrap().priority())
    };
    assert_eq!(priority_of("{\"H\":null}"), Some(Some(Priority::High)));
    assert_eq!(priority_of("{ \"L\" : null }"), Some(Some(Priority::Low)));
    assert_eq!(priority_of("{\"X\":null}"), None);
}
