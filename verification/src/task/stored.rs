//! The form a task takes in the shared document: a map from field names to
//! stored values under the path `tasks/<id>`. Reading such a map gives back
//! a task; creating a task and each edit of a task are written as lists of
//! changes, each of which sets one value at one path.
use vstd::prelude::*;

use super::{clone_strings, hex_digit, now, uuid_text, without_next, Id, Priority, Status, Task, TaskModel};
use crate::text::{char_code, chars_of, same_text, string_from_chars, strings_view};
use crate::time::DateTime;

verus! {

// ------------------------------------------------------------------
//  Stored values
// ------------------------------------------------------------------

/// A scalar as the document stores it. `Other` stands for every kind of
/// scalar that no task field holds (numbers, booleans, counters, bytes).
pub enum Scalar {
    Str(String),
    Timestamp(i64),
    Null,
    Other,
}

/// The contents of a scalar, as plain values.
pub enum ScalarModel {
    Str(Seq<char>),
    Timestamp(i64),
    Null,
    Other,
}

impl View for Scalar {
    type V = ScalarModel;

    open spec fn view(&self) -> ScalarModel {
        match self {
            Scalar::Str(s) => ScalarModel::Str(s@),
            Scalar::Timestamp(t) => ScalarModel::Timestamp(*t),
            Scalar::Null => ScalarModel::Null,
            Scalar::Other => ScalarModel::Other,
        }
    }
}

/// A value stored under one key of a task's map: a scalar, a text, a
/// sequence (each element a text, or `None` for an element of another
/// kind), an object of map type (whose contents no reader looks at), or a
/// value of another kind.
pub enum Stored {
    Primitive(Scalar),
    Text(String),
    Sequence(Vec<Option<String>>),
    Object,
    Other,
}

/// The contents of a stored value, as plain values.
pub enum StoredModel {
    Primitive(ScalarModel),
    Text(Seq<char>),
    Sequence(Seq<Option<Seq<char>>>),
    Object,
    Other,
}

/// The texts of a stored sequence.
pub open spec fn items_view(v: Seq<Option<String>>) -> Seq<Option<Seq<char>>> {
    v.map_values(
        |o: Option<String>|
            match o {
                Some(s) => Some(s@),
                None => None,
            },
    )
}

impl View for Stored {
    type V = StoredModel;

    open spec fn view(&self) -> StoredModel {
        match self {
            Stored::Primitive(s) => StoredModel::Primitive(s@),
            Stored::Text(t) => StoredModel::Text(t@),
            Stored::Sequence(v) => StoredModel::Sequence(items_view(v@)),
            Stored::Object => StoredModel::Object,
            Stored::Other => StoredModel::Other,
        }
    }
}

/// A value read as a task: a map from field names to stored values, or a
/// value of another kind.
pub enum Record {
    Fields(Vec<(String, Stored)>),
    NotAMap,
}

/// The entries of a map, as plain values.
pub open spec fn entries_view(es: Seq<(String, Stored)>) -> Seq<(Seq<char>, StoredModel)> {
    es.map_values(|e: (String, Stored)| (e.0@, e.1@))
}

/// The value under `key`: that of the first entry with this key.
pub open spec fn lookup(es: Seq<(Seq<char>, StoredModel)>, key: Seq<char>) -> Option<StoredModel>
    decreases es.len(),
{
    if es.len() == 0 {
        None
    } else if es[0].0 == key {
        Some(es[0].1)
    } else {
        lookup(es.drop_first(), key)
    }
}

/// The value under `key` in a map's entries.
fn find<'a>(es: &'a Vec<(String, Stored)>, key: &str) -> (r: Option<&'a Stored>)
    ensures
        match r {
            Some(v) => lookup(entries_view(es@), key@) == Some(v@),
            None => lookup(entries_view(es@), key@) is None,
        },
{
    let ghost ev = entries_view(es@);
    assert(ev.skip(0) =~= ev);
    let mut i: usize = 0;
    while i < es.len()
        invariant
            ev == entries_view(es@),
            i <= es@.len(),
            lookup(ev, key@) == lookup(ev.skip(i as int), key@),
        decreases es.len() - i,
    {
        assert(ev.skip(i as int)[0] == ev[i as int]);
        assert(ev.skip(i as int).drop_first() =~= ev.skip(i + 1));
        if same_text(es[i].0.as_str(), key) {
            return Some(&es[i].1);
        }
        i = i + 1;
    }
    assert(ev.skip(i as int).len() == 0);
    None
}

// ------------------------------------------------------------------
//  Keys and errors
// ------------------------------------------------------------------

/// A field of a task's map.
#[derive(Clone, Copy, Debug, PartialEq, Eq, Structural)]
pub enum Key {
    Status,
    Entry,
    Description,
    Notes,
    Project,
    Tags,
    Start,
    End,
    Wait,
    Until,
    Scheduled,
    Due,
    Priority,
}

/// The name a field is stored under.
pub open spec fn key_name(k: Key) -> Seq<char> {
    match k {
        Key::Status => seq!['s', 't', 'a', 't', 'u', 's'],
        Key::Entry => seq!['e', 'n', 't', 'r', 'y'],
        Key::Description => seq!['d', 'e', 's', 'c', 'r', 'i', 'p', 't', 'i', 'o', 'n'],
        Key::Notes => seq!['n', 'o', 't', 'e', 's'],
        Key::Project => seq!['p', 'r', 'o', 'j', 'e', 'c', 't'],
        Key::Tags => seq!['t', 'a', 'g', 's'],
        Key::Start => seq!['s', 't', 'a', 'r', 't'],
        Key::End => seq!['e', 'n', 'd'],
        Key::Wait => seq!['w', 'a', 'i', 't'],
        Key::Until => seq!['u', 'n', 't', 'i', 'l'],
        Key::Scheduled => seq!['s', 'c', 'h', 'e', 'd', 'u', 'l', 'e', 'd'],
        Key::Due => seq!['d', 'u', 'e'],
        Key::Priority => seq!['p', 'r', 'i', 'o', 'r', 'i', 't', 'y'],
    }
}

impl Key {
    /// The name the field is stored under.
    pub fn name(self) -> (r: &'static str)
        ensures
            r@ == key_name(self),
    {
        match self {
            Key::Status => {
                proof {
                    reveal_strlit("status");
                    assert("status"@ =~= key_name(self));
                }
                "status"
            },
            Key::Entry => {
                proof {
                    reveal_strlit("entry");
                    assert("entry"@ =~= key_name(self));
                }
                "entry"
            },
            Key::Description => {
                proof {
                    reveal_strlit("description");
                    assert("description"@ =~= key_name(self));
                }
                "description"
            },
            Key::Notes => {
                proof {
                    reveal_strlit("notes");
                    assert("notes"@ =~= key_name(self));
                }
                "notes"
            },
            Key::Project => {
                proof {
                    reveal_strlit("project");
                    assert("project"@ =~= key_name(self));
                }
                "project"
            },
            Key::Tags => {
                proof {
                    reveal_strlit("tags");
                    assert("tags"@ =~= key_name(self));
                }
                "tags"
            },
            Key::Start => {
                proof {
                    reveal_strlit("start");
                    assert("start"@ =~= key_name(self));
                }
                "start"
            },
            Key::End => {
                proof {
                    reveal_strlit("end");
                    assert("end"@ =~= key_name(self));
                }
                "end"
            },
            Key::Wait => {
                proof {
                    reveal_strlit("wait");
                    assert("wait"@ =~= key_name(self));
                }
                "wait"
            },
            Key::Until => {
                proof {
                    reveal_strlit("until");
                    assert("until"@ =~= key_name(self));
                }
                "until"
            },
            Key::Scheduled => {
                proof {
                    reveal_strlit("scheduled");
                    assert("scheduled"@ =~= key_name(self));
                }
                "scheduled"
            },
            Key::Due => {
                proof {
                    reveal_strlit("due");
                    assert("due"@ =~= key_name(self));
                }
                "due"
            },
            Key::Priority => {
                proof {
                    reveal_strlit("priority");
                    assert("priority"@ =~= key_name(self));
                }
                "priority"
            },
        }
    }
}

/// Why a stored value is not a task: it is not a map, a field is missing
/// or of the wrong type, or a project or tag sequence holds an element that
/// is not a text.
#[derive(Clone, Copy, Debug, PartialEq, Eq, Structural)]
pub enum ReadError {
    NotAMap,
    Missing(Key),
    WrongItem(Key),
}

// ------------------------------------------------------------------
//  What the outside crates compute
// ------------------------------------------------------------------

/// What `serde_json::from_str::<String>` reads a text as, or `None` where it
/// refuses it.
pub uninterp spec fn json_text(s: Seq<char>) -> Option<Seq<char>>;

/// A character JSON writes as it is inside a string: not a quote, not a
/// backslash, not a control character.
pub open spec fn plain_char(c: char) -> bool {
    c != '"' && c != '\\' && char_code(c) >= 32
}

/// How `serde_json` writes a character inside a string: quotes and
/// backslashes behind a backslash, the control characters that have a
/// short escape with it (`\b`, `\t`, `\n`, `\f`, `\r`), the other control
/// characters as `\u00` and two lowercase hexadecimal digits, and every
/// other character as it is.
pub open spec fn char_escape(c: char) -> Seq<char> {
    let code = char_code(c) as int;
    if plain_char(c) {
        seq![c]
    } else if c == '"' {
        seq!['\\', '"']
    } else if c == '\\' {
        seq!['\\', '\\']
    } else if code == 8 {
        seq!['\\', 'b']
    } else if code == 9 {
        seq!['\\', 't']
    } else if code == 10 {
        seq!['\\', 'n']
    } else if code == 12 {
        seq!['\\', 'f']
    } else if code == 13 {
        seq!['\\', 'r']
    } else {
        seq!['\\', 'u', '0', '0', hex_digit(code / 16), hex_digit(code % 16)]
    }
}

/// The characters of a string as `serde_json` writes them between quotes.
pub open spec fn escaped(s: Seq<char>) -> Seq<char>
    decreases s.len(),
{
    if s.len() == 0 {
        seq![]
    } else {
        escaped(s.drop_last()) + char_escape(s.last())
    }
}

/// What `serde_json::to_string` writes for a string: the string between
/// double quotes, each character escaped as `char_escape` says.
pub open spec fn json_encoded(s: Seq<char>) -> Seq<char> {
    seq!['"'] + escaped(s) + seq!['"']
}

/// Whether `chrono` can represent the instant `millis` milliseconds after
/// the Unix epoch as a `DateTime<Utc>`: from the first millisecond of the
/// year -262143 to the last of the year 262142 (`chrono`'s `MIN_YEAR` and
/// `MAX_YEAR`).
pub open spec fn utc_in_range(millis: i64) -> bool {
    -8334601228800000 <= millis <= 8210266876799999
}

/// A text that JSON writes between quotes without escapes: no quote, no
/// backslash, no control character.
pub open spec fn plain_json(s: Seq<char>) -> bool
    decreases s.len(),
{
    s.len() == 0 || (s[0] != '"' && s[0] != '\\' && char_code(s[0]) >= 32 && plain_json(s.drop_first()))
}

/// `s` between double quotes.
pub open spec fn quoted(s: Seq<char>) -> Seq<char> {
    seq!['"'] + s + seq!['"']
}

/// `s` is a plain text between double quotes.
pub open spec fn is_quoted_plain(s: Seq<char>) -> bool {
    s.len() >= 2 && s[0] == '"' && s[s.len() - 1] == '"' && plain_json(s.subrange(1, s.len() - 1))
}

/// The string a JSON text stands for: for a plain text between quotes, that
/// text; otherwise whatever `serde_json` reads.
pub open spec fn decoded(s: Seq<char>) -> Option<Seq<char>> {
    if is_quoted_plain(s) {
        Some(s.subrange(1, s.len() - 1))
    } else {
        json_text(s)
    }
}

/// A character JSON counts as whitespace.
pub open spec fn json_ws(c: char) -> bool {
    c == ' ' || c == '\n' || c == '\t' || c == '\r'
}

/// The first position from `i` on that holds no JSON whitespace (the length
/// of `s` when only whitespace follows).
pub open spec fn skip_ws(s: Seq<char>, i: int) -> int
    decreases s.len() - i,
{
    if i < 0 || i >= s.len() || !json_ws(s[i]) {
        i
    } else {
        skip_ws(s, i + 1)
    }
}

/// The position of the quote that closes a JSON string whose contents start
/// at `i` (a backslash escapes the character after it), or the length of
/// `s` when none does.
pub open spec fn string_end(s: Seq<char>, i: int) -> int
    decreases s.len() - i,
{
    if i < 0 || i >= s.len() {
        s.len() as int
    } else if s[i] == '"' {
        i
    } else if s[i] == '\\' {
        if i + 2 > s.len() {
            s.len() as int
        } else {
            string_end(s, i + 2)
        }
    } else {
        string_end(s, i + 1)
    }
}

/// The variant name of an enum stored in JSON's object form
/// `{"name":null}` (with JSON whitespace anywhere between the parts), as
/// `serde_json` reads a unit variant: the name is the JSON string before the
/// colon, as `serde_json` decodes it. `None` where the text has another form.
#[verifier::opaque]
pub open spec fn object_variant(s: Seq<char>) -> Option<Seq<char>> {
    let n = s.len() as int;
    let a = skip_ws(s, 0);
    if !(a < n && s[a] == '{') {
        None
    } else {
        let b = skip_ws(s, a + 1);
        if !(b < n && s[b] == '"') {
            None
        } else {
            let e = string_end(s, b + 1);
            if !(e < n) {
                None
            } else {
                let c = skip_ws(s, e + 1);
                if !(c < n && s[c] == ':') {
                    None
                } else {
                    let d = skip_ws(s, c + 1);
                    if !(d + 4 <= n && s.subrange(d, d + 4) == seq!['n', 'u', 'l', 'l']) {
                        None
                    } else {
                        let f = skip_ws(s, d + 4);
                        if !(f < n && s[f] == '}' && skip_ws(s, f + 1) == n) {
                            None
                        } else {
                            json_text(s.subrange(b, e + 1))
                        }
                    }
                }
            }
        }
    }
}

/// The variant name a stored JSON text names, as `serde_json` reads a
/// unit-only enum: a JSON string, or else the object form `{"name":null}`.
pub open spec fn variant_name(s: Seq<char>) -> Option<Seq<char>> {
    match decoded(s) {
        Some(n) => Some(n),
        None => object_variant(s),
    }
}

/// Calls `serde_json::from_str::<String>`. Claimed: the outcome is the named
/// function `json_text` of the text, `None` standing for the crate's error;
/// and a plain text between double quotes reads as that text (the crate's
/// string reader stops only at a quote, a backslash or a control character).
#[verifier::external_body]
fn decode_json_string(s: &str) -> (r: Option<String>)
    ensures
        r.is_some() == json_text(s@).is_some(),
        r.is_some() ==> json_text(s@) == Some(r.unwrap()@),
        is_quoted_plain(s@) ==> r.is_some() && r.unwrap()@ == s@.subrange(1, s@.len() - 1),
{
    serde_json::from_str::<String>(s).ok()
}

/// Calls `serde_json::to_string` on a string. Claimed: the text is
/// `json_encoded` of the string (the crate's escape table and escape
/// writer).
#[verifier::external_body]
fn encode_json_string(s: &str) -> (r: String)
    ensures
        r@ == json_encoded(s@),
{
    serde_json::to_string(s).unwrap_or_default()
}

/// Calls `chrono::TimeZone::timestamp_millis_opt` on `Utc`. Claimed: an
/// instant comes back exactly when the count is in `chrono`'s range
/// (`utc_in_range`), and it is that count of milliseconds.
#[verifier::external_body]
fn utc_millis(millis: i64) -> (r: Option<DateTime>)
    ensures
        r.is_some() == utc_in_range(millis),
        r.is_some() ==> r.unwrap().0 == millis,
{
    match chrono::TimeZone::timestamp_millis_opt(&chrono::Utc, millis).single() {
        Some(d) => Some(DateTime(d.timestamp_millis())),
        None => None,
    }
}

// ------------------------------------------------------------------
//  Reading
// ------------------------------------------------------------------

/// The name a status is stored as (inside JSON quotes).
pub open spec fn status_name(s: Status) -> Seq<char> {
    match s {
        Status::Pending => seq!['p', 'e', 'n', 'd', 'i', 'n', 'g'],
        Status::Deleted => seq!['d', 'e', 'l', 'e', 't', 'e', 'd'],
        Status::Completed => seq!['c', 'o', 'm', 'p', 'l', 'e', 't', 'e', 'd'],
        Status::Waiting => seq!['w', 'a', 'i', 't', 'i', 'n', 'g'],
        Status::Recurring => seq!['r', 'e', 'c', 'u', 'r', 'r', 'i', 'n', 'g'],
    }
}

/// The status stored under a name, if any.
pub open spec fn status_of_name(n: Seq<char>) -> Option<Status> {
    if n == status_name(Status::Pending) {
        Some(Status::Pending)
    } else if n == status_name(Status::Deleted) {
        Some(Status::Deleted)
    } else if n == status_name(Status::Completed) {
        Some(Status::Completed)
    } else if n == status_name(Status::Waiting) {
        Some(Status::Waiting)
    } else if n == status_name(Status::Recurring) {
        Some(Status::Recurring)
    } else {
        None
    }
}

/// The letter a priority is stored as (inside JSON quotes).
pub open spec fn priority_letter(p: Priority) -> Seq<char> {
    match p {
        Priority::High => seq!['H'],
        Priority::Medium => seq!['M'],
        Priority::Low => seq!['L'],
    }
}

/// The priority stored under a letter, if any.
pub open spec fn priority_of_letter(n: Seq<char>) -> Option<Priority> {
    if n == priority_letter(Priority::High) {
        Some(Priority::High)
    } else if n == priority_letter(Priority::Medium) {
        Some(Priority::Medium)
    } else if n == priority_letter(Priority::Low) {
        Some(Priority::Low)
    } else {
        None
    }
}

/// The status field. `None` where reading stops without an answer: the
/// stored string is not a JSON form of a status (a string, or an object
/// naming the status).
pub open spec fn status_read(es: Seq<(Seq<char>, StoredModel)>) -> Option<Result<Status, ReadError>> {
    match lookup(es, key_name(Key::Status)) {
        Some(StoredModel::Primitive(ScalarModel::Str(s))) => match variant_name(s) {
            Some(n) => match status_of_name(n) {
                Some(st) => Some(Ok(st)),
                None => None,
            },
            None => None,
        },
        _ => Some(Err(ReadError::Missing(Key::Status))),
    }
}

/// The entry time. `None` where the timestamp is out of `chrono`'s range.
pub open spec fn entry_read(es: Seq<(Seq<char>, StoredModel)>) -> Option<Result<DateTime, ReadError>> {
    match lookup(es, key_name(Key::Entry)) {
        Some(StoredModel::Primitive(ScalarModel::Timestamp(t))) => if utc_in_range(t) {
            Some(Ok(DateTime(t)))
        } else {
            None
        },
        _ => Some(Err(ReadError::Missing(Key::Entry))),
    }
}

/// An optional time field: a timestamp or null. `None` where the timestamp
/// is out of `chrono`'s range.
pub open spec fn date_read(es: Seq<(Seq<char>, StoredModel)>, k: Key) -> Option<
    Result<Option<DateTime>, ReadError>,
> {
    match lookup(es, key_name(k)) {
        Some(StoredModel::Primitive(ScalarModel::Timestamp(t))) => if utc_in_range(t) {
            Some(Ok(Some(DateTime(t))))
        } else {
            None
        },
        Some(StoredModel::Primitive(ScalarModel::Null)) => Some(Ok(None)),
        _ => Some(Err(ReadError::Missing(k))),
    }
}

/// A text field.
pub open spec fn text_read(es: Seq<(Seq<char>, StoredModel)>, k: Key) -> Result<Seq<char>, ReadError> {
    match lookup(es, key_name(k)) {
        Some(StoredModel::Text(t)) => Ok(t),
        _ => Err(ReadError::Missing(k)),
    }
}

/// A field holding a sequence of texts.
pub open spec fn texts_read(es: Seq<(Seq<char>, StoredModel)>, k: Key) -> Result<
    Seq<Seq<char>>,
    ReadError,
> {
    match lookup(es, key_name(k)) {
        Some(StoredModel::Sequence(items)) => if forall|i: int| 0 <= i < items.len() ==> items[i] is Some {
            Ok(items.map_values(|o: Option<Seq<char>>| o.unwrap()))
        } else {
            Err(ReadError::WrongItem(k))
        },
        _ => Err(ReadError::Missing(k)),
    }
}

/// The priority field: a JSON text or null. `None` where the stored
/// string is not a JSON form of a priority (a string, or an object naming
/// the priority).
pub open spec fn priority_read(es: Seq<(Seq<char>, StoredModel)>) -> Option<
    Result<Option<Priority>, ReadError>,
> {
    match lookup(es, key_name(Key::Priority)) {
        Some(StoredModel::Primitive(ScalarModel::Str(s))) => match variant_name(s) {
            Some(n) => match priority_of_letter(n) {
                Some(p) => Some(Ok(Some(p))),
                None => None,
            },
            None => None,
        },
        Some(StoredModel::Primitive(ScalarModel::Null)) => Some(Ok(None)),
        _ => Some(Err(ReadError::Missing(Key::Priority))),
    }
}

/// Whether a field's outcome ends the reading.
pub open spec fn stops<T>(o: Option<Result<T, ReadError>>) -> bool {
    o is None || o.unwrap() is Err
}

/// The outcome of reading when a field ends it.
pub open spec fn stopped<T>(o: Option<Result<T, ReadError>>) -> Option<Result<TaskModel, ReadError>> {
    match o {
        Some(Err(e)) => Some(Err(e)),
        _ => None,
    }
}

/// Reading a task with identifier `id` from a map's entries, field by field
/// in a fixed order: the first field that is missing or of the wrong type
/// gives the error. `None` where reading stops without an answer (a status
/// or priority text that is not a JSON form of one, or a timestamp out
/// of `chrono`'s range). The stored form holds no recurrence, parent,
/// dependencies or user-defined attributes.
pub open spec fn read_fields(es: Seq<(Seq<char>, StoredModel)>, id: Id) -> Option<Result<TaskModel, ReadError>> {
    let status = status_read(es);
    let entry = entry_read(es);
    let start = date_read(es, Key::Start);
    let end = date_read(es, Key::End);
    let wait = date_read(es, Key::Wait);
    let until = date_read(es, Key::Until);
    let scheduled = date_read(es, Key::Scheduled);
    let due = date_read(es, Key::Due);
    let description = text_read(es, Key::Description);
    let notes = text_read(es, Key::Notes);
    let project = texts_read(es, Key::Project);
    let tags = texts_read(es, Key::Tags);
    let priority = priority_read(es);
    if stops(status) {
        stopped(status)
    } else if stops(entry) {
        stopped(entry)
    } else if stops(start) {
        stopped(start)
    } else if stops(end) {
        stopped(end)
    } else if stops(wait) {
        stopped(wait)
    } else if stops(until) {
        stopped(until)
    } else if stops(scheduled) {
        stopped(scheduled)
    } else if stops(due) {
        stopped(due)
    } else if description is Err {
        Some(Err(description->Err_0))
    } else if notes is Err {
        Some(Err(notes->Err_0))
    } else if project is Err {
        Some(Err(project->Err_0))
    } else if tags is Err {
        Some(Err(tags->Err_0))
    } else if stops(priority) {
        stopped(priority)
    } else {
        Some(
            Ok(
                TaskModel {
                    id,
                    status: status.unwrap()->Ok_0,
                    entry: entry.unwrap()->Ok_0,
                    description: description->Ok_0,
                    start: start.unwrap()->Ok_0,
                    due: due.unwrap()->Ok_0,
                    end: end.unwrap()->Ok_0,
                    wait: wait.unwrap()->Ok_0,
                    scheduled: scheduled.unwrap()->Ok_0,
                    recur: None,
                    parent: None,
                    until: until.unwrap()->Ok_0,
                    notes: notes->Ok_0,
                    project: project->Ok_0,
                    tags: tags->Ok_0,
                    priority: priority.unwrap()->Ok_0,
                    depends: seq![],
                    udas: seq![],
                },
            ),
        )
    }
}

/// Reading a task with identifier `id` from a stored value.
pub open spec fn record_read(r: Record, id: Id) -> Option<Result<TaskModel, ReadError>> {
    match r {
        Record::Fields(es) => read_fields(entries_view(es@), id),
        Record::NotAMap => Some(Err(ReadError::NotAMap)),
    }
}

/// The contents of a reading's outcome.
pub open spec fn outcome_view(r: Option<Result<Task, ReadError>>) -> Option<Result<TaskModel, ReadError>> {
    match r {
        Some(Ok(t)) => Some(Ok(t@)),
        Some(Err(e)) => Some(Err(e)),
        None => None,
    }
}

/// The status stored under a name.
fn status_of(n: &str) -> (r: Option<Status>)
    ensures
        r == status_of_name(n@),
{
    proof {
        reveal_strlit("pending");
        reveal_strlit("deleted");
        reveal_strlit("completed");
        reveal_strlit("waiting");
        reveal_strlit("recurring");
        assert("pending"@ =~= status_name(Status::Pending));
        assert("deleted"@ =~= status_name(Status::Deleted));
        assert("completed"@ =~= status_name(Status::Completed));
        assert("waiting"@ =~= status_name(Status::Waiting));
        assert("recurring"@ =~= status_name(Status::Recurring));
    }
    if same_text(n, "pending") {
        Some(Status::Pending)
    } else if same_text(n, "deleted") {
        Some(Status::Deleted)
    } else if same_text(n, "completed") {
        Some(Status::Completed)
    } else if same_text(n, "waiting") {
        Some(Status::Waiting)
    } else if same_text(n, "recurring") {
        Some(Status::Recurring)
    } else {
        None
    }
}

/// The priority stored under a letter.
fn priority_of(n: &str) -> (r: Option<Priority>)
    ensures
        r == priority_of_letter(n@),
{
    proof {
        reveal_strlit("H");
        reveal_strlit("M");
        reveal_strlit("L");
        assert("H"@ =~= priority_letter(Priority::High));
        assert("M"@ =~= priority_letter(Priority::Medium));
        assert("L"@ =~= priority_letter(Priority::Low));
    }
    if same_text(n, "H") {
        Some(Priority::High)
    } else if same_text(n, "M") {
        Some(Priority::Medium)
    } else if same_text(n, "L") {
        Some(Priority::Low)
    } else {
        None
    }
}

/// The string a stored JSON text stands for.
fn decode(s: &String) -> (r: Option<String>)
    ensures
        match r {
            Some(v) => decoded(s@) == Some(v@),
            None => decoded(s@) is None,
        },
{
    decode_json_string(s.as_str())
}

/// The first position from `i` on that holds no JSON whitespace.
fn skip_ws_at(v: &Vec<char>, i: usize) -> (r: usize)
    requires
        i <= v@.len(),
    ensures
        r == skip_ws(v@, i as int),
        i <= r <= v@.len(),
{
    let mut j = i;
    while j < v.len() && (v[j] == ' ' || v[j] == '\n' || v[j] == '\t' || v[j] == '\r')
        invariant
            i <= j <= v@.len(),
            skip_ws(v@, j as int) == skip_ws(v@, i as int),
        decreases v.len() - j,
    {
        j = j + 1;
    }
    j
}

/// The position of the quote closing a JSON string whose contents start at `i`.
fn string_end_at(v: &Vec<char>, i: usize) -> (r: usize)
    requires
        i <= v@.len(),
    ensures
        r == string_end(v@, i as int),
        i <= r <= v@.len(),
{
    let mut j = i;
    while j < v.len()
        invariant
            i <= j <= v@.len(),
            string_end(v@, j as int) == string_end(v@, i as int),
        decreases v.len() - j,
    {
        if v[j] == '"' {
            return j;
        } else if v[j] == '\\' {
            if v.len() - j < 2 {
                return v.len();
            }
            j = j + 2;
        } else {
            j = j + 1;
        }
    }
    j
}

/// The variant name of a text in JSON's object form `{"name":null}`.
fn object_variant_of(s: &str) -> (r: Option<String>)
    ensures
        match r {
            Some(n) => object_variant(s@) == Some(n@),
            None => object_variant(s@) is None,
        },
{
    reveal(object_variant);
    let v = chars_of(s);
    let n = v.len();
    let a = skip_ws_at(&v, 0);
    if !(a < n && v[a] == '{') {
        return None;
    }
    let b = skip_ws_at(&v, a + 1);
    if !(b < n && v[b] == '"') {
        return None;
    }
    let e = string_end_at(&v, b + 1);
    if !(e < n) {
        return None;
    }
    let c = skip_ws_at(&v, e + 1);
    if !(c < n && v[c] == ':') {
        return None;
    }
    let d = skip_ws_at(&v, c + 1);
    if !(n - d >= 4 && v[d] == 'n' && v[d + 1] == 'u' && v[d + 2] == 'l' && v[d + 3] == 'l') {
        proof {
            if n - d >= 4 {
                if v@.subrange(d as int, d + 4) == seq!['n', 'u', 'l', 'l'] {
                    assert(v@.subrange(d as int, d + 4)[0] == v@[d as int]);
                    assert(v@.subrange(d as int, d + 4)[1] == v@[d + 1]);
                    assert(v@.subrange(d as int, d + 4)[2] == v@[d + 2]);
                    assert(v@.subrange(d as int, d + 4)[3] == v@[d + 3]);
                }
            }
        }
        return None;
    }
    assert(v@.subrange(d as int, d + 4) =~= seq!['n', 'u', 'l', 'l']);
    let f = skip_ws_at(&v, d + 4);
    if !(f < n && v[f] == '}') {
        return None;
    }
    let g = skip_ws_at(&v, f + 1);
    if g != n {
        return None;
    }
    let mut key: Vec<char> = Vec::new();
    let mut k = b;
    while k <= e
        invariant
            b <= k <= e + 1,
            e < v@.len(),
            n == v@.len(),
            key@ == v@.subrange(b as int, k as int),
        decreases e + 1 - k,
    {
        key.push(v[k]);
        proof {
            assert(key@ =~= v@.subrange(b as int, k + 1));
        }
        k = k + 1;
    }
    let text = string_from_chars(key.as_slice());
    decode_json_string(text.as_str())
}

/// The variant name a stored JSON text names: a JSON string, or else the
/// object form `{"name":null}`.
fn variant_of(s: &String) -> (r: Option<String>)
    ensures
        match r {
            Some(v) => variant_name(s@) == Some(v@),
            None => variant_name(s@) is None,
        },
{
    match decode(s) {
        Some(n) => Some(n),
        None => object_variant_of(s.as_str()),
    }
}

fn read_status(es: &Vec<(String, Stored)>) -> (r: Option<Result<Status, ReadError>>)
    ensures
        r == status_read(entries_view(es@)),
{
    match find(es, Key::Status.name()) {
        Some(Stored::Primitive(Scalar::Str(s))) => match variant_of(s) {
            Some(n) => match status_of(n.as_str()) {
                Some(st) => Some(Ok(st)),
                None => None,
            },
            None => None,
        },
        _ => Some(Err(ReadError::Missing(Key::Status))),
    }
}

fn read_entry(es: &Vec<(String, Stored)>) -> (r: Option<Result<DateTime, ReadError>>)
    ensures
        r == entry_read(entries_view(es@)),
{
    match find(es, Key::Entry.name()) {
        Some(Stored::Primitive(Scalar::Timestamp(t))) => match utc_millis(*t) {
            Some(d) => Some(Ok(d)),
            None => None,
        },
        _ => Some(Err(ReadError::Missing(Key::Entry))),
    }
}

fn read_date(es: &Vec<(String, Stored)>, k: Key) -> (r: Option<Result<Option<DateTime>, ReadError>>)
    ensures
        r == date_read(entries_view(es@), k),
{
    match find(es, k.name()) {
        Some(Stored::Primitive(Scalar::Timestamp(t))) => match utc_millis(*t) {
            Some(d) => Some(Ok(Some(d))),
            None => None,
        },
        Some(Stored::Primitive(Scalar::Null)) => Some(Ok(None)),
        _ => Some(Err(ReadError::Missing(k))),
    }
}

fn read_text(es: &Vec<(String, Stored)>, k: Key) -> (r: Result<String, ReadError>)
    ensures
        match r {
            Ok(t) => text_read(entries_view(es@), k) == Ok::<Seq<char>, ReadError>(t@),
            Err(e) => text_read(entries_view(es@), k) == Err::<Seq<char>, ReadError>(e),
        },
{
    match find(es, k.name()) {
        Some(Stored::Text(t)) => Ok(t.clone()),
        _ => Err(ReadError::Missing(k)),
    }
}

fn read_texts(es: &Vec<(String, Stored)>, k: Key) -> (r: Result<Vec<String>, ReadError>)
    ensures
        match r {
            Ok(v) => texts_read(entries_view(es@), k) == Ok::<Seq<Seq<char>>, ReadError>(strings_view(v@)),
            Err(e) => texts_read(entries_view(es@), k) == Err::<Seq<Seq<char>>, ReadError>(e),
        },
{
    let found = find(es, k.name());
    match found {
        Some(Stored::Sequence(items)) => {
            let ghost iv = items_view(items@);
            assert(lookup(entries_view(es@), key_name(k)) == Some(StoredModel::Sequence(iv)));
            let mut out: Vec<String> = Vec::new();
            let mut i: usize = 0;
            while i < items.len()
                invariant
                    iv == items_view(items@),
                    lookup(entries_view(es@), key_name(k)) == Some(StoredModel::Sequence(iv)),
                    i <= items@.len(),
                    forall|j: int| 0 <= j < i ==> iv[j] is Some,
                    strings_view(out@) == iv.take(i as int).map_values(|o: Option<Seq<char>>| o.unwrap()),
                decreases items.len() - i,
            {
                match &items[i] {
                    Some(t) => {
                        let ghost before = strings_view(out@);
                        out.push(t.clone());
                        proof {
                            assert(iv[i as int] == Some(t@));
                            assert(strings_view(out@) =~= before.push(t@));
                            assert(iv.take(i + 1).map_values(|o: Option<Seq<char>>| o.unwrap())
                                =~= iv.take(i as int).map_values(|o: Option<Seq<char>>| o.unwrap()).push(t@));
                        }
                    },
                    None => {
                        assert(iv[i as int] is None);
                        assert(!(forall|j: int| 0 <= j < iv.len() ==> #[trigger] iv[j] is Some));
                        return Err(ReadError::WrongItem(k));
                    },
                }
                i = i + 1;
            }
            assert(iv.take(items@.len() as int) =~= iv);
            Ok(out)
        },
        _ => Err(ReadError::Missing(k)),
    }
}

fn read_priority(es: &Vec<(String, Stored)>) -> (r: Option<Result<Option<Priority>, ReadError>>)
    ensures
        r == priority_read(entries_view(es@)),
{
    match find(es, Key::Priority.name()) {
        Some(Stored::Primitive(Scalar::Str(s))) => match variant_of(s) {
            Some(n) => match priority_of(n.as_str()) {
                Some(p) => Some(Ok(Some(p))),
                None => None,
            },
            None => None,
        },
        Some(Stored::Primitive(Scalar::Null)) => Some(Ok(None)),
        _ => Some(Err(ReadError::Missing(Key::Priority))),
    }
}

/// Reads a task with identifier `id` from a map's entries.
fn read_entries(es: &Vec<(String, Stored)>, id: Id) -> (r: Option<Result<Task, ReadError>>)
    ensures
        outcome_view(r) == read_fields(entries_view(es@), id),
{
    let ghost ev = entries_view(es@);
    let status = match read_status(es) {
        Some(Ok(s)) => s,
        Some(Err(e)) => return Some(Err(e)),
        None => return None,
    };
    let entry = match read_entry(es) {
        Some(Ok(d)) => d,
        Some(Err(e)) => return Some(Err(e)),
        None => return None,
    };
    let start = match read_date(es, Key::Start) {
        Some(Ok(d)) => d,
        Some(Err(e)) => return Some(Err(e)),
        None => return None,
    };
    let end = match read_date(es, Key::End) {
        Some(Ok(d)) => d,
        Some(Err(e)) => return Some(Err(e)),
        None => return None,
    };
    let wait = match read_date(es, Key::Wait) {
        Some(Ok(d)) => d,
        Some(Err(e)) => return Some(Err(e)),
        None => return None,
    };
    let until = match read_date(es, Key::Until) {
        Some(Ok(d)) => d,
        Some(Err(e)) => return Some(Err(e)),
        None => return None,
    };
    let scheduled = match read_date(es, Key::Scheduled) {
        Some(Ok(d)) => d,
        Some(Err(e)) => return Some(Err(e)),
        None => return None,
    };
    let due = match read_date(es, Key::Due) {
        Some(Ok(d)) => d,
        Some(Err(e)) => return Some(Err(e)),
        None => return None,
    };
    let description = match read_text(es, Key::Description) {
        Ok(t) => t,
        Err(e) => return Some(Err(e)),
    };
    let notes = match read_text(es, Key::Notes) {
        Ok(t) => t,
        Err(e) => return Some(Err(e)),
    };
    let project = match read_texts(es, Key::Project) {
        Ok(v) => v,
        Err(e) => return Some(Err(e)),
    };
    let tags = match read_texts(es, Key::Tags) {
        Ok(v) => v,
        Err(e) => return Some(Err(e)),
    };
    let priority = match read_priority(es) {
        Some(Ok(p)) => p,
        Some(Err(e)) => return Some(Err(e)),
        None => return None,
    };
    let t = Task {
        id,
        status,
        entry,
        description,
        start,
        due,
        end,
        wait,
        scheduled,
        recur: None,
        parent: None,
        until,
        notes,
        project,
        tags,
        priority,
        depends: Vec::new(),
        udas: Vec::new(),
    };
    assert(t@ =~= read_fields(ev, id).unwrap()->Ok_0);
    Some(Ok(t))
}

/// Reads a task with identifier `id` from a stored value.
fn read_record(value: &Record, id: Id) -> (r: Option<Result<Task, ReadError>>)
    ensures
        outcome_view(r) == record_read(*value, id),
{
    match value {
        Record::Fields(es) => read_entries(es, id),
        Record::NotAMap => Some(Err(ReadError::NotAMap)),
    }
}

impl Task {
    /// Reads the task with identifier `id` from its stored form, field by
    /// field: status, entry, start, end, wait, until, scheduled, due,
    /// description, notes, project, tags, priority. The first field that is
    /// missing or of the wrong type is the error. Requires that the reading
    /// does not stop at a status or priority that is not the JSON form of
    /// one, or at a timestamp `chrono` cannot represent.
    pub fn try_from(value: &Record, id: Id) -> (r: Result<Task, ReadError>)
        requires
            record_read(*value, id) is Some,
        ensures
            outcome_view(Some(r)) == record_read(*value, id),
    {
        read_record(value, id).unwrap()
    }

    /// Reads a task as `try_from` does, or gives `None` where that reading
    /// would stop at an undecodable status or priority or an out-of-range
    /// timestamp.
    pub fn try_read(value: &Record, id: Id) -> (r: Option<Result<Task, ReadError>>)
        ensures
            outcome_view(r) == record_read(*value, id),
    {
        if read_record(value, id).is_none() {
            None
        } else {
            Some(Task::try_from(value, id))
        }
    }
}

} // verus!

verus! {

// ------------------------------------------------------------------
//  Writing
// ------------------------------------------------------------------

/// A path in the document: the keys from the root down.
pub struct Path {
    pub keys: Vec<String>,
}

impl Path {
    /// The root of the document.
    pub fn root() -> (p: Path)
        ensures
            strings_view(p.keys@) == Seq::<Seq<char>>::empty(),
    {
        let p = Path { keys: Vec::new() };
        assert(strings_view(p.keys@) =~= Seq::<Seq<char>>::empty());
        p
    }

    /// The path one key further down.
    pub fn key(&self, k: &str) -> (p: Path)
        ensures
            strings_view(p.keys@) == strings_view(self.keys@).push(k@),
    {
        let mut keys = clone_strings(&self.keys);
        let ghost before = strings_view(keys@);
        keys.push(k.to_owned());
        assert(strings_view(keys@) =~= before.push(k@));
        Path { keys }
    }
}

/// A change to the document: set the value at a path.
pub struct Change {
    pub path: Path,
    pub value: Stored,
}

/// The paths and values of a list of changes.
pub open spec fn changes_view(cs: Seq<Change>) -> Seq<(Seq<Seq<char>>, StoredModel)> {
    cs.map_values(|c: Change| (strings_view(c.path.keys@), c.value@))
}

/// Writes of fields, made under the path of a task's map.
pub open spec fn under(path: Seq<Seq<char>>, ws: Seq<(Seq<char>, StoredModel)>) -> Seq<
    (Seq<Seq<char>>, StoredModel),
> {
    ws.map_values(|w: (Seq<char>, StoredModel)| (path.push(w.0), w.1))
}

/// The path of the task with identifier `id`: `tasks/<id>`.
pub open spec fn task_path(id: Id) -> Seq<Seq<char>> {
    seq![seq!['t', 'a', 's', 'k', 's'], uuid_text(id.0)]
}

/// How an optional time is stored: a timestamp, or null.
pub open spec fn date_value(d: Option<DateTime>) -> StoredModel {
    match d {
        Some(t) => StoredModel::Primitive(ScalarModel::Timestamp(t.0)),
        None => StoredModel::Primitive(ScalarModel::Null),
    }
}

/// How a status is stored: its name as a JSON string.
pub open spec fn status_value(s: Status) -> StoredModel {
    StoredModel::Primitive(ScalarModel::Str(quoted(status_name(s))))
}

/// How a priority is stored: its letter as a JSON string, or null.
pub open spec fn priority_value(p: Option<Priority>) -> StoredModel {
    match p {
        Some(q) => StoredModel::Primitive(ScalarModel::Str(quoted(priority_letter(q)))),
        None => StoredModel::Primitive(ScalarModel::Null),
    }
}

/// How a list of texts is stored: a sequence of texts.
pub open spec fn texts_value(v: Seq<Seq<char>>) -> StoredModel {
    StoredModel::Sequence(v.map_values(|s: Seq<char>| Some(s)))
}

/// What `create` writes into a new task's map, in order: the entry time
/// twice (`first`, then `last`, as the clock is read twice), empty texts and
/// sequences, the pending status, and null for every optional field.
pub open spec fn create_writes(first: DateTime, last: DateTime) -> Seq<(Seq<char>, StoredModel)> {
    seq![
        (key_name(Key::Entry), date_value(Some(first))),
        (key_name(Key::Description), StoredModel::Text(seq![])),
        (key_name(Key::Notes), StoredModel::Text(seq![])),
        (key_name(Key::Project), texts_value(seq![])),
        (key_name(Key::Tags), texts_value(seq![])),
        (key_name(Key::Start), date_value(None)),
        (key_name(Key::Status), status_value(Status::Pending)),
        (key_name(Key::Entry), date_value(Some(last))),
        (key_name(Key::End), date_value(None)),
        (key_name(Key::Start), date_value(None)),
        (key_name(Key::Wait), date_value(None)),
        (key_name(Key::Until), date_value(None)),
        (key_name(Key::Scheduled), date_value(None)),
        (key_name(Key::Due), date_value(None)),
        (key_name(Key::Priority), date_value(None)),
    ]
}

/// Completing at `at`: the end time, no start, the completed status.
pub open spec fn complete_writes(at: DateTime) -> Seq<(Seq<char>, StoredModel)> {
    seq![
        (key_name(Key::End), date_value(Some(at))),
        (key_name(Key::Start), date_value(None)),
        (key_name(Key::Status), status_value(Status::Completed)),
    ]
}

/// Deleting at `at`: the end time and the deleted status.
pub open spec fn delete_writes(at: DateTime) -> Seq<(Seq<char>, StoredModel)> {
    seq![
        (key_name(Key::End), date_value(Some(at))),
        (key_name(Key::Status), status_value(Status::Deleted)),
    ]
}

/// Restoring a task with status `s`: a finished task becomes pending, any
/// other is left alone.
pub open spec fn restore_writes(s: Status) -> Seq<(Seq<char>, StoredModel)> {
    match s {
        Status::Completed | Status::Deleted => seq![(key_name(Key::Status), status_value(Status::Pending))],
        _ => seq![],
    }
}

/// Starting a task with tags `tags` at `at`: the tags without `next`, and
/// the start time.
pub open spec fn activate_writes(tags: Seq<Seq<char>>, at: DateTime) -> Seq<(Seq<char>, StoredModel)> {
    seq![
        (key_name(Key::Tags), texts_value(without_next(tags))),
        (key_name(Key::Start), date_value(Some(at))),
    ]
}

/// Appends the change that sets `key` under `path` to `value`.
fn set(out: &mut Vec<Change>, path: &Path, key: Key, value: Stored)
    ensures
        changes_view(final(out)@) == changes_view(old(out)@).push(
            (strings_view(path.keys@).push(key_name(key)), value@),
        ),
{
    let ghost before = changes_view(out@);
    let ghost v = value@;
    out.push(Change { path: path.key(key.name()), value });
    assert(changes_view(out@) =~= before.push((strings_view(path.keys@).push(key_name(key)), v)));
}

/// The single change that sets `key` under `path` to `value`.
fn single(path: &Path, key: Key, value: Stored) -> (r: Vec<Change>)
    ensures
        changes_view(r@) == seq![(strings_view(path.keys@).push(key_name(key)), value@)],
{
    let mut out: Vec<Change> = Vec::new();
    set(&mut out, path, key, value);
    assert(changes_view(out@) =~= seq![(strings_view(path.keys@).push(key_name(key)), value@)]);
    out
}

/// The stored form of an optional time.
fn date_stored(d: Option<DateTime>) -> (r: Stored)
    ensures
        r@ == date_value(d),
{
    match d {
        Some(t) => Stored::Primitive(Scalar::Timestamp(t.0)),
        None => Stored::Primitive(Scalar::Null),
    }
}

/// The name of a status.
fn status_str(s: Status) -> (r: &'static str)
    ensures
        r@ == status_name(s),
{
    proof {
        reveal_strlit("pending");
        reveal_strlit("deleted");
        reveal_strlit("completed");
        reveal_strlit("waiting");
        reveal_strlit("recurring");
        assert("pending"@ =~= status_name(Status::Pending));
        assert("deleted"@ =~= status_name(Status::Deleted));
        assert("completed"@ =~= status_name(Status::Completed));
        assert("waiting"@ =~= status_name(Status::Waiting));
        assert("recurring"@ =~= status_name(Status::Recurring));
    }
    match s {
        Status::Pending => "pending",
        Status::Deleted => "deleted",
        Status::Completed => "completed",
        Status::Waiting => "waiting",
        Status::Recurring => "recurring",
    }
}

/// The letter of a priority.
fn priority_str(p: Priority) -> (r: &'static str)
    ensures
        r@ == priority_letter(p),
{
    proof {
        reveal_strlit("H");
        reveal_strlit("M");
        reveal_strlit("L");
        assert("H"@ =~= priority_letter(Priority::High));
        assert("M"@ =~= priority_letter(Priority::Medium));
        assert("L"@ =~= priority_letter(Priority::Low));
    }
    match p {
        Priority::High => "H",
        Priority::Medium => "M",
        Priority::Low => "L",
    }
}

/// Status names and priority letters are written between quotes as they are.
proof fn lemma_names_plain()
    ensures
        forall|s: Status| plain_json(#[trigger] status_name(s)),
        forall|p: Priority| plain_json(#[trigger] priority_letter(p)),
{
    reveal_with_fuel(plain_json, 10);
    assert(plain_json(status_name(Status::Pending)));
    assert(plain_json(status_name(Status::Deleted)));
    assert(plain_json(status_name(Status::Completed)));
    assert(plain_json(status_name(Status::Waiting)));
    assert(plain_json(status_name(Status::Recurring)));
    assert(plain_json(priority_letter(Priority::High)));
    assert(plain_json(priority_letter(Priority::Medium)));
    assert(plain_json(priority_letter(Priority::Low)));
    assert forall|s: Status| plain_json(#[trigger] status_name(s)) by {
        match s {
            Status::Pending => {},
            Status::Deleted => {},
            Status::Completed => {},
            Status::Waiting => {},
            Status::Recurring => {},
        }
    }
    assert forall|p: Priority| plain_json(#[trigger] priority_letter(p)) by {
        match p {
            Priority::High => {},
            Priority::Medium => {},
            Priority::Low => {},
        }
    }
}

/// Every character of a plain text is plain.
proof fn lemma_plain_chars(s: Seq<char>)
    requires
        plain_json(s),
    ensures
        forall|i: int| 0 <= i < s.len() ==> plain_char(#[trigger] s[i]),
    decreases s.len(),
{
    if s.len() > 0 {
        lemma_plain_chars(s.drop_first());
        assert forall|i: int| 0 <= i < s.len() implies plain_char(#[trigger] s[i]) by {
            if i > 0 {
                assert(s[i] == s.drop_first()[i - 1]);
            }
        }
    }
}

/// A text of plain characters is written as it is.
proof fn lemma_escaped_plain(s: Seq<char>)
    requires
        forall|i: int| 0 <= i < s.len() ==> plain_char(#[trigger] s[i]),
    ensures
        escaped(s) == s,
    decreases s.len(),
{
    if s.len() > 0 {
        assert forall|i: int| 0 <= i < s.drop_last().len() implies plain_char(
            #[trigger] s.drop_last()[i],
        ) by {
            assert(s.drop_last()[i] == s[i]);
        }
        lemma_escaped_plain(s.drop_last());
        assert(plain_char(s[s.len() - 1]));
        assert(s.drop_last() + seq![s.last()] =~= s);
    }
}

/// A plain text is written between double quotes as it is.
proof fn lemma_plain_encoded(s: Seq<char>)
    requires
        plain_json(s),
    ensures
        json_encoded(s) == quoted(s),
{
    lemma_plain_chars(s);
    lemma_escaped_plain(s);
}

/// The stored form of a status.
fn status_stored(s: Status) -> (r: Stored)
    ensures
        r@ == status_value(s),
{
    proof {
        lemma_names_plain();
        lemma_plain_encoded(status_name(s));
    }
    Stored::Primitive(Scalar::Str(encode_json_string(status_str(s))))
}

/// The stored form of an optional priority.
fn priority_stored(p: Option<Priority>) -> (r: Stored)
    ensures
        r@ == priority_value(p),
{
    proof {
        lemma_names_plain();
        if p is Some {
            lemma_plain_encoded(priority_letter(p.unwrap()));
        }
    }
    match p {
        Some(q) => Stored::Primitive(Scalar::Str(encode_json_string(priority_str(q)))),
        None => Stored::Primitive(Scalar::Null),
    }
}

/// The stored form of a list of texts.
fn texts_stored(v: Vec<String>) -> (r: Stored)
    ensures
        r@ == texts_value(strings_view(v@)),
{
    let ghost vv = strings_view(v@);
    let mut items: Vec<Option<String>> = Vec::new();
    let mut i: usize = 0;
    while i < v.len()
        invariant
            vv == strings_view(v@),
            i <= v@.len(),
            items_view(items@) == vv.take(i as int).map_values(|s: Seq<char>| Some(s)),
        decreases v.len() - i,
    {
        let ghost before = items_view(items@);
        items.push(Some(v[i].clone()));
        proof {
            assert(items_view(items@) =~= before.push(Some(vv[i as int])));
            assert(vv.take(i + 1).map_values(|s: Seq<char>| Some(s)) =~= vv.take(i as int).map_values(
                |s: Seq<char>| Some(s),
            ).push(Some(vv[i as int])));
        }
        i = i + 1;
    }
    assert(vv.take(v@.len() as int) =~= vv);
    Stored::Sequence(items)
}

impl Task {
    /// The changes that create the task with identifier `uuid`, entered at
    /// `first` and again at `last`: an empty map at `tasks/<uuid>`, then
    /// each field under it.
    pub fn create_at(uuid: Id, first: DateTime, last: DateTime) -> (r: Vec<Change>)
        ensures
            changes_view(r@) == seq![(task_path(uuid), StoredModel::Object)] + under(
                task_path(uuid),
                create_writes(first, last),
            ),
    {
        proof {
            reveal_strlit("tasks");
            assert("tasks"@ =~= seq!['t', 'a', 's', 'k', 's']);
        }
        let root = Path::root();
        let tasks = root.key("tasks");
        let path = tasks.key(uuid.to_string().as_str());
        assert(strings_view(path.keys@) =~= task_path(uuid));
        let mut out: Vec<Change> = Vec::new();
        out.push(Change { path: Path { keys: clone_strings(&path.keys) }, value: Stored::Object });
        set(&mut out, &path, Key::Entry, date_stored(Some(first)));
        set(&mut out, &path, Key::Description, Stored::Text(String::new()));
        set(&mut out, &path, Key::Notes, Stored::Text(String::new()));
        set(&mut out, &path, Key::Project, texts_stored(Vec::new()));
        set(&mut out, &path, Key::Tags, texts_stored(Vec::new()));
        set(&mut out, &path, Key::Start, date_stored(None));
        set(&mut out, &path, Key::Status, status_stored(Status::Pending));
        set(&mut out, &path, Key::Entry, date_stored(Some(last)));
        set(&mut out, &path, Key::End, date_stored(None));
        set(&mut out, &path, Key::Start, date_stored(None));
        set(&mut out, &path, Key::Wait, date_stored(None));
        set(&mut out, &path, Key::Until, date_stored(None));
        set(&mut out, &path, Key::Scheduled, date_stored(None));
        set(&mut out, &path, Key::Due, date_stored(None));
        set(&mut out, &path, Key::Priority, date_stored(None));
        proof {
            assert(strings_view(Seq::<String>::empty()) =~= Seq::<Seq<char>>::empty());
            assert(changes_view(out@) =~= seq![(task_path(uuid), StoredModel::Object)] + under(
                task_path(uuid),
                create_writes(first, last),
            ));
        }
        out
    }

    /// The changes that create the task with identifier `uuid`, entered now
    /// (the clock is read twice).
    pub fn create(uuid: Id) -> (r: Vec<Change>)
        ensures
            exists|first: DateTime, last: DateTime|
                changes_view(r@) == seq![(task_path(uuid), StoredModel::Object)] + under(
                    task_path(uuid),
                    create_writes(first, last),
                ),
    {
        let first = now();
        let last = now();
        Task::create_at(uuid, first, last)
    }

    /// The change that sets the description of the task at `path`.
    pub fn description_changes(path: &Path, description: &str) -> (r: Vec<Change>)
        ensures
            changes_view(r@) == under(
                strings_view(path.keys@),
                seq![(key_name(Key::Description), StoredModel::Text(description@))],
            ),
    {
        let r = single(path, Key::Description, Stored::Text(description.to_owned()));
        assert(changes_view(r@) =~= under(
            strings_view(path.keys@),
            seq![(key_name(Key::Description), StoredModel::Text(description@))],
        ));
        r
    }

    /// The change that sets the notes of the task at `path`.
    pub fn notes_changes(path: &Path, notes: &str) -> (r: Vec<Change>)
        ensures
            changes_view(r@) == under(
                strings_view(path.keys@),
                seq![(key_name(Key::Notes), StoredModel::Text(notes@))],
            ),
    {
        let r = single(path, Key::Notes, Stored::Text(notes.to_owned()));
        assert(changes_view(r@) =~= under(
            strings_view(path.keys@),
            seq![(key_name(Key::Notes), StoredModel::Text(notes@))],
        ));
        r
    }

    /// The change that sets the project of the task at `path`.
    pub fn project_changes(path: &Path, project: Vec<String>) -> (r: Vec<Change>)
        ensures
            changes_view(r@) == under(
                strings_view(path.keys@),
                seq![(key_name(Key::Project), texts_value(strings_view(project@)))],
            ),
    {
        let r = single(path, Key::Project, texts_stored(project));
        assert(changes_view(r@) =~= under(
            strings_view(path.keys@),
            seq![(key_name(Key::Project), texts_value(strings_view(project@)))],
        ));
        r
    }

    /// The change that sets the tags of the task at `path`.
    pub fn tags_changes(path: &Path, tags: Vec<String>) -> (r: Vec<Change>)
        ensures
            changes_view(r@) == under(
                strings_view(path.keys@),
                seq![(key_name(Key::Tags), texts_value(strings_view(tags@)))],
            ),
    {
        let r = single(path, Key::Tags, texts_stored(tags));
        assert(changes_view(r@) =~= under(
            strings_view(path.keys@),
            seq![(key_name(Key::Tags), texts_value(strings_view(tags@)))],
        ));
        r
    }

    /// The change that sets the due time of the task at `path`.
    pub fn due_changes(path: &Path, due: Option<DateTime>) -> (r: Vec<Change>)
        ensures
            changes_view(r@) == under(strings_view(path.keys@), seq![(key_name(Key::Due), date_value(due))]),
    {
        let r = single(path, Key::Due, date_stored(due));
        assert(changes_view(r@) =~= under(
            strings_view(path.keys@),
            seq![(key_name(Key::Due), date_value(due))],
        ));
        r
    }

    /// The change that sets the scheduled time of the task at `path`.
    pub fn scheduled_changes(path: &Path, scheduled: Option<DateTime>) -> (r: Vec<Change>)
        ensures
            changes_view(r@) == under(
                strings_view(path.keys@),
                seq![(key_name(Key::Scheduled), date_value(scheduled))],
            ),
    {
        let r = single(path, Key::Scheduled, date_stored(scheduled));
        assert(changes_view(r@) =~= under(
            strings_view(path.keys@),
            seq![(key_name(Key::Scheduled), date_value(scheduled))],
        ));
        r
    }

    /// The change that sets the priority of the task at `path`.
    pub fn priority_changes(path: &Path, priority: Option<Priority>) -> (r: Vec<Change>)
        ensures
            changes_view(r@) == under(
                strings_view(path.keys@),
                seq![(key_name(Key::Priority), priority_value(priority))],
            ),
    {
        let r = single(path, Key::Priority, priority_stored(priority));
        assert(changes_view(r@) =~= under(
            strings_view(path.keys@),
            seq![(key_name(Key::Priority), priority_value(priority))],
        ));
        r
    }

    /// The changes that complete the task at `path` at `at`.
    pub fn complete_changes_at(path: &Path, at: DateTime) -> (r: Vec<Change>)
        ensures
            changes_view(r@) == under(strings_view(path.keys@), complete_writes(at)),
    {
        let mut out: Vec<Change> = Vec::new();
        set(&mut out, path, Key::End, date_stored(Some(at)));
        set(&mut out, path, Key::Start, date_stored(None));
        set(&mut out, path, Key::Status, status_stored(Status::Completed));
        assert(changes_view(out@) =~= under(strings_view(path.keys@), complete_writes(at)));
        out
    }

    /// The changes that complete the task at `path` now.
    pub fn complete_changes(path: &Path) -> (r: Vec<Change>)
        ensures
            exists|at: DateTime| changes_view(r@) == under(strings_view(path.keys@), complete_writes(at)),
    {
        Task::complete_changes_at(path, now())
    }

    /// The changes that delete the task at `path` at `at`.
    pub fn delete_changes_at(path: &Path, at: DateTime) -> (r: Vec<Change>)
        ensures
            changes_view(r@) == under(strings_view(path.keys@), delete_writes(at)),
    {
        let mut out: Vec<Change> = Vec::new();
        set(&mut out, path, Key::End, date_stored(Some(at)));
        set(&mut out, path, Key::Status, status_stored(Status::Deleted));
        assert(changes_view(out@) =~= under(strings_view(path.keys@), delete_writes(at)));
        out
    }

    /// The changes that delete the task at `path` now.
    pub fn delete_changes(path: &Path) -> (r: Vec<Change>)
        ensures
            exists|at: DateTime| changes_view(r@) == under(strings_view(path.keys@), delete_writes(at)),
    {
        Task::delete_changes_at(path, now())
    }

    /// The changes that bring the task, stored at `path`, back to pending:
    /// none unless it is completed or deleted.
    pub fn restore_changes(&self, path: &Path) -> (r: Vec<Change>)
        ensures
            changes_view(r@) == under(strings_view(path.keys@), restore_writes(self@.status)),
    {
        match self.status {
            Status::Pending | Status::Waiting | Status::Recurring => {
                let r: Vec<Change> = Vec::new();
                assert(changes_view(r@) =~= under(strings_view(path.keys@), restore_writes(self@.status)));
                r
            },
            Status::Completed | Status::Deleted => {
                let r = single(path, Key::Status, status_stored(Status::Pending));
                assert(changes_view(r@) =~= under(strings_view(path.keys@), restore_writes(self@.status)));
                r
            },
        }
    }

    /// The changes that start the task, stored at `path`, at `at`: its tags
    /// without `next`, and the start time.
    pub fn activate_changes_at(&self, path: &Path, at: DateTime) -> (r: Vec<Change>)
        ensures
            changes_view(r@) == under(strings_view(path.keys@), activate_writes(self@.tags, at)),
    {
        let mut started = self.clone();
        started.activate_at(at);
        let mut out: Vec<Change> = Vec::new();
        set(&mut out, path, Key::Tags, texts_stored(clone_strings(&started.tags)));
        set(&mut out, path, Key::Start, date_stored(Some(at)));
        assert(changes_view(out@) =~= under(strings_view(path.keys@), activate_writes(self@.tags, at)));
        out
    }

    /// The changes that start the task, stored at `path`, now.
    pub fn activate_changes(&self, path: &Path) -> (r: Vec<Change>)
        ensures
            exists|at: DateTime|
                changes_view(r@) == under(strings_view(path.keys@), activate_writes(self@.tags, at)),
    {
        self.activate_changes_at(path, now())
    }

    /// The change that stops the task at `path`.
    pub fn deactivate_changes(path: &Path) -> (r: Vec<Change>)
        ensures
            changes_view(r@) == under(
                strings_view(path.keys@),
                seq![(key_name(Key::Start), date_value(None))],
            ),
    {
        let r = single(path, Key::Start, date_stored(None));
        assert(changes_view(r@) =~= under(
            strings_view(path.keys@),
            seq![(key_name(Key::Start), date_value(None))],
        ));
        r
    }
}

} // verus!

verus! {

// ------------------------------------------------------------------
//  Reading back what was written
// ------------------------------------------------------------------

/// The value a task's field is stored as.
pub open spec fn stored_field(t: TaskModel, k: Key) -> StoredModel {
    match k {
        Key::Status => status_value(t.status),
        Key::Entry => date_value(Some(t.entry)),
        Key::Description => StoredModel::Text(t.description),
        Key::Notes => StoredModel::Text(t.notes),
        Key::Project => texts_value(t.project),
        Key::Tags => texts_value(t.tags),
        Key::Start => date_value(t.start),
        Key::End => date_value(t.end),
        Key::Wait => date_value(t.wait),
        Key::Until => date_value(t.until),
        Key::Scheduled => date_value(t.scheduled),
        Key::Due => date_value(t.due),
        Key::Priority => priority_value(t.priority),
    }
}

/// Every field of a task's map, in the order they are read.
pub open spec fn all_keys() -> Seq<Key> {
    seq![
        Key::Status,
        Key::Entry,
        Key::Description,
        Key::Notes,
        Key::Project,
        Key::Tags,
        Key::Start,
        Key::End,
        Key::Wait,
        Key::Until,
        Key::Scheduled,
        Key::Due,
        Key::Priority,
    ]
}

/// A task's map with every field written.
pub open spec fn record_of(t: TaskModel) -> Seq<(Seq<char>, StoredModel)> {
    all_keys().map_values(|k: Key| (key_name(k), stored_field(t, k)))
}

/// An optional time `chrono` can represent (or none).
pub open spec fn date_ok(d: Option<DateTime>) -> bool {
    match d {
        Some(x) => utc_in_range(x.0),
        None => true,
    }
}

/// A task the stored form holds in full: it has no recurrence, parent,
/// dependencies or user-defined attributes, and `chrono` can represent each
/// of its times.
pub open spec fn storable(t: TaskModel) -> bool {
    &&& t.recur is None
    &&& t.parent is None
    &&& t.depends.len() == 0
    &&& t.udas.len() == 0
    &&& utc_in_range(t.entry.0)
    &&& date_ok(t.start)
    &&& date_ok(t.end)
    &&& date_ok(t.wait)
    &&& date_ok(t.until)
    &&& date_ok(t.scheduled)
    &&& date_ok(t.due)
}

/// A map's entries after setting `key` to `v`: the first entry with that
/// key takes the value, or a new entry comes last.
pub open spec fn with_field(es: Seq<(Seq<char>, StoredModel)>, key: Seq<char>, v: StoredModel) -> Seq<
    (Seq<char>, StoredModel),
>
    decreases es.len(),
{
    if es.len() == 0 {
        seq![(key, v)]
    } else if es[0].0 == key {
        es.update(0, (key, v))
    } else {
        seq![es[0]] + with_field(es.drop_first(), key, v)
    }
}

/// A map's entries after a list of writes, in order.
pub open spec fn with_fields(es: Seq<(Seq<char>, StoredModel)>, ws: Seq<(Seq<char>, StoredModel)>) -> Seq<
    (Seq<char>, StoredModel),
>
    decreases ws.len(),
{
    if ws.len() == 0 {
        es
    } else {
        with_field(with_fields(es, ws.drop_last()), ws.last().0, ws.last().1)
    }
}

/// The value the last of a list of writes gives `key`, if any writes it.
pub open spec fn last_write(ws: Seq<(Seq<char>, StoredModel)>, key: Seq<char>) -> Option<StoredModel>
    decreases ws.len(),
{
    if ws.len() == 0 {
        None
    } else if ws.last().0 == key {
        Some(ws.last().1)
    } else {
        last_write(ws.drop_last(), key)
    }
}

/// The writes of one edit of task `t`. The stored form holds no
/// recurrence, so setting it writes nothing.
pub open spec fn edit_writes(t: TaskModel, c: super::TaskChange) -> Seq<(Seq<char>, StoredModel)> {
    match c {
        super::TaskChange::SetDescription(d) => seq![(key_name(Key::Description), StoredModel::Text(d@))],
        super::TaskChange::SetProject(p) => seq![(key_name(Key::Project), texts_value(strings_view(p@)))],
        super::TaskChange::SetTags(g) => seq![(key_name(Key::Tags), texts_value(strings_view(g@)))],
        super::TaskChange::SetPriority(p) => seq![(key_name(Key::Priority), priority_value(p))],
        super::TaskChange::SetNotes(n) => seq![(key_name(Key::Notes), StoredModel::Text(n@))],
        super::TaskChange::SetDue(d) => seq![(key_name(Key::Due), date_value(d))],
        super::TaskChange::SetScheduled(d) => seq![(key_name(Key::Scheduled), date_value(d))],
        super::TaskChange::SetRecur(_) => seq![],
        super::TaskChange::Complete(at) => complete_writes(at),
        super::TaskChange::Delete(at) => delete_writes(at),
        super::TaskChange::Restore => restore_writes(t.status),
        super::TaskChange::Activate(at) => activate_writes(t.tags, at),
        super::TaskChange::Deactivate => seq![(key_name(Key::Start), date_value(None))],
    }
}

/// The times an edit writes are ones `chrono` can represent.
pub open spec fn edit_dates_ok(c: super::TaskChange) -> bool {
    match c {
        super::TaskChange::SetDue(d) => date_ok(d),
        super::TaskChange::SetScheduled(d) => date_ok(d),
        super::TaskChange::Complete(at) => utc_in_range(at.0),
        super::TaskChange::Delete(at) => utc_in_range(at.0),
        super::TaskChange::Activate(at) => utc_in_range(at.0),
        _ => true,
    }
}

proof fn lemma_keys_distinct()
    ensures
        forall|a: Key, b: Key| a != b ==> #[trigger] key_name(a) != #[trigger] key_name(b),
{
    assert forall|a: Key, b: Key| a != b implies #[trigger] key_name(a) != #[trigger] key_name(b) by {
        assert(key_name(a).len() != key_name(b).len() || key_name(a)[0] != key_name(b)[0]);
    }
}

proof fn lemma_names_distinct()
    ensures
        forall|s: Status| status_of_name(#[trigger] status_name(s)) == Some(s),
        forall|p: Priority| priority_of_letter(#[trigger] priority_letter(p)) == Some(p),
{
    assert forall|s: Status| status_of_name(#[trigger] status_name(s)) == Some(s) by {
        assert forall|s2: Status| s2 != s implies status_name(s2) != status_name(s) by {
            assert(status_name(s2)[0] != status_name(s)[0]);
        }
    }
    assert forall|p: Priority| priority_of_letter(#[trigger] priority_letter(p)) == Some(p) by {
        assert forall|p2: Priority| p2 != p implies priority_letter(p2) != priority_letter(p) by {
            assert(priority_letter(p2)[0] != priority_letter(p)[0]);
        }
    }
}

proof fn lemma_decoded_quoted(n: Seq<char>)
    requires
        plain_json(n),
    ensures
        decoded(quoted(n)) == Some(n),
{
    let q = quoted(n);
    assert(q.subrange(1, q.len() - 1) =~= n);
}

proof fn lemma_lookup_keyed(ks: Seq<Key>, t: TaskModel, k: Key)
    requires
        ks.contains(k),
    ensures
        lookup(ks.map_values(|j: Key| (key_name(j), stored_field(t, j))), key_name(k)) == Some(
            stored_field(t, k),
        ),
    decreases ks.len(),
{
    lemma_keys_distinct();
    let es = ks.map_values(|j: Key| (key_name(j), stored_field(t, j)));
    if ks[0] != k {
        let i = choose|i: int| 0 <= i < ks.len() && ks[i] == k;
        assert(ks.drop_first()[i - 1] == k);
        assert(es.drop_first() =~= ks.drop_first().map_values(|j: Key| (key_name(j), stored_field(t, j))));
        lemma_lookup_keyed(ks.drop_first(), t, k);
    }
}

proof fn lemma_lookup_record(t: TaskModel)
    ensures
        forall|k: Key| #[trigger] lookup(record_of(t), key_name(k)) == Some(stored_field(t, k)),
{
    assert forall|k: Key| #[trigger] lookup(record_of(t), key_name(k)) == Some(stored_field(t, k)) by {
        let ks = all_keys();
        let i: int = match k {
            Key::Status => 0,
            Key::Entry => 1,
            Key::Description => 2,
            Key::Notes => 3,
            Key::Project => 4,
            Key::Tags => 5,
            Key::Start => 6,
            Key::End => 7,
            Key::Wait => 8,
            Key::Until => 9,
            Key::Scheduled => 10,
            Key::Due => 11,
            Key::Priority => 12,
        };
        assert(ks[i] == k);
        lemma_lookup_keyed(ks, t, k);
    }
}

proof fn lemma_lookup_with_field(es: Seq<(Seq<char>, StoredModel)>, key: Seq<char>, v: StoredModel, k2: Seq<char>)
    ensures
        lookup(with_field(es, key, v), k2) == (if k2 == key {
            Some(v)
        } else {
            lookup(es, k2)
        }),
    decreases es.len(),
{
    reveal_with_fuel(lookup, 2);
    if es.len() == 0 {
        assert(seq![(key, v)].drop_first() =~= Seq::<(Seq<char>, StoredModel)>::empty());
    } else if es[0].0 == key {
        assert(es.update(0, (key, v)).drop_first() =~= es.drop_first());
    } else {
        let rest = with_field(es.drop_first(), key, v);
        assert((seq![es[0]] + rest).drop_first() =~= rest);
        lemma_lookup_with_field(es.drop_first(), key, v, k2);
    }
}

proof fn lemma_lookup_with_fields(es: Seq<(Seq<char>, StoredModel)>, ws: Seq<(Seq<char>, StoredModel)>, k2: Seq<char>)
    ensures
        lookup(with_fields(es, ws), k2) == (match last_write(ws, k2) {
            Some(v) => Some(v),
            None => lookup(es, k2),
        }),
    decreases ws.len(),
{
    if ws.len() > 0 {
        lemma_lookup_with_fields(es, ws.drop_last(), k2);
        lemma_lookup_with_field(with_fields(es, ws.drop_last()), ws.last().0, ws.last().1, k2);
    }
}

proof fn lemma_texts_read_back(es: Seq<(Seq<char>, StoredModel)>, k: Key, v: Seq<Seq<char>>)
    requires
        lookup(es, key_name(k)) == Some(texts_value(v)),
    ensures
        texts_read(es, k) == Ok::<Seq<Seq<char>>, ReadError>(v),
{
    let items = v.map_values(|s: Seq<char>| Some(s));
    assert(items.map_values(|o: Option<Seq<char>>| o.unwrap()) =~= v);
}

/// A map whose every field holds what `t` stores there reads as `t`.
proof fn lemma_read_stored(es: Seq<(Seq<char>, StoredModel)>, t: TaskModel)
    requires
        storable(t),
        forall|k: Key| #[trigger] lookup(es, key_name(k)) == Some(stored_field(t, k)),
    ensures
        read_fields(es, t.id) == Some(Ok::<TaskModel, ReadError>(t)),
{
    lemma_names_plain();
    lemma_names_distinct();
    lemma_decoded_quoted(status_name(t.status));
    assert(lookup(es, key_name(Key::Status)) == Some(stored_field(t, Key::Status)));
    assert(lookup(es, key_name(Key::Entry)) == Some(stored_field(t, Key::Entry)));
    assert(lookup(es, key_name(Key::Start)) == Some(stored_field(t, Key::Start)));
    assert(lookup(es, key_name(Key::End)) == Some(stored_field(t, Key::End)));
    assert(lookup(es, key_name(Key::Wait)) == Some(stored_field(t, Key::Wait)));
    assert(lookup(es, key_name(Key::Until)) == Some(stored_field(t, Key::Until)));
    assert(lookup(es, key_name(Key::Scheduled)) == Some(stored_field(t, Key::Scheduled)));
    assert(lookup(es, key_name(Key::Due)) == Some(stored_field(t, Key::Due)));
    assert(lookup(es, key_name(Key::Description)) == Some(stored_field(t, Key::Description)));
    assert(lookup(es, key_name(Key::Notes)) == Some(stored_field(t, Key::Notes)));
    assert(lookup(es, key_name(Key::Priority)) == Some(stored_field(t, Key::Priority)));
    lemma_texts_read_back(es, Key::Project, t.project);
    lemma_texts_read_back(es, Key::Tags, t.tags);
    match t.priority {
        Some(p) => lemma_decoded_quoted(priority_letter(p)),
        None => {},
    }
    let r = read_fields(es, t.id);
    assert(r is Some);
    assert(r.unwrap() is Ok);
    assert(r.unwrap()->Ok_0 =~= t);
}

/// Law: a task the stored form holds in full, written with every field,
/// reads back as itself.
pub proof fn law_read_written(t: TaskModel)
    requires
        storable(t),
    ensures
        read_fields(record_of(t), t.id) == Some(Ok::<TaskModel, ReadError>(t)),
{
    lemma_lookup_record(t);
    lemma_read_stored(record_of(t), t);
}

/// Law: the fields `create` writes, set in an empty map, read back as a
/// fresh pending task entered at the second clock reading.
pub proof fn law_create_reads_fresh(id: Id, first: DateTime, last: DateTime)
    requires
        utc_in_range(last.0),
    ensures
        read_fields(with_fields(seq![], create_writes(first, last)), id) == Some(
            Ok::<TaskModel, ReadError>(TaskModel::fresh(id, last)),
        ),
{
    let ws = create_writes(first, last);
    let t = TaskModel::fresh(id, last);
    lemma_keys_distinct();
    assert forall|k: Key| #[trigger] lookup(with_fields(seq![], ws), key_name(k)) == Some(stored_field(t, k)) by {
        lemma_lookup_with_fields(seq![], ws, key_name(k));
        reveal_with_fuel(last_write, 16);
        assert(texts_value(seq![]) == texts_value(t.project));
    }
    lemma_read_stored(with_fields(seq![], ws), t);
}

/// After the writes of an edit, a field of the task's map holds what the
/// edited task stores there.
proof fn lemma_edit_field(t: TaskModel, c: super::TaskChange, k: Key)
    requires
        !(c is SetRecur),
    ensures
        lookup(with_fields(record_of(t), edit_writes(t, c)), key_name(k)) == Some(
            stored_field(super::changed(t, c), k),
        ),
{
    lemma_keys_distinct();
    lemma_lookup_record(t);
    let ws = edit_writes(t, c);
    lemma_lookup_with_fields(record_of(t), ws, key_name(k));
    assert(lookup(record_of(t), key_name(k)) == Some(stored_field(t, k)));
    match c {
        super::TaskChange::Complete(at) => {
            reveal_with_fuel(last_write, 4);
        },
        super::TaskChange::Delete(at) => {
            reveal_with_fuel(last_write, 3);
        },
        super::TaskChange::Activate(at) => {
            reveal_with_fuel(last_write, 3);
        },
        super::TaskChange::Restore => {
            reveal_with_fuel(last_write, 2);
        },
        _ => {
            reveal_with_fuel(last_write, 2);
        },
    }
}

/// Law: the writes of an edit, set in a task's map, read back as the task
/// that the same edit of a `Task` gives (every edit but setting the
/// recurrence, which the stored form does not hold).
pub proof fn law_edit_reads_back(t: TaskModel, c: super::TaskChange)
    requires
        storable(t),
        !(c is SetRecur),
        edit_dates_ok(c),
    ensures
        read_fields(with_fields(record_of(t), edit_writes(t, c)), t.id) == Some(
            Ok::<TaskModel, ReadError>(super::changed(t, c)),
        ),
{
    let ws = edit_writes(t, c);
    let t2 = super::changed(t, c);
    assert forall|k: Key| #[trigger] lookup(with_fields(record_of(t), ws), key_name(k)) == Some(stored_field(t2, k)) by {
        lemma_edit_field(t, c, k);
    }
    lemma_read_stored(with_fields(record_of(t), ws), t2);
}

} // verus!
