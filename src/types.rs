use vstd::prelude::*;
use crate::error::Error;
use crate::json::{
    is_json, json_text_of, lists_members, members_of, missing_member_error, parse_json_text,
    parse_members, parse_value,
};

verus! {

/// An event as the store hands it out.
#[derive(Debug, Clone)]
pub struct CloudEvent {
    pub id: String,
    pub source: String,
    pub event_type: String,
    pub subject: String,
    pub time: Option<String>,
    pub data: Option<serde_json::Value>,
    pub specversion: String,
    pub datacontenttype: Option<String>,
}

/// What an event says, as plain text; of the payload only whether there is one.
pub struct EventView {
    pub id: Seq<char>,
    pub source: Seq<char>,
    pub event_type: Seq<char>,
    pub subject: Seq<char>,
    pub time: Option<Seq<char>>,
    pub has_data: bool,
    pub specversion: Seq<char>,
    pub datacontenttype: Option<Seq<char>>,
}

pub open spec fn opt_view(o: Option<String>) -> Option<Seq<char>> {
    match o {
        Some(s) => Some(s@),
        None => None,
    }
}

impl CloudEvent {
    pub open spec fn view(&self) -> EventView {
        EventView {
            id: self.id@,
            source: self.source@,
            event_type: self.event_type@,
            subject: self.subject@,
            time: opt_view(self.time),
            has_data: self.data is Some,
            specversion: self.specversion@,
            datacontenttype: opt_view(self.datacontenttype),
        }
    }
}

/// An event to be appended to the store.
#[derive(Debug, Clone)]
pub struct CommitEvent {
    pub source: String,
    pub subject: String,
    pub event_type: String,
    pub data: serde_json::Value,
    pub options: Option<CommitEventOptions>,
}

/// How one committed event is to be stored.
#[derive(Debug, Clone)]
pub struct CommitEventOptions {
    pub store_data_as_reference: Option<bool>,
}

/// A condition that the store checks before it commits.
#[derive(Debug, Clone)]
pub struct Precondition {
    pub precondition_type: String,
    pub payload: serde_json::Value,
}

/// Where a stream of events starts and what it keeps.
#[derive(Debug, Clone)]
pub struct StreamOptions {
    pub lower_bound: Option<String>,
    pub include_lower_bound_event: Option<bool>,
    pub latest_by_event_type: Option<String>,
}

impl Default for StreamOptions {
    fn default() -> (r: StreamOptions)
        ensures
            r.lower_bound is None,
            r.include_lower_bound_event is None,
            r.latest_by_event_type is None,
    {
        StreamOptions { lower_bound: None, include_lower_bound_event: None, latest_by_event_type: None }
    }
}

/// The specification version given to an event that does not state one.
pub fn default_spec_version() -> (r: String)
    ensures
        r@ == "1.0"@,
{
    String::from_str("1.0")
}

/// A member that must hold a JSON string.
pub open spec fn required_text(m: Map<Seq<char>, Seq<char>>, k: Seq<char>) -> Option<Seq<char>> {
    if m.contains_key(k) {
        json_text_of(m[k])
    } else {
        None
    }
}

/// A member that may be absent or null, and else holds a JSON string:
/// `None` where it holds anything else.
pub open spec fn optional_text(m: Map<Seq<char>, Seq<char>>, k: Seq<char>) -> Option<
    Option<Seq<char>>,
> {
    if !m.contains_key(k) || m[k] == "null"@ {
        Some(None)
    } else {
        match json_text_of(m[k]) {
            Some(t) => Some(Some(t)),
            None => None,
        }
    }
}

/// The specification version: absent, it is "1.0"; present, a JSON string.
pub open spec fn spec_version_member(m: Map<Seq<char>, Seq<char>>) -> Option<Seq<char>> {
    if m.contains_key("specversion"@) {
        json_text_of(m["specversion"@])
    } else {
        Some("1.0"@)
    }
}

/// The payload: absent or null, there is none; else it must be JSON.
pub open spec fn data_member(m: Map<Seq<char>, Seq<char>>) -> Option<bool> {
    if !m.contains_key("data"@) || m["data"@] == "null"@ {
        Some(false)
    } else if is_json(m["data"@]) {
        Some(true)
    } else {
        None
    }
}

/// The event that an object's members describe, or `None` where one is
/// missing or of the wrong kind.
pub open spec fn event_of_members(m: Map<Seq<char>, Seq<char>>) -> Option<EventView> {
    let id = required_text(m, "id"@);
    let source = required_text(m, "source"@);
    let ty = required_text(m, "type"@);
    let subject = required_text(m, "subject"@);
    let time = optional_text(m, "time"@);
    let data = data_member(m);
    let version = spec_version_member(m);
    let ct = optional_text(m, "datacontenttype"@);
    if id is Some && source is Some && ty is Some && subject is Some && time is Some
        && data is Some && version is Some && ct is Some {
        Some(
            EventView {
                id: id->0,
                source: source->0,
                event_type: ty->0,
                subject: subject->0,
                time: time->0,
                has_data: data->0,
                specversion: version->0,
                datacontenttype: ct->0,
            },
        )
    } else {
        None
    }
}

/// The event that a JSON text describes, or `None` where it describes none.
pub open spec fn event_of(t: Seq<char>) -> Option<EventView> {
    match members_of(t) {
        Some(m) => event_of_members(m),
        None => None,
    }
}

/// Where the member named `key` stands among the parsed members.
fn find_member(ms: &Vec<(String, String)>, key: &str) -> (r: Option<usize>)
    ensures
        match r {
            Some(i) => i < ms@.len() && ms@[i as int].0@ == key@,
            None => forall|i: int| 0 <= i < ms@.len() ==> #[trigger] ms@[i].0@ != key@,
        },
{
    let k = String::from_str(key);
    let mut i: usize = 0;
    while i < ms.len()
        invariant
            i <= ms@.len(),
            k@ == key@,
            forall|j: int| 0 <= j < i ==> #[trigger] ms@[j].0@ != key@,
        decreases ms@.len() - i,
    {
        if ms[i].0 == k {
            return Some(i);
        }
        i = i + 1;
    }
    None
}


/// Where the member named `key` is, if anywhere, in the map that `ms` lists.
fn lookup(ms: &Vec<(String, String)>, key: &str, Ghost(m): Ghost<Map<Seq<char>, Seq<char>>>) -> (r:
    Option<usize>)
    requires
        lists_members(ms@, m),
    ensures
        match r {
            Some(i) => i < ms@.len() && m.contains_key(key@) && m[key@] == ms@[i as int].1@,
            None => !m.contains_key(key@),
        },
{
    let r = find_member(ms, key);
    proof {
        if r is None && m.contains_key(key@) {
            let i = choose|i: int| 0 <= i < ms@.len() && ms@[i].0@ == key@;
            assert(ms@[i].0@ != key@);
        }
    }
    r
}

fn required_member(ms: &Vec<(String, String)>, key: &str, Ghost(m): Ghost<
    Map<Seq<char>, Seq<char>>,
>) -> (r: Result<String, Error>)
    requires
        lists_members(ms@, m),
    ensures
        r is Ok <==> required_text(m, key@) is Some,
        r matches Ok(t) ==> required_text(m, key@) == Some(t@),
        r matches Err(e) ==> e is JsonError,
{
    match lookup(ms, key, Ghost(m)) {
        Some(i) => match parse_json_text(ms[i].1.as_str()) {
            Ok(t) => Ok(t),
            Err(e) => Err(Error::JsonError(e)),
        },
        None => Err(Error::JsonError(missing_member_error(key))),
    }
}

fn optional_member(ms: &Vec<(String, String)>, key: &str, Ghost(m): Ghost<
    Map<Seq<char>, Seq<char>>,
>) -> (r: Result<Option<String>, Error>)
    requires
        lists_members(ms@, m),
    ensures
        r is Ok <==> optional_text(m, key@) is Some,
        r matches Ok(t) ==> optional_text(m, key@) == Some(opt_view(t)),
        r matches Err(e) ==> e is JsonError,
{
    let null = String::from_str("null");
    match lookup(ms, key, Ghost(m)) {
        Some(i) => {
            if ms[i].1 == null {
                Ok(None)
            } else {
                match parse_json_text(ms[i].1.as_str()) {
                    Ok(t) => Ok(Some(t)),
                    Err(e) => Err(Error::JsonError(e)),
                }
            }
        },
        None => Ok(None),
    }
}

/// Decodes one JSON text into an event.
pub fn decode_event(t: &str) -> (r: Result<CloudEvent, Error>)
    ensures
        r is Ok <==> event_of(t@) is Some,
        r matches Ok(e) ==> event_of(t@) == Some(e.view()),
        r matches Err(e) ==> e is JsonError,
{
    let ms = match parse_members(t) {
        Ok(ms) => ms,
        Err(e) => return Err(Error::JsonError(e)),
    };
    let ghost m = members_of(t@)->0;
    let id = required_member(&ms, "id", Ghost(m))?;
    let source = required_member(&ms, "source", Ghost(m))?;
    let event_type = required_member(&ms, "type", Ghost(m))?;
    let subject = required_member(&ms, "subject", Ghost(m))?;
    let time = optional_member(&ms, "time", Ghost(m))?;
    let data = match lookup(&ms, "data", Ghost(m)) {
        Some(i) => {
            if ms[i].1 == String::from_str("null") {
                None
            } else {
                match parse_value(ms[i].1.as_str()) {
                    Ok(v) => Some(v),
                    Err(e) => return Err(Error::JsonError(e)),
                }
            }
        },
        None => None,
    };
    let specversion = match lookup(&ms, "specversion", Ghost(m)) {
        Some(i) => match parse_json_text(ms[i].1.as_str()) {
            Ok(v) => v,
            Err(e) => return Err(Error::JsonError(e)),
        },
        None => default_spec_version(),
    };
    let datacontenttype = optional_member(&ms, "datacontenttype", Ghost(m))?;
    let e = CloudEvent { id, source, event_type, subject, time, data, specversion, datacontenttype };
    assert(event_of_members(m) == Some(e.view()));
    Ok(e)
}

} // verus!
