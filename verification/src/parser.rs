//! Response parsing: framing removal and decoding of the daemon's JSON
//! payloads into typed records.

use vstd::prelude::*;

use crate::json::{json_of, parse_json, Json};
use crate::text::{find_first, find_sub, str_eq};

verus! {

/// One entity in a snapshot listing.
#[derive(Debug, Clone, PartialEq, Eq)]
pub struct ContainerInfo {
    pub id: String,
    pub command: String,
    pub names: Vec<String>,
    pub created: u64,
    pub image: String,
    pub state: String,
}

/// Mathematical image of a `ContainerInfo`.
pub ghost struct ContainerInfoV {
    pub id: Seq<char>,
    pub command: Seq<char>,
    pub names: Seq<Seq<char>>,
    pub created: u64,
    pub image: Seq<char>,
    pub state: Seq<char>,
}

impl View for ContainerInfo {
    type V = ContainerInfoV;

    open spec fn view(&self) -> ContainerInfoV {
        ContainerInfoV {
            id: self.id@,
            command: self.command@,
            names: self.names@.map_values(|s: String| s@),
            created: self.created,
            image: self.image@,
            state: self.state@,
        }
    }
}

/// One raw lifecycle observation from the event stream.
#[derive(Debug, PartialEq, Eq)]
pub struct Events {
    pub status: String,
    pub id: String,
}

/// Mathematical image of an `Events` record.
pub ghost struct EventsV {
    pub status: Seq<char>,
    pub id: Seq<char>,
}

impl View for Events {
    type V = EventsV;

    open spec fn view(&self) -> EventsV {
        EventsV { status: self.status@, id: self.id@ }
    }
}

/// Why a payload could not be decoded: the text is not well-formed JSON,
/// or it is JSON of the wrong shape for the expected record.
#[derive(Debug, Clone, Copy, PartialEq, Eq, Structural)]
pub enum ParseError {
    Syntax,
    Shape,
}

/// The blank-line sequence that ends the protocol headers.
pub open spec fn framing_terminator() -> Seq<char> {
    "\r\n\r\n"@
}

/// Everything after the first header terminator, or the text unchanged
/// when no terminator occurs in it.
pub open spec fn spec_strip_framing(s: Seq<char>) -> Seq<char> {
    match find_sub(s, framing_terminator()) {
        Some(i) => s.subrange(i + framing_terminator().len(), s.len() as int),
        None => s,
    }
}

/// Splits the response at the first blank line and keeps what follows;
/// a response without the terminator is handed back unchanged.
pub fn remove_response_headers(response: String) -> (r: String)
    ensures
        r@ == spec_strip_framing(response@),
{
    proof {
        reveal_strlit("\r\n\r\n");
    }
    match find_first(response.as_str(), "\r\n\r\n") {
        Some(i) => {
            proof {
                crate::text::lemma_find_sub_first(response@, "\r\n\r\n"@);
            }
            let n = response.as_str().unicode_len();
            let tail = response.as_str().substring_char(i + 4, n);
            String::from_str(tail)
        },
        None => response,
    }
}

/// A decimal digit, by code point.
pub open spec fn is_digit(c: char) -> bool {
    '0' as u32 <= c as u32 && c as u32 <= '9' as u32
}

/// The three-digit status code after the first space of the status line,
/// when the response starts with one; `None` on any other text. Commands
/// use this to surface a daemon-side rejection instead of treating every
/// exchanged response as success.
pub open spec fn spec_response_status(s: Seq<char>) -> Option<u16> {
    match find_sub(s, " "@) {
        Some(i) => {
            if i + 4 <= s.len() && is_digit(s[i + 1]) && is_digit(s[i + 2]) && is_digit(
                s[i + 3],
            ) && (i + 4 == s.len() || s[i + 4] == ' ' || s[i + 4] == '\r') {
                Some(
                    (((s[i + 1] as u32 - '0' as u32) * 100 + (s[i + 2] as u32 - '0' as u32) * 10
                        + (s[i + 3] as u32 - '0' as u32)) as u16),
                )
            } else {
                None
            }
        },
        None => None,
    }
}

/// Reads the status code out of a response's status line.
pub fn response_status(response: &str) -> (r: Option<u16>)
    ensures
        r == spec_response_status(response@),
{
    proof {
        reveal_strlit(" ");
    }
    let n = response.unicode_len();
    match find_first(response, " ") {
        Some(i) => {
            proof {
                crate::text::lemma_find_sub_first(response@, " "@);
            }
            if n - i < 4 {
                return None;
            }
            let d1 = response.get_char(i + 1);
            let d2 = response.get_char(i + 2);
            let d3 = response.get_char(i + 3);
            if !(d1 >= '0' && d1 <= '9' && d2 >= '0' && d2 <= '9' && d3 >= '0' && d3 <= '9') {
                return None;
            }
            if i + 4 < n {
                let after = response.get_char(i + 4);
                if !(after == ' ' || after == '\r') {
                    return None;
                }
            }
            let code: u32 = (d1 as u32 - '0' as u32) * 100 + (d2 as u32 - '0' as u32) * 10 + (d3
                as u32 - '0' as u32);
            proof {
                assert(code < 1000);
            }
            Some(code as u16)
        },
        None => None,
    }
}

/// The value of the first field named `key`, if any.
pub open spec fn lookup_field(fields: Seq<(String, Json)>, key: Seq<char>) -> Option<Json>
    decreases fields.len(),
{
    if fields.len() == 0 {
        None
    } else if fields[0].0@ == key {
        Some(fields[0].1)
    } else {
        lookup_field(fields.drop_first(), key)
    }
}

fn get_field<'a>(fields: &'a Vec<(String, Json)>, key: &str) -> (r: Option<&'a Json>)
    ensures
        match r {
            Some(j) => lookup_field(fields@, key@) == Some(*j),
            None => lookup_field(fields@, key@) is None,
        },
{
    let mut i: usize = 0;
    proof {
        assert(fields@.skip(0) =~= fields@);
    }
    while i < fields.len()
        invariant
            i <= fields@.len(),
            lookup_field(fields@, key@) == lookup_field(fields@.skip(i as int), key@),
        decreases fields@.len() - i,
    {
        proof {
            assert(fields@.skip(i as int)[0] == fields@[i as int]);
            assert(fields@.skip(i as int).drop_first() =~= fields@.skip(i as int + 1));
        }
        if str_eq(fields[i].0.as_str(), key) {
            return Some(&fields[i].1);
        }
        i += 1;
    }
    proof {
        assert(fields@.skip(fields@.len() as int) =~= Seq::<(String, Json)>::empty());
    }
    None
}

/// The text of a JSON string value; the empty sequence on any other value.
pub open spec fn json_str_content(j: Json) -> Seq<char> {
    match j {
        Json::Str(s) => s@,
        _ => Seq::empty(),
    }
}

/// The field named `key`, required to be a JSON string.
pub open spec fn spec_field_str(fields: Seq<(String, Json)>, key: Seq<char>) -> Option<Seq<char>> {
    match lookup_field(fields, key) {
        Some(Json::Str(s)) => Some(s@),
        _ => None,
    }
}

/// The field named `key`, required to be an unsigned JSON integer.
pub open spec fn spec_field_u64(fields: Seq<(String, Json)>, key: Seq<char>) -> Option<u64> {
    match lookup_field(fields, key) {
        Some(Json::UInt(u)) => Some(u),
        _ => None,
    }
}

/// The contents of an array whose elements must all be JSON strings.
pub open spec fn spec_str_seq(items: Seq<Json>) -> Option<Seq<Seq<char>>> {
    if forall|i: int| 0 <= i < items.len() ==> items[i] is Str {
        Some(items.map_values(|j: Json| json_str_content(j)))
    } else {
        None
    }
}

/// The field named `key`, required to be an array of JSON strings.
pub open spec fn spec_field_str_arr(fields: Seq<(String, Json)>, key: Seq<char>) -> Option<
    Seq<Seq<char>>,
> {
    match lookup_field(fields, key) {
        Some(Json::Arr(items)) => spec_str_seq(items@),
        _ => None,
    }
}

/// One snapshot object under the protocol's field-name mapping:
/// `Id`, `Command`, `Names`, `Created`, `Image`, `State`.
pub open spec fn spec_decode_container(j: Json) -> Option<ContainerInfoV> {
    match j {
        Json::Obj(fields) => {
            let id = spec_field_str(fields@, "Id"@);
            let command = spec_field_str(fields@, "Command"@);
            let names = spec_field_str_arr(fields@, "Names"@);
            let created = spec_field_u64(fields@, "Created"@);
            let image = spec_field_str(fields@, "Image"@);
            let state = spec_field_str(fields@, "State"@);
            if id is Some && command is Some && names is Some && created is Some && image is Some
                && state is Some {
                Some(
                    ContainerInfoV {
                        id: id.unwrap(),
                        command: command.unwrap(),
                        names: names.unwrap(),
                        created: created.unwrap(),
                        image: image.unwrap(),
                        state: state.unwrap(),
                    },
                )
            } else {
                None
            }
        },
        _ => None,
    }
}

/// A whole snapshot array: every element must decode, else nothing does.
pub open spec fn spec_decode_list(items: Seq<Json>) -> Option<Seq<ContainerInfoV>> {
    if forall|i: int| 0 <= i < items.len() ==> spec_decode_container(items[i]) is Some {
        Some(items.map_values(|j: Json| spec_decode_container(j).unwrap()))
    } else {
        None
    }
}

/// What `parse_event` returns on any line.
pub open spec fn spec_opt_str_field(fields: Seq<(String, Json)>, key: Seq<char>) -> Option<
    Seq<char>,
> {
    match lookup_field(fields, key) {
        None => Some(Seq::empty()),
        Some(Json::Str(s)) => Some(s@),
        Some(_) => None,
    }
}

/// The event record read from one stream line: a JSON object whose
/// `status` and `id` fields default to the empty string when absent.
pub open spec fn spec_parse_event(line: Seq<char>) -> Result<EventsV, ParseError> {
    match json_of(line) {
        None => Err(ParseError::Syntax),
        Some(j) => match j {
            Json::Obj(fields) => {
                let status = spec_opt_str_field(fields@, "status"@);
                let id = spec_opt_str_field(fields@, "id"@);
                if status is Some && id is Some {
                    Ok(EventsV { status: status.unwrap(), id: id.unwrap() })
                } else {
                    Err(ParseError::Shape)
                }
            },
            _ => Err(ParseError::Shape),
        },
    }
}

/// The snapshot list read from a raw response: framing stripped, then a
/// JSON array of snapshot objects.
pub open spec fn spec_parse_array(response: Seq<char>) -> Result<Seq<ContainerInfoV>, ParseError> {
    match json_of(spec_strip_framing(response)) {
        None => Err(ParseError::Syntax),
        Some(j) => match j {
            Json::Arr(items) => match spec_decode_list(items@) {
                Some(cs) => Ok(cs),
                None => Err(ParseError::Shape),
            },
            _ => Err(ParseError::Shape),
        },
    }
}

#[verifier::loop_isolation(false)]
fn decode_container(j: &Json) -> (r: Option<ContainerInfo>)
    ensures
        match r {
            Some(c) => spec_decode_container(*j) == Some(c@),
            None => spec_decode_container(*j) is None,
        },
{
    match j {
        Json::Obj(fields) => {
            let id = match get_field(fields, "Id") {
                Some(Json::Str(s)) => s.clone(),
                _ => { return None; },
            };
            let command = match get_field(fields, "Command") {
                Some(Json::Str(s)) => s.clone(),
                _ => { return None; },
            };
            let names: Vec<String> = match get_field(fields, "Names") {
                Some(Json::Arr(items)) => {
                    proof {
                        assert(lookup_field(fields@, "Names"@) == Some(Json::Arr(*items)));
                    }
                    let mut out: Vec<String> = Vec::new();
                    let mut k: usize = 0;
                    while k < items.len()
                        invariant
                            k <= items@.len(),
                            out@.len() == k,
                            forall|t: int| 0 <= t < k ==> items@[t] is Str,
                            forall|t: int|
                                0 <= t < k ==> out@[t]@ == json_str_content(items@[t]),
                        decreases items@.len() - k,
                    {
                        match &items[k] {
                            Json::Str(s) => { out.push(s.clone()); },
                            _ => {
                                proof {
                                    assert(0 <= k < items@.len() && !(items@[k as int] is Str));
                                }
                                return None;
                            },
                        }
                        k += 1;
                    }
                    proof {
                        assert(out@.map_values(|s: String| s@) =~= items@.map_values(
                            |jv: Json| json_str_content(jv),
                        ));
                    }
                    out
                },
                _ => { return None; },
            };
            let created = match get_field(fields, "Created") {
                Some(Json::UInt(u)) => *u,
                _ => { return None; },
            };
            let image = match get_field(fields, "Image") {
                Some(Json::Str(s)) => s.clone(),
                _ => { return None; },
            };
            let state = match get_field(fields, "State") {
                Some(Json::Str(s)) => s.clone(),
                _ => { return None; },
            };
            Some(ContainerInfo { id, command, names, created, image, state })
        },
        _ => None,
    }
}

/// Decodes one stream line into a raw event record. `Err(Syntax)` exactly
/// when the line is not well-formed JSON; `Err(Shape)` exactly when it is
/// JSON but not an object, or carries a non-string `status` or `id`.
pub fn parse_event(event_string: String) -> (r: Result<Events, ParseError>)
    ensures
        match r {
            Ok(e) => spec_parse_event(event_string@) == Ok::<EventsV, ParseError>(e@),
            Err(pe) => spec_parse_event(event_string@) == Err::<EventsV, ParseError>(pe),
        },
{
    match parse_json(event_string.as_str()) {
        None => Err(ParseError::Syntax),
        Some(doc) => match doc {
            Json::Obj(fields) => {
                let status = match get_field(&fields, "status") {
                    None => String::new(),
                    Some(Json::Str(s)) => s.clone(),
                    Some(_) => { return Err(ParseError::Shape); },
                };
                let id = match get_field(&fields, "id") {
                    None => String::new(),
                    Some(Json::Str(s)) => s.clone(),
                    Some(_) => { return Err(ParseError::Shape); },
                };
                Ok(Events { status, id })
            },
            _ => Err(ParseError::Shape),
        },
    }
}

/// Decodes a raw snapshot response: strips the framing, then reads a JSON
/// array of snapshot objects. `Err(Syntax)` exactly when the stripped body
/// is not well-formed JSON; `Err(Shape)` exactly when it is not an array
/// or some element is not a snapshot object.
#[verifier::loop_isolation(false)]
pub fn parse_array(response: String) -> (r: Result<Vec<ContainerInfo>, ParseError>)
    ensures
        match r {
            Ok(cs) => spec_parse_array(response@) == Ok::<_, ParseError>(
                cs@.map_values(|c: ContainerInfo| c@),
            ),
            Err(pe) => spec_parse_array(response@) == Err::<Seq<ContainerInfoV>, ParseError>(pe),
        },
{
    let body = remove_response_headers(response);
    match parse_json(body.as_str()) {
        None => Err(ParseError::Syntax),
        Some(doc) => match doc {
            Json::Arr(items) => {
                proof {
                    assert(json_of(spec_strip_framing(response@)) == Some(Json::Arr(items)));
                }
                let mut out: Vec<ContainerInfo> = Vec::new();
                let mut k: usize = 0;
                while k < items.len()
                    invariant
                        k <= items@.len(),
                        out@.len() == k,
                        forall|t: int|
                            0 <= t < k ==> #[trigger] spec_decode_container(items@[t]) is Some,
                        forall|t: int|
                            0 <= t < k ==> Some(#[trigger] out@[t]@) == spec_decode_container(
                                items@[t],
                            ),
                    decreases items@.len() - k,
                {
                    match decode_container(&items[k]) {
                        Some(c) => { out.push(c); },
                        None => {
                            proof {
                                assert(0 <= k < items@.len() && !(spec_decode_container(
                                    items@[k as int],
                                ) is Some));
                            }
                            return Err(ParseError::Shape);
                        },
                    }
                    k += 1;
                }
                proof {
                    assert(out@.map_values(|c: ContainerInfo| c@) =~= items@.map_values(
                        |jv: Json| spec_decode_container(jv).unwrap(),
                    ));
                }
                Ok(out)
            },
            _ => Err(ParseError::Shape),
        },
    }
}

/// Law: a decodable snapshot array decodes elementwise — one record per
/// array element, each the decoding of the element at the same position.
pub proof fn lemma_snapshot_decode_elementwise(items: Seq<Json>)
    requires
        spec_decode_list(items) is Some,
    ensures
        spec_decode_list(items).unwrap().len() == items.len(),
        forall|i: int|
            0 <= i < items.len() ==> Some(#[trigger] spec_decode_list(items).unwrap()[i])
                == spec_decode_container(items[i]),
{
}

/// The fields of a JSON object; empty on any other value.
pub open spec fn obj_fields(j: Json) -> Seq<(String, Json)> {
    match j {
        Json::Obj(fields) => fields@,
        _ => Seq::empty(),
    }
}

/// Law: a decoded snapshot record's fields are the source object's fields
/// under the protocol's name mapping.
pub proof fn lemma_container_fields(j: Json, c: ContainerInfoV)
    requires
        j is Obj,
        spec_decode_container(j) == Some(c),
    ensures
        Some(c.id) == spec_field_str(obj_fields(j), "Id"@),
        Some(c.command) == spec_field_str(obj_fields(j), "Command"@),
        Some(c.names) == spec_field_str_arr(obj_fields(j), "Names"@),
        Some(c.created) == spec_field_u64(obj_fields(j), "Created"@),
        Some(c.image) == spec_field_str(obj_fields(j), "Image"@),
        Some(c.state) == spec_field_str(obj_fields(j), "State"@),
{
}

/// Law: framing removal returns text without a terminator unchanged, so
/// on already-stripped input a second application changes nothing.
pub proof fn lemma_strip_framing_idempotent(s: Seq<char>)
    requires
        find_sub(s, framing_terminator()) is None,
    ensures
        spec_strip_framing(s) == s,
        spec_strip_framing(spec_strip_framing(s)) == spec_strip_framing(s),
{
}

} // verus!
