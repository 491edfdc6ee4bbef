//! The wire protocol: one JSON object per line whose single key names the
//! request, as `{"CreateWindow": ..}`, `{"Config": ..}` or `{"Takeover": ..}`.
use vstd::prelude::*;
use vstd::string::*;

use crate::json::{parse_json, parsed_json, render_json, rendered_json, Json};
use crate::text::{i128_of_text, int_text, lemma_int_text_round_trip, parse_i128, push_i128, starts_with};

verus! {

/// A request from one process to the running instance.
#[derive(Debug, PartialEq)]
pub enum Message {
    /// Open a window; the options are passed on as they came.
    CreateWindow(Json),
    /// A configuration change. The fields are those of the `Config` object,
    /// `window_id` (an integer or null, when present) among them.
    ConfigUpdate(Vec<(String, Json)>),
    /// Show `payload` in the window `window_id`.
    OverlayRequest { window_id: i128, payload: String },
}

/// Why a line was not a request.
#[derive(Debug, PartialEq, Eq, Clone, Copy)]
pub enum DecodeError {
    Malformed,
}

/// The value of the first field named `key`.
pub open spec fn field_named(fields: Seq<(String, Json)>, key: Seq<char>) -> Option<Json>
    decreases fields.len(),
{
    if fields.len() == 0 {
        None
    } else if fields[0].0@ == key {
        Some(fields[0].1)
    } else {
        field_named(fields.drop_first(), key)
    }
}

/// What a `window_id` value may be in a configuration change: null, or an
/// integer. `Some(None)` is null; `None` is anything else.
pub open spec fn optional_id(j: Json) -> Option<Option<i128>> {
    match j {
        Json::Null => Some(None),
        Json::Number(t) => match i128_of_text(t@) {
            Some(v) => Some(Some(v)),
            None => None,
        },
        _ => None,
    }
}

/// The target of a configuration change; absent and null both mean none.
/// `None` when the field holds something else than null or an integer.
pub open spec fn config_window_id(fields: Seq<(String, Json)>) -> Option<Option<i128>> {
    match field_named(fields, "window_id"@) {
        None => Some(None),
        Some(j) => optional_id(j),
    }
}

/// The integer of a required `window_id`.
pub open spec fn required_id(j: Option<Json>) -> Option<i128> {
    match j {
        Some(Json::Number(t)) => i128_of_text(t@),
        _ => None,
    }
}

/// The request that a JSON document stands for.
pub open spec fn message_of_json(j: Json) -> Result<Message, DecodeError> {
    match j {
        Json::Object(o) => if o@.len() != 1 {
            Err(DecodeError::Malformed)
        } else if o@[0].0@ == "CreateWindow"@ {
            Ok(Message::CreateWindow(o@[0].1))
        } else if o@[0].0@ == "Config"@ {
            match o@[0].1 {
                Json::Object(f) => if config_window_id(f@) is Some {
                    Ok(Message::ConfigUpdate(f))
                } else {
                    Err(DecodeError::Malformed)
                },
                _ => Err(DecodeError::Malformed),
            }
        } else if o@[0].0@ == "Takeover"@ {
            match o@[0].1 {
                Json::Object(f) => match (required_id(field_named(f@, "window_id"@)), field_named(f@, "msg"@)) {
                    (Some(w), Some(Json::Str(p))) => Ok(Message::OverlayRequest { window_id: w, payload: p }),
                    _ => Err(DecodeError::Malformed),
                },
                _ => Err(DecodeError::Malformed),
            }
        } else {
            Err(DecodeError::Malformed)
        },
        _ => Err(DecodeError::Malformed),
    }
}

/// The request that a line of text stands for.
pub open spec fn message_of_line(line: Seq<char>) -> Result<Message, DecodeError> {
    match parsed_json(line) {
        Some(j) => message_of_json(j),
        None => Err(DecodeError::Malformed),
    }
}

/// `j` is the document written for `m`: one field named after the request,
/// holding the request's fields in a fixed order.
pub open spec fn encodes(j: Json, m: Message) -> bool {
    match j {
        Json::Object(o) => o@.len() == 1 && match m {
            Message::CreateWindow(opts) => o@[0].0@ == "CreateWindow"@ && o@[0].1 == opts,
            Message::ConfigUpdate(f) => o@[0].0@ == "Config"@ && o@[0].1 == Json::Object(f),
            Message::OverlayRequest { window_id, payload } => o@[0].0@ == "Takeover"@ && match o@[0].1 {
                Json::Object(g) => g@.len() == 2 && g@[0].0@ == "window_id"@ && g@[1].0@ == "msg"@
                    && g@[1].1 == Json::Str(payload) && match g@[0].1 {
                        Json::Number(t) => t@ == int_text(window_id as int),
                        _ => false,
                    },
                _ => false,
            },
        },
        _ => false,
    }
}

impl Message {
    /// A request that the codec can carry: a configuration change's
    /// `window_id` is null or an integer.
    pub open spec fn wf(&self) -> bool {
        match self {
            Message::ConfigUpdate(f) => config_window_id(f@) is Some,
            _ => true,
        }
    }
}

/// Whether `s` is exactly `lit`.
fn is_text(s: &String, lit: &str) -> (r: bool)
    ensures
        r == (s@ == lit@),
{
    let r = s.as_str().unicode_len() == lit.unicode_len() && starts_with(s.as_str(), lit);
    proof {
        if r {
            assert(s@ =~= lit@);
        }
    }
    r
}

/// Index of the first field named `key`.
fn find_field(fields: &Vec<(String, Json)>, key: &str) -> (r: Option<usize>)
    ensures
        match r {
            Some(k) => k < fields@.len() && field_named(fields@, key@) == Some(fields@[k as int].1),
            None => field_named(fields@, key@) is None,
        },
{
    let mut i: usize = 0;
    assert(fields@.skip(0) =~= fields@);
    while i < fields.len()
        invariant
            i <= fields@.len(),
            field_named(fields@, key@) == field_named(fields@.skip(i as int), key@),
        decreases fields@.len() - i,
    {
        assert(fields@.skip(i as int).drop_first() =~= fields@.skip(i + 1));
        if is_text(&fields[i].0, key) {
            return Some(i);
        }
        i = i + 1;
    }
    None
}

/// The `window_id` of a configuration change's fields: `Some(None)` when it
/// is absent or null, `None` when it is neither null nor an `i128`.
pub fn window_id_of_config(f: &Vec<(String, Json)>) -> (r: Option<Option<i128>>)
    ensures
        r == config_window_id(f@),
{
    match find_field(f, "window_id") {
        None => Some(None),
        Some(k) => match &f[k].1 {
            Json::Null => Some(None),
            Json::Number(t) => match parse_i128(t.as_str()) {
                Some(v) => Some(Some(v)),
                None => None,
            },
            _ => None,
        },
    }
}

/// Reads the request out of a JSON document.
pub fn message_from_json(j: Json) -> (r: Result<Message, DecodeError>)
    ensures
        r == message_of_json(j),
{
    let mut o = match j {
        Json::Object(o) => o,
        _ => return Err(DecodeError::Malformed),
    };
    if o.len() != 1 {
        return Err(DecodeError::Malformed);
    }
    let ghost whole = o@;
    let (tag, body) = o.pop().unwrap();
    assert(whole[0] == (tag, body));
    if is_text(&tag, "CreateWindow") {
        return Ok(Message::CreateWindow(body));
    }
    let is_config = is_text(&tag, "Config");
    let is_takeover = is_text(&tag, "Takeover");
    if !is_config && !is_takeover {
        return Err(DecodeError::Malformed);
    }
    let mut f = match body {
        Json::Object(f) => f,
        _ => return Err(DecodeError::Malformed),
    };
    if is_config {
        if window_id_of_config(&f).is_some() {
            Ok(Message::ConfigUpdate(f))
        } else {
            Err(DecodeError::Malformed)
        }
    } else {
        let window_id = match find_field(&f, "window_id") {
            None => return Err(DecodeError::Malformed),
            Some(k) => match &f[k].1 {
                Json::Number(t) => match parse_i128(t.as_str()) {
                    Some(w) => w,
                    None => return Err(DecodeError::Malformed),
                },
                _ => return Err(DecodeError::Malformed),
            },
        };
        match find_field(&f, "msg") {
            None => Err(DecodeError::Malformed),
            Some(k) => {
                let ghost fs = f@;
                let (_, value) = f.swap_remove(k);
                assert(value == fs[k as int].1);
                match value {
                    Json::Str(payload) => Ok(Message::OverlayRequest { window_id, payload }),
                    _ => Err(DecodeError::Malformed),
                }
            },
        }
    }
}

/// Writes the JSON document of a request.
pub fn message_to_json(m: Message) -> (r: Json)
    ensures
        encodes(r, m),
{
    match m {
        Message::CreateWindow(opts) => Json::Object(vec![(String::from_str("CreateWindow"), opts)]),
        Message::ConfigUpdate(f) => Json::Object(vec![(String::from_str("Config"), Json::Object(f))]),
        Message::OverlayRequest { window_id, payload } => {
            let mut t = String::new();
            push_i128(&mut t, window_id);
            assert(t@ =~= int_text(window_id as int));
            let body = Json::Object(
                vec![(String::from_str("window_id"), Json::Number(t)), (String::from_str("msg"), Json::Str(payload))],
            );
            Json::Object(vec![(String::from_str("Takeover"), body)])
        },
    }
}

/// Reads one line received by the listener.
pub fn decode(line: &str) -> (r: Result<Message, DecodeError>)
    ensures
        r == message_of_line(line@),
{
    match parse_json(line) {
        Some(j) => message_from_json(j),
        None => Err(DecodeError::Malformed),
    }
}

/// The line that a sender writes for a request, without its terminator;
/// `None` when serde_json cannot write the document.
pub fn encode(m: Message) -> (r: Option<String>)
    ensures
        exists|j: Json|
            encodes(j, m) && match r {
                Some(s) => rendered_json(j) == Some(s@),
                None => rendered_json(j) is None,
            },
{
    let j = message_to_json(m);
    render_json(&j)
}

} // verus!

verus! {

/// Whatever a line decodes to is a request that the codec can carry.
pub proof fn lemma_decoded_wf(line: Seq<char>)
    ensures
        message_of_line(line) matches Ok(m) ==> m.wf(),
{
}

/// Decoding the document written for a request gives that request back.
pub proof fn lemma_round_trip(j: Json, m: Message)
    requires
        m.wf(),
        encodes(j, m),
    ensures
        message_of_json(j) == Ok::<Message, DecodeError>(m),
{
    reveal_strlit("CreateWindow");
    reveal_strlit("Config");
    reveal_strlit("Takeover");
    reveal_strlit("window_id");
    reveal_strlit("msg");
    assert("Takeover"@.len() == 8 && "Config"@.len() == 6 && "CreateWindow"@.len() == 12);
    if let Message::OverlayRequest { window_id, payload } = m {
        lemma_int_text_round_trip(window_id as int);
        assert(i128_of_text(int_text(window_id as int)) == Some(window_id));
        if let Json::Object(o) = j {
            if let Json::Object(g) = o@[0].1 {
                assert(g@.drop_first()[0] == g@[1]);
                assert("window_id"@.len() != "msg"@.len());
                assert(field_named(g@.drop_first(), "msg"@) == Some(g@[1].1));
                assert(field_named(g@, "msg"@) == Some(g@[1].1));
                assert(field_named(g@, "window_id"@) == Some(g@[0].1));
            }
        }
    }
}

} // verus!
