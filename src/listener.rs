//! What the listener does with one received line: decode it, check the window
//! id, and hand the request on, or drop it.
use vstd::prelude::*;
use vstd::string::*;

use crate::codec::{config_window_id, decode, message_of_line, window_id_of_config, DecodeError, Message};
use crate::json::Json;
use crate::text::starts_with;

verus! {

/// Event types handled by the overlay.
#[derive(Debug, PartialEq)]
pub enum TakeoverEvent {
    /// Displays the image under this absolute path.
    ///
    /// Expected request payload: `image:{absolute path}`.
    Image(String),
}

/// The path that an overlay payload names: what follows `image:`, when it is
/// an absolute path.
pub open spec fn image_path_of(payload: Seq<char>) -> Option<Seq<char>> {
    if "image:"@.is_prefix_of(payload) && payload.len() > "image:"@.len() && payload["image:"@.len() as int] == '/' {
        Some(payload.skip("image:"@.len() as int))
    } else {
        None
    }
}

impl TakeoverEvent {
    /// Reads an overlay payload. Whether the path names an existing regular
    /// file is for the caller to check before acting on the event.
    pub fn try_from_request(value: &str) -> (r: Option<TakeoverEvent>)
        ensures
            match image_path_of(value@) {
                Some(p) => r matches Some(TakeoverEvent::Image(q)) && q@ == p,
                None => r is None,
            },
    {
        proof {
            reveal_strlit("image:");
        }
        let n = value.unicode_len();
        if starts_with(value, "image:") && n > 6 && value.get_char(6) == '/' {
            let path = value.substring_char(6, n);
            assert(path@ =~= value@.skip(6));
            Some(TakeoverEvent::Image(String::from_str(path)))
        } else {
            None
        }
    }
}

/// A request as it is handed to the event loop, with its window resolved.
#[derive(Debug, PartialEq)]
pub enum Dispatch {
    CreateWindow(Json),
    /// A configuration change for one window, or for all when `window` is `None`.
    Config { window: Option<u64>, fields: Vec<(String, Json)> },
    Takeover { window_id: u64, event: TakeoverEvent },
}

pub open spec fn fits_u64(v: i128) -> bool {
    0 <= v <= u64::MAX
}

/// The request is handed on rather than dropped: its window id, if any, is a
/// `u64`, and an overlay payload names an absolute path.
pub open spec fn dispatchable(m: Message) -> bool {
    match m {
        Message::CreateWindow(_) => true,
        Message::ConfigUpdate(f) => match config_window_id(f@) {
            Some(None) => true,
            Some(Some(w)) => fits_u64(w),
            None => false,
        },
        Message::OverlayRequest { window_id, payload } => fits_u64(window_id) && image_path_of(
            payload@,
        ) is Some,
    }
}

/// `r` is what the listener hands on for `m`.
pub open spec fn dispatches(r: Option<Dispatch>, m: Message) -> bool {
    if !dispatchable(m) {
        r is None
    } else {
        match m {
            Message::CreateWindow(o) => r == Some(Dispatch::CreateWindow(o)),
            Message::ConfigUpdate(f) => match config_window_id(f@) {
                Some(Some(w)) => r == Some(Dispatch::Config { window: Some(w as u64), fields: f }),
                _ => r == Some(Dispatch::Config { window: None, fields: f }),
            },
            Message::OverlayRequest { window_id, payload } => match r {
                Some(Dispatch::Takeover { window_id: w, event: TakeoverEvent::Image(q) }) => w
                    == window_id as u64 && Some(q@) == image_path_of(payload@),
                _ => false,
            },
        }
    }
}

/// Resolves the window of a decoded request; a window id that is not a `u64`
/// drops the request.
pub fn dispatch(m: Message) -> (r: Option<Dispatch>)
    requires
        m.wf(),
    ensures
        dispatches(r, m),
{
    match m {
        Message::CreateWindow(o) => Some(Dispatch::CreateWindow(o)),
        Message::ConfigUpdate(f) => {
            match window_id_of_config(&f) {
                Some(None) => Some(Dispatch::Config { window: None, fields: f }),
                Some(Some(w)) => {
                    if 0 <= w && w <= u64::MAX as i128 {
                        Some(Dispatch::Config { window: Some(w as u64), fields: f })
                    } else {
                        None
                    }
                },
                None => None,
            }
        },
        Message::OverlayRequest { window_id, payload } => {
            if 0 <= window_id && window_id <= u64::MAX as i128 {
                match TakeoverEvent::try_from_request(payload.as_str()) {
                    Some(event) => Some(Dispatch::Takeover { window_id: window_id as u64, event }),
                    None => None,
                }
            } else {
                None
            }
        },
    }
}

/// What the listener does with one line read from a connection: the request
/// to hand on, or `None` when the line is malformed or the request is dropped.
pub fn handle_line(line: &str) -> (r: Option<Dispatch>)
    ensures
        match message_of_line(line@) {
            Ok(m) => dispatches(r, m),
            Err(_) => r is None,
        },
{
    match decode(line) {
        Ok(m) => {
            proof {
                crate::codec::lemma_decoded_wf(line@);
            }
            dispatch(m)
        },
        Err(DecodeError::Malformed) => None,
    }
}

/// The requests handed on, in order, for the lines received one connection
/// after another.
pub open spec fn dispatched_messages(lines: Seq<Seq<char>>) -> Seq<Message>
    decreases lines.len(),
{
    if lines.len() == 0 {
        Seq::empty()
    } else {
        let rest = dispatched_messages(lines.drop_last());
        match message_of_line(lines.last()) {
            Ok(m) => if dispatchable(m) {
                rest.push(m)
            } else {
                rest
            },
            Err(_) => rest,
        }
    }
}

/// A malformed line stops nothing: whatever came before, the next well-formed
/// request is still handed on, after all earlier ones.
pub proof fn lemma_malformed_line_is_skipped(
    earlier: Seq<Seq<char>>,
    bad: Seq<char>,
    good: Seq<char>,
    m: Message,
)
    requires
        message_of_line(bad) is Err,
        message_of_line(good) == Ok::<Message, DecodeError>(m),
        dispatchable(m),
    ensures
        dispatched_messages(earlier.push(bad)) == dispatched_messages(earlier),
        dispatched_messages(earlier.push(bad).push(good)) == dispatched_messages(earlier).push(m),
{
    assert(earlier.push(bad).drop_last() =~= earlier);
    assert(earlier.push(bad).push(good).drop_last() =~= earlier.push(bad));
}

} // verus!
