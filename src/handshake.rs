//! The lines of the opening exchange: the greeting, the free slots of the
//! team, and the size of the map.
use vstd::prelude::*;
use vstd::string::*;

use crate::error::ClientError;
use crate::server_event::int_value;
use crate::text::{
    all_digits, chars_of, digits_value, equals_text, parse_digits, split_words, trim, trimmed, views,
    words,
};

verus! {

/// Accepts the server's greeting, `WELCOME` once trimmed.
pub fn check_welcome(line: &str) -> (r: Result<(), ClientError>)
    ensures
        r is Ok <==> trim(line@) == "WELCOME"@,
        r matches Err(e) ==> e is InvalidResponse,
{
    let v = chars_of(line);
    let t = trimmed(&v);
    if equals_text(&t, "WELCOME") {
        Ok(())
    } else {
        Err(ClientError::InvalidResponse(String::from_str("Expected WELCOME")))
    }
}

/// Reads the number of free slots of the team. A line that is no number is
/// refused; a count of zero or less means the team is full.
pub fn parse_client_num(line: &str) -> (r: Result<i32, ClientError>)
    ensures
        (match int_value(trim(line@)) {
            None => r matches Err(ClientError::InvalidResponse(_)),
            Some(n) => if n <= 0 {
                r matches Err(ClientError::NoSlotsAvailable)
            } else {
                r == Ok::<i32, ClientError>(n as i32)
            },
        }),
{
    let v = chars_of(line);
    let t = trimmed(&v);
    let n: i32 = if t.len() > 0 && t[0] == '-' {
        let d = crate::text::slice_of(&t, 1, t.len());
        assert(d@ =~= t@.drop_first());
        match parse_digits(&d, 0x8000_0000) {
            Some(m) => (0 - (m as i64)) as i32,
            None => {
                return Err(ClientError::InvalidResponse(String::from_str("Invalid client number")));
            },
        }
    } else {
        match parse_digits(&t, 0x7fff_ffff) {
            Some(m) => m as i32,
            None => {
                return Err(ClientError::InvalidResponse(String::from_str("Invalid client number")));
            },
        }
    };
    if n <= 0 {
        Err(ClientError::NoSlotsAvailable)
    } else {
        Ok(n)
    }
}

/// The value of one side of the map: decimal digits, at least 1 and at
/// most the largest `i32`.
pub open spec fn side_value(s: Seq<char>) -> Option<i32> {
    if all_digits(s) && 1 <= digits_value(s) <= i32::MAX {
        Some(digits_value(s) as i32)
    } else {
        None
    }
}

/// Reads `<width> <height>`: exactly two words, each a side length.
pub fn parse_map_dimensions(line: &str) -> (r: Result<(i32, i32), ClientError>)
    ensures
        ({
            let w = words(line@);
            if w.len() == 2 && side_value(w[0]) is Some && side_value(w[1]) is Some {
                r == Ok::<(i32, i32), ClientError>((side_value(w[0])->0, side_value(w[1])->0))
            } else {
                r matches Err(ClientError::InvalidResponse(_))
            }
        }),
{
    let v = chars_of(line);
    let w = split_words(&v);
    if w.len() != 2 {
        return Err(ClientError::InvalidResponse(String::from_str("Invalid dimensions format")));
    }
    assert(w@[0]@ == views(w@)[0]);
    assert(w@[1]@ == views(w@)[1]);
    let width = match parse_digits(&w[0], 0x7fff_ffff) {
        Some(n) if n >= 1 => n as i32,
        _ => {
            return Err(ClientError::InvalidResponse(String::from_str("Invalid width")));
        },
    };
    let height = match parse_digits(&w[1], 0x7fff_ffff) {
        Some(n) if n >= 1 => n as i32,
        _ => {
            return Err(ClientError::InvalidResponse(String::from_str("Invalid height")));
        },
    };
    Ok((width, height))
}

} // verus!
