//! The event codec: one server line in, one typed event out.
use vstd::prelude::*;
use vstd::string::*;

use crate::inventory::{apply_entries, Inventory};
use crate::text::{
    all_digits, chars_of, digits_value, equals_ignoring_case, equals_text, parse_digits,
    same_ignoring_case, slice_of, split_chars, split_on, split_words, starts_ignoring_case,
    starts_with_ignoring_case, string_of, trim, trimmed, views, words,
};

verus! {

/// A line that a parser step could not accept, and why.
#[derive(Debug, Clone)]
pub struct ParseError {
    pub input: String,
    pub reason: &'static str,
}

impl ParseError {
    pub fn new(input: &str, reason: &'static str) -> (r: Self)
        ensures
            r.input@ == input@,
            r.reason == reason,
    {
        ParseError { input: String::from_str(input), reason }
    }
}

/// One line from the server, classified.
#[derive(Debug, Clone)]
pub enum ServerEvent {
    Okay,
    Ko,
    Dead,
    ElevationUnderway,
    /// An out-of-band message: where it came from, and what it says.
    Message(String, String),
    Inventory(Inventory),
    Value(i32),
    /// The tiles of a look, in order, empty ones included.
    Look(Vec<String>),
    Unknown(String),
}

/// What a `ServerEvent` holds, with text as character sequences.
pub enum EventView {
    Okay,
    Ko,
    Dead,
    ElevationUnderway,
    Message(Seq<char>, Seq<char>),
    Inventory(Inventory),
    Value(int),
    Look(Seq<Seq<char>>),
    Unknown(Seq<char>),
}

/// The views of a vector of strings.
pub open spec fn string_views(v: Seq<String>) -> Seq<Seq<char>> {
    Seq::new(v.len(), |i: int| v[i]@)
}

impl View for ServerEvent {
    type V = EventView;

    open spec fn view(&self) -> EventView {
        match self {
            ServerEvent::Okay => EventView::Okay,
            ServerEvent::Ko => EventView::Ko,
            ServerEvent::Dead => EventView::Dead,
            ServerEvent::ElevationUnderway => EventView::ElevationUnderway,
            ServerEvent::Message(o, p) => EventView::Message(o@, p@),
            ServerEvent::Inventory(inv) => EventView::Inventory(*inv),
            ServerEvent::Value(n) => EventView::Value(*n as int),
            ServerEvent::Look(t) => EventView::Look(string_views(t@)),
            ServerEvent::Unknown(s) => EventView::Unknown(s@),
        }
    }
}

/// The shape of a trimmed line, decided before its parts are read.
#[derive(Debug, Clone, Copy, PartialEq, Eq, Structural)]
pub enum EventType {
    /// `ok`, `ko` or `dead`
    Simple,
    /// `Elevation underway`
    Elevation,
    /// `message K, text`
    Message,
    /// `[...]`: a look or an inventory
    Bracketed,
    /// a number alone
    Numeric,
    Unknown,
}

/// `s` is decimal digits, with at most a leading minus sign.
pub open spec fn is_number_text(s: Seq<char>) -> bool {
    all_digits(s) || (s.len() > 0 && s[0] == '-' && all_digits(s.drop_first()))
}

/// The shape of the trimmed line `s`; the first rule that applies wins.
pub open spec fn category_of(s: Seq<char>) -> EventType {
    if same_ignoring_case(s, "ok"@) || same_ignoring_case(s, "ko"@) || same_ignoring_case(
        s,
        "dead"@,
    ) {
        EventType::Simple
    } else if starts_ignoring_case(s, "elevation"@) {
        EventType::Elevation
    } else if starts_ignoring_case(s, "message"@) {
        EventType::Message
    } else if s.len() >= 2 && s[0] == '[' && s.last() == ']' {
        EventType::Bracketed
    } else if is_number_text(s) {
        EventType::Numeric
    } else {
        EventType::Unknown
    }
}

/// `k` is the first position of `c` in `s`.
pub open spec fn first_at(s: Seq<char>, c: char, k: int) -> bool {
    &&& 0 <= k < s.len()
    &&& s[k] == c
    &&& forall|j: int| 0 <= j < k ==> s[j] != c
}

/// The position of the first comma of `s`, where it has one.
pub open spec fn first_comma(s: Seq<char>) -> int {
    choose|k: int| first_at(s, ',', k)
}

/// The text of the line `s` after the word `message`, trimmed.
pub open spec fn message_rest(s: Seq<char>) -> Seq<char> {
    if starts_ignoring_case(s, "message"@) {
        trim(s.subrange(7, s.len() as int))
    } else {
        trim(s)
    }
}

/// The origin before the first comma of `rest` and the text after it, both
/// trimmed; with no comma, origin `0` and the whole of `rest`.
pub open spec fn message_parts(rest: Seq<char>) -> EventView {
    if exists|k: int| first_at(rest, ',', k) {
        EventView::Message(
            trim(rest.subrange(0, first_comma(rest))),
            trim(rest.subrange(first_comma(rest) + 1, rest.len() as int)),
        )
    } else {
        EventView::Message("0"@, rest)
    }
}

/// The message that the line `s` carries.
pub open spec fn message_event(s: Seq<char>) -> EventView {
    message_parts(message_rest(s))
}

/// The text between the brackets of `s`: one `[` and one `]` are dropped
/// where they stand at the ends.
pub open spec fn bracket_inner(s: Seq<char>) -> Seq<char> {
    let a = if s.len() > 0 && s[0] == '[' {
        s.drop_first()
    } else {
        s
    };
    if a.len() > 0 && a.last() == ']' {
        a.drop_last()
    } else {
        a
    }
}

/// The comma-separated segments of `content`, each trimmed.
pub open spec fn segments_of(content: Seq<char>) -> Seq<Seq<char>> {
    let p = split_on(content, ',');
    Seq::new(p.len(), |i: int| trim(p[i]))
}

/// A segment that reads as an inventory entry: two words, the first not
/// `player`, the second a non-negative count that fits an `i32`.
pub open spec fn is_inventory_entry(seg: Seq<char>) -> bool {
    let w = words(seg);
    &&& w.len() == 2
    &&& w[0] != "player"@
    &&& all_digits(w[1])
    &&& digits_value(w[1]) <= i32::MAX
}

/// Every segment reads as an inventory entry.
pub open spec fn is_inventory_list(segs: Seq<Seq<char>>) -> bool {
    forall|i: int| 0 <= i < segs.len() ==> is_inventory_entry(#[trigger] segs[i])
}

/// The event of a bracketed line: an empty bracket is an empty look; a list
/// of inventory entries is an inventory; anything else a look whose tiles are
/// the segments.
pub open spec fn bracket_event(s: Seq<char>) -> EventView {
    let content = trim(bracket_inner(s));
    if content.len() == 0 {
        EventView::Look(Seq::empty())
    } else {
        let segs = segments_of(content);
        if is_inventory_list(segs) {
            EventView::Inventory(apply_entries(segs, segs.len()))
        } else {
            EventView::Look(segs)
        }
    }
}

/// A bracket with a segment whose first word is `player` is always a look,
/// never an inventory, whatever its other segments hold.
pub proof fn lemma_player_segment_means_look(s: Seq<char>, i: int)
    requires
        trim(bracket_inner(s)).len() > 0,
        0 <= i < segments_of(trim(bracket_inner(s))).len(),
        words(segments_of(trim(bracket_inner(s)))[i]).len() > 0,
        words(segments_of(trim(bracket_inner(s)))[i])[0] == "player"@,
    ensures
        bracket_event(s) == EventView::Look(segments_of(trim(bracket_inner(s)))),
{
    let segs = segments_of(trim(bracket_inner(s)));
    assert(!is_inventory_entry(segs[i]));
}

/// The number that `s` spells, when it is one and fits an `i32`.
pub open spec fn int_value(s: Seq<char>) -> Option<int> {
    if s.len() > 0 && s[0] == '-' {
        let d = s.drop_first();
        if all_digits(d) && digits_value(d) <= 0x8000_0000 {
            Some(-digits_value(d))
        } else {
            None
        }
    } else if all_digits(s) && digits_value(s) <= i32::MAX {
        Some(digits_value(s) as int)
    } else {
        None
    }
}

/// The event of the simple line `s`.
pub open spec fn simple_event(s: Seq<char>) -> EventView {
    if same_ignoring_case(s, "ok"@) {
        EventView::Okay
    } else if same_ignoring_case(s, "ko"@) {
        EventView::Ko
    } else {
        EventView::Dead
    }
}

/// The event that a server line stands for. Defined for every line: what
/// fits no other shape is `Unknown`, holding the trimmed line.
pub open spec fn event_of(line: Seq<char>) -> EventView {
    let s = trim(line);
    match category_of(s) {
        EventType::Simple => simple_event(s),
        EventType::Elevation => EventView::ElevationUnderway,
        EventType::Message => message_event(s),
        EventType::Bracketed => bracket_event(s),
        EventType::Numeric => match int_value(s) {
            Some(n) => EventView::Value(n),
            None => EventView::Unknown(s),
        },
        EventType::Unknown => EventView::Unknown(s),
    }
}

fn category_of_chars(s: &Vec<char>) -> (r: EventType)
    ensures
        r == category_of(s@),
{
    if equals_ignoring_case(s, "ok") || equals_ignoring_case(s, "ko") || equals_ignoring_case(
        s,
        "dead",
    ) {
        EventType::Simple
    } else if starts_with_ignoring_case(s, "elevation") {
        EventType::Elevation
    } else if starts_with_ignoring_case(s, "message") {
        EventType::Message
    } else if s.len() >= 2 && s[0] == '[' && s[s.len() - 1] == ']' {
        EventType::Bracketed
    } else if is_number_chars(s) {
        EventType::Numeric
    } else {
        EventType::Unknown
    }
}

fn is_number_chars(s: &Vec<char>) -> (r: bool)
    ensures
        r == is_number_text(s@),
{
    let mut all: bool = s.len() > 0;
    let mut rest_ok: bool = s.len() > 1 && s[0] == '-';
    let mut i: usize = 0;
    while i < s.len()
        invariant
            i <= s@.len(),
            all == (s@.len() > 0 && forall|j: int| 0 <= j < i ==> crate::text::is_digit(#[trigger] s@[j])),
            rest_ok == (s@.len() > 1 && s@[0] == '-' && forall|j: int|
                1 <= j < i ==> crate::text::is_digit(#[trigger] s@[j])),
        decreases s@.len() - i,
    {
        let n = s[i] as u32;
        let d = 48 <= n && n <= 57;
        all = all && d;
        if i >= 1 {
            rest_ok = rest_ok && d;
        }
        i = i + 1;
    }
    proof {
        if s@.len() > 0 {
            let d = s@.drop_first();
            if rest_ok {
                assert forall|j: int| 0 <= j < d.len() implies crate::text::is_digit(
                    #[trigger] d[j],
                ) by {
                    assert(d[j] == s@[j + 1]);
                }
            }
            if s@[0] == '-' && all_digits(d) {
                assert forall|j: int| 1 <= j < s@.len() implies crate::text::is_digit(
                    #[trigger] s@[j],
                ) by {
                    assert(d[j - 1] == s@[j]);
                }
            }
        }
    }
    all || rest_ok
}

fn number_value(s: &Vec<char>) -> (r: Option<i32>)
    ensures
        r matches Some(n) ==> int_value(s@) == Some(n as int),
        r is None ==> int_value(s@) is None,
{
    if s.len() > 0 && s[0] == '-' {
        let d = slice_of(s, 1, s.len());
        assert(d@ =~= s@.drop_first());
        match parse_digits(&d, 0x8000_0000) {
            Some(n) => Some((0 - (n as i64)) as i32),
            None => None,
        }
    } else {
        match parse_digits(s, 0x7fff_ffff) {
            Some(n) => Some(n as i32),
            None => None,
        }
    }
}

fn strings_of(v: &Vec<Vec<char>>) -> (r: Vec<String>)
    ensures
        string_views(r@) == views(v@),
{
    let mut r: Vec<String> = Vec::new();
    let mut i: usize = 0;
    while i < v.len()
        invariant
            i <= v@.len(),
            r@.len() == i,
            forall|j: int| 0 <= j < i ==> (#[trigger] r@[j])@ == v@[j]@,
        decreases v@.len() - i,
    {
        r.push(string_of(&v[i]));
        i = i + 1;
    }
    assert(string_views(r@) =~= views(v@));
    r
}

fn is_inventory_chars(seg: &Vec<char>) -> (r: bool)
    ensures
        r == is_inventory_entry(seg@),
{
    let w = split_words(seg);
    if w.len() != 2 {
        return false;
    }
    assert(w@[0]@ == views(w@)[0]);
    assert(w@[1]@ == views(w@)[1]);
    if equals_text(&w[0], "player") {
        return false;
    }
    parse_digits(&w[1], 0x7fff_ffff).is_some()
}

impl ServerEvent {
    /// The shape of the trimmed line `input`.
    pub fn classify(input: &str) -> (r: EventType)
        ensures
            r == category_of(input@),
    {
        let v = chars_of(input);
        category_of_chars(&v)
    }

    /// Reads a line of the server: total, never failing.
    pub fn from_line(line: &str) -> (r: ServerEvent)
        ensures
            r@ == event_of(line@),
    {
        let raw = chars_of(line);
        let s = trimmed(&raw);
        match category_of_chars(&s) {
            EventType::Simple => Self::simple_of(&s),
            EventType::Elevation => ServerEvent::ElevationUnderway,
            EventType::Message => Self::message_of(&s),
            EventType::Bracketed => Self::bracketed_of(&s),
            EventType::Numeric => match number_value(&s) {
                Some(n) => ServerEvent::Value(n),
                None => ServerEvent::Unknown(string_of(&s)),
            },
            EventType::Unknown => ServerEvent::Unknown(string_of(&s)),
        }
    }

    fn simple_of(s: &Vec<char>) -> (r: ServerEvent)
        ensures
            r@ == simple_event(s@),
    {
        if equals_ignoring_case(s, "ok") {
            ServerEvent::Okay
        } else if equals_ignoring_case(s, "ko") {
            ServerEvent::Ko
        } else {
            ServerEvent::Dead
        }
    }

    fn message_of(s: &Vec<char>) -> (r: ServerEvent)
        ensures
            r@ == message_event(s@),
    {
        proof {
            reveal_strlit("message");
            reveal_strlit("0");
        }
        let rest = if starts_with_ignoring_case(s, "message") {
            let tail = slice_of(s, 7, s.len());
            trimmed(&tail)
        } else {
            trimmed(s)
        };
        assert(rest@ == message_rest(s@));
        let mut k: usize = 0;
        while k < rest.len() && rest[k] != ','
            invariant
                k <= rest@.len(),
                forall|j: int| 0 <= j < k ==> rest@[j] != ',',
            decreases rest@.len() - k,
        {
            k = k + 1;
        }
        if k < rest.len() {
            assert(first_at(rest@, ',', k as int));
            let origin = slice_of(&rest, 0, k);
            let payload = slice_of(&rest, k + 1, rest.len());
            let origin = trimmed(&origin);
            let payload = trimmed(&payload);
            let r = ServerEvent::Message(string_of(&origin), string_of(&payload));
            assert(message_event(s@) == EventView::Message(
                trim(rest@.subrange(0, k as int)),
                trim(rest@.subrange(k + 1, rest@.len() as int)),
            )) by {
                let c = first_comma(rest@);
                assert(first_at(rest@, ',', c));
                if c < k {
                    assert(rest@[c] != ',');
                } else if c > k {
                    assert(rest@[k as int] != ',');
                }
                assert(c == k as int);
            }
            r
        } else {
            assert(!exists|c: int| first_at(rest@, ',', c));
            let r = ServerEvent::Message(String::from_str("0"), string_of(&rest));
            assert(r@ == EventView::Message("0"@, rest@));
            assert(message_event(s@) == EventView::Message("0"@, rest@));
            r
        }
    }

    fn bracketed_of(s: &Vec<char>) -> (r: ServerEvent)
        ensures
            r@ == bracket_event(s@),
    {
        let lo: usize = if s.len() > 0 && s[0] == '[' {
            1
        } else {
            0
        };
        let hi: usize = if s.len() > lo && s[s.len() - 1] == ']' {
            s.len() - 1
        } else {
            s.len()
        };
        let inner = slice_of(s, lo, hi);
        assert(inner@ =~= bracket_inner(s@));
        let content = trimmed(&inner);
        if content.len() == 0 {
            let r = ServerEvent::Look(Vec::new());
            assert(r@ == EventView::Look(Seq::empty())) by {
                assert(string_views(Seq::<String>::empty()) =~= Seq::<Seq<char>>::empty());
            }
            return r;
        }
        let pieces = split_chars(&content, ',');
        let mut segs: Vec<Vec<char>> = Vec::new();
        let mut all: bool = true;
        let mut i: usize = 0;
        while i < pieces.len()
            invariant
                i <= pieces@.len(),
                views(pieces@) == split_on(content@, ','),
                segs@.len() == i,
                forall|j: int| 0 <= j < i ==> (#[trigger] segs@[j])@ == trim(pieces@[j]@),
                all == forall|j: int| 0 <= j < i ==> is_inventory_entry(#[trigger] segs@[j]@),
            decreases pieces@.len() - i,
        {
            let seg = trimmed(&pieces[i]);
            let e = is_inventory_chars(&seg);
            let ghost old_segs = segs@;
            segs.push(seg);
            assert(segs@[i as int]@ == trim(pieces@[i as int]@));
            assert(forall|j: int| 0 <= j < i ==> segs@[j] == old_segs[j]);
            all = all && e;
            i = i + 1;
        }
        let ghost gs = segments_of(content@);
        assert(views(segs@) =~= gs) by {
            assert forall|j: int| 0 <= j < gs.len() implies views(segs@)[j] == gs[j] by {
                assert(pieces@[j]@ == views(pieces@)[j]);
            }
        }
        if all {
            assert(is_inventory_list(gs)) by {
                assert forall|j: int| 0 <= j < gs.len() implies is_inventory_entry(#[trigger] gs[j]) by {
                    assert(views(segs@)[j] == segs@[j]@);
                }
            }
            ServerEvent::Inventory(Inventory::from_entries(&segs))
        } else {
            assert(!is_inventory_list(gs)) by {
                let j = choose|j: int| 0 <= j < segs@.len() && !is_inventory_entry(#[trigger] segs@[j]@);
                assert(views(segs@)[j] == segs@[j]@);
            }
            ServerEvent::Look(strings_of(&segs))
        }
    }

    /// `ok`, `ko` or `dead`, in any case; anything else is refused.
    pub fn parse_simple(input: &str) -> (r: Result<Self, ParseError>)
        ensures
            r matches Ok(e) ==> category_of(input@) == EventType::Simple && e@ == simple_event(input@),
            r is Err <==> category_of(input@) != EventType::Simple,
    {
        let v = chars_of(input);
        if equals_ignoring_case(&v, "ok") || equals_ignoring_case(&v, "ko") || equals_ignoring_case(
            &v,
            "dead",
        ) {
            Ok(Self::simple_of(&v))
        } else {
            Err(ParseError::new(input, "Expected ok/ko/dead"))
        }
    }

    /// The message that `input` carries (see `message_event`).
    pub fn parse_message(input: &str) -> (r: Result<Self, ParseError>)
        ensures
            r matches Ok(e) && e@ == message_event(input@),
    {
        let v = chars_of(input);
        Ok(Self::message_of(&v))
    }

    /// The look or inventory that the bracketed `input` holds (see
    /// `bracket_event`).
    pub fn parse_bracketed(input: &str) -> (r: Result<Self, ParseError>)
        ensures
            r matches Ok(e) && e@ == bracket_event(input@),
    {
        let v = chars_of(input);
        Ok(Self::bracketed_of(&v))
    }

    /// The number that `input` spells; refused when it spells none that
    /// fits an `i32`.
    pub fn parse_numeric(input: &str) -> (r: Result<Self, ParseError>)
        ensures
            r matches Ok(e) ==> int_value(input@) matches Some(n) && e@ == EventView::Value(n),
            r is Err <==> int_value(input@) is None,
    {
        let v = chars_of(input);
        match number_value(&v) {
            Some(n) => Ok(ServerEvent::Value(n)),
            None => Err(ParseError::new(input, "Failed to parse number")),
        }
    }
}

impl std::str::FromStr for ServerEvent {
    type Err = ParseError;

    /// Reads a line of the server (see `from_line`); never fails.
    fn from_str(s: &str) -> (r: Result<Self, ParseError>)
        ensures
            r matches Ok(e) && e@ == event_of(s@),
    {
        Ok(ServerEvent::from_line(s))
    }
}

} // verus!
