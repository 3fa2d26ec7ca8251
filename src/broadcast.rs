//! The rendezvous protocol carried in broadcasts: help requests, answers,
//! and the count of answers that decides whether to attempt an elevation.
use vstd::prelude::*;
use vstd::string::*;

use crate::levels::{requirement_for_level, requirement_spec};
use crate::movement::Position;
use crate::text::{
    all_digits, chars_of, decimal, digits_value, equals_text, int_text, is_digit,
    lemma_decimal_reads_back, lemma_split_on_after_piece, lemma_split_on_single, parse_digits,
    push_int, push_str, split_chars, split_on, string_of, views,
};

verus! {

/// A call for help seen on the radio: the level to reach, the team, and
/// where the caller stands.
#[derive(Debug, Clone, PartialEq, Eq)]
pub struct HelpRequest {
    pub target_level: u32,
    pub team: String,
    pub position: Position,
}

/// The payload `<kind>|<level>|<team>|<x>:<y>`.
pub open spec fn request_text(kind: Seq<char>, level: int, team: Seq<char>, p: Position) -> Seq<
    char,
> {
    kind + seq!['|'] + int_text(level) + seq!['|'] + team + seq!['|'] + int_text(p.x as int)
        + seq![':'] + int_text(p.y as int)
}

/// The value of a level field: decimal digits that fit a `u32`.
pub open spec fn level_value(s: Seq<char>) -> Option<u32> {
    if all_digits(s) && digits_value(s) <= u32::MAX {
        Some(digits_value(s) as u32)
    } else {
        None
    }
}

/// The value of a coordinate: decimal digits, maybe after a minus sign,
/// that fit an `i32`.
pub open spec fn coord_value(s: Seq<char>) -> Option<i32> {
    match crate::server_event::int_value(s) {
        Some(v) => Some(v as i32),
        None => None,
    }
}

/// The position `x:y`.
pub open spec fn position_value(s: Seq<char>) -> Option<Position> {
    let p = split_on(s, ':');
    if p.len() == 2 && coord_value(p[0]) is Some && coord_value(p[1]) is Some {
        Some(Position { x: coord_value(p[0])->0, y: coord_value(p[1])->0 })
    } else {
        None
    }
}

/// The level and position that a payload of `kind` from `team` carries;
/// `None` for another kind, another team, or a malformed payload.
pub open spec fn decode_spec(payload: Seq<char>, kind: Seq<char>, team: Seq<char>) -> Option<
    (u32, Position),
> {
    let f = split_on(payload, '|');
    if f.len() == 4 && f[0] == kind && f[2] == team && level_value(f[1]) is Some && position_value(
        f[3],
    ) is Some {
        Some((level_value(f[1])->0, position_value(f[3])->0))
    } else {
        None
    }
}

/// The text of a number holds digits and a minus sign only.
pub open spec fn number_chars(t: Seq<char>) -> bool {
    forall|i: int| 0 <= i < t.len() ==> is_digit(#[trigger] t[i]) || t[i] == '-'
}

proof fn lemma_int_text_reads_back(v: int)
    requires
        i32::MIN <= v <= i32::MAX,
    ensures
        coord_value(int_text(v)) == Some(v as i32),
        number_chars(int_text(v)),
{
    if v < 0 {
        let d = decimal((-v) as nat);
        lemma_decimal_reads_back((-v) as nat);
        let t = int_text(v);
        assert(t.drop_first() =~= d);
        assert forall|i: int| 0 <= i < t.len() implies is_digit(#[trigger] t[i]) || t[i] == '-' by {
            if i > 0 {
                assert(t[i] == d[i - 1]);
            }
        }
    } else {
        lemma_decimal_reads_back(v as nat);
        let t = int_text(v);
        assert(is_digit(t[0]));
    }
}

proof fn lemma_free_of(t: Seq<char>, c: char)
    requires
        number_chars(t),
        c == '|' || c == ':',
    ensures
        !t.contains(c),
{
    assert forall|i: int| 0 <= i < t.len() implies t[i] != c by {
        assert(is_digit(t[i]) || t[i] == '-');
    }
}

proof fn lemma_joined_free_of(a: Seq<char>, sep: char, b: Seq<char>, c: char)
    requires
        !a.contains(c),
        !b.contains(c),
        sep != c,
    ensures
        !(a + seq![sep] + b).contains(c),
{
    let s = a + seq![sep] + b;
    assert forall|i: int| 0 <= i < s.len() implies s[i] != c by {
        if i < a.len() {
            assert(s[i] == a[i]);
        } else if i > a.len() {
            assert(s[i] == b[i - a.len() - 1]);
        }
    }
}

/// Reading back a call for help or its answer gives the level and position
/// that were sent, for any kind and team name free of `|`.
pub proof fn lemma_request_round_trip(kind: Seq<char>, level: u32, team: Seq<char>, p: Position)
    requires
        !kind.contains('|'),
        !team.contains('|'),
    ensures
        decode_spec(request_text(kind, level as int, team, p), kind, team) == Some((level, p)),
{
    let l = int_text(level as int);
    let x = int_text(p.x as int);
    let y = int_text(p.y as int);
    lemma_decimal_reads_back(level as nat);
    assert(number_chars(l));
    lemma_int_text_reads_back(p.x as int);
    lemma_int_text_reads_back(p.y as int);
    let r3 = x + seq![':'] + y;
    let r2 = team + seq!['|'] + r3;
    let r1 = l + seq!['|'] + r2;
    assert(request_text(kind, level as int, team, p) =~= kind + seq!['|'] + r1);
    lemma_free_of(l, '|');
    lemma_free_of(x, '|');
    lemma_free_of(y, '|');
    lemma_free_of(x, ':');
    lemma_free_of(y, ':');
    lemma_joined_free_of(x, ':', y, '|');
    lemma_split_on_after_piece(kind, '|', r1);
    lemma_split_on_after_piece(l, '|', r2);
    lemma_split_on_after_piece(team, '|', r3);
    lemma_split_on_single(r3, '|');
    let f = split_on(request_text(kind, level as int, team, p), '|');
    assert(f =~= seq![kind, l, team, r3]);
    lemma_split_on_after_piece(x, ':', y);
    lemma_split_on_single(y, ':');
    assert(split_on(r3, ':') =~= seq![x, y]);
}

/// `<kind>|<level>|<team>|<x>:<y>`.
fn request_message(kind: &str, level: u32, team: &str, pos: Position) -> (r: String)
    ensures
        r@ == request_text(kind@, level as int, team@, pos),
{
    let mut v: Vec<char> = Vec::new();
    push_str(&mut v, kind);
    v.push('|');
    push_int(&mut v, level as i64);
    v.push('|');
    push_str(&mut v, team);
    v.push('|');
    push_int(&mut v, pos.x as i64);
    v.push(':');
    push_int(&mut v, pos.y as i64);
    assert(v@ =~= request_text(kind@, level as int, team@, pos));
    string_of(&v)
}

/// The call for help to reach `target_level`, sent by `team` from `pos`.
pub fn help_message(target_level: u32, team: &str, pos: Position) -> (r: String)
    ensures
        r@ == request_text("HELP"@, target_level as int, team@, pos),
{
    request_message("HELP", target_level, team, pos)
}

/// The answer to a call for help to reach `target_level`, sent by `team`
/// from `pos`.
pub fn response_message(target_level: u32, team: &str, pos: Position) -> (r: String)
    ensures
        r@ == request_text("RESP"@, target_level as int, team@, pos),
{
    request_message("RESP", target_level, team, pos)
}

fn coord_of(v: &Vec<char>) -> (r: Option<i32>)
    ensures
        r == coord_value(v@),
{
    if v.len() > 0 && v[0] == '-' {
        let d = crate::text::slice_of(v, 1, v.len());
        assert(d@ =~= v@.drop_first());
        match parse_digits(&d, 0x8000_0000) {
            Some(n) => Some((0 - (n as i64)) as i32),
            None => None,
        }
    } else {
        match parse_digits(v, 0x7fff_ffff) {
            Some(n) => Some(n as i32),
            None => None,
        }
    }
}

fn position_of(v: &Vec<char>) -> (r: Option<Position>)
    ensures
        r == position_value(v@),
{
    let p = split_chars(v, ':');
    if p.len() != 2 {
        return None;
    }
    assert(p@[0]@ == views(p@)[0]);
    assert(p@[1]@ == views(p@)[1]);
    match (coord_of(&p[0]), coord_of(&p[1])) {
        (Some(x), Some(y)) => Some(Position { x, y }),
        _ => None,
    }
}

/// The level and position of a payload of `kind` from `team` (see
/// `decode_spec`).
pub fn decode_request(payload: &str, kind: &str, team: &str) -> (r: Option<(u32, Position)>)
    ensures
        r == decode_spec(payload@, kind@, team@),
{
    let v = chars_of(payload);
    let f = split_chars(&v, '|');
    if f.len() != 4 {
        return None;
    }
    assert(f@[0]@ == views(f@)[0]);
    assert(f@[1]@ == views(f@)[1]);
    assert(f@[2]@ == views(f@)[2]);
    assert(f@[3]@ == views(f@)[3]);
    if !equals_text(&f[0], kind) || !equals_text(&f[2], team) {
        return None;
    }
    let level = match parse_digits(&f[1], 0xffff_ffff) {
        Some(n) => n as u32,
        None => {
            return None;
        },
    };
    match position_of(&f[3]) {
        Some(p) => Some((level, p)),
        None => None,
    }
}

/// The level and position of a call for help from `team` in `payload`;
/// calls of other teams are not seen.
pub fn does_need_help(payload: &str, team: &str) -> (r: Option<(u32, Position)>)
    ensures
        r == decode_spec(payload@, "HELP"@, team@),
{
    decode_request(payload, "HELP", team)
}

/// Whether an agent of `level` can be of use for a rise to `target_level`:
/// it stands at most one level below.
pub fn should_respond_to_help(level: u32, target_level: u32) -> (r: bool)
    ensures
        r == (level as int >= target_level as int - 1),
{
    level >= target_level.saturating_sub(1)
}

/// A requester's count of the answers to its call for help.
#[derive(Debug, Clone, Copy, PartialEq, Eq, Structural)]
pub struct Rendezvous {
    /// The level the requester wants to reach.
    pub target_level: u32,
    /// How many helpers must answer: the players the level asks for, less
    /// the requester.
    pub needed: u32,
    /// How many matching answers have come.
    pub responders: u32,
}

impl Rendezvous {
    /// Opens a count for an agent of `level`; `None` when no level follows.
    pub fn open(level: u32) -> (r: Option<Rendezvous>)
        ensures
            match requirement_spec(level as int + 1) {
                Some(req) => r == Some(
                    Rendezvous {
                        target_level: (level + 1) as u32,
                        needed: (req.required_players - 1) as u32,
                        responders: 0,
                    },
                ),
                None => r is None,
            },
    {
        if level >= 8 {
            return None;
        }
        match requirement_for_level(level + 1) {
            Some(req) => {
                if req.required_players == 0 {
                    return None;
                }
                Some(
                    Rendezvous {
                        target_level: level + 1,
                        needed: req.required_players - 1,
                        responders: 0,
                    },
                )
            },
            None => None,
        }
    }

    /// Counts `payload` when it answers this call: an answer of `team` for
    /// the same level. Anything else is left aside. Returns whether it
    /// counted.
    pub fn record(&mut self, payload: &str, team: &str) -> (r: bool)
        ensures
            r == (decode_spec(payload@, "RESP"@, team@) matches Some((l, _))
                && l == old(self).target_level),
            final(self).target_level == old(self).target_level,
            final(self).needed == old(self).needed,
            final(self).responders == if r && old(self).responders < u32::MAX {
                old(self).responders + 1
            } else {
                old(self).responders as int
            },
    {
        match decode_request(payload, "RESP", team) {
            Some((l, _)) => {
                if l == self.target_level {
                    if self.responders < u32::MAX {
                        self.responders = self.responders + 1;
                    }
                    true
                } else {
                    false
                }
            },
            None => false,
        }
    }

    /// Enough helpers have answered to attempt the elevation.
    pub fn quorum_reached(&self) -> (r: bool)
        ensures
            r == (self.responders >= self.needed),
    {
        self.responders >= self.needed
    }
}

/// A requester that opened its count at `level` and has counted `answers`
/// matching answers attempts the elevation exactly when the answers and
/// itself make up the players that the next level asks for.
pub proof fn lemma_quorum_rule(level: u32, answers: u32)
    requires
        requirement_spec(level as int + 1) is Some,
    ensures
        ({
            let req = requirement_spec(level as int + 1)->0;
            let rv = Rendezvous {
                target_level: (level + 1) as u32,
                needed: (req.required_players - 1) as u32,
                responders: answers,
            };
            (rv.responders >= rv.needed) <==> answers + 1 >= req.required_players
        }),
{
}

/// Bookkeeping of the calls for help heard: per level, the distinct
/// (team, position) pairs, in the order they first arrived.
#[derive(Debug, Clone)]
pub struct BroadcastSystem {
    requests: Vec<(u32, Vec<char>, Position)>,
}

/// The views of the recorded calls of one level.
pub open spec fn calls_view(s: Seq<(Vec<char>, Position)>) -> Seq<(Seq<char>, Position)> {
    Seq::new(s.len(), |i: int| (s[i].0@, s[i].1))
}

/// The team and position of the calls heard for `level`, in arrival order.
pub open spec fn calls_for(reqs: Seq<(u32, Seq<char>, Position)>, level: u32) -> Seq<
    (Seq<char>, Position),
>
    decreases reqs.len(),
{
    if reqs.len() == 0 {
        Seq::empty()
    } else {
        let before = calls_for(reqs.drop_last(), level);
        if reqs.last().0 == level {
            before.push((reqs.last().1, reqs.last().2))
        } else {
            before
        }
    }
}

/// The position of the first call of `team` among `calls`.
pub open spec fn first_of_team(calls: Seq<(Seq<char>, Position)>, team: Seq<char>) -> Option<
    Position,
>
    decreases calls.len(),
{
    if calls.len() == 0 {
        None
    } else if calls[0].0 == team {
        Some(calls[0].1)
    } else {
        first_of_team(calls.drop_first(), team)
    }
}

fn holds_call(calls: &Vec<(Vec<char>, Position)>, team: &Vec<char>, pos: Position) -> (r: bool)
    ensures
        r == calls_view(calls@).contains((team@, pos)),
{
    let mut j: usize = 0;
    while j < calls.len()
        invariant
            j <= calls@.len(),
            forall|k: int| 0 <= k < j ==> calls_view(calls@)[k] != (team@, pos),
        decreases calls@.len() - j,
    {
        assert(calls_view(calls@)[j as int] == (calls@[j as int].0@, calls@[j as int].1));
        if crate::text::equals_chars(&calls[j].0, team) && calls[j].1 == pos {
            return true;
        }
        j = j + 1;
    }
    false
}

fn first_team_position(calls: &Vec<(Vec<char>, Position)>, team: &Vec<char>) -> (r: Option<
    Position,
>)
    ensures
        r == first_of_team(calls_view(calls@), team@),
{
    let ghost all = calls_view(calls@);
    let mut j: usize = 0;
    assert(all.subrange(0, all.len() as int) =~= all);
    while j < calls.len()
        invariant
            all == calls_view(calls@),
            j <= calls@.len(),
            first_of_team(all, team@) == first_of_team(
                all.subrange(j as int, calls@.len() as int),
                team@,
            ),
        decreases calls@.len() - j,
    {
        let ghost rest = all.subrange(j as int, calls@.len() as int);
        assert(rest[0] == (calls@[j as int].0@, calls@[j as int].1));
        if crate::text::equals_chars(&calls[j].0, team) {
            return Some(calls[j].1);
        }
        assert(rest.drop_first() =~= all.subrange(j + 1, calls@.len() as int));
        j = j + 1;
    }
    None
}

impl BroadcastSystem {
    /// The recorded calls for `level`, oldest first.
    fn calls_at(&self, level: u32) -> (r: Vec<(Vec<char>, Position)>)
        ensures
            calls_view(r@) == calls_for(self.view_requests(), level),
    {
        let ghost reqs = self.view_requests();
        let mut r: Vec<(Vec<char>, Position)> = Vec::new();
        let mut i: usize = 0;
        while i < self.requests.len()
            invariant
                reqs == self.view_requests(),
                i <= self.requests@.len(),
                calls_view(r@) == calls_for(reqs.subrange(0, i as int), level),
            decreases self.requests@.len() - i,
        {
            assert(reqs.subrange(0, i + 1).drop_last() =~= reqs.subrange(0, i as int));
            assert(reqs.subrange(0, i + 1).last() == reqs[i as int]);
            let e = &self.requests[i];
            if e.0 == level {
                let team = crate::text::slice_of(&e.1, 0, e.1.len());
                assert(team@ =~= e.1@);
                let ghost before = r@;
                r.push((team, e.2));
                assert(calls_view(r@) =~= calls_view(before).push((e.1@, e.2)));
            }
            i = i + 1;
        }
        assert(reqs.subrange(0, i as int) =~= reqs);
        r
    }

    /// The calls heard, oldest first.
    pub closed spec fn view_requests(&self) -> Seq<(u32, Seq<char>, Position)> {
        Seq::new(
            self.requests@.len(),
            |i: int| (self.requests@[i].0, self.requests@[i].1@, self.requests@[i].2),
        )
    }

    pub fn new() -> (r: Self)
        ensures
            r.view_requests() == Seq::<(u32, Seq<char>, Position)>::empty(),
    {
        let r = BroadcastSystem { requests: Vec::new() };
        assert(r.view_requests() =~= Seq::<(u32, Seq<char>, Position)>::empty());
        r
    }

    /// Handles a payload `<kind>|<level>|<team>|...` of at least four
    /// fields. A `HELP` records the team and `sender_pos` under its level,
    /// unless that pair is already recorded there: each level keeps a set.
    /// A `RESP` gives the position of the first recorded call of its team at
    /// its level, once at least two calls are recorded there. Anything else
    /// does nothing.
    pub fn handle_broadcast(&mut self, message: &str, sender_pos: Position) -> (r: Option<Position>)
        ensures
            ({
                let f = split_on(message@, '|');
                let old_reqs = old(self).view_requests();
                if f.len() >= 4 && f[0] == "HELP"@ && level_value(f[1]) is Some {
                    &&& r is None
                    &&& final(self).view_requests() == if calls_for(
                        old_reqs,
                        level_value(f[1])->0,
                    ).contains((f[2], sender_pos)) {
                        old_reqs
                    } else {
                        old_reqs.push((level_value(f[1])->0, f[2], sender_pos))
                    }
                } else if f.len() >= 4 && f[0] == "RESP"@ && level_value(f[1]) is Some {
                    &&& final(self).view_requests() == old_reqs
                    &&& r == if calls_for(old_reqs, level_value(f[1])->0).len() >= 2 {
                        first_of_team(calls_for(old_reqs, level_value(f[1])->0), f[2])
                    } else {
                        None
                    }
                } else {
                    r is None && final(self).view_requests() == old_reqs
                }
            }),
    {
        let v = chars_of(message);
        let parts = split_chars(&v, '|');
        if parts.len() < 4 {
            return None;
        }
        assert(parts@[0]@ == views(parts@)[0]);
        assert(parts@[1]@ == views(parts@)[1]);
        assert(parts@[2]@ == views(parts@)[2]);
        let is_help = equals_text(&parts[0], "HELP");
        let is_resp = equals_text(&parts[0], "RESP");
        if !is_help && !is_resp {
            return None;
        }
        let level = match parse_digits(&parts[1], 0xffff_ffff) {
            Some(n) => n as u32,
            None => {
                return None;
            },
        };
        proof {
            reveal_strlit("HELP");
            reveal_strlit("RESP");
        }
        if is_help {
            let known = self.calls_at(level);
            if holds_call(&known, &parts[2], sender_pos) {
                return None;
            }
            let ghost before = self.view_requests();
            let team = crate::text::slice_of(&parts[2], 0, parts[2].len());
            assert(team@ =~= parts@[2]@);
            self.requests.push((level, team, sender_pos));
            assert(self.view_requests() =~= before.push((level, parts@[2]@, sender_pos)));
            return None;
        }
        let calls = self.calls_at(level);
        if calls.len() < 2 {
            return None;
        }
        first_team_position(&calls, &parts[2])
    }
}

} // verus!
