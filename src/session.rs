//! The session correlator: one command at a time, its answer told apart from
//! the messages that arrive in between, which wait in arrival order.
use vstd::prelude::*;
use vstd::string::*;

use std::collections::VecDeque;

use crate::commands::Command;
use crate::error::ClientError;
use crate::server_event::{
    bracket_inner, event_of, is_inventory_entry, is_inventory_list, segments_of, EventView,
    ServerEvent,
};
use crate::text::{
    all_digits, digits_value, folded, is_space, same_ignoring_case, split_on, split_state,
    starts_ignoring_case, trim, words, words_state, lemma_split_without_separator,
};

verus! {

/// The kind of answer a command expects.
#[derive(Debug, Clone, Copy, PartialEq, Eq, Structural)]
pub enum ResponseShape {
    /// `ok` or `ko`
    Acknowledgement,
    /// the tiles of a look
    TileList,
    /// an inventory snapshot
    InventorySnapshot,
    /// a number
    Integer,
    /// `Elevation underway`, or `ko` when the ritual cannot start
    Elevation,
}

/// The kind of answer that `c` expects.
pub open spec fn expected_shape(c: Command) -> ResponseShape {
    match c {
        Command::Look => ResponseShape::TileList,
        Command::Inventory => ResponseShape::InventorySnapshot,
        Command::ConnectNbr => ResponseShape::Integer,
        Command::Incantation => ResponseShape::Elevation,
        _ => ResponseShape::Acknowledgement,
    }
}

/// `e` is an answer of the kind `shape`.
pub open spec fn fits(e: EventView, shape: ResponseShape) -> bool {
    match shape {
        ResponseShape::Acknowledgement => e is Okay || e is Ko,
        ResponseShape::TileList => e is Look,
        ResponseShape::InventorySnapshot => e is Inventory,
        ResponseShape::Integer => e is Value,
        ResponseShape::Elevation => e is ElevationUnderway || e is Ko,
    }
}

/// The kind of answer that `cmd` expects.
pub fn response_shape(cmd: &Command) -> (r: ResponseShape)
    ensures
        r == expected_shape(*cmd),
{
    match cmd {
        Command::Look => ResponseShape::TileList,
        Command::Inventory => ResponseShape::InventorySnapshot,
        Command::ConnectNbr => ResponseShape::Integer,
        Command::Incantation => ResponseShape::Elevation,
        _ => ResponseShape::Acknowledgement,
    }
}

/// Accepts `event` as the answer to `cmd` when it has the expected kind;
/// any other answer breaks the protocol and is refused, not coerced.
pub fn check_response(cmd: &Command, event: ServerEvent) -> (r: Result<ServerEvent, ClientError>)
    ensures
        fits(event@, expected_shape(*cmd)) ==> r == Ok::<ServerEvent, ClientError>(event),
        !fits(event@, expected_shape(*cmd)) ==> r matches Err(ClientError::InvalidResponse(_)),
{
    let ok = match response_shape(cmd) {
        ResponseShape::Acknowledgement => match &event {
            ServerEvent::Okay | ServerEvent::Ko => true,
            _ => false,
        },
        ResponseShape::TileList => match &event {
            ServerEvent::Look(_) => true,
            _ => false,
        },
        ResponseShape::InventorySnapshot => match &event {
            ServerEvent::Inventory(_) => true,
            _ => false,
        },
        ResponseShape::Integer => match &event {
            ServerEvent::Value(_) => true,
            _ => false,
        },
        ResponseShape::Elevation => match &event {
            ServerEvent::ElevationUnderway | ServerEvent::Ko => true,
            _ => false,
        },
    };
    if ok {
        Ok(event)
    } else {
        Err(ClientError::InvalidResponse(String::from_str("Unexpected answer for the command")))
    }
}

/// Whether an answer reports that the command took effect: `ok`, or the
/// start of an elevation.
pub fn is_success(event: &ServerEvent) -> (r: bool)
    ensures
        r == (event@ is Okay || event@ is ElevationUnderway),
{
    match event {
        ServerEvent::Okay | ServerEvent::ElevationUnderway => true,
        _ => false,
    }
}

/// The answer the server gives to `c` when it goes well.
pub open spec fn canned_reply(c: Command) -> Seq<char> {
    match expected_shape(c) {
        ResponseShape::Acknowledgement => "ok"@,
        ResponseShape::TileList => "[player food,]"@,
        ResponseShape::InventorySnapshot => "[food 3]"@,
        ResponseShape::Integer => "2"@,
        ResponseShape::Elevation => "Elevation underway"@,
    }
}

proof fn lemma_words_without_space(s: Seq<char>, n: nat)
    requires
        n <= s.len(),
        forall|i: int| 0 <= i < n ==> !is_space(s[i]),
    ensures
        words_state(s, n) == (Seq::<Seq<char>>::empty(), s.subrange(0, n as int)),
    decreases n,
{
    if n > 0 {
        lemma_words_without_space(s, (n - 1) as nat);
        assert(s.subrange(0, n - 1).push(s[n - 1]) =~= s.subrange(0, n as int));
    } else {
        assert(s.subrange(0, 0) =~= Seq::<char>::empty());
    }
}

proof fn lemma_untrimmed(s: Seq<char>)
    requires
        s.len() > 0,
        !is_space(s[0]),
        !is_space(s.last()),
    ensures
        trim(s) == s,
{
}

/// Each command's usual answer, read back by the codec, has the kind that
/// the command expects: the codec and the commands agree on every verb.
pub proof fn lemma_canned_replies_fit(c: Command)
    ensures
        fits(event_of(canned_reply(c)), expected_shape(c)),
{
    match expected_shape(c) {
        ResponseShape::Acknowledgement => {
            reveal_strlit("ok");
            lemma_untrimmed("ok"@);
        },
        ResponseShape::TileList => {
            reveal_strlit("[player food,]");
            reveal_strlit("player");
            let s = "[player food,]"@;
            lemma_untrimmed(s);
            assert(!starts_ignoring_case(s, "elevation"@)) by {
                reveal_strlit("elevation");
                assert(s.subrange(0, 9)[0] == '[');
            }
            assert(!starts_ignoring_case(s, "message"@)) by {
                reveal_strlit("message");
                assert(s.subrange(0, 7)[0] == '[');
            }
            assert(!same_ignoring_case(s, "ok"@)) by { reveal_strlit("ok"); }
            assert(!same_ignoring_case(s, "ko"@)) by { reveal_strlit("ko"); }
            assert(!same_ignoring_case(s, "dead"@)) by { reveal_strlit("dead"); }
            let inner = bracket_inner(s);
            reveal_strlit("player food,");
            assert(inner =~= "player food,"@);
            lemma_untrimmed(inner);
            let segs = segments_of(inner);
            assert(!is_inventory_list(segs)) by {
                reveal_with_fuel(split_state, 13);
                assert(split_on(inner, ',').last() =~= Seq::<char>::empty());
                assert(trim(Seq::<char>::empty()) =~= Seq::<char>::empty());
                assert(words(Seq::<char>::empty()) =~= Seq::<Seq<char>>::empty());
                assert(!is_inventory_entry(segs[segs.len() - 1]));
            }
        },
        ResponseShape::InventorySnapshot => {
            reveal_strlit("[food 3]");
            reveal_strlit("player");
            let s = "[food 3]"@;
            lemma_untrimmed(s);
            assert(!starts_ignoring_case(s, "elevation"@)) by { reveal_strlit("elevation"); }
            assert(!starts_ignoring_case(s, "message"@)) by {
                reveal_strlit("message");
                assert(s.subrange(0, 7)[0] == '[');
            }
            assert(!same_ignoring_case(s, "ok"@)) by { reveal_strlit("ok"); }
            assert(!same_ignoring_case(s, "ko"@)) by { reveal_strlit("ko"); }
            assert(!same_ignoring_case(s, "dead"@)) by { reveal_strlit("dead"); }
            let inner = bracket_inner(s);
            reveal_strlit("food 3");
            assert(inner =~= "food 3"@);
            lemma_untrimmed(inner);
            let segs = segments_of(inner);
            assert(is_inventory_list(segs)) by {
                lemma_split_without_separator(inner, ',', 6);
                assert(inner.subrange(0, 6) =~= inner);
                assert(split_on(inner, ',') =~= seq![inner]);
                assert(segs =~= seq![inner]);
                lemma_words_without_space(inner, 4);
                assert(words_state(inner, 5) == (seq![inner.subrange(0, 4)], Seq::<char>::empty()));
                assert(Seq::<char>::empty().push(inner[5]) =~= seq!['3']);
                assert(words_state(inner, 6) == (seq![inner.subrange(0, 4)], seq!['3']));
                assert(inner.subrange(0, 4) =~= seq!['f', 'o', 'o', 'd']);
                let w = words(inner);
                assert(w =~= seq![seq!['f', 'o', 'o', 'd'], seq!['3']]);
                assert(all_digits(w[1]));
                assert(digits_value(w[1]) == 3) by {
                    reveal_with_fuel(digits_value, 2);
                    assert(w[1].drop_last() =~= Seq::<char>::empty());
                }
                assert(is_inventory_entry(segs[0]));
            }
        },
        ResponseShape::Integer => {
            reveal_strlit("2");
            let s = "2"@;
            lemma_untrimmed(s);
            assert(!starts_ignoring_case(s, "elevation"@)) by { reveal_strlit("elevation"); }
            assert(!starts_ignoring_case(s, "message"@)) by { reveal_strlit("message"); }
            assert(!same_ignoring_case(s, "ok"@)) by { reveal_strlit("ok"); }
            assert(!same_ignoring_case(s, "ko"@)) by { reveal_strlit("ko"); }
            assert(!same_ignoring_case(s, "dead"@)) by { reveal_strlit("dead"); }
            assert(all_digits(s));
            assert(digits_value(s) == 2) by {
                reveal_with_fuel(digits_value, 2);
                assert(s.drop_last() =~= Seq::<char>::empty());
            }
        },
        ResponseShape::Elevation => {
            reveal_strlit("Elevation underway");
            reveal_strlit("elevation");
            let s = "Elevation underway"@;
            lemma_untrimmed(s);
            assert(!same_ignoring_case(s, "ok"@)) by { reveal_strlit("ok"); }
            assert(!same_ignoring_case(s, "ko"@)) by { reveal_strlit("ko"); }
            assert(!same_ignoring_case(s, "dead"@)) by { reveal_strlit("dead"); }
            let p = s.subrange(0, 9);
            assert(same_ignoring_case(p, "elevation"@)) by {
                assert forall|i: int| 0 <= i < 9 implies folded(#[trigger] p[i]) == "elevation"@[i] as u32 by {
                    assert(p[i] == s[i]);
                }
            }
        },
    }
}

/// What reading one line means for the command waiting on its answer.
#[derive(Debug, Clone)]
pub enum Step {
    /// An out-of-band message, now queued: keep reading.
    Queued,
    /// The answer to the command.
    Answer(ServerEvent),
    /// The agent died: the session is over.
    Fatal(ClientError),
}

/// The waiting messages after the line `line` was read.
pub open spec fn after_line(q: Seq<EventView>, line: Seq<char>) -> Seq<EventView> {
    if event_of(line) is Message {
        q.push(event_of(line))
    } else {
        q
    }
}

/// The waiting messages after each of `lines` was read in turn.
pub open spec fn after_lines(q: Seq<EventView>, lines: Seq<Seq<char>>) -> Seq<EventView>
    decreases lines.len(),
{
    if lines.len() == 0 {
        q
    } else {
        after_line(after_lines(q, lines.drop_last()), lines.last())
    }
}

/// The messages among `lines`, in the order the lines came.
pub open spec fn messages_of(lines: Seq<Seq<char>>) -> Seq<EventView>
    decreases lines.len(),
{
    if lines.len() == 0 {
        Seq::empty()
    } else if event_of(lines.last()) is Message {
        messages_of(lines.drop_last()).push(event_of(lines.last()))
    } else {
        messages_of(lines.drop_last())
    }
}

/// Reading lines never drops, adds or reorders a message: the waiting
/// messages are those that waited before, then the messages among the lines
/// in the order they arrived.
pub proof fn lemma_messages_keep_arrival_order(q: Seq<EventView>, lines: Seq<Seq<char>>)
    ensures
        after_lines(q, lines) == q + messages_of(lines),
    decreases lines.len(),
{
    if lines.len() == 0 {
        assert(q + Seq::<EventView>::empty() =~= q);
    } else {
        lemma_messages_keep_arrival_order(q, lines.drop_last());
        if event_of(lines.last()) is Message {
            assert((q + messages_of(lines.drop_last())).push(event_of(lines.last())) =~= q
                + messages_of(lines.drop_last()).push(event_of(lines.last())));
        }
    }
}

/// The state of one connection's exchange: the messages waiting to be taken.
pub struct Session {
    pending: VecDeque<ServerEvent>,
}

impl Session {
    /// The waiting messages, oldest first.
    pub closed spec fn waiting(&self) -> Seq<EventView> {
        Seq::new(self.pending@.len(), |i: int| self.pending@[i]@)
    }

    pub fn new() -> (r: Self)
        ensures
            r.waiting() == Seq::<EventView>::empty(),
    {
        let r = Session { pending: VecDeque::new() };
        assert(r.waiting() =~= Seq::<EventView>::empty());
        r
    }

    /// Reads one line while a command waits for its answer. A message joins
    /// the back of the queue; `dead` ends the session; anything else is the
    /// answer.
    pub fn on_line(&mut self, line: &str) -> (r: Step)
        ensures
            final(self).waiting() == after_line(old(self).waiting(), line@),
            event_of(line@) is Message ==> r is Queued,
            event_of(line@) is Dead ==> r matches Step::Fatal(ClientError::ConnectionError(_)),
            !(event_of(line@) is Message) && !(event_of(line@) is Dead) ==> (r matches Step::Answer(
                e,
            ) && e@ == event_of(line@)),
    {
        let event = ServerEvent::from_line(line);
        match event {
            ServerEvent::Message(_, _) => {
                let ghost before = self.waiting();
                let ghost ev = event@;
                self.pending.push_back(event);
                assert(self.waiting() =~= before.push(ev));
                Step::Queued
            },
            ServerEvent::Dead => Step::Fatal(
                ClientError::ConnectionError(String::from_str("the agent died")),
            ),
            _ => Step::Answer(event),
        }
    }

    /// Takes the oldest waiting message, without reading the stream.
    pub fn take_next_async(&mut self) -> (r: Option<ServerEvent>)
        ensures
            old(self).waiting().len() == 0 ==> r is None && final(self).waiting() == old(
                self,
            ).waiting(),
            old(self).waiting().len() > 0 ==> (r matches Some(e) && e@ == old(self).waiting()[0]
                && final(self).waiting() == old(self).waiting().drop_first()),
    {
        let ghost before = self.waiting();
        let r = self.pending.pop_front();
        assert(self.waiting() =~= if before.len() > 0 {
            before.drop_first()
        } else {
            before
        });
        r
    }

    /// How many messages wait.
    pub fn pending_count(&self) -> (r: usize)
        ensures
            r == self.waiting().len(),
    {
        self.pending.len()
    }
}

} // verus!
