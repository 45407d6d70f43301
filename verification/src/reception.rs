//! The decisions a subscriber takes while it receives the messages found at
//! a link: fetch them, then for each one read its header, check that it is
//! of the expected kind and unwrap it, stopping at the first failure.
//!
//! The outside work (fetching, reading headers, unwrapping) is done by the
//! caller, which reports each outcome as a [`ReceiveEvent`]; [`Reception::step`]
//! answers with the next [`ReceiveAction`].

use vstd::prelude::*;

verus! {

/// The kind of message a reception expects at its link.
#[derive(Clone, Copy, Debug, PartialEq, Eq, Structural)]
pub enum MessageKind {
    Announcement,
    SignedPacket,
}

/// Why a reception ended without success.
#[derive(Clone, Copy, Debug, PartialEq, Eq, Structural)]
pub enum ReceiveFailure {
    /// The outside layer reported an error (while fetching, while reading a
    /// header, or while unwrapping an announcement); that error is the result.
    Upstream,
    /// A header announced a content type other than the expected kind.
    WrongContentType(MessageKind),
    /// A signed packet could not be unwrapped.
    UnwrapFailed,
}

/// The text of the error a failure raises, or `None` for a failure that
/// passes an outside error on.
pub open spec fn failure_text(failure: ReceiveFailure) -> Option<Seq<char>> {
    match failure {
        ReceiveFailure::Upstream => None,
        ReceiveFailure::WrongContentType(MessageKind::Announcement) => Some(
            "Content type should be announce type"@,
        ),
        ReceiveFailure::WrongContentType(MessageKind::SignedPacket) => Some(
            "Content type should be signed type"@,
        ),
        ReceiveFailure::UnwrapFailed => Some("Error unwrapping packet"@),
    }
}

impl ReceiveFailure {
    /// The text of the error this failure raises; `None` when the outside
    /// error is passed on instead.
    pub fn message(&self) -> (text: Option<String>)
        ensures
            text matches Some(t) ==> failure_text(*self) == Some(t@),
            text is None <==> failure_text(*self) is None,
    {
        match self {
            ReceiveFailure::Upstream => None,
            ReceiveFailure::WrongContentType(MessageKind::Announcement) => {
                proof {
                    reveal_strlit("Content type should be announce type");
                }
                Some(String::from_str("Content type should be announce type"))
            },
            ReceiveFailure::WrongContentType(MessageKind::SignedPacket) => {
                proof {
                    reveal_strlit("Content type should be signed type");
                }
                Some(String::from_str("Content type should be signed type"))
            },
            ReceiveFailure::UnwrapFailed => {
                proof {
                    reveal_strlit("Error unwrapping packet");
                }
                Some(String::from_str("Error unwrapping packet"))
            },
        }
    }
}

/// Where a reception stands.
#[derive(Clone, Copy, Debug, PartialEq, Eq, Structural)]
pub enum Stage {
    /// Waiting for the messages at the link.
    Fetching,
    /// Waiting for the header of message `index` of `count`.
    ReadingHeader { index: usize, count: usize },
    /// Waiting for message `index` of `count` to be unwrapped.
    Unwrapping { index: usize, count: usize },
    /// Done; no further event is accepted.
    Finished,
}

/// What the outside work reported.
#[derive(Clone, Copy, Debug, PartialEq, Eq, Structural)]
pub enum ReceiveEvent {
    /// `count` messages were found at the link.
    Fetched { count: usize },
    /// Fetching the messages failed.
    FetchFailed,
    /// The header was read; `expected_type` tells whether its content type is
    /// the expected kind.
    HeaderRead { expected_type: bool },
    /// The header could not be read.
    HeaderFailed,
    /// The message was unwrapped.
    Unwrapped,
    /// The message could not be unwrapped.
    UnwrapFailed,
}

/// What the caller is to do next.
#[derive(Clone, Copy, Debug, PartialEq, Eq, Structural)]
pub enum ReceiveAction {
    /// Fetch the messages at the link.
    Fetch,
    /// Read the header of message `index`.
    ReadHeader { index: usize },
    /// Unwrap message `index`.
    Unwrap { index: usize },
    /// The reception succeeded.
    Succeed,
    /// The reception failed.
    Fail(ReceiveFailure),
}

/// The events a stage accepts.
pub open spec fn accepts(stage: Stage, event: ReceiveEvent) -> bool {
    match stage {
        Stage::Fetching => event is Fetched || event is FetchFailed,
        Stage::ReadingHeader { .. } => event is HeaderRead || event is HeaderFailed,
        Stage::Unwrapping { .. } => event is Unwrapped || event is UnwrapFailed,
        Stage::Finished => false,
    }
}

/// A message index never reaches the number of messages fetched.
pub open spec fn stage_wf(stage: Stage) -> bool {
    match stage {
        Stage::ReadingHeader { index, count } => index < count,
        Stage::Unwrapping { index, count } => index < count,
        _ => true,
    }
}

/// The failure that an unwrap failure of a message of `kind` leads to: an
/// announcement passes the outside error on, a signed packet reports its own.
pub open spec fn unwrap_failure(kind: MessageKind) -> ReceiveFailure {
    match kind {
        MessageKind::Announcement => ReceiveFailure::Upstream,
        MessageKind::SignedPacket => ReceiveFailure::UnwrapFailed,
    }
}

/// The stage that follows `stage` on `event`, and the action that goes with it.
pub open spec fn transition(kind: MessageKind, stage: Stage, event: ReceiveEvent) -> (Stage, ReceiveAction) {
    match stage {
        Stage::Fetching => match event {
            ReceiveEvent::Fetched { count } => if count == 0 {
                (Stage::Finished, ReceiveAction::Succeed)
            } else {
                (Stage::ReadingHeader { index: 0, count }, ReceiveAction::ReadHeader { index: 0 })
            },
            _ => (Stage::Finished, ReceiveAction::Fail(ReceiveFailure::Upstream)),
        },
        Stage::ReadingHeader { index, count } => match event {
            ReceiveEvent::HeaderRead { expected_type } => if expected_type {
                (Stage::Unwrapping { index, count }, ReceiveAction::Unwrap { index })
            } else {
                (Stage::Finished, ReceiveAction::Fail(ReceiveFailure::WrongContentType(kind)))
            },
            _ => (Stage::Finished, ReceiveAction::Fail(ReceiveFailure::Upstream)),
        },
        Stage::Unwrapping { index, count } => match event {
            ReceiveEvent::Unwrapped => if index + 1 == count {
                (Stage::Finished, ReceiveAction::Succeed)
            } else {
                (
                    Stage::ReadingHeader { index: (index + 1) as usize, count },
                    ReceiveAction::ReadHeader { index: (index + 1) as usize },
                )
            },
            _ => (Stage::Finished, ReceiveAction::Fail(unwrap_failure(kind))),
        },
        Stage::Finished => (Stage::Finished, ReceiveAction::Succeed),
    }
}

/// Feeds `events` one by one to a reception of `kind` that stands at `stage`:
/// the stage reached and the actions answered, or `None` when an event comes
/// that the stage it meets does not accept.
pub open spec fn feed(kind: MessageKind, stage: Stage, events: Seq<ReceiveEvent>) -> Option<
    (Stage, Seq<ReceiveAction>),
>
    decreases events.len(),
{
    if events.len() == 0 {
        Some((stage, Seq::empty()))
    } else if !accepts(stage, events[0]) {
        None
    } else {
        let next = transition(kind, stage, events[0]);
        match feed(kind, next.0, events.drop_first()) {
            Some(rest) => Some((rest.0, seq![next.1] + rest.1)),
            None => None,
        }
    }
}

/// `rounds` times: a header of the expected kind is read, then the message
/// is unwrapped.
pub open spec fn unwrap_rounds(rounds: nat) -> Seq<ReceiveEvent>
    decreases rounds,
{
    if rounds == 0 {
        Seq::empty()
    } else {
        seq![ReceiveEvent::HeaderRead { expected_type: true }, ReceiveEvent::Unwrapped]
            + unwrap_rounds((rounds - 1) as nat)
    }
}

/// The events of a reception in which `count` messages are fetched and each
/// of them has a header of the expected kind and is unwrapped.
pub open spec fn success_events(count: usize) -> Seq<ReceiveEvent> {
    seq![ReceiveEvent::Fetched { count }] + unwrap_rounds(count as nat)
}

/// The actions answered to [`success_events`]: the header of each message is
/// read and the message unwrapped, in order, and then the reception succeeds.
pub open spec fn success_actions(count: usize) -> Seq<ReceiveAction> {
    Seq::new(
        (2 * count + 1) as nat,
        |k: int|
            if k == 2 * count {
                ReceiveAction::Succeed
            } else if k % 2 == 0 {
                ReceiveAction::ReadHeader { index: (k / 2) as usize }
            } else {
                ReceiveAction::Unwrap { index: (k / 2) as usize }
            },
    )
}

/// Whether feeding `events` from `stage` ends in success.
pub open spec fn ends_in_success(kind: MessageKind, stage: Stage, events: Seq<ReceiveEvent>) -> bool {
    match feed(kind, stage, events) {
        Some(fed) => fed.1.len() > 0 && fed.1.last() == ReceiveAction::Succeed,
        None => false,
    }
}

proof fn lemma_feed_finished(kind: MessageKind, events: Seq<ReceiveEvent>)
    ensures
        feed(kind, Stage::Finished, events) is Some ==> events.len() == 0,
{
}

/// One step of [`feed`], unfolded.
proof fn lemma_feed_step(kind: MessageKind, stage: Stage, events: Seq<ReceiveEvent>)
    requires
        events.len() > 0,
        accepts(stage, events[0]),
    ensures
        feed(kind, stage, events) == (match feed(
            kind,
            transition(kind, stage, events[0]).0,
            events.drop_first(),
        ) {
            Some(rest) => Some((rest.0, seq![transition(kind, stage, events[0]).1] + rest.1)),
            None => None,
        }),
{
}

/// A fed sequence that ends in success has, past its first event, a rest
/// that ends in success too, unless the first event already finished it.
proof fn lemma_success_rest(kind: MessageKind, stage: Stage, events: Seq<ReceiveEvent>)
    requires
        ends_in_success(kind, stage, events),
    ensures
        events.len() > 0,
        accepts(stage, events[0]),
        transition(kind, stage, events[0]).0 == Stage::Finished ==> (events.len() == 1
            && transition(kind, stage, events[0]).1 == ReceiveAction::Succeed),
        transition(kind, stage, events[0]).0 != Stage::Finished ==> ends_in_success(
            kind,
            transition(kind, stage, events[0]).0,
            events.drop_first(),
        ),
{
    assert(events.len() > 0);
    assert(accepts(stage, events[0]));
    let t = transition(kind, stage, events[0]);
    let rest = events.drop_first();
    lemma_feed_step(kind, stage, events);
    let fed_rest = feed(kind, t.0, rest).unwrap();
    let fed = feed(kind, stage, events).unwrap();
    assert(fed.1 == seq![t.1] + fed_rest.1);
    if t.0 == Stage::Finished {
        lemma_feed_finished(kind, rest);
        assert(fed_rest.1.len() == 0);
        assert(fed.1.last() == t.1);
    } else {
        if fed_rest.1.len() == 0 {
            assert(fed.1.last() == t.1);
            assert(rest.len() == 0);
            assert(false);
        }
        assert(fed_rest.1.last() == fed.1.last());
    }
}

proof fn lemma_rounds_succeed(kind: MessageKind, index: usize, count: usize)
    requires
        index < count,
    ensures
        feed(kind, Stage::ReadingHeader { index, count }, unwrap_rounds((count - index) as nat))
            == Some((Stage::Finished, success_actions(count).skip(2 * index + 1))),
    decreases count - index,
{
    let stage = Stage::ReadingHeader { index, count };
    let unwrapping = Stage::Unwrapping { index, count };
    let events = unwrap_rounds((count - index) as nat);
    let rest = unwrap_rounds((count - index - 1) as nat);
    let e1 = events.drop_first();
    assert(events[0] == ReceiveEvent::HeaderRead { expected_type: true });
    assert(e1 =~= seq![ReceiveEvent::Unwrapped] + rest);
    assert(e1[0] == ReceiveEvent::Unwrapped);
    assert(e1.drop_first() =~= rest);
    lemma_feed_step(kind, stage, events);
    lemma_feed_step(kind, unwrapping, e1);
    let all = success_actions(count);
    if index + 1 == count {
        assert(rest.len() == 0);
        assert(feed(kind, Stage::Finished, rest) == Some(
            (Stage::Finished, Seq::<ReceiveAction>::empty()),
        ));
        assert(all.skip(2 * index + 1) =~= seq![
            ReceiveAction::Unwrap { index },
            ReceiveAction::Succeed,
        ]);
        assert(seq![ReceiveAction::Unwrap { index }] + (seq![ReceiveAction::Succeed]
            + Seq::<ReceiveAction>::empty()) =~= all.skip(2 * index + 1));
    } else {
        let next = (index + 1) as usize;
        lemma_rounds_succeed(kind, next, count);
        assert(seq![ReceiveAction::Unwrap { index }] + (seq![
            ReceiveAction::ReadHeader { index: next },
        ] + all.skip(2 * next + 1)) =~= all.skip(2 * index + 1));
    }
}

proof fn lemma_rounds_only(kind: MessageKind, index: usize, count: usize, events: Seq<ReceiveEvent>)
    requires
        index < count,
        ends_in_success(kind, Stage::ReadingHeader { index, count }, events),
    ensures
        events == unwrap_rounds((count - index) as nat),
    decreases events.len(),
{
    let stage = Stage::ReadingHeader { index, count };
    lemma_success_rest(kind, stage, events);
    let first = events[0];
    let rest = events.drop_first();
    let unwrapping = transition(kind, stage, first).0;
    assert(first == ReceiveEvent::HeaderRead { expected_type: true });
    assert(unwrapping == Stage::Unwrapping { index, count });
    lemma_success_rest(kind, unwrapping, rest);
    let second = rest[0];
    let rest2 = rest.drop_first();
    assert(second == ReceiveEvent::Unwrapped);
    assert(events =~= seq![first, second] + rest2);
    let target = unwrap_rounds((count - index) as nat);
    assert(target == seq![first, second] + unwrap_rounds((count - index - 1) as nat));
    if index + 1 == count {
        assert(rest2 =~= Seq::<ReceiveEvent>::empty());
    } else {
        let next = (index + 1) as usize;
        lemma_rounds_only(kind, next, count, rest2);
    }
}

/// A reception of `count` messages, each with a header of the expected kind
/// and each unwrapped, reads every header and unwraps every message once, in
/// order, and then succeeds.
pub proof fn law_complete_reception_succeeds(kind: MessageKind, count: usize)
    ensures
        feed(kind, Stage::Fetching, success_events(count)) == Some(
            (Stage::Finished, success_actions(count)),
        ),
{
    let events = success_events(count);
    let rest = unwrap_rounds(count as nat);
    assert(events[0] == ReceiveEvent::Fetched { count });
    assert(events.drop_first() =~= rest);
    lemma_feed_step(kind, Stage::Fetching, events);
    if count == 0 {
        assert(rest.len() == 0);
        assert(success_actions(count) =~= seq![ReceiveAction::Succeed] + Seq::<
            ReceiveAction,
        >::empty());
    } else {
        lemma_rounds_succeed(kind, 0, count);
        assert(success_actions(count) =~= seq![ReceiveAction::ReadHeader { index: 0 }]
            + success_actions(count).skip(1));
    }
}

/// A reception succeeds exactly when the messages are fetched and each of
/// them has a header of the expected kind and is unwrapped: any other course
/// of events ends in failure or leaves the reception unfinished.
pub proof fn law_success_only_on_complete_reception(kind: MessageKind, events: Seq<ReceiveEvent>)
    ensures
        ends_in_success(kind, Stage::Fetching, events) <==> (events.len() > 0
            && events[0] is Fetched && events == success_events(events[0]->count)),
{
    if events.len() > 0 && events[0] is Fetched && events == success_events(events[0]->count) {
        let count = events[0]->count;
        law_complete_reception_succeeds(kind, count);
        assert(success_actions(count).len() > 0);
        assert(success_actions(count).last() == ReceiveAction::Succeed);
    }
    if ends_in_success(kind, Stage::Fetching, events) {
        lemma_success_rest(kind, Stage::Fetching, events);
        let first = events[0];
        let rest = events.drop_first();
        assert(first is Fetched);
        let count = first->count;
        assert(events =~= seq![first] + rest);
        if count == 0 {
            assert(rest =~= unwrap_rounds(0));
        } else {
            lemma_rounds_only(kind, 0, count, rest);
        }
    }
}

/// Going through `rounds` good messages from message `index` on, then on with
/// `tail`.
proof fn lemma_rounds_prefix(
    kind: MessageKind,
    index: usize,
    rounds: nat,
    count: usize,
    tail: Seq<ReceiveEvent>,
)
    requires
        index + rounds < count,
    ensures
        feed(kind, Stage::ReadingHeader { index, count }, unwrap_rounds(rounds) + tail) == (match feed(
            kind,
            Stage::ReadingHeader { index: (index + rounds) as usize, count },
            tail,
        ) {
            Some(rest) => Some(
                (
                    rest.0,
                    success_actions(count).subrange(2 * index + 1, 2 * (index + rounds) + 1)
                        + rest.1,
                ),
            ),
            None => None,
        }),
    decreases rounds,
{
    let stage = Stage::ReadingHeader { index, count };
    let all = success_actions(count);
    if rounds == 0 {
        assert(unwrap_rounds(rounds) + tail =~= tail);
        match feed(kind, stage, tail) {
            Some(rest) => {
                assert(all.subrange(2 * index + 1, 2 * index + 1) + rest.1 =~= rest.1);
            },
            None => {},
        }
    } else {
        let next = (index + 1) as usize;
        let later = unwrap_rounds((rounds - 1) as nat) + tail;
        let events = unwrap_rounds(rounds) + tail;
        let e1 = events.drop_first();
        assert(events[0] == ReceiveEvent::HeaderRead { expected_type: true });
        assert(e1 =~= seq![ReceiveEvent::Unwrapped] + later);
        assert(e1[0] == ReceiveEvent::Unwrapped);
        assert(e1.drop_first() =~= later);
        lemma_feed_step(kind, stage, events);
        lemma_feed_step(kind, Stage::Unwrapping { index, count }, e1);
        lemma_rounds_prefix(kind, next, (rounds - 1) as nat, count, tail);
        match feed(kind, Stage::ReadingHeader { index: (index + rounds) as usize, count }, tail) {
            Some(rest) => {
                assert(seq![ReceiveAction::Unwrap { index }] + (seq![
                    ReceiveAction::ReadHeader { index: next },
                ] + (all.subrange(2 * next + 1, 2 * (index + rounds) + 1) + rest.1)) =~= all.subrange(
                    2 * index + 1,
                    2 * (index + rounds) + 1,
                ) + rest.1);
            },
            None => {},
        }
    }
}

/// A reception in which the first `good` of `count` messages are read and
/// unwrapped, and the header of the next one is of another kind, reads and
/// unwraps those `good` messages in order and then fails with the wrong
/// content type, without unwrapping the message of the wrong kind.
pub proof fn law_wrong_content_type_stops_reception(kind: MessageKind, count: usize, good: usize)
    requires
        good < count,
    ensures
        feed(
            kind,
            Stage::Fetching,
            seq![ReceiveEvent::Fetched { count }] + unwrap_rounds(good as nat) + seq![
                ReceiveEvent::HeaderRead { expected_type: false },
            ],
        ) == Some(
            (
                Stage::Finished,
                success_actions(count).take(2 * good + 1) + seq![
                    ReceiveAction::Fail(ReceiveFailure::WrongContentType(kind)),
                ],
            ),
        ),
{
    let tail = seq![ReceiveEvent::HeaderRead { expected_type: false }];
    let events = seq![ReceiveEvent::Fetched { count }] + unwrap_rounds(good as nat) + tail;
    assert(events[0] == ReceiveEvent::Fetched { count });
    assert(events.drop_first() =~= unwrap_rounds(good as nat) + tail);
    lemma_feed_step(kind, Stage::Fetching, events);
    lemma_rounds_prefix(kind, 0, good as nat, count, tail);
    let at = Stage::ReadingHeader { index: good, count };
    lemma_feed_step(kind, at, tail);
    assert(tail.drop_first() =~= Seq::<ReceiveEvent>::empty());
    let all = success_actions(count);
    assert(seq![ReceiveAction::ReadHeader { index: 0 }] + (all.subrange(1, 2 * good + 1) + (seq![
        ReceiveAction::Fail(ReceiveFailure::WrongContentType(kind)),
    ] + Seq::<ReceiveAction>::empty())) =~= all.take(2 * good + 1) + seq![
        ReceiveAction::Fail(ReceiveFailure::WrongContentType(kind)),
    ]);
}

/// A reception in which the first `good` of `count` messages are read and
/// unwrapped, and the header of the next one cannot be read, reads and
/// unwraps those `good` messages in order and then fails with the outside
/// error, without unwrapping the message whose header failed.
pub proof fn law_header_failure_stops_reception(kind: MessageKind, count: usize, good: usize)
    requires
        good < count,
    ensures
        feed(
            kind,
            Stage::Fetching,
            seq![ReceiveEvent::Fetched { count }] + unwrap_rounds(good as nat) + seq![
                ReceiveEvent::HeaderFailed,
            ],
        ) == Some(
            (
                Stage::Finished,
                success_actions(count).take(2 * good + 1) + seq![
                    ReceiveAction::Fail(ReceiveFailure::Upstream),
                ],
            ),
        ),
{
    let tail = seq![ReceiveEvent::HeaderFailed];
    let events = seq![ReceiveEvent::Fetched { count }] + unwrap_rounds(good as nat) + tail;
    assert(events[0] == ReceiveEvent::Fetched { count });
    assert(events.drop_first() =~= unwrap_rounds(good as nat) + tail);
    lemma_feed_step(kind, Stage::Fetching, events);
    lemma_rounds_prefix(kind, 0, good as nat, count, tail);
    let at = Stage::ReadingHeader { index: good, count };
    lemma_feed_step(kind, at, tail);
    assert(tail.drop_first() =~= Seq::<ReceiveEvent>::empty());
    let all = success_actions(count);
    assert(seq![ReceiveAction::ReadHeader { index: 0 }] + (all.subrange(1, 2 * good + 1) + (seq![
        ReceiveAction::Fail(ReceiveFailure::Upstream),
    ] + Seq::<ReceiveAction>::empty())) =~= all.take(2 * good + 1) + seq![
        ReceiveAction::Fail(ReceiveFailure::Upstream),
    ]);
}

/// A reception in which the first `good` of `count` messages are read and
/// unwrapped, and the next one has a header of the expected kind but cannot
/// be unwrapped, fails right after that attempt: with the outside error for
/// an announcement, with its own error for a signed packet.
pub proof fn law_unwrap_failure_stops_reception(kind: MessageKind, count: usize, good: usize)
    requires
        good < count,
    ensures
        feed(
            kind,
            Stage::Fetching,
            seq![ReceiveEvent::Fetched { count }] + unwrap_rounds(good as nat) + seq![
                ReceiveEvent::HeaderRead { expected_type: true },
                ReceiveEvent::UnwrapFailed,
            ],
        ) == Some(
            (
                Stage::Finished,
                success_actions(count).take(2 * good + 2) + seq![
                    ReceiveAction::Fail(unwrap_failure(kind)),
                ],
            ),
        ),
{
    let tail = seq![ReceiveEvent::HeaderRead { expected_type: true }, ReceiveEvent::UnwrapFailed];
    let events = seq![ReceiveEvent::Fetched { count }] + unwrap_rounds(good as nat) + tail;
    assert(events[0] == ReceiveEvent::Fetched { count });
    assert(events.drop_first() =~= unwrap_rounds(good as nat) + tail);
    lemma_feed_step(kind, Stage::Fetching, events);
    lemma_rounds_prefix(kind, 0, good as nat, count, tail);
    let at = Stage::ReadingHeader { index: good, count };
    lemma_feed_step(kind, at, tail);
    let t1 = tail.drop_first();
    assert(t1 =~= seq![ReceiveEvent::UnwrapFailed]);
    lemma_feed_step(kind, Stage::Unwrapping { index: good, count }, t1);
    assert(t1.drop_first() =~= Seq::<ReceiveEvent>::empty());
    let all = success_actions(count);
    let fail = ReceiveAction::Fail(unwrap_failure(kind));
    assert(seq![ReceiveAction::ReadHeader { index: 0 }] + (all.subrange(1, 2 * good + 1) + (seq![
        ReceiveAction::Unwrap { index: good },
    ] + (seq![fail] + Seq::<ReceiveAction>::empty()))) =~= all.take(2 * good + 2) + seq![fail]);
}

/// A failed fetch ends the reception at once with the outside error, for
/// either kind of message: no header is checked and nothing is unwrapped.
pub proof fn law_fetch_failure_passes_error_on(kind: MessageKind)
    ensures
        feed(kind, Stage::Fetching, seq![ReceiveEvent::FetchFailed]) == Some(
            (Stage::Finished, seq![ReceiveAction::Fail(ReceiveFailure::Upstream)]),
        ),
{
    let events = seq![ReceiveEvent::FetchFailed];
    lemma_feed_step(kind, Stage::Fetching, events);
    assert(events.drop_first() =~= Seq::<ReceiveEvent>::empty());
    assert(seq![ReceiveAction::Fail(ReceiveFailure::Upstream)] + Seq::<ReceiveAction>::empty()
        =~= seq![ReceiveAction::Fail(ReceiveFailure::Upstream)]);
}

/// Each answer has its own cause. The wrong content type is answered to a
/// header of another kind, and to nothing else, and names the kind expected;
/// the reception's own unwrap error is answered to a signed packet that could
/// not be unwrapped, and to nothing else; the outside error is passed on
/// exactly when fetching, reading a header, or unwrapping an announcement
/// failed; success comes only with an empty fetch or the last message
/// unwrapped.
pub proof fn law_each_answer_has_its_cause(kind: MessageKind, stage: Stage, event: ReceiveEvent)
    requires
        accepts(stage, event),
    ensures
        forall|expected: MessageKind|
            transition(kind, stage, event).1 == ReceiveAction::Fail(
                ReceiveFailure::WrongContentType(expected),
            ) ==> expected == kind,
        (transition(kind, stage, event).1 == ReceiveAction::Fail(
            ReceiveFailure::WrongContentType(kind),
        )) <==> event == (ReceiveEvent::HeaderRead { expected_type: false }),
        (transition(kind, stage, event).1 == ReceiveAction::Fail(ReceiveFailure::UnwrapFailed))
            <==> (event == ReceiveEvent::UnwrapFailed && kind == MessageKind::SignedPacket),
        (transition(kind, stage, event).1 == ReceiveAction::Fail(ReceiveFailure::Upstream)) <==> (
        event == ReceiveEvent::FetchFailed || event == ReceiveEvent::HeaderFailed || (event
            == ReceiveEvent::UnwrapFailed && kind == MessageKind::Announcement)),
        transition(kind, stage, event).1 == ReceiveAction::Succeed ==> (event == (
        ReceiveEvent::Fetched { count: 0 }) || (event == ReceiveEvent::Unwrapped && (
        stage matches Stage::Unwrapping { index, count } && index + 1 == count))),
{
}

/// A message is unwrapped only right after its header was read and found to
/// be of the expected kind.
pub proof fn law_unwrap_follows_matching_header(
    kind: MessageKind,
    stage: Stage,
    event: ReceiveEvent,
    index: usize,
)
    requires
        accepts(stage, event),
        transition(kind, stage, event).1 == (ReceiveAction::Unwrap { index }),
    ensures
        event == (ReceiveEvent::HeaderRead { expected_type: true }),
        stage matches Stage::ReadingHeader { index: i, .. } && i == index,
{
}

/// Every message index the reception hands out is below the number of
/// messages fetched, and a reception that finishes accepts no further event.
pub proof fn law_indices_in_range_and_finish_is_final(
    kind: MessageKind,
    stage: Stage,
    event: ReceiveEvent,
)
    requires
        stage_wf(stage),
        accepts(stage, event),
    ensures
        stage_wf(transition(kind, stage, event).0),
        (transition(kind, stage, event).1 is Succeed || transition(kind, stage, event).1 is Fail)
            <==> transition(kind, stage, event).0 == Stage::Finished,
        forall|later: ReceiveEvent|
            transition(kind, stage, event).0 == Stage::Finished ==> !accepts(
                transition(kind, stage, event).0,
                later,
            ),
{
}

/// A reception of the messages at one link.
pub struct Reception {
    kind: MessageKind,
    stage: Stage,
}

impl View for Reception {
    type V = (MessageKind, Stage);

    closed spec fn view(&self) -> (MessageKind, Stage) {
        (self.kind, self.stage)
    }
}

impl Reception {
    /// The reception's invariant.
    pub open spec fn wf(&self) -> bool {
        stage_wf(self@.1)
    }

    /// Starts a reception of messages of `kind`; the first action is to fetch.
    pub fn new(kind: MessageKind) -> (res: (Reception, ReceiveAction))
        ensures
            res.0@ == (kind, Stage::Fetching),
            res.0.wf(),
            res.1 == ReceiveAction::Fetch,
    {
        (Reception { kind, stage: Stage::Fetching }, ReceiveAction::Fetch)
    }

    /// The kind of message expected.
    pub fn kind(&self) -> (k: MessageKind)
        ensures
            k == self@.0,
    {
        self.kind
    }

    /// Where the reception stands.
    pub fn stage(&self) -> (s: Stage)
        ensures
            s == self@.1,
    {
        self.stage
    }

    /// Whether the reception is over.
    pub fn is_finished(&self) -> (b: bool)
        ensures
            b == (self@.1 == Stage::Finished),
    {
        match self.stage {
            Stage::Finished => true,
            _ => false,
        }
    }

    /// Whether `event` is one the reception can take now.
    pub fn expects(&self, event: &ReceiveEvent) -> (b: bool)
        ensures
            b == accepts(self@.1, *event),
    {
        match self.stage {
            Stage::Fetching => match event {
                ReceiveEvent::Fetched { .. } | ReceiveEvent::FetchFailed => true,
                _ => false,
            },
            Stage::ReadingHeader { .. } => match event {
                ReceiveEvent::HeaderRead { .. } | ReceiveEvent::HeaderFailed => true,
                _ => false,
            },
            Stage::Unwrapping { .. } => match event {
                ReceiveEvent::Unwrapped | ReceiveEvent::UnwrapFailed => true,
                _ => false,
            },
            Stage::Finished => false,
        }
    }

    /// Takes the outcome of the last action and answers with the next one.
    pub fn step(&mut self, event: ReceiveEvent) -> (action: ReceiveAction)
        requires
            old(self).wf(),
            accepts(old(self)@.1, event),
        ensures
            final(self).wf(),
            final(self)@.0 == old(self)@.0,
            (final(self)@.1, action) == transition(old(self)@.0, old(self)@.1, event),
    {
        let (stage, action) = match self.stage {
            Stage::Fetching => match event {
                ReceiveEvent::Fetched { count } => if count == 0 {
                    (Stage::Finished, ReceiveAction::Succeed)
                } else {
                    (Stage::ReadingHeader { index: 0, count }, ReceiveAction::ReadHeader { index: 0 })
                },
                _ => (Stage::Finished, ReceiveAction::Fail(ReceiveFailure::Upstream)),
            },
            Stage::ReadingHeader { index, count } => match event {
                ReceiveEvent::HeaderRead { expected_type } => if expected_type {
                    (Stage::Unwrapping { index, count }, ReceiveAction::Unwrap { index })
                } else {
                    (Stage::Finished, ReceiveAction::Fail(ReceiveFailure::WrongContentType(self.kind)))
                },
                _ => (Stage::Finished, ReceiveAction::Fail(ReceiveFailure::Upstream)),
            },
            Stage::Unwrapping { index, count } => match event {
                ReceiveEvent::Unwrapped => if index + 1 == count {
                    (Stage::Finished, ReceiveAction::Succeed)
                } else {
                    (Stage::ReadingHeader { index: index + 1, count }, ReceiveAction::ReadHeader { index: index + 1 })
                },
                _ => {
                    let failure = match self.kind {
                        MessageKind::Announcement => ReceiveFailure::Upstream,
                        MessageKind::SignedPacket => ReceiveFailure::UnwrapFailed,
                    };
                    (Stage::Finished, ReceiveAction::Fail(failure))
                },
            },
            Stage::Finished => (Stage::Finished, ReceiveAction::Succeed),
        };
        self.stage = stage;
        action
    }
}

} // verus!
