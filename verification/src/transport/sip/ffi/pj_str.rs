//! The order of the calls that build and send a SIP response.
//!
//! Every response with custom headers goes through the same dance: create a
//! pool, build the headers in it, hand them over with the response, and, for a
//! stateless response, release the pool. The functions here decide, from what
//! the last pjsua call gave, which call comes next and with which result the
//! dance ends. The calls themselves are made by the caller.
//!
//! A header is a pair of a name, typically a literal, and a value, any runtime
//! string.

use crate::transport::sip::error::InteriorNul;
use crate::transport::sip::error::SipResponseError;
use vstd::prelude::*;
use vstd::string::StringSliceAdditionalSpecFns;

verus! {

/// The status of a pj call that has succeeded.
pub const PJ_SUCCESS: i32 = 0;

/// The place of the first NUL byte.
pub open spec fn first_nul(bytes: Seq<u8>) -> Option<usize>
    decreases bytes.len(),
{
    if bytes.len() == 0 {
        None
    } else {
        match first_nul(bytes.drop_last()) {
            Some(position) => Some(position),
            None => if bytes.last() == 0 {
                Some((bytes.len() - 1) as usize)
            } else {
                None
            },
        }
    }
}

proof fn lemma_first_nul_stays(bytes: Seq<u8>, n: int)
    requires
        0 <= n <= bytes.len(),
        first_nul(bytes.take(n)) is Some,
    ensures
        first_nul(bytes) == first_nul(bytes.take(n)),
    decreases bytes.len() - n,
{
    if n < bytes.len() {
        assert(bytes.take(n + 1).drop_last() =~= bytes.take(n));
        lemma_first_nul_stays(bytes, n + 1);
    } else {
        assert(bytes.take(n) =~= bytes);
    }
}

/// The first NUL byte is a NUL byte with none before it; where there is no
/// first one there is none.
pub proof fn law_first_nul_is_first(bytes: Seq<u8>)
    requires
        bytes.len() <= usize::MAX,
    ensures
        match first_nul(bytes) {
            Some(position) => {
                &&& position < bytes.len()
                &&& bytes[position as int] == 0
                &&& forall|i: int| 0 <= i < position ==> #[trigger] bytes[i] != 0
            },
            None => forall|i: int| 0 <= i < bytes.len() ==> #[trigger] bytes[i] != 0,
        },
    decreases bytes.len(),
{
    if bytes.len() > 0 {
        law_first_nul_is_first(bytes.drop_last());
        assert(forall|i: int|
            0 <= i < bytes.len() - 1 ==> bytes.drop_last()[i] == #[trigger] bytes[i]);
    }
}

/// Whether a text can become a C string: it holds no NUL byte.
pub fn check_c_string(value: &str) -> (checked: Result<(), InteriorNul>)
    ensures
        match first_nul(value.spec_bytes()) {
            Some(position) => checked == Err::<(), InteriorNul>(InteriorNul { position }),
            None => checked is Ok,
        },
{
    let bytes: &[u8] = value.as_bytes();
    let mut i: usize = 0;
    while i < bytes.len()
        invariant
            i <= bytes.len(),
            bytes@ == value.spec_bytes(),
            first_nul(bytes@.take(i as int)) is None,
        decreases bytes.len() - i,
    {
        assert(bytes@.take(i + 1).drop_last() =~= bytes@.take(i as int));
        if bytes[i] == 0 {
            proof {
                lemma_first_nul_stays(bytes@, i + 1);
            }
            return Err(InteriorNul { position: i });
        }
        i += 1;
    }
    assert(bytes@.take(i as int) =~= bytes@);
    Ok(())
}

/// The result of making a header from a value: `created` says whether pjsip
/// gave a header for it, which is asked only where the value can become a C
/// string.
pub fn make_string_hdr(value: &str, created: bool) -> (made: Result<(), SipResponseError>)
    ensures
        match first_nul(value.spec_bytes()) {
            Some(position) => made == Err::<(), SipResponseError>(
                SipResponseError::CStringNul(InteriorNul { position }),
            ),
            None => if created {
                made is Ok
            } else {
                made == Err::<(), SipResponseError>(SipResponseError::HeaderCreate)
            },
        },
{
    match check_c_string(value) {
        Err(error) => Err(SipResponseError::CStringNul(error)),
        Ok(()) => if created {
            Ok(())
        } else {
            Err(SipResponseError::HeaderCreate)
        },
    }
}

/// What comes next for the headers.
#[derive(Debug, Clone, Copy, PartialEq, Eq, Structural)]
pub enum HeaderStep {
    /// Make the header at this place and append it to the list.
    Add(usize),
    /// All headers are on the list.
    AllAdded,
    /// The value of the next header cannot become a C string.
    Invalid(InteriorNul),
}

/// What comes next when the first `added` headers are on the list.
pub open spec fn header_step(headers: Seq<(&str, &str)>, added: int) -> HeaderStep {
    if added >= headers.len() {
        HeaderStep::AllAdded
    } else {
        match first_nul(headers[added].1.spec_bytes()) {
            Some(position) => HeaderStep::Invalid(InteriorNul { position }),
            None => HeaderStep::Add(added as usize),
        }
    }
}

fn next_header(headers: &[(&str, &str)], added: usize) -> (step: HeaderStep)
    ensures
        step == header_step(headers@, added as int),
{
    if added >= headers.len() {
        return HeaderStep::AllAdded;
    }
    match check_c_string(headers[added].1) {
        Err(error) => HeaderStep::Invalid(error),
        Ok(()) => HeaderStep::Add(added),
    }
}

/// What has happened while a call is being answered.
#[derive(Debug, Clone, Copy, PartialEq, Eq, Structural)]
pub enum AnswerEvent {
    /// Nothing yet
    Begin,
    /// `pjsua_pool_create` gave a pool, or null.
    Pool { created: bool },
    /// `pjsip_generic_string_hdr_create` gave the header at `index`, which was
    /// then appended to the list, or null.
    Header { index: usize, created: bool },
    /// `pjsua_call_answer` gave this status.
    Answered { status: i32 },
}

/// What to do next to answer a call.
#[derive(Debug)]
pub enum AnswerAction {
    /// Create the pool for the headers.
    CreatePool,
    /// Make the header at this place and append it to the list.
    AddHeader(usize),
    /// Answer the call with the headers on the list.
    Answer,
    /// Stop with this result.
    Finish(Result<(), SipResponseError>),
}

/// The next action once the first `added` headers are on the list.
pub open spec fn answer_headers(headers: Seq<(&str, &str)>, added: int) -> AnswerAction {
    match header_step(headers, added) {
        HeaderStep::Add(index) => AnswerAction::AddHeader(index),
        HeaderStep::AllAdded => AnswerAction::Answer,
        HeaderStep::Invalid(error) => AnswerAction::Finish(
            Err(SipResponseError::CStringNul(error)),
        ),
    }
}

/// The action that follows an event.
pub open spec fn answer_step(headers: Seq<(&str, &str)>, event: AnswerEvent) -> AnswerAction {
    match event {
        AnswerEvent::Begin => AnswerAction::CreatePool,
        AnswerEvent::Pool { created: false } => AnswerAction::Finish(
            Err(SipResponseError::PoolAlloc),
        ),
        AnswerEvent::Pool { created: true } => answer_headers(headers, 0),
        AnswerEvent::Header { created: false, .. } => AnswerAction::Finish(
            Err(SipResponseError::HeaderCreate),
        ),
        AnswerEvent::Header { index, created: true } => answer_headers(headers, index + 1),
        AnswerEvent::Answered { status } => AnswerAction::Finish(
            if status == PJ_SUCCESS {
                Ok(())
            } else {
                Err(SipResponseError::CallAnswer(status))
            },
        ),
    }
}

/// Answer a pjsua call with N custom headers attached to the response: what
/// follows an event.
///
/// **The pool is intentionally NOT released.** pjsua may continue to reference
/// the header data after `pjsua_call_answer` returns; releasing the pool would
/// leave it with dangling references. Each call leaks ~512 bytes that are
/// reclaimed when pjsua shuts down.
///
/// On error, the caller typically follows up with a hangup; this does not hang
/// up on its own so the caller can choose the strategy.
pub fn answer_call_with_headers(headers: &[(&str, &str)], event: AnswerEvent) -> (action:
    AnswerAction)
    requires
        event matches AnswerEvent::Header { index, .. } ==> index < headers.len(),
    ensures
        action == answer_step(headers@, event),
{
    let added: usize = match event {
        AnswerEvent::Begin => {
            return AnswerAction::CreatePool;
        },
        AnswerEvent::Pool { created } => if created {
            0
        } else {
            return AnswerAction::Finish(Err(SipResponseError::PoolAlloc));
        },
        AnswerEvent::Header { index, created } => if created {
            index + 1
        } else {
            return AnswerAction::Finish(Err(SipResponseError::HeaderCreate));
        },
        AnswerEvent::Answered { status } => {
            return AnswerAction::Finish(
                if status == PJ_SUCCESS {
                    Ok(())
                } else {
                    Err(SipResponseError::CallAnswer(status))
                },
            );
        },
    };
    match next_header(headers, added) {
        HeaderStep::Add(index) => AnswerAction::AddHeader(index),
        HeaderStep::AllAdded => AnswerAction::Answer,
        HeaderStep::Invalid(error) => AnswerAction::Finish(
            Err(SipResponseError::CStringNul(error)),
        ),
    }
}

/// What has happened while a stateless response is being sent.
#[derive(Debug, Clone, Copy, PartialEq, Eq, Structural)]
pub enum StatelessEvent {
    /// Nothing yet
    Begin,
    /// `pjsua_get_pjsip_endpt` gave the endpoint, or null.
    Endpoint { found: bool },
    /// `pjsua_pool_create` gave a pool, or null.
    Pool { created: bool },
    /// `pj_pool_alloc` gave the head of the header list, or null.
    HeaderList { allocated: bool },
    /// `pjsip_generic_string_hdr_create` gave the header at `index`, which was
    /// then appended to the list, or null.
    Header { index: usize, created: bool },
    /// `pjsip_endpt_respond_stateless` gave this status.
    Sent { status: i32 },
}

/// What to do next to send a stateless response.
#[derive(Debug)]
pub enum StatelessAction {
    /// Get the endpoint.
    GetEndpoint,
    /// Create the pool for the response.
    CreatePool,
    /// Allocate the head of the header list in the pool, and make it an empty
    /// list.
    AllocHeaderList,
    /// Make the header at this place and append it to the list.
    AddHeader(usize),
    /// Send the response with the headers on the list.
    Send,
    /// Stop with this result. There is no pool.
    Finish(Result<(), SipResponseError>),
    /// Release the pool, then stop with this result.
    ReleaseThenFinish(Result<(), SipResponseError>),
}

/// The next action once the first `added` headers are on the list.
pub open spec fn stateless_headers(headers: Seq<(&str, &str)>, added: int) -> StatelessAction {
    match header_step(headers, added) {
        HeaderStep::Add(index) => StatelessAction::AddHeader(index),
        HeaderStep::AllAdded => StatelessAction::Send,
        HeaderStep::Invalid(error) => StatelessAction::ReleaseThenFinish(
            Err(SipResponseError::CStringNul(error)),
        ),
    }
}

/// The action that follows an event.
pub open spec fn stateless_step(
    headers: Seq<(&str, &str)>,
    event: StatelessEvent,
) -> StatelessAction {
    match event {
        StatelessEvent::Begin => StatelessAction::GetEndpoint,
        StatelessEvent::Endpoint { found: false } => StatelessAction::Finish(
            Err(SipResponseError::EndpointNull),
        ),
        StatelessEvent::Endpoint { found: true } => StatelessAction::CreatePool,
        StatelessEvent::Pool { created: false } => StatelessAction::Finish(
            Err(SipResponseError::PoolAlloc),
        ),
        StatelessEvent::Pool { created: true } => StatelessAction::AllocHeaderList,
        StatelessEvent::HeaderList { allocated: false } => StatelessAction::ReleaseThenFinish(
            Err(SipResponseError::PoolAlloc),
        ),
        StatelessEvent::HeaderList { allocated: true } => stateless_headers(headers, 0),
        StatelessEvent::Header { created: false, .. } => StatelessAction::ReleaseThenFinish(
            Err(SipResponseError::HeaderCreate),
        ),
        StatelessEvent::Header { index, created: true } => stateless_headers(
            headers,
            index + 1,
        ),
        StatelessEvent::Sent { status } => StatelessAction::ReleaseThenFinish(
            if status == PJ_SUCCESS {
                Ok(())
            } else {
                Err(SipResponseError::StatelessSend(status))
            },
        ),
    }
}

/// Send a stateless SIP response with N string headers: what follows an event.
///
/// The pool is released on every way that ends after it was created.
pub fn respond_stateless_with_headers(headers: &[(&str, &str)], event: StatelessEvent) -> (action:
    StatelessAction)
    requires
        event matches StatelessEvent::Header { index, .. } ==> index < headers.len(),
    ensures
        action == stateless_step(headers@, event),
{
    let added: usize = match event {
        StatelessEvent::Begin => {
            return StatelessAction::GetEndpoint;
        },
        StatelessEvent::Endpoint { found } => {
            return if found {
                StatelessAction::CreatePool
            } else {
                StatelessAction::Finish(Err(SipResponseError::EndpointNull))
            };
        },
        StatelessEvent::Pool { created } => {
            return if created {
                StatelessAction::AllocHeaderList
            } else {
                StatelessAction::Finish(Err(SipResponseError::PoolAlloc))
            };
        },
        StatelessEvent::HeaderList { allocated } => if allocated {
            0
        } else {
            return StatelessAction::ReleaseThenFinish(Err(SipResponseError::PoolAlloc));
        },
        StatelessEvent::Header { index, created } => if created {
            index + 1
        } else {
            return StatelessAction::ReleaseThenFinish(Err(SipResponseError::HeaderCreate));
        },
        StatelessEvent::Sent { status } => {
            return StatelessAction::ReleaseThenFinish(
                if status == PJ_SUCCESS {
                    Ok(())
                } else {
                    Err(SipResponseError::StatelessSend(status))
                },
            );
        },
    };
    match next_header(headers, added) {
        HeaderStep::Add(index) => StatelessAction::AddHeader(index),
        HeaderStep::AllAdded => StatelessAction::Send,
        HeaderStep::Invalid(error) => StatelessAction::ReleaseThenFinish(
            Err(SipResponseError::CStringNul(error)),
        ),
    }
}

/// What the pjsua calls of one response give.
pub struct PjReplies {
    pub endpoint_found: bool,
    pub pool_created: bool,
    pub list_allocated: bool,
    /// Whether the header at each place is created
    pub header_created: spec_fn(int) -> bool,
    pub status: i32,
}

/// The number of headers from `from` on that can be put on the list, counting
/// those before: up to the first whose value cannot become a C string or that
/// is not created.
pub open spec fn headers_listed(
    headers: Seq<(&str, &str)>,
    created: spec_fn(int) -> bool,
    from: int,
) -> int
    decreases headers.len() - from,
{
    if from >= headers.len() {
        headers.len() as int
    } else if first_nul(headers[from].1.spec_bytes()) is Some || !created(from) {
        from
    } else {
        headers_listed(headers, created, from + 1)
    }
}

/// How many more events there can be at most while a call is answered.
pub open spec fn answer_left(headers: Seq<(&str, &str)>, event: AnswerEvent) -> nat {
    match event {
        AnswerEvent::Begin => headers.len() + 3,
        AnswerEvent::Pool { .. } => headers.len() + 2,
        AnswerEvent::Header { index, .. } => if index < headers.len() {
            (headers.len() - index + 1) as nat
        } else {
            1
        },
        AnswerEvent::Answered { .. } => 0,
    }
}

/// The event that an action leads to, `None` for one that ends the run.
pub open spec fn answer_reply(replies: PjReplies, action: AnswerAction) -> Option<AnswerEvent> {
    match action {
        AnswerAction::CreatePool => Some(AnswerEvent::Pool { created: replies.pool_created }),
        AnswerAction::AddHeader(index) => Some(
            AnswerEvent::Header { index, created: (replies.header_created)(index as int) },
        ),
        AnswerAction::Answer => Some(AnswerEvent::Answered { status: replies.status }),
        AnswerAction::Finish(_) => None,
    }
}

/// All actions from an event on.
pub open spec fn answer_run(
    headers: Seq<(&str, &str)>,
    replies: PjReplies,
    event: AnswerEvent,
) -> Seq<AnswerAction>
    decreases answer_left(headers, event),
    when headers.len() <= usize::MAX
{
    let action = answer_step(headers, event);
    match answer_reply(replies, action) {
        None => seq![action],
        Some(reply) => seq![action] + answer_run(headers, replies, reply),
    }
}

/// The actions that append the headers from one place to another.
pub open spec fn answer_adding(from: int, to: int) -> Seq<AnswerAction> {
    Seq::new((to - from) as nat, |i: int| AnswerAction::AddHeader((from + i) as usize))
}

/// The actions that follow the last header that gets on the list.
pub open spec fn answer_ending(
    headers: Seq<(&str, &str)>,
    replies: PjReplies,
    listed: int,
) -> Seq<AnswerAction> {
    if listed < headers.len() {
        match first_nul(headers[listed].1.spec_bytes()) {
            Some(position) => seq![
                AnswerAction::Finish(Err(SipResponseError::CStringNul(InteriorNul { position }))),
            ],
            None => seq![
                AnswerAction::AddHeader(listed as usize),
                AnswerAction::Finish(Err(SipResponseError::HeaderCreate)),
            ],
        }
    } else {
        seq![
            AnswerAction::Answer,
            AnswerAction::Finish(
                if replies.status == PJ_SUCCESS {
                    Ok(())
                } else {
                    Err(SipResponseError::CallAnswer(replies.status))
                },
            ),
        ]
    }
}

proof fn lemma_listed_is_bounded(
    headers: Seq<(&str, &str)>,
    created: spec_fn(int) -> bool,
    from: int,
)
    requires
        from <= headers.len(),
    ensures
        from <= headers_listed(headers, created, from) <= headers.len(),
    decreases headers.len() - from,
{
    if from < headers.len() {
        lemma_listed_is_bounded(headers, created, from + 1);
    }
}

proof fn lemma_answer_headers_run(
    headers: Seq<(&str, &str)>,
    replies: PjReplies,
    event: AnswerEvent,
    added: int,
)
    requires
        headers.len() <= usize::MAX,
        0 <= added <= headers.len(),
        answer_step(headers, event) == answer_headers(headers, added),
    ensures
        ({
            let listed = headers_listed(headers, replies.header_created, added);
            answer_run(headers, replies, event) == answer_adding(added, listed) + answer_ending(
                headers,
                replies,
                listed,
            )
        }),
    decreases headers.len() - added,
{
    let listed = headers_listed(headers, replies.header_created, added);
    let run = answer_run(headers, replies, event);
    let action = answer_step(headers, event);
    lemma_listed_is_bounded(headers, replies.header_created, added);
    match header_step(headers, added) {
        HeaderStep::Add(index) => {
            let created = (replies.header_created)(added);
            let reply = AnswerEvent::Header { index, created };
            let rest = answer_run(headers, replies, reply);
            assert(run == seq![action] + rest);
            if created {
                lemma_answer_headers_run(headers, replies, reply, added + 1);
                lemma_listed_is_bounded(headers, replies.header_created, added + 1);
                assert(answer_adding(added, listed) =~= seq![action] + answer_adding(
                    added + 1,
                    listed,
                ));
                assert(run =~= answer_adding(added, listed) + answer_ending(
                    headers,
                    replies,
                    listed,
                ));
            } else {
                assert(rest == seq![AnswerAction::Finish(Err(SipResponseError::HeaderCreate))]);
                assert(run =~= answer_adding(added, listed) + answer_ending(
                    headers,
                    replies,
                    listed,
                ));
            }
        },
        HeaderStep::AllAdded => {
            let reply = AnswerEvent::Answered { status: replies.status };
            let rest = answer_run(headers, replies, reply);
            assert(rest == seq![answer_step(headers, reply)]);
            assert(run =~= answer_adding(added, listed) + answer_ending(headers, replies, listed));
        },
        HeaderStep::Invalid(_) => {
            assert(run =~= answer_adding(added, listed) + answer_ending(headers, replies, listed));
        },
    }
}

/// Answering a call takes exactly these actions: the pool is created; where it
/// was, the headers are appended in their order up to the first that cannot
/// be; only where all of them are on the list is the call answered; and the
/// result is that of the first thing that went wrong, a success where nothing
/// did.
pub proof fn law_answer_run(headers: Seq<(&str, &str)>, replies: PjReplies)
    requires
        headers.len() <= usize::MAX,
    ensures
        ({
            let listed = headers_listed(headers, replies.header_created, 0);
            answer_run(headers, replies, AnswerEvent::Begin) == seq![AnswerAction::CreatePool] + (
            if replies.pool_created {
                answer_adding(0, listed) + answer_ending(headers, replies, listed)
            } else {
                seq![AnswerAction::Finish(Err(SipResponseError::PoolAlloc))]
            })
        }),
{
    let pool = AnswerEvent::Pool { created: replies.pool_created };
    if replies.pool_created {
        lemma_answer_headers_run(headers, replies, pool, 0);
    } else {
        assert(answer_run(headers, replies, pool) == seq![answer_step(headers, pool)]);
    }
}

/// How many more events there can be at most while a response is sent.
pub open spec fn stateless_left(headers: Seq<(&str, &str)>, event: StatelessEvent) -> nat {
    match event {
        StatelessEvent::Begin => headers.len() + 5,
        StatelessEvent::Endpoint { .. } => headers.len() + 4,
        StatelessEvent::Pool { .. } => headers.len() + 3,
        StatelessEvent::HeaderList { .. } => headers.len() + 2,
        StatelessEvent::Header { index, .. } => if index < headers.len() {
            (headers.len() - index + 1) as nat
        } else {
            1
        },
        StatelessEvent::Sent { .. } => 0,
    }
}

/// The event that an action leads to, `None` for one that ends the run.
pub open spec fn stateless_reply(replies: PjReplies, action: StatelessAction) -> Option<
    StatelessEvent,
> {
    match action {
        StatelessAction::GetEndpoint => Some(
            StatelessEvent::Endpoint { found: replies.endpoint_found },
        ),
        StatelessAction::CreatePool => Some(
            StatelessEvent::Pool { created: replies.pool_created },
        ),
        StatelessAction::AllocHeaderList => Some(
            StatelessEvent::HeaderList { allocated: replies.list_allocated },
        ),
        StatelessAction::AddHeader(index) => Some(
            StatelessEvent::Header { index, created: (replies.header_created)(index as int) },
        ),
        StatelessAction::Send => Some(StatelessEvent::Sent { status: replies.status }),
        StatelessAction::Finish(_) | StatelessAction::ReleaseThenFinish(_) => None,
    }
}

/// All actions from an event on.
pub open spec fn stateless_run(
    headers: Seq<(&str, &str)>,
    replies: PjReplies,
    event: StatelessEvent,
) -> Seq<StatelessAction>
    decreases stateless_left(headers, event),
    when headers.len() <= usize::MAX
{
    let action = stateless_step(headers, event);
    match stateless_reply(replies, action) {
        None => seq![action],
        Some(reply) => seq![action] + stateless_run(headers, replies, reply),
    }
}

/// The actions that append the headers from one place to another.
pub open spec fn stateless_adding(from: int, to: int) -> Seq<StatelessAction> {
    Seq::new((to - from) as nat, |i: int| StatelessAction::AddHeader((from + i) as usize))
}

/// The actions that follow the last header that gets on the list.
pub open spec fn stateless_ending(
    headers: Seq<(&str, &str)>,
    replies: PjReplies,
    listed: int,
) -> Seq<StatelessAction> {
    if listed < headers.len() {
        match first_nul(headers[listed].1.spec_bytes()) {
            Some(position) => seq![
                StatelessAction::ReleaseThenFinish(
                    Err(SipResponseError::CStringNul(InteriorNul { position })),
                ),
            ],
            None => seq![
                StatelessAction::AddHeader(listed as usize),
                StatelessAction::ReleaseThenFinish(Err(SipResponseError::HeaderCreate)),
            ],
        }
    } else {
        seq![
            StatelessAction::Send,
            StatelessAction::ReleaseThenFinish(
                if replies.status == PJ_SUCCESS {
                    Ok(())
                } else {
                    Err(SipResponseError::StatelessSend(replies.status))
                },
            ),
        ]
    }
}

proof fn lemma_stateless_headers_run(
    headers: Seq<(&str, &str)>,
    replies: PjReplies,
    event: StatelessEvent,
    added: int,
)
    requires
        headers.len() <= usize::MAX,
        0 <= added <= headers.len(),
        stateless_step(headers, event) == stateless_headers(headers, added),
    ensures
        ({
            let listed = headers_listed(headers, replies.header_created, added);
            stateless_run(headers, replies, event) == stateless_adding(added, listed)
                + stateless_ending(headers, replies, listed)
        }),
    decreases headers.len() - added,
{
    let listed = headers_listed(headers, replies.header_created, added);
    let run = stateless_run(headers, replies, event);
    let action = stateless_step(headers, event);
    let expected = stateless_adding(added, listed) + stateless_ending(headers, replies, listed);
    lemma_listed_is_bounded(headers, replies.header_created, added);
    match header_step(headers, added) {
        HeaderStep::Add(index) => {
            let created = (replies.header_created)(added);
            let reply = StatelessEvent::Header { index, created };
            let rest = stateless_run(headers, replies, reply);
            assert(run == seq![action] + rest);
            if created {
                lemma_stateless_headers_run(headers, replies, reply, added + 1);
                lemma_listed_is_bounded(headers, replies.header_created, added + 1);
                assert(stateless_adding(added, listed) =~= seq![action] + stateless_adding(
                    added + 1,
                    listed,
                ));
                assert(run =~= expected);
            } else {
                assert(rest == seq![
                    StatelessAction::ReleaseThenFinish(Err(SipResponseError::HeaderCreate)),
                ]);
                assert(run =~= expected);
            }
        },
        HeaderStep::AllAdded => {
            let reply = StatelessEvent::Sent { status: replies.status };
            assert(stateless_run(headers, replies, reply) == seq![stateless_step(headers, reply)]);
            assert(run =~= expected);
        },
        HeaderStep::Invalid(_) => {
            assert(run =~= expected);
        },
    }
}

/// Sending a stateless response takes exactly these actions: the endpoint is
/// got, then the pool created, then the list allocated; where each of them
/// succeeded, the headers are appended in their order up to the first that
/// cannot be; only where all of them are on the list is the response sent; and
/// the result is that of the first thing that went wrong, a success where
/// nothing did. The pool is released at the end of every run in which it was
/// created, and in no other.
pub proof fn law_stateless_run(headers: Seq<(&str, &str)>, replies: PjReplies)
    requires
        headers.len() <= usize::MAX,
    ensures
        ({
            let listed = headers_listed(headers, replies.header_created, 0);
            let run = stateless_run(headers, replies, StatelessEvent::Begin);
            &&& run == (if !replies.endpoint_found {
                seq![
                    StatelessAction::GetEndpoint,
                    StatelessAction::Finish(Err(SipResponseError::EndpointNull)),
                ]
            } else if !replies.pool_created {
                seq![
                    StatelessAction::GetEndpoint,
                    StatelessAction::CreatePool,
                    StatelessAction::Finish(Err(SipResponseError::PoolAlloc)),
                ]
            } else if !replies.list_allocated {
                seq![
                    StatelessAction::GetEndpoint,
                    StatelessAction::CreatePool,
                    StatelessAction::AllocHeaderList,
                    StatelessAction::ReleaseThenFinish(Err(SipResponseError::PoolAlloc)),
                ]
            } else {
                seq![
                    StatelessAction::GetEndpoint,
                    StatelessAction::CreatePool,
                    StatelessAction::AllocHeaderList,
                ] + stateless_adding(0, listed) + stateless_ending(headers, replies, listed)
            })
            &&& run.last() is ReleaseThenFinish <==> replies.endpoint_found
                && replies.pool_created
        }),
{
    let endpoint = StatelessEvent::Endpoint { found: replies.endpoint_found };
    let pool = StatelessEvent::Pool { created: replies.pool_created };
    let list = StatelessEvent::HeaderList { allocated: replies.list_allocated };
    let run = stateless_run(headers, replies, StatelessEvent::Begin);
    assert(run == seq![StatelessAction::GetEndpoint] + stateless_run(headers, replies, endpoint));
    if !replies.endpoint_found {
        assert(stateless_run(headers, replies, endpoint) == seq![
            stateless_step(headers, endpoint),
        ]);
    } else {
        assert(stateless_run(headers, replies, endpoint) == seq![StatelessAction::CreatePool]
            + stateless_run(headers, replies, pool));
        if !replies.pool_created {
            assert(stateless_run(headers, replies, pool) == seq![stateless_step(headers, pool)]);
        } else {
            assert(stateless_run(headers, replies, pool) == seq![StatelessAction::AllocHeaderList]
                + stateless_run(headers, replies, list));
            if !replies.list_allocated {
                assert(stateless_run(headers, replies, list) == seq![
                    stateless_step(headers, list),
                ]);
            } else {
                lemma_stateless_headers_run(headers, replies, list, 0);
                let listed = headers_listed(headers, replies.header_created, 0);
                let ending = stateless_ending(headers, replies, listed);
                assert(ending.last() is ReleaseThenFinish);
                assert(run =~= seq![
                    StatelessAction::GetEndpoint,
                    StatelessAction::CreatePool,
                    StatelessAction::AllocHeaderList,
                ] + stateless_adding(0, listed) + ending);
            }
        }
    }
}

} // verus!
