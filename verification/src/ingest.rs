//! The streaming ingestion pipeline, as a state machine.
//!
//! An upload of any size is spooled to a temporary file in the staging
//! directory and hashed while it is written. When the stream ends, the
//! digest gives the key, and one rename promotes the file to its final name
//! in the storage directory: no partly written object is ever seen under
//! its key.
//!
//! The machine decides; its driver acts. The driver performs the action
//! that a step returns, and hands the outcome back as the next event. The
//! machine asks for the next chunk only when the sink has taken all of the
//! current one. A failure of the driver aborts the upload and leaves the
//! temporary file behind, to be cleared with the staging directory.
//!
//! The last action hands out the key of the promoted file. With it the
//! object store records the object: an empty payload, the content type and
//! the expiration.

use crate::digest::{key_of_digest, spec_content_key, HashWriter};
use crate::entropy::random_u32;
use crate::failure::{CauseView, Failure, FailureView};
use vstd::prelude::*;
use vstd::string::StringExecFns;

verus! {

/// Name of the staging directory, which holds the temporary files.
pub const STAGING_DIR: &'static str = "tmp";

/// The character for a decimal digit.
pub open spec fn digit(d: nat) -> char {
    if d == 0 {
        '0'
    } else if d == 1 {
        '1'
    } else if d == 2 {
        '2'
    } else if d == 3 {
        '3'
    } else if d == 4 {
        '4'
    } else if d == 5 {
        '5'
    } else if d == 6 {
        '6'
    } else if d == 7 {
        '7'
    } else if d == 8 {
        '8'
    } else {
        '9'
    }
}

/// The decimal text of a number, without leading zeros.
pub open spec fn decimal(n: nat) -> Seq<char>
    decreases n,
{
    if n < 10 {
        seq![digit(n)]
    } else {
        decimal(n / 10).push(digit(n % 10))
    }
}

/// The name of the temporary file for the random number `n`.
pub open spec fn spec_temp_name(n: u32) -> Seq<char> {
    decimal(n as nat) + ".tmp"@
}

/// The text of one decimal digit.
fn digit_text(d: u32) -> (text: &'static str)
    requires
        d < 10,
    ensures
        text@ == seq![digit(d as nat)],
{
    proof {
        reveal_strlit("0");
        reveal_strlit("1");
        reveal_strlit("2");
        reveal_strlit("3");
        reveal_strlit("4");
        reveal_strlit("5");
        reveal_strlit("6");
        reveal_strlit("7");
        reveal_strlit("8");
        reveal_strlit("9");
    }
    let text = if d == 0 {
        "0"
    } else if d == 1 {
        "1"
    } else if d == 2 {
        "2"
    } else if d == 3 {
        "3"
    } else if d == 4 {
        "4"
    } else if d == 5 {
        "5"
    } else if d == 6 {
        "6"
    } else if d == 7 {
        "7"
    } else if d == 8 {
        "8"
    } else {
        "9"
    };
    assert(text@ =~= seq![digit(d as nat)]);
    text
}

/// The decimal text of a number.
pub fn decimal_text(n: u32) -> (text: String)
    ensures
        text@ == decimal(n as nat),
    decreases n,
{
    if n < 10 {
        String::from_str(digit_text(n))
    } else {
        let mut text = decimal_text(n / 10);
        text.append(digit_text(n % 10));
        assert(text@ =~= decimal(n as nat));
        text
    }
}

/// The name of the temporary file for the random number `n`: the number
/// in decimal, then `.tmp`.
pub fn temp_name(n: u32) -> (name: String)
    ensures
        name@ == spec_temp_name(n),
{
    let mut name = decimal_text(n);
    name.append(".tmp");
    name
}

/// The state of one upload.
pub enum Ingestion {
    /// Nothing has been asked for yet.
    Idle,
    /// The staging directory is being made sure of.
    Staging,
    /// The driver is finding out whether `name` is taken.
    Probing { name: String },
    /// The temporary file `name` is being created.
    Opening { name: String },
    /// The sink has all that came in; the next chunk is awaited.
    Awaiting { name: String, writer: HashWriter },
    /// The sink has the first `done` bytes of `chunk` and was handed the
    /// rest.
    Writing { name: String, writer: HashWriter, chunk: Vec<u8>, done: usize },
    /// The stream has ended; the sink is being flushed and closed.
    Closing { name: String, writer: HashWriter },
    /// The key is known; the storage directory is being made sure of.
    Settling { name: String, key: String },
    /// The temporary file is being renamed to the key.
    Promoting { name: String, key: String },
    /// The file stands under its key.
    Done { key: String },
    /// The upload was aborted.
    Failed,
}

/// What an `Ingestion` holds. `written` is what the sink has taken so far.
pub enum IngestionView {
    Idle,
    Staging,
    Probing { name: Seq<char> },
    Opening { name: Seq<char> },
    Awaiting { name: Seq<char>, written: Seq<u8> },
    Writing { name: Seq<char>, written: Seq<u8>, chunk: Seq<u8>, done: nat },
    Closing { name: Seq<char>, written: Seq<u8> },
    Settling { name: Seq<char>, key: Seq<char> },
    Promoting { name: Seq<char>, key: Seq<char> },
    Done { key: Seq<char> },
    Failed,
}

/// The key of an upload whose file stands under that key in the storage
/// directory. Only the pipeline makes one, and only when the rename has
/// gone through: it is what the object store asks for before it records a
/// file-backed object.
pub struct Promoted {
    key: String,
}

impl View for Promoted {
    type V = Seq<char>;

    closed spec fn view(&self) -> Seq<char> {
        self.key@
    }
}

impl Promoted {
    /// The key.
    pub fn key(&self) -> (key: &str)
        ensures
            key@ == self@,
    {
        self.key.as_str()
    }

    /// The key, owned.
    pub fn into_key(self) -> (key: String)
        ensures
            key@ == self@,
    {
        self.key
    }
}

/// What the driver reports back.
pub enum Event {
    /// The upload begins.
    Start,
    /// The directory that was asked for is there.
    DirReady,
    /// Whether the probed name is taken.
    Probed(bool),
    /// The temporary file is open.
    Opened,
    /// The inbound stream gave a chunk.
    Chunk(Vec<u8>),
    /// The inbound stream is exhausted.
    End,
    /// The sink took this many of the bytes it was handed.
    Wrote(usize),
    /// The sink is flushed and closed.
    Closed,
    /// The rename went through.
    Promoted,
    /// What was asked for failed, with this message.
    Failed(String),
}

/// What an `Event` holds.
pub enum EventView {
    Start,
    DirReady,
    Probed(bool),
    Opened,
    Chunk(Seq<u8>),
    End,
    Wrote(nat),
    Closed,
    Promoted,
    Failed(Seq<char>),
}

/// What the driver is to do next.
pub enum Action {
    /// Create the staging directory if it is missing.
    EnsureStaging,
    /// Find out whether this name exists in the staging directory.
    Probe(String),
    /// Create this file in the staging directory and open it for writing.
    Create(String),
    /// Read the next chunk of the inbound stream.
    Pull,
    /// Hand these bytes to the sink, once.
    Write(Vec<u8>),
    /// Flush the sink and close it.
    Close,
    /// Create the storage directory if it is missing.
    EnsureStorage,
    /// Rename the temporary file `name` to `key` in the storage directory.
    Rename { name: String, key: String },
    /// The file stands under this key: record the object.
    Finish(Promoted),
    /// Give up, with this failure.
    Abort(Failure),
}

/// What an `Action` holds.
pub enum ActionView {
    EnsureStaging,
    Probe(Seq<char>),
    Create(Seq<char>),
    Pull,
    Write(Seq<u8>),
    Close,
    EnsureStorage,
    Rename { name: Seq<char>, key: Seq<char> },
    Finish(Seq<char>),
    Abort(FailureView),
}

impl View for Ingestion {
    type V = IngestionView;

    open spec fn view(&self) -> IngestionView {
        match self {
            Ingestion::Idle => IngestionView::Idle,
            Ingestion::Staging => IngestionView::Staging,
            Ingestion::Probing { name } => IngestionView::Probing { name: name@ },
            Ingestion::Opening { name } => IngestionView::Opening { name: name@ },
            Ingestion::Awaiting { name, writer } => IngestionView::Awaiting {
                name: name@,
                written: writer@,
            },
            Ingestion::Writing { name, writer, chunk, done } => IngestionView::Writing {
                name: name@,
                written: writer@,
                chunk: chunk@,
                done: *done as nat,
            },
            Ingestion::Closing { name, writer } => IngestionView::Closing {
                name: name@,
                written: writer@,
            },
            Ingestion::Settling { name, key } => IngestionView::Settling { name: name@, key: key@ },
            Ingestion::Promoting { name, key } => IngestionView::Promoting {
                name: name@,
                key: key@,
            },
            Ingestion::Done { key } => IngestionView::Done { key: key@ },
            Ingestion::Failed => IngestionView::Failed,
        }
    }
}

impl View for Event {
    type V = EventView;

    open spec fn view(&self) -> EventView {
        match self {
            Event::Start => EventView::Start,
            Event::DirReady => EventView::DirReady,
            Event::Probed(taken) => EventView::Probed(*taken),
            Event::Opened => EventView::Opened,
            Event::Chunk(bytes) => EventView::Chunk(bytes@),
            Event::End => EventView::End,
            Event::Wrote(n) => EventView::Wrote(*n as nat),
            Event::Closed => EventView::Closed,
            Event::Promoted => EventView::Promoted,
            Event::Failed(message) => EventView::Failed(message@),
        }
    }
}

impl View for Action {
    type V = ActionView;

    open spec fn view(&self) -> ActionView {
        match self {
            Action::EnsureStaging => ActionView::EnsureStaging,
            Action::Probe(name) => ActionView::Probe(name@),
            Action::Create(name) => ActionView::Create(name@),
            Action::Pull => ActionView::Pull,
            Action::Write(bytes) => ActionView::Write(bytes@),
            Action::Close => ActionView::Close,
            Action::EnsureStorage => ActionView::EnsureStorage,
            Action::Rename { name, key } => ActionView::Rename { name: name@, key: key@ },
            Action::Finish(key) => ActionView::Finish(key@),
            Action::Abort(failure) => ActionView::Abort(failure@),
        }
    }
}

/// Whether a step from `state` on `event` draws a name for the temporary
/// file: when the staging directory is there, and when the name drawn
/// before is taken.
pub open spec fn spec_draws(state: IngestionView, event: EventView) -> bool {
    match (state, event) {
        (IngestionView::Staging, EventView::DirReady) => true,
        (IngestionView::Probing { name }, EventView::Probed(taken)) => taken,
        _ => false,
    }
}

/// The abort that answers a failure of the driver, or an event that the
/// state does not expect.
pub open spec fn aborted(message: Seq<char>) -> (IngestionView, ActionView) {
    (
        IngestionView::Failed,
        ActionView::Abort(FailureView::Unexpected(CauseView::plain(message))),
    )
}

/// One step of the machine: the state after `event`, and what to do next.
/// `fresh` is the random number for the name of the temporary file, where
/// the step picks one.
pub open spec fn spec_step(state: IngestionView, event: EventView, fresh: u32) -> (
    IngestionView,
    ActionView,
) {
    match (state, event) {
        (_, EventView::Failed(message)) => aborted(message),
        (IngestionView::Idle, EventView::Start) => (
            IngestionView::Staging,
            ActionView::EnsureStaging,
        ),
        (IngestionView::Staging, EventView::DirReady) => (
            IngestionView::Probing { name: spec_temp_name(fresh) },
            ActionView::Probe(spec_temp_name(fresh)),
        ),
        (IngestionView::Probing { name }, EventView::Probed(taken)) => if taken {
            (
                IngestionView::Probing { name: spec_temp_name(fresh) },
                ActionView::Probe(spec_temp_name(fresh)),
            )
        } else {
            (IngestionView::Opening { name }, ActionView::Create(name))
        },
        (IngestionView::Opening { name }, EventView::Opened) => (
            IngestionView::Awaiting { name, written: Seq::empty() },
            ActionView::Pull,
        ),
        (IngestionView::Awaiting { name, written }, EventView::Chunk(chunk)) => if chunk.len()
            == 0 {
            (IngestionView::Awaiting { name, written }, ActionView::Pull)
        } else {
            (IngestionView::Writing { name, written, chunk, done: 0 }, ActionView::Write(chunk))
        },
        (IngestionView::Awaiting { name, written }, EventView::End) => (
            IngestionView::Closing { name, written },
            ActionView::Close,
        ),
        (IngestionView::Writing { name, written, chunk, done }, EventView::Wrote(n)) => if n == 0 {
            aborted("write zero byte into writer"@)
        } else if done + n > chunk.len() {
            aborted("unexpected event"@)
        } else if done + n == chunk.len() {
            (
                IngestionView::Awaiting {
                    name,
                    written: written + chunk.subrange(done as int, (done + n) as int),
                },
                ActionView::Pull,
            )
        } else {
            (
                IngestionView::Writing {
                    name,
                    written: written + chunk.subrange(done as int, (done + n) as int),
                    chunk,
                    done: done + n,
                },
                ActionView::Write(chunk.subrange((done + n) as int, chunk.len() as int)),
            )
        },
        (IngestionView::Closing { name, written }, EventView::Closed) => (
            IngestionView::Settling { name, key: spec_content_key(written) },
            ActionView::EnsureStorage,
        ),
        (IngestionView::Settling { name, key }, EventView::DirReady) => (
            IngestionView::Promoting { name, key },
            ActionView::Rename { name, key },
        ),
        (IngestionView::Promoting { name, key }, EventView::Promoted) => (
            IngestionView::Done { key },
            ActionView::Finish(key),
        ),
        _ => aborted("unexpected event"@),
    }
}

/// The abort that answers a failure of the driver, or an event that the
/// state does not expect.
fn abort(message: String) -> (out: (Ingestion, Action))
    ensures
        (out.0@, out.1@) == aborted(message@),
{
    (Ingestion::Failed, Action::Abort(Failure::unexpected(message)))
}

impl Ingestion {
    /// An upload that has not begun.
    pub fn new() -> (state: Ingestion)
        ensures
            state@ == IngestionView::Idle,
    {
        Ingestion::Idle
    }

    /// Whether a step from this state on `event` draws a name.
    pub fn draws(&self, event: &Event) -> (drawing: bool)
        ensures
            drawing == spec_draws(self@, event@),
    {
        match (self, event) {
            (Ingestion::Staging, Event::DirReady) => true,
            (Ingestion::Probing { .. }, Event::Probed(taken)) => *taken,
            _ => false,
        }
    }

    /// One step of the machine. Where the step draws a name for the
    /// temporary file, the name is that of a random number; every other
    /// step is decided by state and event alone.
    pub fn step(self, event: Event) -> (out: (Ingestion, Action))
        ensures
            exists|fresh: u32| (out.0@, out.1@) == #[trigger] spec_step(self@, event@, fresh),
            !spec_draws(self@, event@) ==> (out.0@, out.1@) == spec_step(self@, event@, 0),
    {
        let fresh = if self.draws(&event) {
            random_u32()
        } else {
            0
        };
        self.step_with(event, fresh)
    }

    /// One step of the machine: takes the outcome of the last action and
    /// says what to do next.
    pub fn step_with(self, event: Event, fresh: u32) -> (out: (Ingestion, Action))
        ensures
            (out.0@, out.1@) == spec_step(self@, event@, fresh),
    {
        match (self, event) {
            (_, Event::Failed(message)) => abort(message),
            (Ingestion::Idle, Event::Start) => (Ingestion::Staging, Action::EnsureStaging),
            (Ingestion::Staging, Event::DirReady) => {
                let name = temp_name(fresh);
                let probe = name.clone();
                (Ingestion::Probing { name }, Action::Probe(probe))
            },
            (Ingestion::Probing { name }, Event::Probed(taken)) => {
                if taken {
                    let name = temp_name(fresh);
                    let probe = name.clone();
                    (Ingestion::Probing { name }, Action::Probe(probe))
                } else {
                    let create = name.clone();
                    (Ingestion::Opening { name }, Action::Create(create))
                }
            },
            (Ingestion::Opening { name }, Event::Opened) => (
                Ingestion::Awaiting { name, writer: HashWriter::new() },
                Action::Pull,
            ),
            (Ingestion::Awaiting { name, writer }, Event::Chunk(chunk)) => {
                if chunk.len() == 0 {
                    (Ingestion::Awaiting { name, writer }, Action::Pull)
                } else {
                    let bytes = chunk.clone();
                    (Ingestion::Writing { name, writer, chunk, done: 0 }, Action::Write(bytes))
                }
            },
            (Ingestion::Awaiting { name, writer }, Event::End) => (
                Ingestion::Closing { name, writer },
                Action::Close,
            ),
            (Ingestion::Writing { name, writer, chunk, done }, Event::Wrote(n)) => {
                if n == 0 {
                    abort("write zero byte into writer".to_owned())
                } else if done > chunk.len() || n > chunk.len() - done {
                    abort("unexpected event".to_owned())
                } else {
                    let mut writer = writer;
                    let handed = vstd::slice::slice_subrange(chunk.as_slice(), done, chunk.len());
                    writer.record(handed, n);
                    assert(handed@.subrange(0, n as int) =~= chunk@.subrange(
                        done as int,
                        done + n,
                    ));
                    let done = done + n;
                    if done == chunk.len() {
                        (Ingestion::Awaiting { name, writer }, Action::Pull)
                    } else {
                        let rest = vstd::slice::slice_to_vec(
                            vstd::slice::slice_subrange(chunk.as_slice(), done, chunk.len()),
                        );
                        (Ingestion::Writing { name, writer, chunk, done }, Action::Write(rest))
                    }
                }
            },
            (Ingestion::Closing { name, writer }, Event::Closed) => {
                let digest = writer.finish();
                let key = key_of_digest(digest.as_slice());
                (Ingestion::Settling { name, key }, Action::EnsureStorage)
            },
            (Ingestion::Settling { name, key }, Event::DirReady) => {
                let from = name.clone();
                let to = key.clone();
                (Ingestion::Promoting { name, key }, Action::Rename { name: from, key: to })
            },
            (Ingestion::Promoting { name, key }, Event::Promoted) => {
                let promoted = Promoted { key: key.clone() };
                (Ingestion::Done { key }, Action::Finish(promoted))
            },
            _ => abort("unexpected event".to_owned()),
        }
    }
}

/// The bytes that the inbound stream gave in `events`: those of its
/// chunks, in order.
pub open spec fn inbound(events: Seq<EventView>) -> Seq<u8>
    decreases events.len(),
{
    if events.len() == 0 {
        Seq::empty()
    } else {
        inbound(events.drop_last()) + match events.last() {
            EventView::Chunk(chunk) => chunk,
            _ => Seq::empty(),
        }
    }
}

/// The state after `events`, one step for each.
pub open spec fn spec_run(state: IngestionView, events: Seq<EventView>) -> IngestionView
    decreases events.len(),
{
    if events.len() == 0 {
        state
    } else {
        spec_step(spec_run(state, events.drop_last()), events.last(), 0).0
    }
}

/// Whether every event of `events` is a chunk of the stream or the report
/// of a write.
pub open spec fn streams(events: Seq<EventView>) -> bool {
    forall|i: int|
        0 <= i < events.len() ==> (#[trigger] events[i]) is Chunk || events[i] is Wrote
}

/// Whether `state` is that of an upload to the temporary file `name` of
/// which the stream has given `total` so far: the upload has been
/// aborted, or the sink has taken all of `total`, or it has taken all but
/// the rest of the chunk that it is being handed.
pub open spec fn tracks(state: IngestionView, name: Seq<char>, total: Seq<u8>) -> bool {
    match state {
        IngestionView::Failed => true,
        IngestionView::Awaiting { name: held, written } => held == name && written == total,
        IngestionView::Writing { name: held, written, chunk, done } => {
            &&& held == name
            &&& done <= chunk.len()
            &&& written + chunk.subrange(done as int, chunk.len() as int) == total
        },
        _ => false,
    }
}

/// A streamed upload gets the key that an inline upload of the same bytes
/// gets. However the stream cuts the bytes into chunks, and however many
/// writes the sink needs for a chunk, the machine keeps track of all that
/// the stream gave; and when it has come to await the next chunk, the end
/// of the stream and the closing of the sink give the key of all those
/// bytes in order.
pub proof fn law_streamed_key_is_content_key(name: Seq<char>, events: Seq<EventView>)
    requires
        streams(events),
    ensures
        tracks(
            spec_run(IngestionView::Awaiting { name, written: Seq::empty() }, events),
            name,
            inbound(events),
        ),
        spec_run(IngestionView::Awaiting { name, written: Seq::empty() }, events) is Awaiting
            ==> spec_step(
            spec_step(
                spec_run(IngestionView::Awaiting { name, written: Seq::empty() }, events),
                EventView::End,
                0,
            ).0,
            EventView::Closed,
            0,
        ).0 == (IngestionView::Settling { name, key: spec_content_key(inbound(events)) }),
    decreases events.len(),
{
    if events.len() > 0 {
        let earlier = events.drop_last();
        assert forall|i: int| 0 <= i < earlier.len() implies (#[trigger] earlier[i]) is Chunk
            || earlier[i] is Wrote by {
            assert(earlier[i] == events[i]);
        }
        law_streamed_key_is_content_key(name, earlier);
        let start = IngestionView::Awaiting { name, written: Seq::empty() };
        let state = spec_run(start, earlier);
        let total = inbound(earlier);
        let event = events.last();
        assert(event == events[events.len() - 1]);
        match (state, event) {
            (IngestionView::Awaiting { name: held, written }, EventView::Chunk(chunk)) => {
                assert(chunk.subrange(0, chunk.len() as int) =~= chunk);
                assert(total + Seq::<u8>::empty() =~= total);
                if chunk.len() == 0 {
                    assert(total + chunk =~= total);
                }
            },
            (IngestionView::Writing { name: held, written, chunk, done }, EventView::Wrote(n)) => {
                assert(total + Seq::<u8>::empty() =~= total);
                if n > 0 && done + n <= chunk.len() {
                    let taken = chunk.subrange(done as int, (done + n) as int);
                    let rest = chunk.subrange((done + n) as int, chunk.len() as int);
                    assert(taken + rest =~= chunk.subrange(done as int, chunk.len() as int));
                    assert((written + taken) + rest =~= written + (taken + rest));
                    if done + n == chunk.len() {
                        assert(rest =~= Seq::<u8>::empty());
                        assert(written + taken =~= (written + taken) + rest);
                    }
                }
            },
            _ => {},
        }
    }
}

} // verus!
