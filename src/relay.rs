//! The reader role of one connection, as a state machine: each event (a
//! frame arrived, a file or a record was saved) gives the next stage and the
//! one action that the caller performs next.

use vstd::prelude::*;
use crate::codec::{
    InboundMessage, MessageView, FrameError, decode, encode, frame_decode_spec, frame_text, opt_view,
    bad_id, lemma_bad_id_rejected,
};
use crate::json::json_member_of;
use crate::attachment::{
    AttachmentError, attachment_spec, base64_decoded_of, decode_attachment, is_first_comma, lemma_first_comma_unique,
    payload_spec,
};

verus! {

/// What the message log stores of one message; the store adds the time.
#[derive(Debug)]
pub struct LogRecord {
    pub chat_id: i32,
    pub user_id: i32,
    pub content: String,
    pub file_path: Option<String>,
    pub message_type: String,
}

pub ghost struct RecordView {
    pub chat_id: int,
    pub user_id: int,
    pub content: Seq<char>,
    pub file_path: Option<Seq<char>>,
    pub message_type: Seq<char>,
}

impl View for LogRecord {
    type V = RecordView;

    open spec fn view(&self) -> RecordView {
        RecordView {
            chat_id: self.chat_id as int,
            user_id: self.user_id as int,
            content: self.content@,
            file_path: opt_view(self.file_path),
            message_type: self.message_type@,
        }
    }
}

/// Where the reader of one connection stands.
#[derive(Debug)]
pub enum Stage {
    /// Waiting for the next frame.
    Idle,
    /// The attachment of this message is being written.
    SavingFile(InboundMessage),
    /// This message is being appended to the log.
    SavingRecord(InboundMessage),
}

pub ghost enum StageView {
    Idle,
    SavingFile(MessageView),
    SavingRecord(MessageView),
}

impl View for Stage {
    type V = StageView;

    open spec fn view(&self) -> StageView {
        match self {
            Stage::Idle => StageView::Idle,
            Stage::SavingFile(m) => StageView::SavingFile(m@),
            Stage::SavingRecord(m) => StageView::SavingRecord(m@),
        }
    }
}

/// What happened since the last action.
#[derive(Debug)]
pub enum Event {
    /// A text frame arrived.
    Frame(String),
    /// The attachment write finished, successfully or not.
    FileSaved(bool),
    /// The log append finished, successfully or not.
    RecordSaved(bool),
}

pub ghost enum EventView {
    Frame(Seq<char>),
    FileSaved(bool),
    RecordSaved(bool),
}

impl View for Event {
    type V = EventView;

    open spec fn view(&self) -> EventView {
        match self {
            Event::Frame(t) => EventView::Frame(t@),
            Event::FileSaved(ok) => EventView::FileSaved(*ok),
            Event::RecordSaved(ok) => EventView::RecordSaved(*ok),
        }
    }
}

/// What the caller does next.
#[derive(Debug)]
pub enum Action {
    /// Nothing: the event does not belong to the current stage.
    Wait,
    /// The frame could not be decoded and is dropped.
    Discard(FrameError),
    /// Write `bytes` to the file at `path`, then report `FileSaved`.
    WriteFile { path: String, bytes: Vec<u8> },
    /// Append `record` to the log, then report `RecordSaved`. The attachment
    /// step, if one was due, was skipped for `attachment_error`.
    Append { record: LogRecord, attachment_error: Option<AttachmentError> },
    /// Send this frame to every registered connection.
    Broadcast(String),
}

pub ghost enum ActionView {
    Wait,
    Discard(FrameError),
    WriteFile(Seq<char>, Seq<u8>),
    Append(RecordView, Option<AttachmentError>),
    Broadcast(Seq<char>),
}

impl View for Action {
    type V = ActionView;

    open spec fn view(&self) -> ActionView {
        match self {
            Action::Wait => ActionView::Wait,
            Action::Discard(e) => ActionView::Discard(*e),
            Action::WriteFile { path, bytes } => ActionView::WriteFile(path@, bytes@),
            Action::Append { record, attachment_error } => ActionView::Append(record@, *attachment_error),
            Action::Broadcast(f) => ActionView::Broadcast(f@),
        }
    }
}

pub open spec fn record_spec(m: MessageView) -> RecordView {
    RecordView {
        chat_id: m.chat_id,
        user_id: m.user_id,
        content: m.content,
        file_path: m.file_path,
        message_type: m.message_type,
    }
}

/// Appending `m` to the log, after an attachment step that ended with
/// `attachment_error`.
pub open spec fn append_spec(m: MessageView, attachment_error: Option<AttachmentError>) -> (StageView, ActionView) {
    (StageView::SavingRecord(m), ActionView::Append(record_spec(m), attachment_error))
}

/// The step after `m` was decoded: a file message with an attachment has it
/// written first, when it names a path and the attachment decodes; every
/// other message goes to the log at once.
pub open spec fn after_decode_spec(m: MessageView) -> (StageView, ActionView) {
    if m.message_type == "file"@ && m.file_data is Some {
        match m.file_path {
            None => append_spec(m, Some(AttachmentError::MissingPath)),
            Some(p) => match attachment_spec(m.file_data->0) {
                Err(e) => append_spec(m, Some(e)),
                Ok(b) => (StageView::SavingFile(m), ActionView::WriteFile(p, b)),
            },
        }
    } else {
        append_spec(m, None)
    }
}

/// The reader's transition function. Whatever became of the attachment and
/// of the log append, the message is broadcast.
pub open spec fn step_spec(stage: StageView, event: EventView) -> (StageView, ActionView) {
    match (stage, event) {
        (StageView::Idle, EventView::Frame(t)) => match frame_decode_spec(t) {
            Err(e) => (StageView::Idle, ActionView::Discard(e)),
            Ok(m) => after_decode_spec(m),
        },
        (StageView::SavingFile(m), EventView::FileSaved(_)) => append_spec(m, None),
        (StageView::SavingRecord(m), EventView::RecordSaved(_)) => (
            StageView::Idle,
            ActionView::Broadcast(frame_text(m)),
        ),
        _ => (stage, ActionView::Wait),
    }
}

/// Whether `s` is the message kind `"file"`.
pub fn is_file_kind(s: &str) -> (r: bool)
    ensures
        r == (s@ == "file"@),
{
    proof {
        reveal_strlit("file");
    }
    if s.unicode_len() != 4 {
        return false;
    }
    let r = s.get_char(0) == 'f' && s.get_char(1) == 'i' && s.get_char(2) == 'l' && s.get_char(3) == 'e';
    proof {
        if r {
            assert(s@ =~= "file"@);
        }
    }
    r
}

fn clone_opt(o: &Option<String>) -> (r: Option<String>)
    ensures
        opt_view(r) == opt_view(*o),
{
    match o {
        Some(s) => Some(s.clone()),
        None => None,
    }
}

/// The log record of `m`.
pub fn record_of(m: &InboundMessage) -> (r: LogRecord)
    ensures
        r@ == record_spec(m@),
{
    LogRecord {
        chat_id: m.chat_id,
        user_id: m.user_id,
        content: m.content.clone(),
        file_path: clone_opt(&m.file_path),
        message_type: m.message_type.clone(),
    }
}

fn append_step(m: InboundMessage, attachment_error: Option<AttachmentError>) -> (r: (Stage, Action))
    ensures
        (r.0@, r.1@) == append_spec(m@, attachment_error),
{
    let record = record_of(&m);
    (Stage::SavingRecord(m), Action::Append { record, attachment_error })
}

/// The step after `m` was decoded.
pub fn after_decode(m: InboundMessage) -> (r: (Stage, Action))
    ensures
        (r.0@, r.1@) == after_decode_spec(m@),
{
    if !is_file_kind(m.message_type.as_str()) {
        return append_step(m, None);
    }
    let prepared = match &m.file_data {
        None => None,
        Some(d) => match &m.file_path {
            None => Some(Err(AttachmentError::MissingPath)),
            Some(p) => match decode_attachment(d.as_str()) {
                Err(e) => Some(Err(e)),
                Ok(b) => Some(Ok((p.clone(), b))),
            },
        },
    };
    match prepared {
        None => append_step(m, None),
        Some(Err(e)) => append_step(m, Some(e)),
        Some(Ok((path, bytes))) => (Stage::SavingFile(m), Action::WriteFile { path, bytes }),
    }
}

/// Advances the reader of one connection by one event.
pub fn step(stage: Stage, event: Event) -> (r: (Stage, Action))
    ensures
        (r.0@, r.1@) == step_spec(stage@, event@),
{
    match stage {
        Stage::Idle => match event {
            Event::Frame(t) => match decode(t.as_str()) {
                Err(e) => (Stage::Idle, Action::Discard(e)),
                Ok(m) => after_decode(m),
            },
            _ => (Stage::Idle, Action::Wait),
        },
        Stage::SavingFile(m) => match event {
            Event::FileSaved(_) => append_step(m, None),
            _ => (Stage::SavingFile(m), Action::Wait),
        },
        Stage::SavingRecord(m) => match event {
            Event::RecordSaved(_) => {
                let frame = encode(&m);
                (Stage::Idle, Action::Broadcast(frame))
            },
            _ => (Stage::SavingRecord(m), Action::Wait),
        },
    }
}

/// A frame whose chat or user identifier cannot be read is dropped: the
/// reader stays idle, and nothing is written, logged or broadcast.
pub proof fn lemma_bad_frame_dropped(text: Seq<char>)
    requires
        bad_id(json_member_of(text, "chat_id"@)) || bad_id(json_member_of(text, "user_id"@)),
    ensures
        step_spec(StageView::Idle, EventView::Frame(text)) matches (StageView::Idle, ActionView::Discard(_)),
{
    lemma_bad_id_rejected(text);
}

/// A file message whose attachment is `<prefix>,<payload>`, with no comma in
/// the prefix and a valid base64 payload, and which names a destination,
/// has exactly the bytes that the payload decodes to written there.
pub proof fn lemma_attachment_written(text: Seq<char>, m: MessageView, prefix: Seq<char>, payload: Seq<char>)
    requires
        frame_decode_spec(text) == Ok::<MessageView, FrameError>(m),
        m.message_type == "file"@,
        m.file_data == Some(prefix + seq![','] + payload),
        forall|i: int| 0 <= i < prefix.len() ==> prefix[i] != ',',
        base64_decoded_of(payload) is Some,
        m.file_path is Some,
    ensures
        step_spec(StageView::Idle, EventView::Frame(text)) == (
            StageView::SavingFile(m),
            ActionView::WriteFile(m.file_path->0, base64_decoded_of(payload)->0),
        ),
{
    let d = prefix + seq![','] + payload;
    let k = prefix.len() as int;
    assert(d[k] == ',');
    assert forall|j: int| 0 <= j < k implies d[j] != ',' by {
        assert(d[j] == prefix[j]);
    }
    assert(is_first_comma(d, k));
    let c = choose|i: int| is_first_comma(d, i);
    lemma_first_comma_unique(d, k, c);
    assert(d.subrange(k + 1, d.len() as int) =~= payload);
    assert(payload_spec(d) == Some(payload));
}

/// A file message with an attachment but no destination writes no file: it
/// goes to the log with `MissingPath`, and is then broadcast whatever the log
/// reports.
pub proof fn lemma_missing_path_still_relayed(text: Seq<char>, m: MessageView, saved: bool)
    requires
        frame_decode_spec(text) == Ok::<MessageView, FrameError>(m),
        m.message_type == "file"@,
        m.file_data is Some,
        m.file_path is None,
    ensures
        step_spec(StageView::Idle, EventView::Frame(text)) == (
            StageView::SavingRecord(m),
            ActionView::Append(record_spec(m), Some(AttachmentError::MissingPath)),
        ),
        step_spec(StageView::SavingRecord(m), EventView::RecordSaved(saved)) == (
            StageView::Idle,
            ActionView::Broadcast(frame_text(m)),
        ),
{
}

/// A failed side effect holds nothing back: after the log append the frame
/// of the message is broadcast whether the append succeeded or failed, and
/// after the attachment write the message goes to the log whether the write
/// succeeded or failed.
pub proof fn lemma_failures_do_not_block(m: MessageView)
    ensures
        step_spec(StageView::SavingRecord(m), EventView::RecordSaved(false)) == (
            StageView::Idle,
            ActionView::Broadcast(frame_text(m)),
        ),
        step_spec(StageView::SavingRecord(m), EventView::RecordSaved(true)) == (
            StageView::Idle,
            ActionView::Broadcast(frame_text(m)),
        ),
        step_spec(StageView::SavingFile(m), EventView::FileSaved(false)) == append_spec(m, None),
        step_spec(StageView::SavingFile(m), EventView::FileSaved(true)) == append_spec(m, None),
{
}

} // verus!
