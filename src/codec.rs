//! The message codec: turns a text frame into an `InboundMessage` and an
//! `InboundMessage` back into the frame that peers receive.

use vstd::prelude::*;
use crate::json::{JsonField, FieldView, json_member, json_member_of, json_quoted, json_quoted_of};

verus! {

/// The members of an inbound frame.
#[derive(PartialEq, Eq, Structural, Clone, Copy, Debug)]
pub enum Field {
    ChatId,
    UserId,
    Content,
    FileData,
    FilePath,
    MessageType,
}

/// Why a decimal integer could not be read.
#[derive(PartialEq, Eq, Structural, Clone, Copy, Debug)]
pub enum IntError {
    /// The text is empty.
    Empty,
    /// A character other than a digit, or a sign with no digits after it.
    InvalidDigit,
    /// The value is above `i32::MAX`.
    PosOverflow,
    /// The value is below `i32::MIN`.
    NegOverflow,
}

/// Why a frame could not be decoded.
#[derive(PartialEq, Eq, Structural, Clone, Copy, Debug)]
pub enum FrameError {
    /// The frame is not a JSON object.
    Malformed,
    /// A required member is absent.
    MissingField(Field),
    /// A member holds a value of the wrong JSON type.
    InvalidType(Field),
    /// An identifier written as a string is not a decimal `i32`.
    InvalidInteger(Field, IntError),
}

/// A decoded chat message.
#[derive(Debug)]
pub struct InboundMessage {
    pub chat_id: i32,
    pub user_id: i32,
    pub content: String,
    /// Attachment as `<metadata>,<base64 payload>`.
    pub file_data: Option<String>,
    /// Where the attachment is to be written.
    pub file_path: Option<String>,
    /// The kind of message, e.g. `"text"` or `"file"`.
    pub message_type: String,
}

pub ghost struct MessageView {
    pub chat_id: int,
    pub user_id: int,
    pub content: Seq<char>,
    pub file_data: Option<Seq<char>>,
    pub file_path: Option<Seq<char>>,
    pub message_type: Seq<char>,
}

pub open spec fn opt_view(o: Option<String>) -> Option<Seq<char>> {
    match o {
        Some(s) => Some(s@),
        None => None,
    }
}

impl View for InboundMessage {
    type V = MessageView;

    open spec fn view(&self) -> MessageView {
        MessageView {
            chat_id: self.chat_id as int,
            user_id: self.user_id as int,
            content: self.content@,
            file_data: opt_view(self.file_data),
            file_path: opt_view(self.file_path),
            message_type: self.message_type@,
        }
    }
}

pub open spec fn decoded_view(r: Result<InboundMessage, FrameError>) -> Result<MessageView, FrameError> {
    match r {
        Ok(m) => Ok(m@),
        Err(e) => Err(e),
    }
}

pub open spec fn is_digit(c: char) -> bool {
    '0' <= c && c <= '9'
}

pub open spec fn all_digits(s: Seq<char>) -> bool {
    forall|i: int| 0 <= i < s.len() ==> #[trigger] is_digit(s[i])
}

pub open spec fn digit_value(c: char) -> int {
    c as int - '0' as int
}

/// The number written by a sequence of decimal digits.
pub open spec fn digits_value(s: Seq<char>) -> int
    decreases s.len(),
{
    if s.len() == 0 {
        0
    } else {
        digits_value(s.drop_last()) * 10 + digit_value(s.last())
    }
}

/// Decimal `i32` with an optional leading `+` or `-`, read the way
/// `str::parse::<i32>` reads it.
pub open spec fn parse_i32_spec(s: Seq<char>) -> Result<int, IntError> {
    if s.len() == 0 {
        Err(IntError::Empty)
    } else {
        let body = if s[0] == '-' || s[0] == '+' { s.subrange(1, s.len() as int) } else { s };
        if body.len() == 0 || !all_digits(body) {
            Err(IntError::InvalidDigit)
        } else if s[0] == '-' {
            if digits_value(body) > 0x8000_0000 {
                Err(IntError::NegOverflow)
            } else {
                Ok(-digits_value(body))
            }
        } else if digits_value(body) > 0x7fff_ffff {
            Err(IntError::PosOverflow)
        } else {
            Ok(digits_value(body))
        }
    }
}

/// A chat or user identifier: a JSON integer (cut to 32 bits) or a string
/// holding a decimal `i32`.
pub open spec fn id_of(f: FieldView, which: Field) -> Result<int, FrameError> {
    match f {
        FieldView::NotObject => Err(FrameError::Malformed),
        FieldView::Missing => Err(FrameError::MissingField(which)),
        FieldView::Int(v) => Ok((v as i32) as int),
        FieldView::Text(s) => match parse_i32_spec(s) {
            Ok(v) => Ok(v),
            Err(e) => Err(FrameError::InvalidInteger(which, e)),
        },
        _ => Err(FrameError::InvalidType(which)),
    }
}

/// A required string member.
pub open spec fn text_of(f: FieldView, which: Field) -> Result<Seq<char>, FrameError> {
    match f {
        FieldView::NotObject => Err(FrameError::Malformed),
        FieldView::Missing => Err(FrameError::MissingField(which)),
        FieldView::Text(s) => Ok(s),
        _ => Err(FrameError::InvalidType(which)),
    }
}

/// An optional string member: absent or `null` is `None`.
pub open spec fn opt_text_of(f: FieldView, which: Field) -> Result<Option<Seq<char>>, FrameError> {
    match f {
        FieldView::NotObject => Err(FrameError::Malformed),
        FieldView::Missing | FieldView::Null => Ok(None),
        FieldView::Text(s) => Ok(Some(s)),
        _ => Err(FrameError::InvalidType(which)),
    }
}

/// The message that the six members of a frame make, members checked in
/// declaration order.
pub open spec fn decode_spec(
    chat_id: FieldView,
    user_id: FieldView,
    content: FieldView,
    file_data: FieldView,
    file_path: FieldView,
    message_type: FieldView,
) -> Result<MessageView, FrameError> {
    match id_of(chat_id, Field::ChatId) {
        Err(e) => Err(e),
        Ok(c) => match id_of(user_id, Field::UserId) {
            Err(e) => Err(e),
            Ok(u) => match text_of(content, Field::Content) {
                Err(e) => Err(e),
                Ok(t) => match opt_text_of(file_data, Field::FileData) {
                    Err(e) => Err(e),
                    Ok(d) => match opt_text_of(file_path, Field::FilePath) {
                        Err(e) => Err(e),
                        Ok(p) => match text_of(message_type, Field::MessageType) {
                            Err(e) => Err(e),
                            Ok(k) => Ok(
                                MessageView {
                                    chat_id: c,
                                    user_id: u,
                                    content: t,
                                    file_data: d,
                                    file_path: p,
                                    message_type: k,
                                },
                            ),
                        },
                    },
                },
            },
        },
    }
}

/// The message decoded from the frame `text`.
pub open spec fn frame_decode_spec(text: Seq<char>) -> Result<MessageView, FrameError> {
    decode_spec(
        json_member_of(text, "chat_id"@),
        json_member_of(text, "user_id"@),
        json_member_of(text, "content"@),
        json_member_of(text, "file_data"@),
        json_member_of(text, "file_path"@),
        json_member_of(text, "message_type"@),
    )
}

pub proof fn lemma_digits_value_nonneg(s: Seq<char>)
    requires
        all_digits(s),
    ensures
        digits_value(s) >= 0,
    decreases s.len(),
{
    if s.len() > 0 {
        assert(is_digit(s[s.len() - 1]));
        assert(all_digits(s.drop_last())) by {
            assert forall|i: int| 0 <= i < s.drop_last().len() implies #[trigger] is_digit(s.drop_last()[i]) by {
                assert(is_digit(s[i]));
            }
        }
        lemma_digits_value_nonneg(s.drop_last());
    }
}

/// An identifier written as a JSON integer and the same identifier written
/// as a string of decimal digits decode alike, to that integer; so do two
/// frames that differ only in which of the two ways writes the chat or the
/// user identifier.
pub proof fn lemma_id_encodings_agree(
    s: Seq<char>,
    chat_id: FieldView,
    user_id: FieldView,
    content: FieldView,
    file_data: FieldView,
    file_path: FieldView,
    message_type: FieldView,
)
    requires
        s.len() > 0,
        all_digits(s),
        digits_value(s) <= i32::MAX,
    ensures
        forall|w: Field|
            #[trigger] id_of(FieldView::Text(s), w) == Ok::<int, FrameError>(digits_value(s))
                && id_of(FieldView::Int(digits_value(s)), w) == Ok::<int, FrameError>(digits_value(s)),
        decode_spec(FieldView::Text(s), user_id, content, file_data, file_path, message_type)
            == decode_spec(FieldView::Int(digits_value(s)), user_id, content, file_data, file_path, message_type),
        decode_spec(chat_id, FieldView::Text(s), content, file_data, file_path, message_type)
            == decode_spec(chat_id, FieldView::Int(digits_value(s)), content, file_data, file_path, message_type),
{
    lemma_digits_value_nonneg(s);
    assert(is_digit(s[0]));
    assert(parse_i32_spec(s) == Ok::<int, IntError>(digits_value(s)));
    let v = digits_value(s);
    assert((v as i32) as int == v);
}

/// The text is not an optionally signed run of decimal digits: it is empty,
/// or holds a character that is neither a digit nor a leading sign.
pub open spec fn not_decimal(s: Seq<char>) -> bool {
    s.len() == 0 || exists|i: int|
        0 <= i < s.len() && !is_digit(#[trigger] s[i]) && !(i == 0 && (s[0] == '-' || s[0] == '+'))
}

/// An identifier member that no identifier is read from: a string that is
/// not decimal, `null`, or a value that is neither a number nor a string.
pub open spec fn bad_id(f: FieldView) -> bool {
    match f {
        FieldView::Text(s) => not_decimal(s),
        FieldView::Null | FieldView::Other => true,
        _ => false,
    }
}

/// A frame whose chat or user identifier is a non-decimal string or neither
/// a number nor a string does not decode.
pub proof fn lemma_bad_id_rejected(text: Seq<char>)
    requires
        bad_id(json_member_of(text, "chat_id"@)) || bad_id(json_member_of(text, "user_id"@)),
    ensures
        frame_decode_spec(text) is Err,
{
    lemma_bad_id_fails(json_member_of(text, "chat_id"@), Field::ChatId);
    lemma_bad_id_fails(json_member_of(text, "user_id"@), Field::UserId);
}

proof fn lemma_bad_id_fails(f: FieldView, w: Field)
    ensures
        bad_id(f) ==> id_of(f, w) is Err,
{
    if let FieldView::Text(s) = f {
        if not_decimal(s) && s.len() > 0 {
            let i = choose|i: int|
                0 <= i < s.len() && !is_digit(#[trigger] s[i]) && !(i == 0 && (s[0] == '-' || s[0] == '+'));
            if s[0] == '-' || s[0] == '+' {
                let body = s.subrange(1, s.len() as int);
                if body.len() > 0 {
                    assert(body[i - 1] == s[i]);
                    assert(!is_digit(body[i - 1]));
                }
            } else {
                assert(!is_digit(s[i]));
            }
        }
    }
}

/// Bound above which the digits read so far are only known to be too many.
const SATURATED: u64 = 0x8000_0001;

/// Reads a decimal `i32`, with an optional sign.
pub fn parse_i32(s: &str) -> (r: Result<i32, IntError>)
    ensures
        match r {
            Ok(v) => parse_i32_spec(s@) == Ok::<int, IntError>(v as int),
            Err(e) => parse_i32_spec(s@) == Err::<int, IntError>(e),
        },
{
    let n = s.unicode_len();
    if n == 0 {
        return Err(IntError::Empty);
    }
    let c0 = s.get_char(0);
    let start: usize = if c0 == '-' || c0 == '+' { 1 } else { 0 };
    let ghost body = s@.subrange(start as int, n as int);
    if start == n {
        return Err(IntError::InvalidDigit);
    }
    let mut acc: u64 = 0;
    let mut i: usize = start;
    while i < n
        invariant
            start <= i <= n,
            n == s@.len(),
            n > 0,
            c0 == s@[0],
            start == (if c0 == '-' || c0 == '+' { 1usize } else { 0usize }),
            body == s@.subrange(start as int, n as int),
            forall|k: int| start <= k < i ==> #[trigger] is_digit(s@[k]),
            digits_value(s@.subrange(start as int, i as int)) < SATURATED ==> acc == digits_value(
                s@.subrange(start as int, i as int),
            ),
            digits_value(s@.subrange(start as int, i as int)) >= SATURATED ==> acc == SATURATED,
        decreases n - i,
    {
        let c = s.get_char(i);
        if !('0' <= c && c <= '9') {
            proof {
                assert(body[i - start] == c);
                assert(!is_digit(body[i - start]));
            }
            return Err(IntError::InvalidDigit);
        }
        let d = (c as u32 - '0' as u32) as u64;
        let ghost prev = s@.subrange(start as int, i as int);
        let ghost next = s@.subrange(start as int, i + 1);
        proof {
            assert(next.drop_last() =~= prev);
            assert(next.last() == c);
            assert(digits_value(next) == digits_value(prev) * 10 + d);
        }
        if acc >= SATURATED {
            acc = SATURATED;
        } else {
            let t = acc * 10 + d;
            acc = if t >= SATURATED { SATURATED } else { t };
        }
        i += 1;
    }
    proof {
        if c0 == '-' || c0 == '+' {
            assert(body =~= s@.subrange(1, s@.len() as int));
        } else {
            assert(body =~= s@);
        }
        assert(all_digits(body)) by {
            assert forall|j: int| 0 <= j < body.len() implies #[trigger] is_digit(body[j]) by {
                assert(body[j] == s@[start + j]);
            }
        }
    }
    if c0 == '-' {
        if acc > 0x8000_0000 {
            Err(IntError::NegOverflow)
        } else {
            Ok((0i64 - acc as i64) as i32)
        }
    } else if acc > 0x7fff_ffff {
        Err(IntError::PosOverflow)
    } else {
        Ok(acc as i32)
    }
}

fn id_from(f: JsonField, which: Field) -> (r: Result<i32, FrameError>)
    ensures
        match r {
            Ok(v) => id_of(f@, which) == Ok::<int, FrameError>(v as int),
            Err(e) => id_of(f@, which) == Err::<int, FrameError>(e),
        },
{
    match f {
        JsonField::NotObject => Err(FrameError::Malformed),
        JsonField::Missing => Err(FrameError::MissingField(which)),
        JsonField::Int(v) => Ok(#[verifier::truncate] (v as i32)),
        JsonField::Text(s) => match parse_i32(s.as_str()) {
            Ok(v) => Ok(v),
            Err(e) => Err(FrameError::InvalidInteger(which, e)),
        },
        _ => Err(FrameError::InvalidType(which)),
    }
}

fn text_from(f: JsonField, which: Field) -> (r: Result<String, FrameError>)
    ensures
        match r {
            Ok(s) => text_of(f@, which) == Ok::<Seq<char>, FrameError>(s@),
            Err(e) => text_of(f@, which) == Err::<Seq<char>, FrameError>(e),
        },
{
    match f {
        JsonField::NotObject => Err(FrameError::Malformed),
        JsonField::Missing => Err(FrameError::MissingField(which)),
        JsonField::Text(s) => Ok(s),
        _ => Err(FrameError::InvalidType(which)),
    }
}

fn opt_text_from(f: JsonField, which: Field) -> (r: Result<Option<String>, FrameError>)
    ensures
        match r {
            Ok(o) => opt_text_of(f@, which) == Ok::<Option<Seq<char>>, FrameError>(opt_view(o)),
            Err(e) => opt_text_of(f@, which) == Err::<Option<Seq<char>>, FrameError>(e),
        },
{
    match f {
        JsonField::NotObject => Err(FrameError::Malformed),
        JsonField::Missing | JsonField::Null => Ok(None),
        JsonField::Text(s) => Ok(Some(s)),
        _ => Err(FrameError::InvalidType(which)),
    }
}

/// Builds a message from the six members of a frame, as read from JSON.
pub fn decode_fields(
    chat_id: JsonField,
    user_id: JsonField,
    content: JsonField,
    file_data: JsonField,
    file_path: JsonField,
    message_type: JsonField,
) -> (r: Result<InboundMessage, FrameError>)
    ensures
        decoded_view(r) == decode_spec(chat_id@, user_id@, content@, file_data@, file_path@, message_type@),
{
    let c = match id_from(chat_id, Field::ChatId) {
        Ok(v) => v,
        Err(e) => return Err(e),
    };
    let u = match id_from(user_id, Field::UserId) {
        Ok(v) => v,
        Err(e) => return Err(e),
    };
    let t = match text_from(content, Field::Content) {
        Ok(v) => v,
        Err(e) => return Err(e),
    };
    let d = match opt_text_from(file_data, Field::FileData) {
        Ok(v) => v,
        Err(e) => return Err(e),
    };
    let p = match opt_text_from(file_path, Field::FilePath) {
        Ok(v) => v,
        Err(e) => return Err(e),
    };
    let k = match text_from(message_type, Field::MessageType) {
        Ok(v) => v,
        Err(e) => return Err(e),
    };
    Ok(InboundMessage { chat_id: c, user_id: u, content: t, file_data: d, file_path: p, message_type: k })
}

/// Decodes one text frame.
pub fn decode(text: &str) -> (r: Result<InboundMessage, FrameError>)
    ensures
        decoded_view(r) == frame_decode_spec(text@),
{
    let c = json_member(text, "chat_id");
    let u = json_member(text, "user_id");
    let t = json_member(text, "content");
    let d = json_member(text, "file_data");
    let p = json_member(text, "file_path");
    let k = json_member(text, "message_type");
    decode_fields(c, u, t, d, p, k)
}

pub open spec fn digit_char(d: int) -> char {
    if d == 0 { '0' }
    else if d == 1 { '1' }
    else if d == 2 { '2' }
    else if d == 3 { '3' }
    else if d == 4 { '4' }
    else if d == 5 { '5' }
    else if d == 6 { '6' }
    else if d == 7 { '7' }
    else if d == 8 { '8' }
    else { '9' }
}

/// Decimal digits of a natural number, without leading zeros.
pub open spec fn nat_digits(n: nat) -> Seq<char>
    decreases n,
{
    if n < 10 {
        seq![digit_char(n as int)]
    } else {
        nat_digits(n / 10).push(digit_char((n % 10) as int))
    }
}

/// Decimal text of an integer, with `-` before a negative one.
pub open spec fn decimal(n: int) -> Seq<char> {
    if n < 0 {
        seq!['-'] + nat_digits((-n) as nat)
    } else {
        nat_digits(n as nat)
    }
}

/// A JSON string, or `null` for `None`.
pub open spec fn json_opt(o: Option<Seq<char>>) -> Seq<char> {
    match o {
        Some(s) => json_quoted_of(s),
        None => "null"@,
    }
}

/// The frame that carries a message: a compact JSON object with its members
/// in declaration order.
pub open spec fn frame_text(m: MessageView) -> Seq<char> {
    "{\"chat_id\":"@ + decimal(m.chat_id) + ",\"user_id\":"@ + decimal(m.user_id)
        + ",\"content\":"@ + json_quoted_of(m.content) + ",\"file_data\":"@ + json_opt(m.file_data)
        + ",\"file_path\":"@ + json_opt(m.file_path) + ",\"message_type\":"@
        + json_quoted_of(m.message_type) + "}"@
}

fn digit_str(d: u64) -> (r: &'static str)
    requires
        d < 10,
    ensures
        r@ == seq![digit_char(d as int)],
{
    proof {
        reveal_strlit("0");
        reveal_strlit("1");
        reveal_strlit("2");
        reveal_strlit("3");
        reveal_strlit("4");
        reveal_strlit("5");
        reveal_strlit("6");
        reveal_strlit("7");
        reveal_strlit("8");
        reveal_strlit("9");
    }
    match d {
        0 => "0",
        1 => "1",
        2 => "2",
        3 => "3",
        4 => "4",
        5 => "5",
        6 => "6",
        7 => "7",
        8 => "8",
        _ => "9",
    }
}

fn append_digits(out: &mut String, n: u64)
    ensures
        final(out)@ == old(out)@ + nat_digits(n as nat),
    decreases n,
{
    if n >= 10 {
        append_digits(out, n / 10);
    }
    out.append(digit_str(n % 10));
    proof {
        if n >= 10 {
            assert(old(out)@ + nat_digits(n as nat) =~= old(out)@ + nat_digits((n / 10) as nat) + seq![digit_char((n % 10) as int)]);
        }
    }
}

fn append_decimal(out: &mut String, n: i32)
    ensures
        final(out)@ == old(out)@ + decimal(n as int),
{
    if n < 0 {
        out.append("-");
        proof {
            reveal_strlit("-");
        }
        append_digits(out, (0i64 - n as i64) as u64);
        proof {
            assert(old(out)@ + decimal(n as int) =~= old(out)@ + seq!['-'] + nat_digits((-n) as nat));
        }
    } else {
        append_digits(out, n as u64);
    }
}

fn append_json_opt(out: &mut String, o: &Option<String>)
    ensures
        final(out)@ == old(out)@ + json_opt(opt_view(*o)),
{
    match o {
        Some(s) => {
            let q = json_quoted(s.as_str());
            out.append(q.as_str());
        },
        None => out.append("null"),
    }
}

/// The frame that relays `m` to peers.
pub fn encode(m: &InboundMessage) -> (r: String)
    ensures
        r@ == frame_text(m@),
{
    let mut out = String::new();
    out.append("{\"chat_id\":");
    append_decimal(&mut out, m.chat_id);
    out.append(",\"user_id\":");
    append_decimal(&mut out, m.user_id);
    out.append(",\"content\":");
    let q = json_quoted(m.content.as_str());
    out.append(q.as_str());
    out.append(",\"file_data\":");
    append_json_opt(&mut out, &m.file_data);
    out.append(",\"file_path\":");
    append_json_opt(&mut out, &m.file_path);
    out.append(",\"message_type\":");
    let q = json_quoted(m.message_type.as_str());
    out.append(q.as_str());
    out.append("}");
    out
}

} // verus!
