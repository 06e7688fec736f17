//! The text protocol between nodes: messages are fields joined by a
//! separator, and replies carry a status code, a message and data.

use vstd::prelude::*;
use crate::amount::{Amount, amount_of_text, parse_amount};
use crate::text::{
    occurs_at, split, split_fields, texts, remove_char, without_char, free_of, lemma_split_first_field,
    lemma_split_empty, lemma_two_chars_borderless, lemma_single_char_borderless,
};

verus! {

pub struct Response {}

/// The two characters `\` and `n`: the field separator of the HTTP protocol.
pub open spec fn escaped_newline() -> Seq<char> {
    seq!['\\', 'n']
}

/// A line break: the field separator of the TCP protocol.
pub open spec fn newline() -> Seq<char> {
    seq!['\n']
}

/// The fields, each followed by the separator.
pub open spec fn framed(fields: Seq<Seq<char>>, sep: Seq<char>) -> Seq<char>
    decreases fields.len(),
{
    if fields.len() == 0 {
        Seq::empty()
    } else {
        fields[0] + sep + framed(fields.drop_first(), sep)
    }
}

/// Field `n` of the text split at `sep`, if there is one.
pub open spec fn field_at(s: Seq<char>, sep: Seq<char>, n: int) -> Option<Seq<char>> {
    if 0 <= n < split(s, sep).len() {
        Some(split(s, sep)[n])
    } else {
        None
    }
}

/// Why a reply carried no balance.
#[derive(Clone, Copy, Debug, PartialEq, Eq, Structural)]
pub enum ReplyFault {
    /// The reply has too few fields.
    Malformed,
    /// The remote node answered with status code `0`.
    RemoteFailure,
}

/// The balance a reply's data field denotes; data that is no number counts
/// as `0.0` (zero at scale 1).
pub open spec fn balance_of_text(data: Seq<char>) -> (int, int) {
    match amount_of_text(data) {
        Some(v) => v,
        None => (0, 1),
    }
}

/// What a TCP balance reply (fields cut at line breaks) gives: field 0 is the
/// status code, field 2 the balance.
pub open spec fn tcp_balance_reply(reply: Seq<char>) -> Result<(int, int), ReplyFault> {
    match (field_at(reply, newline(), 0), field_at(reply, newline(), 2)) {
        (Some(code), Some(data)) => if code == seq!['0'] {
            Err(ReplyFault::RemoteFailure)
        } else {
            Ok(balance_of_text(data))
        },
        _ => Err(ReplyFault::Malformed),
    }
}

/// What an HTTP balance reply (fields cut at `\n`) gives: a missing field
/// counts as empty; status code `0` is a failure.
pub open spec fn http_balance_reply(reply: Seq<char>) -> Result<(int, int), ReplyFault> {
    let code = match field_at(reply, escaped_newline(), 0) {
        Some(c) => c,
        None => Seq::empty(),
    };
    let data = match field_at(reply, escaped_newline(), 2) {
        Some(d) => d,
        None => Seq::empty(),
    };
    if code == seq!['0'] {
        Err(ReplyFault::RemoteFailure)
    } else {
        Ok(balance_of_text(data))
    }
}

/// The separator `\n` (backslash, n) as text.
fn escaped_newline_str() -> (res: &'static str)
    ensures
        res@ == escaped_newline(),
{
    let s = "\\n";
    proof {
        reveal_strlit("\\n");
    }
    assert(s@ =~= escaped_newline());
    s
}

/// The separator line break as text.
fn newline_str() -> (res: &'static str)
    ensures
        res@ == newline(),
{
    let s = "\n";
    proof {
        reveal_strlit("\n");
    }
    assert(s@ =~= newline());
    s
}

/// Joins the fields, each followed by the separator.
fn frame(fields: Vec<String>, sep: &str) -> (res: String)
    ensures
        res@ == framed(texts(fields@), sep@),
{
    let mut s = String::new();
    let mut i: usize = 0;
    assert(texts(fields@).skip(0) =~= texts(fields@));
    assert(s@ + framed(texts(fields@), sep@) =~= framed(texts(fields@), sep@));
    while i < fields.len()
        invariant
            0 <= i <= fields@.len(),
            s@ + framed(texts(fields@).skip(i as int), sep@) == framed(texts(fields@), sep@),
        decreases fields.len() - i,
    {
        let ghost rest = texts(fields@).skip(i as int);
        assert(rest.drop_first() =~= texts(fields@).skip(i + 1));
        assert(rest[0] == fields@[i as int]@);
        s.append(fields[i].as_str());
        s.append(sep);
        i = i + 1;
    }
    assert(texts(fields@).skip(fields@.len() as int) =~= Seq::<Seq<char>>::empty());
    s
}

impl Response {
    /// A reply of the HTTP protocol: code, message and data, each followed by
    /// `\n` (backslash, n).
    pub fn response_formatter(code: String, message: String, data: String) -> (res: String)
        ensures
            res@ == framed(seq![code@, message@, data@], escaped_newline()),
    {
        let fields = vec![code, message, data];
        let res = frame(fields, escaped_newline_str());
        assert(texts(fields@) =~= seq![fields@[0]@, fields@[1]@, fields@[2]@]);
        res
    }
}

/// A reply of the TCP protocol: code, message and data, each followed by a
/// line break.
pub fn response_formatter(code: String, message: String, data: String) -> (res: String)
    ensures
        res@ == framed(seq![code@, message@, data@], newline()),
{
    let fields = vec![code, message, data];
    let res = frame(fields, newline_str());
    assert(texts(fields@) =~= seq![fields@[0]@, fields@[1]@, fields@[2]@]);
    res
}

/// A request of the HTTP protocol: action, data, message signature, the
/// sender node's public key and the broadcast flag, each followed by `\n`
/// (backslash, n).
pub fn request_formatter(
    action: String,
    data: String,
    message_singnature: String,
    sender_node_public_key: String,
    is_braodcasted: String,
) -> (res: String)
    ensures
        res@ == framed(
            seq![action@, data@, message_singnature@, sender_node_public_key@, is_braodcasted@],
            escaped_newline(),
        ),
{
    let fields = vec![action, data, message_singnature, sender_node_public_key, is_braodcasted];
    let res = frame(fields, escaped_newline_str());
    assert(texts(fields@) =~= seq![
        fields@[0]@,
        fields@[1]@,
        fields@[2]@,
        fields@[3]@,
        fields@[4]@,
    ]);
    res
}

/// Field `n` of the text cut at `sep`, if there is one.
pub fn field(text: &str, sep: &str, n: usize) -> (res: Option<String>)
    requires
        sep@.len() > 0,
    ensures
        match res {
            Some(f) => field_at(text@, sep@, n as int) == Some(f@),
            None => field_at(text@, sep@, n as int) is None,
        },
{
    let fields = split_fields(text, sep);
    if n < fields.len() {
        let f = fields[n].clone();
        assert(texts(fields@)[n as int] == fields@[n as int]@);
        Some(f)
    } else {
        None
    }
}

/// Field `n` of the text cut at `sep`, or the empty text if there is none.
pub fn field_or_empty(text: &str, sep: &str, n: usize) -> (res: String)
    requires
        sep@.len() > 0,
    ensures
        res@ == match field_at(text@, sep@, n as int) {
            Some(f) => f,
            None => Seq::empty(),
        },
{
    match field(text, sep, n) {
        Some(f) => f,
        None => String::new(),
    }
}

/// The data field (field 2) of a TCP reply, if the reply has one.
pub fn tcp_reply_data(reply: &str) -> (res: Option<String>)
    ensures
        match res {
            Some(f) => field_at(reply@, newline(), 2) == Some(f@),
            None => field_at(reply@, newline(), 2) is None,
        },
{
    field(reply, newline_str(), 2)
}

/// The code, message and data fields of an HTTP reply (empty where missing).
pub fn http_reply_fields(reply: &str) -> (res: (String, String, String))
    ensures
        res.0@ == (match field_at(reply@, escaped_newline(), 0) { Some(f) => f, None => Seq::empty() }),
        res.1@ == (match field_at(reply@, escaped_newline(), 1) { Some(f) => f, None => Seq::empty() }),
        res.2@ == (match field_at(reply@, escaped_newline(), 2) { Some(f) => f, None => Seq::empty() }),
{
    let sep = escaped_newline_str();
    (field_or_empty(reply, sep, 0), field_or_empty(reply, sep, 1), field_or_empty(reply, sep, 2))
}

/// The data field of an HTTP reply with its backslashes removed (the wallet
/// list of a node arrives with escaped quotes).
pub fn http_reply_clean_data(reply: &str) -> (res: String)
    ensures
        res@ == without_char(
            match field_at(reply@, escaped_newline(), 2) {
                Some(f) => f,
                None => Seq::empty(),
            },
            '\\',
        ),
{
    let data = field_or_empty(reply, escaped_newline_str(), 2);
    remove_char(data.as_str(), '\\')
}

/// The balance of a text field; text that is no number counts as `0.0`.
fn balance_from_text(data: &str) -> (res: Amount)
    ensures
        res@ == balance_of_text(data@),
{
    match parse_amount(data) {
        Some(a) => a,
        None => Amount::new(0, 1),
    }
}

/// Reads the balance out of a TCP balance reply.
pub fn parse_tcp_balance_reply(reply: &str) -> (res: Result<Amount, ReplyFault>)
    ensures
        match res {
            Ok(a) => tcp_balance_reply(reply@) == Ok::<(int, int), ReplyFault>(a@),
            Err(e) => tcp_balance_reply(reply@) == Err::<(int, int), ReplyFault>(e),
        },
{
    let sep = newline_str();
    let code = match field(reply, sep, 0) {
        Some(c) => c,
        None => return Err(ReplyFault::Malformed),
    };
    let data = match field(reply, sep, 2) {
        Some(d) => d,
        None => return Err(ReplyFault::Malformed),
    };
    let zero = String::from_str("0");
    proof {
        reveal_strlit("0");
    }
    assert(zero@ =~= seq!['0']);
    if code == zero {
        return Err(ReplyFault::RemoteFailure);
    }
    Ok(balance_from_text(data.as_str()))
}

/// Reads the balance out of an HTTP balance reply.
pub fn parse_http_balance_reply(reply: &str) -> (res: Result<Amount, ReplyFault>)
    ensures
        match res {
            Ok(a) => http_balance_reply(reply@) == Ok::<(int, int), ReplyFault>(a@),
            Err(e) => http_balance_reply(reply@) == Err::<(int, int), ReplyFault>(e),
        },
{
    let sep = escaped_newline_str();
    let code = field_or_empty(reply, sep, 0);
    let data = field_or_empty(reply, sep, 2);
    let zero = String::from_str("0");
    proof {
        reveal_strlit("0");
    }
    assert(zero@ =~= seq!['0']);
    if code == zero {
        return Err(ReplyFault::RemoteFailure);
    }
    Ok(balance_from_text(data.as_str()))
}

/// Splitting framed fields, none of which holds the separator, gives back
/// the fields and a last, empty one.
proof fn lemma_split_framed(fields: Seq<Seq<char>>, sep: Seq<char>)
    requires
        sep.len() > 0,
        crate::text::borderless(sep),
        forall|i: int| 0 <= i < fields.len() ==> free_of(#[trigger] fields[i], sep),
    ensures
        split(framed(fields, sep), sep) == fields.push(Seq::empty()),
    decreases fields.len(),
{
    if fields.len() == 0 {
        lemma_split_empty(sep);
        assert(fields.push(Seq::empty()) =~= seq![Seq::<char>::empty()]);
    } else {
        let rest = fields.drop_first();
        assert forall|i: int| 0 <= i < rest.len() implies free_of(#[trigger] rest[i], sep) by {
            assert(rest[i] == fields[i + 1]);
        }
        lemma_split_framed(rest, sep);
        assert(free_of(fields[0], sep));
        lemma_split_first_field(fields[0], sep, framed(rest, sep));
        assert(fields[0] + sep + framed(rest, sep) == framed(fields, sep));
        assert(seq![fields[0]] + rest.push(Seq::empty()) =~= fields.push(Seq::empty()));
    }
}

/// Law: a reply that `Response::response_formatter` frames is read back field
/// by field, provided no field holds the separator `\n` (backslash, n).
pub proof fn lemma_http_reply_roundtrip(code: Seq<char>, message: Seq<char>, data: Seq<char>)
    requires
        free_of(code, escaped_newline()),
        free_of(message, escaped_newline()),
        free_of(data, escaped_newline()),
    ensures
        split(framed(seq![code, message, data], escaped_newline()), escaped_newline()) == seq![
            code,
            message,
            data,
            Seq::<char>::empty(),
        ],
        field_at(framed(seq![code, message, data], escaped_newline()), escaped_newline(), 0) == Some(code),
        field_at(framed(seq![code, message, data], escaped_newline()), escaped_newline(), 1) == Some(message),
        field_at(framed(seq![code, message, data], escaped_newline()), escaped_newline(), 2) == Some(data),
{
    let fields = seq![code, message, data];
    lemma_two_chars_borderless(escaped_newline());
    assert forall|i: int| 0 <= i < fields.len() implies free_of(#[trigger] fields[i], escaped_newline()) by {
        if i == 0 {} else if i == 1 {} else {}
    }
    lemma_split_framed(fields, escaped_newline());
    assert(fields.push(Seq::empty()) =~= seq![code, message, data, Seq::<char>::empty()]);
}

/// Law: a reply that `response_formatter` frames with line breaks is read back
/// field by field, provided no field holds a line break.
pub proof fn lemma_tcp_reply_roundtrip(code: Seq<char>, message: Seq<char>, data: Seq<char>)
    requires
        free_of(code, newline()),
        free_of(message, newline()),
        free_of(data, newline()),
    ensures
        split(framed(seq![code, message, data], newline()), newline()) == seq![
            code,
            message,
            data,
            Seq::<char>::empty(),
        ],
        field_at(framed(seq![code, message, data], newline()), newline(), 2) == Some(data),
{
    let fields = seq![code, message, data];
    lemma_single_char_borderless(newline());
    assert forall|i: int| 0 <= i < fields.len() implies free_of(#[trigger] fields[i], newline()) by {
        if i == 0 {} else if i == 1 {} else {}
    }
    lemma_split_framed(fields, newline());
    assert(fields.push(Seq::empty()) =~= seq![code, message, data, Seq::<char>::empty()]);
}

/// Law: a request that `request_formatter` frames is read back field by field,
/// provided no field holds the separator `\n` (backslash, n).
pub proof fn lemma_request_roundtrip(fields: Seq<Seq<char>>)
    requires
        fields.len() == 5,
        forall|i: int| 0 <= i < 5 ==> free_of(#[trigger] fields[i], escaped_newline()),
    ensures
        split(framed(fields, escaped_newline()), escaped_newline()) == fields.push(Seq::empty()),
        forall|i: int| 0 <= i < 5 ==> field_at(framed(fields, escaped_newline()), escaped_newline(), i) == Some(#[trigger] fields[i]),
{
    lemma_two_chars_borderless(escaped_newline());
    lemma_split_framed(fields, escaped_newline());
}

/// Law: a TCP balance reply that `response_formatter` frames is read as the
/// balance its data field holds, whenever the status code is not `0` and no
/// field holds a line break.
pub proof fn lemma_tcp_balance_roundtrip(code: Seq<char>, message: Seq<char>, data: Seq<char>)
    requires
        free_of(code, newline()),
        free_of(message, newline()),
        free_of(data, newline()),
        code != seq!['0'],
    ensures
        tcp_balance_reply(framed(seq![code, message, data], newline())) == Ok::<(int, int), ReplyFault>(
            balance_of_text(data),
        ),
{
    lemma_tcp_reply_roundtrip(code, message, data);
    let r = framed(seq![code, message, data], newline());
    assert(split(r, newline())[0] == code);
    assert(split(r, newline())[2] == data);
}

/// Law: an HTTP balance reply that `Response::response_formatter` frames is
/// read as the balance its data field holds, whenever the status code is not
/// `0` and no field holds the separator `\n`.
pub proof fn lemma_http_balance_roundtrip(code: Seq<char>, message: Seq<char>, data: Seq<char>)
    requires
        free_of(code, escaped_newline()),
        free_of(message, escaped_newline()),
        free_of(data, escaped_newline()),
        code != seq!['0'],
    ensures
        http_balance_reply(framed(seq![code, message, data], escaped_newline())) == Ok::<
            (int, int),
            ReplyFault,
        >(balance_of_text(data)),
{
    lemma_http_reply_roundtrip(code, message, data);
}

/// Law: a TCP balance reply whose status code is `0` is a remote failure,
/// whatever the other fields.
pub proof fn lemma_tcp_balance_failure(message: Seq<char>, data: Seq<char>)
    requires
        free_of(message, newline()),
        free_of(data, newline()),
    ensures
        tcp_balance_reply(framed(seq![seq!['0'], message, data], newline())) == Err::<(int, int), ReplyFault>(
            ReplyFault::RemoteFailure,
        ),
{
    lemma_single_char_borderless(newline());
    assert forall|i: int| !#[trigger] occurs_at(seq!['0'], newline(), i) by {
        if occurs_at(seq!['0'], newline(), i) {
            assert(seq!['0'].subrange(i, i + 1)[0] == newline()[0]);
        }
    }
    lemma_tcp_reply_roundtrip(seq!['0'], message, data);
    let r = framed(seq![seq!['0'], message, data], newline());
    assert(split(r, newline())[0] == seq!['0']);
    assert(split(r, newline())[2] == data);
}

} // verus!
