use vstd::prelude::*;
use crate::literal::same_chars;
use crate::token::{chars_of, message_tokens, MessageIter, Segment};

verus! {

/// One part of a message as it arrives: its `type`, and the fields of its
/// `data` that the bot reads (`qq`, a user id, and `text`). A field that is
/// missing or of another JSON type is `None`.
#[derive(Debug, Clone, PartialEq)]
pub struct MessagePart {
    pub kind: Option<String>,
    pub qq: Option<u64>,
    pub text: Option<String>,
}

/// The segment that a part stands for: `at` with a user id is a mention,
/// `text` with a text is a text; any other part is no segment.
pub open spec fn part_segment(p: MessagePart) -> Option<Segment> {
    match p.kind {
        Some(k) => if k@ == "at"@ && p.qq is Some {
            Some(Segment::Mention(p.qq->0))
        } else if k@ == "text"@ && p.text is Some {
            Some(Segment::Text(p.text->0))
        } else {
            None
        },
        None => None,
    }
}

/// The segments of a list of parts, in order; parts that stand for no
/// segment are passed over.
pub open spec fn part_segments(ps: Seq<MessagePart>) -> Seq<Segment>
    decreases ps.len(),
{
    if ps.len() == 0 {
        Seq::empty()
    } else {
        match part_segment(ps.last()) {
            Some(s) => part_segments(ps.drop_last()).push(s),
            None => part_segments(ps.drop_last()),
        }
    }
}

fn is_kind(kind: &String, lit: &str) -> (r: bool)
    ensures
        r == (kind@ == lit@),
{
    same_chars(&chars_of(kind.as_str()), &chars_of(lit))
}

/// The segment that one part stands for.
pub fn segment_of(part: &MessagePart) -> (r: Option<Segment>)
    ensures
        r == part_segment(*part),
{
    match &part.kind {
        Some(k) => if is_kind(k, "at") && part.qq.is_some() {
            match part.qq {
                Some(id) => Some(Segment::Mention(id)),
                None => None,
            }
        } else if is_kind(k, "text") {
            match &part.text {
                Some(t) => Some(Segment::Text(t.clone())),
                None => None,
            }
        } else {
            None
        },
        None => None,
    }
}

/// The segments of `parts`, in order.
pub fn segments_of(parts: &Vec<MessagePart>) -> (r: Vec<Segment>)
    ensures
        r@ == part_segments(parts@),
{
    let mut out: Vec<Segment> = Vec::new();
    let mut i: usize = 0;
    while i < parts.len()
        invariant
            i <= parts.len(),
            out@ == part_segments(parts@.take(i as int)),
        decreases parts.len() - i,
    {
        assert(parts@.take(i + 1).drop_last() =~= parts@.take(i as int));
        assert(parts@.take(i + 1).last() == parts@[i as int]);
        match segment_of(&parts[i]) {
            Some(seg) => out.push(seg),
            None => {},
        }
        i = i + 1;
    }
    assert(parts@.take(i as int) =~= parts@);
    out
}

/// A message as it arrives: the parts of its JSON array, or `None` when the
/// message is not an array.
#[derive(Debug, Clone, PartialEq)]
pub struct MessageData(pub Option<Vec<MessagePart>>);

impl MessageData {
    /// The token stream of the message: the tokens of its parts, in order.
    /// `None` exactly when the message is not an array.
    pub fn into_messages(self) -> (r: Option<MessageIter>)
        ensures
            (r is Some) == (self.0 is Some),
            r matches Some(it) ==> it.wf() && it.remaining() == message_tokens(
                part_segments(self.0->0@),
            ),
    {
        match self.0 {
            Some(parts) => Some(MessageIter::new(segments_of(&parts))),
            None => None,
        }
    }
}

} // verus!
