use vstd::prelude::*;

verus! {

/// One parameter token taken from a message.
#[derive(Debug, Clone, PartialEq, Eq)]
pub enum ParamItem {
    Text(String),
    At(u64),
}

/// What a token is, as a mathematical value.
pub enum TokenView {
    Text(Seq<char>),
    At(u64),
}

impl View for ParamItem {
    type V = TokenView;

    open spec fn view(&self) -> TokenView {
        match self {
            ParamItem::Text(t) => TokenView::Text(t@),
            ParamItem::At(id) => TokenView::At(*id),
        }
    }
}

/// The three kinds of bracket; each has an ASCII and a full-width form.
#[derive(Debug, Clone, Copy, PartialEq, Eq, Structural)]
pub enum BracketType {
    Brace,
    Parenthesis,
    Bracket,
}

pub open spec fn open_kind(c: char) -> Option<BracketType> {
    if c == '{' || c == '｛' {
        Some(BracketType::Brace)
    } else if c == '[' || c == '【' {
        Some(BracketType::Bracket)
    } else if c == '(' || c == '（' {
        Some(BracketType::Parenthesis)
    } else {
        None
    }
}

pub open spec fn close_kind(c: char) -> Option<BracketType> {
    if c == '}' || c == '｝' {
        Some(BracketType::Brace)
    } else if c == ']' || c == '】' {
        Some(BracketType::Bracket)
    } else if c == ')' || c == '）' {
        Some(BracketType::Parenthesis)
    } else {
        None
    }
}

pub open spec fn is_ws(c: char) -> bool {
    c == ' ' || c == '\t' || c == '\n' || c == '\r'
}

impl BracketType {
    /// The bracket kind that `ch` opens, if any.
    pub fn match_open(ch: &char) -> (r: Option<BracketType>)
        ensures
            r == open_kind(*ch),
    {
        match *ch {
            '{' | '｛' => Some(BracketType::Brace),
            '[' | '【' => Some(BracketType::Bracket),
            '(' | '（' => Some(BracketType::Parenthesis),
            _ => None,
        }
    }

    /// The bracket kind that `ch` closes, if any.
    pub fn match_close(ch: &char) -> (r: Option<BracketType>)
        ensures
            r == close_kind(*ch),
    {
        match *ch {
            '}' | '｝' => Some(BracketType::Brace),
            ']' | '】' => Some(BracketType::Bracket),
            ')' | '）' => Some(BracketType::Parenthesis),
            _ => None,
        }
    }
}

/// Space, tab, carriage return and line feed separate tokens.
pub fn is_whitespace(ch: &char) -> (r: bool)
    ensures
        r == is_ws(*ch),
{
    *ch == ' ' || *ch == '\t' || *ch == '\n' || *ch == '\r'
}

/// One segment of a message: a run of text or a mention of a user.
#[derive(Debug, Clone, PartialEq)]
pub enum Segment {
    Text(String),
    Mention(u64),
}

/// Where the scanner stands inside a text segment.
pub enum ScanState {
    Idle,
    Run(Seq<char>),
    Group(BracketType, Seq<char>),
}

/// The tokens of `s`, read left to right from state `st`.
///
/// Whitespace separates tokens. An opening bracket starts a group that ends at
/// the first closing bracket of the same kind (or at the end of the text); the
/// brackets themselves are dropped and everything between them is kept. Any
/// other run ends at whitespace or at an opening bracket.
pub open spec fn scan(s: Seq<char>, st: ScanState) -> Seq<TokenView>
    decreases s.len(),
{
    if s.len() == 0 {
        match st {
            ScanState::Idle => Seq::empty(),
            ScanState::Run(acc) => seq![TokenView::Text(acc)],
            ScanState::Group(_, acc) => seq![TokenView::Text(acc)],
        }
    } else {
        let c = s[0];
        let rest = s.drop_first();
        match st {
            ScanState::Idle => if is_ws(c) {
                scan(rest, ScanState::Idle)
            } else if open_kind(c) is Some {
                scan(rest, ScanState::Group(open_kind(c)->0, Seq::empty()))
            } else {
                scan(rest, ScanState::Run(seq![c]))
            },
            ScanState::Run(acc) => if is_ws(c) {
                seq![TokenView::Text(acc)] + scan(rest, ScanState::Idle)
            } else if open_kind(c) is Some {
                seq![TokenView::Text(acc)] + scan(
                    rest,
                    ScanState::Group(open_kind(c)->0, Seq::empty()),
                )
            } else {
                scan(rest, ScanState::Run(acc.push(c)))
            },
            ScanState::Group(k, acc) => if close_kind(c) == Some(k) {
                seq![TokenView::Text(acc)] + scan(rest, ScanState::Idle)
            } else {
                scan(rest, ScanState::Group(k, acc.push(c)))
            },
        }
    }
}

/// The tokens of one text segment.
pub open spec fn text_tokens(s: Seq<char>) -> Seq<TokenView> {
    scan(s, ScanState::Idle)
}

pub open spec fn segment_tokens(seg: Segment) -> Seq<TokenView> {
    match seg {
        Segment::Text(t) => text_tokens(t@),
        Segment::Mention(id) => seq![TokenView::At(id)],
    }
}

/// The tokens of a whole message, segment after segment.
pub open spec fn message_tokens(segs: Seq<Segment>) -> Seq<TokenView>
    decreases segs.len(),
{
    if segs.len() == 0 {
        Seq::empty()
    } else {
        segment_tokens(segs[0]) + message_tokens(segs.drop_first())
    }
}

pub open spec fn views(items: Seq<ParamItem>) -> Seq<TokenView> {
    items.map_values(|t: ParamItem| t@)
}

/// Relies on `String::push`: appends one character.
#[verifier::external_body]
pub(crate) fn push_char(s: &mut String, c: char)
    ensures
        final(s)@ == old(s)@.push(c),
{
    s.push(c)
}

/// The characters of `s`, in order.
pub fn chars_of(s: &str) -> (r: Vec<char>)
    ensures
        r@ == s@,
{
    let mut v: Vec<char> = Vec::new();
    for c in it: s.chars()
        invariant
            v@ == it.seq().take(it.index() as int),
    {
        v.push(c);
    }
    v
}

/// A lazy, non-restartable stream of the tokens of a message.
#[derive(Debug)]
pub struct MessageIter {
    message: Vec<Segment>,
    next_segment: usize,
    cache: Vec<char>,
    pos: usize,
}

impl MessageIter {
    pub closed spec fn wf(&self) -> bool {
        &&& self.next_segment <= self.message.len()
        &&& self.pos <= self.cache.len()
    }

    /// The tokens that the stream has still to give.
    pub closed spec fn remaining(&self) -> Seq<TokenView> {
        text_tokens(self.cache@.subrange(self.pos as int, self.cache.len() as int))
            + message_tokens(
            self.message@.subrange(self.next_segment as int, self.message.len() as int),
        )
    }

    pub fn new(message: Vec<Segment>) -> (r: MessageIter)
        ensures
            r.wf(),
            r.remaining() == message_tokens(message@),
    {
        let r = MessageIter { message, next_segment: 0, cache: Vec::new(), pos: 0 };
        assert(r.cache@.subrange(0, 0) =~= Seq::<char>::empty());
        assert(r.message@.subrange(0, r.message.len() as int) =~= r.message@);
        r
    }

    /// Takes the next token off the stream.
    pub fn next(&mut self) -> (r: Option<ParamItem>)
        requires
            old(self).wf(),
        ensures
            final(self).wf(),
            old(self).remaining().len() == 0 ==> r is None && final(self).remaining().len() == 0,
            old(self).remaining().len() > 0 ==> r is Some && r->0@ == old(self).remaining()[0]
                && final(self).remaining() == old(self).remaining().drop_first(),
    {
        let ghost total = self.remaining();
        loop
            invariant
                self.wf(),
                self.remaining() == total,
                total == old(self).remaining(),
            decreases self.message.len() - self.next_segment,
        {
            let len = self.cache.len();
            let ghost seg = self.next_segment;
            let ghost mlen = self.message.len();
            while self.pos < len && is_whitespace(&self.cache[self.pos])
                invariant
                    self.wf(),
                    len == self.cache.len(),
                    self.remaining() == total,
                    total == old(self).remaining(),
                    self.next_segment == seg,
                    self.message.len() == mlen,
                decreases len - self.pos,
            {
                proof {
                    let s = self.cache@.subrange(self.pos as int, len as int);
                    assert(s.drop_first() =~= self.cache@.subrange(self.pos + 1, len as int));
                }
                self.pos = self.pos + 1;
            }
            if self.pos < len {
                let start = self.pos;
                let ghost tail = message_tokens(
                    self.message@.subrange(self.next_segment as int, self.message.len() as int),
                );
                let mut text = String::new();
                let first = self.cache[self.pos];
                proof {
                    let s = self.cache@.subrange(self.pos as int, len as int);
                    assert(s.drop_first() =~= self.cache@.subrange(self.pos + 1, len as int));
                }
                self.pos = self.pos + 1;
                match BracketType::match_open(&first) {
                    Some(kind) => {
                        while self.pos < len && BracketType::match_close(&self.cache[self.pos])
                            != Some(kind)
                            invariant
                                self.wf(),
                                len == self.cache.len(),
                                start < self.pos <= len,
                                total == old(self).remaining(),
                                total == scan(
                                    self.cache@.subrange(self.pos as int, len as int),
                                    ScanState::Group(kind, text@),
                                ) + tail,
                                tail == message_tokens(
                                    self.message@.subrange(
                                        self.next_segment as int,
                                        self.message.len() as int,
                                    ),
                                ),
                            decreases len - self.pos,
                        {
                            proof {
                                let s = self.cache@.subrange(self.pos as int, len as int);
                                assert(s.drop_first() =~= self.cache@.subrange(
                                    self.pos + 1,
                                    len as int,
                                ));
                            }
                            push_char(&mut text, self.cache[self.pos]);
                            self.pos = self.pos + 1;
                        }
                        if self.pos < len {
                            proof {
                                let s = self.cache@.subrange(self.pos as int, len as int);
                                assert(s.drop_first() =~= self.cache@.subrange(
                                    self.pos + 1,
                                    len as int,
                                ));
                            }
                            self.pos = self.pos + 1;
                        } else {
                            assert(self.cache@.subrange(self.pos as int, len as int)
                                =~= Seq::<char>::empty());
                        }
                    },
                    None => {
                        push_char(&mut text, first);
                        while self.pos < len && !is_whitespace(&self.cache[self.pos])
                            && BracketType::match_open(&self.cache[self.pos]).is_none()
                            invariant
                                self.wf(),
                                len == self.cache.len(),
                                start < self.pos <= len,
                                total == old(self).remaining(),
                                total == scan(
                                    self.cache@.subrange(self.pos as int, len as int),
                                    ScanState::Run(text@),
                                ) + tail,
                                tail == message_tokens(
                                    self.message@.subrange(
                                        self.next_segment as int,
                                        self.message.len() as int,
                                    ),
                                ),
                            decreases len - self.pos,
                        {
                            proof {
                                let s = self.cache@.subrange(self.pos as int, len as int);
                                assert(s.drop_first() =~= self.cache@.subrange(
                                    self.pos + 1,
                                    len as int,
                                ));
                            }
                            push_char(&mut text, self.cache[self.pos]);
                            self.pos = self.pos + 1;
                        }
                        if self.pos < len {
                            proof {
                                let s = self.cache@.subrange(self.pos as int, len as int);
                                assert(s.drop_first() =~= self.cache@.subrange(
                                    self.pos + 1,
                                    len as int,
                                ));
                            }
                        } else {
                            assert(self.cache@.subrange(self.pos as int, len as int)
                                =~= Seq::<char>::empty());
                        }
                    },
                }
                let r = ParamItem::Text(text);
                assert(total =~= seq![r@] + self.remaining());
                assert(self.remaining() =~= total.drop_first());
                return Some(r);
            }
            if self.next_segment >= self.message.len() {
                assert(self.cache@.subrange(self.pos as int, len as int) =~= Seq::<char>::empty());
                assert(self.message@.subrange(
                    self.next_segment as int,
                    self.message.len() as int,
                ) =~= Seq::<Segment>::empty());
                return None;
            }
            let i = self.next_segment;
            proof {
                let m = self.message@.subrange(i as int, self.message.len() as int);
                assert(m.drop_first() =~= self.message@.subrange(
                    i + 1,
                    self.message.len() as int,
                ));
                assert(self.cache@.subrange(self.pos as int, len as int) =~= Seq::<char>::empty());
            }
            self.next_segment = i + 1;
            match &self.message[i] {
                Segment::Mention(id) => {
                    let r = ParamItem::At(*id);
                    assert(self.cache@.subrange(self.pos as int, len as int) =~= Seq::<char>::empty());
                    assert(total =~= seq![r@] + self.remaining());
                    assert(self.remaining() =~= total.drop_first());
                    return Some(r);
                },
                Segment::Text(t) => {
                    let cs = chars_of(t.as_str());
                    self.cache = cs;
                    self.pos = 0;
                    assert(self.cache@.subrange(0, self.cache.len() as int) =~= self.cache@);
                },
            }
        }
    }

    /// Drains the stream into a vector.
    pub fn into_tokens(self) -> (r: Vec<ParamItem>)
        requires
            self.wf(),
        ensures
            views(r@) == self.remaining(),
    {
        let mut it = self;
        let mut out: Vec<ParamItem> = Vec::new();
        loop
            invariant
                it.wf(),
                views(out@) + it.remaining() == self.remaining(),
            decreases it.remaining().len(),
        {
            let ghost before = it.remaining();
            match it.next() {
                Some(t) => {
                    let ghost prev = out@;
                    out.push(t);
                    assert(views(out@) =~= views(prev).push(t@));
                    assert(views(out@) + it.remaining() =~= views(prev) + before);
                },
                None => {
                    assert(views(out@) =~= views(out@) + it.remaining());
                    return out;
                },
            }
        }
    }
}

/// The pieces of `s` between whitespace characters, empty ones included.
pub open spec fn split_ws(s: Seq<char>) -> Seq<Seq<char>>
    decreases s.len(),
{
    if s.len() == 0 {
        seq![Seq::empty()]
    } else {
        let r = split_ws(s.drop_first());
        if is_ws(s[0]) {
            seq![Seq::<char>::empty()] + r
        } else {
            r.update(0, seq![s[0]] + r[0])
        }
    }
}

/// The non-empty pieces, each as a text token.
pub open spec fn word_tokens(pieces: Seq<Seq<char>>) -> Seq<TokenView>
    decreases pieces.len(),
{
    if pieces.len() == 0 {
        Seq::empty()
    } else if pieces[0].len() == 0 {
        word_tokens(pieces.drop_first())
    } else {
        seq![TokenView::Text(pieces[0])] + word_tokens(pieces.drop_first())
    }
}

pub open spec fn has_no_bracket(s: Seq<char>) -> bool {
    forall|i: int| 0 <= i < s.len() ==> open_kind(#[trigger] s[i]) is None && close_kind(s[i]) is None
}

proof fn lemma_scan_words(s: Seq<char>, acc: Seq<char>)
    requires
        has_no_bracket(s),
        acc.len() > 0,
    ensures
        split_ws(s).len() >= 1,
        scan(s, ScanState::Idle) == word_tokens(split_ws(s)),
        scan(s, ScanState::Run(acc)) == seq![TokenView::Text(acc + split_ws(s)[0])] + word_tokens(
            split_ws(s).drop_first(),
        ),
    decreases s.len(),
{
    if s.len() == 0 {
        assert(acc + Seq::<char>::empty() =~= acc);
        let e = seq![Seq::<char>::empty()];
        assert(split_ws(s) == e);
        assert(e.drop_first() =~= Seq::<Seq<char>>::empty());
        assert(word_tokens(e.drop_first()) == Seq::<TokenView>::empty());
        assert(word_tokens(e) == word_tokens(e.drop_first()));
    } else {
        let c = s[0];
        let r = s.drop_first();
        assert(has_no_bracket(r)) by {
            assert forall|i: int| 0 <= i < r.len() implies open_kind(#[trigger] r[i]) is None
                && close_kind(r[i]) is None by {
                assert(r[i] == s[i + 1]);
            }
        }
        assert(open_kind(s[0]) is None);
        lemma_scan_words(r, acc.push(c));
        lemma_scan_words(r, seq![c]);
        let sr = split_ws(r);
        if is_ws(c) {
            let ss = seq![Seq::<char>::empty()] + sr;
            assert(split_ws(s) == ss);
            assert(ss.drop_first() =~= sr);
            assert(acc + ss[0] =~= acc);
            assert(word_tokens(ss) == word_tokens(sr));
            assert(scan(s, ScanState::Idle) == scan(r, ScanState::Idle));
        } else {
            let ss = sr.update(0, seq![c] + sr[0]);
            assert(split_ws(s) == ss);
            assert(ss.drop_first() =~= sr.drop_first());
            assert(acc + ss[0] =~= acc.push(c) + sr[0]);
            assert(seq![c] + sr[0] == ss[0]);
            assert(ss[0].len() > 0);
            assert(word_tokens(ss) == seq![TokenView::Text(ss[0])] + word_tokens(ss.drop_first()));
            assert(scan(s, ScanState::Idle) == scan(r, ScanState::Run(seq![c])));
        }
    }
}

/// Text without brackets splits into exactly its whitespace-separated,
/// non-empty pieces, in order.
pub proof fn lemma_plain_text_tokens(s: Seq<char>)
    requires
        has_no_bracket(s),
    ensures
        text_tokens(s) == word_tokens(split_ws(s)),
{
    lemma_scan_words(s, seq![' ']);
}

proof fn lemma_message_tokens_concat(a: Seq<Segment>, b: Seq<Segment>)
    ensures
        message_tokens(a + b) == message_tokens(a) + message_tokens(b),
    decreases a.len(),
{
    if a.len() == 0 {
        assert(a + b =~= b);
    } else {
        lemma_message_tokens_concat(a.drop_first(), b);
        assert((a + b).drop_first() =~= a.drop_first() + b);
        assert((a + b)[0] == a[0]);
    }
}

/// A mention gives exactly one token of its own, whatever stands around it:
/// the text segments before and after it are read on their own.
pub proof fn lemma_mention_alone(before: Seq<Segment>, id: u64, after: Seq<Segment>)
    ensures
        message_tokens(before + seq![Segment::Mention(id)] + after) == message_tokens(before)
            + seq![TokenView::At(id)] + message_tokens(after),
{
    let m = seq![Segment::Mention(id)];
    lemma_message_tokens_concat(before + m, after);
    lemma_message_tokens_concat(before, m);
    assert(m.drop_first() =~= Seq::<Segment>::empty());
    assert(m[0] == Segment::Mention(id));
    assert(message_tokens(m.drop_first()) == Seq::<TokenView>::empty());
    assert(message_tokens(m) =~= seq![TokenView::At(id)]);
}

/// The tokens of a message given as segments.
pub fn tokenize(message: Vec<Segment>) -> (r: Vec<ParamItem>)
    ensures
        views(r@) == message_tokens(message@),
{
    MessageIter::new(message).into_tokens()
}

} // verus!
