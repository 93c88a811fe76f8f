use vstd::prelude::*;
use crate::text::{digits, join, opt_view, push_digits, push_joined, push_str, string_views};

verus! {

/// One error met while handling a command.
#[derive(Debug, Clone, PartialEq)]
pub enum BotError {
    /// Malformed, missing or out-of-range input from the user.
    Syntax { found: Option<String>, expected: Option<String>, note: Option<String> },
    /// A failure of the backend service, with its HTTP status code if there was one.
    Backend { code: Option<u16>, source: String },
    /// A failure to load configuration from disk.
    FileSystem { content: String },
}

pub enum ErrorView {
    Syntax { found: Option<Seq<char>>, expected: Option<Seq<char>>, note: Option<Seq<char>> },
    Backend { code: Option<u16>, source: Seq<char> },
    FileSystem { content: Seq<char> },
}

impl View for BotError {
    type V = ErrorView;

    open spec fn view(&self) -> ErrorView {
        match self {
            BotError::Syntax { found, expected, note } => ErrorView::Syntax {
                found: opt_view(*found),
                expected: opt_view(*expected),
                note: opt_view(*note),
            },
            BotError::Backend { code, source } => ErrorView::Backend {
                code: *code,
                source: source@,
            },
            BotError::FileSystem { content } => ErrorView::FileSystem { content: content@ },
        }
    }
}

pub open spec fn error_views(v: Seq<BotError>) -> Seq<ErrorView> {
    v.map_values(|e: BotError| e@)
}

/// The standard reason phrase of an HTTP status code.
pub uninterp spec fn canonical_reason_of(code: u16) -> Option<Seq<char>>;

/// Relies on `reqwest::StatusCode::from_u16`, which accepts codes from 100 to
/// 999, and on `StatusCode::canonical_reason`, the reason phrase of the code.
#[verifier::external_body]
fn status_reason(code: u16) -> (r: Option<String>)
    ensures
        opt_view(r) == canonical_reason_of(code),
        !(100 <= code <= 999) ==> r is None,
{
    match reqwest::StatusCode::from_u16(code) {
        Ok(c) => c.canonical_reason().map(String::from),
        Err(_) => None,
    }
}

pub open spec fn or_null(o: Option<Seq<char>>) -> Seq<char> {
    match o {
        Some(s) => s,
        None => "<NULL>"@,
    }
}

/// A status code as `404 Not Found`.
pub open spec fn code_text(code: Option<u16>) -> Seq<char> {
    match code {
        Some(c) => digits(c as nat) + " "@ + match canonical_reason_of(c) {
            Some(r) => r,
            None => "<unknown status code>"@,
        },
        None => "<UNREACHABLE>"@,
    }
}

pub open spec fn error_text(e: ErrorView) -> Seq<char> {
    match e {
        ErrorView::Syntax { found, expected, note } => "找到："@ + or_null(found) + "\n期望："@
            + or_null(expected) + "\n注释："@ + or_null(note),
        ErrorView::Backend { code, source } => "返回码："@ + code_text(code) + "\n返回内容："@
            + source,
        ErrorView::FileSystem { content } => "文件系统错误："@ + content,
    }
}

fn push_or_null(s: &mut String, o: &Option<String>)
    ensures
        final(s)@ == old(s)@ + or_null(opt_view(*o)),
{
    match o {
        Some(t) => push_str(s, t.as_str()),
        None => push_str(s, "<NULL>"),
    }
}

impl BotError {
    /// The error as text for the user.
    pub fn render(&self) -> (r: String)
        ensures
            r@ == error_text(self@),
    {
        let mut s = String::new();
        match self {
            BotError::Syntax { found, expected, note } => {
                push_str(&mut s, "找到：");
                push_or_null(&mut s, found);
                push_str(&mut s, "\n期望：");
                push_or_null(&mut s, expected);
                push_str(&mut s, "\n注释：");
                push_or_null(&mut s, note);
            },
            BotError::Backend { code, source } => {
                push_str(&mut s, "返回码：");
                match code {
                    Some(c) => {
                        push_digits(&mut s, *c as u64);
                        push_str(&mut s, " ");
                        match status_reason(*c) {
                            Some(reason) => push_str(&mut s, reason.as_str()),
                            None => push_str(&mut s, "<unknown status code>"),
                        }
                    },
                    None => push_str(&mut s, "<UNREACHABLE>"),
                }
                push_str(&mut s, "\n返回内容：");
                push_str(&mut s, source.as_str());
            },
            BotError::FileSystem { content } => {
                push_str(&mut s, "文件系统错误：");
                push_str(&mut s, content.as_str());
            },
        }
        assert(s@ =~= error_text(self@));
        s
    }
}

/// An ordered collection of errors, gathered over a whole attempt.
#[derive(Debug, Clone)]
pub struct BotErrorGroup {
    errors: Vec<BotError>,
}

impl View for BotErrorGroup {
    type V = Seq<ErrorView>;

    closed spec fn view(&self) -> Seq<ErrorView> {
        error_views(self.errors@)
    }
}

/// The texts of the errors that are (or are not) backend failures, in order.
pub open spec fn section_texts(errs: Seq<ErrorView>, backend: bool) -> Seq<Seq<char>>
    decreases errs.len(),
{
    if errs.len() == 0 {
        Seq::empty()
    } else {
        let r = section_texts(errs.drop_last(), backend);
        if (errs.last() is Backend) == backend {
            r.push(error_text(errs.last()))
        } else {
            r
        }
    }
}

/// The report of a group: user-input and configuration errors first, then
/// backend errors, each category under its own header.
pub open spec fn group_text(errs: Seq<ErrorView>) -> Seq<char> {
    let syntax = section_texts(errs, false);
    let backend = section_texts(errs, true);
    let sep = "\n----------\n"@;
    "机器人错误：\n----------\n"@ + (if syntax.len() == 0 {
        Seq::empty()
    } else {
        "语法错误：\n----------\n"@ + join(syntax, sep) + "\n----------\n"@
    }) + (if backend.len() == 0 {
        Seq::empty()
    } else {
        "后端错误：\n----------\n"@ + join(backend, sep)
    })
}

impl BotErrorGroup {
    pub fn new() -> (r: BotErrorGroup)
        ensures
            r@ == Seq::<ErrorView>::empty(),
    {
        let r = BotErrorGroup { errors: Vec::new() };
        assert(r@ =~= Seq::<ErrorView>::empty());
        r
    }

    pub fn with(v: Vec<BotError>) -> (r: BotErrorGroup)
        ensures
            r@ == error_views(v@),
    {
        BotErrorGroup { errors: v }
    }

    pub fn errors(&self) -> (r: &[BotError])
        ensures
            error_views(r@) == self@,
    {
        self.errors.as_slice()
    }

    pub fn push(&mut self, err: BotError)
        ensures
            final(self)@ == old(self)@.push(err@),
    {
        self.errors.push(err);
        assert(error_views(self.errors@) =~= error_views(old(self).errors@).push(err@));
    }

    /// The errors, to change in place.
    pub fn as_mut(&mut self) -> (r: &mut Vec<BotError>)
        ensures
            error_views(r@) == old(self)@,
            final(self)@ == error_views(final(r)@),
    {
        &mut self.errors
    }

    /// Appends the errors of `other`, keeping their order.
    pub fn append(&mut self, other: BotErrorGroup)
        ensures
            final(self)@ == old(self)@ + other@,
    {
        let mut o = other;
        self.errors.append(&mut o.errors);
        assert(error_views(self.errors@) =~= error_views(old(self).errors@) + error_views(
            other.errors@,
        ));
    }

    pub fn into_inner(self) -> (r: Vec<BotError>)
        ensures
            error_views(r@) == self@,
    {
        self.errors
    }

    pub fn is_empty(&self) -> (r: bool)
        ensures
            r == (self@.len() == 0),
    {
        self.errors.len() == 0
    }

    /// The whole group as text for the user.
    pub fn render(&self) -> (r: String)
        ensures
            r@ == group_text(self@),
    {
        let mut syntax: Vec<String> = Vec::new();
        let mut backend: Vec<String> = Vec::new();
        let mut i: usize = 0;
        while i < self.errors.len()
            invariant
                i <= self.errors.len(),
                string_views(syntax@) == section_texts(self@.take(i as int), false),
                string_views(backend@) == section_texts(self@.take(i as int), true),
            decreases self.errors.len() - i,
        {
            let e = &self.errors[i];
            let t = e.render();
            proof {
                assert(self@.take(i + 1).drop_last() =~= self@.take(i as int));
                assert(self@.take(i + 1).last() == e@);
            }
            let ghost sv = syntax@;
            let ghost bv = backend@;
            match e {
                BotError::Backend { .. } => {
                    backend.push(t);
                    assert(string_views(backend@) =~= string_views(bv).push(t@));
                },
                _ => {
                    syntax.push(t);
                    assert(string_views(syntax@) =~= string_views(sv).push(t@));
                },
            }
            i = i + 1;
        }
        assert(self@.take(i as int) =~= self@);
        let mut s = String::new();
        push_str(&mut s, "机器人错误：\n----------\n");
        if syntax.len() > 0 {
            push_str(&mut s, "语法错误：\n----------\n");
            push_joined(&mut s, &syntax, "\n----------\n");
            push_str(&mut s, "\n----------\n");
        }
        if backend.len() > 0 {
            push_str(&mut s, "后端错误：\n----------\n");
            push_joined(&mut s, &backend, "\n----------\n");
        }
        assert(s@ =~= group_text(self@));
        s
    }
}

} // verus!
