use vstd::prelude::*;
use crate::error::{BotError, ErrorView};
use crate::literal::{ascii_lower, lower_chars, same_chars};
use crate::text::{digits, push_digits, push_str};
use crate::token::chars_of;

verus! {

/// An item type as the backend describes it.
#[derive(Debug, Clone, PartialEq, Eq, Default)]
pub struct TypeItem {
    pub type_id: usize,
    pub item_name: String,
    pub published: bool,
}

/// How an item type is looked up by name.
#[derive(Debug, Clone, Copy, PartialEq, Eq)]
pub enum TypeIDFetch<T> {
    /// The exact name.
    Absolute(T),
    /// A part of the name.
    Fuzzy(T),
    /// A pattern written by the user.
    Manual(T),
}

pub enum FetchKind {
    Absolute,
    Fuzzy,
    Manual,
}

/// The lookup that a pattern name stands for, case aside.
pub open spec fn fetch_kind(s: Seq<char>) -> Option<FetchKind> {
    let w = ascii_lower(s);
    if w == "absolute"@ || w == "a"@ || w == "abs"@ {
        Some(FetchKind::Absolute)
    } else if w == "fuzzy"@ || w == "f"@ || w == "fuz"@ || w == "fuzz"@ {
        Some(FetchKind::Fuzzy)
    } else if w == "manual"@ || w == "m"@ || w == "man"@ {
        Some(FetchKind::Manual)
    } else {
        None
    }
}

pub open spec fn bad_fetch_kind(s: Seq<char>) -> ErrorView {
    ErrorView::Syntax {
        found: Some(s),
        expected: Some("choices: [a]bsolute, [f]uzzy, [m]anual."@),
        note: Some("use a valid fetch pattern type."@),
    }
}

fn word_is(w: &Vec<char>, lit: &str) -> (r: bool)
    ensures
        r == (w@ == lit@),
{
    same_chars(w, &chars_of(lit))
}

impl<T> TypeIDFetch<T> {
    /// A lookup of `v` of the kind that `val` names.
    pub fn type_from(val: &str, v: T) -> (r: Result<TypeIDFetch<T>, BotError>)
        ensures
            match fetch_kind(val@) {
                Some(FetchKind::Absolute) => r == Ok::<TypeIDFetch<T>, BotError>(
                    TypeIDFetch::Absolute(v),
                ),
                Some(FetchKind::Fuzzy) => r == Ok::<TypeIDFetch<T>, BotError>(
                    TypeIDFetch::Fuzzy(v),
                ),
                Some(FetchKind::Manual) => r == Ok::<TypeIDFetch<T>, BotError>(
                    TypeIDFetch::Manual(v),
                ),
                None => r matches Err(e) && e@ == bad_fetch_kind(val@),
            },
    {
        let w = lower_chars(&chars_of(val));
        if word_is(&w, "absolute") || word_is(&w, "a") || word_is(&w, "abs") {
            Ok(TypeIDFetch::Absolute(v))
        } else if word_is(&w, "fuzzy") || word_is(&w, "f") || word_is(&w, "fuz") || word_is(
            &w,
            "fuzz",
        ) {
            Ok(TypeIDFetch::Fuzzy(v))
        } else if word_is(&w, "manual") || word_is(&w, "m") || word_is(&w, "man") {
            Ok(TypeIDFetch::Manual(v))
        } else {
            Err(
                BotError::Syntax {
                    found: Some(val.to_owned()),
                    expected: Some("choices: [a]bsolute, [f]uzzy, [m]anual.".to_owned()),
                    note: Some("use a valid fetch pattern type.".to_owned()),
                },
            )
        }
    }
}

/// The address of the backend's search for a lookup.
pub open spec fn search_url(port: u16, f: TypeIDFetch<String>) -> Seq<char> {
    "http://localhost:"@ + digits(port as nat) + match f {
        TypeIDFetch::Absolute(t) => "/types/search/absolute/?name="@ + t@,
        TypeIDFetch::Fuzzy(t) => "/types/search/fuzzy/?name="@ + t@,
        TypeIDFetch::Manual(t) => "/types/search/manual/?pattern="@ + t@,
    }
}

impl TypeIDFetch<String> {
    /// The address to ask the backend on `port` for this lookup.
    pub fn search_url(&self, port: u16) -> (r: String)
        ensures
            r@ == search_url(port, *self),
    {
        let mut s = String::new();
        push_str(&mut s, "http://localhost:");
        push_digits(&mut s, port as u64);
        match self {
            TypeIDFetch::Absolute(t) => {
                push_str(&mut s, "/types/search/absolute/?name=");
                push_str(&mut s, t.as_str());
            },
            TypeIDFetch::Fuzzy(t) => {
                push_str(&mut s, "/types/search/fuzzy/?name=");
                push_str(&mut s, t.as_str());
            },
            TypeIDFetch::Manual(t) => {
                push_str(&mut s, "/types/search/manual/?pattern=");
                push_str(&mut s, t.as_str());
            },
        }
        assert(s@ =~= search_url(port, *self));
        s
    }
}

} // verus!
