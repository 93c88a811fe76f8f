use vstd::prelude::*;
use crate::error::{BotError, ErrorView};
use crate::literal::{ascii_lower, lower_chars, same_chars};
use crate::token::chars_of;

verus! {

/// A game server.
#[derive(Debug, Clone, Copy, PartialEq, Eq, Structural)]
pub enum Server {
    Tranquility,
    Serenity,
}

impl Default for Server {
    fn default() -> (r: Server)
        ensures
            r == Server::Serenity,
    {
        Server::Serenity
    }
}

/// The server that a name stands for, case aside.
pub open spec fn server_named(s: Seq<char>) -> Option<Server> {
    let w = ascii_lower(s);
    if w == "tq"@ || w == "trans"@ || w == "tranquility"@ {
        Some(Server::Tranquility)
    } else if w == "se"@ || w == "seren"@ || w == "serenity"@ {
        Some(Server::Serenity)
    } else {
        None
    }
}

pub open spec fn bad_server(s: Seq<char>) -> ErrorView {
    ErrorView::Syntax {
        found: Some(s),
        expected: Some("tq/trans/tranquility / se/seren/serenity"@),
        note: Some("不合法的服务器类型"@),
    }
}

fn word_is(w: &Vec<char>, lit: &str) -> (r: bool)
    ensures
        r == (w@ == lit@),
{
    same_chars(w, &chars_of(lit))
}

impl Server {
    /// Reads a server name: `tq`, `trans` or `tranquility`, or `se`, `seren`
    /// or `serenity`, in any case.
    pub fn parse_from(s: &str) -> (r: Result<Server, BotError>)
        ensures
            match server_named(s@) {
                Some(v) => r == Ok::<Server, BotError>(v),
                None => r matches Err(e) && e@ == bad_server(s@),
            },
    {
        let w = lower_chars(&chars_of(s));
        if word_is(&w, "tq") || word_is(&w, "trans") || word_is(&w, "tranquility") {
            Ok(Server::Tranquility)
        } else if word_is(&w, "se") || word_is(&w, "seren") || word_is(&w, "serenity") {
            Ok(Server::Serenity)
        } else {
            Err(
                BotError::Syntax {
                    found: Some(s.to_owned()),
                    expected: Some("tq/trans/tranquility / se/seren/serenity".to_owned()),
                    note: Some("不合法的服务器类型".to_owned()),
                },
            )
        }
    }

    /// The short name the backend expects.
    pub fn as_api_like(&self) -> (r: &'static str)
        ensures
            r@ == match self {
                Server::Tranquility => "tq"@,
                Server::Serenity => "se"@,
            },
    {
        match self {
            Server::Tranquility => "tq",
            Server::Serenity => "se",
        }
    }

    /// The name shown to users.
    pub fn as_readable(&self) -> (r: &'static str)
        ensures
            r@ == match self {
                Server::Tranquility => "宁静"@,
                Server::Serenity => "晨曦"@,
            },
    {
        match self {
            Server::Tranquility => "宁静",
            Server::Serenity => "晨曦",
        }
    }
}

} // verus!
