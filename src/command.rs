use vstd::prelude::*;
use crate::parser::{arg_of, bool_of, float_of, int_of, text_of, ParsedArgs};
use crate::syntax::ServiceSyntax;

verus! {

/// The materials of a blueprint, drawn as an image.
#[derive(Debug, Clone)]
pub struct BlpMaterial {
    /// The blueprint's name (argument `type_name`).
    pub item_name: String,
    /// How the name is looked up.
    pub pattern: String,
    pub manu_mat_level: i64,
    pub manu_time_level: i64,
    /// A float literal.
    pub extra_mat: String,
    /// A float literal.
    pub extra_time: String,
    pub expand: bool,
}

/// The materials of a blueprint with their market prices.
#[derive(Debug, Clone)]
pub struct BlpMaterialPrice {
    pub item_name: String,
    pub pattern: String,
    pub manu_mat_level: i64,
    pub manu_time_level: i64,
    pub extra_mat: String,
    pub extra_time: String,
    pub expand: bool,
    pub server: String,
}

/// The market price of an item at the main trade hub.
#[derive(Debug, Clone)]
pub struct JitaPrice {
    pub item_name: String,
    pub pattern: String,
    pub server: String,
}

/// The skills an item needs, drawn as an image.
#[derive(Debug, Clone)]
pub struct Skill {
    pub item_name: String,
    pub pattern: String,
}

/// An item type looked up by its id.
#[derive(Debug, Clone)]
pub struct TypeFetchId {
    pub type_id: i64,
}

/// An item type looked up by its name.
#[derive(Debug, Clone)]
pub struct TypeFetchName {
    pub item_name: String,
    pub pattern: String,
}

pub open spec fn text_arg_of(sy: ServiceSyntax, a: ParsedArgs, name: Seq<char>) -> Option<Seq<char>> {
    text_of(arg_of(sy, a@, name))
}

pub open spec fn float_arg_of(sy: ServiceSyntax, a: ParsedArgs, name: Seq<char>) -> Option<Seq<char>> {
    float_of(arg_of(sy, a@, name))
}

pub open spec fn int_arg_of(sy: ServiceSyntax, a: ParsedArgs, name: Seq<char>) -> Option<i64> {
    int_of(arg_of(sy, a@, name))
}

pub open spec fn bool_arg_of(sy: ServiceSyntax, a: ParsedArgs, name: Seq<char>) -> Option<bool> {
    bool_of(arg_of(sy, a@, name))
}

impl BlpMaterial {
    /// The record, when every argument it needs is there with its type.
    pub fn from_args(syntax: &ServiceSyntax, args: &ParsedArgs) -> (r: Option<BlpMaterial>)
        ensures
            match r {
                Some(v) => text_arg_of(*syntax, *args, "type_name"@) == Some(v.item_name@)
                    && text_arg_of(*syntax, *args, "pattern"@) == Some(v.pattern@)
                    && int_arg_of(*syntax, *args, "manu_mat_level"@) == Some(v.manu_mat_level)
                    && int_arg_of(*syntax, *args, "manu_time_level"@) == Some(v.manu_time_level)
                    && float_arg_of(*syntax, *args, "extra_mat"@) == Some(v.extra_mat@)
                    && float_arg_of(*syntax, *args, "extra_time"@) == Some(v.extra_time@)
                    && bool_arg_of(*syntax, *args, "expand"@) == Some(v.expand),
                None => text_arg_of(*syntax, *args, "type_name"@) is None
                    || text_arg_of(*syntax, *args, "pattern"@) is None
                    || int_arg_of(*syntax, *args, "manu_mat_level"@) is None
                    || int_arg_of(*syntax, *args, "manu_time_level"@) is None
                    || float_arg_of(*syntax, *args, "extra_mat"@) is None
                    || float_arg_of(*syntax, *args, "extra_time"@) is None
                    || bool_arg_of(*syntax, *args, "expand"@) is None,
            },
    {
        let item_name = match args.text_arg(syntax, "type_name") {
            Some(v) => v,
            None => return None,
        };
        let pattern = match args.text_arg(syntax, "pattern") {
            Some(v) => v,
            None => return None,
        };
        let manu_mat_level = match args.int_arg(syntax, "manu_mat_level") {
            Some(v) => v,
            None => return None,
        };
        let manu_time_level = match args.int_arg(syntax, "manu_time_level") {
            Some(v) => v,
            None => return None,
        };
        let extra_mat = match args.float_arg(syntax, "extra_mat") {
            Some(v) => v,
            None => return None,
        };
        let extra_time = match args.float_arg(syntax, "extra_time") {
            Some(v) => v,
            None => return None,
        };
        let expand = match args.bool_arg(syntax, "expand") {
            Some(v) => v,
            None => return None,
        };
        Some(
            BlpMaterial {
                item_name,
                pattern,
                manu_mat_level,
                manu_time_level,
                extra_mat,
                extra_time,
                expand,
            },
        )
    }
}

impl BlpMaterialPrice {
    /// The record, when every argument it needs is there with its type.
    pub fn from_args(syntax: &ServiceSyntax, args: &ParsedArgs) -> (r: Option<BlpMaterialPrice>)
        ensures
            match r {
                Some(v) => text_arg_of(*syntax, *args, "type_name"@) == Some(v.item_name@)
                    && text_arg_of(*syntax, *args, "pattern"@) == Some(v.pattern@)
                    && int_arg_of(*syntax, *args, "manu_mat_level"@) == Some(v.manu_mat_level)
                    && int_arg_of(*syntax, *args, "manu_time_level"@) == Some(v.manu_time_level)
                    && float_arg_of(*syntax, *args, "extra_mat"@) == Some(v.extra_mat@)
                    && float_arg_of(*syntax, *args, "extra_time"@) == Some(v.extra_time@)
                    && bool_arg_of(*syntax, *args, "expand"@) == Some(v.expand)
                    && text_arg_of(*syntax, *args, "server"@) == Some(v.server@),
                None => text_arg_of(*syntax, *args, "type_name"@) is None
                    || text_arg_of(*syntax, *args, "pattern"@) is None
                    || int_arg_of(*syntax, *args, "manu_mat_level"@) is None
                    || int_arg_of(*syntax, *args, "manu_time_level"@) is None
                    || float_arg_of(*syntax, *args, "extra_mat"@) is None
                    || float_arg_of(*syntax, *args, "extra_time"@) is None
                    || bool_arg_of(*syntax, *args, "expand"@) is None
                    || text_arg_of(*syntax, *args, "server"@) is None,
            },
    {
        let base = match BlpMaterial::from_args(syntax, args) {
            Some(v) => v,
            None => return None,
        };
        let server = match args.text_arg(syntax, "server") {
            Some(v) => v,
            None => return None,
        };
        Some(
            BlpMaterialPrice {
                item_name: base.item_name,
                pattern: base.pattern,
                manu_mat_level: base.manu_mat_level,
                manu_time_level: base.manu_time_level,
                extra_mat: base.extra_mat,
                extra_time: base.extra_time,
                expand: base.expand,
                server,
            },
        )
    }
}

impl JitaPrice {
    /// The record, when every argument it needs is there with its type.
    pub fn from_args(syntax: &ServiceSyntax, args: &ParsedArgs) -> (r: Option<JitaPrice>)
        ensures
            match r {
                Some(v) => text_arg_of(*syntax, *args, "type_name"@) == Some(v.item_name@)
                    && text_arg_of(*syntax, *args, "pattern"@) == Some(v.pattern@)
                    && text_arg_of(*syntax, *args, "server"@) == Some(v.server@),
                None => text_arg_of(*syntax, *args, "type_name"@) is None
                    || text_arg_of(*syntax, *args, "pattern"@) is None
                    || text_arg_of(*syntax, *args, "server"@) is None,
            },
    {
        let item_name = match args.text_arg(syntax, "type_name") {
            Some(v) => v,
            None => return None,
        };
        let pattern = match args.text_arg(syntax, "pattern") {
            Some(v) => v,
            None => return None,
        };
        let server = match args.text_arg(syntax, "server") {
            Some(v) => v,
            None => return None,
        };
        Some(JitaPrice { item_name, pattern, server })
    }
}

impl Skill {
    /// The record, when every argument it needs is there with its type.
    pub fn from_args(syntax: &ServiceSyntax, args: &ParsedArgs) -> (r: Option<Skill>)
        ensures
            match r {
                Some(v) => text_arg_of(*syntax, *args, "type_name"@) == Some(v.item_name@)
                    && text_arg_of(*syntax, *args, "pattern"@) == Some(v.pattern@),
                None => text_arg_of(*syntax, *args, "type_name"@) is None
                    || text_arg_of(*syntax, *args, "pattern"@) is None,
            },
    {
        let item_name = match args.text_arg(syntax, "type_name") {
            Some(v) => v,
            None => return None,
        };
        let pattern = match args.text_arg(syntax, "pattern") {
            Some(v) => v,
            None => return None,
        };
        Some(Skill { item_name, pattern })
    }
}

impl TypeFetchId {
    /// The record, when its argument is there with its type.
    pub fn from_args(syntax: &ServiceSyntax, args: &ParsedArgs) -> (r: Option<TypeFetchId>)
        ensures
            match r {
                Some(v) => int_arg_of(*syntax, *args, "type_id"@) == Some(v.type_id),
                None => int_arg_of(*syntax, *args, "type_id"@) is None,
            },
    {
        match args.int_arg(syntax, "type_id") {
            Some(type_id) => Some(TypeFetchId { type_id }),
            None => None,
        }
    }
}

impl TypeFetchName {
    /// The record, when every argument it needs is there with its type.
    pub fn from_args(syntax: &ServiceSyntax, args: &ParsedArgs) -> (r: Option<TypeFetchName>)
        ensures
            match r {
                Some(v) => text_arg_of(*syntax, *args, "type_name"@) == Some(v.item_name@)
                    && text_arg_of(*syntax, *args, "pattern"@) == Some(v.pattern@),
                None => text_arg_of(*syntax, *args, "type_name"@) is None
                    || text_arg_of(*syntax, *args, "pattern"@) is None,
            },
    {
        let item_name = match args.text_arg(syntax, "type_name") {
            Some(v) => v,
            None => return None,
        };
        let pattern = match args.text_arg(syntax, "pattern") {
            Some(v) => v,
            None => return None,
        };
        Some(TypeFetchName { item_name, pattern })
    }
}

} // verus!
