use vstd::prelude::*;
use crate::text::{
    int_text, join, pad_right, push_int, push_joined, push_padded, push_spaces, push_str,
    spaces, string_views,
};

verus! {

/// The kind of value an argument takes.
#[derive(Debug, Clone)]
pub enum ArgType {
    /// Any text, taken as it is.
    AnyText,
    /// One of a fixed list of texts.
    EnumText(Vec<String>),
    /// A decimal floating-point literal.
    Float,
    /// A 64-bit signed integer.
    Int,
    /// A yes/no answer.
    Boolean,
}

/// A value of an argument.
///
/// A float is kept as the literal that was given (or, for a mention, the
/// decimal digits of the user id); turning it into binary floating point is left
/// to the handler.
#[derive(Debug, Clone, PartialEq)]
pub enum ArgValue {
    AnyText(String),
    EnumText(String),
    Float(String),
    Int(i64),
    Boolean(bool),
}

pub enum ValueView {
    AnyText(Seq<char>),
    EnumText(Seq<char>),
    Float(Seq<char>),
    Int(i64),
    Boolean(bool),
}

impl View for ArgValue {
    type V = ValueView;

    open spec fn view(&self) -> ValueView {
        match self {
            ArgValue::AnyText(t) => ValueView::AnyText(t@),
            ArgValue::EnumText(t) => ValueView::EnumText(t@),
            ArgValue::Float(t) => ValueView::Float(t@),
            ArgValue::Int(v) => ValueView::Int(*v),
            ArgValue::Boolean(b) => ValueView::Boolean(*b),
        }
    }
}

impl ArgValue {
    /// A copy of the value.
    pub fn duplicate(&self) -> (r: ArgValue)
        ensures
            r@ == self@,
    {
        match self {
            ArgValue::AnyText(t) => ArgValue::AnyText(t.clone()),
            ArgValue::EnumText(t) => ArgValue::EnumText(t.clone()),
            ArgValue::Float(t) => ArgValue::Float(t.clone()),
            ArgValue::Int(v) => ArgValue::Int(*v),
            ArgValue::Boolean(b) => ArgValue::Boolean(*b),
        }
    }

    /// The value as shown in a syntax text.
    pub fn render(&self) -> (r: String)
        ensures
            r@ == value_text(self@),
    {
        let mut s = String::new();
        match self {
            ArgValue::AnyText(t) => push_str(&mut s, t.as_str()),
            ArgValue::EnumText(t) => push_str(&mut s, t.as_str()),
            ArgValue::Float(t) => push_str(&mut s, t.as_str()),
            ArgValue::Int(v) => push_int(&mut s, *v),
            ArgValue::Boolean(b) => if *b {
                push_str(&mut s, "TRUE")
            } else {
                push_str(&mut s, "FALSE")
            },
        }
        assert(s@ =~= value_text(self@));
        s
    }
}

pub open spec fn value_text(v: ValueView) -> Seq<char> {
    match v {
        ValueView::AnyText(t) => t,
        ValueView::EnumText(t) => t,
        ValueView::Float(t) => t,
        ValueView::Int(n) => int_text(n as int),
        ValueView::Boolean(b) => if b {
            "TRUE"@
        } else {
            "FALSE"@
        },
    }
}

pub open spec fn type_text(t: ArgType) -> Seq<char> {
    match t {
        ArgType::AnyText => "TEXT"@,
        ArgType::EnumText(allowed) => "ENUM["@ + join(string_views(allowed@), ", "@) + "]"@,
        ArgType::Float => "FLOAT"@,
        ArgType::Int => "INT"@,
        ArgType::Boolean => "BOOLEAN"@,
    }
}

impl ArgType {
    /// The type as shown to users: `TEXT`, `ENUM[a, b]`, `FLOAT`, `INT` or `BOOLEAN`.
    pub fn render(&self) -> (r: String)
        ensures
            r@ == type_text(*self),
    {
        let mut s = String::new();
        match self {
            ArgType::AnyText => push_str(&mut s, "TEXT"),
            ArgType::EnumText(allowed) => {
                push_str(&mut s, "ENUM[");
                push_joined(&mut s, allowed, ", ");
                push_str(&mut s, "]");
            },
            ArgType::Float => push_str(&mut s, "FLOAT"),
            ArgType::Int => push_str(&mut s, "INT"),
            ArgType::Boolean => push_str(&mut s, "BOOLEAN"),
        }
        assert(s@ =~= type_text(*self));
        s
    }
}

/// A required argument, taken by its position.
#[derive(Debug, Clone)]
pub struct PositionalArg {
    pub arg_name: String,
    pub arg_type: ArgType,
    pub description: String,
}

/// An argument given as a key followed by its value.
#[derive(Debug, Clone)]
pub struct ParamArg {
    /// Other keys that stand for this argument.
    pub alias: Vec<String>,
    pub arg_name: String,
    pub arg_type: ArgType,
    /// The value used when the argument is not given; without one the argument
    /// is required.
    pub default: Option<ArgValue>,
    pub description: String,
}

/// The schema of one command.
#[derive(Debug, Clone)]
pub struct ServiceSyntax {
    pub title: String,
    pub arg_prefix: String,
    pub positional_args: Vec<PositionalArg>,
    pub param_args: Vec<ParamArg>,
    pub description: String,
    /// References to schemas whose arguments are appended to this one's.
    pub mixin: Vec<String>,
}

/// `name [TYPE]`, the way an argument is named in errors.
pub open spec fn arg_label(name: Seq<char>, t: ArgType) -> Seq<char> {
    name + " ["@ + type_text(t) + "]"@
}

pub fn arg_label_of(name: &String, t: &ArgType) -> (r: String)
    ensures
        r@ == arg_label(name@, *t),
{
    let mut s = String::new();
    push_str(&mut s, name.as_str());
    push_str(&mut s, " [");
    let tt = t.render();
    push_str(&mut s, tt.as_str());
    push_str(&mut s, "]");
    s
}

pub open spec fn positional_text(p: PositionalArg) -> Seq<char> {
    pad_right(p.arg_name@, 20) + "Type: "@ + type_text(p.arg_type) + "."@ + "\n"@ + spaces(20)
        + p.description@
}

pub open spec fn param_text(p: ParamArg) -> Seq<char> {
    pad_right(p.arg_name@, 20) + "Type: "@ + type_text(p.arg_type) + "."@ + (if p.default is Some {
        " Optional."@
    } else {
        Seq::empty()
    }) + (match p.default {
        Some(d) => " Default: "@ + value_text(d@) + "."@,
        None => Seq::empty(),
    }) + "\n"@ + spaces(20) + p.description@ + (if p.alias.len() > 0 {
        "\n"@ + spaces(20) + "Alias: "@ + join(string_views(p.alias@), ", "@)
    } else {
        Seq::empty()
    })
}

impl PositionalArg {
    /// The argument's entry in a syntax text.
    pub fn render(&self) -> (r: String)
        ensures
            r@ == positional_text(*self),
    {
        let mut s = String::new();
        push_padded(&mut s, self.arg_name.as_str(), 20);
        push_str(&mut s, "Type: ");
        let tt = self.arg_type.render();
        push_str(&mut s, tt.as_str());
        push_str(&mut s, ".");
        push_str(&mut s, "\n");
        push_spaces(&mut s, 20);
        push_str(&mut s, self.description.as_str());
        assert(s@ =~= positional_text(*self));
        s
    }
}

impl ParamArg {
    /// The argument's entry in a syntax text.
    pub fn render(&self) -> (r: String)
        ensures
            r@ == param_text(*self),
    {
        let mut s = String::new();
        push_padded(&mut s, self.arg_name.as_str(), 20);
        push_str(&mut s, "Type: ");
        let tt = self.arg_type.render();
        push_str(&mut s, tt.as_str());
        push_str(&mut s, ".");
        if self.default.is_some() {
            push_str(&mut s, " Optional.");
        }
        match &self.default {
            Some(d) => {
                push_str(&mut s, " Default: ");
                let dt = d.render();
                push_str(&mut s, dt.as_str());
                push_str(&mut s, ".");
            },
            None => {},
        }
        push_str(&mut s, "\n");
        push_spaces(&mut s, 20);
        push_str(&mut s, self.description.as_str());
        if self.alias.len() > 0 {
            push_str(&mut s, "\n");
            push_spaces(&mut s, 20);
            push_str(&mut s, "Alias: ");
            push_joined(&mut s, &self.alias, ", ");
        }
        assert(s@ =~= param_text(*self));
        s
    }
}

pub open spec fn positional_texts(ps: Seq<PositionalArg>) -> Seq<Seq<char>> {
    ps.map_values(|p: PositionalArg| positional_text(p))
}

pub open spec fn positional_tags(ps: Seq<PositionalArg>) -> Seq<Seq<char>> {
    ps.map_values(|p: PositionalArg| "["@ + p.arg_name@ + "]"@)
}

pub open spec fn param_texts(ps: Seq<ParamArg>) -> Seq<Seq<char>> {
    ps.map_values(|p: ParamArg| param_text(p))
}

/// The syntax text of a command: its title, a usage line, and one entry for
/// each argument.
pub open spec fn syntax_text(sy: ServiceSyntax) -> Seq<char> {
    let pos = sy.positional_args@;
    let params = sy.param_args@;
    sy.title@ + "\n"@ + sy.arg_prefix@ + " "@ + (if pos.len() == 0 {
        Seq::empty()
    } else {
        join(positional_tags(pos), ", "@) + " "@
    }) + (if params.len() == 0 {
        Seq::empty()
    } else {
        "<Param Args>"@
    }) + "\n位置参数：\n"@ + (if pos.len() == 0 {
        "无"@
    } else {
        join(positional_texts(pos), "\n"@)
    }) + "\n额外参数：\n"@ + (if params.len() == 0 {
        "无"@
    } else {
        join(param_texts(params), "\n"@)
    })
}

/// The positional arguments of a list of schemas, one schema after another.
pub open spec fn all_positional(ms: Seq<ServiceSyntax>) -> Seq<PositionalArg>
    decreases ms.len(),
{
    if ms.len() == 0 {
        Seq::empty()
    } else {
        all_positional(ms.drop_last()) + ms.last().positional_args@
    }
}

/// The named arguments of a list of schemas, one schema after another.
pub open spec fn all_params(ms: Seq<ServiceSyntax>) -> Seq<ParamArg>
    decreases ms.len(),
{
    if ms.len() == 0 {
        Seq::empty()
    } else {
        all_params(ms.drop_last()) + ms.last().param_args@
    }
}

impl ServiceSyntax {
    /// Appends the arguments of `mixins`, each already resolved, after this
    /// schema's own, in the order the mixins are given.
    pub fn process_mixin(self, mixins: Vec<ServiceSyntax>) -> (r: ServiceSyntax)
        ensures
            r.positional_args@ == self.positional_args@ + all_positional(mixins@),
            r.param_args@ == self.param_args@ + all_params(mixins@),
            r.title == self.title,
            r.arg_prefix == self.arg_prefix,
            r.description == self.description,
            r.mixin == self.mixin,
    {
        let mut r = self;
        let mut rest = mixins;
        let ghost k: int = 0;
        while rest.len() > 0
            invariant
                0 <= k <= mixins@.len(),
                rest@ == mixins@.skip(k),
                r.positional_args@ == self.positional_args@ + all_positional(mixins@.take(k)),
                r.param_args@ == self.param_args@ + all_params(mixins@.take(k)),
                r.title == self.title,
                r.arg_prefix == self.arg_prefix,
                r.description == self.description,
                r.mixin == self.mixin,
            decreases rest.len(),
        {
            let mut m = rest.remove(0);
            proof {
                assert(mixins@.take(k + 1).drop_last() =~= mixins@.take(k));
                assert(mixins@.take(k + 1).last() == m);
            }
            r.positional_args.append(&mut m.positional_args);
            r.param_args.append(&mut m.param_args);
            proof {
                k = k + 1;
                assert(rest@ =~= mixins@.skip(k));
            }
            assert(r.positional_args@ =~= self.positional_args@ + all_positional(mixins@.take(k)));
            assert(r.param_args@ =~= self.param_args@ + all_params(mixins@.take(k)));
        }
        assert(mixins@.take(k) =~= mixins@);
        r
    }

    /// The syntax text shown when a command is called without arguments.
    pub fn render(&self) -> (r: String)
        ensures
            r@ == syntax_text(*self),
    {
        let mut tags: Vec<String> = Vec::new();
        let mut pos_texts: Vec<String> = Vec::new();
        let mut i: usize = 0;
        while i < self.positional_args.len()
            invariant
                i <= self.positional_args.len(),
                string_views(tags@) == positional_tags(self.positional_args@.take(i as int)),
                string_views(pos_texts@) == positional_texts(self.positional_args@.take(i as int)),
            decreases self.positional_args.len() - i,
        {
            let p = &self.positional_args[i];
            let mut tag = String::new();
            push_str(&mut tag, "[");
            push_str(&mut tag, p.arg_name.as_str());
            push_str(&mut tag, "]");
            let ghost t0 = tags@;
            let ghost p0 = pos_texts@;
            let pt = p.render();
            tags.push(tag);
            pos_texts.push(pt);
            assert(string_views(pos_texts@) =~= string_views(p0).push(pt@));
            i = i + 1;
            assert(self.positional_args@.take(i as int) =~= self.positional_args@.take(
                i - 1,
            ).push(*p));
            assert(string_views(tags@) =~= string_views(t0).push(tag@));
            assert(string_views(tags@) =~= positional_tags(self.positional_args@.take(i as int)));
            assert(string_views(pos_texts@) =~= positional_texts(
                self.positional_args@.take(i as int),
            ));
        }
        let mut par_texts: Vec<String> = Vec::new();
        let mut j: usize = 0;
        while j < self.param_args.len()
            invariant
                j <= self.param_args.len(),
                string_views(par_texts@) == param_texts(self.param_args@.take(j as int)),
            decreases self.param_args.len() - j,
        {
            let p = &self.param_args[j];
            let ghost p0 = par_texts@;
            let pt = p.render();
            par_texts.push(pt);
            assert(string_views(par_texts@) =~= string_views(p0).push(pt@));
            j = j + 1;
            assert(self.param_args@.take(j as int) =~= self.param_args@.take(j - 1).push(*p));
            assert(string_views(par_texts@) =~= param_texts(self.param_args@.take(j as int)));
        }
        assert(self.positional_args@.take(i as int) =~= self.positional_args@);
        assert(self.param_args@.take(j as int) =~= self.param_args@);
        let mut s = String::new();
        push_str(&mut s, self.title.as_str());
        push_str(&mut s, "\n");
        push_str(&mut s, self.arg_prefix.as_str());
        push_str(&mut s, " ");
        if tags.len() > 0 {
            push_joined(&mut s, &tags, ", ");
            push_str(&mut s, " ");
        }
        if par_texts.len() > 0 {
            push_str(&mut s, "<Param Args>");
        }
        push_str(&mut s, "\n位置参数：\n");
        if pos_texts.len() > 0 {
            push_joined(&mut s, &pos_texts, "\n");
        } else {
            push_str(&mut s, "无");
        }
        push_str(&mut s, "\n额外参数：\n");
        if par_texts.len() > 0 {
            push_joined(&mut s, &par_texts, "\n");
        } else {
            push_str(&mut s, "无");
        }
        assert(s@ =~= syntax_text(*self));
        s
    }
}

} // verus!
