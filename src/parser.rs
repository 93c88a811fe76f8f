use vstd::prelude::*;
use crate::error::{BotError, BotErrorGroup, ErrorView, error_views};
use crate::literal::{bool_word, float_literal, int_value, is_float_literal, parse_bool, parse_int};
use crate::syntax::{
    arg_label, arg_label_of, ArgType, ArgValue, ParamArg, PositionalArg, ServiceSyntax, ValueView,
};
use crate::text::{digits, opt_view, push_digits, push_str, string_views, u64_text};
use crate::token::{ParamItem, TokenView, views};

verus! {

/// The `Debug` form of a string: quoted, with escapes.
pub uninterp spec fn debug_str(s: Seq<char>) -> Seq<char>;

/// Relies on the `Debug` impl of `str`, which quotes and escapes the text; the
/// result depends on the text alone.
#[verifier::external_body]
fn debug_quoted(s: &str) -> (r: String)
    ensures
        r@ == debug_str(s@),
{
    format!("{:?}", s)
}

/// A token as it is shown in errors: `Text("...")` or `At(123)`.
pub open spec fn token_debug(t: TokenView) -> Seq<char> {
    match t {
        TokenView::Text(s) => "Text("@ + debug_str(s) + ")"@,
        TokenView::At(id) => "At("@ + digits(id as nat) + ")"@,
    }
}

impl ParamItem {
    /// The token as it is shown in errors.
    pub fn debug_text(&self) -> (r: String)
        ensures
            r@ == token_debug(self@),
    {
        let mut s = String::new();
        match self {
            ParamItem::Text(t) => {
                push_str(&mut s, "Text(");
                let q = debug_quoted(t.as_str());
                push_str(&mut s, q.as_str());
                push_str(&mut s, ")");
            },
            ParamItem::At(id) => {
                push_str(&mut s, "At(");
                push_digits(&mut s, *id);
                push_str(&mut s, ")");
            },
        }
        assert(s@ =~= token_debug(self@));
        s
    }

    /// The token as text: `Text[...]` or `@123`.
    pub fn render(&self) -> (r: String)
        ensures
            r@ == match self@ {
                TokenView::Text(t) => "Text["@ + t + "]"@,
                TokenView::At(id) => "@"@ + digits(id as nat),
            },
    {
        let mut s = String::new();
        match self {
            ParamItem::Text(t) => {
                push_str(&mut s, "Text[");
                push_str(&mut s, t.as_str());
                push_str(&mut s, "]");
            },
            ParamItem::At(id) => {
                push_str(&mut s, "@");
                push_digits(&mut s, *id);
            },
        }
        s
    }
}

pub open spec fn note_mismatch() -> Seq<char> {
    "参数类型错误"@
}

pub open spec fn note_unparsable() -> Seq<char> {
    "无法解析入参"@
}

pub open spec fn note_bad_enum() -> Seq<char> {
    "枚举参数非法值"@
}

/// The error for a token that an argument refuses.
pub open spec fn rejection(name: Seq<char>, t: ArgType, tok: TokenView, note: Seq<char>) -> ErrorView {
    ErrorView::Syntax {
        found: Some(token_debug(tok)),
        expected: Some(arg_label(name, t)),
        note: Some(note),
    }
}

/// What one token gives for an argument named `name` of type `t`.
pub open spec fn check_token(name: Seq<char>, t: ArgType, tok: TokenView) -> Result<
    ValueView,
    ErrorView,
> {
    match t {
        ArgType::AnyText => match tok {
            TokenView::Text(s) => Ok(ValueView::AnyText(s)),
            TokenView::At(_) => Err(rejection(name, t, tok, note_mismatch())),
        },
        ArgType::EnumText(allowed) => match tok {
            TokenView::Text(s) => if string_views(allowed@).contains(s) {
                Ok(ValueView::EnumText(s))
            } else {
                Err(rejection(name, t, tok, note_bad_enum()))
            },
            TokenView::At(_) => Err(rejection(name, t, tok, note_mismatch())),
        },
        ArgType::Float => match tok {
            TokenView::Text(s) => if float_literal(s) {
                Ok(ValueView::Float(s))
            } else {
                Err(rejection(name, t, tok, note_unparsable()))
            },
            TokenView::At(id) => Ok(ValueView::Float(digits(id as nat))),
        },
        ArgType::Int => match tok {
            TokenView::Text(s) => match int_value(s) {
                Some(v) => Ok(ValueView::Int(v)),
                None => Err(rejection(name, t, tok, note_unparsable())),
            },
            // A mention stands for its user id; an id above `i64::MAX` wraps.
            TokenView::At(id) => Ok(ValueView::Int(id as i64)),
        },
        ArgType::Boolean => match tok {
            TokenView::Text(s) => match bool_word(s) {
                Some(b) => Ok(ValueView::Boolean(b)),
                None => Err(rejection(name, t, tok, note_unparsable())),
            },
            TokenView::At(_) => Err(rejection(name, t, tok, note_unparsable())),
        },
    }
}

pub open spec fn result_view(r: Result<ArgValue, BotError>) -> Result<ValueView, ErrorView> {
    match r {
        Ok(v) => Ok(v@),
        Err(e) => Err(e@),
    }
}

fn reject(name: &String, t: &ArgType, tok: &ParamItem, note: &str) -> (r: BotError)
    ensures
        r@ == rejection(name@, *t, tok@, note@),
{
    BotError::Syntax {
        found: Some(tok.debug_text()),
        expected: Some(arg_label_of(name, t)),
        note: Some(note.to_owned()),
    }
}

/// Whether `s` is one of `allowed`.
fn allowed_contains(allowed: &Vec<String>, s: &String) -> (r: bool)
    ensures
        r == string_views(allowed@).contains(s@),
{
    let mut i: usize = 0;
    while i < allowed.len()
        invariant
            i <= allowed.len(),
            forall|j: int| 0 <= j < i ==> allowed@[j]@ != s@,
        decreases allowed.len() - i,
    {
        if allowed[i] == *s {
            assert(string_views(allowed@)[i as int] == s@);
            return true;
        }
        i = i + 1;
    }
    assert forall|j: int| 0 <= j < allowed.len() implies string_views(allowed@)[j] != s@ by {
        assert(allowed@[j]@ != s@);
    }
    false
}

impl ArgType {
    /// Reads one token as a value of this type, for the argument named `name`.
    pub fn check(&self, name: &String, tok: &ParamItem) -> (r: Result<ArgValue, BotError>)
        ensures
            result_view(r) == check_token(name@, *self, tok@),
    {
        match self {
            ArgType::AnyText => match tok {
                ParamItem::Text(s) => Ok(ArgValue::AnyText(s.clone())),
                ParamItem::At(_) => Err(reject(name, self, tok, "参数类型错误")),
            },
            ArgType::EnumText(allowed) => match tok {
                ParamItem::Text(s) => if allowed_contains(allowed, s) {
                    Ok(ArgValue::EnumText(s.clone()))
                } else {
                    Err(reject(name, self, tok, "枚举参数非法值"))
                },
                ParamItem::At(_) => Err(reject(name, self, tok, "参数类型错误")),
            },
            ArgType::Float => match tok {
                ParamItem::Text(s) => if is_float_literal(s.as_str()) {
                    Ok(ArgValue::Float(s.clone()))
                } else {
                    Err(reject(name, self, tok, "无法解析入参"))
                },
                ParamItem::At(id) => Ok(ArgValue::Float(u64_text(*id))),
            },
            ArgType::Int => match tok {
                ParamItem::Text(s) => match parse_int(s.as_str()) {
                    Some(v) => Ok(ArgValue::Int(v)),
                    None => Err(reject(name, self, tok, "无法解析入参")),
                },
                // An id above `i64::MAX` wraps, as a cast does.
                ParamItem::At(id) => Ok(ArgValue::Int(#[verifier::truncate] (*id as i64))),
            },
            ArgType::Boolean => match tok {
                ParamItem::Text(s) => match parse_bool(s.as_str()) {
                    Some(b) => Ok(ArgValue::Boolean(b)),
                    None => Err(reject(name, self, tok, "无法解析入参")),
                },
                ParamItem::At(_) => Err(reject(name, self, tok, "无法解析入参")),
            },
        }
    }
}

/// The error for a positional argument that no token was left for.
pub open spec fn missing_positional(p: PositionalArg) -> ErrorView {
    ErrorView::Syntax {
        found: None,
        expected: Some(arg_label(p.arg_name@, p.arg_type)),
        note: Some("缺少位置参数 "@ + p.arg_name@),
    }
}

/// The error for a named argument that was not given and has no default.
pub open spec fn missing_named(p: ParamArg) -> ErrorView {
    ErrorView::Syntax {
        found: None,
        expected: Some(arg_label(p.arg_name@, p.arg_type)),
        note: Some("缺少额外参数 "@ + p.arg_name@),
    }
}

/// What each positional argument gets: the token at its place, read for its
/// type, or the error that it is missing.
pub open spec fn positional_results(pos: Seq<PositionalArg>, toks: Seq<TokenView>) -> Seq<
    Result<ValueView, ErrorView>,
> {
    Seq::new(
        pos.len(),
        |i: int|
            if i < toks.len() {
                check_token(pos[i].arg_name@, pos[i].arg_type, toks[i])
            } else {
                Err(missing_positional(pos[i]))
            },
    )
}

/// The key/value pairs of the tokens after the positional ones: a text token
/// is a key and the token after it its value; a mention where a key should be
/// is passed over, and a key with nothing after it is dropped.
pub open spec fn named_pairs(rest: Seq<TokenView>) -> Seq<(Seq<char>, TokenView)>
    decreases rest.len(),
{
    if rest.len() == 0 {
        Seq::empty()
    } else {
        match rest[0] {
            TokenView::At(_) => named_pairs(rest.drop_first()),
            TokenView::Text(k) => if rest.len() >= 2 {
                seq![(k, rest[1])] + named_pairs(rest.skip(2))
            } else {
                Seq::empty()
            },
        }
    }
}

/// The argument name a key stands for: the first named argument (in declared
/// order) whose aliases or name hold it; an unknown key stands for itself.
pub open spec fn resolve_key(params: Seq<ParamArg>, k: Seq<char>) -> Seq<char>
    decreases params.len(),
{
    if params.len() == 0 {
        k
    } else if string_views(params[0].alias@).contains(k) || params[0].arg_name@ == k {
        params[0].arg_name@
    } else {
        resolve_key(params.drop_first(), k)
    }
}

/// The value given last for the argument named `name`.
pub open spec fn captured(
    params: Seq<ParamArg>,
    pairs: Seq<(Seq<char>, TokenView)>,
    name: Seq<char>,
) -> Option<TokenView>
    decreases pairs.len(),
{
    if pairs.len() == 0 {
        None
    } else if resolve_key(params, pairs.last().0) == name {
        Some(pairs.last().1)
    } else {
        captured(params, pairs.drop_last(), name)
    }
}

/// The tokens left for the named arguments.
pub open spec fn after_positional(npos: nat, toks: Seq<TokenView>) -> Seq<TokenView> {
    if npos < toks.len() {
        toks.skip(npos as int)
    } else {
        Seq::empty()
    }
}

/// What each named argument gets: the value given for it, read for its type;
/// else its default; else the error that it is missing.
pub open spec fn named_results(
    params: Seq<ParamArg>,
    npos: nat,
    toks: Seq<TokenView>,
) -> Seq<Result<ValueView, ErrorView>> {
    let pairs = named_pairs(after_positional(npos, toks));
    Seq::new(
        params.len(),
        |j: int|
            match captured(params, pairs, params[j].arg_name@) {
                Some(t) => check_token(params[j].arg_name@, params[j].arg_type, t),
                None => match params[j].default {
                    Some(d) => Ok(d@),
                    None => Err(missing_named(params[j])),
                },
            },
    )
}

/// The errors among `rs`, in order.
pub open spec fn errors_of(rs: Seq<Result<ValueView, ErrorView>>) -> Seq<ErrorView>
    decreases rs.len(),
{
    if rs.len() == 0 {
        Seq::empty()
    } else {
        match rs.last() {
            Ok(_) => errors_of(rs.drop_last()),
            Err(e) => errors_of(rs.drop_last()).push(e),
        }
    }
}

/// The values among `rs`, in order.
pub open spec fn values_of(rs: Seq<Result<ValueView, ErrorView>>) -> Seq<ValueView>
    decreases rs.len(),
{
    if rs.len() == 0 {
        Seq::empty()
    } else {
        match rs.last() {
            Ok(v) => values_of(rs.drop_last()).push(v),
            Err(_) => values_of(rs.drop_last()),
        }
    }
}

/// The arguments of one command, read and checked.
#[derive(Debug, Clone, PartialEq)]
pub struct ParsedArgs {
    /// One value for each positional argument, in declared order.
    pub positional: Vec<ArgValue>,
    /// One value for each named argument, in declared order.
    pub named: Vec<ArgValue>,
}

pub open spec fn value_views(v: Seq<ArgValue>) -> Seq<ValueView> {
    v.map_values(|a: ArgValue| a@)
}

pub struct ArgsView {
    pub positional: Seq<ValueView>,
    pub named: Seq<ValueView>,
}

impl View for ParsedArgs {
    type V = ArgsView;

    open spec fn view(&self) -> ArgsView {
        ArgsView { positional: value_views(self.positional@), named: value_views(self.named@) }
    }
}

/// The index of the first positional argument named `name`, or their number.
pub open spec fn positional_index(ps: Seq<PositionalArg>, name: Seq<char>) -> int
    decreases ps.len(),
{
    if ps.len() == 0 || ps[0].arg_name@ == name {
        0
    } else {
        1 + positional_index(ps.drop_first(), name)
    }
}

/// The index of the first named argument named `name`, or their number.
pub open spec fn param_index(ps: Seq<ParamArg>, name: Seq<char>) -> int
    decreases ps.len(),
{
    if ps.len() == 0 || ps[0].arg_name@ == name {
        0
    } else {
        1 + param_index(ps.drop_first(), name)
    }
}

fn find_positional(ps: &Vec<PositionalArg>, name: &String) -> (r: usize)
    ensures
        r as int == positional_index(ps@, name@),
        r <= ps.len(),
{
    let mut i: usize = 0;
    assert(ps@.skip(0) =~= ps@);
    while i < ps.len()
        invariant
            i <= ps.len(),
            positional_index(ps@, name@) == i + positional_index(ps@.skip(i as int), name@),
        decreases ps.len() - i,
    {
        assert(ps@.skip(i as int)[0] == ps@[i as int]);
        if ps[i].arg_name == *name {
            return i;
        }
        assert(ps@.skip(i as int).drop_first() =~= ps@.skip(i + 1));
        i = i + 1;
    }
    assert(ps@.skip(i as int) =~= Seq::<PositionalArg>::empty());
    i
}

fn find_param(ps: &Vec<ParamArg>, name: &String) -> (r: usize)
    ensures
        r as int == param_index(ps@, name@),
        r <= ps.len(),
{
    let mut i: usize = 0;
    assert(ps@.skip(0) =~= ps@);
    while i < ps.len()
        invariant
            i <= ps.len(),
            param_index(ps@, name@) == i + param_index(ps@.skip(i as int), name@),
        decreases ps.len() - i,
    {
        assert(ps@.skip(i as int)[0] == ps@[i as int]);
        if ps[i].arg_name == *name {
            return i;
        }
        assert(ps@.skip(i as int).drop_first() =~= ps@.skip(i + 1));
        i = i + 1;
    }
    assert(ps@.skip(i as int) =~= Seq::<ParamArg>::empty());
    i
}

impl ParsedArgs {
    /// The value of the argument named `name` in the schema the arguments were
    /// read against: a positional one first, else a named one.
    pub fn get(&self, syntax: &ServiceSyntax, name: &String) -> (r: Option<&ArgValue>)
        ensures
            match r {
                Some(v) => arg_of(*syntax, self@, name@) == Some(v@),
                None => arg_of(*syntax, self@, name@) is None,
            },
    {
        let i = find_positional(&syntax.positional_args, name);
        if i < syntax.positional_args.len() {
            if i < self.positional.len() {
                assert(value_views(self.positional@)[i as int] == self.positional@[i as int]@);
                return Some(&self.positional[i]);
            }
            return None;
        }
        let j = find_param(&syntax.param_args, name);
        if j < syntax.param_args.len() && j < self.named.len() {
            assert(value_views(self.named@)[j as int] == self.named@[j as int]@);
            Some(&self.named[j])
        } else {
            None
        }
    }
}

/// The value of the argument named `name`, as `ParsedArgs::get` finds it.
pub open spec fn arg_of(sy: ServiceSyntax, a: ArgsView, name: Seq<char>) -> Option<ValueView> {
    let i = positional_index(sy.positional_args@, name);
    let j = param_index(sy.param_args@, name);
    if i < sy.positional_args.len() {
        if i < a.positional.len() {
            Some(a.positional[i])
        } else {
            None
        }
    } else if j < sy.param_args.len() && j < a.named.len() {
        Some(a.named[j])
    } else {
        None
    }
}

pub open spec fn text_of(v: Option<ValueView>) -> Option<Seq<char>> {
    match v {
        Some(ValueView::AnyText(t)) => Some(t),
        Some(ValueView::EnumText(t)) => Some(t),
        _ => None,
    }
}

pub open spec fn float_of(v: Option<ValueView>) -> Option<Seq<char>> {
    match v {
        Some(ValueView::Float(t)) => Some(t),
        _ => None,
    }
}

pub open spec fn int_of(v: Option<ValueView>) -> Option<i64> {
    match v {
        Some(ValueView::Int(n)) => Some(n),
        _ => None,
    }
}

pub open spec fn bool_of(v: Option<ValueView>) -> Option<bool> {
    match v {
        Some(ValueView::Boolean(b)) => Some(b),
        _ => None,
    }
}

impl ParsedArgs {
    /// The text of a text or enumerated argument.
    pub fn text_arg(&self, syntax: &ServiceSyntax, name: &str) -> (r: Option<String>)
        ensures
            opt_view(r) == text_of(arg_of(*syntax, self@, name@)),
    {
        match self.get(syntax, &name.to_owned()) {
            Some(ArgValue::AnyText(t)) => Some(t.clone()),
            Some(ArgValue::EnumText(t)) => Some(t.clone()),
            _ => None,
        }
    }

    /// The literal of a float argument.
    pub fn float_arg(&self, syntax: &ServiceSyntax, name: &str) -> (r: Option<String>)
        ensures
            opt_view(r) == float_of(arg_of(*syntax, self@, name@)),
    {
        match self.get(syntax, &name.to_owned()) {
            Some(ArgValue::Float(t)) => Some(t.clone()),
            _ => None,
        }
    }

    /// The value of an integer argument.
    pub fn int_arg(&self, syntax: &ServiceSyntax, name: &str) -> (r: Option<i64>)
        ensures
            r == int_of(arg_of(*syntax, self@, name@)),
    {
        match self.get(syntax, &name.to_owned()) {
            Some(ArgValue::Int(n)) => Some(*n),
            _ => None,
        }
    }

    /// The value of a yes/no argument.
    pub fn bool_arg(&self, syntax: &ServiceSyntax, name: &str) -> (r: Option<bool>)
        ensures
            r == bool_of(arg_of(*syntax, self@, name@)),
    {
        match self.get(syntax, &name.to_owned()) {
            Some(ArgValue::Boolean(b)) => Some(*b),
            _ => None,
        }
    }
}

/// The outcome of reading `toks` against a schema: every value, or every
/// error, positional ones first.
pub open spec fn parse_outcome(sy: ServiceSyntax, toks: Seq<TokenView>) -> Result<
    ArgsView,
    Seq<ErrorView>,
> {
    let pr = positional_results(sy.positional_args@, toks);
    let nr = named_results(sy.param_args@, sy.positional_args@.len(), toks);
    let errs = errors_of(pr) + errors_of(nr);
    if errs.len() == 0 {
        Ok(ArgsView { positional: values_of(pr), named: values_of(nr) })
    } else {
        Err(errs)
    }
}

pub open spec fn outcome_view(r: Result<ParsedArgs, BotErrorGroup>) -> Result<
    ArgsView,
    Seq<ErrorView>,
> {
    match r {
        Ok(a) => Ok(a@),
        Err(g) => Err(g@),
    }
}

/// With no token beyond the positional ones, each positional argument that
/// no token is left for is reported missing once, and each named argument
/// takes its default, or is reported missing when it has none.
pub proof fn lemma_only_positional(sy: ServiceSyntax, toks: Seq<TokenView>)
    requires
        toks.len() <= sy.positional_args.len(),
    ensures
        forall|i: int|
            toks.len() <= i < sy.positional_args.len() ==> #[trigger] positional_results(
                sy.positional_args@,
                toks,
            )[i] == Err::<ValueView, ErrorView>(missing_positional(sy.positional_args@[i])),
        forall|j: int|
            0 <= j < sy.param_args.len() ==> #[trigger] named_results(
                sy.param_args@,
                sy.positional_args@.len(),
                toks,
            )[j] == match sy.param_args@[j].default {
                Some(d) => Ok(d@),
                None => Err(missing_named(sy.param_args@[j])),
            },
{
    let params = sy.param_args@;
    assert(after_positional(sy.positional_args@.len(), toks) =~= Seq::<TokenView>::empty());
    assert(named_pairs(Seq::<TokenView>::empty()) =~= Seq::<(Seq<char>, TokenView)>::empty());
    assert forall|j: int| 0 <= j < params.len() implies captured(
        params,
        Seq::<(Seq<char>, TokenView)>::empty(),
        params[j].arg_name@,
    ) is None by {}
}

/// The named argument a key stands for.
fn resolve(params: &Vec<ParamArg>, k: &String) -> (r: String)
    ensures
        r@ == resolve_key(params@, k@),
{
    let mut i: usize = 0;
    assert(params@.skip(0) =~= params@);
    while i < params.len()
        invariant
            i <= params.len(),
            resolve_key(params@, k@) == resolve_key(params@.skip(i as int), k@),
        decreases params.len() - i,
    {
        let p = &params[i];
        assert(params@.skip(i as int)[0] == *p);
        if allowed_contains(&p.alias, k) || p.arg_name == *k {
            return p.arg_name.clone();
        }
        assert(params@.skip(i as int).drop_first() =~= params@.skip(i + 1));
        i = i + 1;
    }
    assert(params@.skip(i as int) =~= Seq::<ParamArg>::empty());
    k.clone()
}

impl ServiceSyntax {
    /// Reads the tokens from `start` on against this schema. Every argument is
    /// checked; the result holds every value, or every error that was found.
    pub fn parse(&self, tokens: &Vec<ParamItem>, start: usize) -> (r: Result<
        ParsedArgs,
        BotErrorGroup,
    >)
        requires
            start <= tokens.len(),
        ensures
            outcome_view(r) == parse_outcome(*self, views(tokens@).skip(start as int)),
    {
        let ghost toks = views(tokens@).skip(start as int);
        let n = tokens.len();
        let npos = self.positional_args.len();
        let ghost pr = positional_results(self.positional_args@, toks);
        let mut errors: Vec<BotError> = Vec::new();
        let mut pos_values: Vec<ArgValue> = Vec::new();
        let mut i: usize = 0;
        while i < npos
            invariant
                i <= npos,
                npos == self.positional_args.len(),
                n == tokens.len(),
                start <= n,
                toks == views(tokens@).skip(start as int),
                pr == positional_results(self.positional_args@, toks),
                error_views(errors@) == errors_of(pr.take(i as int)),
                value_views(pos_values@) == values_of(pr.take(i as int)),
            decreases npos - i,
        {
            let p = &self.positional_args[i];
            assert(pr.take(i + 1).drop_last() =~= pr.take(i as int));
            let ghost ev = errors@;
            let ghost vv = pos_values@;
            if i < n - start {
                assert(toks[i as int] == tokens@[start + i]@);
                match p.arg_type.check(&p.arg_name, &tokens[start + i]) {
                    Ok(v) => {
                        pos_values.push(v);
                        assert(value_views(pos_values@) =~= value_views(vv).push(v@));
                    },
                    Err(e) => {
                        errors.push(e);
                        assert(error_views(errors@) =~= error_views(ev).push(e@));
                    },
                }
            } else {
                let mut note = String::new();
                push_str(&mut note, "缺少位置参数 ");
                push_str(&mut note, p.arg_name.as_str());
                let e = BotError::Syntax {
                    found: None,
                    expected: Some(arg_label_of(&p.arg_name, &p.arg_type)),
                    note: Some(note),
                };
                assert(e@ == missing_positional(*p));
                errors.push(e);
                assert(error_views(errors@) =~= error_views(ev).push(e@));
            }
            i = i + 1;
        }
        assert(pr.take(npos as int) =~= pr);
        let nparams = self.param_args.len();
        let ghost params = self.param_args@;
        let ghost rest = after_positional(npos as nat, toks);
        let ghost nr = named_results(params, npos as nat, toks);
        // For each named argument, the index of the token last given for it.
        let mut slots: Vec<Option<usize>> = Vec::new();
        let mut q: usize = 0;
        while q < nparams
            invariant
                q <= nparams,
                slots.len() == q,
                forall|x: int| 0 <= x < q ==> slots@[x] is None,
            decreases nparams - q,
        {
            slots.push(None);
            q = q + 1;
        }
        let ghost mut done: Seq<(Seq<char>, TokenView)> = Seq::empty();
        let mut j: usize = if npos < n - start {
            start + npos
        } else {
            n
        };
        proof {
            if npos < n - start {
                assert(toks.skip(npos as int) =~= views(tokens@).skip(j as int));
            } else {
                assert(views(tokens@).skip(j as int) =~= Seq::<TokenView>::empty());
            }
        }
        if nparams > 0 {
            while j < n
                invariant
                    start <= j <= n,
                    n == tokens.len(),
                    nparams == params.len(),
                    params == self.param_args@,
                    slots.len() == nparams,
                    named_pairs(rest) == done + named_pairs(views(tokens@).skip(j as int)),
                    forall|x: int|
                        0 <= x < nparams ==> match #[trigger] slots@[x] {
                            Some(idx) => idx < n && captured(params, done, params[x].arg_name@)
                                == Some(tokens@[idx as int]@),
                            None => captured(params, done, params[x].arg_name@) is None,
                        },
                ensures
                    named_pairs(rest) == done,
                decreases n - j,
            {
                let ghost tail = views(tokens@).skip(j as int);
                assert(tail[0] == tokens@[j as int]@);
                match &tokens[j] {
                    ParamItem::At(_) => {
                        assert(tail.drop_first() =~= views(tokens@).skip(j + 1));
                        j = j + 1;
                    },
                    ParamItem::Text(k) => {
                        if j + 1 >= n {
                            assert(named_pairs(tail) =~= Seq::<(Seq<char>, TokenView)>::empty());
                            assert(done + named_pairs(tail) =~= done);
                            break;
                        }
                        let key = resolve(&self.param_args, k);
                        let ghost pair = (k@, tokens@[j + 1]@);
                        assert(tail[1] == tokens@[j + 1]@);
                        assert(tail.skip(2) =~= views(tokens@).skip(j + 2));
                        let ghost old_slots = slots@;
                        let mut x: usize = 0;
                        while x < nparams
                            invariant
                                x <= nparams,
                                j + 1 < n,
                                n == tokens.len(),
                                nparams == params.len(),
                                params == self.param_args@,
                                slots.len() == nparams,
                                old_slots.len() == nparams,
                                key@ == resolve_key(params, k@),
                                forall|y: int|
                                    0 <= y < x ==> #[trigger] slots@[y] == (if params[y].arg_name@
                                        == key@ {
                                        Some((j + 1) as usize)
                                    } else {
                                        old_slots[y]
                                    }),
                                forall|y: int| x <= y < nparams ==> #[trigger] slots@[y] == old_slots[y],
                            decreases nparams - x,
                        {
                            if self.param_args[x].arg_name == key {
                                slots.set(x, Some(j + 1));
                            }
                            x = x + 1;
                        }
                        proof {
                            let nd = done.push(pair);
                            assert(nd.drop_last() =~= done);
                            assert(named_pairs(rest) =~= nd + named_pairs(views(tokens@).skip(j + 2)));
                            done = nd;
                        }
                        j = j + 2;
                    },
                }
                if j >= n {
                    assert(views(tokens@).skip(j as int) =~= Seq::<TokenView>::empty());
                }
            }
        }
        proof {
            if nparams > 0 {
            } else {
                assert(params.len() == 0);
            }
        }
        let mut named_values: Vec<ArgValue> = Vec::new();
        let mut y: usize = 0;
        let ghost errs_before = errors@;
        while y < nparams
            invariant
                y <= nparams,
                nparams == params.len(),
                params == self.param_args@,
                n == tokens.len(),
                slots.len() == nparams,
                nr == named_results(params, npos as nat, toks),
                nparams > 0 ==> named_pairs(rest) == done,
                rest == after_positional(npos as nat, toks),
                forall|x: int|
                    0 <= x < nparams ==> match #[trigger] slots@[x] {
                        Some(idx) => idx < n && captured(params, done, params[x].arg_name@)
                            == Some(tokens@[idx as int]@),
                        None => captured(params, done, params[x].arg_name@) is None,
                    },
                error_views(errors@) == error_views(errs_before) + errors_of(nr.take(y as int)),
                value_views(named_values@) == values_of(nr.take(y as int)),
            decreases nparams - y,
        {
            let p = &self.param_args[y];
            assert(nr.take(y + 1).drop_last() =~= nr.take(y as int));
            assert(nr[y as int] == match captured(params, done, p.arg_name@) {
                Some(t) => check_token(p.arg_name@, p.arg_type, t),
                None => match p.default {
                    Some(d) => Ok(d@),
                    None => Err(missing_named(*p)),
                },
            });
            let ghost ev = errors@;
            let ghost vv = named_values@;
            match slots[y] {
                Some(idx) => match p.arg_type.check(&p.arg_name, &tokens[idx]) {
                    Ok(v) => {
                        named_values.push(v);
                        assert(value_views(named_values@) =~= value_views(vv).push(v@));
                    },
                    Err(e) => {
                        errors.push(e);
                        assert(error_views(errors@) =~= error_views(ev).push(e@));
                    },
                },
                None => match &p.default {
                    Some(d) => {
                        let v = d.duplicate();
                        named_values.push(v);
                        assert(value_views(named_values@) =~= value_views(vv).push(v@));
                    },
                    None => {
                        let mut note = String::new();
                        push_str(&mut note, "缺少额外参数 ");
                        push_str(&mut note, p.arg_name.as_str());
                        let e = BotError::Syntax {
                            found: None,
                            expected: Some(arg_label_of(&p.arg_name, &p.arg_type)),
                            note: Some(note),
                        };
                        assert(e@ == missing_named(*p));
                        errors.push(e);
                        assert(error_views(errors@) =~= error_views(ev).push(e@));
                    },
                },
            }
            y = y + 1;
        }
        assert(nr.take(nparams as int) =~= nr);
        if errors.len() == 0 {
            Ok(ParsedArgs { positional: pos_values, named: named_values })
        } else {
            Err(BotErrorGroup::with(errors))
        }
    }
}

} // verus!
