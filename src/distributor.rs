use vstd::prelude::*;
use crate::error::{BotErrorGroup, ErrorView};
use crate::parser::{outcome_view, parse_outcome, ArgsView, ParsedArgs};
use crate::syntax::{syntax_text, ServiceSyntax};
use crate::text::{join, pad_right, push_joined, push_padded, push_str, string_views};
use crate::token::{ParamItem, TokenView, views};

verus! {

/// A command at a leaf of the tree.
#[derive(Debug, Clone)]
pub struct SubCommand {
    pub path_ident: String,
    pub path_alias: Vec<String>,
    /// Names the handler that runs the command.
    pub structure_path: String,
    /// Parse even when no argument follows, instead of showing the syntax text.
    pub no_help: bool,
    pub description: String,
    pub syntax: ServiceSyntax,
}

/// A group of commands and of further groups.
#[derive(Debug)]
pub struct SubGroup {
    pub path_ident: String,
    pub path_alias: Vec<String>,
    pub description: String,
    pub group_name: String,
    pub subcommand: Vec<SubCommand>,
    pub subgroup: Vec<SubGroup>,
}

/// The routing tree: messages start with `prefix`, or with a mention of the
/// bot (optionally followed by `prefix`), and then name a top-level group.
#[derive(Debug)]
pub struct Distributor {
    pub prefix: String,
    pub bot_uid: u64,
    pub groups: Vec<SubGroup>,
}

/// Where a dispatch ends.
#[derive(Debug)]
pub enum Dispatch {
    /// The message is not for this tree.
    NoMatch,
    /// A text to show: the help of a group, or the syntax of a command.
    Help(String),
    /// A command was reached; its arguments were read.
    Command { structure_path: String, args: Result<ParsedArgs, BotErrorGroup> },
}

pub enum DispatchView {
    NoMatch,
    Help(Seq<char>),
    Command { structure_path: Seq<char>, args: Result<ArgsView, Seq<ErrorView>> },
}

impl View for Dispatch {
    type V = DispatchView;

    open spec fn view(&self) -> DispatchView {
        match self {
            Dispatch::NoMatch => DispatchView::NoMatch,
            Dispatch::Help(t) => DispatchView::Help(t@),
            Dispatch::Command { structure_path, args } => DispatchView::Command {
                structure_path: structure_path@,
                args: outcome_view(*args),
            },
        }
    }
}

pub open spec fn path_matches(ident: String, alias: Vec<String>, t: Seq<char>) -> bool {
    ident@ == t || string_views(alias@).contains(t)
}

/// The index of the first command that `t` names, or the number of commands.
pub open spec fn first_command(cs: Seq<SubCommand>, t: Seq<char>) -> int
    decreases cs.len(),
{
    if cs.len() == 0 {
        0
    } else if path_matches(cs[0].path_ident, cs[0].path_alias, t) {
        0
    } else {
        1 + first_command(cs.drop_first(), t)
    }
}

/// The index of the first group that `t` names, or the number of groups.
pub open spec fn first_group(gs: Seq<SubGroup>, t: Seq<char>) -> int
    decreases gs.len(),
{
    if gs.len() == 0 {
        0
    } else if path_matches(gs[0].path_ident, gs[0].path_alias, t) {
        0
    } else {
        1 + first_group(gs.drop_first(), t)
    }
}

pub open spec fn command_line(c: SubCommand) -> Seq<char> {
    pad_right(c.path_ident@, 10) + c.description@
}

pub open spec fn group_line(g: SubGroup) -> Seq<char> {
    pad_right(g.path_ident@, 10) + pad_right(g.group_name@, 10) + g.description@
}

pub open spec fn command_lines(cs: Seq<SubCommand>) -> Seq<Seq<char>> {
    cs.map_values(|c: SubCommand| command_line(c))
}

pub open spec fn group_lines(gs: Seq<SubGroup>) -> Seq<Seq<char>> {
    gs.map_values(|g: SubGroup| group_line(g))
}

/// The help of a group: its name and path, its description, then a line for
/// each command and each subgroup.
pub open spec fn help_text(g: SubGroup) -> Seq<char> {
    g.group_name@ + "  <"@ + g.path_ident@ + ">\n"@ + g.description@ + "\n"@ + (
    if g.subcommand.len() > 0 {
        "Sub Commands:\n"@ + join(command_lines(g.subcommand@), "\n"@) + "\n"@
    } else {
        Seq::empty()
    }) + (if g.subgroup.len() > 0 {
        "Sub Groups:\n"@ + join(group_lines(g.subgroup@), "\n"@) + "\n"@
    } else {
        Seq::empty()
    })
}

/// Where a command leads with the tokens after its name.
pub open spec fn command_outcome(c: SubCommand, rest: Seq<TokenView>) -> DispatchView {
    if !c.no_help && rest.len() == 0 {
        DispatchView::Help(syntax_text(c.syntax))
    } else {
        DispatchView::Command {
            structure_path: c.structure_path@,
            args: parse_outcome(c.syntax, rest),
        }
    }
}

/// Where the tokens after a group's name lead. A token that names none of
/// the group's children, a mention, or no token at all gives the group's help.
pub open spec fn group_outcome(g: SubGroup, toks: Seq<TokenView>) -> DispatchView
    decreases g,
{
    if toks.len() == 0 {
        DispatchView::Help(help_text(g))
    } else {
        match toks[0] {
            TokenView::At(_) => DispatchView::Help(help_text(g)),
            TokenView::Text(t) => {
                let ci = first_command(g.subcommand@, t);
                let gi = first_group(g.subgroup@, t);
                if 0 <= ci < g.subcommand.len() {
                    command_outcome(g.subcommand@[ci], toks.drop_first())
                } else if 0 <= gi < g.subgroup.len() {
                    group_outcome(g.subgroup[gi], toks.drop_first())
                } else {
                    DispatchView::Help(help_text(g))
                }
            },
        }
    }
}

/// Where a token stream leads from the top-level groups.
pub open spec fn tree_outcome(groups: Seq<SubGroup>, toks: Seq<TokenView>) -> DispatchView {
    if toks.len() == 0 {
        DispatchView::NoMatch
    } else {
        match toks[0] {
            TokenView::At(_) => DispatchView::NoMatch,
            TokenView::Text(t) => {
                let gi = first_group(groups, t);
                if 0 <= gi < groups.len() {
                    group_outcome(groups[gi], toks.drop_first())
                } else {
                    DispatchView::NoMatch
                }
            },
        }
    }
}

/// How many tokens the address takes: the prefix, or a mention of the bot
/// with the prefix after it if there is one. `None` when the message is not
/// addressed to the bot.
pub open spec fn address_len(prefix: Seq<char>, bot: u64, toks: Seq<TokenView>) -> Option<int> {
    if toks.len() == 0 {
        None
    } else {
        match toks[0] {
            TokenView::Text(t) => if t == prefix {
                Some(1)
            } else {
                None
            },
            TokenView::At(a) => if a != bot {
                None
            } else if toks.len() > 1 && toks[1] == TokenView::Text(prefix) {
                Some(2)
            } else {
                Some(1)
            },
        }
    }
}

pub open spec fn distribute_outcome(d: Distributor, toks: Seq<TokenView>) -> DispatchView {
    match address_len(d.prefix@, d.bot_uid, toks) {
        Some(k) => tree_outcome(d.groups@, toks.skip(k)),
        None => DispatchView::NoMatch,
    }
}

/// Whether `x` occurs in `s` as a contiguous piece.
pub open spec fn contains_text(s: Seq<char>, x: Seq<char>) -> bool {
    exists|k: int| 0 <= k && k + x.len() <= s.len() && #[trigger] s.subrange(k, k + x.len()) == x
}

proof fn lemma_contains_middle(a: Seq<char>, x: Seq<char>, b: Seq<char>)
    ensures
        contains_text(a + x + b, x),
{
    let s = a + x + b;
    assert(s.subrange(a.len() as int, (a.len() + x.len()) as int) =~= x);
}

proof fn lemma_contains_within(s: Seq<char>, m: Seq<char>, x: Seq<char>)
    requires
        contains_text(s, m),
        contains_text(m, x),
    ensures
        contains_text(s, x),
{
    let k1 = choose|k: int| 0 <= k && k + m.len() <= s.len() && #[trigger] s.subrange(k, k + m.len()) == m;
    let k2 = choose|k: int| 0 <= k && k + x.len() <= m.len() && #[trigger] m.subrange(k, k + x.len()) == x;
    assert(s.subrange(k1 + k2, k1 + k2 + x.len()) =~= m.subrange(k2, k2 + x.len()));
}

proof fn lemma_contains_extend(a: Seq<char>, m: Seq<char>, b: Seq<char>, x: Seq<char>)
    requires
        contains_text(m, x),
    ensures
        contains_text(a + m + b, x),
{
    lemma_contains_middle(a, m, b);
    lemma_contains_within(a + m + b, m, x);
}

proof fn lemma_join_contains(parts: Seq<Seq<char>>, sep: Seq<char>, i: int)
    requires
        0 <= i < parts.len(),
    ensures
        contains_text(join(parts, sep), parts[i]),
    decreases parts.len(),
{
    if parts.len() == 1 {
        lemma_contains_middle(Seq::empty(), parts[0], Seq::empty());
        assert(Seq::<char>::empty() + parts[0] + Seq::<char>::empty() =~= parts[0]);
    } else if i == parts.len() - 1 {
        lemma_contains_middle(join(parts.drop_last(), sep) + sep, parts.last(), Seq::empty());
        assert(join(parts.drop_last(), sep) + sep + parts.last() + Seq::<char>::empty()
            =~= join(parts, sep));
    } else {
        lemma_join_contains(parts.drop_last(), sep, i);
        lemma_contains_extend(Seq::empty(), join(parts.drop_last(), sep), sep + parts.last(), parts[i]);
        assert(Seq::<char>::empty() + join(parts.drop_last(), sep) + (sep + parts.last())
            =~= join(parts, sep));
    }
}

proof fn lemma_first_command_none(cs: Seq<SubCommand>, t: Seq<char>)
    requires
        forall|i: int| 0 <= i < cs.len() ==> !path_matches(#[trigger] cs[i].path_ident, cs[i].path_alias, t),
    ensures
        first_command(cs, t) == cs.len(),
    decreases cs.len(),
{
    if cs.len() > 0 {
        assert(!path_matches(cs[0].path_ident, cs[0].path_alias, t));
        assert forall|i: int| 0 <= i < cs.drop_first().len() implies !path_matches(
            #[trigger] cs.drop_first()[i].path_ident,
            cs.drop_first()[i].path_alias,
            t,
        ) by {
            assert(cs.drop_first()[i] == cs[i + 1]);
        }
        lemma_first_command_none(cs.drop_first(), t);
    }
}

proof fn lemma_first_command_at(cs: Seq<SubCommand>, t: Seq<char>, i: int)
    requires
        0 <= i < cs.len(),
        path_matches(cs[i].path_ident, cs[i].path_alias, t),
        forall|j: int| 0 <= j < i ==> !path_matches(#[trigger] cs[j].path_ident, cs[j].path_alias, t),
    ensures
        first_command(cs, t) == i,
    decreases i,
{
    if i > 0 {
        assert(!path_matches(cs[0].path_ident, cs[0].path_alias, t));
        assert forall|j: int| 0 <= j < i - 1 implies !path_matches(
            #[trigger] cs.drop_first()[j].path_ident,
            cs.drop_first()[j].path_alias,
            t,
        ) by {
            assert(cs.drop_first()[j] == cs[j + 1]);
        }
        lemma_first_command_at(cs.drop_first(), t, i - 1);
    }
}

proof fn lemma_first_group_none(gs: Seq<SubGroup>, t: Seq<char>)
    requires
        forall|i: int| 0 <= i < gs.len() ==> !path_matches(#[trigger] gs[i].path_ident, gs[i].path_alias, t),
    ensures
        first_group(gs, t) == gs.len(),
    decreases gs.len(),
{
    if gs.len() > 0 {
        assert(!path_matches(gs[0].path_ident, gs[0].path_alias, t));
        assert forall|i: int| 0 <= i < gs.drop_first().len() implies !path_matches(
            #[trigger] gs.drop_first()[i].path_ident,
            gs.drop_first()[i].path_alias,
            t,
        ) by {
            assert(gs.drop_first()[i] == gs[i + 1]);
        }
        lemma_first_group_none(gs.drop_first(), t);
    }
}

/// With no token left, a group answers with its help, and that help holds the
/// group's description and the name of each of its commands and subgroups.
pub proof fn lemma_group_help(g: SubGroup)
    ensures
        group_outcome(g, Seq::empty()) == DispatchView::Help(help_text(g)),
        contains_text(help_text(g), g.description@),
        forall|i: int|
            0 <= i < g.subcommand.len() ==> contains_text(
                help_text(g),
                (#[trigger] g.subcommand@[i]).path_ident@,
            ),
        forall|i: int|
            0 <= i < g.subgroup.len() ==> contains_text(
                help_text(g),
                (#[trigger] g.subgroup@[i]).path_ident@,
            ),
{
    let head = g.group_name@ + "  <"@ + g.path_ident@ + ">\n"@;
    let cmds = if g.subcommand.len() > 0 {
        "Sub Commands:\n"@ + join(command_lines(g.subcommand@), "\n"@) + "\n"@
    } else {
        Seq::empty()
    };
    let grps = if g.subgroup.len() > 0 {
        "Sub Groups:\n"@ + join(group_lines(g.subgroup@), "\n"@) + "\n"@
    } else {
        Seq::empty()
    };
    assert(help_text(g) =~= head + g.description@ + ("\n"@ + cmds + grps));
    lemma_contains_middle(head, g.description@, "\n"@ + cmds + grps);
    assert forall|i: int| 0 <= i < g.subcommand.len() implies contains_text(
        help_text(g),
        (#[trigger] g.subcommand@[i]).path_ident@,
    ) by {
        let c = g.subcommand@[i];
        let lines = command_lines(g.subcommand@);
        let pad = pad_right(c.path_ident@, 10).skip(c.path_ident@.len() as int);
        assert(lines[i] =~= c.path_ident@ + pad + c.description@);
        lemma_contains_middle(Seq::empty(), c.path_ident@, pad + c.description@);
        assert(Seq::<char>::empty() + c.path_ident@ + (pad + c.description@) =~= lines[i]);
        lemma_join_contains(lines, "\n"@, i);
        lemma_contains_within(join(lines, "\n"@), lines[i], c.path_ident@);
        let pre = head + g.description@ + "\n"@ + "Sub Commands:\n"@;
        lemma_contains_extend(pre, join(lines, "\n"@), "\n"@ + grps, c.path_ident@);
        assert(pre + join(lines, "\n"@) + ("\n"@ + grps) =~= help_text(g));
    }
    assert forall|i: int| 0 <= i < g.subgroup.len() implies contains_text(
        help_text(g),
        (#[trigger] g.subgroup@[i]).path_ident@,
    ) by {
        let sg = g.subgroup@[i];
        let lines = group_lines(g.subgroup@);
        let rest = pad_right(sg.path_ident@, 10).skip(sg.path_ident@.len() as int) + pad_right(
            sg.group_name@,
            10,
        ) + sg.description@;
        assert(lines[i] =~= sg.path_ident@ + rest);
        lemma_contains_middle(Seq::empty(), sg.path_ident@, rest);
        assert(Seq::<char>::empty() + sg.path_ident@ + rest =~= lines[i]);
        lemma_join_contains(lines, "\n"@, i);
        lemma_contains_within(join(lines, "\n"@), lines[i], sg.path_ident@);
        let pre = head + g.description@ + "\n"@ + cmds + "Sub Groups:\n"@;
        lemma_contains_extend(pre, join(lines, "\n"@), "\n"@, sg.path_ident@);
        assert(pre + join(lines, "\n"@) + "\n"@ =~= help_text(g));
    }
}

/// A first token that names no top-level group, or a mention there, leads
/// nowhere.
pub proof fn lemma_unknown_top_level(groups: Seq<SubGroup>, toks: Seq<TokenView>)
    requires
        toks.len() > 0,
        match toks[0] {
            TokenView::Text(t) => forall|i: int|
                0 <= i < groups.len() ==> !path_matches(
                    #[trigger] groups[i].path_ident,
                    groups[i].path_alias,
                    t,
                ),
            TokenView::At(_) => true,
        },
    ensures
        tree_outcome(groups, toks) == DispatchView::NoMatch,
{
    match toks[0] {
        TokenView::Text(t) => lemma_first_group_none(groups, t),
        TokenView::At(_) => {},
    }
}

/// A command that shows its syntax, reached with no token after its name,
/// answers with exactly its syntax text; no argument is read.
pub proof fn lemma_bare_command_syntax(g: SubGroup, i: int, t: Seq<char>)
    requires
        0 <= i < g.subcommand.len(),
        !g.subcommand@[i].no_help,
        path_matches(g.subcommand@[i].path_ident, g.subcommand@[i].path_alias, t),
        forall|j: int|
            0 <= j < i ==> !path_matches(
                #[trigger] g.subcommand@[j].path_ident,
                g.subcommand@[j].path_alias,
                t,
            ),
    ensures
        group_outcome(g, seq![TokenView::Text(t)]) == DispatchView::Help(
            syntax_text(g.subcommand@[i].syntax),
        ),
{
    lemma_first_command_at(g.subcommand@, t, i);
    assert(seq![TokenView::Text(t)].drop_first() =~= Seq::<TokenView>::empty());
}

fn name_contains(alias: &Vec<String>, t: &String) -> (r: bool)
    ensures
        r == string_views(alias@).contains(t@),
{
    let mut i: usize = 0;
    while i < alias.len()
        invariant
            i <= alias.len(),
            forall|j: int| 0 <= j < i ==> alias@[j]@ != t@,
        decreases alias.len() - i,
    {
        if alias[i] == *t {
            assert(string_views(alias@)[i as int] == t@);
            return true;
        }
        i = i + 1;
    }
    assert forall|j: int| 0 <= j < alias.len() implies string_views(alias@)[j] != t@ by {
        assert(alias@[j]@ != t@);
    }
    false
}

fn find_command(cs: &Vec<SubCommand>, t: &String) -> (r: usize)
    ensures
        r as int == first_command(cs@, t@),
        r <= cs.len(),
{
    let mut i: usize = 0;
    assert(cs@.skip(0) =~= cs@);
    while i < cs.len()
        invariant
            i <= cs.len(),
            first_command(cs@, t@) == i + first_command(cs@.skip(i as int), t@),
        decreases cs.len() - i,
    {
        let c = &cs[i];
        assert(cs@.skip(i as int)[0] == *c);
        if c.path_ident == *t || name_contains(&c.path_alias, t) {
            return i;
        }
        assert(cs@.skip(i as int).drop_first() =~= cs@.skip(i + 1));
        i = i + 1;
    }
    assert(cs@.skip(i as int) =~= Seq::<SubCommand>::empty());
    i
}

fn find_group(gs: &Vec<SubGroup>, t: &String) -> (r: usize)
    ensures
        r as int == first_group(gs@, t@),
        r <= gs.len(),
{
    let mut i: usize = 0;
    assert(gs@.skip(0) =~= gs@);
    while i < gs.len()
        invariant
            i <= gs.len(),
            first_group(gs@, t@) == i + first_group(gs@.skip(i as int), t@),
        decreases gs.len() - i,
    {
        let g = &gs[i];
        assert(gs@.skip(i as int)[0] == *g);
        if g.path_ident == *t || name_contains(&g.path_alias, t) {
            return i;
        }
        assert(gs@.skip(i as int).drop_first() =~= gs@.skip(i + 1));
        i = i + 1;
    }
    assert(gs@.skip(i as int) =~= Seq::<SubGroup>::empty());
    i
}

impl SubGroup {
    /// The help text of this group.
    pub fn to_help(&self) -> (r: String)
        ensures
            r@ == help_text(*self),
    {
        let mut lines: Vec<String> = Vec::new();
        let mut i: usize = 0;
        while i < self.subcommand.len()
            invariant
                i <= self.subcommand.len(),
                string_views(lines@) == command_lines(self.subcommand@.take(i as int)),
            decreases self.subcommand.len() - i,
        {
            let c = &self.subcommand[i];
            let mut line = String::new();
            push_padded(&mut line, c.path_ident.as_str(), 10);
            push_str(&mut line, c.description.as_str());
            let ghost l0 = lines@;
            lines.push(line);
            i = i + 1;
            assert(self.subcommand@.take(i as int) =~= self.subcommand@.take(i - 1).push(*c));
            assert(string_views(lines@) =~= string_views(l0).push(line@));
            assert(string_views(lines@) =~= command_lines(self.subcommand@.take(i as int)));
        }
        let mut glines: Vec<String> = Vec::new();
        let mut j: usize = 0;
        while j < self.subgroup.len()
            invariant
                j <= self.subgroup.len(),
                string_views(glines@) == group_lines(self.subgroup@.take(j as int)),
            decreases self.subgroup.len() - j,
        {
            let g = &self.subgroup[j];
            let mut line = String::new();
            push_padded(&mut line, g.path_ident.as_str(), 10);
            push_padded(&mut line, g.group_name.as_str(), 10);
            push_str(&mut line, g.description.as_str());
            let ghost l0 = glines@;
            glines.push(line);
            j = j + 1;
            assert(self.subgroup@.take(j as int) =~= self.subgroup@.take(j - 1).push(*g));
            assert(string_views(glines@) =~= string_views(l0).push(line@));
            assert(string_views(glines@) =~= group_lines(self.subgroup@.take(j as int)));
        }
        assert(self.subcommand@.take(i as int) =~= self.subcommand@);
        assert(self.subgroup@.take(j as int) =~= self.subgroup@);
        let mut s = String::new();
        push_str(&mut s, self.group_name.as_str());
        push_str(&mut s, "  <");
        push_str(&mut s, self.path_ident.as_str());
        push_str(&mut s, ">\n");
        push_str(&mut s, self.description.as_str());
        push_str(&mut s, "\n");
        if lines.len() > 0 {
            push_str(&mut s, "Sub Commands:\n");
            push_joined(&mut s, &lines, "\n");
            push_str(&mut s, "\n");
        }
        if glines.len() > 0 {
            push_str(&mut s, "Sub Groups:\n");
            push_joined(&mut s, &glines, "\n");
            push_str(&mut s, "\n");
        }
        assert(s@ =~= help_text(*self));
        s
    }

    /// Routes the tokens from `pos` on, which follow this group's name.
    pub fn dispatch(&self, tokens: &Vec<ParamItem>, pos: usize) -> (r: Dispatch)
        requires
            pos <= tokens.len(),
        ensures
            r@ == group_outcome(*self, views(tokens@).skip(pos as int)),
        decreases self,
    {
        let ghost toks = views(tokens@).skip(pos as int);
        if pos >= tokens.len() {
            return Dispatch::Help(self.to_help());
        }
        assert(toks[0] == tokens@[pos as int]@);
        assert(toks.drop_first() =~= views(tokens@).skip(pos + 1));
        match &tokens[pos] {
            ParamItem::At(_) => Dispatch::Help(self.to_help()),
            ParamItem::Text(t) => {
                let ci = find_command(&self.subcommand, t);
                if ci < self.subcommand.len() {
                    let c = &self.subcommand[ci];
                    if !c.no_help && pos + 1 >= tokens.len() {
                        Dispatch::Help(c.syntax.render())
                    } else {
                        Dispatch::Command {
                            structure_path: c.structure_path.clone(),
                            args: c.syntax.parse(tokens, pos + 1),
                        }
                    }
                } else {
                    let gi = find_group(&self.subgroup, t);
                    if gi < self.subgroup.len() {
                        self.subgroup[gi].dispatch(tokens, pos + 1)
                    } else {
                        Dispatch::Help(self.to_help())
                    }
                }
            },
        }
    }
}

impl Distributor {
    /// Routes the tokens from `pos` on, starting at the top-level groups.
    pub fn dispatch(&self, tokens: &Vec<ParamItem>, pos: usize) -> (r: Dispatch)
        requires
            pos <= tokens.len(),
        ensures
            r@ == tree_outcome(self.groups@, views(tokens@).skip(pos as int)),
    {
        let ghost toks = views(tokens@).skip(pos as int);
        if pos >= tokens.len() {
            return Dispatch::NoMatch;
        }
        assert(toks[0] == tokens@[pos as int]@);
        assert(toks.drop_first() =~= views(tokens@).skip(pos + 1));
        match &tokens[pos] {
            ParamItem::At(_) => Dispatch::NoMatch,
            ParamItem::Text(t) => {
                let gi = find_group(&self.groups, t);
                if gi < self.groups.len() {
                    self.groups[gi].dispatch(tokens, pos + 1)
                } else {
                    Dispatch::NoMatch
                }
            },
        }
    }
}

/// Routes a whole message: checks that it is addressed to the bot, then
/// dispatches the rest through the tree.
pub fn distribute(tree: &Distributor, tokens: &Vec<ParamItem>) -> (r: Dispatch)
    ensures
        r@ == distribute_outcome(*tree, views(tokens@)),
{
    let ghost toks = views(tokens@);
    assert(toks.skip(0) =~= toks);
    if tokens.len() == 0 {
        return Dispatch::NoMatch;
    }
    assert(toks[0] == tokens@[0]@);
    match &tokens[0] {
        ParamItem::Text(t) => {
            if *t == tree.prefix {
                tree.dispatch(tokens, 1)
            } else {
                Dispatch::NoMatch
            }
        },
        ParamItem::At(a) => {
            if *a != tree.bot_uid {
                return Dispatch::NoMatch;
            }
            if tokens.len() > 1 {
                assert(toks[1] == tokens@[1]@);
                match &tokens[1] {
                    ParamItem::Text(t) => if *t == tree.prefix {
                        return tree.dispatch(tokens, 2);
                    },
                    ParamItem::At(_) => {},
                }
            }
            tree.dispatch(tokens, 1)
        },
    }
}

} // verus!
