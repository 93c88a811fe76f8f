use evebot::distributor::{distribute, Dispatch, Distributor, SubCommand, SubGroup};
use evebot::error::BotError;
use evebot::fetch::TypeIDFetch;
use evebot::server::Server;
use evebot::syntax::{ArgType, ArgValue, ParamArg, PositionalArg, ServiceSyntax};
use evebot::token::{tokenize, ParamItem, Segment};

fn s(x: &str) -> String {
    x.to_string()
}

fn blp_syntax() -> ServiceSyntax {
    ServiceSyntax {
        title: s("蓝图材料"),
        arg_prefix: s("eve blp mat"),
        positional_args: vec![PositionalArg {
            arg_name: s("type_name"),
            arg_type: ArgType::AnyText,
            description: s("blueprint name"),
        }],
        param_args: vec![
            ParamArg {
                alias: vec![s("p")],
                arg_name: s("pattern"),
                arg_type: ArgType::EnumText(vec![s("absolute"), s("fuzzy"), s("manual")]),
                default: Some(ArgValue::EnumText(s("absolute"))),
                description: s("lookup"),
            },
            ParamArg {
                alias: vec![s("exp")],
                arg_name: s("expand"),
                arg_type: ArgType::Boolean,
                default: Some(ArgValue::Boolean(false)),
                description: s("expand"),
            },
        ],
        description: s("materials"),
        mixin: vec![],
    }
}

fn command(ident: &str, path: &str, no_help: bool) -> SubCommand {
    SubCommand {
        path_ident: s(ident),
        path_alias: vec![],
        structure_path: s(path),
        no_help,
        description: s("does things"),
        syntax: blp_syntax(),
    }
}

fn tree() -> Distributor {
    let blp = SubGroup {
        path_ident: s("blp"),
        path_alias: vec![s("blueprint")],
        description: s("Blueprint tools"),
        group_name: s("Blueprints"),
        subcommand: vec![command("mat", "BlpMaterial", false), command("ping", "Ping", true)],
        subgroup: vec![SubGroup {
            path_ident: s("price"),
            path_alias: vec![],
            description: s("Prices"),
            group_name: s("Price"),
            subcommand: vec![command("mat", "BlpMaterialPrice", false)],
            subgroup: vec![],
        }],
    };
    Distributor { prefix: s("eve"), bot_uid: 1000, groups: vec![blp] }
}

fn toks(text: &str) -> Vec<ParamItem> {
    tokenize(vec![Segment::Text(s(text))])
}

#[test]
fn test_distribute() {
    let t = tree();
    let res = distribute(&t, &toks("eve blp mat 勒维亚坦级蓝图 pattern fuzzy expand true"));
    match res {
        Dispatch::Command { structure_path, args } => {
            assert_eq!(structure_path, "BlpMaterial");
            let args = args.unwrap();
            assert_eq!(args.positional, vec![ArgValue::AnyText(s("勒维亚坦级蓝图"))]);
            assert_eq!(args.named, vec![ArgValue::EnumText(s("fuzzy")), ArgValue::Boolean(true)]);
        }
        other => panic!("unexpected {:?}", other),
    }
}

#[test]
fn group_without_tokens_gives_help() {
    let t = tree();
    let expected = format!(
        "Blueprints  <blp>\nBlueprint tools\nSub Commands:\n{:<10}{}\n{:<10}{}\nSub Groups:\n{:<10}{:<10}{}\n",
        "mat", "does things", "ping", "does things", "price", "Price", "Prices"
    );
    assert_eq!(t.groups[0].to_help(), expected);
    match distribute(&t, &toks("eve blp")) {
        Dispatch::Help(h) => {
            assert_eq!(h, expected);
            assert!(h.contains("Blueprint tools") && h.contains("mat") && h.contains("price"));
        }
        other => panic!("unexpected {:?}", other),
    }
}

#[test]
fn unknown_child_or_mention_gives_group_help() {
    let t = tree();
    let help = t.groups[0].to_help();
    match distribute(&t, &toks("eve blueprint nothing")) {
        Dispatch::Help(h) => assert_eq!(h, help),
        other => panic!("unexpected {:?}", other),
    }
    let msg = tokenize(vec![Segment::Text(s("eve blp")), Segment::Mention(3)]);
    match distribute(&t, &msg) {
        Dispatch::Help(h) => assert_eq!(h, help),
        other => panic!("unexpected {:?}", other),
    }
}

#[test]
fn unknown_top_level_is_no_match() {
    let t = tree();
    assert!(matches!(distribute(&t, &toks("eve market")), Dispatch::NoMatch));
    assert!(matches!(distribute(&t, &toks("eve")), Dispatch::NoMatch));
    assert!(matches!(distribute(&t, &toks("hello blp")), Dispatch::NoMatch));
    assert!(matches!(distribute(&t, &vec![]), Dispatch::NoMatch));
    let other_bot = tokenize(vec![Segment::Mention(2), Segment::Text(s("blp"))]);
    assert!(matches!(distribute(&t, &other_bot), Dispatch::NoMatch));
}

#[test]
fn bare_command_shows_its_syntax() {
    let t = tree();
    match distribute(&t, &toks("eve blp mat")) {
        Dispatch::Help(h) => assert_eq!(h, blp_syntax().render()),
        other => panic!("unexpected {:?}", other),
    }
    match distribute(&t, &toks("eve blp price mat")) {
        Dispatch::Help(h) => assert_eq!(h, blp_syntax().render()),
        other => panic!("unexpected {:?}", other),
    }
}

#[test]
fn no_help_command_parses_even_without_tokens() {
    let t = tree();
    match distribute(&t, &toks("eve blp ping")) {
        Dispatch::Command { structure_path, args } => {
            assert_eq!(structure_path, "Ping");
            assert_eq!(args.unwrap_err().errors().len(), 1);
        }
        other => panic!("unexpected {:?}", other),
    }
}

#[test]
fn mention_of_the_bot_addresses_it() {
    let t = tree();
    let with_prefix = tokenize(vec![Segment::Mention(1000), Segment::Text(s("eve blp price mat x"))]);
    let without = tokenize(vec![Segment::Mention(1000), Segment::Text(s("blp price mat x"))]);
    for msg in [with_prefix, without] {
        match distribute(&t, &msg) {
            Dispatch::Command { structure_path, args } => {
                assert_eq!(structure_path, "BlpMaterialPrice");
                assert_eq!(args.unwrap().positional, vec![ArgValue::AnyText(s("x"))]);
            }
            other => panic!("unexpected {:?}", other),
        }
    }
}

#[test]
fn command_errors_are_returned() {
    let t = tree();
    match distribute(&t, &toks("eve blp mat x expand maybe")) {
        Dispatch::Command { args, .. } => {
            let g = args.unwrap_err();
            assert_eq!(g.errors().len(), 1);
        }
        other => panic!("unexpected {:?}", other),
    }
}

#[test]
fn server_names() {
    assert_eq!(Server::parse_from("TQ"), Ok(Server::Tranquility));
    assert_eq!(Server::parse_from("Serenity"), Ok(Server::Serenity));
    assert_eq!(Server::parse_from("seren"), Ok(Server::Serenity));
    assert_eq!(
        Server::parse_from("mars"),
        Err(BotError::Syntax {
            found: Some(s("mars")),
            expected: Some(s("tq/trans/tranquility / se/seren/serenity")),
            note: Some(s("不合法的服务器类型")),
        })
    );
    assert_eq!(Server::Tranquility.as_api_like(), "tq");
    assert_eq!(Server::Serenity.as_readable(), "晨曦");
    assert_eq!(Server::default(), Server::Serenity);
}

#[test]
fn fetch_kinds() {
    assert_eq!(TypeIDFetch::type_from("ABS", 1), Ok(TypeIDFetch::Absolute(1)));
    assert_eq!(TypeIDFetch::type_from("fuzz", 1), Ok(TypeIDFetch::Fuzzy(1)));
    assert_eq!(TypeIDFetch::type_from("m", 1), Ok(TypeIDFetch::Manual(1)));
    assert!(TypeIDFetch::type_from("x", 1).is_err());
    let f = TypeIDFetch::Manual(s("三%合%"));
    assert_eq!(f.search_url(8000), "http://localhost:8000/types/search/manual/?pattern=三%合%");
}
