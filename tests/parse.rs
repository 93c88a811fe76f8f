use evebot::command::{JitaPrice, TypeFetchId};
use evebot::error::{BotError, BotErrorGroup};
use evebot::literal::{is_float_literal, parse_bool, parse_int};
use evebot::parser::ParsedArgs;
use evebot::syntax::{ArgType, ArgValue, ParamArg, PositionalArg, ServiceSyntax};
use evebot::token::ParamItem;

fn s(x: &str) -> String {
    x.to_string()
}

fn text(x: &str) -> ParamItem {
    ParamItem::Text(s(x))
}

fn pos(name: &str, t: ArgType) -> PositionalArg {
    PositionalArg { arg_name: s(name), arg_type: t, description: s("d") }
}

fn named(name: &str, t: ArgType, default: Option<ArgValue>, alias: &[&str]) -> ParamArg {
    ParamArg {
        alias: alias.iter().map(|a| s(a)).collect(),
        arg_name: s(name),
        arg_type: t,
        default,
        description: s("d"),
    }
}

fn schema(p: Vec<PositionalArg>, n: Vec<ParamArg>) -> ServiceSyntax {
    ServiceSyntax {
        title: s("T"),
        arg_prefix: s("cmd"),
        positional_args: p,
        param_args: n,
        description: s("D"),
        mixin: vec![],
    }
}

fn two_and_one() -> ServiceSyntax {
    schema(
        vec![pos("a", ArgType::AnyText), pos("b", ArgType::Int)],
        vec![named("n", ArgType::Int, Some(ArgValue::Int(0)), &["num"])],
    )
}

fn notes(g: &BotErrorGroup) -> Vec<String> {
    g.errors()
        .iter()
        .map(|e| match e {
            BotError::Syntax { note, .. } => note.clone().unwrap(),
            _ => panic!("not a syntax error"),
        })
        .collect()
}

#[test]
fn named_default_fills_in() {
    let r = two_and_one().parse(&vec![text("x"), text("7")], 0).unwrap();
    assert_eq!(
        r,
        ParsedArgs {
            positional: vec![ArgValue::AnyText(s("x")), ArgValue::Int(7)],
            named: vec![ArgValue::Int(0)],
        }
    );
}

#[test]
fn each_missing_positional_is_reported() {
    let g = two_and_one().parse(&vec![text("x")], 0).unwrap_err();
    assert_eq!(notes(&g), vec![s("缺少位置参数 b")]);
    let g = two_and_one().parse(&vec![], 0).unwrap_err();
    assert_eq!(notes(&g), vec![s("缺少位置参数 a"), s("缺少位置参数 b")]);
    assert_eq!(
        g.errors()[1],
        BotError::Syntax { found: None, expected: Some(s("b [INT]")), note: Some(s("缺少位置参数 b")) }
    );
}

#[test]
fn errors_accumulate_across_arguments() {
    let toks = vec![ParamItem::At(3), text("seven"), text("n"), text("x")];
    let g = two_and_one().parse(&toks, 0).unwrap_err();
    assert_eq!(notes(&g), vec![s("参数类型错误"), s("无法解析入参"), s("无法解析入参")]);
}

#[test]
fn named_value_by_name_or_alias_last_wins() {
    let toks = vec![text("x"), text("1"), text("n"), text("5"), text("num"), text("6")];
    let r = two_and_one().parse(&toks, 0).unwrap();
    assert_eq!(r.named, vec![ArgValue::Int(6)]);
}

#[test]
fn named_phase_skips_mentions_and_drops_a_dangling_key() {
    let toks = vec![text("x"), text("1"), ParamItem::At(4), text("n"), text("5"), text("n")];
    let r = two_and_one().parse(&toks, 0).unwrap();
    assert_eq!(r.named, vec![ArgValue::Int(5)]);
}

#[test]
fn missing_named_without_default() {
    let sy = schema(vec![], vec![named("k", ArgType::AnyText, None, &[])]);
    let g = sy.parse(&vec![text("q"), text("1")], 0).unwrap_err();
    assert_eq!(
        g.errors()[0],
        BotError::Syntax { found: None, expected: Some(s("k [TEXT]")), note: Some(s("缺少额外参数 k")) }
    );
}

#[test]
fn parse_starts_at_the_given_index() {
    let r = two_and_one().parse(&vec![text("skip"), text("x"), text("2")], 1).unwrap();
    assert_eq!(r.positional, vec![ArgValue::AnyText(s("x")), ArgValue::Int(2)]);
}

#[test]
fn enum_value_checked() {
    let t = ArgType::EnumText(vec![s("a"), s("b")]);
    assert_eq!(t.check(&s("e"), &text("a")), Ok(ArgValue::EnumText(s("a"))));
    let err = t.check(&s("e"), &text("c")).unwrap_err();
    assert_eq!(
        err,
        BotError::Syntax {
            found: Some(s("Text(\"c\")")),
            expected: Some(s("e [ENUM[a, b]]")),
            note: Some(s("枚举参数非法值")),
        }
    );
    let sy = schema(vec![pos("e", t)], vec![]);
    let g = sy.parse(&vec![text("c")], 0).unwrap_err();
    assert_eq!(g.errors().len(), 1);
}

#[test]
fn boolean_words_any_case() {
    let t = ArgType::Boolean;
    assert_eq!(t.check(&s("b"), &text("YES")), Ok(ArgValue::Boolean(true)));
    assert_eq!(t.check(&s("b"), &text("yEs")), Ok(ArgValue::Boolean(true)));
    assert_eq!(t.check(&s("b"), &text("N")), Ok(ArgValue::Boolean(false)));
    let err = t.check(&s("b"), &ParamItem::At(5)).unwrap_err();
    assert_eq!(
        err,
        BotError::Syntax {
            found: Some(s("At(5)")),
            expected: Some(s("b [BOOLEAN]")),
            note: Some(s("无法解析入参")),
        }
    );
    assert!(t.check(&s("b"), &text("maybe")).is_err());
}

#[test]
fn mention_stands_for_a_number() {
    assert_eq!(ArgType::Int.check(&s("i"), &ParamItem::At(42)), Ok(ArgValue::Int(42)));
    assert_eq!(ArgType::Float.check(&s("f"), &ParamItem::At(1050)), Ok(ArgValue::Float(s("1050"))));
    assert!(ArgType::AnyText.check(&s("t"), &ParamItem::At(1)).is_err());
    assert_eq!(ArgType::Int.check(&s("i"), &ParamItem::At(u64::MAX)), Ok(ArgValue::Int(-1)));
    assert_eq!(ArgType::Int.check(&s("i"), &ParamItem::At(i64::MAX as u64)), Ok(ArgValue::Int(i64::MAX)));
}

#[test]
fn found_is_the_debug_form() {
    let err = ArgType::Int.check(&s("i"), &text("a\"b")).unwrap_err();
    assert_eq!(
        err,
        BotError::Syntax {
            found: Some(s("Text(\"a\\\"b\")")),
            expected: Some(s("i [INT]")),
            note: Some(s("无法解析入参")),
        }
    );
}

#[test]
fn integers_as_std_reads_them() {
    assert_eq!(parse_int("42"), Some(42));
    assert_eq!(parse_int("+42"), Some(42));
    assert_eq!(parse_int("-007"), Some(-7));
    assert_eq!(parse_int("-9223372036854775808"), Some(i64::MIN));
    assert_eq!(parse_int("9223372036854775807"), Some(i64::MAX));
    assert_eq!(parse_int("9223372036854775808"), None);
    assert_eq!(parse_int("-9223372036854775809"), None);
    assert_eq!(parse_int("99999999999999999999999"), None);
    assert_eq!(parse_int(""), None);
    assert_eq!(parse_int("-"), None);
    assert_eq!(parse_int("1a"), None);
    assert_eq!(parse_int(" 1"), None);
}

#[test]
fn float_literals_as_std_reads_them() {
    for ok in ["1", "1.", ".5", "-1.5e10", "1E-3", "+3", "inf", "-Infinity", "NaN", "0.0", "1.e5", ".5E+2", "007"] {
        assert!(is_float_literal(ok), "{}", ok);
        assert!(ok.parse::<f64>().is_ok(), "{}", ok);
    }
    for bad in ["", ".", "e5", "1e", "1e+", "--1", "1.2.3", "infx", "1 ", "0x10", ".e1", "1e5.0", "1e+-5", "+", "1ee5"] {
        assert!(!is_float_literal(bad), "{}", bad);
        assert!(bad.parse::<f64>().is_err(), "{}", bad);
    }
}

#[test]
fn bool_words() {
    assert_eq!(parse_bool("True"), Some(true));
    assert_eq!(parse_bool("t"), Some(true));
    assert_eq!(parse_bool("NO"), Some(false));
    assert_eq!(parse_bool("f"), Some(false));
    assert_eq!(parse_bool("yess"), None);
}

#[test]
fn syntax_text_lists_every_argument() {
    let sy = schema(
        vec![pos("type_name", ArgType::AnyText)],
        vec![named(
            "server",
            ArgType::EnumText(vec![s("se"), s("tq")]),
            Some(ArgValue::EnumText(s("se"))),
            &["s"],
        )],
    );
    let pad = " ".repeat(20);
    let expected = format!(
        "T\ncmd [type_name] <Param Args>\n位置参数：\n{:<20}Type: TEXT.\n{}d\n额外参数：\n{:<20}Type: ENUM[se, tq]. Optional. Default: se.\n{}d\n{}Alias: s",
        "type_name", pad, "server", pad, pad
    );
    assert_eq!(sy.render(), expected);
    let empty = schema(vec![], vec![]);
    assert_eq!(empty.render(), "T\ncmd \n位置参数：\n无\n额外参数：\n无");
}

#[test]
fn value_texts() {
    assert_eq!(ArgValue::Int(-12).render(), "-12");
    assert_eq!(ArgValue::Boolean(true).render(), "TRUE");
    assert_eq!(ArgValue::Float(s("0.0")).render(), "0.0");
    assert_eq!(ArgType::EnumText(vec![s("a"), s("b")]).render(), "ENUM[a, b]");
}

#[test]
fn mixins_append_in_order() {
    let base = schema(vec![pos("a", ArgType::AnyText)], vec![named("x", ArgType::Int, None, &[])]);
    let m1 = schema(vec![pos("b", ArgType::Int)], vec![]);
    let m2 = schema(vec![], vec![named("y", ArgType::Boolean, None, &[])]);
    let r = base.process_mixin(vec![m1, m2]);
    let p: Vec<&str> = r.positional_args.iter().map(|a| a.arg_name.as_str()).collect();
    let n: Vec<&str> = r.param_args.iter().map(|a| a.arg_name.as_str()).collect();
    assert_eq!(p, vec!["a", "b"]);
    assert_eq!(n, vec!["x", "y"]);
}

#[test]
fn value_by_name() {
    let sy = two_and_one();
    let r = sy.parse(&vec![text("x"), text("3")], 0).unwrap();
    assert_eq!(r.get(&sy, &s("b")), Some(&ArgValue::Int(3)));
    assert_eq!(r.get(&sy, &s("n")), Some(&ArgValue::Int(0)));
    assert_eq!(r.get(&sy, &s("zzz")), None);
}

#[test]
fn error_report_groups_by_category() {
    let e1 = BotError::Syntax { found: Some(s("x")), expected: None, note: Some(s("n")) };
    let e2 = BotError::Backend { code: Some(404), source: s("gone") };
    let e3 = BotError::FileSystem { content: s("disk") };
    assert_eq!(e1.render(), "找到：x\n期望：<NULL>\n注释：n");
    assert_eq!(e2.render(), "返回码：404 Not Found\n返回内容：gone");
    assert_eq!(BotError::Backend { code: None, source: s("s") }.render(), "返回码：<UNREACHABLE>\n返回内容：s");
    assert_eq!(BotError::Backend { code: Some(799), source: s("s") }.render(), "返回码：799 <unknown status code>\n返回内容：s");
    let g = BotErrorGroup::with(vec![e2.clone(), e1.clone(), e3.clone()]);
    let expected = format!(
        "机器人错误：\n----------\n语法错误：\n----------\n{}\n----------\n{}\n----------\n后端错误：\n----------\n{}",
        e1.render(),
        e3.render(),
        e2.render()
    );
    assert_eq!(g.render(), expected);
    assert_eq!(BotErrorGroup::new().render(), "机器人错误：\n----------\n");
}

#[test]
fn group_push_and_append() {
    let mut g = BotErrorGroup::new();
    assert!(g.is_empty());
    g.push(BotError::FileSystem { content: s("a") });
    let mut h = BotErrorGroup::new();
    h.push(BotError::FileSystem { content: s("b") });
    g.append(h);
    assert_eq!(
        g.into_inner(),
        vec![BotError::FileSystem { content: s("a") }, BotError::FileSystem { content: s("b") }]
    );
}

#[test]
fn typed_getters() {
    let sy = schema(
        vec![pos("a", ArgType::AnyText), pos("f", ArgType::Float)],
        vec![named("b", ArgType::Boolean, Some(ArgValue::Boolean(true)), &[])],
    );
    let r = sy.parse(&vec![text("x"), text("2.5")], 0).unwrap();
    assert_eq!(r.text_arg(&sy, "a"), Some(s("x")));
    assert_eq!(r.float_arg(&sy, "f"), Some(s("2.5")));
    assert_eq!(r.bool_arg(&sy, "b"), Some(true));
    assert_eq!(r.int_arg(&sy, "a"), None);
    assert_eq!(r.text_arg(&sy, "none"), None);
}

#[test]
fn command_records_from_arguments() {
    let sy = schema(
        vec![pos("type_name", ArgType::AnyText)],
        vec![
            named("pattern", ArgType::AnyText, Some(ArgValue::AnyText(s("a"))), &["p"]),
            named("server", ArgType::AnyText, Some(ArgValue::AnyText(s("se"))), &[]),
        ],
    );
    let r = sy.parse(&vec![text("三钛合金"), text("p"), text("f")], 0).unwrap();
    let j = JitaPrice::from_args(&sy, &r).unwrap();
    assert_eq!((j.item_name.as_str(), j.pattern.as_str(), j.server.as_str()), ("三钛合金", "f", "se"));
    assert!(TypeFetchId::from_args(&sy, &r).is_none());
    let id_schema = schema(vec![pos("type_id", ArgType::Int)], vec![]);
    let r = id_schema.parse(&vec![text("34")], 0).unwrap();
    assert_eq!(TypeFetchId::from_args(&id_schema, &r).unwrap().type_id, 34);
}

#[test]
fn token_texts() {
    assert_eq!(text("ab").render(), "Text[ab]");
    assert_eq!(ParamItem::At(12).render(), "@12");
    assert_eq!(text("ab").debug_text(), "Text(\"ab\")");
    assert_eq!(ParamItem::At(12).debug_text(), "At(12)");
}
