use evebot::message::{MessageData, MessagePart};
use evebot::token::{tokenize, MessageIter, ParamItem, Segment};
use serde_json::Value;
use evebot::token::ParamItem::{At, Text};

fn part(kind: &str, key: &str, value: Value) -> MessagePart {
    MessagePart {
        kind: Some(kind.to_string()),
        qq: if key == "qq" { value.as_u64() } else { None },
        text: if key == "text" { value.as_str().map(String::from) } else { None },
    }
}

fn text(s: &str) -> ParamItem {
    ParamItem::Text(s.to_string())
}

fn words(s: &str) -> Vec<ParamItem> {
    tokenize(vec![Segment::Text(s.to_string())])
}

#[test]
fn test_msg_iter() {
    let parts = Some(vec![
        part("at", "qq", Value::from(123456u64)),
        part("text", "text", Value::String("  早上好啊 13 (1a  nd}[[c）123".to_string())),
        part("at", "qq", Value::from(123777u64)),
    ]);
    for message in MessageData(parts.clone()).into_messages().unwrap().into_tokens() {
        println!("{:?}", message);
    }
    assert_eq!(
        MessageData(parts).into_messages().unwrap().into_tokens(),
        vec![
            At(123456),
            Text("早上好啊".into()),
            Text("13".into()),
            Text("1a  nd}[[c".into()),
            Text("123".into()),
            At(123777)
        ]
    )
}

#[test]
fn plain_text_splits_on_whitespace() {
    assert_eq!(words("  a  bc\td\r\ne  "), vec![text("a"), text("bc"), text("d"), text("e")]);
    assert_eq!(words("13 x"), vec![text("13"), text("x")]);
    assert_eq!(words("x"), vec![text("x")]);
    assert_eq!(words(""), vec![]);
    assert_eq!(words(" \t\r\n "), vec![]);
}

#[test]
fn bracket_content_is_one_token() {
    assert_eq!(words("(1a  nd}[[c）123"), vec![text("1a  nd}[[c"), text("123")]);
    assert_eq!(words("{a b} [c d] 【e f】 ｛g｝"), vec![text("a b"), text("c d"), text("e f"), text("g")]);
}

#[test]
fn only_the_same_bracket_kind_closes() {
    assert_eq!(words("((a) b)"), vec![text("(a"), text("b)")]);
    assert_eq!(words("[x)】y"), vec![text("x)"), text("y")]);
}

#[test]
fn an_opening_bracket_ends_a_run() {
    assert_eq!(words("ab(c d)ef"), vec![text("ab"), text("c d"), text("ef")]);
    assert_eq!(words("a}b"), vec![text("a}b")]);
}

#[test]
fn unterminated_bracket_keeps_what_it_holds() {
    assert_eq!(words("x (abc  d"), vec![text("x"), text("abc  d")]);
    assert_eq!(words("x ("), vec![text("x"), text("")]);
    assert_eq!(words("()"), vec![text("")]);
}

#[test]
fn mention_is_one_token_between_texts() {
    let toks = tokenize(vec![
        Segment::Text("a b".to_string()),
        Segment::Mention(5),
        Segment::Text("c".to_string()),
        Segment::Mention(6),
    ]);
    assert_eq!(toks, vec![text("a"), text("b"), ParamItem::At(5), text("c"), ParamItem::At(6)]);
}

#[test]
fn stream_gives_tokens_one_by_one() {
    let mut it = MessageIter::new(vec![
        Segment::Text("  ".to_string()),
        Segment::Text("p q".to_string()),
        Segment::Mention(9),
    ]);
    assert_eq!(it.next(), Some(text("p")));
    assert_eq!(it.next(), Some(text("q")));
    assert_eq!(it.next(), Some(ParamItem::At(9)));
    assert_eq!(it.next(), None);
    assert_eq!(it.next(), None);
}

#[test]
fn unknown_and_malformed_parts_are_skipped() {
    let msg = Some(vec![
        part("image", "file", Value::String("x.png".to_string())),
        part("text", "text", Value::String("eve".to_string())),
        part("at", "qq", Value::String("not a number".to_string())),
        part("face", "id", Value::from(3u64)),
        part("at", "qq", Value::from(7u64)),
    ]);
    let toks = MessageData(msg).into_messages().unwrap().into_tokens();
    assert_eq!(toks, vec![text("eve"), ParamItem::At(7)]);
    assert!(MessageData(None).into_messages().is_none());
    let untyped = MessagePart { kind: None, qq: Some(1), text: Some("t".to_string()) };
    let toks = MessageData(Some(vec![untyped, part("at", "qq", Value::from(8u64))])).into_messages().unwrap().into_tokens();
    assert_eq!(toks, vec![ParamItem::At(8)]);
}

#[test]
fn unknown_part_between_others_is_skipped() {
    let a = part("text", "text", Value::String("x y".to_string()));
    let unknown = part("image", "file", Value::String("p.png".to_string()));
    let b = part("at", "qq", Value::from(3u64));
    let toks = MessageData(Some(vec![a, unknown, b])).into_messages().unwrap().into_tokens();
    assert_eq!(toks, vec![text("x"), text("y"), ParamItem::At(3)]);
}
