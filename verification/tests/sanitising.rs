use serde_json::Value;
use uav_realtime::json_tree::{clean_json_value, JsonTree};

fn tree(value: Value) -> JsonTree {
    match value {
        Value::Null => JsonTree::Null,
        Value::Bool(flag) => JsonTree::Bool(flag),
        Value::Number(number) => JsonTree::Number(number.to_string()),
        Value::String(text) => JsonTree::Text(text),
        Value::Array(items) => JsonTree::Array(items.into_iter().map(tree).collect()),
        Value::Object(map) => {
            JsonTree::Object(map.into_iter().map(|(key, inner)| (key, tree(inner))).collect())
        }
    }
}

fn parsed(text: &str) -> JsonTree {
    tree(serde_json::from_str(text).unwrap())
}

fn walked(value: Value) -> Value {
    match value {
        Value::String(s) => Value::String(
            s.chars()
                .filter(|c| !c.is_control() || *c == '\n' || *c == '\r' || *c == '\t')
                .collect::<String>()
                .replace("\\u0000", "")
                .replace("\\u000e", "")
                .replace("\\u001f", "")
                .replace("\\u007f", "")
                .replace("\\u0001", "")
                .replace("\\u0002", "")
                .replace("\\u0003", "")
                .replace("\\u0004", "")
                .replace("\\u0005", "")
                .replace("\\u0006", "")
                .replace("\\u0007", "")
                .replace("\\u0008", "")
                .replace("\\u000b", "")
                .replace("\\u000c", "")
                .replace("\\u000f", ""),
        ),
        Value::Object(map) => Value::Object(map.into_iter().map(|(k, v)| (k, walked(v))).collect()),
        Value::Array(items) => Value::Array(items.into_iter().map(walked).collect()),
        other => other,
    }
}

#[test]
fn scalars_but_text_stay_as_they_are() {
    assert_eq!(clean_json_value(JsonTree::Null), JsonTree::Null);
    assert_eq!(clean_json_value(JsonTree::Bool(true)), JsonTree::Bool(true));
    assert_eq!(
        clean_json_value(JsonTree::Number("1.23".to_string())),
        JsonTree::Number("1.23".to_string())
    );
}

#[test]
fn a_text_is_cleaned() {
    assert_eq!(
        clean_json_value(JsonTree::Text("a\u{1}b\\u0000c\n".to_string())),
        JsonTree::Text("abc\n".to_string())
    );
}

#[test]
fn texts_are_cleaned_at_any_depth() {
    let value = JsonTree::Object(vec![
        ("k\u{1}".to_string(), JsonTree::Text("v\u{1}".to_string())),
        (
            "list".to_string(),
            JsonTree::Array(vec![
                JsonTree::Text("x\u{7f}".to_string()),
                JsonTree::Number("7".to_string()),
                JsonTree::Object(vec![("deep".to_string(), JsonTree::Text("\u{0}y".to_string()))]),
                JsonTree::Array(vec![]),
            ]),
        ),
        ("none".to_string(), JsonTree::Null),
    ]);
    let expected = JsonTree::Object(vec![
        ("k\u{1}".to_string(), JsonTree::Text("v".to_string())),
        (
            "list".to_string(),
            JsonTree::Array(vec![
                JsonTree::Text("x".to_string()),
                JsonTree::Number("7".to_string()),
                JsonTree::Object(vec![("deep".to_string(), JsonTree::Text("y".to_string()))]),
                JsonTree::Array(vec![]),
            ]),
        ),
        ("none".to_string(), JsonTree::Null),
    ]);
    assert_eq!(clean_json_value(value), expected);
}

#[test]
fn the_walk_agrees_with_one_over_parsed_json() {
    let texts = [
        "{\"a\":\"x\\u0001y\",\"b\":[\"\\u0010\",{\"c\":\"\\\\u0000z\"},1.5,true,null]}",
        "\"plain\"",
        "[]",
        "{}",
        "[[[\"\\u007f\"]]]",
        "{\"n\":-12,\"e\":1e3,\"t\":\"tab\\tkept\"}",
    ];
    for text in texts {
        let value: Value = serde_json::from_str(text).unwrap();
        assert_eq!(clean_json_value(tree(value.clone())), tree(walked(value)));
    }
    assert_eq!(clean_json_value(parsed("[\"\\u0002\"]")), JsonTree::Array(vec![JsonTree::Text(String::new())]));
}
