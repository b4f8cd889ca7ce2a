use hocon::{Hocon, HoconLoader};
use hoconvert::{Converter, Error, IntermediateValue, Output, SourceValue};

fn to_source(hocon: Hocon) -> SourceValue {
  match hocon {
    Hocon::Boolean(b) => SourceValue::Boolean(b),
    Hocon::Integer(i) => SourceValue::Integer(i),
    Hocon::Real(f) => SourceValue::Real(f.to_bits()),
    Hocon::String(s) => SourceValue::String(s),
    Hocon::Array(items) => SourceValue::Array(items.into_iter().map(to_source).collect()),
    Hocon::Hash(map) => SourceValue::Object(map.into_iter().map(|(k, v)| (k, to_source(v))).collect()),
    Hocon::Null => SourceValue::Null,
    Hocon::BadValue(e) => SourceValue::BadValue(e.to_string()),
  }
}

fn to_json(value: IntermediateValue) -> serde_json::Value {
  match value {
    IntermediateValue::Bool(b) => serde_json::Value::Bool(b),
    IntermediateValue::Int(i) => serde_json::Value::Number(serde_json::Number::from(i)),
    IntermediateValue::Float(bits) => serde_json::Value::Number(serde_json::Number::from_f64(f64::from_bits(bits)).unwrap()),
    IntermediateValue::String(s) => serde_json::Value::String(s),
    IntermediateValue::Array(items) => serde_json::Value::Array(items.into_iter().map(to_json).collect()),
    IntermediateValue::Object(entries) => {
      serde_json::Value::Object(entries.into_iter().map(|(k, v)| (k, to_json(v))).collect())
    }
    IntermediateValue::Null => serde_json::Value::Null,
  }
}

fn parse(text: &str) -> Result<SourceValue, Error> {
  HoconLoader::new()
    .load_str(text)
    .and_then(|l| l.hocon())
    .map(to_source)
    .map_err(|e| Error::Parse { message: e.to_string() })
}

fn convert(text: &str, output: Output) -> Result<String, Error> {
  let value = Converter::run(&parse(text)?, output)?;
  let json = to_json(value);
  let encoded = match output {
    Output::Json => serde_json::to_string_pretty(&json).map_err(|e| e.to_string()),
    Output::Yaml => serde_yaml::to_string(&json).map_err(|e| e.to_string()),
    Output::Toml => toml::to_string(&json).map_err(|e| e.to_string()),
  };
  encoded.map_err(|message| Error::Encoding { message })
}

fn raw_json(text: &str) -> String {
  let hocon = parse(text).unwrap();
  let json = Converter::hocon_to_raw_json(&hocon).unwrap();
  serde_json::to_string(&to_json(json)).unwrap()
}

#[test]
fn empty_hocon_when_convert_empty_json() {
  assert_eq!("{}", raw_json(""))
}

#[test]
fn simple_key_value_hocon_when_convert_reflected_in_json() {
  assert_eq!(r#"{"foo":"bar"}"#, raw_json(r#"foo = bar"#))
}

#[test]
fn hocon_object_when_convert_reflected_in_json() {
  assert_eq!(r#"{"foo":{"key":"bar"}}"#, raw_json(r#"{ foo = { key = bar } }"#))
}

#[test]
fn nested_hocon_object_when_convert_reflected_in_json() {
  assert_eq!(r#"{"foo":{"nested":{"key":"bar"}}}"#, raw_json(r#"{ foo = { nested = { key = bar } } }"#))
}

#[test]
fn malformed_hocon_when_convert_returns_parse_error() {
  let parse_error = HoconLoader::new().load_str(r#"{ foo = { nested = { key = bar"#).expect_err("This should fail");
  assert_eq!(parse_error, hocon::Error::Parse)
}

#[test]
fn given_empty_hocon_when_convert_then_empty_json() {
  assert!(convert("{}", Output::Json).unwrap().contains("{}"));
}

#[test]
fn given_empty_string_when_convert_then_empty_json() {
  assert!(convert("", Output::Json).unwrap().contains("{}"));
}

#[test]
fn given_simple_key_value_when_convert_then_simple_json_object() {
  let expected: serde_json::Value = serde_json::from_str("{\n  \"foo\": \"bar\"\n}").unwrap();
  let text = convert("foo = bar", Output::Json).unwrap();
  assert_eq!(text, "{\n  \"foo\": \"bar\"\n}");
  let parsed: serde_json::Value = serde_json::from_str(&text).unwrap();
  assert_eq!(parsed, expected)
}

#[test]
fn given_a_hocon_object_when_convert_then_reflected_in_json_object() {
  let expected: serde_json::Value = serde_json::from_str(
    r#"
        {
          "foo": {
            "key": "bar"
          }
        }"#,
  )
  .unwrap();
  let parsed: serde_json::Value = serde_json::from_str(&convert("{ foo = { key = bar } }", Output::Json).unwrap()).unwrap();
  assert_eq!(parsed, expected)
}

#[test]
fn given_a_nested_hocon_object_when_convert_then_reflected_in_json_object() {
  let expected: serde_json::Value = serde_json::from_str(
    r#"
        {
          "foo": {
            "nested": {
              "key": "bar"
            }
          }
        }"#,
  )
  .unwrap();
  let text = convert("{ foo = { nested = { key = bar } } }", Output::Json).unwrap();
  let parsed: serde_json::Value = serde_json::from_str(&text).unwrap();
  assert_eq!(parsed, expected)
}

#[test]
fn json_feature_given_a_malformed_hocon_when_convert_then_error() {
  let e = convert("{ foo = { nested = { key = bar ", Output::Json).unwrap_err();
  assert_eq!(e.message(), hocon::Error::Parse.to_string());
  assert!(matches!(e, Error::Parse { .. }));
}

#[test]
fn json_feature_given_a_key_without_value_when_convert_then_error() {
  let e = convert("{ foo = }", Output::Json).unwrap_err();
  assert!(matches!(e, Error::Parse { .. }));
}

#[test]
fn given_empty_hocon_when_convert_then_empty_toml() {
  assert!(convert("{}", Output::Toml).unwrap().trim().is_empty());
}

#[test]
fn given_simple_key_value_when_convert_then_simple_toml() {
  let expected: toml::Value = toml::from_str(r#"foo = "bar""#).unwrap();
  let text = convert("foo = bar", Output::Toml).unwrap();
  assert!(text.contains("foo = \"bar"));
  let parsed: toml::Value = toml::from_str(&text).unwrap();
  assert_eq!(parsed, expected)
}

#[test]
fn given_a_hocon_object_when_convert_then_reflected_in_toml() {
  let expected: toml::Value = toml::from_str("\n        [foo]\n        key = \"bar\"\n        ").unwrap();
  let text = convert("{ foo = { key = bar } }", Output::Toml).unwrap();
  assert_eq!(text.trim(), "[foo]\nkey = \"bar\"");
  let parsed: toml::Value = toml::from_str(&text).unwrap();
  assert_eq!(parsed, expected)
}

#[test]
fn given_a_nested_hocon_object_when_convert_then_reflected_in_toml() {
  let expected: toml::Value = toml::from_str("\n        [foo.nested]\n        key = \"bar\"\n        ").unwrap();
  let text = convert("{ foo = { nested = { key = bar } } }", Output::Toml).unwrap();
  assert!(text.contains("[foo.nested]"));
  let parsed: toml::Value = toml::from_str(&text).unwrap();
  assert_eq!(parsed, expected)
}

#[test]
fn toml_feature_given_a_malformed_hocon_when_convert_then_error() {
  let e = convert("{ foo = { nested = { key = bar ", Output::Toml).unwrap_err();
  assert!(matches!(e, Error::Parse { .. }));
}

#[test]
fn given_empty_hocon_when_convert_then_empty_yaml() {
  assert!(convert("{}", Output::Yaml).unwrap().contains("{}"));
}

#[test]
fn given_empty_string_when_convert_then_empty_yaml() {
  assert!(convert("", Output::Yaml).unwrap().contains("{}"));
}

#[test]
fn given_simple_key_value_when_convert_then_simple_yaml_object() {
  let expected: serde_yaml::Value = serde_yaml::from_str(r#"foo: "bar""#).unwrap();
  let text = convert("foo = bar", Output::Yaml).unwrap();
  let parsed: serde_yaml::Value = serde_yaml::from_str(&text).unwrap();
  assert_eq!(parsed, expected)
}

#[test]
fn given_a_hocon_object_when_convert_then_reflected_in_yaml_object() {
  let expected: serde_yaml::Value = serde_yaml::from_str("\n        foo: \n          key: \"bar\"\n        ").unwrap();
  let text = convert("{ foo = { key = bar } }", Output::Yaml).unwrap();
  let parsed: serde_yaml::Value = serde_yaml::from_str(&text).unwrap();
  assert_eq!(parsed, expected)
}

#[test]
fn given_a_nested_hocon_object_when_convert_then_reflected_in_yaml_object() {
  let expected: serde_yaml::Value =
    serde_yaml::from_str("\n        foo:\n          nested:\n            key: \"bar\"\n        ").unwrap();
  let text = convert("{ foo = { nested = { key = bar } } }", Output::Yaml).unwrap();
  let parsed: serde_yaml::Value = serde_yaml::from_str(&text).unwrap();
  assert_eq!(parsed, expected)
}

#[test]
fn yaml_feature_given_a_malformed_hocon_when_convert_then_error() {
  let e = convert("{ foo = { nested = { key = bar ", Output::Yaml).unwrap_err();
  assert!(matches!(e, Error::Parse { .. }));
}

#[test]
fn yaml_feature_given_a_key_without_value_when_convert_then_error() {
  let e = convert("{ foo = }", Output::Yaml).unwrap_err();
  assert!(matches!(e, Error::Parse { .. }));
}

#[test]
fn key_order_is_kept_through_json() {
  let text = convert("{ b = 1, a = 2 }", Output::Json).unwrap();
  let b = text.find("\"b\"").unwrap();
  let a = text.find("\"a\"").unwrap();
  assert!(b < a);
}

#[test]
fn key_order_is_kept_through_yaml() {
  let text = convert("{ b = 1, a = 2 }", Output::Yaml).unwrap();
  assert_eq!(text, "b: 1\na: 2\n");
}

#[test]
fn finite_reals_survive_json_and_yaml() {
  for x in [0.1f64, -2.5e-300, 1.7976931348623157e308, 3.0, 5e-324] {
    let source = SourceValue::Object(vec![("x".to_string(), SourceValue::Real(x.to_bits()))]);
    let value = Converter::run(&source, Output::Json).unwrap();
    let json = serde_json::to_string_pretty(&to_json(value)).unwrap();
    let back: serde_json::Value = serde_json::from_str(&json).unwrap();
    assert_eq!(back["x"].as_f64().unwrap().to_bits(), x.to_bits());

    let value = Converter::run(&source, Output::Yaml).unwrap();
    let yaml = serde_yaml::to_string(&to_json(value)).unwrap();
    let back: serde_yaml::Value = serde_yaml::from_str(&yaml).unwrap();
    assert_eq!(back["x"].as_f64().unwrap().to_bits(), x.to_bits());
  }
}

#[test]
fn reals_from_text_map_to_their_bits() {
  let source = parse("x = 1.5").unwrap();
  match Converter::hocon_to_raw_json(&source).unwrap() {
    IntermediateValue::Object(entries) => match &entries[0].1 {
      IntermediateValue::Float(bits) => assert_eq!(*bits, 1.5f64.to_bits()),
      other => panic!("unexpected {:?}", other),
    },
    other => panic!("unexpected {:?}", other),
  }
}

#[test]
fn unresolved_substitution_is_reported() {
  let source = parse("{ a = ${missing} }").unwrap();
  let e = Converter::run(&source, Output::Json).unwrap_err();
  assert!(matches!(e, Error::Unresolved { .. }));
}
