use filedrop::metadata::MetadataRecord;
use serde_json::Value;

fn samples() -> Vec<String> {
    let mut all_low = String::new();
    for code in 0u32..0x21 {
        all_low.push(char::from_u32(code).unwrap());
    }
    vec![
        String::new(),
        "Ann".to_string(),
        "a@x.com".to_string(),
        "say \"hi\"".to_string(),
        "back\\slash \\\" \\n".to_string(),
        "line\nbreak\ttab\rreturn".to_string(),
        all_low,
        "\u{7f}\u{80}\u{ff}".to_string(),
        "Zoë 名前 😀 \u{10FFFF}".to_string(),
        "</div><script>".to_string(),
        "{\"name\":\"x\"}".to_string(),
    ]
}

fn quoted(s: &str) -> String {
    serde_json::to_string(s).unwrap()
}

#[test]
fn text_form_is_what_serde_json_writes_for_each_string() {
    for name in samples() {
        for phone in samples() {
            let email = "e\"m";
            let record = MetadataRecord::new(name.clone(), email.to_string(), phone.clone());
            let expected = format!(
                "{{\"name\":{},\"email\":{},\"phone\":{}}}",
                quoted(&name),
                quoted(email),
                quoted(&phone)
            );
            assert_eq!(record.to_json(), expected);
        }
    }
}

#[test]
fn serde_json_reads_the_text_form_back() {
    for name in samples() {
        for email in samples() {
            let record = MetadataRecord::new(name.clone(), email.clone(), "555".to_string());
            let value: Value = serde_json::from_str(&record.to_json()).unwrap();
            let object = value.as_object().unwrap();
            assert_eq!(object.len(), 3);
            assert_eq!(object.get("name").unwrap().as_str().unwrap(), name);
            assert_eq!(object.get("email").unwrap().as_str().unwrap(), email);
            assert_eq!(object.get("phone").unwrap().as_str().unwrap(), "555");
        }
    }
}

#[test]
fn reads_what_serde_json_writes() {
    for name in samples() {
        for email in samples() {
            let mut object = serde_json::Map::new();
            object.insert("name".to_string(), Value::String(name.clone()));
            object.insert("email".to_string(), Value::String(email.clone()));
            object.insert("phone".to_string(), Value::String("555".to_string()));
            let value = Value::Object(object);
            let expected =
                Ok(MetadataRecord::new(name.clone(), email.clone(), "555".to_string()));
            let compact = serde_json::to_string(&value).unwrap();
            assert_eq!(MetadataRecord::from_json(&compact), expected);
            let pretty = serde_json::to_string_pretty(&value).unwrap();
            assert_eq!(MetadataRecord::from_json(&pretty), expected);
        }
    }
}
