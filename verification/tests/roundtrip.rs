use serde_json::Value;
use timesheet::timesheet::{Timesheet, TimesheetEntry};

fn to_json(store: &Timesheet) -> String {
    let mut entries = Vec::new();
    for e in store.entries() {
        let mut fields = serde_json::Map::new();
        fields.insert("time_in".to_string(), Value::String(e.time_in.clone()));
        fields.insert("time_out".to_string(), Value::String(e.time_out.clone()));
        fields.insert("message".to_string(), Value::String(e.message.clone()));
        entries.push(Value::Object(fields));
    }
    let mut root = serde_json::Map::new();
    root.insert("entries".to_string(), Value::Array(entries));
    serde_json::to_string_pretty(&Value::Object(root)).unwrap()
}

fn from_json(text: &str) -> Timesheet {
    let root: Value = serde_json::from_str(text).unwrap();
    let mut entries = Vec::new();
    for e in root["entries"].as_array().unwrap() {
        entries.push(TimesheetEntry {
            time_in: e["time_in"].as_str().unwrap().to_string(),
            time_out: e["time_out"].as_str().unwrap().to_string(),
            message: e["message"].as_str().unwrap().to_string(),
        });
    }
    Timesheet::from_entries(entries)
}

#[test]
fn store_survives_json_round_trip() {
    let mut store = Timesheet::new();
    store.clock_in_at("2024-01-01T10:00:00+00:00", &"first \"quoted\"".to_string());
    store.clock_out_at("2024-01-01T11:00:00+00:00", &"done".to_string());
    store.clock_in_at("2024-01-02T10:00:00+00:00", &String::new());
    let again = from_json(&to_json(&store));
    assert_eq!(again, store);
    assert_eq!(again.entries().len(), 2);
}

#[test]
fn empty_store_survives_json_round_trip() {
    let store = Timesheet::new();
    assert_eq!(from_json(&to_json(&store)), store);
}
