use lsp_det::documents::OpenDocuments;

fn did_open(uri: &str, version: u32, text: &str) -> Vec<u8> {
    let uri = serde_json::Value::String(uri.to_string());
    let text = serde_json::Value::String(text.to_string());
    format!(
        r#"{{"jsonrpc":"2.0","method":"textDocument/didOpen","params":{{"textDocument":{{"uri":{uri},"languageId":"rust","version":{version},"text":{text}}}}}}}"#
    )
    .into_bytes()
}

#[test]
fn the_first_open_passes_and_the_second_becomes_a_full_text_change() {
    let mut docs = OpenDocuments::new();
    assert!(
        docs.on_did_open(&did_open("file:///w/a.rs", 1, "fn a() {}\n"))
            .is_none()
    );
    let rewritten = docs
        .on_did_open(&did_open("file:///w/a.rs", 1, "fn a() {}\nfn b() {}\n"))
        .expect("the second time is rewritten");
    let value: serde_json::Value = serde_json::from_slice(&rewritten.body).unwrap();
    assert_eq!(value["method"], "textDocument/didChange");
    assert_eq!(value["params"]["textDocument"]["uri"], "file:///w/a.rs");
    assert_eq!(value["params"]["textDocument"]["version"], 1);
    assert_eq!(
        value["params"]["contentChanges"],
        serde_json::from_str::<serde_json::Value>(r#"[{"text": "fn a() {}\nfn b() {}\n"}]"#).unwrap()
    );
}

#[test]
fn reopening_after_close_is_a_real_open() {
    let mut docs = OpenDocuments::new();
    assert!(
        docs.on_did_open(&did_open("file:///w/a.rs", 1, ""))
            .is_none()
    );
    docs.on_did_close(
        br#"{"jsonrpc":"2.0","method":"textDocument/didClose","params":{"textDocument":{"uri":"file:///w/a.rs"}}}"#,
    );
    assert!(
        docs.on_did_open(&did_open("file:///w/a.rs", 2, ""))
            .is_none()
    );
}

#[test]
fn keeps_escapes_in_the_text_verbatim() {
    let mut docs = OpenDocuments::new();
    docs.on_did_open(&did_open("file:///w/a.rs", 1, ""));
    let body = r#"{"jsonrpc":"2.0","method":"textDocument/didOpen","params":{"textDocument":{"uri":"file:///w/a.rs","languageId":"rust","version":2,"text":"aé\n\"q\""}}}"#;
    let rewritten = docs.on_did_open(body.as_bytes()).unwrap();
    let text = String::from_utf8(rewritten.body).unwrap();
    assert!(text.contains(r#""contentChanges":[{"text":"aé\n\"q\""}]"#));
}
