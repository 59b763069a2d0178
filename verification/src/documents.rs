//! Which documents the client has open, so that a second `didOpen` of an open document does
//! not reach the upstream as an open: it becomes a full-text `didChange`.

use vstd::prelude::*;
use vstd::string::StringSliceAdditionalSpecFns;

use crate::framing::RawMessage;
use crate::json::{Json, JsonModel, append_bytes, get, json_parse, json_print, member, parse_json, text_field, text_member, to_json_bytes};
use crate::text_map::TextSet;

verus! {

/// The start of the rewritten notification, up to the uri.
pub const CHANGE_PREFIX: &'static str = "{\"jsonrpc\":\"2.0\",\"method\":\"textDocument/didChange\",\"params\":{\"textDocument\":{\"uri\":";

/// Between the uri and the version.
pub const CHANGE_VERSION: &'static str = ",\"version\":";

/// Between the version and the text.
pub const CHANGE_TEXT: &'static str = "},\"contentChanges\":[{\"text\":";

/// The end of the rewritten notification.
pub const CHANGE_END: &'static str = "}]}}";

/// A `didOpen` read as `{params: {textDocument: {uri: string, version: any, text: any}}}`.
pub open spec fn did_open_of(body: Option<JsonModel>) -> Option<(Seq<char>, JsonModel, JsonModel)> {
    match body {
        Some(root) => match member(root, "params"@) {
            Some(p) => match member(p, "textDocument"@) {
                Some(d) => match (text_field(d, "uri"@), member(d, "version"@), member(d, "text"@)) {
                    (Some(u), Some(v), Some(t)) => Some((u, v, t)),
                    _ => None,
                },
                None => None,
            },
            None => None,
        },
        None => None,
    }
}

/// A `didClose` read as `{params: {textDocument: {uri: string}}}`.
pub open spec fn did_close_of(body: Option<JsonModel>) -> Option<Seq<char>> {
    match body {
        Some(root) => match member(root, "params"@) {
            Some(p) => match member(p, "textDocument"@) {
                Some(d) => text_field(d, "uri"@),
                None => None,
            },
            None => None,
        },
        None => None,
    }
}

/// The full-text `didChange` a repeated `didOpen` becomes: the same uri, version and text.
pub open spec fn change_body(uri: Seq<char>, version: JsonModel, text: JsonModel) -> Seq<u8> {
    CHANGE_PREFIX.spec_bytes() + json_print(JsonModel::String(uri)) + CHANGE_VERSION.spec_bytes() + json_print(version)
        + CHANGE_TEXT.spec_bytes() + json_print(text) + CHANGE_END.spec_bytes()
}

/// The documents the client has open, by uri.
pub struct OpenDocuments {
    uris: TextSet,
}

impl View for OpenDocuments {
    type V = Set<Seq<char>>;

    closed spec fn view(&self) -> Set<Seq<char>> {
        self.uris@
    }
}

impl OpenDocuments {
    /// Each uri is held once.
    pub closed spec fn well_formed(&self) -> bool {
        self.uris.well_formed()
    }

    /// No document open.
    pub fn new() -> (r: Self)
        ensures
            r.well_formed(),
            r@ == Set::<Seq<char>>::empty(),
    {
        OpenDocuments { uris: TextSet::new() }
    }

    /// The client opened a document. The first open passes as it is (`None`); an open of a
    /// document already open becomes a full-text `didChange` with the same version and text.
    /// A body that does not read passes as it is.
    pub fn on_did_open(&mut self, body: &[u8]) -> (r: Option<RawMessage>)
        requires
            old(self).well_formed(),
        ensures
            final(self).well_formed(),
            match did_open_of(json_parse(body@)) {
                Some((uri, version, text)) => final(self)@ == old(self)@.insert(uri) && if old(self)@.contains(uri) {
                    r matches Some(m) && m.body@ == change_body(uri, version, text)
                } else {
                    r is None
                },
                None => final(self)@ == old(self)@ && r is None,
            },
    {
        let root = match parse_json(body) {
            Some(j) => j,
            None => return None,
        };
        let d = match get(&root, "params") {
            Some(p) => match get(p, "textDocument") {
                Some(d) => d,
                None => return None,
            },
            None => return None,
        };
        let uri = match text_member(d, "uri") {
            Some(u) => u,
            None => return None,
        };
        let version = match get(d, "version") {
            Some(v) => v,
            None => return None,
        };
        let text = match get(d, "text") {
            Some(t) => t,
            None => return None,
        };
        let ghost before = self@;
        if self.uris.contains(uri.as_str()) {
            let quoted = Json::String(uri.clone());
            let mut out: Vec<u8> = Vec::new();
            append_bytes(&mut out, CHANGE_PREFIX.as_bytes());
            append_bytes(&mut out, to_json_bytes(&quoted).as_slice());
            append_bytes(&mut out, CHANGE_VERSION.as_bytes());
            append_bytes(&mut out, to_json_bytes(version).as_slice());
            append_bytes(&mut out, CHANGE_TEXT.as_bytes());
            append_bytes(&mut out, to_json_bytes(text).as_slice());
            append_bytes(&mut out, CHANGE_END.as_bytes());
            assert(before.insert(uri@) =~= before);
            Some(RawMessage { body: out })
        } else {
            self.uris.insert(uri.clone());
            None
        }
    }

    /// The client closed a document: it is no longer open.
    pub fn on_did_close(&mut self, body: &[u8])
        requires
            old(self).well_formed(),
        ensures
            final(self).well_formed(),
            final(self)@ == match did_close_of(json_parse(body@)) {
                Some(uri) => old(self)@.remove(uri),
                None => old(self)@,
            },
    {
        let root = match parse_json(body) {
            Some(j) => j,
            None => return,
        };
        if let Some(p) = get(&root, "params") {
            if let Some(d) = get(p, "textDocument") {
                if let Some(u) = text_member(d, "uri") {
                    self.uris.remove(u.as_str());
                }
            }
        }
    }
}

} // verus!
