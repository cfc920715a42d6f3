//! The demo's document store: rename, publish, archive and bulk delete by
//! status over an in-memory document list, with the dry-run previews that
//! share each action's predicate.

use vstd::prelude::*;

use crate::envelope::{strs_view, DryRunPreview, PreviewV};
use crate::error::HandlerError;
use crate::host::{error_reply, object_field, HostResponse};
use crate::json::{array_view, entries_insert, entry_get, json_view, map_view, Json, JsonMap, JsonV};
use crate::text::{concat3, str_eq};

verus! {

/// The demo principal: everyone may do everything.
#[derive(Debug)]
pub struct DemoUser {
    pub name: String,
}

/// A document's publication state.
#[derive(Debug, Clone, Copy, PartialEq, Eq, Structural)]
pub enum DocStatus {
    Draft,
    Published,
    Archived,
}

/// The status a request names (`"draft"`, `"published"`, `"archived"`).
pub open spec fn status_named(v: Seq<char>) -> Option<DocStatus> {
    if v == "draft"@ {
        Some(DocStatus::Draft)
    } else if v == "published"@ {
        Some(DocStatus::Published)
    } else if v == "archived"@ {
        Some(DocStatus::Archived)
    } else {
        None
    }
}

/// A status as its result text (the variant's name).
pub open spec fn status_text(s: DocStatus) -> Seq<char> {
    match s {
        DocStatus::Draft => "Draft"@,
        DocStatus::Published => "Published"@,
        DocStatus::Archived => "Archived"@,
    }
}

impl DocStatus {
    /// Parses a request's status name.
    pub fn parse(value: &str) -> (r: Option<DocStatus>)
        ensures
            r == status_named(value@),
    {
        if str_eq(value, "draft") {
            Some(DocStatus::Draft)
        } else if str_eq(value, "published") {
            Some(DocStatus::Published)
        } else if str_eq(value, "archived") {
            Some(DocStatus::Archived)
        } else {
            None
        }
    }

    /// The status's name, as results report it.
    pub fn text(&self) -> (s: &'static str)
        ensures
            s@ == status_text(*self),
    {
        match self {
            DocStatus::Draft => "Draft",
            DocStatus::Published => "Published",
            DocStatus::Archived => "Archived",
        }
    }
}

/// One stored document.
#[derive(Debug)]
pub struct Document {
    pub id: String,
    pub title: String,
    pub status: DocStatus,
}

/// Model of a [`Document`].
pub struct DocV {
    pub id: Seq<char>,
    pub title: Seq<char>,
    pub status: DocStatus,
}

impl View for Document {
    type V = DocV;

    open spec fn view(&self) -> DocV {
        DocV { id: self.id@, title: self.title@, status: self.status }
    }
}

impl Document {
    /// A copy of this document.
    pub fn copy(&self) -> (r: Document)
        ensures
            r@ == self@,
    {
        Document { id: self.id.clone(), title: self.title.clone(), status: self.status }
    }
}

pub open spec fn docs_view(d: Seq<Document>) -> Seq<DocV> {
    d.map_values(|x: Document| x@)
}

/// The store the demo starts from.
pub open spec fn seeded_docs() -> Seq<DocV> {
    seq![
        DocV { id: "doc-1"@, title: "Q3 Planning"@, status: DocStatus::Draft },
        DocV { id: "doc-2"@, title: "Launch Checklist"@, status: DocStatus::Draft },
        DocV { id: "doc-3"@, title: "Retro Notes"@, status: DocStatus::Published },
    ]
}

/// `i` is the first position holding document `id`.
pub open spec fn is_first_doc(docs: Seq<DocV>, id: Seq<char>, i: int) -> bool {
    &&& 0 <= i < docs.len()
    &&& docs[i].id == id
    &&& forall|j: int| 0 <= j < i ==> docs[j].id != id
}

/// The first position holding document `id`, if any.
pub open spec fn first_doc(docs: Seq<DocV>, id: Seq<char>) -> Option<int> {
    if exists|i: int| is_first_doc(docs, id, i) {
        Some(choose|i: int| is_first_doc(docs, id, i))
    } else {
        None
    }
}

/// The first position is unique.
pub proof fn lemma_first_doc(docs: Seq<DocV>, id: Seq<char>, i: int)
    requires
        is_first_doc(docs, id, i),
    ensures
        first_doc(docs, id) == Some(i),
{
    let w = choose|w: int| is_first_doc(docs, id, w);
    assert(is_first_doc(docs, id, w));
    if w < i {
        assert(docs[w].id != id);
    } else if i < w {
        assert(docs[i].id != id);
    }
}

/// No position holds document `id` when a full scan finds none.
pub proof fn lemma_no_doc(docs: Seq<DocV>, id: Seq<char>)
    requires
        forall|j: int| 0 <= j < docs.len() ==> docs[j].id != id,
    ensures
        first_doc(docs, id) is None,
{
}

pub open spec fn no_document_text(id: Seq<char>) -> Seq<char> {
    "no document `"@ + id + "`"@
}

pub open spec fn missing_param_text(key: Seq<char>) -> Seq<char> {
    "missing param `"@ + key + "`"@
}

/// `{"id": id, key: value}` with string values.
pub open spec fn id_object(id: Seq<char>, key: Seq<char>, value: Seq<char>) -> JsonV {
    JsonV::Object(entries_insert(entries_insert(Seq::empty(), "id"@, JsonV::String(id)), key, JsonV::String(value)))
}

/// The string a request's param holds, if it holds one.
pub open spec fn param_text(params: Seq<(Seq<char>, JsonV)>, key: Seq<char>) -> Option<Seq<char>> {
    match entry_get(params, key) {
        Some(JsonV::String(s)) => Some(s),
        _ => None,
    }
}

/// A required string param; its absence is an internal failure.
pub fn param_str<'a>(params: &'a JsonMap, key: &str) -> (r: Result<&'a str, HandlerError>)
    ensures
        match param_text(map_view(*params), key@) {
            Some(s) => r matches Ok(x) && x@ == s,
            None => r matches Err(HandlerError::Internal(m)) && m@ == missing_param_text(key@),
        },
{
    match params.get(key) {
        Some(Json::String(s)) => Ok(s.as_str()),
        _ => Err(HandlerError::Internal(concat3("missing param `", key, "`"))),
    }
}

fn id_json(id: &str, key: &str, value: &str) -> (j: Json)
    ensures
        json_view(j) == id_object(id@, key@, value@),
{
    let mut m = JsonMap::new();
    m.insert("id".to_owned(), Json::String(id.to_owned()));
    m.insert(key.to_owned(), Json::String(value.to_owned()));
    Json::Object(m)
}

/// The documents whose status is `s`, in store order.
pub open spec fn with_status(docs: Seq<DocV>, s: DocStatus) -> Seq<DocV> {
    docs.filter(|d: DocV| d.status == s)
}

pub open spec fn ids_of(docs: Seq<DocV>) -> Seq<Seq<char>> {
    docs.map_values(|d: DocV| d.id)
}

/// The store once every document whose ID is among `ids` is gone.
pub open spec fn without_ids(docs: Seq<DocV>, ids: Seq<Seq<char>>) -> Seq<DocV> {
    docs.filter(|d: DocV| !ids.contains(d.id))
}

/// What a status filter asks for.
pub enum StatusRequest {
    /// No `status` string param.
    Missing,
    /// A status name the store does not know.
    Unknown,
    /// A known status.
    Named(DocStatus),
}

pub open spec fn status_request(params: Seq<(Seq<char>, JsonV)>) -> StatusRequest {
    match param_text(params, "status"@) {
        None => StatusRequest::Missing,
        Some(v) => match status_named(v) {
            Some(s) => StatusRequest::Named(s),
            None => StatusRequest::Unknown,
        },
    }
}

/// The preview of a single-document action: exactly that document.
pub open spec fn one_doc_preview(id: Seq<char>, title: Seq<char>) -> PreviewV {
    PreviewV {
        affected_count: 1,
        sample_ids: seq![id],
        summary: Some("\u{201c}"@ + title + "\u{201d}"@),
        extensions: Seq::empty(),
    }
}

/// `{"deleted": [ids]}`.
pub open spec fn deleted_object(ids: Seq<Seq<char>>) -> JsonV {
    JsonV::Object(entries_insert(Seq::empty(), "deleted"@, JsonV::Array(ids.map_values(|x: Seq<char>| JsonV::String(x)))))
}

/// How many matching IDs a bulk preview samples.
pub open spec fn sample_len(n: nat) -> int {
    if n < 5 { n as int } else { 5 }
}

pub open spec fn bulk_summary(status: Seq<char>) -> Seq<char> {
    "every "@ + status + " document"@
}

fn contains_id(ids: &Vec<String>, id: &str) -> (r: bool)
    ensures
        r == strs_view(ids@).contains(id@),
{
    let mut i: usize = 0;
    while i < ids.len()
        invariant
            i <= ids.len(),
            forall|j: int| 0 <= j < i ==> ids[j]@ != id@,
        decreases ids.len() - i,
    {
        if str_eq(ids[i].as_str(), id) {
            assert(strs_view(ids@)[i as int] == id@);
            return true;
        }
        i = i + 1;
    }
    assert forall|j: int| 0 <= j < strs_view(ids@).len() implies strs_view(ids@)[j] != id@ by {
        assert(strs_view(ids@)[j] == ids[j]@);
    }
    false
}

/// A string field of an object, if it holds a string.
pub open spec fn string_at(v: JsonV, k: Seq<char>) -> Option<Seq<char>> {
    match v {
        JsonV::Object(es) => match entry_get(es, k) {
            Some(JsonV::String(s)) => Some(s),
            _ => None,
        },
        _ => None,
    }
}

/// The principal's name in a seam request: `principal.name`, else `"demo"`.
pub open spec fn principal_name(body: JsonV) -> Seq<char> {
    match body {
        JsonV::Object(es) => match entry_get(es, "principal"@) {
            Some(p) => match string_at(p, "name"@) {
                Some(n) => n,
                None => "demo"@,
            },
            None => "demo"@,
        },
        _ => "demo"@,
    }
}

fn string_of<'a>(v: &'a Json, k: &str) -> (r: Option<&'a String>)
    ensures
        match string_at(json_view(*v), k@) {
            Some(s) => r matches Some(x) && x@ == s,
            None => r is None,
        },
{
    match v {
        Json::Object(m) => match m.get(k) {
            Some(Json::String(s)) => Some(s),
            _ => None,
        },
        _ => None,
    }
}

/// A seam request's parts for the demo host: the action ID (required;
/// else a 400 `{"error": "missing action_id"}`), the params (empty unless
/// an object) and the user the principal names.
pub fn parts(body: &Json) -> (r: Result<(String, JsonMap, DemoUser), HostResponse>)
    ensures
        match string_at(json_view(*body), "action_id"@) {
            None => r matches Err(x) && x@ == error_reply(400, "missing action_id"@),
            Some(id) => r matches Ok((a, p, u)) && a@ == id && map_view(p) == object_field(json_view(*body), "params"@)
                && u.name@ == principal_name(json_view(*body)),
        },
{
    let action_id = match string_of(body, "action_id") {
        Some(a) => a.clone(),
        None => {
            let mut m = JsonMap::new();
            m.insert("error".to_owned(), Json::String("missing action_id".to_owned()));
            return Err(HostResponse { status: 400, body: Json::Object(m) });
        },
    };
    let params = match body {
        Json::Object(m) => match m.get("params") {
            Some(Json::Object(o)) => o.deep_clone(),
            _ => JsonMap::new(),
        },
        _ => JsonMap::new(),
    };
    let name = match body {
        Json::Object(m) => match m.get("principal") {
            Some(p) => match string_of(p, "name") {
                Some(n) => n.clone(),
                None => "demo".to_owned(),
            },
            None => "demo".to_owned(),
        },
        _ => "demo".to_owned(),
    };
    Ok((action_id, params, DemoUser { name }))
}

/// The shared in-memory document store.
#[derive(Debug)]
pub struct Store {
    docs: Vec<Document>,
}

impl View for Store {
    type V = Seq<DocV>;

    open spec fn view(&self) -> Seq<DocV> {
        self.documents()
    }
}

impl Store {
    pub closed spec fn documents(self) -> Seq<DocV> {
        docs_view(self.docs@)
    }

    /// The three documents the demo starts with.
    pub fn seeded() -> (s: Store)
        ensures
            s@ == seeded_docs(),
    {
        let mut docs: Vec<Document> = Vec::new();
        docs.push(Document { id: "doc-1".to_owned(), title: "Q3 Planning".to_owned(), status: DocStatus::Draft });
        docs.push(Document { id: "doc-2".to_owned(), title: "Launch Checklist".to_owned(), status: DocStatus::Draft });
        docs.push(Document { id: "doc-3".to_owned(), title: "Retro Notes".to_owned(), status: DocStatus::Published });
        let s = Store { docs };
        assert(s@ =~= seeded_docs());
        s
    }

    /// The number of stored documents.
    pub fn len(&self) -> (n: usize)
        ensures
            n == self@.len(),
    {
        self.docs.len()
    }

    /// The `i`th document in store order.
    pub fn doc_at(&self, i: usize) -> (d: &Document)
        requires
            i < self@.len(),
        ensures
            d@ == self@[i as int],
    {
        &self.docs[i]
    }

    fn find(&self, id: &str) -> (r: Option<usize>)
        ensures
            match r {
                Some(k) => k < self@.len() && first_doc(self@, id@) == Some(k as int),
                None => first_doc(self@, id@) is None,
            },
    {
        let ghost docs = self@;
        let mut i: usize = 0;
        while i < self.docs.len()
            invariant
                i <= self.docs.len(),
                docs == self@,
                docs.len() == self.docs.len(),
                forall|j: int| 0 <= j < i ==> docs[j].id != id@,
            decreases self.docs.len() - i,
        {
            assert(docs[i as int] == self.docs[i as int]@);
            if str_eq(self.docs[i].id.as_str(), id) {
                proof {
                    lemma_first_doc(docs, id@, i as int);
                }
                return Some(i);
            }
            i = i + 1;
        }
        proof {
            lemma_no_doc(docs, id@);
        }
        None
    }

    /// The title of document `id`.
    pub fn title_of(&self, id: &str) -> (r: Option<String>)
        ensures
            match first_doc(self@, id@) {
                Some(i) => r matches Some(t) && t@ == self@[i].title,
                None => r is None,
            },
    {
        match self.find(id) {
            Some(i) => {
                assert(self@[i as int] == self.docs[i as int]@);
                Some(self.docs[i].title.clone())
            },
            None => None,
        }
    }

    /// Renames document `document_id`, answering `{"id", "title"}`.
    pub fn rename(&mut self, document_id: &str, title: &str) -> (r: Result<Json, HandlerError>)
        ensures
            match first_doc(old(self)@, document_id@) {
                None => {
                    &&& final(self)@ == old(self)@
                    &&& r matches Err(HandlerError::Rejected(m)) && m@ == no_document_text(document_id@)
                },
                Some(i) => {
                    &&& final(self)@ == old(self)@.update(i, DocV { title: title@, ..old(self)@[i] })
                    &&& r matches Ok(j) && json_view(j) == id_object(document_id@, "title"@, title@)
                },
            },
    {
        match self.find(document_id) {
            None => Err(HandlerError::Rejected(concat3("no document `", document_id, "`"))),
            Some(i) => {
                let ghost before = self@;
                let doc = Document { id: self.docs[i].id.clone(), title: title.to_owned(), status: self.docs[i].status };
                self.docs.set(i, doc);
                assert(self@ =~= before.update(i as int, DocV { title: title@, ..before[i as int] }));
                Ok(id_json(document_id, "title", title))
            },
        }
    }

    /// Sets the status of the document the `documentId` param names,
    /// answering `{"id", "status"}`.
    pub fn set_status(&mut self, params: &JsonMap, status: DocStatus) -> (r: Result<Json, HandlerError>)
        ensures
            match param_text(map_view(*params), "documentId"@) {
                None => {
                    &&& final(self)@ == old(self)@
                    &&& r matches Err(HandlerError::Internal(m)) && m@ == missing_param_text("documentId"@)
                },
                Some(id) => match first_doc(old(self)@, id) {
                    None => {
                        &&& final(self)@ == old(self)@
                        &&& r matches Err(HandlerError::Rejected(m)) && m@ == no_document_text(id)
                    },
                    Some(i) => {
                        &&& final(self)@ == old(self)@.update(i, DocV { status, ..old(self)@[i] })
                        &&& r matches Ok(j) && json_view(j) == id_object(id, "status"@, status_text(status))
                    },
                },
            },
    {
        let id = match param_str(params, "documentId") {
            Ok(id) => id,
            Err(e) => return Err(e),
        };
        match self.find(id) {
            None => Err(HandlerError::Rejected(concat3("no document `", id, "`"))),
            Some(i) => {
                let ghost before = self@;
                let doc = Document { id: self.docs[i].id.clone(), title: self.docs[i].title.clone(), status };
                self.docs.set(i, doc);
                assert(self@ =~= before.update(i as int, DocV { status, ..before[i as int] }));
                Ok(id_json(id, "status", status.text()))
            },
        }
    }

    /// The preview of a single-document action on the `documentId` param:
    /// exactly the selected document, named by its current title.
    pub fn preview_one(&self, params: &JsonMap) -> (r: Result<DryRunPreview, HandlerError>)
        ensures
            match param_text(map_view(*params), "documentId"@) {
                None => r matches Err(HandlerError::Internal(m)) && m@ == missing_param_text("documentId"@),
                Some(id) => match first_doc(self@, id) {
                    None => r matches Err(HandlerError::Rejected(m)) && m@ == no_document_text(id),
                    Some(i) => r matches Ok(p) && p@ == one_doc_preview(id, self@[i].title),
                },
            },
    {
        let id = match param_str(params, "documentId") {
            Ok(id) => id,
            Err(e) => return Err(e),
        };
        let title = match self.title_of(id) {
            Some(t) => t,
            None => return Err(HandlerError::Rejected(concat3("no document `", id, "`"))),
        };
        let mut sample_ids: Vec<String> = Vec::new();
        sample_ids.push(id.to_owned());
        let p = DryRunPreview {
            affected_count: 1,
            sample_ids,
            summary: Some(concat3("\u{201c}", title.as_str(), "\u{201d}")),
            extensions: JsonMap::new(),
        };
        assert(p@.sample_ids =~= seq![id@]);
        Ok(p)
    }

    /// The documents the `status` param selects, in store order.
    pub fn matching(&self, params: &JsonMap) -> (r: Result<Vec<Document>, HandlerError>)
        ensures
            match status_request(map_view(*params)) {
                StatusRequest::Missing => r matches Err(HandlerError::Internal(m)) && m@ == missing_param_text("status"@),
                StatusRequest::Unknown => r matches Err(HandlerError::Rejected(m)) && m@ == "unknown status"@,
                StatusRequest::Named(s) => r matches Ok(v) && docs_view(v@) == with_status(self@, s),
            },
    {
        let name = match param_str(params, "status") {
            Ok(n) => n,
            Err(e) => return Err(e),
        };
        let status = match DocStatus::parse(name) {
            Some(s) => s,
            None => return Err(HandlerError::Rejected("unknown status".to_owned())),
        };
        let ghost docs = self@;
        let mut out: Vec<Document> = Vec::new();
        let mut i: usize = 0;
        while i < self.docs.len()
            invariant
                i <= self.docs.len(),
                docs == self@,
                docs.len() == self.docs.len(),
                docs_view(out@) == with_status(docs.take(i as int), status),
            decreases self.docs.len() - i,
        {
            proof {
                reveal(Seq::filter);
                assert(docs.take(i + 1).drop_last() =~= docs.take(i as int));
                assert(docs.take(i + 1).last() == docs[i as int]);
                assert(docs[i as int] == self.docs[i as int]@);
            }
            let ghost before = out@;
            if self.docs[i].status == status {
                out.push(self.docs[i].copy());
                assert(docs_view(out@) =~= docs_view(before).push(docs[i as int]));
            }
            i = i + 1;
        }
        assert(docs.take(docs.len() as int) =~= docs);
        Ok(out)
    }

    /// Deletes every document the `status` param selects, answering
    /// `{"deleted": [ids]}`.
    pub fn delete_by_status(&mut self, params: &JsonMap) -> (r: Result<Json, HandlerError>)
        ensures
            match status_request(map_view(*params)) {
                StatusRequest::Missing => {
                    &&& final(self)@ == old(self)@
                    &&& r matches Err(HandlerError::Internal(m)) && m@ == missing_param_text("status"@)
                },
                StatusRequest::Unknown => {
                    &&& final(self)@ == old(self)@
                    &&& r matches Err(HandlerError::Rejected(m)) && m@ == "unknown status"@
                },
                StatusRequest::Named(s) => {
                    let ids = ids_of(with_status(old(self)@, s));
                    &&& final(self)@ == without_ids(old(self)@, ids)
                    &&& r matches Ok(j) && json_view(j) == deleted_object(ids)
                },
            },
    {
        let matching = match self.matching(params) {
            Ok(m) => m,
            Err(e) => return Err(e),
        };
        let ghost docs = self@;
        let ghost mv = docs_view(matching@);
        let mut ids: Vec<String> = Vec::new();
        let mut items: Vec<Json> = Vec::new();
        let mut i: usize = 0;
        while i < matching.len()
            invariant
                i <= matching.len(),
                mv == docs_view(matching@),
                ids.len() == i,
                items.len() == i,
                forall|j: int| 0 <= j < i ==> (#[trigger] ids[j])@ == mv[j].id,
                forall|j: int| 0 <= j < i ==> json_view(#[trigger] items[j]) == JsonV::String(mv[j].id),
            decreases matching.len() - i,
        {
            ids.push(matching[i].id.clone());
            items.push(Json::String(matching[i].id.clone()));
            i = i + 1;
        }
        let ghost idsv = strs_view(ids@);
        assert(idsv =~= ids_of(mv));
        let mut kept: Vec<Document> = Vec::new();
        let mut k: usize = 0;
        while k < self.docs.len()
            invariant
                k <= self.docs.len(),
                docs == self@,
                docs.len() == self.docs.len(),
                idsv == strs_view(ids@),
                docs_view(kept@) == without_ids(docs.take(k as int), idsv),
            decreases self.docs.len() - k,
        {
            proof {
                reveal(Seq::filter);
                assert(docs.take(k + 1).drop_last() =~= docs.take(k as int));
                assert(docs.take(k + 1).last() == docs[k as int]);
                assert(docs[k as int] == self.docs[k as int]@);
            }
            let ghost before = kept@;
            if !contains_id(&ids, self.docs[k].id.as_str()) {
                kept.push(self.docs[k].copy());
                assert(docs_view(kept@) =~= docs_view(before).push(docs[k as int]));
            }
            k = k + 1;
        }
        assert(docs.take(docs.len() as int) =~= docs);
        self.docs = kept;
        let mut m = JsonMap::new();
        let arr = Json::Array(items);
        assert(json_view(arr) == JsonV::Array(ids_of(mv).map_values(|x: Seq<char>| JsonV::String(x)))) by {
            assert(array_view(items) =~= ids_of(mv).map_values(|x: Seq<char>| JsonV::String(x)));
        }
        m.insert("deleted".to_owned(), arr);
        Ok(Json::Object(m))
    }

    /// The preview of a bulk delete on the `status` param: how many
    /// documents match, the first five of their IDs, and the predicate.
    pub fn preview_delete(&self, params: &JsonMap) -> (r: Result<DryRunPreview, HandlerError>)
        ensures
            match status_request(map_view(*params)) {
                StatusRequest::Missing => r matches Err(HandlerError::Internal(m)) && m@ == missing_param_text("status"@),
                StatusRequest::Unknown => r matches Err(HandlerError::Rejected(m)) && m@ == "unknown status"@,
                StatusRequest::Named(s) => {
                    let ids = ids_of(with_status(self@, s));
                    r matches Ok(p) && p@ == PreviewV {
                        affected_count: ids.len() as u64,
                        sample_ids: ids.take(sample_len(ids.len())),
                        summary: Some(bulk_summary(param_text(map_view(*params), "status"@).unwrap())),
                        extensions: Seq::empty(),
                    }
                },
            },
    {
        let matching = match self.matching(params) {
            Ok(m) => m,
            Err(e) => return Err(e),
        };
        let name = match param_str(params, "status") {
            Ok(n) => n,
            Err(e) => return Err(e),
        };
        let ghost mv = docs_view(matching@);
        let n = matching.len();
        let limit: usize = if n < 5 { n } else { 5 };
        let mut sample_ids: Vec<String> = Vec::new();
        let mut i: usize = 0;
        while i < limit
            invariant
                i <= limit,
                limit <= matching.len(),
                mv == docs_view(matching@),
                sample_ids.len() == i,
                forall|j: int| 0 <= j < i ==> (#[trigger] sample_ids[j])@ == mv[j].id,
            decreases limit - i,
        {
            sample_ids.push(matching[i].id.clone());
            i = i + 1;
        }
        let p = DryRunPreview {
            affected_count: n as u64,
            sample_ids,
            summary: Some(concat3("every ", name, " document")),
            extensions: JsonMap::new(),
        };
        assert(p@.sample_ids =~= ids_of(mv).take(sample_len(mv.len())));
        Ok(p)
    }
}


/// After a rename, the store reads the document back under its new title
/// (and finds it at the same position).
pub proof fn law_rename_reads_back(docs: Seq<DocV>, id: Seq<char>, title: Seq<char>, i: int)
    requires
        first_doc(docs, id) == Some(i),
    ensures
        ({
            let after = docs.update(i, DocV { title, ..docs[i] });
            first_doc(after, id) == Some(i) && after[i].title == title
        }),
{
    let w = choose|w: int| is_first_doc(docs, id, w);
    assert(is_first_doc(docs, id, w));
    let after = docs.update(i, DocV { title, ..docs[i] });
    assert(is_first_doc(after, id, i)) by {
        assert forall|j: int| 0 <= j < i implies after[j].id != id by {
            assert(after[j] == docs[j]);
        }
    }
    lemma_first_doc(after, id, i);
}

/// A bulk delete by status leaves no document with that status, and keeps
/// every document whose ID no deleted document shares, in order.
pub proof fn law_delete_leaves_no_match(docs: Seq<DocV>, s: DocStatus)
    ensures
        ({
            let ids = ids_of(with_status(docs, s));
            let after = without_ids(docs, ids);
            &&& forall|j: int| 0 <= j < after.len() ==> (#[trigger] after[j]).status != s
            &&& after == docs.filter(|d: DocV| !ids.contains(d.id))
        }),
{
    let m = with_status(docs, s);
    let ids = ids_of(m);
    let pred = |d: DocV| !ids.contains(d.id);
    let after = without_ids(docs, ids);
    let by_status = |x: DocV| x.status == s;
    assert forall|j: int| 0 <= j < after.len() implies (#[trigger] after[j]).status != s by {
        let d = after[j];
        docs.lemma_filter_pred(pred, j);
        assert(after.contains(d));
        docs.lemma_filter_contains_rev(pred, d);
        if d.status == s {
            let k = choose|k: int| 0 <= k < docs.len() && docs[k] == d;
            docs.lemma_filter_contains(by_status, k);
            assert(m == docs.filter(by_status));
            assert(m.contains(d));
            let q = choose|q: int| 0 <= q < m.len() && m[q] == d;
            assert(ids[q] == d.id);
            assert(ids.contains(d.id));
        }
    }
}

/// A bulk delete's preview and its execution share the predicate: the
/// preview counts exactly the documents the execution deletes and samples
/// the first of their IDs.
pub proof fn law_preview_counts_deleted(docs: Seq<DocV>, s: DocStatus)
    ensures
        ({
            let ids = ids_of(with_status(docs, s));
            &&& ids.len() == with_status(docs, s).len()
            &&& ids.take(sample_len(ids.len())).len() <= ids.len()
            &&& forall|j: int| 0 <= j < sample_len(ids.len()) ==> #[trigger] ids.take(sample_len(ids.len()))[j] == ids[j]
        }),
{
}

} // verus!
