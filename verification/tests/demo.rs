use cleverhans::demo::{param_str, parts, DocStatus, Store};
use cleverhans::error::HandlerError;
use cleverhans::json::{Json, JsonMap};

fn s(v: &str) -> Json {
    Json::String(v.to_owned())
}

fn obj(entries: Vec<(&str, Json)>) -> Json {
    let mut m = JsonMap::new();
    for (k, v) in entries {
        m.insert(k.to_owned(), v);
    }
    Json::Object(m)
}

fn params(entries: Vec<(&str, &str)>) -> JsonMap {
    let mut m = JsonMap::new();
    for (k, v) in entries {
        m.insert(k.to_owned(), s(v));
    }
    m
}

fn titles(store: &Store) -> Vec<(String, String, DocStatus)> {
    (0..store.len()).map(|i| {
        let d = store.doc_at(i);
        (d.id.clone(), d.title.clone(), d.status)
    }).collect()
}

#[test]
fn seeded_store_holds_three_documents() {
    let store = Store::seeded();
    assert_eq!(
        titles(&store),
        vec![
            ("doc-1".to_owned(), "Q3 Planning".to_owned(), DocStatus::Draft),
            ("doc-2".to_owned(), "Launch Checklist".to_owned(), DocStatus::Draft),
            ("doc-3".to_owned(), "Retro Notes".to_owned(), DocStatus::Published),
        ]
    );
}

#[test]
fn statuses_parse_by_lower_case_name() {
    assert_eq!(DocStatus::parse("draft"), Some(DocStatus::Draft));
    assert_eq!(DocStatus::parse("published"), Some(DocStatus::Published));
    assert_eq!(DocStatus::parse("archived"), Some(DocStatus::Archived));
    assert_eq!(DocStatus::parse("Draft"), None);
    assert_eq!(DocStatus::Archived.text(), "Archived");
}

#[test]
fn rename_then_read_back() {
    let mut store = Store::seeded();
    let r = store.rename("doc-2", "Go-Live Checklist");
    assert_eq!(r, Ok(obj(vec![("id", s("doc-2")), ("title", s("Go-Live Checklist"))])));
    assert_eq!(store.title_of("doc-2"), Some("Go-Live Checklist".to_owned()));
    assert_eq!(store.title_of("doc-1"), Some("Q3 Planning".to_owned()));
}

#[test]
fn rename_of_unknown_document_is_rejected() {
    let mut store = Store::seeded();
    assert_eq!(store.rename("doc-9", "x"), Err(HandlerError::Rejected("no document `doc-9`".to_owned())));
    assert_eq!(store.len(), 3);
}

#[test]
fn publish_and_archive_set_the_status() {
    let mut store = Store::seeded();
    let r = store.set_status(&params(vec![("documentId", "doc-1")]), DocStatus::Published);
    assert_eq!(r, Ok(obj(vec![("id", s("doc-1")), ("status", s("Published"))])));
    assert_eq!(store.doc_at(0).status, DocStatus::Published);
    let r = store.set_status(&params(vec![("documentId", "doc-3")]), DocStatus::Archived);
    assert_eq!(r, Ok(obj(vec![("id", s("doc-3")), ("status", s("Archived"))])));
}

#[test]
fn status_change_needs_the_document_param() {
    let mut store = Store::seeded();
    let r = store.set_status(&JsonMap::new(), DocStatus::Published);
    assert_eq!(r, Err(HandlerError::Internal("missing param `documentId`".to_owned())));
    let r = store.set_status(&params(vec![("documentId", "nope")]), DocStatus::Published);
    assert_eq!(r, Err(HandlerError::Rejected("no document `nope`".to_owned())));
    assert!(param_str(&params(vec![("a", "b")]), "a").is_ok());
}

#[test]
fn single_document_preview_names_the_current_title() {
    let store = Store::seeded();
    let p = store.preview_one(&params(vec![("documentId", "doc-2")])).unwrap();
    assert_eq!(p.affected_count, 1);
    assert_eq!(p.sample_ids, vec!["doc-2".to_owned()]);
    assert_eq!(p.summary, Some("\u{201c}Launch Checklist\u{201d}".to_owned()));
    assert_eq!(p.extensions.len(), 0);
    assert!(store.preview_one(&params(vec![("documentId", "doc-7")])).is_err());
}

#[test]
fn bulk_preview_and_delete_share_the_predicate() {
    let mut store = Store::seeded();
    let by_draft = params(vec![("status", "draft")]);
    let p = store.preview_delete(&by_draft).unwrap();
    assert_eq!(p.affected_count, 2);
    assert_eq!(p.sample_ids, vec!["doc-1".to_owned(), "doc-2".to_owned()]);
    assert_eq!(p.summary, Some("every draft document".to_owned()));
    let r = store.delete_by_status(&by_draft);
    assert_eq!(r, Ok(obj(vec![("deleted", Json::Array(vec![s("doc-1"), s("doc-2")]))])));
    assert_eq!(titles(&store), vec![("doc-3".to_owned(), "Retro Notes".to_owned(), DocStatus::Published)]);
    let p = store.preview_delete(&by_draft).unwrap();
    assert_eq!(p.affected_count, 0);
    assert!(p.sample_ids.is_empty());
}

#[test]
fn bulk_delete_refuses_unknown_or_missing_status() {
    let mut store = Store::seeded();
    assert_eq!(
        store.delete_by_status(&params(vec![("status", "gone")])),
        Err(HandlerError::Rejected("unknown status".to_owned()))
    );
    assert_eq!(
        store.delete_by_status(&JsonMap::new()),
        Err(HandlerError::Internal("missing param `status`".to_owned()))
    );
    assert_eq!(store.len(), 3);
    assert_eq!(store.matching(&params(vec![("status", "published")])).unwrap().len(), 1);
}

#[test]
fn seam_requests_split_into_action_params_and_user() {
    let body = obj(vec![
        ("action_id", s("document.rename")),
        ("params", obj(vec![("title", s("T"))])),
        ("principal", obj(vec![("name", s("ada"))])),
    ]);
    let (id, p, user) = parts(&body).unwrap();
    assert_eq!(id, "document.rename");
    assert_eq!(Json::Object(p), obj(vec![("title", s("T"))]));
    assert_eq!(user.name, "ada");
    let (_, p, user) = parts(&obj(vec![("action_id", s("x")), ("params", s("no"))])).unwrap();
    assert_eq!(p.len(), 0);
    assert_eq!(user.name, "demo");
    let refused = parts(&obj(vec![("params", obj(vec![]))])).unwrap_err();
    assert_eq!(refused.status, 400);
    assert_eq!(refused.body, obj(vec![("error", s("missing action_id"))]));
}
