use cleverhans::envelope::Context;
use cleverhans::json::{Json, JsonMap};
use cleverhans::registry::{ActionDef, BlockDef, ParamSource, ParamSpec, SlotSpec, ValueType};
use cleverhans::schema::{context_path_is_valid, MappedContextResolver, RegistrySchema, SchemaError};
use cleverhans::seams::ContextParamResolver;
use cleverhans::serve::load_schema;
use cleverhans::strmap::StrMap;
use cleverhans::{spec_version_compatible, SPEC_VERSION};

fn document(version: &str, path: &str) -> RegistrySchema {
    let mut context_params = StrMap::new();
    context_params.insert("recordId".to_owned(), path.to_owned());
    RegistrySchema {
        spec_version: version.to_owned(),
        blocks: vec![BlockDef {
            block_type: "confirm".to_owned(),
            slots: vec![SlotSpec { name: "title".to_owned(), ty: ValueType::String, required: true }],
        }],
        actions: vec![ActionDef {
            id: "record.remove".to_owned(),
            description: "Remove the selected record".to_owned(),
            params: vec![ParamSpec {
                name: "recordId".to_owned(),
                description: String::new(),
                ty: ValueType::String,
                source: ParamSource::Context,
                required: true,
            }],
            block_type: "confirm".to_owned(),
            mutates: true,
            authz_key: "record.remove".to_owned(),
            display: None,
        }],
        context_params,
    }
}

fn valid() -> RegistrySchema {
    document("0.1", "selected_record_id")
}

#[test]
fn rejects_unsupported_version() {
    assert!(matches!(
        document("9.9", "selected_record_id").checked(),
        Err(SchemaError::UnsupportedVersion { found, .. }) if found == "9.9"
    ));
}

#[test]
fn accepts_draft_suffixed_version() {
    assert!(document("0.1.0-draft", "selected_record_id").checked().is_ok());
}

#[test]
fn rejects_prefix_lookalike_versions() {
    for lookalike in ["0.10", "0.10.0", "0.1x"] {
        assert!(
            matches!(document(lookalike, "selected_record_id").checked(), Err(SchemaError::UnsupportedVersion { .. })),
            "`{lookalike}` must not pass the 0.1 gate"
        );
    }
}

#[test]
fn rejects_unsupported_context_paths() {
    for bad in ["selected_record", "selected_record_id.foo", "params.", "para.x"] {
        assert!(
            matches!(document("0.1", bad).checked(), Err(SchemaError::InvalidContextPath { .. })),
            "path `{bad}` must be rejected at load"
        );
    }
}

#[test]
fn covers_every_context_param() {
    assert!(valid().context_resolver().is_ok());
}

#[test]
fn reports_unmapped_context_param_at_startup() {
    let mut schema = valid();
    schema.context_params = StrMap::new();

    assert!(matches!(
        schema.context_resolver(),
        Err(SchemaError::UnmappedContextParam { action, param }) if action == "record.remove" && param == "recordId"
    ));
}

fn param(name: &str) -> ParamSpec {
    ParamSpec {
        name: name.to_owned(),
        description: String::new(),
        ty: ValueType::String,
        source: ParamSource::Context,
        required: true,
    }
}

fn resolver() -> MappedContextResolver {
    let mut paths = StrMap::new();
    paths.insert("recordId".to_owned(), "selected_record_id".to_owned());
    paths.insert("where".to_owned(), "route".to_owned());
    paths.insert("filter".to_owned(), "params.filter".to_owned());
    paths.insert("tenant".to_owned(), "extensions.tenant".to_owned());
    MappedContextResolver::new(paths)
}

fn one(key: &str, value: &str) -> JsonMap {
    let mut m = JsonMap::new();
    m.insert(key.to_owned(), Json::String(value.to_owned()));
    m
}

fn context() -> Context {
    Context {
        route: "/records/r-1".to_owned(),
        params: one("filter", "active"),
        selected_record_id: Some("r-1".to_owned()),
        view_type: None,
        extensions: one("tenant", "acme"),
    }
}

fn text(v: &str) -> Option<Json> {
    Some(Json::String(v.to_owned()))
}

#[test]
fn resolves_each_path_kind() {
    let (resolver, context) = (resolver(), context());

    let get = |name: &str| resolver.resolve("a.b", &param(name), &context);

    assert_eq!(get("recordId"), text("r-1"));
    assert_eq!(get("where"), text("/records/r-1"));
    assert_eq!(get("filter"), text("active"));
    assert_eq!(get("tenant"), text("acme"));
}

#[test]
fn unmapped_or_absent_params_resolve_to_none() {
    let resolver = resolver();
    let mut context = context();
    context.selected_record_id = None;

    assert_eq!(resolver.resolve("a.b", &param("recordId"), &context), None);
    assert_eq!(resolver.resolve("a.b", &param("unmapped"), &context), None);
}

#[test]
fn context_path_grammar() {
    for good in ["route", "selected_record_id", "view_type", "params.x", "extensions.a.b"] {
        assert!(context_path_is_valid(good), "{good}");
    }
    for bad in ["", "params", "extensions.", "route.x"] {
        assert!(!context_path_is_valid(bad), "{bad}");
    }
}

#[test]
fn version_gate_matches_major_minor_at_a_segment_boundary() {
    assert_eq!(SPEC_VERSION, "0.1");
    assert!(spec_version_compatible("0.1"));
    assert!(spec_version_compatible("0.1.0"));
    assert!(spec_version_compatible("0.1-rc"));
    assert!(!spec_version_compatible("0.10"));
    assert!(!spec_version_compatible("0."));
}

#[test]
fn load_schema_reports_each_refusal_as_its_message() {
    assert_eq!(
        load_schema(Err("expected value at line 1".to_owned())).err(),
        Some("registry schema parse error: expected value at line 1".to_owned())
    );
    assert_eq!(
        load_schema(Ok(document("9.9", "selected_record_id"))).err(),
        Some("registry schema speaks `9.9`, this crate implements `0.1`".to_owned())
    );
    assert_eq!(
        load_schema(Ok(document("0.1", "nowhere"))).err(),
        Some("context_params[`recordId`] = `nowhere` is not a supported context path (route | selected_record_id | view_type | params.<key> | extensions.<key>)".to_owned())
    );
    assert_eq!(load_schema(Ok(valid())).ok(), Some(valid()));
}

#[test]
fn checked_out_resolver_resolves_like_a_mapped_one_over_the_same_table() {
    let schema = valid();
    let checked = schema.context_resolver().ok().expect("covered");
    let mapped = MappedContextResolver::new(schema.context_params.copy());
    let mut ctx = context();
    for name in ["recordId", "where", "filter", "tenant", "unmapped"] {
        assert_eq!(
            checked.resolve("record.remove", &param(name), &ctx),
            mapped.resolve("record.remove", &param(name), &ctx)
        );
    }
    ctx.selected_record_id = None;
    assert_eq!(
        checked.resolve("record.remove", &param("recordId"), &ctx),
        mapped.resolve("record.remove", &param("recordId"), &ctx)
    );
}

#[test]
fn loading_is_checking_with_the_error_rendered() {
    for (version, path) in [("9.9", "selected_record_id"), ("0.1", "nowhere"), ("0.1", "route")] {
        let loaded = load_schema(Ok(document(version, path)));
        let checked = document(version, path).checked();
        match (loaded, checked) {
            (Ok(a), Ok(b)) => assert_eq!(a, b),
            (Err(a), Err(b)) => assert_eq!(a, b.message()),
            (a, b) => panic!("load and check disagree: {a:?} vs {b:?}"),
        }
    }
    assert_eq!(
        load_schema(Err("bad".to_owned())).err(),
        Some(SchemaError::Parse("bad".to_owned()).message())
    );
}
