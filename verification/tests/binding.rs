use cleverhans::binding::{assemble_registry, model_source, FfiError, ModelSource};
use cleverhans::registry::{ActionDef, BlockDef, ParamSource, ParamSpec, SlotSpec, ValueType};
use cleverhans::schema::RegistrySchema;
use cleverhans::strmap::{KeyMap, StrMap};
use cleverhans::SPEC_VERSION;

struct Ok200;
struct OnePreview;
struct Titles;

fn schema(mutates: bool) -> RegistrySchema {
    let mut context_params = StrMap::new();
    context_params.insert("recordId".to_owned(), "selected_record_id".to_owned());
    RegistrySchema {
        spec_version: SPEC_VERSION.to_owned(),
        blocks: vec![BlockDef {
            block_type: "confirm".to_owned(),
            slots: vec![SlotSpec { name: "title".to_owned(), ty: ValueType::String, required: false }],
        }],
        actions: vec![ActionDef {
            id: "record.touch".to_owned(),
            description: "Touch the selected record".to_owned(),
            params: vec![ParamSpec {
                name: "recordId".to_owned(),
                description: String::new(),
                ty: ValueType::String,
                source: ParamSource::Context,
                required: true,
            }],
            block_type: "confirm".to_owned(),
            mutates,
            authz_key: "record.touch".to_owned(),
            display: None,
        }],
        context_params,
    }
}

fn handlers() -> KeyMap<Ok200> {
    let mut m = KeyMap::new();
    m.insert("record.touch".to_owned(), Ok200);
    m
}

fn dry_runs() -> KeyMap<OnePreview> {
    let mut m = KeyMap::new();
    m.insert("record.touch".to_owned(), OnePreview);
    m
}

fn message(r: Result<cleverhans::registry::Registry<Ok200, OnePreview, Titles>, FfiError>) -> String {
    match r {
        Ok(_) => panic!("assembly must fail"),
        Err(e) => e.message(),
    }
}

#[test]
fn assemble_registry_names_missing_callbacks() {
    let missing_handler = message(assemble_registry(schema(true), KeyMap::new(), KeyMap::new(), KeyMap::new()));
    assert!(missing_handler.contains("record.touch"), "got {missing_handler}");

    let missing_dry_run = message(assemble_registry(schema(true), handlers(), KeyMap::new(), KeyMap::new()));
    assert!(missing_dry_run.contains("dry_run"), "got {missing_dry_run}");
}

#[test]
fn dry_run_for_non_mutating_action_is_rejected() {
    let result = message(assemble_registry(schema(false), handlers(), dry_runs(), KeyMap::new()));
    assert!(result.contains("does not mutate"), "got {result}");
}

#[test]
fn assembly_messages_name_the_action() {
    assert_eq!(
        message(assemble_registry(schema(true), KeyMap::new(), KeyMap::new(), KeyMap::new())),
        "no handler registered for action `record.touch`"
    );
    assert_eq!(
        message(assemble_registry(schema(true), handlers(), KeyMap::new(), KeyMap::new())),
        "action `record.touch` mutates but has no dry_run registered"
    );
    assert_eq!(
        message(assemble_registry(schema(false), handlers(), dry_runs(), KeyMap::new())),
        "action `record.touch` does not mutate; its dry_run would never be called (set mutates: true or remove the dry_run)"
    );
}

#[test]
fn unclaimed_entries_are_refused_by_map() {
    let mut extra = handlers();
    extra.insert("record.other".to_owned(), Ok200);
    assert_eq!(
        message(assemble_registry(schema(true), extra, dry_runs(), KeyMap::new())),
        "handlers entry `record.other` matches no action in the registry document"
    );
    let mut slots = KeyMap::new();
    slots.insert("zzz".to_owned(), Titles);
    assert_eq!(
        message(assemble_registry(schema(true), handlers(), dry_runs(), slots)),
        "slot_builders entry `zzz` matches no action in the registry document"
    );
}

#[test]
fn covered_document_assembles() {
    let mut slots = KeyMap::new();
    slots.insert("record.touch".to_owned(), Titles);
    let reg = match assemble_registry(schema(true), handlers(), dry_runs(), slots) {
        Ok(r) => r,
        Err(e) => panic!("assembly failed: {}", e.message()),
    };
    assert_eq!(reg.action_count(), 1);
    assert_eq!(reg.action_defs()[0].id, "record.touch");
    assert!(reg.action("record.touch").is_some());
    assert!(reg.block("confirm").is_some());
}

#[test]
fn assembled_registry_binds_the_map_entries_of_each_action() {
    let mut s = schema(true);
    let mut other = s.actions[0].copy();
    other.id = "record.open".to_owned();
    other.mutates = false;
    s.actions.push(other);
    let mut hs = KeyMap::new();
    hs.insert("record.touch".to_owned(), 1u32);
    hs.insert("record.open".to_owned(), 2u32);
    let mut ds = KeyMap::new();
    ds.insert("record.touch".to_owned(), 10u32);
    let mut ss = KeyMap::new();
    ss.insert("record.open".to_owned(), 20u32);
    let reg = match assemble_registry(s, hs, ds, ss) {
        Ok(r) => r,
        Err(e) => panic!("assembly failed: {}", e.message()),
    };
    let touch = reg.action("record.touch").expect("registered");
    assert_eq!((touch.handler, touch.dry_run, touch.slot_builder), (1, Some(10), None));
    let open = reg.action("record.open").expect("registered");
    assert_eq!((open.handler, open.dry_run, open.slot_builder), (2, None, Some(20)));
}

#[test]
fn exactly_one_model_source_is_accepted() {
    assert!(matches!(model_source::<&str, u8>(Some("{}"), None), Ok(ModelSource::Spec("{}"))));
    assert!(matches!(model_source::<&str, u8>(None, Some(7)), Ok(ModelSource::Callable(7))));
    for r in [model_source::<&str, u8>(Some("{}"), Some(7)), model_source::<&str, u8>(None, None)] {
        assert_eq!(r.err(), Some("provide exactly one of llm spec or llm callable".to_owned()));
    }
}
