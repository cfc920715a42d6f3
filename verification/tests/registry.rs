use cleverhans::error::{RegistryError, ValidationFailure};
use cleverhans::json::{Json, JsonMap, JsonNumber};
use cleverhans::registry::{ActionDef, BlockDef, ParamSource, ParamSpec, Registry, RegistryBuilder, SlotSpec, ValueType};
use cleverhans::schema::RegistrySchema;
use cleverhans::strmap::StrMap;
use cleverhans::SPEC_VERSION;

struct Noop;
struct NoopDryRun;
struct NoSlots;

type Reg = Registry<Noop, NoopDryRun, NoSlots>;

fn confirm_block() -> BlockDef {
    BlockDef {
        block_type: "confirm".to_owned(),
        slots: vec![SlotSpec { name: "title".to_owned(), ty: ValueType::String, required: true }],
    }
}

fn action(id: &str, mutates: bool) -> ActionDef {
    ActionDef {
        id: id.to_owned(),
        description: "test action".to_owned(),
        params: vec![
            ParamSpec {
                name: "recordId".to_owned(),
                description: String::new(),
                ty: ValueType::String,
                source: ParamSource::Context,
                required: true,
            },
            ParamSpec {
                name: "country".to_owned(),
                description: "ISO country code".to_owned(),
                ty: ValueType::String,
                source: ParamSource::Utterance,
                required: true,
            },
        ],
        block_type: "confirm".to_owned(),
        mutates,
        authz_key: "test".to_owned(),
        display: None,
    }
}

fn schema() -> RegistrySchema {
    let mut context_params = StrMap::new();
    context_params.insert("recordId".to_owned(), "selected_record_id".to_owned());
    RegistrySchema {
        spec_version: SPEC_VERSION.to_owned(),
        blocks: vec![confirm_block()],
        actions: vec![action("a.b", true)],
        context_params,
    }
}

#[test]
fn rejects_duplicate_action_ids() {
    let result = Reg::builder()
        .block(confirm_block())
        .action(action("a.b", false), Noop, None, None)
        .action(action("a.b", false), Noop, None, None)
        .build();

    assert!(matches!(result, Err(RegistryError::DuplicateAction(id)) if id == "a.b"));
}

#[test]
fn rejects_unregistered_block_type() {
    let result = Reg::builder().action(action("a.b", false), Noop, None, None).build();

    assert!(matches!(result, Err(RegistryError::UnknownBlockType { .. })));
}

#[test]
fn rejects_mutating_action_without_dry_run() {
    let result = Reg::builder().block(confirm_block()).action(action("a.b", true), Noop, None, None).build();

    assert!(matches!(result, Err(RegistryError::MissingDryRun(id)) if id == "a.b"));
}

#[test]
fn attached_schema_builds_and_round_trips() {
    let registry = RegistryBuilder::from_schema(schema())
        .attach("a.b".to_owned(), Noop, Some(NoopDryRun), None::<NoSlots>)
        .build()
        .ok()
        .expect("valid registry");

    assert_eq!(registry.schema(), schema());
}

#[test]
fn unattached_def_fails_build() {
    let result = RegistryBuilder::<Noop, NoopDryRun, NoSlots>::from_schema(schema()).build();

    assert!(matches!(result, Err(RegistryError::UnattachedAction(id)) if id == "a.b"));
}

#[test]
fn attach_for_undeclared_action_fails_build() {
    let result = RegistryBuilder::from_schema(schema())
        .attach("a.b".to_owned(), Noop, Some(NoopDryRun), None::<NoSlots>)
        .attach("no.such".to_owned(), Noop, None, None)
        .build();

    assert!(matches!(result, Err(RegistryError::UnknownAttachment(id)) if id == "no.such"));
}

#[test]
fn double_attach_fails_build() {
    let result = RegistryBuilder::from_schema(schema())
        .attach("a.b".to_owned(), Noop, Some(NoopDryRun), None::<NoSlots>)
        .attach("a.b".to_owned(), Noop, Some(NoopDryRun), None)
        .build();

    assert!(matches!(result, Err(RegistryError::DuplicateAttachment(id)) if id == "a.b"));
}

#[test]
fn mutates_invariant_covers_schema_path() {
    let result = RegistryBuilder::from_schema(schema()).attach("a.b".to_owned(), Noop, None::<NoopDryRun>, None::<NoSlots>).build();

    assert!(matches!(result, Err(RegistryError::MissingDryRun(id)) if id == "a.b"));
}

#[test]
fn exposes_only_utterance_params() {
    let registry = Reg::builder()
        .block(confirm_block())
        .action(action("a.b", false), Noop, None, None)
        .build()
        .ok()
        .expect("valid registry");

    let tools = registry.tool_defs();

    let properties = match &tools[0].parameters {
        Json::Object(m) => match m.get("properties") {
            Some(Json::Object(p)) => p,
            _ => panic!("no properties"),
        },
        _ => panic!("object schema"),
    };
    assert!(
        properties.contains_key("country") && !properties.contains_key("recordId"),
        "context param leaked into tool schema: {properties:?}"
    );
}

#[test]
fn rejects_missing_required_slot() {
    let result = confirm_block().check_slots(&JsonMap::new());

    assert!(matches!(result, Err(ValidationFailure::InvalidSlot { slot, .. }) if slot == "title"));
}

#[test]
fn rejects_unknown_slot() {
    let mut slots = JsonMap::new();
    slots.insert("title".to_owned(), Json::String("ok".to_owned()));
    slots.insert("bogus".to_owned(), Json::Number(JsonNumber::PosInt(1)));

    let result = confirm_block().check_slots(&slots);

    assert!(matches!(result, Err(ValidationFailure::InvalidSlot { slot, .. }) if slot == "bogus"));
}

#[test]
fn built_registry_looks_up_actions_and_blocks() {
    let registry = Reg::builder()
        .block(confirm_block())
        .action(action("b.two", false), Noop, None, None)
        .action(action("a.one", false), Noop, None, None)
        .build()
        .ok()
        .expect("valid registry");
    assert_eq!(registry.action_count(), 2);
    assert_eq!(registry.action_at(0).def.id, "a.one");
    assert!(registry.action("b.two").is_some());
    assert!(registry.action("c.three").is_none());
    assert!(registry.block("confirm").is_some());
    assert!(registry.block("card").is_none());
}

#[test]
fn duplicate_blocks_are_refused() {
    let result = Reg::builder().block(confirm_block()).block(confirm_block()).build();
    assert!(matches!(result, Err(RegistryError::DuplicateBlock(b)) if b == "confirm"));
}

#[test]
fn registry_error_messages() {
    assert_eq!(RegistryError::DuplicateAction("x".to_owned()).message(), "duplicate action id `x`");
    assert_eq!(
        RegistryError::MissingDryRun("x".to_owned()).message(),
        "mutating action `x` must register a dry-run handler"
    );
}

#[test]
fn value_types_check_json_values() {
    assert!(ValueType::String.accepts(&Json::String("a".to_owned())));
    assert!(!ValueType::String.accepts(&Json::Bool(true)));
    assert!(ValueType::Integer.accepts(&Json::Number(JsonNumber::NegInt(-3))));
    assert!(!ValueType::Integer.accepts(&Json::Number(JsonNumber::Float("1.5".to_owned()))));
    assert!(ValueType::Number.accepts(&Json::Number(JsonNumber::Float("1.5".to_owned()))));
    let e = ValueType::StringEnum(vec!["draft".to_owned(), "published".to_owned()]);
    assert!(e.accepts(&Json::String("draft".to_owned())));
    assert!(!e.accepts(&Json::String("gone".to_owned())));
    assert!(ValueType::Json.accepts(&Json::Null));
}

#[test]
fn each_action_runs_the_handlers_registered_for_it() {
    let reg: Registry<u32, u32, u32> = Registry::builder()
        .block(confirm_block())
        .action(action("z.last", true), 1, Some(10), None)
        .action(action("a.first", false), 2, None, Some(20))
        .build()
        .unwrap_or_else(|_| panic!("builds"));
    let z = reg.action("z.last").expect("registered");
    assert_eq!((z.handler, z.dry_run, z.slot_builder), (1, Some(10), None));
    let a = reg.action("a.first").expect("registered");
    assert_eq!((a.handler, a.dry_run, a.slot_builder), (2, None, Some(20)));
    assert_eq!(reg.action_at(0).handler, 2);
    assert_eq!(reg.action_at(1).handler, 1);
}

#[test]
fn attached_handlers_follow_their_schema_action() {
    let mut s = schema();
    s.actions.push(action("a.a", false));
    let reg: Registry<u32, u32, u32> = RegistryBuilder::from_schema(s)
        .attach("a.b".to_owned(), 7, Some(70), Some(700))
        .attach("a.a".to_owned(), 8, None, None)
        .build()
        .unwrap_or_else(|_| panic!("builds"));
    let b = reg.action("a.b").expect("registered");
    assert_eq!((b.handler, b.dry_run, b.slot_builder), (7, Some(70), Some(700)));
    let a = reg.action("a.a").expect("registered");
    assert_eq!((a.handler, a.dry_run, a.slot_builder), (8, None, None));
}
