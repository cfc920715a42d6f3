use cleverhans::envelope::{Context, DryRunPreview};
use cleverhans::error::{HandlerError, ValidationFailure};
use cleverhans::json::{Json, JsonMap, JsonNumber};
use cleverhans::registry::{ActionDef, BlockDef, ParamSource, ParamSpec, Registry, SlotSpec, ValueType};
use cleverhans::schema::MappedContextResolver;
use cleverhans::seams::{static_slots, AuthzDecision, StaticSlots};
use cleverhans::strmap::StrMap;
use cleverhans::validation::{authorized, previewed, CandidateAction, DryRunStep, ValidatedAction, Validator};

struct NoopHandler;
struct OnePreview;

impl OnePreview {
    fn dry_run(&self) -> Result<DryRunPreview, HandlerError> {
        Ok(DryRunPreview { affected_count: 1, sample_ids: Vec::new(), summary: None, extensions: JsonMap::new() })
    }
}

/// Fills `recordId` from the selected record, as the app's mapping does.
fn selection_resolver() -> MappedContextResolver {
    let mut paths = StrMap::new();
    paths.insert("recordId".to_owned(), "selected_record_id".to_owned());
    MappedContextResolver::new(paths)
}

fn title_slot() -> StaticSlots {
    let mut slots = JsonMap::new();
    slots.insert("title".to_owned(), Json::String("Remove record".to_owned()));
    static_slots(slots)
}

fn registry() -> Registry<NoopHandler, OnePreview, StaticSlots> {
    Registry::builder()
        .block(BlockDef {
            block_type: "confirm".to_owned(),
            slots: vec![SlotSpec { name: "title".to_owned(), ty: ValueType::String, required: true }],
        })
        .action(
            ActionDef {
                id: "record.remove".to_owned(),
                description: "Remove the selected record".to_owned(),
                params: vec![
                    ParamSpec {
                        name: "recordId".to_owned(),
                        description: String::new(),
                        ty: ValueType::String,
                        source: ParamSource::Context,
                        required: true,
                    },
                    ParamSpec {
                        name: "country".to_owned(),
                        description: "ISO code".to_owned(),
                        ty: ValueType::String,
                        source: ParamSource::Utterance,
                        required: false,
                    },
                ],
                block_type: "confirm".to_owned(),
                mutates: true,
                authz_key: "record.remove".to_owned(),
                display: None,
            },
            NoopHandler,
            Some(OnePreview),
            Some(title_slot()),
        )
        .build()
        .unwrap_or_else(|_| panic!("valid registry"))
}

fn context_with_selection() -> Context {
    let mut c = Context::empty();
    c.route = "/records/rec_1".to_owned();
    c.selected_record_id = Some("rec_1".to_owned());
    c
}

fn candidate(params: JsonMap) -> CandidateAction {
    CandidateAction { action_id: "record.remove".to_owned(), utterance_params: params }
}

/// The validation steps in order, with an authorization decision for the
/// principal (allowed or not).
fn validate(
    registry: &Registry<NoopHandler, OnePreview, StaticSlots>,
    candidate: &CandidateAction,
    context: &Context,
    allowed: bool,
) -> Result<ValidatedAction, ValidationFailure> {
    let resolver = selection_resolver();
    let validator = Validator::new(registry, &resolver);
    let prepared = validator.prepare(candidate, context)?;
    let decision = if allowed { AuthzDecision::Allow } else { AuthzDecision::Deny("missing permission".to_owned()) };
    authorized(&prepared.registration.def.id, decision)?;
    let preview = match validator.dry_run_step(&prepared)? {
        DryRunStep::Skip => None,
        DryRunStep::Run(d) => Some(previewed(d.dry_run())?),
    };
    let slots = validator.build_slots(&prepared, preview.as_ref());
    validator.finish(prepared, preview, slots)
}

#[test]
fn fills_context_param_from_snapshot() {
    let validated = validate(&registry(), &candidate(JsonMap::new()), &context_with_selection(), true)
        .unwrap_or_else(|f| panic!("valid candidate: {f:?}"));
    assert_eq!(validated.params.get("recordId"), Some(&Json::String("rec_1".to_owned())));
}

#[test]
fn attaches_dry_run_preview_for_mutating_action() {
    let validated = validate(&registry(), &candidate(JsonMap::new()), &context_with_selection(), true)
        .unwrap_or_else(|f| panic!("valid candidate: {f:?}"));
    assert_eq!(validated.preview.map(|p| p.affected_count), Some(1));
    assert_eq!(validated.slots.get("title"), Some(&Json::String("Remove record".to_owned())));
}

#[test]
fn rejects_unknown_action() {
    let unknown = CandidateAction { action_id: "made.up".to_owned(), utterance_params: JsonMap::new() };
    let result = validate(&registry(), &unknown, &context_with_selection(), true);
    assert!(matches!(result, Err(ValidationFailure::UnknownAction(id)) if id == "made.up"));
}

#[test]
fn rejects_model_writing_context_param() {
    let mut params = JsonMap::new();
    params.insert("recordId".to_owned(), Json::String("rec_666".to_owned()));
    let result = validate(&registry(), &candidate(params), &context_with_selection(), true);
    assert!(matches!(result, Err(ValidationFailure::UnknownParam(p)) if p == "recordId"));
}

#[test]
fn rejects_mistyped_utterance_param() {
    let mut params = JsonMap::new();
    params.insert("country".to_owned(), Json::Number(JsonNumber::PosInt(42)));
    let result = validate(&registry(), &candidate(params), &context_with_selection(), true);
    assert!(matches!(result, Err(ValidationFailure::InvalidParam { param, .. }) if param == "country"));
}

#[test]
fn rejects_unauthorized_principal() {
    let result = validate(&registry(), &candidate(JsonMap::new()), &context_with_selection(), false);
    assert!(matches!(
        result,
        Err(ValidationFailure::Unauthorized { action_id, reason }) if action_id == "record.remove" && reason == "missing permission"
    ));
}

#[test]
fn rejects_when_required_context_param_unresolvable() {
    let mut no_selection = Context::empty();
    no_selection.route = "/records".to_owned();
    let result = validate(&registry(), &candidate(JsonMap::new()), &no_selection, true);
    assert!(matches!(result, Err(ValidationFailure::UnresolvedContextParam(p)) if p == "recordId"));
}

#[test]
fn a_failed_preview_fails_validation_closed() {
    let r = previewed(Err(HandlerError::Internal("db down".to_owned())));
    assert!(matches!(r, Err(ValidationFailure::DryRun(m)) if m.contains("db down")));
}
