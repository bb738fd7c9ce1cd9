use jaeb::attrs::{HandlerAttrs, ListenerAttrs};
use jaeb::declare::{
    expand_dead_letter_handler, expand_event_listener, expand_handler, resolve_listener_name, scan_extra_params,
    to_pascal_case, FnShape, GenericArg, ParamShape, ParamStyle, PatShape, SubscribeCall, TypeShape,
};
use jaeb::types::RetryStrategy;

fn path(name: &str) -> TypeShape {
    TypeShape::Path { last: name.to_string(), args: Vec::new() }
}

fn generic(name: &str, inner: TypeShape) -> TypeShape {
    TypeShape::Path { last: name.to_string(), args: vec![GenericArg::Type(inner)] }
}

fn shared(t: TypeShape) -> TypeShape {
    TypeShape::Reference { mutable: false, target: Box::new(t) }
}

fn unique(t: TypeShape) -> TypeShape {
    TypeShape::Reference { mutable: true, target: Box::new(t) }
}

fn param(name: &str, ty: TypeShape) -> ParamShape {
    ParamShape::Typed { pat: PatShape::Ident(name.to_string()), ty }
}

fn destructured(wrapper: &str, name: &str, ty: TypeShape) -> ParamShape {
    ParamShape::Typed {
        pat: PatShape::TupleStruct { last: wrapper.to_string(), elems: vec![PatShape::Ident(name.to_string())] },
        ty,
    }
}

fn sig(name: &str, is_async: bool, params: Vec<ParamShape>, output: Option<TypeShape>) -> FnShape {
    FnShape { name: name.to_string(), is_async, params, output }
}

fn returns_result() -> Option<TypeShape> {
    Some(path("HandlerResult"))
}

fn attrs(input: &str) -> HandlerAttrs {
    HandlerAttrs::parse(input).expect("attributes parse")
}

fn listener_attrs(input: &str) -> ListenerAttrs {
    ListenerAttrs::parse(input).expect("attributes parse")
}

fn handler_err(a: &str, f: FnShape) -> String {
    expand_handler(&attrs(a), &f).expect_err("declaration must be refused")
}

fn dead_letter_err(a: &str, f: FnShape) -> String {
    expand_dead_letter_handler(&attrs(a), &f).expect_err("declaration must be refused")
}

// ── Names ──────────────────────────────────────────────────────────────────

#[test]
fn pascal_case_of_snake_case() {
    assert_eq!(to_pascal_case("on_order_placed"), "OnOrderPlaced");
    assert_eq!(to_pascal_case("audit"), "Audit");
    assert_eq!(to_pascal_case("__double__under"), "DoubleUnder");
    assert_eq!(to_pascal_case(""), "");
    assert_eq!(to_pascal_case("already_Upper9x"), "AlreadyUpper9x");
}

#[test]
fn listener_name_defaults_to_function_name() {
    assert_eq!(resolve_listener_name(&None, &"on_event".to_string()), Some("on_event".to_string()));
    assert_eq!(resolve_listener_name(&Some("custom".to_string()), &"on_event".to_string()), Some("custom".to_string()));
    assert_eq!(resolve_listener_name(&Some(String::new()), &"on_event".to_string()), None);
}

// ── Handler declarations refused ───────────────────────────────────────────

#[test]
fn handler_on_method_is_refused() {
    let f = sig("on_event", true, vec![ParamShape::Receiver, param("event", shared(path("MyEvent")))], returns_result());
    assert_eq!(handler_err("", f), "#[handler] can only be applied to free functions, not methods");
}

#[test]
fn handler_without_event_is_refused() {
    let f = sig("on_event", true, vec![], returns_result());
    assert_eq!(handler_err("", f), "#[handler] function must have at least one parameter (the event)");
}

#[test]
fn handler_without_return_type_is_refused() {
    let f = sig("on_event", true, vec![param("event", shared(path("MyEvent")))], None);
    assert_eq!(handler_err("", f), "#[handler] function must have an explicit return type (-> HandlerResult)");
}

#[test]
fn handler_with_wrong_return_type_is_refused() {
    let f = sig("on_event", true, vec![param("event", shared(path("MyEvent")))], Some(TypeShape::Other));
    assert_eq!(handler_err("", f), "#[handler] function must return `HandlerResult`");
}

#[test]
fn handler_with_mutable_event_is_refused() {
    let f = sig("on_event", true, vec![param("event", unique(path("MyEvent")))], returns_result());
    assert_eq!(handler_err("", f), "event parameter must be a reference: `event: &EventType`");
}

#[test]
fn handler_on_dead_letters_is_refused() {
    let f = sig("on_dead_letter", false, vec![param("event", shared(path("DeadLetter")))], returns_result());
    assert_eq!(
        handler_err("", f),
        "use `#[dead_letter_handler]` for DeadLetter handlers — `#[handler]` cannot be used with `&DeadLetter`"
    );
}

#[test]
fn handler_with_plain_extra_param_is_refused() {
    let f = sig("on_event", true, vec![param("event", shared(path("MyEvent"))), param("db", path("Db"))], returns_result());
    assert_eq!(
        handler_err("", f),
        "handler dependency parameter type must be `Dep<T>`; add `use jaeb::Dep` and annotate as `Dep(name): Dep<MyType>` or `name: Dep<MyType>`"
    );
}

#[test]
fn handler_with_bad_dep_pattern_is_refused() {
    let f = sig(
        "on_event",
        true,
        vec![
            param("event", shared(path("MyEvent"))),
            ParamShape::Typed { pat: PatShape::Other, ty: generic("Dep", path("Db")) },
        ],
        returns_result(),
    );
    assert_eq!(
        handler_err("", f),
        "handler dependency parameter must use `Dep(name): Dep<T>` (destructured) or `name: Dep<T>` (plain identifier) syntax"
    );
}

#[test]
fn handler_base_ms_without_strategy_is_refused() {
    let f = sig("on_event", true, vec![param("event", shared(path("MyEvent")))], returns_result());
    assert_eq!(
        handler_err("retries = 1, retry_base_ms = 100", f),
        "`retry_base_ms` and `retry_max_ms` require `retry_strategy`; add `retry_strategy = \"exponential\"` (or `\"exponential_jitter\"` / `\"fixed\")"
    );
}

#[test]
fn handler_exponential_without_max_is_refused() {
    let f = sig("on_event", true, vec![param("event", shared(path("MyEvent")))], returns_result());
    assert_eq!(
        handler_err(r#"retries = 1, retry_strategy = "exponential_jitter", retry_base_ms = 10"#, f),
        "`retry_strategy = \"exponential_jitter\"` requires both `retry_base_ms` and `retry_max_ms`"
    );
}

#[test]
fn handler_fixed_without_base_is_refused() {
    let f = sig("on_event", true, vec![param("event", shared(path("MyEvent")))], returns_result());
    assert_eq!(
        handler_err(r#"retries = 1, retry_strategy = "fixed""#, f),
        "`retry_strategy = \"fixed\"` requires `retry_base_ms`"
    );
}

#[test]
fn handler_strategy_without_retries_is_refused() {
    let f = sig("on_event", true, vec![param("event", shared(path("MyEvent")))], returns_result());
    assert_eq!(
        handler_err(r#"retry_strategy = "fixed", retry_base_ms = 100"#, f),
        "retry strategy attributes have no effect without `retries`; add `retries = N` or remove retry-related attributes"
    );
}

#[test]
fn handler_retry_on_sync_is_refused() {
    let f = sig("on_event", false, vec![param("event", shared(path("MyEvent")))], returns_result());
    assert_eq!(
        handler_err("retries = 1", f),
        "`retries` and retry strategy attributes are only supported on async handlers — sync handlers execute exactly once (failures produce dead letters when enabled)"
    );
}

#[test]
fn handler_priority_on_async_is_refused() {
    let f = sig("on_event", true, vec![param("event", shared(path("MyEvent")))], returns_result());
    assert_eq!(handler_err("priority = 1", f), "`priority` attribute is only supported on sync handlers");
}

// ── Handler declarations accepted ──────────────────────────────────────────

#[test]
fn async_handler_with_retry_policy() {
    let f = sig("process_payment", true, vec![param("event", shared(path("PaymentRequested")))], returns_result());
    let a = attrs(r#"retries = 2, retry_strategy = "fixed", retry_base_ms = 50, dead_letter = true, name = "payment-processor""#);
    let plan = expand_handler(&a, &f).expect("declaration accepted");
    assert!(plan.is_async);
    assert!(plan.deps.is_empty());
    assert!(!plan.has_bus);
    assert_eq!(plan.handler_name.as_deref(), Some("payment-processor"));
    assert_eq!(plan.struct_name, "ProcessPaymentHandler");
    assert_eq!(plan.resolved_name, None);
    match plan.subscribe {
        SubscribeCall::AsyncPolicy(p) => {
            assert_eq!(p.max_retries, 2);
            assert!(p.dead_letter);
            match p.retry_strategy {
                Some(RetryStrategy::Fixed(d)) => assert_eq!(d.as_millis(), 50),
                other => panic!("expected a fixed strategy, got {:?}", other),
            }
        }
        other => panic!("expected an async policy, got {:?}", other),
    }
}

#[test]
fn async_handler_exponential_policy() {
    let f = sig("flaky", true, vec![param("event", shared(path("E")))], returns_result());
    let a = attrs(r#"retries = 3, retry_strategy = "exponential", retry_base_ms = 50, retry_max_ms = 5000"#);
    let plan = expand_handler(&a, &f).expect("declaration accepted");
    match plan.subscribe {
        SubscribeCall::AsyncPolicy(p) => {
            assert_eq!(p.max_retries, 3);
            assert!(p.dead_letter);
            match p.retry_strategy {
                Some(RetryStrategy::Exponential { base, max }) => {
                    assert_eq!(base.as_millis(), 50);
                    assert_eq!(max.as_millis(), 5000);
                }
                other => panic!("expected an exponential strategy, got {:?}", other),
            }
        }
        other => panic!("expected an async policy, got {:?}", other),
    }
}

#[test]
fn sync_handler_with_priority() {
    let f = sig("audit", false, vec![param("event", shared(path("OrderPlaced")))], returns_result());
    let plan = expand_handler(&attrs("priority = 10, dead_letter = false"), &f).expect("declaration accepted");
    assert!(!plan.is_async);
    assert_eq!(plan.handler_name.as_deref(), Some("audit"));
    assert_eq!(plan.struct_name, "AuditHandler");
    match plan.subscribe {
        SubscribeCall::SyncPolicy(p) => {
            assert_eq!(p.priority, 10);
            assert!(!p.dead_letter);
        }
        other => panic!("expected a sync policy, got {:?}", other),
    }
}

#[test]
fn handler_without_policy_attributes_subscribes_plainly() {
    let f = sig("on_order", true, vec![param("event", shared(path("OrderPlaced")))], returns_result());
    let plan = expand_handler(&attrs(r#"name = """#), &f).expect("declaration accepted");
    assert_eq!(plan.handler_name, None);
    assert!(matches!(plan.subscribe, SubscribeCall::Plain));
}

#[test]
fn handler_with_dependencies_and_bus() {
    let f = sig(
        "process_order",
        true,
        vec![
            param("event", shared(path("OrderPlaced"))),
            destructured("Dep", "db", generic("Dep", generic("Arc", path("DbPool")))),
            param("bus", shared(path("EventBus"))),
            param("mailer", generic("Dep", path("Mailer"))),
        ],
        returns_result(),
    );
    let plan = expand_handler(&attrs(""), &f).expect("declaration accepted");
    assert!(plan.has_bus);
    assert_eq!(plan.deps.len(), 2);
    assert_eq!(plan.deps[0].name, "db");
    assert_eq!(plan.deps[0].position, 1);
    assert_eq!(plan.deps[1].name, "mailer");
    assert_eq!(plan.deps[1].position, 3);
    assert_eq!(plan.resolved_name.as_deref(), Some("__ProcessOrderResolved"));
}

// ── Dead-letter handler declarations ───────────────────────────────────────

#[test]
fn dead_letter_handler_async_is_refused() {
    let f = sig("on_dead_letter", true, vec![param("event", shared(path("DeadLetter")))], returns_result());
    assert_eq!(
        dead_letter_err("", f),
        "#[dead_letter_handler] must be synchronous — remove `async` (dead-letter handlers implement SyncEventHandler)"
    );
}

#[test]
fn dead_letter_handler_bus_param_is_refused() {
    let f = sig(
        "on_dead_letter",
        false,
        vec![param("event", shared(path("DeadLetter"))), param("bus", shared(path("EventBus")))],
        returns_result(),
    );
    assert_eq!(dead_letter_err("", f), "#[dead_letter_handler] cannot declare a `bus: &EventBus` parameter");
}

#[test]
fn dead_letter_handler_on_method_is_refused() {
    let f = sig("on_dead_letter", false, vec![ParamShape::Receiver, param("event", shared(path("DeadLetter")))], returns_result());
    assert_eq!(dead_letter_err("", f), "#[dead_letter_handler] can only be applied to free functions, not methods");
}

#[test]
fn dead_letter_handler_without_event_is_refused() {
    let f = sig("on_dead_letter", false, vec![], returns_result());
    assert_eq!(dead_letter_err("", f), "#[dead_letter_handler] function must have one parameter: `event: &DeadLetter`");
}

#[test]
fn dead_letter_handler_without_return_type_is_refused() {
    let f = sig("on_dead_letter", false, vec![param("event", shared(path("DeadLetter")))], None);
    assert_eq!(
        dead_letter_err("", f),
        "#[dead_letter_handler] function must have an explicit return type (-> HandlerResult)"
    );
}

#[test]
fn dead_letter_handler_wrong_first_param_is_refused() {
    let f = sig("on_dead_letter", false, vec![param("event", shared(path("MyEvent")))], returns_result());
    assert_eq!(dead_letter_err("", f), "#[dead_letter_handler] first parameter must be `&DeadLetter`");
}

#[test]
fn dead_letter_handler_policy_is_refused() {
    let f = sig("on_dead_letter", false, vec![param("event", shared(path("DeadLetter")))], returns_result());
    assert_eq!(
        dead_letter_err("dead_letter = true", f),
        "subscription policy attributes (retries, retry_strategy, retry_base_ms, retry_max_ms, dead_letter, priority) are not supported on dead-letter handlers"
    );
}

#[test]
fn dead_letter_handler_accepted() {
    let f = sig(
        "log_dead_letter",
        false,
        vec![param("event", shared(path("DeadLetter"))), destructured("Dep", "log", generic("Dep", path("AuditLog")))],
        returns_result(),
    );
    let plan = expand_dead_letter_handler(&attrs(""), &f).expect("declaration accepted");
    assert!(!plan.is_async);
    assert_eq!(plan.deps.len(), 1);
    assert_eq!(plan.handler_name.as_deref(), Some("log_dead_letter"));
    assert_eq!(plan.struct_name, "LogDeadLetterHandler");
    assert!(matches!(plan.subscribe, SubscribeCall::DeadLetters));
}

// ── Listener declarations ──────────────────────────────────────────────────

#[test]
fn listener_with_component_and_retry_policy() {
    let f = sig(
        "on_order_placed",
        true,
        vec![param("event", shared(path("OrderPlacedEvent"))), destructured("Component", "db", generic("Component", path("DbPool")))],
        returns_result(),
    );
    let a = listener_attrs(r#"retries = 2, retry_strategy = "fixed", retry_base_ms = 500, dead_letter = true"#);
    let plan = expand_event_listener(&a, &f).expect("declaration accepted");
    assert!(plan.is_async);
    assert!(!plan.is_dead_letter);
    assert_eq!(plan.state.len(), 1);
    assert_eq!(plan.state[0].name, "db");
    assert_eq!(plan.listener_name.as_deref(), Some("on_order_placed"));
    assert_eq!(plan.failure_message, "summer-jaeb: failed to subscribe listener 'on_order_placed'");
    match plan.subscribe {
        SubscribeCall::AsyncPolicy(p) => {
            assert_eq!(p.max_retries, 2);
            match p.retry_strategy {
                Some(RetryStrategy::Fixed(d)) => assert_eq!(d.as_millis(), 500),
                other => panic!("expected a fixed strategy, got {:?}", other),
            }
        }
        other => panic!("expected an async policy, got {:?}", other),
    }
}

#[test]
fn dead_letter_listener_detected_from_event_type() {
    let f = sig("on_dead_letter", false, vec![param("event", shared(path("DeadLetter")))], returns_result());
    let plan = expand_event_listener(&listener_attrs(r#"name = "dead_letter""#), &f).expect("declaration accepted");
    assert!(plan.is_dead_letter);
    assert_eq!(plan.listener_name.as_deref(), Some("dead_letter"));
    assert!(matches!(plan.subscribe, SubscribeCall::DeadLetters));
}

#[test]
fn async_dead_letter_listener_is_refused() {
    let f = sig("on_dead_letter", true, vec![param("event", shared(path("DeadLetter")))], returns_result());
    let err = expand_event_listener(&listener_attrs(""), &f).unwrap_err();
    assert_eq!(
        err,
        "DeadLetter listeners must be synchronous — remove `async` (subscribe_dead_letters requires SyncEventHandler)"
    );
}

#[test]
fn dead_letter_listener_with_bus_is_refused() {
    let f = sig(
        "on_dead_letter",
        false,
        vec![param("event", shared(path("DeadLetter"))), param("bus", shared(path("EventBus")))],
        returns_result(),
    );
    let err = expand_event_listener(&listener_attrs(""), &f).unwrap_err();
    assert_eq!(err, "DeadLetter listeners cannot declare a `bus: &EventBus` parameter");
}

#[test]
fn listener_state_param_must_be_destructured() {
    let f = sig(
        "on_event",
        false,
        vec![param("event", shared(path("E"))), param("db", generic("Component", path("Db")))],
        returns_result(),
    );
    let err = expand_event_listener(&listener_attrs(""), &f).unwrap_err();
    assert_eq!(err, "state parameter must use `Component(name): Component<Type>` syntax");
}

#[test]
fn listener_bounds_without_strategy_message() {
    let f = sig("on_event", true, vec![param("event", shared(path("E")))], returns_result());
    let err = expand_event_listener(&listener_attrs("retries = 1, retry_max_ms = 10"), &f).unwrap_err();
    assert_eq!(
        err,
        "`retry_base_ms` and `retry_max_ms` require `retry_strategy`; add `retry_strategy = \"exponential\"` (or `\"exponential_jitter\"` / `\"fixed\"`)"
    );
}

#[test]
fn scan_reports_receiver_among_extra_params() {
    let params = vec![param("event", shared(path("E"))), ParamShape::Receiver];
    assert_eq!(
        scan_extra_params(&params, ParamStyle::Component).unwrap_err(),
        "unexpected `self` parameter in event listener"
    );
    assert_eq!(scan_extra_params(&params, ParamStyle::Dep).unwrap_err(), "unexpected `self` parameter in handler");
}

// Every declaration of the refused-declaration cases is refused.
#[test]
fn compile_fail() {
    let ev = || param("event", shared(path("MyEvent")));
    let dl = || param("event", shared(path("DeadLetter")));
    let handler_cases: Vec<(&str, FnShape)> = vec![
        ("retries = 1, retry_base_ms = 100", sig("on_event", true, vec![ev()], returns_result())),
        ("", sig("on_dead_letter", false, vec![dl()], returns_result())),
        ("", sig("on_event", true, vec![ev(), param("db", path("Db"))], returns_result())),
        ("", sig("on_event", true, vec![ParamShape::Receiver, ev()], returns_result())),
        ("", sig("on_event", true, vec![], returns_result())),
        ("", sig("on_event", true, vec![param("event", unique(path("MyEvent")))], returns_result())),
        ("priority = 1", sig("on_event", true, vec![ev()], returns_result())),
        ("retries = 1", sig("on_event", false, vec![ev()], returns_result())),
        (r#"retry_strategy = "fixed", retry_base_ms = 100"#, sig("on_event", true, vec![ev()], returns_result())),
        ("", sig("on_event", true, vec![ev()], Some(TypeShape::Other))),
    ];
    for (a, f) in handler_cases {
        assert!(expand_handler(&attrs(a), &f).is_err(), "handler declaration {} must be refused", f.name);
    }
    let dead_letter_cases: Vec<FnShape> = vec![
        sig("on_dead_letter", true, vec![dl()], returns_result()),
        sig("on_dead_letter", false, vec![dl(), param("bus", shared(path("EventBus")))], returns_result()),
        sig("on_dead_letter", false, vec![ParamShape::Receiver, dl()], returns_result()),
        sig("on_dead_letter", false, vec![], returns_result()),
        sig("on_dead_letter", false, vec![dl()], None),
        sig("on_dead_letter", false, vec![ev()], returns_result()),
    ];
    for f in dead_letter_cases {
        assert!(expand_dead_letter_handler(&attrs(""), &f).is_err(), "dead-letter declaration must be refused");
    }
}

#[test]
fn sync_listener_carries_priority() {
    let f = sig("on_event", false, vec![param("event", shared(path("E")))], returns_result());
    let plan = expand_event_listener(&listener_attrs("priority = 5"), &f).expect("declaration accepted");
    match plan.subscribe {
        SubscribeCall::SyncPolicy(p) => {
            assert_eq!(p.priority, 5);
            assert!(p.dead_letter);
        }
        other => panic!("expected a sync policy, got {:?}", other),
    }
}

#[test]
fn async_listener_priority_is_refused() {
    let f = sig("on_event", true, vec![param("event", shared(path("E")))], returns_result());
    let err = expand_event_listener(&listener_attrs("priority = 1"), &f).unwrap_err();
    assert_eq!(err, "`priority` attribute is only supported on sync handlers");
}

#[test]
fn dead_letter_listener_priority_is_refused() {
    let f = sig("on_dead_letter", false, vec![param("event", shared(path("DeadLetter")))], returns_result());
    let err = expand_event_listener(&listener_attrs("priority = 1"), &f).unwrap_err();
    assert_eq!(
        err,
        "subscription policy attributes (retries, retry_strategy, retry_base_ms, retry_max_ms, dead_letter, priority) are not supported on DeadLetter listeners"
    );
}
