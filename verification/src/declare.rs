//! Declaring handlers from annotated functions: the checks a declaration
//! must pass and the registration it describes.
//!
//! A declaration is a function signature described by its shape (the parts
//! of its parameter patterns and types that the checks read) together with
//! its parsed attributes. Each check either names the first problem, with
//! the message a user sees, or yields a plan: which handler trait the
//! function implements, which dependencies it resolves, its listener name,
//! the names of the generated items and how it subscribes.
use crate::attrs::{opt_view, str_is, chars_of, AttrsView, HandlerAttrs, ListenerAttrs};
use crate::text::{ascii_upper, push_char, push_uppercase, uppercase_of};
use crate::types::{AsyncSubscriptionPolicy, RetryStrategy, SyncSubscriptionPolicy};
use crate::duration::Duration;
use vstd::prelude::*;

verus! {

// ── Signature shapes ──────────────────────────────────────────────────────

/// The shape of a type in a signature, as far as the checks read it.
#[derive(Debug)]
pub enum TypeShape {
    /// `&T` (`mutable` false) or `&mut T` (`mutable` true).
    Reference { mutable: bool, target: Box<TypeShape> },
    /// A path type: the identifier of its last segment and the
    /// angle-bracketed generic arguments of that segment (none if it has
    /// no angle brackets).
    Path { last: String, args: Vec<GenericArg> },
    /// Any other type.
    Other,
}

/// A generic argument of a path segment.
#[derive(Debug)]
pub enum GenericArg {
    /// A type argument.
    Type(TypeShape),
    /// A lifetime, constant or binding argument.
    NonType,
}

/// The shape of a parameter pattern.
#[derive(Debug)]
pub enum PatShape {
    /// A plain identifier.
    Ident(String),
    /// A tuple-struct pattern: the last segment of its path and its
    /// element patterns.
    TupleStruct { last: String, elems: Vec<PatShape> },
    /// Any other pattern.
    Other,
}

/// A parameter of a signature.
#[derive(Debug)]
pub enum ParamShape {
    /// `self` in any form.
    Receiver,
    /// `pat: ty`.
    Typed { pat: PatShape, ty: TypeShape },
}

/// The shape of an annotated function.
#[derive(Debug)]
pub struct FnShape {
    /// The function's identifier.
    pub name: String,
    /// Whether it is `async`.
    pub is_async: bool,
    /// Its parameters, in order.
    pub params: Vec<ParamShape>,
    /// Its declared return type; `None` for the default `()`.
    pub output: Option<TypeShape>,
}

/// Whether `t` is a path type whose last segment is `name`.
pub open spec fn last_is(t: TypeShape, name: Seq<char>) -> bool {
    t matches TypeShape::Path { last, .. } && last@ == name
}

/// `T` where `t` is `&T`; nothing for `&mut T` or a non-reference.
pub open spec fn ref_target(t: TypeShape) -> Option<TypeShape> {
    match t {
        TypeShape::Reference { mutable, target } => if mutable {
            None
        } else {
            Some(*target)
        },
        _ => None,
    }
}

/// Whether `t` is `&EventBus`.
pub open spec fn is_bus_ref(t: TypeShape) -> bool {
    match ref_target(t) {
        Some(u) => last_is(u, "EventBus"@),
        None => false,
    }
}

/// Whether `t` is `Name<T>`: a path ending in `name` with exactly one
/// generic argument, a type.
pub open spec fn wraps_one_type(t: TypeShape, name: Seq<char>) -> bool {
    match t {
        TypeShape::Path { last, args } => last@ == name && args@.len() == 1 && args@[0] is Type,
        _ => false,
    }
}

/// The name bound by a dependency pattern: `Dep(name)` or a plain `name`.
pub open spec fn dep_binding(p: PatShape) -> Option<Seq<char>> {
    match p {
        PatShape::Ident(n) => Some(n@),
        PatShape::TupleStruct { last, elems } => if elems@.len() == 1 && last@ == "Dep"@ {
            match elems@[0] {
                PatShape::Ident(n) => Some(n@),
                _ => None,
            }
        } else {
            None
        },
        PatShape::Other => None,
    }
}

/// The name bound by a component pattern: a tuple-struct pattern with one
/// identifier, whatever its path.
pub open spec fn component_binding(p: PatShape) -> Option<Seq<char>> {
    match p {
        PatShape::TupleStruct { elems, .. } => if elems@.len() == 1 {
            match elems@[0] {
                PatShape::Ident(n) => Some(n@),
                _ => None,
            }
        } else {
            None
        },
        _ => None,
    }
}

fn path_named(t: &TypeShape, name: &str) -> (r: bool)
    ensures
        r == last_is(*t, name@),
{
    match t {
        TypeShape::Path { last, .. } => str_is(last, name),
        _ => false,
    }
}

fn target_of(t: &TypeShape) -> (r: Option<&TypeShape>)
    ensures
        match ref_target(*t) {
            Some(u) => r matches Some(v) && *v == u,
            None => r is None,
        },
{
    match t {
        TypeShape::Reference { mutable, target } => if *mutable {
            None
        } else {
            Some(&**target)
        },
        _ => None,
    }
}

fn bus_ref(t: &TypeShape) -> (r: bool)
    ensures
        r == is_bus_ref(*t),
{
    match target_of(t) {
        Some(u) => path_named(u, "EventBus"),
        None => false,
    }
}

fn one_type_arg(t: &TypeShape, name: &str) -> (r: bool)
    ensures
        r == wraps_one_type(*t, name@),
{
    match t {
        TypeShape::Path { last, args } => {
            if str_is(last, name) && args.len() == 1 {
                match &args[0] {
                    GenericArg::Type(_) => true,
                    GenericArg::NonType => false,
                }
            } else {
                false
            }
        },
        _ => false,
    }
}

fn single_ident(elems: &Vec<PatShape>) -> (r: Option<String>)
    ensures
        elems@.len() == 1 && elems@[0] is Ident ==> (r matches Some(n) && elems@[0] matches PatShape::Ident(m) && n@ == m@),
        !(elems@.len() == 1 && elems@[0] is Ident) ==> r is None,
{
    if elems.len() == 1 {
        match &elems[0] {
            PatShape::Ident(n) => Some(n.clone()),
            _ => None,
        }
    } else {
        None
    }
}

fn dep_binding_name(p: &PatShape) -> (r: Option<String>)
    ensures
        opt_view(r) == dep_binding(*p),
{
    match p {
        PatShape::Ident(n) => Some(n.clone()),
        PatShape::TupleStruct { last, elems } => {
            if elems.len() == 1 && str_is(last, "Dep") {
                single_ident(elems)
            } else {
                None
            }
        },
        PatShape::Other => None,
    }
}

fn component_binding_name(p: &PatShape) -> (r: Option<String>)
    ensures
        opt_view(r) == component_binding(*p),
{
    match p {
        PatShape::TupleStruct { elems, .. } => single_ident(elems),
        _ => None,
    }
}

// ── Names ─────────────────────────────────────────────────────────────────

/// The PascalCase form of `s` read so far, and whether the next letter
/// starts a word: underscores are dropped and the letter after each, as
/// the first letter, is uppercased.
pub open spec fn pascal_state(s: Seq<char>) -> (Seq<char>, bool)
    decreases s.len(),
{
    if s.len() == 0 {
        (Seq::empty(), true)
    } else {
        let prev = pascal_state(s.drop_last());
        let c = s.last();
        if c == '_' {
            (prev.0, true)
        } else if prev.1 {
            (prev.0 + uppercase_of(c), false)
        } else {
            (prev.0.push(c), false)
        }
    }
}

/// The PascalCase form of an identifier.
pub open spec fn pascal_case(s: Seq<char>) -> Seq<char> {
    pascal_state(s).0
}

/// Whether every character of `s` is ASCII.
pub open spec fn all_ascii(s: Seq<char>) -> bool {
    forall|i: int| 0 <= i < s.len() ==> (s[i] as u32) < 128
}

/// [`pascal_state`] for ASCII text, where uppercasing a letter is the ASCII
/// uppercase.
pub open spec fn ascii_pascal_state(s: Seq<char>) -> (Seq<char>, bool)
    decreases s.len(),
{
    if s.len() == 0 {
        (Seq::empty(), true)
    } else {
        let prev = ascii_pascal_state(s.drop_last());
        let c = s.last();
        if c == '_' {
            (prev.0, true)
        } else if prev.1 {
            (prev.0.push(ascii_upper(c)), false)
        } else {
            (prev.0.push(c), false)
        }
    }
}

/// Converts a snake_case identifier to PascalCase.
pub fn to_pascal_case(input: &str) -> (r: String)
    ensures
        r@ == pascal_case(input@),
        all_ascii(input@) ==> r@ == ascii_pascal_state(input@).0,
{
    let cs = chars_of(input);
    let mut out = String::new();
    let mut upper = true;
    let mut i: usize = 0;
    while i < cs.len()
        invariant
            i <= cs@.len(),
            cs@ == input@,
            pascal_state(cs@.take(i as int)) == (out@, upper),
            all_ascii(cs@.take(i as int)) ==> ascii_pascal_state(cs@.take(i as int)) == (out@, upper),
        decreases cs@.len() - i,
    {
        let ch = cs[i];
        proof {
            assert(cs@.take(i + 1).drop_last() =~= cs@.take(i as int));
            if all_ascii(cs@.take(i + 1)) {
                assert(cs@.take(i + 1)[i as int] == ch);
                assert forall|k: int| 0 <= k < i implies (cs@.take(i as int)[k] as u32) < 128 by {
                    assert(cs@.take(i as int)[k] == cs@.take(i + 1)[k]);
                }
            }
        }
        if ch == '_' {
            upper = true;
        } else if upper {
            push_uppercase(&mut out, ch);
            upper = false;
        } else {
            push_char(&mut out, ch);
        }
        i = i + 1;
    }
    proof {
        assert(cs@.take(cs@.len() as int) =~= cs@);
    }
    out
}

/// The name of the generated handler item: `<PascalCase>Handler`.
pub open spec fn handler_struct_name(fn_name: Seq<char>) -> Seq<char> {
    pascal_case(fn_name) + "Handler"@
}

/// The name of the generated item holding resolved dependencies:
/// `__<PascalCase>Resolved`.
pub open spec fn resolved_struct_name(fn_name: Seq<char>) -> Seq<char> {
    "__"@ + pascal_case(fn_name) + "Resolved"@
}

fn struct_name_of(fn_name: &String) -> (r: String)
    ensures
        r@ == handler_struct_name(fn_name@),
{
    let mut s = to_pascal_case(fn_name.as_str());
    s.append("Handler");
    s
}

fn resolved_name_of(fn_name: &String) -> (r: String)
    ensures
        r@ == resolved_struct_name(fn_name@),
{
    let mut s = String::from_str("__");
    let p = to_pascal_case(fn_name.as_str());
    s.append(p.as_str());
    s.append("Resolved");
    s
}

/// The listener name a declaration gets: the function's own name by
/// default, the `name` attribute where one is given, and none where that
/// attribute is empty.
pub open spec fn listener_name(name_attr: Option<Seq<char>>, fn_name: Seq<char>) -> Option<Seq<char>> {
    match name_attr {
        Some(n) => if n.len() == 0 {
            None
        } else {
            Some(n)
        },
        None => Some(fn_name),
    }
}

/// Resolves the listener name of a declaration.
pub fn resolve_listener_name(name_attr: &Option<String>, fn_name: &String) -> (r: Option<String>)
    ensures
        opt_view(r) == listener_name(opt_view(*name_attr), fn_name@),
{
    match name_attr {
        Some(n) => if n.as_str().is_empty() {
            None
        } else {
            Some(n.clone())
        },
        None => Some(fn_name.clone()),
    }
}

// ── Messages ──────────────────────────────────────────────────────────────

/// Which declaration is checked.
#[derive(Debug, Clone, Copy, PartialEq, Eq, Structural)]
pub enum MacroKind {
    /// An event handler.
    Handler,
    /// A dead-letter handler.
    DeadLetterHandler,
    /// An auto-registered event listener.
    EventListener,
}

/// The attribute spelling of a declaration kind, as messages quote it.
pub open spec fn macro_label(k: MacroKind) -> Seq<char> {
    match k {
        MacroKind::Handler => "#[handler]"@,
        MacroKind::DeadLetterHandler => "#[dead_letter_handler]"@,
        MacroKind::EventListener => "#[event_listener]"@,
    }
}

fn label(k: MacroKind) -> (r: &'static str)
    ensures
        r@ == macro_label(k),
{
    match k {
        MacroKind::Handler => "#[handler]",
        MacroKind::DeadLetterHandler => "#[dead_letter_handler]",
        MacroKind::EventListener => "#[event_listener]",
    }
}

/// Follows the label of a declaration applied to a method.
pub const NOT_FREE: &'static str = " can only be applied to free functions, not methods";
/// Follows the label of a handler or listener without parameters.
pub const NO_EVENT: &'static str = " function must have at least one parameter (the event)";
/// Follows the label of a dead-letter handler without parameters.
pub const NO_DEAD_LETTER_EVENT: &'static str = " function must have one parameter: `event: &DeadLetter`";
/// Follows the label of a declaration without a return type.
pub const NO_RETURN: &'static str = " function must have an explicit return type (-> HandlerResult)";
/// Follows the label of a declaration with another return type.
pub const BAD_RETURN: &'static str = " function must return `HandlerResult`";
/// An event parameter that is not a shared reference.
pub const EVENT_NOT_REF: &'static str = "event parameter must be a reference: `event: &EventType`";
/// A dead-letter parameter that is not a shared reference.
pub const DEAD_LETTER_NOT_REF: &'static str = "event parameter must be a reference: `event: &DeadLetter`";
/// A handler declared on dead letters.
pub const USE_DEAD_LETTER_HANDLER: &'static str = "use `#[dead_letter_handler]` for DeadLetter handlers — `#[handler]` cannot be used with `&DeadLetter`";
/// A receiver among a handler's extra parameters.
pub const SELF_IN_HANDLER: &'static str = "unexpected `self` parameter in handler";
/// A receiver among a listener's extra parameters.
pub const SELF_IN_LISTENER: &'static str = "unexpected `self` parameter in event listener";
/// An extra handler parameter whose type is not `Dep<T>`.
pub const DEP_TYPE: &'static str = "handler dependency parameter type must be `Dep<T>`; add `use jaeb::Dep` and annotate as `Dep(name): Dep<MyType>` or `name: Dep<MyType>`";
/// An extra handler parameter with another pattern.
pub const DEP_PATTERN: &'static str = "handler dependency parameter must use `Dep(name): Dep<T>` (destructured) or `name: Dep<T>` (plain identifier) syntax";
/// An extra listener parameter with another pattern.
pub const COMPONENT_PATTERN: &'static str = "state parameter must use `Component(name): Component<Type>` syntax";
/// An extra listener parameter whose type is not `Component<T>`.
pub const COMPONENT_TYPE: &'static str = "state parameter type must be `Component<Type>`";
/// Delay bounds of a handler without a retry strategy.
pub const HANDLER_BOUNDS_WITHOUT_STRATEGY: &'static str = "`retry_base_ms` and `retry_max_ms` require `retry_strategy`; add `retry_strategy = \"exponential\"` (or `\"exponential_jitter\"` / `\"fixed\")";
/// Delay bounds of a listener without a retry strategy.
pub const LISTENER_BOUNDS_WITHOUT_STRATEGY: &'static str = "`retry_base_ms` and `retry_max_ms` require `retry_strategy`; add `retry_strategy = \"exponential\"` (or `\"exponential_jitter\"` / `\"fixed\"`)";
/// Opens the message for an exponential strategy missing a bound.
pub const EXPONENTIAL_OPEN: &'static str = "`retry_strategy = \"";
/// Closes the message for an exponential strategy missing a bound.
pub const EXPONENTIAL_CLOSE: &'static str = "\"` requires both `retry_base_ms` and `retry_max_ms`";
/// A fixed strategy without its delay.
pub const FIXED_WITHOUT_BASE: &'static str = "`retry_strategy = \"fixed\"` requires `retry_base_ms`";
/// Strategy attributes without `retries`.
pub const STRATEGY_WITHOUT_RETRIES: &'static str = "retry strategy attributes have no effect without `retries`; add `retries = N` or remove retry-related attributes";
/// Retry attributes on a sync declaration.
pub const RETRIES_ON_SYNC: &'static str = "`retries` and retry strategy attributes are only supported on async handlers — sync handlers execute exactly once (failures produce dead letters when enabled)";
/// A priority on an async declaration.
pub const PRIORITY_ON_ASYNC: &'static str = "`priority` attribute is only supported on sync handlers";
/// An async dead-letter handler.
pub const DEAD_LETTER_HANDLER_ASYNC: &'static str = "#[dead_letter_handler] must be synchronous — remove `async` (dead-letter handlers implement SyncEventHandler)";
/// Policy attributes on a dead-letter handler.
pub const DEAD_LETTER_HANDLER_POLICY: &'static str = "subscription policy attributes (retries, retry_strategy, retry_base_ms, retry_max_ms, dead_letter, priority) are not supported on dead-letter handlers";
/// A dead-letter handler whose event is not a dead letter.
pub const DEAD_LETTER_HANDLER_FIRST: &'static str = "#[dead_letter_handler] first parameter must be `&DeadLetter`";
/// A dead-letter handler taking the bus.
pub const DEAD_LETTER_HANDLER_BUS: &'static str = "#[dead_letter_handler] cannot declare a `bus: &EventBus` parameter";
/// An async dead-letter listener.
pub const DEAD_LETTER_LISTENER_ASYNC: &'static str = "DeadLetter listeners must be synchronous — remove `async` (subscribe_dead_letters requires SyncEventHandler)";
/// Policy attributes on a dead-letter listener.
pub const DEAD_LETTER_LISTENER_POLICY: &'static str = "subscription policy attributes (retries, retry_strategy, retry_base_ms, retry_max_ms, dead_letter, priority) are not supported on DeadLetter listeners";
/// A dead-letter listener taking the bus.
pub const DEAD_LETTER_LISTENER_BUS: &'static str = "DeadLetter listeners cannot declare a `bus: &EventBus` parameter";
/// Opens the message a listener's registration fails with.
pub const SUBSCRIBE_FAILED_OPEN: &'static str = "summer-jaeb: failed to subscribe listener '";

fn text(s: &str) -> (r: String)
    ensures
        r@ == s@,
{
    String::from_str(s)
}

fn labelled(k: MacroKind, rest: &str) -> (r: String)
    ensures
        r@ == macro_label(k) + rest@,
{
    let mut m = String::from_str(label(k));
    m.append(rest);
    m
}

// ── Signature checks ──────────────────────────────────────────────────────

/// The first problem with the outline of a signature: a method, no
/// parameter, no return type, or a return type other than `HandlerResult`.
pub open spec fn signature_error(f: FnShape, k: MacroKind) -> Option<Seq<char>> {
    if f.params@.len() > 0 && f.params@[0] is Receiver {
        Some(macro_label(k) + NOT_FREE@)
    } else if f.params@.len() == 0 {
        Some(
            macro_label(k) + if k == MacroKind::DeadLetterHandler {
                NO_DEAD_LETTER_EVENT@
            } else {
                NO_EVENT@
            },
        )
    } else {
        match f.output {
            None => Some(macro_label(k) + NO_RETURN@),
            Some(t) => if last_is(t, "HandlerResult"@) {
                None
            } else {
                Some(macro_label(k) + BAD_RETURN@)
            },
        }
    }
}

/// The event type of a signature whose first parameter is `event: &T`.
pub open spec fn event_target(f: FnShape) -> Option<TypeShape> {
    match f.params@[0] {
        ParamShape::Typed { ty, .. } => ref_target(ty),
        ParamShape::Receiver => None,
    }
}

fn signature_check(f: &FnShape, k: MacroKind) -> (r: Option<String>)
    ensures
        opt_view(r) == signature_error(*f, k),
{
    if f.params.len() > 0 {
        if let ParamShape::Receiver = &f.params[0] {
            return Some(labelled(k, NOT_FREE));
        }
    }
    if f.params.len() == 0 {
        if k == MacroKind::DeadLetterHandler {
            return Some(labelled(k, NO_DEAD_LETTER_EVENT));
        }
        return Some(labelled(k, NO_EVENT));
    }
    match &f.output {
        None => Some(labelled(k, NO_RETURN)),
        Some(t) => if path_named(t, "HandlerResult") {
            None
        } else {
            Some(labelled(k, BAD_RETURN))
        },
    }
}

fn event_target_of(f: &FnShape) -> (r: Option<&TypeShape>)
    requires
        f.params@.len() > 0,
    ensures
        match event_target(*f) {
            Some(u) => r matches Some(v) && *v == u,
            None => r is None,
        },
{
    match &f.params[0] {
        ParamShape::Typed { ty, .. } => target_of(ty),
        ParamShape::Receiver => None,
    }
}

// ── Extra parameters ──────────────────────────────────────────────────────

/// How the parameters after the event are read.
#[derive(Debug, Clone, Copy, PartialEq, Eq, Structural)]
pub enum ParamStyle {
    /// Handler dependencies: `Dep(name): Dep<T>` or `name: Dep<T>`.
    Dep,
    /// Listener state: `Component(name): Component<T>`.
    Component,
}

/// An injected parameter: its binding name and its position in the
/// signature.
#[derive(Debug)]
pub struct DepParam {
    /// The name the parameter binds.
    pub name: String,
    /// Its position among the parameters (the event is at 0).
    pub position: usize,
}

/// An injected parameter as a name and a position.
pub open spec fn dep_view(d: DepParam) -> (Seq<char>, int) {
    (d.name@, d.position as int)
}

/// Injected parameters as names and positions.
pub open spec fn deps_view(v: Seq<DepParam>) -> Seq<(Seq<char>, int)> {
    v.map_values(|d: DepParam| dep_view(d))
}

/// Reads the parameter `p` at position `pos` after those read so far
/// (`ds` injected, `bus` whether one took the bus).
pub open spec fn extra_step(
    p: ParamShape,
    pos: int,
    ds: Seq<(Seq<char>, int)>,
    bus: bool,
    style: ParamStyle,
) -> Result<(Seq<(Seq<char>, int)>, bool), Seq<char>> {
    match p {
        ParamShape::Receiver => Err(
            if style == ParamStyle::Dep {
                SELF_IN_HANDLER@
            } else {
                SELF_IN_LISTENER@
            },
        ),
        ParamShape::Typed { pat, ty } => if is_bus_ref(ty) {
            Ok((ds, true))
        } else if style == ParamStyle::Dep {
            if !wraps_one_type(ty, "Dep"@) {
                Err(DEP_TYPE@)
            } else {
                match dep_binding(pat) {
                    Some(n) => Ok((ds.push((n, pos)), bus)),
                    None => Err(DEP_PATTERN@),
                }
            }
        } else {
            match component_binding(pat) {
                None => Err(COMPONENT_PATTERN@),
                Some(n) => if !wraps_one_type(ty, "Component"@) {
                    Err(COMPONENT_TYPE@)
                } else {
                    Ok((ds.push((n, pos)), bus))
                },
            }
        },
    }
}

/// Reads the parameters at positions `1..n`: the injected ones and whether
/// one takes the bus, or the first problem.
pub open spec fn extra_scan(ps: Seq<ParamShape>, n: int, style: ParamStyle) -> Result<
    (Seq<(Seq<char>, int)>, bool),
    Seq<char>,
>
    decreases n,
{
    if n <= 1 {
        Ok((Seq::empty(), false))
    } else {
        match extra_scan(ps, n - 1, style) {
            Err(e) => Err(e),
            Ok(st) => extra_step(ps[n - 1], n - 1, st.0, st.1, style),
        }
    }
}

/// Once reading stops at a problem, reading further parameters reports the
/// same problem.
proof fn lemma_scan_error_sticks(ps: Seq<ParamShape>, i: int, n: int, style: ParamStyle)
    requires
        1 <= i <= n,
        extra_scan(ps, i, style) is Err,
    ensures
        extra_scan(ps, n, style) == extra_scan(ps, i, style),
    decreases n - i,
{
    if n > i {
        lemma_scan_error_sticks(ps, i, n - 1, style);
    }
}

/// Reads the parameters after the event of `params`.
pub fn scan_extra_params(params: &Vec<ParamShape>, style: ParamStyle) -> (r: Result<
    (Vec<DepParam>, bool),
    String,
>)
    ensures
        match extra_scan(params@, params@.len() as int, style) {
            Ok(st) => r matches Ok(v) && deps_view(v.0@) == st.0 && v.1 == st.1,
            Err(e) => r matches Err(m) && m@ == e,
        },
{
    let mut deps: Vec<DepParam> = Vec::new();
    proof {
        assert(deps_view(deps@) =~= Seq::empty());
    }
    if params.len() == 0 {
        return Ok((deps, false));
    }
    let mut has_bus = false;
    let mut i: usize = 1;
    while i < params.len()
        invariant
            1 <= i <= params@.len(),
            extra_scan(params@, i as int, style) matches Ok(st) && deps_view(deps@) == st.0
                && has_bus == st.1,
        decreases params@.len() - i,
    {
        match &params[i] {
            ParamShape::Receiver => {
                if style == ParamStyle::Dep {
                    proof { lemma_scan_error_sticks(params@, i + 1, params@.len() as int, style); }
                    return Err(text(SELF_IN_HANDLER));
                }
                proof { lemma_scan_error_sticks(params@, i + 1, params@.len() as int, style); }
                    return Err(text(SELF_IN_LISTENER));
            },
            ParamShape::Typed { pat, ty } => {
                if bus_ref(ty) {
                    has_bus = true;
                } else if style == ParamStyle::Dep {
                    if !one_type_arg(ty, "Dep") {
                        proof { lemma_scan_error_sticks(params@, i + 1, params@.len() as int, style); }
                    return Err(text(DEP_TYPE));
                    }
                    match dep_binding_name(pat) {
                        Some(n) => {
                            let ghost before = deps@;
                            deps.push(DepParam { name: n, position: i });
                            proof {
                                assert(deps_view(deps@) =~= deps_view(before).push(
                                    dep_view(deps@[deps@.len() - 1]),
                                ));
                            }
                        },
                        None => {
                            proof { lemma_scan_error_sticks(params@, i + 1, params@.len() as int, style); }
                    return Err(text(DEP_PATTERN));
                        },
                    }
                } else {
                    match component_binding_name(pat) {
                        None => {
                            proof { lemma_scan_error_sticks(params@, i + 1, params@.len() as int, style); }
                    return Err(text(COMPONENT_PATTERN));
                        },
                        Some(n) => {
                            if !one_type_arg(ty, "Component") {
                                proof { lemma_scan_error_sticks(params@, i + 1, params@.len() as int, style); }
                    return Err(text(COMPONENT_TYPE));
                            }
                            let ghost before = deps@;
                            deps.push(DepParam { name: n, position: i });
                            proof {
                                assert(deps_view(deps@) =~= deps_view(before).push(
                                    dep_view(deps@[deps@.len() - 1]),
                                ));
                            }
                        },
                    }
                }
            },
        }
        i = i + 1;
    }
    Ok((deps, has_bus))
}

// ── Retry attributes ──────────────────────────────────────────────────────

/// Whether any policy attribute is set.
pub open spec fn sets_policy(a: AttrsView) -> bool {
    a.retries is Some || a.retry_strategy is Some || a.retry_base_ms is Some || a.retry_max_ms is Some
        || a.dead_letter is Some || a.priority is Some
}

/// Whether any retry-strategy attribute is set.
pub open spec fn sets_strategy(a: AttrsView) -> bool {
    a.retry_strategy is Some || a.retry_base_ms is Some || a.retry_max_ms is Some
}

/// The first problem with the retry attributes of a declaration: delay
/// bounds without a strategy, a strategy missing its bounds, strategy
/// attributes without `retries`, or retries on a sync declaration.
pub open spec fn retry_error(a: AttrsView, is_async: bool, k: MacroKind) -> Option<Seq<char>> {
    if (a.retry_base_ms is Some || a.retry_max_ms is Some) && a.retry_strategy is None {
        Some(
            if k == MacroKind::EventListener {
                LISTENER_BOUNDS_WITHOUT_STRATEGY@
            } else {
                HANDLER_BOUNDS_WITHOUT_STRATEGY@
            },
        )
    } else {
        match a.retry_strategy {
            Some(st) => if (st == "exponential"@ || st == "exponential_jitter"@) && (a.retry_base_ms is None
                || a.retry_max_ms is None) {
                Some(EXPONENTIAL_OPEN@ + st + EXPONENTIAL_CLOSE@)
            } else if st == "fixed"@ && a.retry_base_ms is None {
                Some(FIXED_WITHOUT_BASE@)
            } else {
                retry_usage_error(a, is_async)
            },
            None => retry_usage_error(a, is_async),
        }
    }
}

/// The retry checks accept a declaration exactly when its retry attributes
/// are complete and fit it: an exponential strategy, plain or jittered, has
/// both bounds; a fixed strategy has its delay; bounds come with a
/// strategy, a strategy with `retries`, and `retries` only on an async
/// declaration.
pub proof fn law_accepted_retry_attributes(a: AttrsView, is_async: bool, k: MacroKind)
    ensures
        retry_error(a, is_async, k) is None <==> {
            &&& (a.retry_strategy == Some("exponential"@) || a.retry_strategy == Some(
                "exponential_jitter"@,
            )) ==> a.retry_base_ms is Some && a.retry_max_ms is Some
            &&& a.retry_strategy == Some("fixed"@) ==> a.retry_base_ms is Some
            &&& (a.retry_base_ms is Some || a.retry_max_ms is Some) ==> a.retry_strategy is Some
            &&& a.retry_strategy is Some ==> a.retries is Some
            &&& a.retries is Some ==> is_async
        },
{
}

/// An accepted handler or listener declaration passed the retry checks:
/// its retry attributes are complete and fit it (see
/// [`law_accepted_retry_attributes`]).
pub proof fn law_accepted_declarations_pass_retry_checks(a: AttrsView, f: FnShape)
    ensures
        handler_error(a, f) is None ==> retry_error(a, f.is_async, MacroKind::Handler) is None,
        listener_error(a, f) is None ==> retry_error(a, f.is_async, MacroKind::EventListener) is None,
{
}

/// Strategy attributes without `retries`, or retries on a sync declaration.
pub open spec fn retry_usage_error(a: AttrsView, is_async: bool) -> Option<Seq<char>> {
    if sets_strategy(a) && a.retries is None {
        Some(STRATEGY_WITHOUT_RETRIES@)
    } else if !is_async && (a.retries is Some || sets_strategy(a)) {
        Some(RETRIES_ON_SYNC@)
    } else {
        None
    }
}

fn retry_check(a: &HandlerAttrs, is_async: bool, k: MacroKind) -> (r: Option<String>)
    ensures
        opt_view(r) == retry_error(a@, is_async, k),
{
    if (a.retry_base_ms.is_some() || a.retry_max_ms.is_some()) && a.retry_strategy.is_none() {
        if k == MacroKind::EventListener {
            return Some(text(LISTENER_BOUNDS_WITHOUT_STRATEGY));
        }
        return Some(text(HANDLER_BOUNDS_WITHOUT_STRATEGY));
    }
    if let Some(st) = &a.retry_strategy {
        if (str_is(st, "exponential") || str_is(st, "exponential_jitter")) && (a.retry_base_ms.is_none()
            || a.retry_max_ms.is_none()) {
            let mut m = text(EXPONENTIAL_OPEN);
            m.append(st.as_str());
            m.append(EXPONENTIAL_CLOSE);
            return Some(m);
        }
        if str_is(st, "fixed") && a.retry_base_ms.is_none() {
            return Some(text(FIXED_WITHOUT_BASE));
        }
    }
    let strategy_attrs = a.has_retry_strategy_attrs();
    if strategy_attrs && a.retries.is_none() {
        return Some(text(STRATEGY_WITHOUT_RETRIES));
    }
    if !is_async && (a.retries.is_some() || strategy_attrs) {
        return Some(text(RETRIES_ON_SYNC));
    }
    None
}

// ── Subscription policies ─────────────────────────────────────────────────

/// `o`'s value, or `d` where there is none.
pub open spec fn or_default<T>(o: Option<T>, d: T) -> T {
    match o {
        Some(v) => v,
        None => d,
    }
}

/// Whether `st` is the strategy named `kind` with the given delays in
/// milliseconds.
pub open spec fn strategy_is(st: RetryStrategy, kind: Seq<char>, base_ms: u64, max_ms: u64) -> bool {
    match st {
        RetryStrategy::Fixed(d) => kind == "fixed"@ && d@ == base_ms * 1_000_000,
        RetryStrategy::Exponential { base, max } => kind == "exponential"@ && base@ == base_ms
            * 1_000_000 && max@ == max_ms * 1_000_000,
        RetryStrategy::ExponentialWithJitter { base, max } => kind == "exponential_jitter"@ && base@
            == base_ms * 1_000_000 && max@ == max_ms * 1_000_000,
    }
}

/// Whether `p` is the async policy the attributes describe: the defaults,
/// then each attribute that is set.
pub open spec fn async_policy_is(p: AsyncSubscriptionPolicy, a: AttrsView) -> bool {
    &&& p.max_retries == or_default(a.retries, 0)
    &&& match a.retry_strategy {
        Some(k) => if crate::attrs::known_strategy(k) {
            p.retry_strategy matches Some(st) && strategy_is(
                st,
                k,
                or_default(a.retry_base_ms, 0),
                or_default(a.retry_max_ms, 0),
            )
        } else {
            p.retry_strategy is None
        },
        None => p.retry_strategy is None,
    }
    &&& p.dead_letter == or_default(a.dead_letter, true)
}

/// Whether `p` is the sync policy the attributes describe.
pub open spec fn sync_policy_is(p: SyncSubscriptionPolicy, a: AttrsView) -> bool {
    &&& p.priority == or_default(a.priority, 0)
    &&& p.dead_letter == or_default(a.dead_letter, true)
}

fn strategy_named(kind: &String, base_ms: u64, max_ms: u64) -> (r: Option<RetryStrategy>)
    ensures
        crate::attrs::known_strategy(kind@) ==> (r matches Some(st) && strategy_is(st, kind@, base_ms, max_ms)),
        !crate::attrs::known_strategy(kind@) ==> r is None,
{
    if str_is(kind, "fixed") {
        Some(RetryStrategy::Fixed(Duration::from_millis(base_ms)))
    } else if str_is(kind, "exponential") {
        Some(RetryStrategy::Exponential { base: Duration::from_millis(base_ms), max: Duration::from_millis(max_ms) })
    } else if str_is(kind, "exponential_jitter") {
        Some(
            RetryStrategy::ExponentialWithJitter {
                base: Duration::from_millis(base_ms),
                max: Duration::from_millis(max_ms),
            },
        )
    } else {
        None
    }
}

fn unwrap_or_zero(o: Option<u64>) -> (r: u64)
    ensures
        r == or_default(o, 0),
{
    match o {
        Some(v) => v,
        None => 0,
    }
}

/// The async policy the attributes describe.
pub fn async_policy_for(a: &HandlerAttrs) -> (r: AsyncSubscriptionPolicy)
    ensures
        async_policy_is(r, a@),
{
    let mut p = AsyncSubscriptionPolicy::default_policy();
    if let Some(n) = a.retries {
        p = p.with_max_retries(n);
    }
    if let Some(kind) = &a.retry_strategy {
        if let Some(st) = strategy_named(kind, unwrap_or_zero(a.retry_base_ms), unwrap_or_zero(a.retry_max_ms)) {
            p = p.with_retry_strategy(st);
        }
    }
    if let Some(dl) = a.dead_letter {
        p = p.with_dead_letter(dl);
    }
    p
}

/// The sync policy the attributes describe.
pub fn sync_policy_for(a: &HandlerAttrs) -> (r: SyncSubscriptionPolicy)
    ensures
        sync_policy_is(r, a@),
{
    let mut p = SyncSubscriptionPolicy::default_policy();
    if let Some(dl) = a.dead_letter {
        p = p.with_dead_letter(dl);
    }
    if let Some(pr) = a.priority {
        p = p.with_priority(pr);
    }
    p
}

// ── Plans ─────────────────────────────────────────────────────────────────

/// How a declaration subscribes.
#[derive(Debug)]
pub enum SubscribeCall {
    /// With the bus's default policy.
    Plain,
    /// With an explicit async policy.
    AsyncPolicy(AsyncSubscriptionPolicy),
    /// With an explicit sync policy.
    SyncPolicy(SyncSubscriptionPolicy),
    /// As a dead-letter listener.
    DeadLetters,
}

/// What a handler declaration registers.
#[derive(Debug)]
pub struct HandlerPlan {
    /// Whether the handler is async.
    pub is_async: bool,
    /// Dependencies resolved at build time, in parameter order.
    pub deps: Vec<DepParam>,
    /// Whether the handler receives the bus.
    pub has_bus: bool,
    /// The listener name.
    pub handler_name: Option<String>,
    /// The name of the generated handler item.
    pub struct_name: String,
    /// The name of the item holding resolved dependencies, where there are
    /// any.
    pub resolved_name: Option<String>,
    /// How the handler subscribes.
    pub subscribe: SubscribeCall,
}

/// What a listener declaration registers.
#[derive(Debug)]
pub struct ListenerPlan {
    /// Whether the listener is async.
    pub is_async: bool,
    /// Whether it listens to dead letters.
    pub is_dead_letter: bool,
    /// State components resolved at registration, in parameter order.
    pub state: Vec<DepParam>,
    /// Whether the listener receives the bus.
    pub has_bus: bool,
    /// The listener name.
    pub listener_name: Option<String>,
    /// How the listener subscribes.
    pub subscribe: SubscribeCall,
    /// The message a failed registration reports.
    pub failure_message: String,
}

/// The first problem with a handler declaration.
pub open spec fn handler_error(a: AttrsView, f: FnShape) -> Option<Seq<char>> {
    match signature_error(f, MacroKind::Handler) {
        Some(e) => Some(e),
        None => match event_target(f) {
            None => Some(EVENT_NOT_REF@),
            Some(t) => if last_is(t, "DeadLetter"@) {
                Some(USE_DEAD_LETTER_HANDLER@)
            } else {
                match extra_scan(f.params@, f.params@.len() as int, ParamStyle::Dep) {
                    Err(e) => Some(e),
                    Ok(_) => match retry_error(a, f.is_async, MacroKind::Handler) {
                        Some(e) => Some(e),
                        None => if f.is_async && a.priority is Some {
                            Some(PRIORITY_ON_ASYNC@)
                        } else {
                            None
                        },
                    },
                }
            },
        },
    }
}

/// The first problem with a dead-letter handler declaration.
pub open spec fn dead_letter_handler_error(a: AttrsView, f: FnShape) -> Option<Seq<char>> {
    match signature_error(f, MacroKind::DeadLetterHandler) {
        Some(e) => Some(e),
        None => if f.is_async {
            Some(DEAD_LETTER_HANDLER_ASYNC@)
        } else if sets_policy(a) {
            Some(DEAD_LETTER_HANDLER_POLICY@)
        } else {
            match event_target(f) {
                None => Some(DEAD_LETTER_NOT_REF@),
                Some(t) => if !last_is(t, "DeadLetter"@) {
                    Some(DEAD_LETTER_HANDLER_FIRST@)
                } else {
                    match extra_scan(f.params@, f.params@.len() as int, ParamStyle::Dep) {
                        Err(e) => Some(e),
                        Ok(st) => if st.1 {
                            Some(DEAD_LETTER_HANDLER_BUS@)
                        } else {
                            None
                        },
                    }
                },
            }
        },
    }
}

/// The first problem with a listener declaration.
pub open spec fn listener_error(a: AttrsView, f: FnShape) -> Option<Seq<char>> {
    match signature_error(f, MacroKind::EventListener) {
        Some(e) => Some(e),
        None => match event_target(f) {
            None => Some(EVENT_NOT_REF@),
            Some(t) => {
                let dl = last_is(t, "DeadLetter"@);
                if dl && f.is_async {
                    Some(DEAD_LETTER_LISTENER_ASYNC@)
                } else if dl && sets_policy(a) {
                    Some(DEAD_LETTER_LISTENER_POLICY@)
                } else {
                    match extra_scan(f.params@, f.params@.len() as int, ParamStyle::Component) {
                        Err(e) => Some(e),
                        Ok(st) => if dl && st.1 {
                            Some(DEAD_LETTER_LISTENER_BUS@)
                        } else {
                            match retry_error(a, f.is_async, MacroKind::EventListener) {
                                Some(e) => Some(e),
                                None => if f.is_async && a.priority is Some {
                                    Some(PRIORITY_ON_ASYNC@)
                                } else {
                                    None
                                },
                            }
                        },
                    }
                }
            },
        },
    }
}

/// The injected parameters and bus use of a declaration read with `style`.
pub open spec fn extras_of(f: FnShape, style: ParamStyle) -> (Seq<(Seq<char>, int)>, bool) {
    match extra_scan(f.params@, f.params@.len() as int, style) {
        Ok(st) => st,
        Err(_) => (Seq::empty(), false),
    }
}

/// Whether `p` is the plan of a handler declaration (`dead_letter` for a
/// dead-letter handler) that passed its checks.
pub open spec fn handler_plan_is(p: HandlerPlan, a: AttrsView, f: FnShape, dead_letter: bool) -> bool {
    &&& p.is_async == f.is_async
    &&& deps_view(p.deps@) == extras_of(f, ParamStyle::Dep).0
    &&& p.has_bus == extras_of(f, ParamStyle::Dep).1
    &&& opt_view(p.handler_name) == listener_name(a.name, f.name@)
    &&& p.struct_name@ == handler_struct_name(f.name@)
    &&& opt_view(p.resolved_name) == (if p.deps@.len() > 0 {
        Some(resolved_struct_name(f.name@))
    } else {
        None
    })
    &&& if dead_letter {
        p.subscribe is DeadLetters
    } else if !sets_policy(a) {
        p.subscribe is Plain
    } else if f.is_async {
        p.subscribe matches SubscribeCall::AsyncPolicy(q) && async_policy_is(q, a)
    } else {
        p.subscribe matches SubscribeCall::SyncPolicy(q) && sync_policy_is(q, a)
    }
}

/// Whether `p` is the plan of a listener declaration that passed its
/// checks.
pub open spec fn listener_plan_is(p: ListenerPlan, a: AttrsView, f: FnShape) -> bool {
    let dl = match event_target(f) {
        Some(t) => last_is(t, "DeadLetter"@),
        None => false,
    };
    &&& p.is_async == f.is_async
    &&& p.is_dead_letter == dl
    &&& deps_view(p.state@) == extras_of(f, ParamStyle::Component).0
    &&& p.has_bus == extras_of(f, ParamStyle::Component).1
    &&& opt_view(p.listener_name) == listener_name(a.name, f.name@)
    &&& p.failure_message@ == SUBSCRIBE_FAILED_OPEN@ + f.name@ + "'"@
    &&& if dl {
        p.subscribe is DeadLetters
    } else if !sets_policy(a) {
        p.subscribe is Plain
    } else if f.is_async {
        p.subscribe matches SubscribeCall::AsyncPolicy(q) && async_policy_is(q, a)
    } else {
        p.subscribe matches SubscribeCall::SyncPolicy(q) && sync_policy_is(q, a)
    }
}

fn handler_plan(a: &HandlerAttrs, f: &FnShape, deps: Vec<DepParam>, has_bus: bool, subscribe: SubscribeCall) -> (r: HandlerPlan)
    ensures
        r.is_async == f.is_async,
        r.deps == deps,
        r.has_bus == has_bus,
        r.subscribe == subscribe,
        opt_view(r.handler_name) == listener_name(a@.name, f.name@),
        r.struct_name@ == handler_struct_name(f.name@),
        opt_view(r.resolved_name) == (if deps@.len() > 0 {
            Some(resolved_struct_name(f.name@))
        } else {
            None
        }),
{
    let handler_name = resolve_listener_name(&a.name, &f.name);
    let struct_name = struct_name_of(&f.name);
    let resolved_name = if deps.len() > 0 {
        Some(resolved_name_of(&f.name))
    } else {
        None
    };
    HandlerPlan { is_async: f.is_async, deps, has_bus, handler_name, struct_name, resolved_name, subscribe }
}

/// Checks a handler declaration and, where it passes, plans its
/// registration.
pub fn expand_handler(a: &HandlerAttrs, f: &FnShape) -> (r: Result<HandlerPlan, String>)
    requires
        handler_error(a@, *f) is None ==> (a.retry_strategy matches Some(st) ==> crate::attrs::known_strategy(st@)),
    ensures
        match handler_error(a@, *f) {
            Some(e) => r matches Err(m) && m@ == e,
            None => r matches Ok(p) && handler_plan_is(p, a@, *f, false),
        },
{
    if let Some(e) = signature_check(f, MacroKind::Handler) {
        return Err(e);
    }
    let event = match event_target_of(f) {
        Some(t) => t,
        None => {
            return Err(text(EVENT_NOT_REF));
        },
    };
    if path_named(event, "DeadLetter") {
        return Err(text(USE_DEAD_LETTER_HANDLER));
    }
    let (deps, has_bus) = match scan_extra_params(&f.params, ParamStyle::Dep) {
        Ok(v) => v,
        Err(e) => {
            return Err(e);
        },
    };
    if let Some(e) = retry_check(a, f.is_async, MacroKind::Handler) {
        return Err(e);
    }
    if f.is_async && a.priority.is_some() {
        return Err(text(PRIORITY_ON_ASYNC));
    }
    let subscribe = if !a.has_subscription_policy() {
        SubscribeCall::Plain
    } else if f.is_async {
        SubscribeCall::AsyncPolicy(async_policy_for(a))
    } else {
        SubscribeCall::SyncPolicy(sync_policy_for(a))
    };
    Ok(handler_plan(a, f, deps, has_bus, subscribe))
}

/// Checks a dead-letter handler declaration and, where it passes, plans its
/// registration.
pub fn expand_dead_letter_handler(a: &HandlerAttrs, f: &FnShape) -> (r: Result<HandlerPlan, String>)
    ensures
        match dead_letter_handler_error(a@, *f) {
            Some(e) => r matches Err(m) && m@ == e,
            None => r matches Ok(p) && handler_plan_is(p, a@, *f, true),
        },
{
    if let Some(e) = signature_check(f, MacroKind::DeadLetterHandler) {
        return Err(e);
    }
    if f.is_async {
        return Err(text(DEAD_LETTER_HANDLER_ASYNC));
    }
    if a.has_subscription_policy() {
        return Err(text(DEAD_LETTER_HANDLER_POLICY));
    }
    let event = match event_target_of(f) {
        Some(t) => t,
        None => {
            return Err(text(DEAD_LETTER_NOT_REF));
        },
    };
    if !path_named(event, "DeadLetter") {
        return Err(text(DEAD_LETTER_HANDLER_FIRST));
    }
    let (deps, has_bus) = match scan_extra_params(&f.params, ParamStyle::Dep) {
        Ok(v) => v,
        Err(e) => {
            return Err(e);
        },
    };
    if has_bus {
        return Err(text(DEAD_LETTER_HANDLER_BUS));
    }
    Ok(handler_plan(a, f, deps, has_bus, SubscribeCall::DeadLetters))
}

fn as_handler_attrs(l: &ListenerAttrs) -> (r: HandlerAttrs)
    ensures
        r@ == l@,
{
    HandlerAttrs {
        retries: l.retries,
        retry_strategy: match &l.retry_strategy {
            Some(s) => Some(s.clone()),
            None => None,
        },
        retry_base_ms: l.retry_base_ms,
        retry_max_ms: l.retry_max_ms,
        dead_letter: l.dead_letter,
        priority: l.priority,
        name: match &l.name {
            Some(s) => Some(s.clone()),
            None => None,
        },
    }
}

/// Checks a listener declaration and, where it passes, plans its
/// registration.
pub fn expand_event_listener(l: &ListenerAttrs, f: &FnShape) -> (r: Result<ListenerPlan, String>)
    ensures
        match listener_error(l@, *f) {
            Some(e) => r matches Err(m) && m@ == e,
            None => r matches Ok(p) && listener_plan_is(p, l@, *f),
        },
{
    let a = as_handler_attrs(l);
    if let Some(e) = signature_check(f, MacroKind::EventListener) {
        return Err(e);
    }
    let event = match event_target_of(f) {
        Some(t) => t,
        None => {
            return Err(text(EVENT_NOT_REF));
        },
    };
    let is_dead_letter = path_named(event, "DeadLetter");
    if is_dead_letter && f.is_async {
        return Err(text(DEAD_LETTER_LISTENER_ASYNC));
    }
    if is_dead_letter && l.has_failure_policy() {
        return Err(text(DEAD_LETTER_LISTENER_POLICY));
    }
    let (state, has_bus) = match scan_extra_params(&f.params, ParamStyle::Component) {
        Ok(v) => v,
        Err(e) => {
            return Err(e);
        },
    };
    if is_dead_letter && has_bus {
        return Err(text(DEAD_LETTER_LISTENER_BUS));
    }
    if let Some(e) = retry_check(&a, f.is_async, MacroKind::EventListener) {
        return Err(e);
    }
    if f.is_async && l.priority.is_some() {
        return Err(text(PRIORITY_ON_ASYNC));
    }
    let listener_name = resolve_listener_name(&l.name, &f.name);
    let subscribe = if is_dead_letter {
        SubscribeCall::DeadLetters
    } else if !l.has_failure_policy() {
        SubscribeCall::Plain
    } else if f.is_async {
        SubscribeCall::AsyncPolicy(async_policy_for(&a))
    } else {
        SubscribeCall::SyncPolicy(sync_policy_for(&a))
    };
    let mut failure_message = text(SUBSCRIBE_FAILED_OPEN);
    failure_message.append(f.name.as_str());
    failure_message.append("'");
    Ok(ListenerPlan { is_async: f.is_async, is_dead_letter, state, has_bus, listener_name, subscribe, failure_message })
}

} // verus!
