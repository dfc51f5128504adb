//! The state mapper: from the state of the last run to the state of this one.
//!
//! Each rule writes one key of the state. A rule whose `update` starts with
//! `$` writes what the rest of `update` evaluates to, as an expression over
//! the run's start time; any other rule writes its own `from` under the key
//! `from`. The expressions run in a `rhai` engine that knows nothing but the
//! variable `start_date` and the functions `format_date` and `sub_days`, and
//! that gives up on a script that outgrows its [`Sandbox`]. A script cannot
//! evaluate text as a script.

use vstd::prelude::*;
use crate::dto::{ExportItem, JobCreation, StateMapping, StateMappingView, Timestamp, views};
use crate::json::{parsed_object, rendered_object, JsonObject, JsonValue, JsonView};
use std::fmt::Write;

verus! {

/// The error with which `rhai` gives up on a script.
#[verifier::external_type_specification]
#[verifier::external_body]
pub struct ExEvalError(rhai::EvalAltResult);

/// What a run knows of itself while its state is computed.
#[derive(Clone, Copy, Debug, PartialEq, Eq)]
pub struct Context {
    /// When the run started.
    pub start: Timestamp,
}

impl Default for Context {
    fn default() -> (r: Context)
        ensures
            r.start == (Timestamp { secs: 0, nanos: 0 }),
    {
        Context { start: Timestamp { secs: 0, nanos: 0 } }
    }
}

/// The bounds within which an expression is evaluated.
#[derive(Clone, Copy, Debug, PartialEq, Eq)]
pub struct Sandbox {
    /// Operations that a script may perform.
    pub operations: u64,
    /// Nested calls of functions that a script defines.
    pub call_levels: usize,
    /// Nesting of expressions at the top level of a script.
    pub expr_depth: usize,
    /// Nesting of expressions inside a function that a script defines.
    pub function_expr_depth: usize,
    /// Variables that a script may hold at one time, `start_date` among them.
    pub variables: usize,
    /// Bytes of a string.
    pub string_size: usize,
    /// Items of an array, and of an object map, counted with the items of
    /// what is nested in it: no value nests deeper than it has items.
    pub collection_size: usize,
}

/// The most operations that a sandbox may allow.
pub const MAX_OPERATIONS: u64 = 1_000_000;

/// The most variables that a sandbox may allow.
pub const MAX_VARIABLES: usize = 1_024;

/// The most bytes of a string that a sandbox may allow.
pub const MAX_STRING_SIZE: usize = 65_536;

/// The most items of an array or an object map that a sandbox may allow.
pub const MAX_COLLECTION_SIZE: usize = 1_024;

impl Sandbox {
    /// The bounds that the state mapper evaluates under.
    pub fn standard() -> (r: Sandbox)
        ensures
            r == Sandbox::standard_spec(),
            r.bounded(),
    {
        Sandbox {
            operations: 100_000,
            call_levels: 8,
            expr_depth: 32,
            function_expr_depth: 16,
            variables: 64,
            string_size: 4_096,
            collection_size: 256,
        }
    }

    /// Every bound is set, none allows deeper nesting of calls or expressions
    /// than the engine allows when it is left alone, and none lets a script
    /// run on or pile up data without an end in sight.
    pub open spec fn bounded(self) -> bool {
        &&& 0 < self.operations <= MAX_OPERATIONS
        &&& self.call_levels <= 64
        &&& 0 < self.expr_depth <= 64
        &&& 0 < self.function_expr_depth <= 32
        &&& 0 < self.variables <= MAX_VARIABLES
        &&& 0 < self.string_size <= MAX_STRING_SIZE
        &&& 0 < self.collection_size <= MAX_COLLECTION_SIZE
    }

    /// The bounds that the state mapper evaluates under.
    pub open spec fn standard_spec() -> Sandbox {
        Sandbox {
            operations: 100_000,
            call_levels: 8,
            expr_depth: 32,
            function_expr_depth: 16,
            variables: 64,
            string_size: 4_096,
            collection_size: 256,
        }
    }
}

/// The text that `chrono` writes for the moment that lies `nanos` nanoseconds
/// after the second `secs` since 1970-01-01T00:00:00Z, in UTC and in the
/// strftime format `format`, or `None` where it writes none.
pub uninterp spec fn formatted_moment(secs: int, nanos: int, format: Seq<char>) -> Option<
    Seq<char>,
>;

/// The string that the expression evaluates to in a run that started at
/// `start`, within the bounds `sandbox`; `None` where the evaluation fails or
/// gives anything but a string.
pub uninterp spec fn expression_value(
    expression: Seq<char>,
    start: Timestamp,
    sandbox: Sandbox,
) -> Option<Seq<char>>;

/// `chrono::DateTime::from_timestamp` and `DateTime::format`, written out
/// with `write!`. There is no text where `chrono` cannot hold the moment or
/// does not know the format.
#[verifier::external_body]
fn format_moment(secs: i64, nanos: u32, format: &str) -> (r: Option<String>)
    ensures
        match r {
            Some(text) => formatted_moment(secs as int, nanos as int, format@) == Some(text@),
            None => formatted_moment(secs as int, nanos as int, format@) is None,
        },
{
    let moment = chrono::DateTime::from_timestamp(secs, nanos)?;
    let mut text = String::new();
    write!(text, "{}", moment.format(format)).ok()?;
    Some(text)
}

/// The moment `at` in UTC, written in the strftime format `format`: what
/// expressions know as `format_date`.
pub fn format_date(at: Timestamp, format: &str) -> (r: Option<String>)
    ensures
        match r {
            Some(text) => formatted_moment(at.secs as int, at.nanos as int, format@) == Some(
                text@,
            ),
            None => formatted_moment(at.secs as int, at.nanos as int, format@) is None,
        },
{
    format_moment(at.secs, at.nanos, format)
}

/// The moment `days` days before `at`, if the seconds of that moment fit: what
/// expressions know as `sub_days`.
pub fn sub_days(at: Timestamp, days: i64) -> (r: Option<Timestamp>)
    ensures
        match r {
            Some(t) => t.nanos == at.nanos && t.secs == at.secs - days * 86_400,
            None => !(i64::MIN <= at.secs - days * 86_400 <= i64::MAX),
        },
{
    let secs: i128 = at.secs as i128 - days as i128 * 86_400;
    if secs >= i64::MIN as i128 && secs <= i64::MAX as i128 {
        Some(Timestamp { secs: secs as i64, nanos: at.nanos })
    } else {
        None
    }
}

/// `rhai::Engine::eval_with_scope`, asked for a string, on an engine made by
/// `Engine::new_raw` with the bounds of `sandbox` set, the keyword `eval`
/// disabled, the functions `format_date` and `sub_days` registered and
/// `start_date` bound to `start` in a fresh scope. Such an engine reads no
/// clock, no file and no environment, and stops a script that exceeds a
/// bound with an error.
///
/// The bounds are what keeps every evaluation within the stack and within
/// memory: a script cannot evaluate text as a script, its own functions nest
/// no deeper than `call_levels`, its expressions no deeper than the two
/// depths, and its arrays and maps no deeper than `collection_size`, which
/// `rhai` checks whenever one is built or changed; it holds no more than
/// `variables` values at a time, each within the two sizes. A bound of 0
/// would stand for no bound.
#[verifier::external_body]
fn evaluate(expression: &str, start: Timestamp, sandbox: Sandbox) -> (r: Result<
    String,
    Box<rhai::EvalAltResult>,
>)
    requires
        sandbox.bounded(),
    ensures
        match r {
            Ok(text) => expression_value(expression@, start, sandbox) == Some(text@),
            Err(_) => expression_value(expression@, start, sandbox) is None,
        },
{
    let mut engine = rhai::Engine::new_raw();
    engine.disable_symbol("eval").set_max_operations(sandbox.operations);
    engine.set_max_call_levels(sandbox.call_levels).set_max_variables(sandbox.variables);
    engine.set_max_expr_depths(sandbox.expr_depth, sandbox.function_expr_depth);
    engine.set_max_string_size(sandbox.string_size).set_max_array_size(sandbox.collection_size).set_max_map_size(sandbox.collection_size);
    engine.register_fn("format_date", |at: Timestamp, f: &str| -> Result<String, Box<rhai::EvalAltResult>> { format_date(at, f).ok_or("format_date".into()) });
    engine.register_fn("sub_days", |at: Timestamp, days: i64| -> Result<Timestamp, Box<rhai::EvalAltResult>> { sub_days(at, days).ok_or("sub_days".into()) });
    let mut scope = rhai::Scope::new();
    scope.push("start_date", start);
    engine.eval_with_scope::<String>(&mut scope, expression)
}

/// Why the state of a run could not be computed.
#[derive(Clone, Copy, Debug, PartialEq, Eq)]
pub enum StateError {
    /// The previous state is not the text of a JSON object.
    InvalidState,
    /// An expression of a rule failed, or gave no string.
    Expression,
}

/// Whether `update` asks for an expression: it starts with `$`.
pub open spec fn is_expression(update: Seq<char>) -> bool {
    update.len() > 0 && update[0] == '$'
}

/// The expression of an `update` that asks for one: what follows the `$`.
pub open spec fn expression_of(update: Seq<char>) -> Seq<char> {
    update.subrange(1, update.len() as int)
}

/// The string that a rule writes: the value of its expression, or for a
/// literal rule its own `from`. `None` where the expression fails.
pub open spec fn rule_value(rule: StateMappingView, ctx: Context) -> Option<Seq<char>> {
    if is_expression(rule.update) {
        expression_value(expression_of(rule.update), ctx.start, Sandbox::standard_spec())
    } else {
        Some(rule.from)
    }
}

/// The state after the rules, applied in order: each writes its value under
/// its `from`. `None` where an expression fails.
pub open spec fn apply_state_rules(
    state: Map<Seq<char>, JsonView>,
    rules: Seq<StateMappingView>,
    ctx: Context,
) -> Option<Map<Seq<char>, JsonView>>
    decreases rules.len(),
{
    if rules.len() == 0 {
        Some(state)
    } else {
        match (apply_state_rules(state, rules.drop_last(), ctx), rule_value(rules.last(), ctx)) {
            (Some(before), Some(value)) => Some(
                before.insert(rules.last().from, JsonView::Text(value)),
            ),
            _ => None,
        }
    }
}

/// The rules of an optional list: none where there is no list.
pub open spec fn rules_of(state_mapping: Option<&Vec<StateMapping>>) -> Seq<StateMappingView> {
    match state_mapping {
        Some(rules) => views(rules@),
        None => Seq::empty(),
    }
}

/// The rules of an optional list that is owned: none where there is no list.
pub open spec fn owned_rules(state_mapping: Option<Vec<StateMapping>>) -> Seq<StateMappingView> {
    match state_mapping {
        Some(rules) => views(rules@),
        None => Seq::empty(),
    }
}

/// The string that one rule writes.
pub fn evaluate_rule(rule: &StateMapping, ctx: Context) -> (r: Option<String>)
    ensures
        match r {
            Some(value) => rule_value(rule@, ctx) == Some(value@),
            None => rule_value(rule@, ctx) is None,
        },
{
    let update = rule.update.as_str();
    let length = update.unicode_len();
    if length > 0 && update.get_char(0) == '$' {
        let expression = update.substring_char(1, length);
        match evaluate(expression, ctx.start, Sandbox::standard()) {
            Ok(value) => Some(value),
            Err(_) => None,
        }
    } else {
        Some(rule.from.clone())
    }
}

/// Applies the rules to a state, in order.
///
/// The state comes back with every rule's value written under the rule's
/// `from`, or not at all: the first rule whose expression fails ends the
/// computation.
pub fn next_state(state: JsonObject, rules: &[StateMapping], ctx: Context) -> (r: Result<
    JsonObject,
    StateError,
>)
    ensures
        match r {
            Ok(after) => apply_state_rules(state@, views(rules@), ctx) == Some(after@),
            Err(error) => error == StateError::Expression && apply_state_rules(
                state@,
                views(rules@),
                ctx,
            ) is None,
        },
{
    let ghost before = state@;
    let ghost all = views(rules@);
    let mut current = state;
    let mut i: usize = 0;
    while i < rules.len()
        invariant
            i <= rules.len(),
            all == views(rules@),
            before == state@,
            apply_state_rules(before, all.take(i as int), ctx) == Some(current@),
        decreases rules.len() - i,
    {
        proof {
            assert(all.take(i + 1).drop_last() =~= all.take(i as int));
            assert(all.take(i + 1).last() == rules[i as int]@);
        }
        match evaluate_rule(&rules[i], ctx) {
            Some(value) => {
                current.insert(rules[i].from.clone(), JsonValue::Text(value));
            },
            None => {
                proof {
                    lemma_failed_rule_fails_all(before, all, ctx, i + 1);
                }
                return Err(StateError::Expression);
            },
        }
        i += 1;
    }
    assert(all.take(i as int) =~= all);
    Ok(current)
}

/// Once a rule has failed, the rules after it do not mend the state.
proof fn lemma_failed_rule_fails_all(
    state: Map<Seq<char>, JsonView>,
    rules: Seq<StateMappingView>,
    ctx: Context,
    n: int,
)
    requires
        0 <= n <= rules.len(),
        apply_state_rules(state, rules.take(n), ctx) is None,
    ensures
        apply_state_rules(state, rules, ctx) is None,
    decreases rules.len() - n,
{
    if n < rules.len() {
        assert(rules.take(n + 1).drop_last() =~= rules.take(n));
        lemma_failed_rule_fails_all(state, rules, ctx, n + 1);
    } else {
        assert(rules.take(n) =~= rules);
    }
}

/// Without rules the state stays as it is.
pub proof fn lemma_no_rules_keep_state(state: Map<Seq<char>, JsonView>, ctx: Context)
    ensures
        apply_state_rules(state, Seq::empty(), ctx) == Some(state),
{
}

/// A literal rule writes its own `from` under the key `from` and touches no
/// other key: neither `to` nor `update` plays a part.
pub proof fn lemma_literal_rule_writes_from(
    state: Map<Seq<char>, JsonView>,
    rule: StateMappingView,
    ctx: Context,
)
    requires
        !is_expression(rule.update),
    ensures
        apply_state_rules(state, seq![rule], ctx) == Some(
            state.insert(rule.from, JsonView::Text(rule.from)),
        ),
        forall|key: Seq<char>|
            key != rule.from ==> (#[trigger] apply_state_rules(
                state,
                seq![rule],
                ctx,
            )->0.contains_key(key)) == state.contains_key(key),
        forall|key: Seq<char>|
            key != rule.from && state.contains_key(key) ==> #[trigger] apply_state_rules(
                state,
                seq![rule],
                ctx,
            )->0[key] == state[key],
{
    assert(seq![rule].drop_last() =~= Seq::<StateMappingView>::empty());
    assert(seq![rule].last() == rule);
    assert(apply_state_rules(state, Seq::empty(), ctx) == Some(state));
}

/// A literal rule whose `update` repeats its `from` leaves `update` under the
/// key `from`.
pub proof fn lemma_literal_rule_with_its_own_key(
    state: Map<Seq<char>, JsonView>,
    rule: StateMappingView,
    ctx: Context,
)
    requires
        !is_expression(rule.update),
        rule.update == rule.from,
    ensures
        apply_state_rules(state, seq![rule], ctx) is Some,
        apply_state_rules(state, seq![rule], ctx)->0[rule.from] == JsonView::Text(rule.update),
        rule.to != rule.from ==> apply_state_rules(state, seq![rule], ctx)->0.contains_key(rule.to)
            == state.contains_key(rule.to),
        rule.to != rule.from && state.contains_key(rule.to) ==> apply_state_rules(
            state,
            seq![rule],
            ctx,
        )->0[rule.to] == state[rule.to],
{
    lemma_literal_rule_writes_from(state, rule, ctx);
}

/// A rule with an expression writes the expression's value under the key
/// `from` and touches no other key.
pub proof fn lemma_expression_rule_writes_value(
    state: Map<Seq<char>, JsonView>,
    rule: StateMappingView,
    ctx: Context,
)
    requires
        is_expression(rule.update),
    ensures
        apply_state_rules(state, seq![rule], ctx) == match expression_value(
            expression_of(rule.update),
            ctx.start,
            Sandbox::standard_spec(),
        ) {
            Some(value) => Some(state.insert(rule.from, JsonView::Text(value))),
            None => None,
        },
{
    assert(seq![rule].drop_last() =~= Seq::<StateMappingView>::empty());
    assert(seq![rule].last() == rule);
    assert(apply_state_rules(state, Seq::empty(), ctx) == Some(state));
}

/// The state that a run leaves for the next one: the previous state read as a
/// JSON object, the rules applied to it, the object written out again.
pub open spec fn updated_state(
    state_str: Seq<char>,
    rules: Seq<StateMappingView>,
    ctx: Context,
) -> Result<Seq<char>, StateError> {
    match parsed_object(state_str) {
        None => Err(StateError::InvalidState),
        Some(state) => match apply_state_rules(state, rules, ctx) {
            None => Err(StateError::Expression),
            Some(after) => Ok(rendered_object(after)),
        },
    }
}

/// The state that a run leaves for the next one, as the text of a JSON object.
///
/// `state_str` is read as a JSON object, the rules are applied to it in
/// order, and the object is written out again. The export items take no part
/// in it.
pub fn update_state_core(
    _result: &Vec<ExportItem>,
    state_str: &str,
    state_mapping: Option<&Vec<StateMapping>>,
    ctx: Context,
) -> (r: Result<String, StateError>)
    ensures
        match r {
            Ok(text) => updated_state(state_str@, rules_of(state_mapping), ctx) == Ok::<
                Seq<char>,
                StateError,
            >(text@),
            Err(error) => updated_state(state_str@, rules_of(state_mapping), ctx) == Err::<
                Seq<char>,
                StateError,
            >(error),
        },
{
    let state = match JsonObject::parse(state_str) {
        Ok(state) => state,
        Err(_) => {
            return Err(StateError::InvalidState);
        },
    };
    let after = match state_mapping {
        Some(rules) => match next_state(state, rules.as_slice(), ctx) {
            Ok(after) => after,
            Err(error) => {
                return Err(error);
            },
        },
        None => state,
    };
    Ok(after.render())
}

/// The state that a run of `job` leaves for the next one.
pub fn update_state(result: &Vec<ExportItem>, job: &JobCreation, ctx: Context) -> (r: Result<
    String,
    StateError,
>)
    ensures
        match r {
            Ok(text) => updated_state(job.state@, owned_rules(job.settings.state_mapping), ctx)
                == Ok::<Seq<char>, StateError>(text@),
            Err(error) => updated_state(job.state@, owned_rules(job.settings.state_mapping), ctx)
                == Err::<Seq<char>, StateError>(error),
        },
{
    update_state_core(result, job.state.as_str(), job.settings.state_mapping.as_ref(), ctx)
}

} // verus!
