use chat_gateway::adapter::ChatbotAdapter;
use chat_gateway::dispatch::{
    aggregate_broadcast, clone_adapter_error, select_first, single_result, DispatchResult,
    IntegratorCore, Request, RouteSelector, DEFAULT_DEADLINE_MS, DEFAULT_FANOUT_LIMIT,
};
use chat_gateway::errors::{AdapterError, RegistryError};
use chat_gateway::registry::Registry;

/// A backend stand-in whose work takes a stated number of milliseconds:
/// when the work fits the deadline it answers, otherwise it reports that
/// it timed out, as the adapter contract asks of a deadline-honouring
/// implementation.
enum TestBot {
    /// Answers with the input text after `delay_ms` of work.
    Echo { delay_ms: u64 },
    /// Answers a fixed reply after `delay_ms` of work.
    Fixed { reply: &'static str, delay_ms: u64 },
    /// Always fails with a backend failure carrying this detail.
    Broken { detail: &'static str },
}

impl ChatbotAdapter for TestBot {
    fn respond(&self, input: &str, deadline_ms: u64) -> Result<String, AdapterError> {
        match self {
            TestBot::Echo { delay_ms } => {
                if *delay_ms <= deadline_ms {
                    Ok(input.to_string())
                } else {
                    Err(AdapterError::Timeout)
                }
            }
            TestBot::Fixed { reply, delay_ms } => {
                if *delay_ms <= deadline_ms {
                    Ok((*reply).to_string())
                } else {
                    Err(AdapterError::Timeout)
                }
            }
            TestBot::Broken { detail } => Err(AdapterError::BackendFailure((*detail).to_string())),
        }
    }
}

fn echo() -> TestBot {
    TestBot::Echo { delay_ms: 0 }
}

#[test]
fn add_then_lookup_returns_equivalent_handle() {
    let mut reg: Registry<TestBot> = Registry::new();
    assert_eq!(reg.add("echo".to_string(), TestBot::Fixed { reply: "one", delay_ms: 0 }), Ok(()));
    let handle = reg.lookup(&"echo".to_string()).expect("registered name must resolve");
    assert_eq!(handle.respond("x", 100), Ok("one".to_string()));
}

#[test]
fn lookup_survives_removal_of_other_name() {
    let mut reg: Registry<TestBot> = Registry::new();
    reg.add("echo".to_string(), TestBot::Fixed { reply: "one", delay_ms: 0 }).unwrap();
    reg.add("weather".to_string(), TestBot::Fixed { reply: "rain", delay_ms: 0 }).unwrap();
    assert_eq!(reg.remove(&"weather".to_string()), Ok(()));
    let handle = reg.lookup(&"echo".to_string()).expect("unrelated removal must not unregister");
    assert_eq!(handle.respond("x", 100), Ok("one".to_string()));
    assert!(reg.lookup(&"weather".to_string()).is_none());
}

#[test]
fn duplicate_add_fails_and_keeps_registry_unchanged() {
    let mut reg: Registry<TestBot> = Registry::new();
    assert_eq!(reg.add("echo".to_string(), TestBot::Fixed { reply: "one", delay_ms: 0 }), Ok(()));
    assert_eq!(
        reg.add("echo".to_string(), TestBot::Fixed { reply: "two", delay_ms: 0 }),
        Err(RegistryError::DuplicateName)
    );
    assert_eq!(reg.len(), 1);
    assert_eq!(reg.list(), vec!["echo".to_string()]);
    let handle = reg.lookup(&"echo".to_string()).unwrap();
    assert_eq!(handle.respond("x", 100), Ok("one".to_string()));
}

#[test]
fn remove_absent_fails_and_keeps_registry_unchanged() {
    let mut reg: Registry<TestBot> = Registry::new();
    reg.add("echo".to_string(), echo()).unwrap();
    assert_eq!(reg.remove(&"ghost".to_string()), Err(RegistryError::NotFound));
    assert_eq!(reg.list(), vec!["echo".to_string()]);
}

#[test]
fn remove_then_lookup_is_none() {
    let mut reg: Registry<TestBot> = Registry::new();
    reg.add("echo".to_string(), echo()).unwrap();
    assert_eq!(reg.remove(&"echo".to_string()), Ok(()));
    assert!(reg.lookup(&"echo".to_string()).is_none());
    assert_eq!(reg.len(), 0);
    assert!(reg.list().is_empty());
}

#[test]
fn replace_swaps_in_place_and_keeps_order() {
    let mut reg: Registry<TestBot> = Registry::new();
    reg.add("echo".to_string(), TestBot::Fixed { reply: "old", delay_ms: 0 }).unwrap();
    reg.add("weather".to_string(), TestBot::Fixed { reply: "rain", delay_ms: 0 }).unwrap();
    assert_eq!(
        reg.replace(&"echo".to_string(), TestBot::Fixed { reply: "new", delay_ms: 0 }),
        Ok(())
    );
    assert_eq!(reg.list(), vec!["echo".to_string(), "weather".to_string()]);
    let handle = reg.lookup(&"echo".to_string()).unwrap();
    assert_eq!(handle.respond("x", 100), Ok("new".to_string()));
}

#[test]
fn replace_absent_fails_not_found() {
    let mut reg: Registry<TestBot> = Registry::new();
    assert_eq!(
        reg.replace(&"ghost".to_string(), echo()),
        Err(RegistryError::NotFound)
    );
    assert!(reg.list().is_empty());
}

#[test]
fn list_keeps_insertion_order() {
    let mut reg: Registry<TestBot> = Registry::new();
    reg.add("alpha".to_string(), echo()).unwrap();
    reg.add("beta".to_string(), echo()).unwrap();
    reg.add("gamma".to_string(), echo()).unwrap();
    assert_eq!(
        reg.list(),
        vec!["alpha".to_string(), "beta".to_string(), "gamma".to_string()]
    );
    assert!(reg.contains(&"beta".to_string()));
    assert!(!reg.contains(&"delta".to_string()));
}

#[test]
fn scenario_explicit_echo_within_deadline() {
    // Registry {echo, weather}; target "echo"; echo answers "hi" in 50 ms,
    // deadline 200 ms: the route returns the single response "hi".
    let mut core: IntegratorCore<TestBot> = IntegratorCore::new();
    core.add_adapter("echo".to_string(), TestBot::Fixed { reply: "hi", delay_ms: 50 }).unwrap();
    core.add_adapter("weather".to_string(), TestBot::Fixed { reply: "rain", delay_ms: 10 }).unwrap();
    let req = Request { input: "hello".to_string(), target: RouteSelector::Explicit("echo".to_string()) };
    assert_eq!(core.route(&req, 200), DispatchResult::Single("hi".to_string()));
}

#[test]
fn routing_to_unregistered_name_is_not_found() {
    let mut core: IntegratorCore<TestBot> = IntegratorCore::new();
    core.add_adapter("echo".to_string(), echo()).unwrap();
    let req = Request { input: "hello".to_string(), target: RouteSelector::Explicit("ghost".to_string()) };
    assert_eq!(
        core.route(&req, 200),
        DispatchResult::Failed(AdapterError::NotFound("ghost".to_string()))
    );
}

#[test]
fn explicit_target_exceeding_deadline_times_out() {
    let mut core: IntegratorCore<TestBot> = IntegratorCore::new();
    core.add_adapter("slow".to_string(), TestBot::Fixed { reply: "late", delay_ms: 500 }).unwrap();
    let req = Request { input: "hello".to_string(), target: RouteSelector::Explicit("slow".to_string()) };
    assert_eq!(core.route(&req, 100), DispatchResult::Failed(AdapterError::Timeout));
}

#[test]
fn scenario_broadcast_partial_success_with_timeout() {
    // Broadcast over {echo: "hi" in 10 ms, weather: hangs past 100 ms},
    // deadline 100 ms: echo succeeds, weather is reported as a timeout.
    let mut core: IntegratorCore<TestBot> = IntegratorCore::new();
    core.add_adapter("echo".to_string(), TestBot::Fixed { reply: "hi", delay_ms: 10 }).unwrap();
    core.add_adapter("weather".to_string(), TestBot::Fixed { reply: "rain", delay_ms: 100_000 }).unwrap();
    let req = Request { input: "hello".to_string(), target: RouteSelector::Broadcast };
    assert_eq!(
        core.route(&req, 100),
        DispatchResult::Broadcast(
            vec![("echo".to_string(), "hi".to_string())],
            vec![("weather".to_string(), AdapterError::Timeout)]
        )
    );
}

#[test]
fn broadcast_counts_successes_and_failures_exactly() {
    let mut core: IntegratorCore<TestBot> = IntegratorCore::new();
    core.add_adapter("a".to_string(), TestBot::Fixed { reply: "ra", delay_ms: 0 }).unwrap();
    core.add_adapter("b".to_string(), TestBot::Broken { detail: "down" }).unwrap();
    core.add_adapter("c".to_string(), TestBot::Fixed { reply: "rc", delay_ms: 0 }).unwrap();
    let req = Request { input: "q".to_string(), target: RouteSelector::Broadcast };
    assert_eq!(
        core.route(&req, 100),
        DispatchResult::Broadcast(
            vec![("a".to_string(), "ra".to_string()), ("c".to_string(), "rc".to_string())],
            vec![("b".to_string(), AdapterError::BackendFailure("down".to_string()))]
        )
    );
}

#[test]
fn broadcast_with_zero_successes_is_unavailable() {
    let mut core: IntegratorCore<TestBot> = IntegratorCore::new();
    core.add_adapter("a".to_string(), TestBot::Broken { detail: "x" }).unwrap();
    core.add_adapter("b".to_string(), TestBot::Broken { detail: "y" }).unwrap();
    let req = Request { input: "q".to_string(), target: RouteSelector::Broadcast };
    assert_eq!(core.route(&req, 100), DispatchResult::Failed(AdapterError::Unavailable));
}

#[test]
fn broadcast_on_empty_registry_is_unavailable() {
    let core: IntegratorCore<TestBot> = IntegratorCore::new();
    let req = Request { input: "q".to_string(), target: RouteSelector::Broadcast };
    assert_eq!(core.route(&req, 100), DispatchResult::Failed(AdapterError::Unavailable));
}

#[test]
fn first_match_skips_failures_in_registration_order() {
    let mut core: IntegratorCore<TestBot> = IntegratorCore::new();
    core.add_adapter("a".to_string(), TestBot::Broken { detail: "down" }).unwrap();
    core.add_adapter("b".to_string(), TestBot::Fixed { reply: "rb", delay_ms: 0 }).unwrap();
    core.add_adapter("c".to_string(), TestBot::Fixed { reply: "rc", delay_ms: 0 }).unwrap();
    let req = Request { input: "q".to_string(), target: RouteSelector::FirstMatch };
    assert_eq!(core.route(&req, 100), DispatchResult::Single("rb".to_string()));
}

#[test]
fn first_match_with_all_failing_is_unavailable() {
    let mut core: IntegratorCore<TestBot> = IntegratorCore::new();
    core.add_adapter("a".to_string(), TestBot::Broken { detail: "down" }).unwrap();
    core.add_adapter("b".to_string(), TestBot::Fixed { reply: "late", delay_ms: 10_000 }).unwrap();
    let req = Request { input: "q".to_string(), target: RouteSelector::FirstMatch };
    assert_eq!(core.route(&req, 100), DispatchResult::Failed(AdapterError::Unavailable));
}

#[test]
fn scenario_second_add_of_same_name_fails_and_first_wins() {
    // add("echo", a1) then add("echo", a2): the second call fails with
    // DuplicateName and lookup("echo") still resolves to a1.
    let mut core: IntegratorCore<TestBot> = IntegratorCore::new();
    assert_eq!(
        core.add_adapter("echo".to_string(), TestBot::Fixed { reply: "first", delay_ms: 0 }),
        Ok(())
    );
    assert_eq!(
        core.add_adapter("echo".to_string(), TestBot::Fixed { reply: "second", delay_ms: 0 }),
        Err(RegistryError::DuplicateName)
    );
    let handle = core.lookup_adapter(&"echo".to_string()).unwrap();
    assert_eq!(handle.respond("x", 100), Ok("first".to_string()));
    assert_eq!(core.list_names(), vec!["echo".to_string()]);
}

#[test]
fn get_response_uses_first_match_under_default_deadline() {
    let mut core: IntegratorCore<TestBot> = IntegratorCore::new();
    core.add_adapter("a".to_string(), TestBot::Broken { detail: "down" }).unwrap();
    core.add_adapter("b".to_string(), TestBot::Echo { delay_ms: 0 }).unwrap();
    assert_eq!(core.get_response("hello".to_string()), Ok("hello".to_string()));
}

#[test]
fn get_response_on_empty_registry_is_unavailable() {
    let core: IntegratorCore<TestBot> = IntegratorCore::new();
    assert_eq!(core.get_response("hello".to_string()), Err(AdapterError::Unavailable));
}

#[test]
fn aggregate_broadcast_orders_results_deterministically() {
    let outcomes: Vec<(String, Result<String, AdapterError>)> = vec![
        ("a".to_string(), Ok("ra".to_string())),
        ("b".to_string(), Err(AdapterError::Timeout)),
        ("c".to_string(), Ok("rc".to_string())),
        ("d".to_string(), Err(AdapterError::BackendFailure("boom".to_string()))),
    ];
    assert_eq!(
        aggregate_broadcast(&outcomes),
        DispatchResult::Broadcast(
            vec![("a".to_string(), "ra".to_string()), ("c".to_string(), "rc".to_string())],
            vec![
                ("b".to_string(), AdapterError::Timeout),
                ("d".to_string(), AdapterError::BackendFailure("boom".to_string()))
            ]
        )
    );
}

#[test]
fn aggregate_broadcast_of_no_outcomes_is_unavailable() {
    let outcomes: Vec<(String, Result<String, AdapterError>)> = Vec::new();
    assert_eq!(
        aggregate_broadcast(&outcomes),
        DispatchResult::Failed(AdapterError::Unavailable)
    );
}

#[test]
fn single_result_propagates_outcome_directly() {
    assert_eq!(
        single_result(Ok("hi".to_string())),
        DispatchResult::Single("hi".to_string())
    );
    assert_eq!(
        single_result(Err(AdapterError::Timeout)),
        DispatchResult::Failed(AdapterError::Timeout)
    );
}

#[test]
fn clone_adapter_error_copies_every_variant() {
    let variants = vec![
        AdapterError::NotFound("n".to_string()),
        AdapterError::Timeout,
        AdapterError::BackendFailure("d".to_string()),
        AdapterError::Unavailable,
    ];
    for v in &variants {
        assert_eq!(clone_adapter_error(v), *v);
    }
}

#[test]
fn error_labels_are_distinct_per_variant() {
    assert_eq!(AdapterError::NotFound("n".to_string()).label(), "not_found");
    assert_eq!(AdapterError::Timeout.label(), "timeout");
    assert_eq!(AdapterError::BackendFailure("d".to_string()).label(), "backend_failure");
    assert_eq!(AdapterError::Unavailable.label(), "unavailable");
}

#[test]
fn configuration_is_carried_and_defaulted() {
    let core: IntegratorCore<TestBot> = IntegratorCore::new();
    assert_eq!(core.default_deadline_ms(), DEFAULT_DEADLINE_MS);
    assert_eq!(core.fanout_limit(), DEFAULT_FANOUT_LIMIT);
    let tuned: IntegratorCore<TestBot> = IntegratorCore::with_config(250, 8);
    assert_eq!(tuned.default_deadline_ms(), 250);
    assert_eq!(tuned.fanout_limit(), 8);
}

#[test]
fn core_remove_adapter_unregisters_name() {
    let mut core: IntegratorCore<TestBot> = IntegratorCore::new();
    core.add_adapter("echo".to_string(), echo()).unwrap();
    assert_eq!(core.remove_adapter(&"ghost".to_string()), Err(RegistryError::NotFound));
    assert_eq!(core.remove_adapter(&"echo".to_string()), Ok(()));
    assert!(core.lookup_adapter(&"echo".to_string()).is_none());
    let req = Request { input: "q".to_string(), target: RouteSelector::Explicit("echo".to_string()) };
    assert_eq!(
        core.route(&req, 100),
        DispatchResult::Failed(AdapterError::NotFound("echo".to_string()))
    );
}

#[test]
fn core_replace_adapter_hot_swaps_behavior() {
    let mut core: IntegratorCore<TestBot> = IntegratorCore::new();
    core.add_adapter("echo".to_string(), TestBot::Fixed { reply: "old", delay_ms: 0 }).unwrap();
    assert_eq!(
        core.replace_adapter(&"echo".to_string(), TestBot::Fixed { reply: "new", delay_ms: 0 }),
        Ok(())
    );
    let req = Request { input: "q".to_string(), target: RouteSelector::Explicit("echo".to_string()) };
    assert_eq!(core.route(&req, 100), DispatchResult::Single("new".to_string()));
    assert_eq!(
        core.replace_adapter(&"ghost".to_string(), echo()),
        Err(RegistryError::NotFound)
    );
}

#[test]
fn select_first_picks_first_success_in_order() {
    let outcomes: Vec<(String, Result<String, AdapterError>)> = vec![
        ("a".to_string(), Err(AdapterError::BackendFailure("down".to_string()))),
        ("b".to_string(), Ok("rb".to_string())),
        ("c".to_string(), Ok("rc".to_string())),
    ];
    assert_eq!(select_first(&outcomes), DispatchResult::Single("rb".to_string()));
}

#[test]
fn select_first_with_no_success_is_unavailable() {
    let outcomes: Vec<(String, Result<String, AdapterError>)> = vec![
        ("a".to_string(), Err(AdapterError::Timeout)),
        ("b".to_string(), Err(AdapterError::BackendFailure("x".to_string()))),
    ];
    assert_eq!(select_first(&outcomes), DispatchResult::Failed(AdapterError::Unavailable));
    let none: Vec<(String, Result<String, AdapterError>)> = Vec::new();
    assert_eq!(select_first(&none), DispatchResult::Failed(AdapterError::Unavailable));
}
