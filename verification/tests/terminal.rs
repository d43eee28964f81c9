use herdr::canvas::{Area, CellColor};
use herdr::coven::{ExecutionAuthority, ExecutionScope};
use herdr::external_renderer::{ExternalCursorShape, ExternalScrollMetrics};
use herdr::runtime_provider::actor::{ProviderRuntime, ProviderRuntimeHandle, WorkerSlots};
use herdr::runtime_provider::{
    ProviderConfig, ProviderId, ProviderIdentity, ProviderOperationResult,
};
use herdr::terminal::external::{
    cursor_shape, external_hyperlinks, external_theme, pane_scroll_metrics,
    ExternalHyperlinkSnapshot,
};
use herdr::terminal::runtime_registry::{TerminalRuntimeRegistry, MAX_EXTERNAL_TERMINALS};
use herdr::terminal::table::Table;

fn runtime() -> ProviderRuntimeHandle {
    let identity = ProviderIdentity::new(
        ProviderId::new("registry-fixture").unwrap(),
        "host".into(),
        ExecutionScope {
            project_id: "project".into(),
            profile_id: "profile".into(),
            policy_generation: 1,
        },
        ExecutionAuthority {
            id: "authority".into(),
            generation: 1,
        },
        true,
        true,
    )
    .unwrap();
    let config = ProviderConfig::new(identity, b"/missing".to_vec(), 2)
        .ok()
        .unwrap();
    ProviderRuntime::start(&config, &mut WorkerSlots { active: 0 }, &mut 1, 8)
        .ok()
        .unwrap()
}

fn registry() -> TerminalRuntimeRegistry<&'static str, &'static str> {
    TerminalRuntimeRegistry::new()
}

#[test]
fn a_terminal_is_native_or_external_but_not_both() {
    let mut runtimes = registry();
    assert_eq!(runtimes.insert("native".into(), "shell"), None);
    assert_eq!(
        runtimes.attach_external("native".into(), runtime()),
        Err("terminal already has a runtime")
    );
    assert_eq!(
        runtimes.attach_external_session("native".into(), "model"),
        Err("terminal already has an external model")
    );
    assert!(runtimes.attach_external("external".into(), runtime()).is_ok());
    assert_eq!(runtimes.insert("external".into(), "shell"), Some("shell"));
    assert!(runtimes.get("external").is_none());
    assert_eq!(runtimes.get("native"), Some(&"shell"));
    assert_eq!(runtimes.insert("native".into(), "other"), Some("shell"));
    assert_eq!(runtimes.remove("native"), Some("other"));
    assert_eq!(runtimes.remove("native"), None);
}

#[test]
fn a_model_and_its_provider_count_once() {
    let mut runtimes = registry();
    assert!(runtimes.attach_external("a".into(), runtime()).is_ok());
    assert!(runtimes
        .attach_external_session("a".into(), "model a")
        .is_ok());
    assert!(runtimes
        .attach_external_session("b".into(), "model b")
        .is_ok());
    runtimes.insert("c".into(), "shell");
    assert_eq!(runtimes.len(), 3);
    assert_eq!(runtimes.external_session("a"), Some(&"model a"));
    assert_eq!(runtimes.remove_external_session("b"), Some("model b"));
    assert_eq!(runtimes.len(), 2);
    let (session, retired) = runtimes.shutdown_external("a");
    assert_eq!(session, Some("model a"));
    let retired = retired.expect("provider");
    assert!(retired.stopped && retired.detached);
    assert_eq!(retired.runtime_generation, runtime().runtime_generation);
    assert_eq!(retired.capacity, runtime().capacity);
    assert!(retired.commands.is_empty());
    assert!(retired.snapshot.last_operation.is_none());
    // It was told of the detachment before it was stopped.
    assert_eq!(retired.updates.len(), 2);
    assert!(matches!(
        retired.updates[0].result,
        ProviderOperationResult::Detached
    ));
    assert!(matches!(
        retired.updates[1].result,
        ProviderOperationResult::Shutdown
    ));
    assert!(runtimes.external("a").is_none());
    assert_eq!(runtimes.len(), 1);
    let (session, retired) = runtimes.shutdown_external("a");
    assert!(session.is_none() && retired.is_none());
}

#[test]
fn external_terminals_are_bounded() {
    let mut runtimes = registry();
    for i in 0..MAX_EXTERNAL_TERMINALS {
        assert!(runtimes
            .attach_external(format!("term_{i}"), runtime())
            .is_ok());
    }
    assert_eq!(
        runtimes.attach_external("one more".into(), runtime()),
        Err("external terminal limit reached")
    );
}

#[test]
fn a_table_keeps_each_key_once() {
    let mut table: Table<u32> = Table::new();
    assert_eq!(table.insert("a".into(), 1), None);
    assert_eq!(table.insert("b".into(), 2), None);
    assert_eq!(table.insert("a".into(), 3), Some(1));
    assert_eq!(table.len(), 2);
    assert_eq!(table.get("a"), Some(&3));
    assert!(!table.contains("c"));
    let mut other: Table<u32> = Table::new();
    other.insert("b".into(), 9);
    assert_eq!(table.count_beyond(&other), 1);
    assert_eq!(table.remove("b"), Some(2));
    assert_eq!(table.remove("b"), None);
}

#[test]
fn cursor_shapes_have_their_numbers() {
    let numbers: Vec<u8> = [
        ExternalCursorShape::Hidden,
        ExternalCursorShape::Block { blinking: true },
        ExternalCursorShape::Block { blinking: false },
        ExternalCursorShape::Underline { blinking: true },
        ExternalCursorShape::Underline { blinking: false },
        ExternalCursorShape::Bar { blinking: true },
        ExternalCursorShape::Bar { blinking: false },
    ]
    .into_iter()
    .map(cursor_shape)
    .collect();
    assert_eq!(numbers, vec![0, 1, 2, 3, 4, 5, 6]);
}

#[test]
fn hyperlinks_outside_of_a_pane_are_dropped() {
    let link = |column: u16, row: u16| ExternalHyperlinkSnapshot {
        column,
        row,
        symbol: "x".into(),
        uri: format!("https://example.invalid/{column}"),
    };
    let links = vec![link(0, 0), link(10, 0), link(9, 3), link(0, 4)];
    let shown = external_hyperlinks(&links, Area::new(5, 7, 10, 4));
    assert_eq!(
        shown,
        vec![
            ((5, 7), "x".to_string(), "https://example.invalid/0".to_string()),
            ((14, 10), "x".to_string(), "https://example.invalid/9".to_string()),
        ]
    );
}

#[test]
fn scroll_and_theme_are_handed_on() {
    let metrics = pane_scroll_metrics(ExternalScrollMetrics {
        offset_from_bottom: 2,
        max_offset_from_bottom: 30,
        viewport_rows: 24,
        history_rows: 40,
    });
    assert_eq!(metrics.offset_from_bottom, 2);
    assert_eq!(metrics.max_offset_from_bottom, 30);
    assert_eq!(metrics.viewport_rows, 24);
    let theme = external_theme(
        CellColor::Rgb(1, 1, 1),
        CellColor::Rgb(2, 2, 2),
        CellColor::Rgb(3, 3, 3),
    );
    assert_eq!(theme.foreground, CellColor::Rgb(1, 1, 1));
    assert_eq!(theme.background, CellColor::Rgb(2, 2, 2));
    assert_eq!(theme.cursor, CellColor::Rgb(3, 3, 3));
}
