use sql_api::results::Batch;
use sql_api::sequencer::{assemble, Action, Event, FinalOutput, Phase, PlanRendering, Sequencer};

fn s(v: &str) -> String {
    v.to_string()
}

fn book_output() -> FinalOutput {
    FinalOutput {
        logical_plan: s("TableScan: book projection=[str]"),
        batches: vec![Batch { fields: vec![(s("str"), s("Utf8View"))], rows: vec![vec![s("foo")]] }],
        physical_plan: PlanRendering::Rendered {
            text: s("DataSourceExec: partitions=1, partition_sizes=[1]"),
            working_dir: s("/home/me/proj"),
        },
    }
}

#[test]
fn empty_request_answers_the_zero_result() {
    let mut q = Sequencer::new(0);
    match q.step(Event::Begin) {
        Action::Respond(r) => {
            assert!(r.columns.is_empty());
            assert!(r.rows.is_empty());
            assert!(r.logical_plan.is_empty());
            assert!(r.physical_plan.is_empty());
        }
        _ => panic!("expected an answer"),
    }
    assert!(matches!(q.current_phase(), Phase::Finished));
    assert!(matches!(q.step(Event::SessionOpened), Action::Nothing));
}

#[test]
fn create_insert_select_runs_in_order() {
    let mut q = Sequencer::new(3);
    assert!(matches!(q.step(Event::Begin), Action::OpenSession));
    assert!(matches!(q.step(Event::SessionOpened), Action::RunForEffect(0)));
    assert!(matches!(q.current_phase(), Phase::RunningForEffect(0)));
    assert!(matches!(q.step(Event::StatementDone), Action::RunForEffect(1)));
    assert!(matches!(q.step(Event::StatementDone), Action::RunFinal(2)));
    assert!(matches!(q.current_phase(), Phase::RunningFinal));
    match q.step(Event::FinalDone(book_output())) {
        Action::Respond(r) => {
            assert_eq!(r.columns, vec![(s("str"), s("Utf8View"))]);
            assert_eq!(r.rows, vec![vec![s("foo")]]);
            assert_eq!(r.logical_plan, "TableScan: book projection=[str]");
            assert_eq!(r.physical_plan, "DataSourceExec: partitions=1, partition_sizes=[1]");
        }
        _ => panic!("expected an answer"),
    }
    assert!(matches!(q.current_phase(), Phase::Finished));
}

#[test]
fn single_statement_runs_as_the_last() {
    let mut q = Sequencer::new(1);
    assert!(matches!(q.step(Event::Begin), Action::OpenSession));
    assert!(matches!(q.step(Event::SessionOpened), Action::RunFinal(0)));
}

#[test]
fn failure_ends_the_request() {
    let mut q = Sequencer::new(3);
    q.step(Event::Begin);
    q.step(Event::SessionOpened);
    let msg = s("Error during planning: table 'datafusion.public.missing' not found");
    match q.step(Event::Failed(msg.clone())) {
        Action::Fail(m) => assert_eq!(m, msg),
        _ => panic!("expected a failure"),
    }
    assert!(matches!(q.step(Event::StatementDone), Action::Nothing));
    assert!(matches!(q.step(Event::FinalDone(book_output())), Action::Nothing));
    assert!(matches!(q.step(Event::Failed(s("again"))), Action::Nothing));
}

#[test]
fn failure_to_open_the_session_fails_before_any_statement() {
    let mut q = Sequencer::new(2);
    q.step(Event::Begin);
    assert!(matches!(q.step(Event::Failed(s("no such directory"))), Action::Fail(_)));
    assert!(matches!(q.step(Event::SessionOpened), Action::Nothing));
}

#[test]
fn events_out_of_turn_change_nothing() {
    let mut q = Sequencer::new(2);
    assert!(matches!(q.step(Event::StatementDone), Action::Nothing));
    assert!(matches!(q.current_phase(), Phase::Start));
    q.step(Event::Begin);
    assert!(matches!(q.step(Event::Begin), Action::Nothing));
    assert!(matches!(q.current_phase(), Phase::OpeningSession));
}

#[test]
fn rendering_failure_becomes_the_plan_text() {
    let out = FinalOutput {
        logical_plan: s("EmptyRelation"),
        batches: vec![],
        physical_plan: PlanRendering::Failed(s("No such file or directory (os error 2)")),
    };
    let r = assemble(out);
    assert_eq!(r.physical_plan, "No such file or directory (os error 2)");
    assert!(r.columns.is_empty());
    assert!(r.rows.is_empty());
}

#[test]
fn final_output_is_redacted_and_capped() {
    let rows: Vec<Vec<String>> = (0..700).map(|i| vec![i.to_string()]).collect();
    let out = FinalOutput {
        logical_plan: s("TableScan: weather"),
        batches: vec![Batch { fields: vec![(s("MinTemp"), s("Float64"))], rows }],
        physical_plan: PlanRendering::Rendered {
            text: s("DataSourceExec: file_groups={1 group: [[home/me/proj/api/parquet/weather]]}"),
            working_dir: s("/home/me/proj"),
        },
    };
    let r = assemble(out);
    assert_eq!(r.physical_plan, "DataSourceExec: file_groups={1 group: [[/api/parquet/weather]]}");
    assert_eq!(r.rows.len(), 501);
    assert_eq!(r.rows[499], vec![s("499")]);
    assert_eq!(r.rows[500], vec![s("...")]);
}
