use sandkit::decode::decode_returned_shape;
use sandkit::handoff::prepare_handoff;
use sandkit::host::{
    params_record, settle_call, CallOutcome, Export, HostError, HostPhase, PumpEvent, PumpStatus,
    ScriptHost,
};
use sandkit::shape::{Chain, Circle, Shape, Shape2d, Sketch};
use sandkit::value::Value;

fn obj(fields: Vec<(&str, Value)>) -> Value {
    Value::Obj(fields.into_iter().map(|(k, v)| (k.to_string(), v)).collect())
}

fn txt(s: &str) -> Value {
    Value::Text(s.to_string())
}

fn shape_export() -> Vec<Export> {
    vec![
        Export { name: "shape".to_string(), callable: true },
        Export { name: "version".to_string(), callable: false },
    ]
}

fn evaluated_host() -> ScriptHost {
    let mut host = ScriptHost::new(8);
    host.begin_load().unwrap();
    host.finish_load(true).unwrap();
    let status = host.pump_step(PumpEvent::Idle(shape_export())).unwrap();
    assert_eq!(status, PumpStatus::Settled);
    host
}

#[test]
fn invoking_before_load_fails_with_export_missing() {
    let host = ScriptHost::new(8);
    assert_eq!(host.invoke("shape"), Err(HostError::ExportMissing));
}

#[test]
fn invoking_before_evaluation_completes_fails_with_export_missing() {
    let mut host = ScriptHost::new(8);
    host.begin_load().unwrap();
    assert_eq!(host.invoke("shape"), Err(HostError::ExportMissing));
    host.finish_load(true).unwrap();
    assert_eq!(host.invoke("shape"), Err(HostError::ExportMissing));
    host.pump_step(PumpEvent::Working).unwrap();
    assert_eq!(host.invoke("shape"), Err(HostError::ExportMissing));
}

#[test]
fn full_lifecycle_reaches_the_export() {
    let mut host = ScriptHost::new(8);
    assert_eq!(host.current_phase(), HostPhase::Unloaded);
    host.begin_load().unwrap();
    assert_eq!(host.current_phase(), HostPhase::Loading);
    host.finish_load(true).unwrap();
    assert_eq!(host.current_phase(), HostPhase::Loaded);
    assert_eq!(
        host.pump_step(PumpEvent::Working),
        Ok(PumpStatus::Evaluating)
    );
    assert_eq!(
        host.pump_step(PumpEvent::Idle(shape_export())),
        Ok(PumpStatus::Settled)
    );
    assert_eq!(host.current_phase(), HostPhase::Evaluated);
    assert_eq!(host.invoke("shape"), Ok(()));
}

#[test]
fn missing_export_is_reported_after_evaluation() {
    let host = evaluated_host();
    assert_eq!(host.invoke("main"), Err(HostError::ExportMissing));
}

#[test]
fn non_callable_export_is_reported() {
    let host = evaluated_host();
    assert_eq!(host.invoke("version"), Err(HostError::ExportNotCallable));
}

#[test]
fn parse_failure_is_a_load_error_and_permanent() {
    let mut host = ScriptHost::new(8);
    host.begin_load().unwrap();
    assert_eq!(host.finish_load(false), Err(HostError::LoadFailed));
    assert_eq!(host.current_phase(), HostPhase::Failed);
    assert_eq!(host.invoke("shape"), Err(HostError::ExportMissing));
}

#[test]
fn unhandled_rejection_fails_evaluation_permanently() {
    let mut host = ScriptHost::new(8);
    host.begin_load().unwrap();
    host.finish_load(true).unwrap();
    assert_eq!(
        host.pump_step(PumpEvent::Rejected),
        Err(HostError::EvaluationFailed)
    );
    assert_eq!(host.current_phase(), HostPhase::Failed);
    assert_eq!(host.invoke("shape"), Err(HostError::ExportMissing));
}

#[test]
fn a_script_that_never_settles_exhausts_the_pump_budget() {
    let mut host = ScriptHost::new(2);
    host.begin_load().unwrap();
    host.finish_load(true).unwrap();
    assert_eq!(
        host.pump_step(PumpEvent::Working),
        Ok(PumpStatus::Evaluating)
    );
    assert_eq!(
        host.pump_step(PumpEvent::Working),
        Ok(PumpStatus::Evaluating)
    );
    assert_eq!(
        host.pump_step(PumpEvent::Working),
        Err(HostError::NeverSettled)
    );
    assert_eq!(host.current_phase(), HostPhase::Failed);
}

#[test]
fn lifecycle_methods_out_of_order_are_rejected() {
    let mut host = ScriptHost::new(8);
    assert_eq!(host.finish_load(true), Err(HostError::OutOfOrder));
    assert_eq!(
        host.pump_step(PumpEvent::Working),
        Err(HostError::OutOfOrder)
    );
    host.begin_load().unwrap();
    assert_eq!(host.begin_load(), Err(HostError::OutOfOrder));
}

#[test]
fn settling_a_returned_value_passes_it_through() {
    let v = txt("anything");
    let settled = settle_call(CallOutcome::Returned(v)).unwrap();
    assert_eq!(settled, txt("anything"));
}

#[test]
fn settling_a_throw_is_a_call_error() {
    assert_eq!(
        settle_call(CallOutcome::Threw),
        Err(HostError::CallFailed)
    );
}

#[test]
fn params_record_carries_each_entry_in_order() {
    let record = params_record(vec![
        ("outer".to_string(), 1_000_000),
        ("inner".to_string(), 500_000),
        ("height".to_string(), 1_000_000),
    ]);
    match record {
        Value::Obj(fields) => {
            assert_eq!(fields.len(), 3);
            assert_eq!(fields[0], ("outer".to_string(), Value::Num(1_000_000)));
            assert_eq!(fields[1], ("inner".to_string(), Value::Num(500_000)));
            assert_eq!(fields[2], ("height".to_string(), Value::Num(1_000_000)));
        }
        other => panic!("expected a record, got {:?}", other),
    }
}

#[test]
fn returned_sketch_reaches_the_processor_stub_unmodified() {
    let returned = obj(vec![
        ("type", txt("Sketch")),
        (
            "chain",
            obj(vec![("type", txt("Circle")), ("radius", Value::Num(2_000_000))]),
        ),
    ]);
    let settled = settle_call(CallOutcome::Returned(returned)).unwrap();
    let shape = decode_returned_shape(&settled).unwrap();
    let expected = Shape::Shape2d(Shape2d::Sketch(Sketch {
        chain: Chain::Circle(Circle { radius: 2_000_000 }),
    }));
    assert_eq!(shape, expected);

    let request = prepare_handoff(shape, Some(10_000));
    let received = processor_stub(request);
    let expected_again = Shape::Shape2d(Shape2d::Sketch(Sketch {
        chain: Chain::Circle(Circle { radius: 2_000_000 }),
    }));
    assert_eq!(received.0, expected_again);
    assert_eq!(received.1, Some(10_000));
}

fn processor_stub(request: sandkit::handoff::MeshRequest) -> (Shape, Option<i64>) {
    (request.shape, request.tolerance)
}

#[test]
fn absent_tolerance_means_the_processor_default() {
    let shape = Shape::Circle(Circle { radius: 1 });
    let request = prepare_handoff(shape, None);
    assert_eq!(request.tolerance, None);
    assert_eq!(request.shape, Shape::Circle(Circle { radius: 1 }));
}
