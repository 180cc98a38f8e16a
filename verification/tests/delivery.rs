use indexmap::IndexMap;
use spreadsheet_to_json::delivery::{
    deliver_rows, delivery_step, DeliveryAction, DeliveryEvent, DeliveryState, CHANNEL_CAPACITY,
};
use spreadsheet_to_json::cell::RawCell;
use spreadsheet_to_json::data_set::WorkbookInfo;
use spreadsheet_to_json::error::GenericError;
use spreadsheet_to_json::options::OptionSet;
use spreadsheet_to_json::path_data::PathData;
use spreadsheet_to_json::pipeline::deliver_sheet;
use spreadsheet_to_json::value::CellValue;
use std::cell::Cell;

fn records(n: i64) -> Vec<IndexMap<String, CellValue>> {
    (0..n)
        .map(|i| {
            let mut record = IndexMap::new();
            record.insert("id".to_string(), CellValue::Integer(i));
            record
        })
        .collect()
}

#[test]
fn every_record_reaches_the_sink_in_order() {
    let seen = Cell::new(0i64);
    let sink = |record: &IndexMap<String, CellValue>| {
        assert_eq!(record.get("id"), Some(&CellValue::Integer(seen.get())));
        seen.set(seen.get() + 1);
        Ok(())
    };
    assert_eq!(deliver_rows(&records(40), &sink).unwrap(), 40);
    assert_eq!(seen.get(), 40);
    assert_eq!(deliver_rows(&records(0), &sink).unwrap(), 0);
}

#[test]
fn a_failing_sink_halts_delivery() {
    let calls = Cell::new(0u32);
    let sink = |_record: &IndexMap<String, CellValue>| {
        calls.set(calls.get() + 1);
        if calls.get() == 3 {
            Err(GenericError("disk_full"))
        } else {
            Ok(())
        }
    };
    let outcome = deliver_rows(&records(10), &sink);
    assert_eq!(outcome.unwrap_err().0, "disk_full");
    // the sink was not invoked again after its failure on the third row
    assert_eq!(calls.get(), 3);
}

#[test]
fn receiving_side_steps() {
    let state = DeliveryState::start();
    assert_eq!(state.delivered(), 0);
    let (state, action) = delivery_step(state, DeliveryEvent::Received);
    assert_eq!(action, DeliveryAction::Save);
    let (state, action) = delivery_step(state, DeliveryEvent::Saved);
    assert_eq!(action, DeliveryAction::Receive);
    assert_eq!(state.delivered(), 1);
    let (state, action) = delivery_step(state, DeliveryEvent::Received);
    assert_eq!(action, DeliveryAction::Save);
    let (state, action) = delivery_step(state, DeliveryEvent::Saved);
    assert_eq!(action, DeliveryAction::Receive);
    let (state, action) = delivery_step(state, DeliveryEvent::Received);
    assert_eq!(action, DeliveryAction::Save);
    // the sink fails on the third row
    let (state, action) =
        delivery_step(state, DeliveryEvent::SaveFailed(GenericError("save_failed")));
    assert_eq!(action, DeliveryAction::Stop);
    assert_eq!(state.delivered(), 2);
    // whatever happens now, the sink is not invoked again
    let (state, action) = delivery_step(state, DeliveryEvent::Received);
    assert_eq!(action, DeliveryAction::Stop);
    let (state, action) = delivery_step(state, DeliveryEvent::Saved);
    assert_eq!(action, DeliveryAction::Stop);
    let (state, action) = delivery_step(state, DeliveryEvent::Closed);
    assert_eq!(action, DeliveryAction::Stop);
    assert!(matches!(state, DeliveryState::Failed { delivered: 2, .. }));
    match state.outcome() {
        Some(Err(e)) => assert_eq!(e.0, "save_failed"),
        other => panic!("unexpected outcome {:?}", other),
    }
}

#[test]
fn receiving_side_finishes_when_the_channel_closes() {
    let (state, _) = delivery_step(DeliveryState::start(), DeliveryEvent::Received);
    assert!(state.outcome().is_none());
    let (state, _) = delivery_step(DeliveryState::start(), DeliveryEvent::Received);
    let (state, _) = delivery_step(state, DeliveryEvent::Saved);
    let (state, action) = delivery_step(state, DeliveryEvent::Closed);
    assert_eq!(action, DeliveryAction::Stop);
    let (state, action) = delivery_step(state, DeliveryEvent::Received);
    assert_eq!(action, DeliveryAction::Stop);
    match state.outcome() {
        Some(Ok(n)) => assert_eq!(n, 1),
        other => panic!("unexpected outcome {:?}", other),
    }
    let full = DeliveryState::Receiving { delivered: usize::MAX };
    let (state, _) = delivery_step(full, DeliveryEvent::Saved);
    assert_eq!(state.delivered(), usize::MAX);
    assert_eq!(CHANNEL_CAPACITY, 32);
}

fn sheet_rows(data_rows: i64) -> Vec<Vec<RawCell>> {
    let mut rows = vec![vec![RawCell::Text("Id".to_string())]];
    for i in 0..data_rows {
        rows.push(vec![RawCell::Int(i)]);
    }
    rows
}

#[test]
fn a_sheet_is_delivered_row_by_row() {
    let info = WorkbookInfo::simple(&PathData::new("s.xlsx"));
    let opts = OptionSet::new("s.xlsx").read_mode_async();
    let seen = Cell::new(0i64);
    let sink = |record: &IndexMap<String, CellValue>| {
        // the header row is not delivered; the data rows come in order
        assert_eq!(record.get("id"), Some(&CellValue::Integer(seen.get())));
        seen.set(seen.get() + 1);
        Ok(())
    };
    let result = deliver_sheet(&sheet_rows(400), &opts, &info, &sink, Some("table_a")).unwrap();
    assert_eq!(seen.get(), 400);
    assert_eq!(result.num_rows, 401);
    assert_eq!(result.to_vec().len(), 0);
    assert_eq!(result.out_ref, Some("table_a".to_string()));

    // the maximum of rows to keep does not limit what is delivered
    let opts = OptionSet::new("s.xlsx").max_row_count(3);
    seen.set(0);
    let result = deliver_sheet(&sheet_rows(10), &opts, &info, &sink, None).unwrap();
    assert_eq!(seen.get(), 10);
    assert_eq!(result.to_vec().len(), 3);
}

#[test]
fn a_failing_sink_halts_the_delivery_of_a_sheet() {
    let info = WorkbookInfo::simple(&PathData::new("s.xlsx"));
    let opts = OptionSet::new("s.xlsx").read_mode_async();
    let calls = Cell::new(0u32);
    let sink = |_record: &IndexMap<String, CellValue>| {
        calls.set(calls.get() + 1);
        if calls.get() == 3 {
            Err(GenericError("disk_full"))
        } else {
            Ok(())
        }
    };
    let outcome = deliver_sheet(&sheet_rows(8), &opts, &info, &sink, None);
    assert_eq!(outcome.unwrap_err().0, "disk_full");
    assert_eq!(calls.get(), 3);
}
