//! Actions, default chains, the registry, and runs of strategies.

use capi::cec::session::{CecCall, Connection};
use capi::cec::types::{CecError, Configuration, Keycode, LogicalAddress, Opcode};
use capi::strategies::{
    all_actions, clamp_ms, classify, expected_reply_opcode, parse_hex_byte, Action, Registry,
    RunOptions, Step, StepKind, StratResult, StratStatus, Strategy,
};
use capi::strategy_run::{
    after_call, execute_step, hold_time, FollowUp, RunAction, StrategyRun,
};
use capi::time::{Duration, Timestamp};
use capi::types::BusFrameEntry;

#[test]
fn actions_beyond_ascii() {
    assert_eq!(Action::parse("\u{a0}Volume up\t"), Some(Action::VolumeUp));
    assert_eq!(Action::parse("Volume up"), Action::parse("volume-UP"));
    assert_eq!(Action::parse("bac\u{212a}"), Action::parse("back"));
    assert_eq!(Action::parse("\u{fc}ber-all"), None);
}

#[test]
fn action_parse_is_separator_insensitive() {
    assert_eq!(Action::parse("volume_up"), Some(Action::VolumeUp));
    assert_eq!(Action::parse("volume-up"), Some(Action::VolumeUp));
    assert_eq!(Action::parse("VolumeUp"), None);
    assert_eq!(Action::parse(" number_5 "), Some(Action::Number(5)));
    assert_eq!(Action::parse("nope"), None);
    assert_eq!(Action::VolumeUp.as_str(), "volume_up");
}

#[test]
fn default_chains_cover_every_action() {
    let r = Registry::new();
    for (name, action) in all_actions() {
        let chain = r.strategies_for("", action);
        assert!(!chain.is_empty(), "{name} has defaults");
        for s in &chain {
            assert!(!s.steps.is_empty(), "{} strategy has steps", s.name);
        }
    }
}

#[test]
fn vendor_overrides_take_precedence_and_clear() {
    let mut r = Registry::new();
    let action = Action::VolumeUp;
    let custom = vec![Strategy {
        name: "custom".into(),
        steps: vec![],
        observe_ms: 0,
    }];
    r.set_vendor_override("0x000048", action, custom);
    assert_eq!(r.strategies_for("0X000048 ", action)[0].name, "custom");
    assert_eq!(r.strategies_for("0x0000ff", action)[0].name, "uc_volume_up_audio");
    r.set_vendor_override("0x000048", action, vec![]);
    assert_eq!(r.strategies_for("0x000048", action)[0].name, "uc_volume_up_audio");
}

#[test]
fn clamp_ms_bounds() {
    assert_eq!(clamp_ms(-5, 100), 0);
    assert_eq!(clamp_ms(50, 100), 50);
    assert_eq!(clamp_ms(5000, 100), 100);
}

fn frame(op: &str, params: &[&str]) -> BusFrameEntry {
    BusFrameEntry {
        timestamp: Timestamp::new(1_700_000_000, 0).unwrap(),
        initiator: 0,
        destination: 4,
        opcode: op.into(),
        ack: true,
        eom: true,
        opcode_set: true,
        params_hex: params.iter().map(|s| s.to_string()).collect(),
    }
}

#[test]
fn classify_paths() {
    let mut res = StratResult {
        strategy: "t".into(),
        status: StratStatus::AckedNoReply,
        acked: true,
        reply_opcode: 0,
        reply_name: String::new(),
        abort_opcode: 0,
        elapsed_ms: 0,
        error: String::new(),
        steps: vec![],
    };
    let own = 4;
    let audio = Some(Opcode(Opcode::REPORT_AUDIO_STATUS));

    classify(&mut res, &vec![frame("0x7A", &[])], audio, own);
    assert_eq!(res.status, StratStatus::Confirmed);
    assert_eq!(res.status.as_str(), "ok");
    assert_eq!(res.reply_name, "REPORT_AUDIO_STATUS");

    classify(&mut res, &vec![frame("0x00", &["44", "01"])], audio, own);
    assert_eq!(res.status, StratStatus::FeatureAborted);
    assert_eq!(res.abort_opcode, 0x44);

    let own_frame = BusFrameEntry {
        initiator: own,
        ..frame("0x90", &[])
    };
    classify(&mut res, &vec![own_frame], audio, own);
    assert_eq!(res.status, StratStatus::AckedNoReply);

    res.acked = false;
    classify(&mut res, &vec![], audio, own);
    assert_eq!(res.status, StratStatus::NoAck);
}

#[test]
fn parse_hex_byte_handles_prefixes_and_garbage() {
    assert_eq!(parse_hex_byte("0x90"), 0x90);
    assert_eq!(parse_hex_byte("0XFF"), 0xFF);
    assert_eq!(parse_hex_byte("90"), 0x90);
    assert_eq!(parse_hex_byte("zz"), 0);
}

fn step(kind: StepKind, key: u8, op: u8) -> Step {
    Step {
        kind,
        target: LogicalAddress(LogicalAddress::UNKNOWN),
        key: Keycode(key),
        wait: false,
        hold_ms: 0,
        opcode: Opcode(op),
        params: vec![],
        delay_ms: 0,
    }
}

#[test]
fn expected_reply_opcode_mapping() {
    assert_eq!(
        expected_reply_opcode(&step(StepKind::SendUserControl, Keycode::VOLUME_UP, 0)),
        Some(Opcode(Opcode::REPORT_AUDIO_STATUS))
    );
    assert_eq!(
        expected_reply_opcode(&step(StepKind::LibcecPowerOn, 0, 0)),
        Some(Opcode(Opcode::REPORT_POWER_STATUS))
    );
    assert_eq!(
        expected_reply_opcode(&step(StepKind::Transmit, 0, Opcode::GIVE_PHYSICAL_ADDRESS)),
        Some(Opcode(Opcode::REPORT_PHYSICAL_ADDRESS))
    );
    assert_eq!(expected_reply_opcode(&step(StepKind::Wait, 0, 0)), None);
}

fn live() -> Connection {
    let mut c = Connection::opened_session(1, &Configuration::default(), true).unwrap();
    c.adapter_opened(1).unwrap();
    c
}

#[test]
fn a_step_becomes_a_call() {
    let c = live();
    let press = step(StepKind::SendUserControl, Keycode::VOLUME_UP, 0);
    assert!(matches!(
        execute_step(&c, &press, LogicalAddress(5), None),
        Ok(Some(CecCall::SendKeypress { address: 5, key: 0x41, wait: false }))
    ));
    let send = step(StepKind::Transmit, 0, Opcode::GIVE_AUDIO_STATUS);
    match execute_step(&c, &send, LogicalAddress(5), Some(LogicalAddress(4))) {
        Ok(Some(CecCall::Transmit { command })) => {
            assert_eq!(command.initiator, LogicalAddress(4));
            assert_eq!(command.destination, LogicalAddress(5));
        }
        other => panic!("{other:?}"),
    }
    assert!(matches!(
        execute_step(&c, &step(StepKind::Wait, 0, 0), LogicalAddress(5), None),
        Ok(None)
    ));
    let held = Step { hold_ms: 9000, ..step(StepKind::SendUserControl, 1, 0) };
    assert_eq!(hold_time(&held), Some(2000));
    assert_eq!(hold_time(&press), None);
}

#[test]
fn a_run_goes_step_by_step() {
    let opts = RunOptions { target: Some(LogicalAddress(5)), ..RunOptions::default() };
    let chain = Registry::new().strategies_for("", Action::VolumeUp);
    let mut run = StrategyRun::start(chain.into_iter().next().unwrap(), &opts);
    let mut steps = 0;
    loop {
        match run.next_action() {
            RunAction::Step { index, target } => {
                assert_eq!(index, steps);
                assert_eq!(target, LogicalAddress(5));
                steps += 1;
                run.on_step(Ok(()));
            }
            RunAction::Sleep { ms } => {
                assert!(ms <= 2000);
                run.on_slept(true, 10);
            }
            RunAction::Observe { ms } => {
                assert!(ms <= 5000);
                run.on_observed(true, &vec![frame("0x7A", &["32"])], 4, 700);
            }
            RunAction::Done => break,
        }
    }
    assert_eq!(run.result.status, StratStatus::Confirmed);
    assert_eq!(run.result.steps.len(), steps);
    assert!(run.result.acked);
}

#[test]
fn a_failed_step_ends_a_run_with_its_error() {
    let chain = Registry::new().strategies_for("", Action::VolumeUp);
    let mut run = StrategyRun::start(chain.into_iter().next().unwrap(), &RunOptions::default());
    assert!(matches!(run.next_action(), RunAction::Step { .. }));
    run.on_step(Err(CecError::Closed));
    while run.next_action() != RunAction::Done {
        match run.next_action() {
            RunAction::Step { .. } => run.on_step(Err(CecError::Closed)),
            RunAction::Sleep { .. } => run.on_slept(true, 1),
            RunAction::Observe { .. } => run.on_observed(true, &vec![], 4, 1),
            RunAction::Done => {}
        }
    }
    assert!(!run.result.acked);
    assert_ne!(run.result.status, StratStatus::Confirmed);
}

#[test]
fn a_chain_stops_at_the_first_strategy_that_works() {
    let registry = Registry::new();
    let opts = RunOptions { target: Some(LogicalAddress(5)), ..RunOptions::default() };
    let mut chain = registry.run(false, Action::VolumeUp, &opts, 5).unwrap();
    let mut run = chain.next_run(Duration::zero()).unwrap();
    assert_eq!(run.target, Some(LogicalAddress(5)));
    run.result.status = StratStatus::NoAck;
    chain.record(run.result);
    let mut run = chain.next_run(Duration::zero()).unwrap();
    run.result.status = StratStatus::Confirmed;
    chain.record(run.result);
    assert!(chain.next_run(Duration::zero()).is_none());
    let names: Vec<&str> = chain.results.iter().map(|r| r.strategy.as_str()).collect();
    assert_eq!(names, vec!["uc_volume_up_audio", "uc_volume_up_tv"]);

    let all = RunOptions { all_strategies: true, ..RunOptions::default() };
    let mut chain = registry.run(false, Action::VolumeUp, &all, 5).unwrap();
    let mut run = chain.next_run(Duration::zero()).unwrap();
    run.result.status = StratStatus::Confirmed;
    chain.record(run.result);
    assert!(chain.next_run(Duration::zero()).is_some());
    assert!(chain.next_run(Duration::from_secs(5)).is_none());
    assert!(chain.in_time(Duration::from_secs(4), 1000));
    assert!(!chain.in_time(Duration::from_secs(4), 1001));
}

#[test]
fn a_held_key_is_released() {
    let held = Step { hold_ms: 250, wait: true, ..step(StepKind::SendUserControl, 1, 0) };
    assert!(matches!(
        after_call(&held, LogicalAddress(5), Ok(())),
        FollowUp::Release { hold_ms: 250, address: LogicalAddress(5), wait: true }
    ));
    assert!(matches!(
        after_call(&held, LogicalAddress(5), Err(CecError::Closed)),
        FollowUp::Finished { outcome: Err(CecError::Closed) }
    ));
    assert!(matches!(
        after_call(&step(StepKind::Transmit, 0, 0), LogicalAddress(5), Ok(())),
        FollowUp::Finished { outcome: Ok(()) }
    ));
}

#[test]
fn a_listening_session_runs_nothing() {
    let skipped = Registry::new()
        .run(true, Action::Mute, &RunOptions::default(), 5)
        .unwrap_err();
    assert_eq!(skipped[0].status, StratStatus::Skipped);
    assert_eq!(skipped[0].error, "connection is monitor-only");
}

#[test]
fn results_have_a_json_form() {
    let skipped = Registry::new()
        .run(true, Action::Mute, &RunOptions::default(), 5)
        .unwrap_err();
    let v = skipped[0].to_json();
    assert_eq!(v["strategy"], serde_json::Value::from("monitor-only"));
    assert_eq!(v["status"], serde_json::Value::from("skipped"));
}
