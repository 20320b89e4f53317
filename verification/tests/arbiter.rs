use harness::arbiter::{find_text, StateAccessor};
use harness::error::NoDevicesError;
use harness::internals::{Schema, Service};
use harness::program::Program;

fn state() -> StateAccessor {
    StateAccessor::new(Program {
        schema: Schema {
            version: "0.1.0".to_string(),
            program: "hello".to_string(),
            services: vec![Service {
                name: "hello".to_string(),
                args: vec!["text".to_string()],
                rets: "text".to_string(),
            }],
        },
        wasm: vec![0, 97, 115, 109],
    })
}

fn picks(state: &mut StateAccessor, n: usize) -> Vec<String> {
    (0..n).map(|_| state.get_next_device().unwrap()).collect()
}

#[test]
fn without_devices_there_is_none_to_hand_out() {
    let mut state = state();
    assert!(state.get_devices().is_empty());
    assert_eq!(state.get_next_device(), Err(NoDevicesError));
    assert_eq!(state.get_next_device(), Err(NoDevicesError));
    state.add_device("a".to_string());
    state.remove_device("a".to_string());
    assert_eq!(state.get_next_device(), Err(NoDevicesError));
    assert_eq!(NoDevicesError.to_error().to_string(), "Internal error: No devices registered");
}

#[test]
fn devices_are_handed_out_in_turn() {
    let mut state = state();
    for url in ["a", "b", "c"] {
        state.add_device(url.to_string());
    }
    assert_eq!(state.get_devices(), vec!["a", "b", "c"]);
    assert_eq!(picks(&mut state, 7), vec!["a", "b", "c", "a", "b", "c", "a"]);
    assert_eq!(state.get_devices(), vec!["a", "b", "c"]);
}

#[test]
fn every_device_has_its_share_of_the_turns() {
    for m in 1..6usize {
        for n in m..(3 * m + 2) {
            let mut state = state();
            for i in 0..m {
                state.add_device(format!("http://w{i}:9000"));
            }
            for _ in 0..(n % 3) {
                state.get_next_device().unwrap();
            }
            let picked = picks(&mut state, n);
            for i in 0..m {
                let count = picked.iter().filter(|url| **url == format!("http://w{i}:9000")).count();
                assert!(count == n / m || count == n.div_ceil(m), "{m} {n} {i} {count}");
            }
            for round in picked.windows(m) {
                let mut seen: Vec<&String> = round.iter().collect();
                seen.sort();
                seen.dedup();
                assert_eq!(seen.len(), m);
            }
        }
    }
}

#[test]
fn one_device_is_handed_out_every_time() {
    let mut state = state();
    state.add_device("only".to_string());
    assert_eq!(picks(&mut state, 3), vec!["only", "only", "only"]);
}

#[test]
fn an_address_may_be_registered_twice() {
    let mut state = state();
    for url in ["a", "b", "a"] {
        state.add_device(url.to_string());
    }
    assert_eq!(state.get_devices(), vec!["a", "b", "a"]);
    assert_eq!(picks(&mut state, 4), vec!["a", "b", "a", "a"]);
    state.remove_device("a".to_string());
    assert_eq!(state.get_devices(), vec!["b", "a"]);
    state.remove_device("a".to_string());
    assert_eq!(state.get_devices(), vec!["b"]);
    state.remove_device("a".to_string());
    assert_eq!(state.get_devices(), vec!["b"]);
}

#[test]
fn a_new_device_joins_the_round() {
    let mut state = state();
    state.add_device("a".to_string());
    state.add_device("b".to_string());
    assert_eq!(picks(&mut state, 1), vec!["a"]);
    state.add_device("c".to_string());
    assert_eq!(picks(&mut state, 4), vec!["b", "c", "a", "b"]);
}

#[test]
fn the_cursor_stays_among_the_devices_when_one_leaves() {
    let mut state = state();
    for url in ["a", "b", "c"] {
        state.add_device(url.to_string());
    }
    assert_eq!(picks(&mut state, 2), vec!["a", "b"]);
    // the cursor stands at the last of three
    state.remove_device("a".to_string());
    assert_eq!(state.get_devices(), vec!["b", "c"]);
    assert_eq!(picks(&mut state, 3), vec!["b", "c", "b"]);

    let mut state = self::state();
    for url in ["a", "b", "c"] {
        state.add_device(url.to_string());
    }
    assert_eq!(picks(&mut state, 1), vec!["a"]);
    // the cursor stands at the second of three
    state.remove_device("c".to_string());
    assert_eq!(picks(&mut state, 3), vec!["b", "a", "b"]);

    let mut state = self::state();
    state.add_device("a".to_string());
    state.add_device("b".to_string());
    assert_eq!(picks(&mut state, 1), vec!["a"]);
    state.remove_device("b".to_string());
    state.remove_device("a".to_string());
    assert!(state.get_devices().is_empty());
    state.add_device("z".to_string());
    assert_eq!(picks(&mut state, 2), vec!["z", "z"]);
}

#[test]
fn removing_an_unknown_device_changes_nothing() {
    let mut state = state();
    state.remove_device("a".to_string());
    state.add_device("a".to_string());
    state.add_device("b".to_string());
    assert_eq!(picks(&mut state, 1), vec!["a"]);
    state.remove_device("c".to_string());
    state.remove_device("".to_string());
    assert_eq!(state.get_devices(), vec!["a", "b"]);
    assert_eq!(picks(&mut state, 2), vec!["b", "a"]);
}

#[test]
fn the_embedded_program() {
    let state = state();
    assert_eq!(state.get_program_code(), vec![0, 97, 115, 109]);
    assert_eq!(String::from(state.get_program_id()), "hello");
    let schema = state.get_schema();
    assert_eq!(schema.version, "0.1.0");
    assert_eq!(schema.program, "hello");
    assert_eq!(schema.services.len(), 1);
    assert_eq!(schema.services[0].name, "hello");
    assert_eq!(schema.services[0].args, vec!["text"]);
    assert_eq!(schema.services[0].rets, "text");
}

#[test]
fn the_first_of_equal_texts_is_found() {
    let v: Vec<String> = ["a", "b", "a", ""].iter().map(|s| s.to_string()).collect();
    assert_eq!(find_text(&v, &"a".to_string()), Some(0));
    assert_eq!(find_text(&v, &"b".to_string()), Some(1));
    assert_eq!(find_text(&v, &"".to_string()), Some(3));
    assert_eq!(find_text(&v, &"c".to_string()), None);
    assert_eq!(find_text(&Vec::new(), &"a".to_string()), None);
}
