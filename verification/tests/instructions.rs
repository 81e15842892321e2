use wcbe::befunge::StepStatus as TickStatus;
use wcbe::befunge98::{Cursor, State};
use wcbe::outside::PositionMap;
use wcbe::befunge98::fingerprints::FingerprintName;
use wcbe::settings::{InvalidOperationBehaviour, Settings};

fn test_floats(fingerprint: FingerprintName, letter: u8, mut toss: Vec<i64>, mut output: String) -> (Vec<i64>, String, bool) {
    let pop = |t: &mut Vec<i64>| f64::from_bits(t.pop().unwrap_or(0) as u64);
    let reflect = match (fingerprint, letter) {
        (FingerprintName::Fpdp, b'a') => {
            let a = pop(&mut toss);
            let b = pop(&mut toss);
            toss.push((b + a).to_bits() as i64);
            false
        }
        (FingerprintName::Fpdp, b'p') => {
            let a = pop(&mut toss);
            output.push_str(&a.to_string());
            false
        }
        _ => true,
    };
    (toss, output, reflect)
}

fn settings() -> Settings {
    Settings {
        pos_history: false,
        get_history: false,
        put_history: false,
        skip_spaces: false,
        non_blocking_input: true,
        invalid_operation_behaviour: InvalidOperationBehaviour::Halt,
    }
}

fn load(line: &str) -> State {
    let mut map: PositionMap<i64> = PositionMap::default();
    for (x, b) in line.bytes().enumerate() {
        if b != b' ' {
            map.insert((x as i64, 0), b as i64);
        }
    }
    State::new_from_fungespace(map, (line.len() as i64, 1))
}

fn run(state: &mut State, s: &Settings, ticks: usize) -> TickStatus {
    let mut last = TickStatus::Normal;
    for _ in 0..ticks {
        last = state.step(s, &test_floats);
        if !matches!(last, TickStatus::Normal) {
            break;
        }
    }
    last
}

fn error_of(line: &str, s: &Settings, ticks: usize) -> &'static str {
    let mut st = load(line);
    match run(&mut st, s, ticks) {
        TickStatus::Error(msg) => msg,
        _ => panic!("expected an error"),
    }
}

#[test]
fn trampoline_skips_a_cell() {
    let mut st = load("#12.@");
    run(&mut st, &settings(), 3);
    assert_eq!(st.stdout(), "2 ");
}

#[test]
fn fetch_pushes_the_next_cell() {
    let mut st = load("';.@");
    run(&mut st, &settings(), 2);
    assert_eq!(st.stdout(), "59 ");
}

#[test]
fn comments_are_skipped_in_one_tick() {
    let mut st = load(";abc;1.@");
    run(&mut st, &settings(), 3);
    assert_eq!(st.stdout(), "1 ");
}

#[test]
fn jump_skips_cells() {
    let mut st = load("2j123.@");
    run(&mut st, &settings(), 4);
    assert_eq!(st.stdout(), "3 ");
}

#[test]
fn iterate_repeats_the_next_instruction() {
    let mut st = load("3k5....@");
    run(&mut st, &settings(), 6);
    assert_eq!(st.stdout(), "5 5 5 5 ");
}

#[test]
fn store_writes_the_next_cell() {
    let mut st = load("7s .@");
    run(&mut st, &settings(), 3);
    assert_eq!(st.get((2, 0)), 7);
    assert_eq!(st.stdout(), "0 ");
}

#[test]
fn clear_empties_the_stack() {
    let mut st = load("12n.@");
    run(&mut st, &settings(), 4);
    assert_eq!(st.stdout(), "0 ");
}

#[test]
fn compare_turns() {
    let mut st = load("12w");
    run(&mut st, &settings(), 3);
    assert_eq!(st.cursor_direction(), (0, -1));
    let mut st = load("21w");
    run(&mut st, &settings(), 3);
    assert_eq!(st.cursor_direction(), (0, 1));
    let mut st = load("22w");
    run(&mut st, &settings(), 3);
    assert_eq!(st.cursor_direction(), (1, 0));
}

#[test]
fn absolute_delta() {
    let mut st = load("05x");
    run(&mut st, &settings(), 3);
    assert_eq!(st.cursor_direction(), (0, 5));
}

#[test]
fn unimplemented_and_invalid_instructions_fail() {
    let s = settings();
    assert_eq!(error_of("q", &s, 1), "Quit is not yet properly implemented");
    assert_eq!(error_of("=", &s, 1), "Execute is not yet implemented");
    assert_eq!(error_of("i", &s, 1), "Invalid operation");
    assert_eq!(error_of("1u", &s, 2), "no soss?");
    assert_eq!(error_of("1}", &s, 2), "no soss?");
    assert_eq!(error_of("01-,", &s, 4), "Invalid UTF-8 char");
}

#[test]
fn bad_number_input_fails() {
    let s = settings();
    let mut st = load("&");
    st.stdin().push_str("x");
    match st.step(&s, &test_floats) {
        TickStatus::Error(msg) => assert_eq!(msg, "Invalid input for Error::InvalidNumber"),
        _ => panic!("expected an error"),
    }
}

#[test]
fn blocking_input_waits() {
    let mut s = settings();
    s.non_blocking_input = false;
    let mut st = load("~");
    assert!(matches!(st.step(&s, &test_floats), TickStatus::Breakpoint));
    assert_eq!(st.cursor_positions(), vec![(0, 0)]);
    st.stdin().push_str("A");
    assert!(matches!(st.step(&s, &test_floats), TickStatus::Normal));
    assert_eq!(st.stack(), vec![65]);
}

#[test]
fn sysinfo_pushes_everything_or_one_cell() {
    let mut st = load("0y");
    run(&mut st, &settings(), 2);
    let stack = st.stack();
    assert_eq!(stack.len(), 25);
    assert_eq!(stack[24], 1);
    assert_eq!(stack[23], 8);
    assert_eq!(stack[22], 0x8B38669B);
    assert_eq!(stack[21], 100);
    assert_eq!(stack[3], 1);
    let mut st = load("1y.@");
    run(&mut st, &settings(), 3);
    assert_eq!(st.stdout(), "1 ");
}

#[test]
fn skipping_spaces_glides_to_the_last_space() {
    let mut s = settings();
    s.skip_spaces = true;
    let mut st = load("1   2");
    run(&mut st, &s, 1);
    assert_eq!(st.cursor_positions(), vec![(3, 0)]);
    assert_eq!(st.instruction_count(), 1);
}

#[test]
fn pop_string_reads_up_to_a_zero() {
    let mut c = Cursor::default();
    c.push(5);
    c.push(0);
    c.push(b'b' as i64);
    c.push(b'a' as i64);
    assert_eq!(c.pop_string(), Some(String::from("ab")));
    assert_eq!(c.stacks, vec![vec![5]]);
    let mut c = Cursor::default();
    c.push(0);
    c.push(-5);
    c.push(b'a' as i64);
    assert_eq!(c.pop_string(), None);
    assert!(c.stacks[0].is_empty());
    let mut c = Cursor::default();
    c.push(b'z' as i64);
    assert_eq!(c.pop_string(), Some(String::from("z")));
}

#[test]
fn loading_roma_gives_the_numerals() {
    let mut st = load("\"AMOR\"4(MM+.@");
    run(&mut st, &settings(), 12);
    assert_eq!(st.stdout(), "2000 ");
    assert_eq!(st.stack(), vec![0x524F4D41, 1]);
}

#[test]
fn unloading_takes_the_meanings_away() {
    let mut st = load("\"AMOR\"4($$\"AMOR\"4)M");
    run(&mut st, &settings(), 19);
    assert_eq!(st.cursor_direction(), (-1, 0));
    assert!(st.stack().is_empty());
}

#[test]
fn unknown_fingerprints_reflect() {
    let mut st = load("\"XXXX\"4(");
    run(&mut st, &settings(), 8);
    assert_eq!(st.cursor_direction(), (-1, 0));
    assert!(st.stack().is_empty());
}

#[test]
fn a_letter_without_meaning_reflects() {
    let mut st = load(" A ");
    run(&mut st, &settings(), 2);
    assert_eq!(st.cursor_direction(), (-1, 0));
    assert_eq!(st.cursor_positions(), vec![(0, 0)]);
}

#[test]
fn loading_modu() {
    let mut st = load("\"UDOM\"4(73M.@");
    run(&mut st, &settings(), 12);
    assert_eq!(st.stdout(), "1 ");
}

#[test]
fn floating_point_runs_through_the_unit() {
    let mut st = load("\"PDPF\"4(00AP@");
    run(&mut st, &settings(), 12);
    assert_eq!(st.stdout(), "0");
}

#[test]
fn begin_block_pads_with_zeros() {
    let mut st = load("53{...@");
    run(&mut st, &settings(), 6);
    assert_eq!(st.stdout(), "5 0 0 ");
}

#[test]
fn end_block_pads_with_zeros() {
    let mut st = load("0{52}...@");
    run(&mut st, &settings(), 8);
    assert_eq!(st.stdout(), "5 0 0 ");
}

#[test]
fn records_are_renewed_after_half_a_second() {
    assert!(wcbe::befunge98::ops::refresh_due(3, 2));
    assert!(!wcbe::befunge98::ops::refresh_due(2, 2));
}

#[test]
fn hrti_loads_only_with_a_clock() {
    let mut st = load("\"ITRH\"4(");
    run(&mut st, &settings(), 8);
    assert_eq!(st.cursor_direction(), (-1, 0));
    let mut st = load("\"ITRH\"4(G.@");
    st.start_clock();
    run(&mut st, &settings(), 10);
    assert_eq!(st.stdout(), "1 ");
}

#[test]
fn pixl_does_not_load() {
    let mut st = load("\"LXIP\"4(");
    run(&mut st, &settings(), 8);
    assert_eq!(st.cursor_direction(), (-1, 0));
    assert!(st.stack().is_empty());
}
