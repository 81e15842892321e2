use wcbe::befunge::StepStatus as TickStatus;
use wcbe::befunge98::{Cursor, Direction, State, StateTempName, StepStatus};
use wcbe::outside::PositionMap;
use wcbe::befunge98::fingerprints::FingerprintName;
use wcbe::settings::{InvalidOperationBehaviour, Settings};

fn test_floats(fingerprint: FingerprintName, letter: u8, mut toss: Vec<i64>, mut output: String) -> (Vec<i64>, String, bool) {
    let pop = |t: &mut Vec<i64>| f64::from_bits(t.pop().unwrap_or(0) as u64);
    let reflect = match (fingerprint, letter) {
        (FingerprintName::Fpdp, b'a') => {
            let a = pop(&mut toss);
            let b = pop(&mut toss);
            toss.push((b + a).to_bits() as i64);
            false
        }
        (FingerprintName::Fpdp, b'p') => {
            let a = pop(&mut toss);
            output.push_str(&a.to_string());
            false
        }
        _ => true,
    };
    (toss, output, reflect)
}

fn settings(behaviour: InvalidOperationBehaviour) -> Settings {
    Settings {
        pos_history: true,
        get_history: true,
        put_history: true,
        skip_spaces: false,
        non_blocking_input: true,
        invalid_operation_behaviour: behaviour,
    }
}

fn load(lines: &[&str]) -> State {
    let mut map: PositionMap<i64> = PositionMap::default();
    let mut width = 0;
    for (y, line) in lines.iter().enumerate() {
        for (x, b) in line.bytes().enumerate() {
            if b != b' ' {
                map.insert((x as i64, y as i64), b as i64);
            }
        }
        width = width.max(line.len() as i64);
    }
    State::new_from_fungespace(map, (width, lines.len() as i64))
}

fn run(state: &mut State, s: &Settings, ticks: usize) -> TickStatus {
    let mut last = TickStatus::Normal;
    for _ in 0..ticks {
        last = state.step(s, &test_floats);
        if !matches!(last, TickStatus::Normal) {
            break;
        }
    }
    last
}

#[test]
fn adds_and_prints() {
    let s = settings(InvalidOperationBehaviour::Halt);
    let mut st = load(&["12+.@"]);
    assert!(matches!(run(&mut st, &s, 4), TickStatus::Normal));
    assert_eq!(st.stdout(), "3 ");
    assert_eq!(st.instruction_count(), 4);
    // The last cursor dying is reported as a breakpoint, and it stays.
    assert!(matches!(st.step(&s, &test_floats), TickStatus::Breakpoint));
    assert_eq!(st.cursor_positions().len(), 1);
}

#[test]
fn prints_characters_and_negative_numbers() {
    let s = settings(InvalidOperationBehaviour::Halt);
    let mut st = load(&["88*1+,05-.@"]);
    run(&mut st, &s, 10);
    assert_eq!(st.stdout(), "A-5 ");
}

#[test]
fn string_mode_pushes_characters() {
    let s = settings(InvalidOperationBehaviour::Halt);
    let mut st = load(&["\"ab\"@"]);
    run(&mut st, &s, 2);
    assert!(st.string_mode());
    run(&mut st, &s, 2);
    assert!(!st.string_mode());
    assert_eq!(st.stack(), vec![97, 98]);
}

#[test]
fn arithmetic_follows_rust_on_cells() {
    let s = settings(InvalidOperationBehaviour::Halt);
    let mut st = load(&["07-2/.07-2%.50/.50%.@"]);
    run(&mut st, &s, 20);
    assert_eq!(st.stdout(), "-3 -1 0 0 ");
}

#[test]
fn put_and_get_cells() {
    let s = settings(InvalidOperationBehaviour::Halt);
    let mut st = load(&["88*55p55g.@"]);
    run(&mut st, &s, 10);
    assert_eq!(st.get((5, 5)), 64);
    assert_eq!(st.stdout(), "64 ");
    assert!(st.put_history().contains_key(&(5, 5)));
    assert!(st.get_history().contains_key(&(5, 5)));
}

#[test]
fn blocks_restore_the_stack() {
    let s = settings(InvalidOperationBehaviour::Halt);
    let mut st = load(&["51{1}.@"]);
    run(&mut st, &s, 6);
    assert_eq!(st.stdout(), "5 ");
}

#[test]
fn split_makes_a_second_cursor() {
    let s = settings(InvalidOperationBehaviour::Halt);
    let mut st = load(&[" t  "]);
    run(&mut st, &s, 1);
    assert_eq!(st.cursor_positions(), vec![(1, 0)]);
    run(&mut st, &s, 1);
    let positions = st.cursor_positions();
    assert_eq!(positions.len(), 2);
    assert_eq!(positions[0], (2, 0));
    assert_eq!(positions[1], (0, 0));
    assert_eq!(st.cursor_direction(), (1, 0));
}

#[test]
fn failed_instruction_halts_when_asked() {
    let s = settings(InvalidOperationBehaviour::Halt);
    let mut st = load(&["i"]);
    match st.step(&s, &test_floats) {
        TickStatus::Error(msg) => assert_eq!(msg, "Invalid operation"),
        _ => panic!("expected an error"),
    }
}

#[test]
fn failed_instruction_reflects_when_asked() {
    let s = settings(InvalidOperationBehaviour::Reflect);
    let mut st = load(&[" i "]);
    run(&mut st, &s, 2);
    assert_eq!(st.cursor_direction(), (-1, 0));
    assert_eq!(st.cursor_positions(), vec![(0, 0)]);
}

#[test]
fn failed_instruction_is_ignored_when_asked() {
    let s = settings(InvalidOperationBehaviour::Ignore);
    let mut st = load(&[" i "]);
    run(&mut st, &s, 2);
    assert_eq!(st.cursor_direction(), (1, 0));
    assert_eq!(st.cursor_positions(), vec![(1, 0)]);
}

#[test]
fn breakpoints_stop_a_tick() {
    let s = settings(InvalidOperationBehaviour::Halt);
    let mut st = load(&["1 2"]);
    st.breakpoints().insert((1, 0));
    assert!(matches!(st.step(&s, &test_floats), TickStatus::Breakpoint));
    assert_eq!(st.cursor_positions(), vec![(1, 0)]);
}

#[test]
fn random_direction_is_cardinal() {
    let s = settings(InvalidOperationBehaviour::Halt);
    for _ in 0..20 {
        let mut st = load(&["?"]);
        st.step(&s, &test_floats);
        let d = st.cursor_direction();
        assert!([(0, -1), (0, 1), (1, 0), (-1, 0)].contains(&d));
    }
}

#[test]
fn moves_wrap_at_the_edges() {
    let s = settings(InvalidOperationBehaviour::Halt);
    let mut st = load(&["<"]);
    st.step(&s, &test_floats);
    assert_eq!(st.cursor_positions(), vec![(2, 0)]);
    assert!(st.pos_history().contains_key(&(0, 0)));
}

#[test]
fn input_is_read_from_the_buffer() {
    let s = settings(InvalidOperationBehaviour::Halt);
    let mut st = load(&["&.~.~.@"]);
    st.stdin().push_str("42 x");
    run(&mut st, &s, 7);
    assert_eq!(st.stdout(), "42 120 -1 ");
}

#[test]
fn editing_cells_through_the_state() {
    let mut st = State::default();
    st.set((3, 3), 7);
    assert_eq!(st.get((3, 3)), 7);
    assert_eq!(st.program_size(), (11, 11));
    st.set((30, 40), 1);
    assert_eq!(st.program_size(), (30, 40));
    assert!(st.graphics().is_none());
}

#[test]
fn deprecated_whole_program_moves() {
    let s = settings(InvalidOperationBehaviour::Halt);
    let mut st = load(&["    "]);
    st.step_position(&s);
    assert_eq!(st.cursor_positions(), vec![(1, 0)]);
    st.reflect();
    assert_eq!(st.cursor_direction(), (-1, 0));
}

#[test]
fn cursor_stack_ops() {
    let mut c = Cursor::default();
    assert_eq!(c.pop(), 0);
    c.push(4);
    c.push(5);
    assert_eq!(c.pop(), 5);
    assert_eq!(c.pop(), 4);
    assert_eq!(c.pop(), 0);
}

#[test]
fn a_cursor_ticks_alone() {
    let s = settings(InvalidOperationBehaviour::Halt);
    let mut env = StateTempName::default();
    env.map.set((0, 0), b'9' as i64);
    let mut c = Cursor::default();
    let r = c.step(&mut env, &s, &test_floats);
    assert!(matches!(r, StepStatus::Normal));
    assert_eq!(c.stacks, vec![vec![9]]);
    assert_eq!(c.position, (1, 0));
    assert_eq!(env.instruction_count, 1);
    c.direction = Direction::south();
    c.step_position(&mut env, &s);
    assert_eq!(c.position, (1, 1));
}
