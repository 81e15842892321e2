use wcbe::befunge::{DrawCommand, GraphicalEvent};
use wcbe::befunge98::fingerprints::{
    self, FingerprintFunction, FingerprintName, fingerprint_from_id, fingerprint_to_i64,
};
use wcbe::befunge98::fingerprints::{bool as boolean, fing, fpdp, fpsp, hrti, modu, null, pixl, refc, roma};
use wcbe::befunge98::{Cursor, Direction, StateTempName};
use wcbe::settings::{InvalidOperationBehaviour, Settings};

fn settings() -> Settings {
    Settings {
        pos_history: false,
        get_history: false,
        put_history: false,
        skip_spaces: false,
        non_blocking_input: false,
        invalid_operation_behaviour: InvalidOperationBehaviour::Reflect,
    }
}

fn cursor_with(stack: &[i64]) -> Cursor {
    let mut c = Cursor::default();
    for v in stack {
        c.push(*v);
    }
    c
}

fn toss(c: &Cursor) -> Vec<i64> {
    c.stacks.last().unwrap().clone()
}

fn op(name: FingerprintName, letter: u8) -> Option<FingerprintFunction> {
    Some(FingerprintFunction::Op { fingerprint: name, letter })
}

#[test]
fn fingerprint_numbers() {
    assert_eq!(fingerprint_to_i64(b"ROMA"), 0x524F4D41);
    assert_eq!(fingerprint_to_i64(b"NULL"), 0x4E554C4C);
    assert_eq!(fingerprint_to_i64(b""), 0);
    assert_eq!(fingerprint_to_i64(b"A"), 65);
    assert_eq!(fingerprint_to_i64(&[1, 0]), 256);
}

#[test]
fn loadable_fingerprints_load_by_their_numbers() {
    let roma_table = fingerprint_from_id(fingerprint_to_i64(b"ROMA"), true).unwrap();
    assert_eq!(roma_table, roma::list_of_ops());
    assert_eq!(roma_table[2], op(FingerprintName::Roma, b'c'));
    assert_eq!(roma_table[0], None);
    let null_table = fingerprint_from_id(fingerprint_to_i64(b"NULL"), true).unwrap();
    assert!(null_table.iter().all(|f| *f == Some(FingerprintFunction::Reflect)));
    assert_eq!(fingerprint_from_id(fingerprint_to_i64(b"BOOL"), true).unwrap(), boolean::list_of_ops());
    assert_eq!(fingerprint_from_id(fingerprint_to_i64(b"HRTI"), true).unwrap(), hrti::list_of_ops());
    assert_eq!(fingerprint_from_id(0x4D4F4455, true).unwrap(), modu::list_of_ops());
    assert_eq!(fingerprint_from_id(0x52454643, true).unwrap(), refc::list_of_ops());
    assert_eq!(fingerprint_from_id(0x46504450, true).unwrap(), fpdp::list_of_ops());
    assert_eq!(fingerprint_from_id(0x46505350, true).unwrap(), fpsp::list_of_ops());
    assert_eq!(fingerprint_from_id(0x46494E47, true).unwrap(), fing::list_of_ops());
    assert!(fingerprint_from_id(fingerprint_to_i64(b"PIXL"), true).is_none());
    assert!(fingerprint_from_id(fingerprint_to_i64(b"HRTI"), false).is_none());
    assert_eq!(fingerprint_from_id(fingerprint_to_i64(b"ROMA"), false).unwrap(), roma::list_of_ops());
}

#[test]
fn other_numbers_load_nothing() {
    assert!(fingerprint_from_id(0, true).is_none());
    assert!(fingerprint_from_id(fingerprint_to_i64(b"XXXX"), true).is_none());
    assert!(fingerprint_from_id(-1, true).is_none());
}

#[test]
fn tables_set_exactly_their_letters() {
    let t = pixl::list_of_ops();
    for (i, f) in t.iter().enumerate() {
        let letter = b'a' + i as u8;
        if b"cflsuxz".contains(&letter) {
            assert_eq!(*f, op(FingerprintName::Pixl, letter));
        } else {
            assert_eq!(*f, None);
        }
    }
    assert_eq!(fpdp::list_of_ops().iter().filter(|f| f.is_some()).count(), 21);
    assert_eq!(fpsp::list_of_ops()[9], None);
    assert_eq!(fpsp::list_of_ops()[10], op(FingerprintName::Fpsp, b'k'));
    assert_eq!(modu::list_of_ops()[12], op(FingerprintName::Modu, b'm'));
    assert_eq!(refc::list_of_ops()[17], op(FingerprintName::Refc, b'r'));
    assert_eq!(fing::list_of_ops()[25], op(FingerprintName::Fing, b'z'));
    assert_eq!(null::list_of_ops()[13], Some(FingerprintFunction::Reflect));
    assert_eq!(fingerprints::fingerprint_map(FingerprintName::Bool, b"an")[0], op(FingerprintName::Bool, b'a'));
}

#[test]
fn roma_pushes_numerals() {
    let mut c = Cursor::default();
    let mut e = StateTempName::default();
    let s = settings();
    roma::roma_m(&mut c, &mut e, &s);
    roma::roma_d(&mut c, &mut e, &s);
    roma::roma_c(&mut c, &mut e, &s);
    roma::roma_l(&mut c, &mut e, &s);
    roma::roma_x(&mut c, &mut e, &s);
    roma::roma_v(&mut c, &mut e, &s);
    roma::roma_i(&mut c, &mut e, &s);
    assert_eq!(toss(&c), vec![1000, 500, 100, 50, 10, 5, 1]);
}

#[test]
fn bool_ops() {
    let mut e = StateTempName::default();
    let s = settings();
    let mut c = cursor_with(&[12, 10]);
    boolean::bool_a(&mut c, &mut e, &s);
    assert_eq!(toss(&c), vec![8]);
    let mut c = cursor_with(&[12, 10]);
    boolean::bool_o(&mut c, &mut e, &s);
    assert_eq!(toss(&c), vec![14]);
    let mut c = cursor_with(&[12, 10]);
    boolean::bool_x(&mut c, &mut e, &s);
    assert_eq!(toss(&c), vec![6]);
    let mut c = cursor_with(&[0]);
    boolean::bool_n(&mut c, &mut e, &s);
    assert_eq!(toss(&c), vec![-1]);
}

#[test]
fn modu_remainders() {
    let mut e = StateTempName::default();
    let s = settings();
    let mut c = cursor_with(&[-7, 3]);
    modu::modu_m(&mut c, &mut e, &s);
    assert_eq!(toss(&c), vec![1]);
    let mut c = cursor_with(&[-7, 3]);
    modu::modu_u(&mut c, &mut e, &s);
    assert_eq!(toss(&c), vec![1]);
    let mut c = cursor_with(&[-7, 3]);
    modu::modu_r(&mut c, &mut e, &s);
    assert_eq!(toss(&c), vec![-1]);
    let mut c = cursor_with(&[7, -3]);
    modu::modu_m(&mut c, &mut e, &s);
    assert_eq!(toss(&c), vec![-1]);
    let mut c = cursor_with(&[7, 3]);
    modu::modu_m(&mut c, &mut e, &s);
    assert_eq!(toss(&c), vec![1]);
    let mut c = cursor_with(&[7, 0]);
    modu::modu_u(&mut c, &mut e, &s);
    assert_eq!(toss(&c), vec![0]);
    let mut c = cursor_with(&[7, 0]);
    modu::modu_r(&mut c, &mut e, &s);
    assert_eq!(toss(&c), vec![0]);
}

#[test]
fn refc_round_trip() {
    let mut e = StateTempName::default();
    let s = settings();
    let mut c = cursor_with(&[9, 3, 4]);
    refc::refc_r(&mut c, &mut e, &s);
    assert_eq!(toss(&c), vec![9, 0]);
    assert_eq!(e.refc_vectors, vec![(3, 4)]);
    let mut c2 = cursor_with(&[5, 6]);
    refc::refc_r(&mut c2, &mut e, &s);
    assert_eq!(toss(&c2), vec![1]);
    refc::refc_d(&mut c, &mut e, &s);
    assert_eq!(toss(&c), vec![9, 3, 4]);
    refc::refc_d(&mut c2, &mut e, &s);
    assert_eq!(toss(&c2), vec![5, 6]);
}

#[test]
fn refc_unknown_reference_reflects() {
    let mut e = StateTempName::default();
    let s = settings();
    let mut c = cursor_with(&[3]);
    refc::refc_d(&mut c, &mut e, &s);
    assert_eq!(c.direction, Direction::west());
    assert!(toss(&c).is_empty());
    let mut c = cursor_with(&[-1]);
    refc::refc_d(&mut c, &mut e, &s);
    assert_eq!(c.direction, Direction::west());
}

#[test]
fn fing_moves_meanings() {
    let mut e = StateTempName::default();
    let s = settings();
    let mut c = Cursor::default();
    c.fingerprints[0].push(FingerprintFunction::Op { fingerprint: FingerprintName::Roma, letter: b'a' });
    // Z: b = 'B' (1) then a = 'A' (0)... here a = 2 ('C'), b = 0: C takes what A stands for.
    c.push(0);
    c.push(2);
    fing::fing_z(&mut c, &mut e, &s);
    assert_eq!(c.fingerprints[2], c.fingerprints[0]);
    assert_eq!(c.fingerprints[2].len(), 1);
    // X swaps letters 2 ('C') and 3 ('D'): D gets C's meaning, C gets a reflection.
    c.push(b'D' as i64);
    c.push(b'C' as i64);
    fing::fing_x(&mut c, &mut e, &s);
    assert_eq!(c.fingerprints[2], vec![FingerprintFunction::Reflect]);
    assert_eq!(c.fingerprints[3], vec![FingerprintFunction::Op { fingerprint: FingerprintName::Roma, letter: b'a' }]);
    // Y drops D's meaning.
    c.push(3);
    fing::fing_y(&mut c, &mut e, &s);
    assert!(c.fingerprints[3].is_empty());
    assert_eq!(c.direction, Direction::east());
}

#[test]
fn fing_rejects_cells_that_name_no_letter() {
    let mut e = StateTempName::default();
    let s = settings();
    let mut c = cursor_with(&[1, 26]);
    fing::fing_y(&mut c, &mut e, &s);
    assert_eq!(c.direction, Direction::west());
    assert_eq!(toss(&c), vec![1]);
    let mut c = cursor_with(&[99, 0]);
    fing::fing_x(&mut c, &mut e, &s);
    assert_eq!(c.direction, Direction::west());
    assert!(toss(&c).is_empty());
}

#[test]
fn pop_semantic_reads_letters() {
    let mut c = cursor_with(&[b'Z' as i64, 25, 26, -1]);
    assert_eq!(fing::pop_semantic(&mut c), None);
    assert_eq!(fing::pop_semantic(&mut c), None);
    assert_eq!(fing::pop_semantic(&mut c), Some(25));
    assert_eq!(fing::pop_semantic(&mut c), Some(25));
}

#[test]
fn hrti_timers() {
    let mut e = StateTempName::default();
    e.start_clock();
    let s = settings();
    let mut c = Cursor::default();
    hrti::hrti_g(&mut c, &mut e, &s);
    assert_eq!(toss(&c), vec![1]);
    hrti::hrti_t(&mut c, &mut e, &s);
    assert_eq!(c.direction, Direction::west());
    c.direction = Direction::east();
    hrti::hrti_m(&mut c, &mut e, &s);
    assert!(e.hrti_marks.contains_key(&0));
    hrti::hrti_t(&mut c, &mut e, &s);
    assert_eq!(toss(&c).len(), 2);
    assert!(toss(&c)[1] >= 0);
    assert_eq!(c.direction, Direction::east());
    hrti::hrti_e(&mut c, &mut e, &s);
    assert!(e.hrti_marks.is_empty());
    hrti::hrti_s(&mut c, &mut e, &s);
    let micros = toss(&c)[2];
    assert!((0..1_000_000).contains(&micros));
}

#[test]
fn pixl_draws_on_a_surface() {
    let mut e = StateTempName::default();
    let s = settings();
    // Without a surface, drawing does nothing.
    let mut c = cursor_with(&[1, 2]);
    pixl::pixl_x(&mut c, &mut e, &s);
    assert_eq!(toss(&c), vec![1, 2]);
    // S: width 20, height 10.
    let mut c = cursor_with(&[20, 10]);
    pixl::pixl_s(&mut c, &mut e, &s);
    let g = e.graphics.as_ref().unwrap();
    assert_eq!(g.size, (20, 10));
    // F: blue, green, red.
    let mut c = cursor_with(&[3, 2, 1]);
    pixl::pixl_f(&mut c, &mut e, &s);
    assert_eq!(e.graphics.as_ref().unwrap().current_color, (1, 2, 3));
    let mut c = cursor_with(&[4, 5]);
    pixl::pixl_x(&mut c, &mut e, &s);
    pixl::pixl_c(&mut c, &mut e, &s);
    let mut c = cursor_with(&[0, 1, 2, 3]);
    pixl::pixl_l(&mut c, &mut e, &s);
    pixl::pixl_u(&mut c, &mut e, &s);
    assert_eq!(
        e.graphics.as_ref().unwrap().commands,
        vec![
            DrawCommand::Pixel { at: (4, 5), color: (1, 2, 3) },
            DrawCommand::Fill((1, 2, 3)),
            DrawCommand::Line { from: (2, 3), to: (0, 1), color: (1, 2, 3) },
        ]
    );
}

#[test]
fn pixl_rejects_bad_arguments() {
    let mut e = StateTempName::default();
    let s = settings();
    let mut c = cursor_with(&[0, 10]);
    pixl::pixl_s(&mut c, &mut e, &s);
    assert_eq!(c.direction, Direction::west());
    assert!(e.graphics.is_none());
    let mut c = cursor_with(&[5, 5]);
    pixl::pixl_s(&mut c, &mut e, &s);
    let mut c = cursor_with(&[256, 0, 0]);
    pixl::pixl_f(&mut c, &mut e, &s);
    assert_eq!(c.direction, Direction::west());
    assert_eq!(e.graphics.as_ref().unwrap().current_color, (0, 0, 0));
    let mut c = cursor_with(&[0, 0, 5, 0]);
    pixl::pixl_l(&mut c, &mut e, &s);
    assert_eq!(c.direction, Direction::west());
    assert!(e.graphics.as_ref().unwrap().commands.is_empty());
}

#[test]
fn pixl_polls_events() {
    let mut e = StateTempName::default();
    let s = settings();
    let mut c = cursor_with(&[8, 8]);
    pixl::pixl_s(&mut c, &mut e, &s);
    let g = e.graphics.as_mut().unwrap();
    g.event_queue.push_back(GraphicalEvent::MouseClick((3, 4)));
    g.event_queue.push_back(GraphicalEvent::Close);
    pixl::pixl_z(&mut c, &mut e, &s);
    assert_eq!(toss(&c), vec![3, 4, 4]);
    pixl::pixl_z(&mut c, &mut e, &s);
    assert_eq!(toss(&c), vec![3, 4, 4, 1]);
    pixl::pixl_z(&mut c, &mut e, &s);
    assert_eq!(toss(&c), vec![3, 4, 4, 1, 0]);
}

#[test]
fn fingerprint_numbers_concatenate() {
    let ro = fingerprint_to_i64(b"RO");
    let ma = fingerprint_to_i64(b"MA");
    assert_eq!(ro * 65536 + ma, fingerprint_to_i64(b"ROMA"));
    assert!(fingerprint_to_i64(b"ROMA") < 1 << 32);
}

#[test]
fn hrti_without_a_clock_reflects() {
    let mut e = StateTempName::default();
    let s = settings();
    let mut c = Cursor::default();
    hrti::hrti_s(&mut c, &mut e, &s);
    assert_eq!(c.direction, Direction::west());
    assert!(toss(&c).is_empty());
}
