use mlp::sequence::{
    create_sequence, parse_sequence, parse_sequence_accepts, sequence_from_draws, SeqIn,
};

#[test]
fn seq_in_get_covers_the_table() {
    let table: [([usize; 2], SeqIn); 12] = [
        ([2, 2], SeqIn::C0),
        ([2, 3], SeqIn::C1),
        ([3, 2], SeqIn::C2),
        ([3, 3], SeqIn::C3),
        ([2, 8], SeqIn::C4),
        ([2, 9], SeqIn::C5),
        ([3, 8], SeqIn::C6),
        ([3, 9], SeqIn::C7),
        ([8, 2], SeqIn::C8),
        ([8, 3], SeqIn::C9),
        ([9, 2], SeqIn::C10),
        ([9, 3], SeqIn::C11),
    ];
    for (k, (window, category)) in table.iter().enumerate() {
        let got = SeqIn::get(window);
        assert_eq!(got, *category);
        assert_eq!(got.index(), k);
    }
}

#[test]
fn created_sequences_follow_the_phases() {
    for _ in 0..50 {
        let s = create_sequence(17, 3);
        // every step of a 3-cycle emits
        assert_eq!(s.len(), 17);
        // the start phase is one of 0, 1, 2; find one that explains s
        let fits = (0..3).any(|start| {
            s.iter().enumerate().all(|(k, &x)| {
                let phase = if k == 0 { start } else { (start + k) % 3 };
                if phase <= 1 { x == 2 || x == 3 } else { x == 8 || x == 9 }
            })
        });
        assert!(fits);
    }
}

#[test]
fn longer_cycles_skip_late_phases() {
    for _ in 0..20 {
        // with a cycle of 5, phases 3 and 4 emit nothing: 6 steps emit 3 or 4
        let s = create_sequence(6, 5);
        assert!(s.len() == 3 || s.len() == 4);
        assert!(s.iter().all(|x| [2, 3, 8, 9].contains(x)));
        // a cycle of 1 keeps the phase at 0 after the first step
        let t = create_sequence(4, 1);
        assert_eq!(t.len(), 4);
        assert!(t[1..].iter().all(|&x| x == 2 || x == 3));
    }
    assert!(create_sequence(0, 3).is_empty());
    // no steps: an empty cycle is never divided by
    assert!(create_sequence(0, 0).is_empty());
}

#[test]
fn parse_sequence_windows_and_labels() {
    let seq: Vec<usize> = vec![2, 3, 8, 2, 2, 9, 3, 3, 8];
    let samples = parse_sequence(&seq, 2);
    // 9 symbols, window 2: positions 0..=3 start a sample
    assert_eq!(samples.len(), 4);
    assert_eq!(samples[0], (SeqIn::C1, 2));
    assert_eq!(samples[1], (SeqIn::C6, 2));
    assert_eq!(samples[2], (SeqIn::C8, 9));
    assert_eq!(samples[3], (SeqIn::C0, 3));
}

#[test]
fn parse_sequence_short_inputs_give_no_samples() {
    assert!(parse_sequence(&[2, 3, 8], 2).is_empty());
    assert!(parse_sequence(&[2, 3, 8, 2, 3], 2).is_empty());
    assert_eq!(parse_sequence(&[2, 3, 8, 2, 3, 9], 2), vec![(SeqIn::C1, 2)]);
}

#[test]
fn lookup_refuses_windows_outside_the_table() {
    assert_eq!(SeqIn::lookup(&[2, 3]), Some(SeqIn::C1));
    assert_eq!(SeqIn::lookup(&[8, 8]), None);
    assert_eq!(SeqIn::lookup(&[2, 3, 8]), None);
    assert_eq!(SeqIn::lookup(&[]), None);
}

#[test]
fn parse_sequence_acceptance() {
    assert!(parse_sequence_accepts(&[2, 3, 8, 2, 2, 9, 3, 3, 8], 2));
    // the window [8, 8] at position 1 has no category
    assert!(!parse_sequence_accepts(&[2, 8, 8, 2, 2, 9, 3], 2));
    // windows of three symbols have no category
    assert!(!parse_sequence_accepts(&[2, 3, 8, 2, 2, 9, 3, 3, 8], 3));
    // too short to start any sample: accepted, nothing to look up
    assert!(parse_sequence_accepts(&[9, 9, 9], 2));
    // shorter than window plus one: refused
    assert!(!parse_sequence_accepts(&[2, 3], 2));
}

#[test]
fn draws_fix_the_sequence() {
    // cycle 3 from phase 1: phases 1, 2, 0, 1, 2
    assert_eq!(sequence_from_draws(1, &vec![0, 1, 1, 0, 0], 5, 3), vec![2, 9, 3, 2, 8]);
    // cycle 5 from phase 2: phases 2, 3, 4, 0, 1, 2; phases 3 and 4 emit nothing
    assert_eq!(sequence_from_draws(2, &vec![1, 1, 1, 0, 1, 0], 6, 5), vec![9, 2, 3, 8]);
    // cycle 1 from phase 2: phases 2, 0, 0
    assert_eq!(sequence_from_draws(2, &vec![0, 1, 0], 3, 1), vec![8, 3, 2]);
    assert_eq!(sequence_from_draws(0, &vec![], 0, 0), Vec::<usize>::new());
}
