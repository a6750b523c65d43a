use moa_quizz::quizz::{
    angle_question, draw_question, drop_question, get_random_angle, get_random_distance,
    get_random_drop, target_question, Action, Mode, Question, Quizz, QuizzOptions, Unit,
};
use moa_quizz::random::{get_random_element, RandomSource};
use moa_quizz::target::{OutOfRangeError, Target};

const DISTANCES: [u32; 7] = [25, 50, 100, 200, 400, 800, 1000];
const ANGLES: [u32; 4] = [2, 5, 10, 20];

fn options(mode: Mode) -> QuizzOptions {
    QuizzOptions { mode, unit: Unit::Moa }
}

/// A seeded source, and one that the operating system seeds where it can.
fn sources(seed: u64) -> Vec<RandomSource> {
    let mut sources = vec![RandomSource::from_seed(seed)];
    sources.extend(RandomSource::from_entropy());
    sources
}

fn is_drawn(question: &Question) -> bool {
    match *question {
        Question::Angle { angle, distance } => {
            ANGLES.contains(&angle) && DISTANCES.contains(&distance)
        }
        Question::Drop { drop, distance } => {
            (0..=9).contains(&drop) && DISTANCES.contains(&distance)
        }
        Question::Target { x, y, distance, target } => {
            (-4..=4).contains(&x)
                && (-4..=4).contains(&y)
                && DISTANCES.contains(&distance)
                && target.column() as i32 == x + 4
                && target.row() as i32 == y + 4
                && f64::from_bits(target.x().to_bits()) == f64::from(x + 4)
                && f64::from_bits(target.y().to_bits()) == f64::from(y + 4)
        }
    }
}

#[test]
fn random_element_is_one_of_the_elements() {
    let elements = [3_u8, 1, 4, 1, 5, 9, 2, 6];
    for mut source in sources(1) {
        for _ in 0..200 {
            assert!(elements.contains(&get_random_element(&elements, &mut source)));
        }
        assert_eq!(get_random_element(&[42_i64], &mut source), 42);
        assert_eq!(get_random_element(&['x'], &mut source), 'x');
    }
}

#[test]
fn random_element_is_not_always_the_same() {
    let elements: Vec<u32> = (0..64).collect();
    for mut source in sources(2) {
        let first = get_random_element(&elements, &mut source);
        let mut other = false;
        for _ in 0..200 {
            other = other || get_random_element(&elements, &mut source) != first;
        }
        assert!(other);
    }
}

#[test]
fn every_element_is_picked_in_the_long_run() {
    let elements = [10_u32, 20, 30, 40, 50];
    let mut source = RandomSource::from_seed(3);
    let mut picked = [0_u32; 5];
    for _ in 0..1000 {
        let element = get_random_element(&elements, &mut source);
        picked[(element / 10 - 1) as usize] += 1;
    }
    for count in picked {
        assert!(count > 100);
    }
}

#[test]
fn same_seed_gives_the_same_picks() {
    let elements: Vec<u32> = (0..1000).collect();
    let mut first = RandomSource::from_seed(2024);
    let mut second = RandomSource::from_seed(2024);
    let mut other = RandomSource::from_seed(2025);
    let mut differs = false;
    for _ in 0..100 {
        let pick = get_random_element(&elements, &mut first);
        assert_eq!(pick, get_random_element(&elements, &mut second));
        differs = differs || pick != get_random_element(&elements, &mut other);
    }
    assert!(differs);
}

#[test]
fn same_seed_gives_the_same_questions() {
    for mode in [Mode::Angle, Mode::Drop, Mode::Random, Mode::Target] {
        let mut first = RandomSource::from_seed(99);
        let mut second = RandomSource::from_seed(99);
        for _ in 0..50 {
            assert_eq!(draw_question(mode, &mut first), draw_question(mode, &mut second));
        }
    }
}

#[test]
fn random_numbers_come_from_their_lists() {
    let mut source = RandomSource::from_seed(4);
    let mut distances = std::collections::BTreeSet::new();
    let mut angles = std::collections::BTreeSet::new();
    let mut signed = std::collections::BTreeSet::new();
    let mut unsigned = std::collections::BTreeSet::new();
    for _ in 0..2000 {
        distances.insert(get_random_distance(&mut source));
        angles.insert(get_random_angle(&mut source));
        signed.insert(get_random_drop(true, &mut source));
        unsigned.insert(get_random_drop(false, &mut source));
    }
    assert_eq!(distances.into_iter().collect::<Vec<u32>>(), DISTANCES.to_vec());
    assert_eq!(angles.into_iter().collect::<Vec<u32>>(), ANGLES.to_vec());
    assert_eq!(signed.into_iter().collect::<Vec<i32>>(), (-4..=4).collect::<Vec<i32>>());
    assert_eq!(unsigned.into_iter().collect::<Vec<i32>>(), (0..=9).collect::<Vec<i32>>());
}

#[test]
fn questions_are_of_their_kind() {
    let mut source = RandomSource::from_seed(5);
    for _ in 0..100 {
        let question = angle_question(&mut source);
        assert!(matches!(question, Question::Angle { .. }));
        assert!(is_drawn(&question));
        let question = drop_question(&mut source);
        assert!(matches!(question, Question::Drop { .. }));
        assert!(is_drawn(&question));
        let question = target_question(&mut source);
        assert!(matches!(question, Question::Target { .. }));
        assert!(is_drawn(&question));
    }
}

#[test]
fn mode_decides_the_kind_of_question() {
    let mut source = RandomSource::from_seed(6);
    let mut angles = 0;
    let mut drops = 0;
    for _ in 0..200 {
        assert!(matches!(draw_question(Mode::Angle, &mut source), Question::Angle { .. }));
        assert!(matches!(draw_question(Mode::Drop, &mut source), Question::Drop { .. }));
        assert!(matches!(draw_question(Mode::Target, &mut source), Question::Target { .. }));
        match draw_question(Mode::Random, &mut source) {
            Question::Angle { .. } => angles += 1,
            Question::Drop { .. } => drops += 1,
            Question::Target { .. } => panic!("the random mode shows no target"),
        }
    }
    assert_eq!(angles + drops, 200);
    assert!(angles > 0);
    assert!(drops > 0);
}

#[test]
fn impact_without_offsets_is_on_the_centre() {
    let question = Question::about_impact(100, 0, 0).unwrap();
    let target = Target::from_cell(4, 4).unwrap();
    let expected = Question::Target { x: 0, y: 0, distance: 100, target };
    assert_eq!(question, expected);
}

#[test]
fn impact_question_shows_the_offsets() {
    match Question::about_impact(400, -4, 3) {
        Ok(Question::Target { x, y, distance, target }) => {
            assert_eq!((x, y, distance), (-4, 3, 400));
            assert_eq!((target.column(), target.row()), (0, 7));
            let expected = "+++++++++\n\
                            +++++++++\n\
                            +++++++++\n\
                            +++++++++\n\
                            ++++o++++\n\
                            +++++++++\n\
                            +++++++++\n\
                            x++++++++\n\
                            +++++++++\n";
            assert_eq!(target.to_string(), expected);
        }
        other => panic!("unexpected {other:?}"),
    }
    for x in -4..=4 {
        for y in -4..=4 {
            let question = Question::about_impact(25, x, y).unwrap();
            assert!(is_drawn(&question));
        }
    }
}

#[test]
fn impact_beyond_four_centimetres_is_out_of_range() {
    assert_eq!(Question::about_impact(100, 5, 0), Err(OutOfRangeError::X));
    assert_eq!(Question::about_impact(100, -5, 0), Err(OutOfRangeError::X));
    assert_eq!(Question::about_impact(100, 0, 5), Err(OutOfRangeError::Y));
    assert_eq!(Question::about_impact(100, 0, -5), Err(OutOfRangeError::Y));
    assert_eq!(Question::about_impact(100, 9, 9), Err(OutOfRangeError::X));
    assert_eq!(Question::about_impact(100, i32::MAX, 0), Err(OutOfRangeError::X));
    assert_eq!(Question::about_impact(100, 0, i32::MIN), Err(OutOfRangeError::Y));
}

#[test]
fn new_quiz_has_asked_nothing() {
    let quizz = Quizz::new(QuizzOptions { mode: Mode::Drop, unit: Unit::Mrad }, 10);
    assert_eq!(quizz.number_of_questions(), 10);
    assert_eq!(quizz.asked(), 0);
    assert_eq!(quizz.score(), 0);
    assert!(!quizz.is_finished());
    assert_eq!(quizz.options(), QuizzOptions { mode: Mode::Drop, unit: Unit::Mrad });
}

#[test]
fn quiz_without_questions_reports_at_once() {
    let mut source = RandomSource::from_seed(7);
    let mut quizz = Quizz::new(options(Mode::Angle), 0);
    assert!(quizz.is_finished());
    assert_eq!(quizz.next_action(&mut source), Action::Report { score: 0, number_of_questions: 0 });
    quizz.record(true);
    assert_eq!(quizz.asked(), 0);
    assert_eq!(quizz.score(), 0);
}

#[test]
fn quiz_counts_the_correct_answers() {
    let answers = [true, false, true, true, false];
    let mut source = RandomSource::from_seed(8);
    let mut quizz = Quizz::new(options(Mode::Random), 5);
    let mut score = 0;
    for (asked, correct) in answers.iter().enumerate() {
        match quizz.next_action(&mut source) {
            Action::Ask { number, question } => {
                assert_eq!(number, score + 1);
                assert!(matches!(question, Question::Angle { .. } | Question::Drop { .. }));
                assert!(is_drawn(&question));
            }
            other => panic!("unexpected {other:?}"),
        }
        quizz.record(*correct);
        if *correct {
            score += 1;
        }
        assert_eq!(quizz.asked() as usize, asked + 1);
        assert_eq!(quizz.score(), score);
    }
    assert!(quizz.is_finished());
    assert_eq!(quizz.next_action(&mut source), Action::Report { score: 3, number_of_questions: 5 });
}

#[test]
fn finished_quiz_counts_no_more_answers() {
    let mut source = RandomSource::from_seed(9);
    let mut quizz = Quizz::new(options(Mode::Target), 2);
    quizz.record(true);
    quizz.record(true);
    assert!(quizz.is_finished());
    let finished = quizz;
    quizz.record(true);
    quizz.record(false);
    assert_eq!(quizz, finished);
    assert_eq!(quizz.next_action(&mut source), Action::Report { score: 2, number_of_questions: 2 });
}

#[test]
fn quiz_asks_what_its_mode_says() {
    let mut source = RandomSource::from_seed(10);
    let setups = [(Mode::Angle, Unit::Moa), (Mode::Drop, Unit::Mrad), (Mode::Target, Unit::Moa)];
    for (mode, unit) in setups {
        let mut quizz = Quizz::new(QuizzOptions { mode, unit }, 3);
        while !quizz.is_finished() {
            match quizz.next_action(&mut source) {
                Action::Ask { number, question } => {
                    assert_eq!(number, 1);
                    assert!(is_drawn(&question));
                    match mode {
                        Mode::Angle => assert!(matches!(question, Question::Angle { .. })),
                        Mode::Drop => assert!(matches!(question, Question::Drop { .. })),
                        _ => assert!(matches!(question, Question::Target { .. })),
                    }
                }
                other => panic!("unexpected {other:?}"),
            }
            quizz.record(false);
        }
        let report = Action::Report { score: 0, number_of_questions: 3 };
        assert_eq!(quizz.next_action(&mut source), report);
        assert_eq!(quizz.options().unit, unit);
    }
}
