//! The quiz: what it asks and how it keeps the score.
//!
//! A question gives whole numbers: distances in metres, drops in
//! centimetres, angles in tenths of the unit of the quiz. The library draws
//! them and counts the answers; putting a question to a person and judging
//! the reply is left to the caller.

use crate::random::{get_random_element, RandomSource};
use crate::target::{coordinate_of_cell, OutOfRangeError, Target};
use vstd::prelude::*;

verus! {

/// What a quiz asks.
#[derive(Clone, Copy, Debug, PartialEq, Eq, Structural)]
pub enum Mode {
    /// An angle is given, its drop is asked.
    Angle,
    /// A drop is given, its angle is asked.
    Drop,
    /// Either of the two, picked anew for each question.
    Random,
    /// An impact is shown on a target, the two angles to it are asked.
    Target,
}

/// The unit of the angles of a quiz.
#[derive(Clone, Copy, Debug, PartialEq, Eq, Structural)]
pub enum Unit {
    /// Minutes of angle.
    Moa,
    /// Milliradians.
    Mrad,
}

/// How a quiz is set up.
#[derive(Clone, Copy, Debug, PartialEq, Eq, Structural)]
pub struct QuizzOptions {
    pub mode: Mode,
    pub unit: Unit,
}

/// The distances that a question can give, in metres.
pub open spec fn distances() -> Seq<u32> {
    seq![25u32, 50u32, 100u32, 200u32, 400u32, 800u32, 1000u32]
}

/// The angles that a question can give, in tenths of the unit.
pub open spec fn angles() -> Seq<u32> {
    seq![2u32, 5u32, 10u32, 20u32]
}

/// The drops that a question can give, in centimetres: from -4 to 4 where
/// they are signed, from 0 to 9 where they are not.
pub open spec fn drops(signed: bool) -> Seq<i32> {
    if signed {
        seq![-4i32, -3i32, -2i32, -1i32, 0i32, 1i32, 2i32, 3i32, 4i32]
    } else {
        seq![0i32, 1i32, 2i32, 3i32, 4i32, 5i32, 6i32, 7i32, 8i32, 9i32]
    }
}

/// A random distance in metres.
pub fn get_random_distance(source: &mut RandomSource) -> (distance: u32)
    ensures
        distances().contains(distance),
{
    let distances: [u32; 7] = [25, 50, 100, 200, 400, 800, 1000];
    assert(distances@ =~= self::distances());
    get_random_element(&distances, source)
}

/// A random angle in tenths of the unit.
pub fn get_random_angle(source: &mut RandomSource) -> (angle: u32)
    ensures
        angles().contains(angle),
{
    let angles: [u32; 4] = [2, 5, 10, 20];
    assert(angles@ =~= self::angles());
    get_random_element(&angles, source)
}

/// A random drop in centimetres.
pub fn get_random_drop(signed: bool, source: &mut RandomSource) -> (drop: i32)
    ensures
        drops(signed).contains(drop),
{
    if signed {
        let drops: [i32; 9] = [-4, -3, -2, -1, 0, 1, 2, 3, 4];
        assert(drops@ =~= self::drops(true));
        get_random_element(&drops, source)
    } else {
        let drops: [i32; 10] = [0, 1, 2, 3, 4, 5, 6, 7, 8, 9];
        assert(drops@ =~= self::drops(false));
        get_random_element(&drops, source)
    }
}

/// One question.
#[derive(Clone, Copy, Debug, PartialEq, Eq)]
pub enum Question {
    /// Which drop, in centimetres, does this angle make at this distance?
    Angle { angle: u32, distance: u32 },
    /// Which angle makes this drop at this distance?
    Drop { drop: i32, distance: u32 },
    /// The impact lies `x` centimetres to the right of the centre and `y`
    /// centimetres below it, as the target shows. Which two angles bring
    /// the point of aim onto it?
    Target { x: i32, y: i32, distance: u32, target: Target },
}

impl Question {
    /// The question is one that the quiz can draw: its numbers are among
    /// those listed above, and its target shows the impact of its offsets.
    pub open spec fn drawn(self) -> bool {
        match self {
            Question::Angle { angle, distance } => {
                angles().contains(angle) && distances().contains(distance)
            },
            Question::Drop { drop, distance } => {
                drops(false).contains(drop) && distances().contains(distance)
            },
            Question::Target { x, y, distance, target } => {
                &&& drops(true).contains(x)
                &&& drops(true).contains(y)
                &&& distances().contains(distance)
                &&& self.drawn_impact()
            },
        }
    }

    /// The target of a question about an impact shows the impact that the
    /// question speaks of: its coordinates are the offsets, each moved by
    /// the four cells that lie between the edge and the centre, as whole
    /// numbers, and so the offsets 0 and 0 mark the centre.
    pub open spec fn drawn_impact(self) -> bool {
        self matches Question::Target { x, y, distance, target } ==> {
            &&& target.coordinate_x() == coordinate_of_cell(x + 4)
            &&& target.coordinate_y() == coordinate_of_cell(y + 4)
            &&& target.impact_x() == x + 4
            &&& target.impact_y() == y + 4
        }
    }

    /// The question is of a kind that the mode asks.
    pub open spec fn suits(self, mode: Mode) -> bool {
        match mode {
            Mode::Angle => self is Angle,
            Mode::Drop => self is Drop,
            Mode::Random => self is Angle || self is Drop,
            Mode::Target => self is Target,
        }
    }

    /// The question about an impact with the given offsets from the centre,
    /// in centimetres, one cell of the target being one centimetre. Offsets
    /// beyond four centimetres leave the target.
    pub fn about_impact(distance: u32, x: i32, y: i32) -> (question: Result<
        Question,
        OutOfRangeError,
    >)
        ensures
            question is Ok <==> -4 <= x <= 4 && -4 <= y <= 4,
            question matches Ok(asked) ==> (asked matches Question::Target {
                x: asked_x,
                y: asked_y,
                distance: asked_distance,
                target,
            } && asked_x == x && asked_y == y && asked_distance == distance
                && asked.drawn_impact()),
            question matches Err(error) ==> (error == OutOfRangeError::X <==> !(-4 <= x <= 4)),
    {
        if x < -4 || x > 4 {
            Err(OutOfRangeError::X)
        } else if y < -4 || y > 4 {
            Err(OutOfRangeError::Y)
        } else {
            let target = Target::at((x + 4) as usize, (y + 4) as usize);
            Ok(Question::Target { x, y, distance, target })
        }
    }
}

/// A question that gives a random angle and a random distance.
pub fn angle_question(source: &mut RandomSource) -> (question: Question)
    ensures
        question is Angle,
        question.drawn(),
{
    let angle = get_random_angle(source);
    let distance = get_random_distance(source);
    Question::Angle { angle, distance }
}

/// A question that gives a random drop, not signed, and a random distance.
pub fn drop_question(source: &mut RandomSource) -> (question: Question)
    ensures
        question is Drop,
        question.drawn(),
{
    let drop = get_random_drop(false, source);
    let distance = get_random_distance(source);
    Question::Drop { drop, distance }
}

/// A question that shows a random impact at a random distance. Every impact
/// that it draws is on the target.
pub fn target_question(source: &mut RandomSource) -> (question: Question)
    ensures
        question is Target,
        question.drawn(),
{
    let distance = get_random_distance(source);
    let x = get_random_drop(true, source);
    let y = get_random_drop(true, source);
    let target = Target::at((x + 4) as usize, (y + 4) as usize);
    Question::Target { x, y, distance, target }
}

/// A question of a kind that the mode asks.
pub fn draw_question(mode: Mode, source: &mut RandomSource) -> (question: Question)
    ensures
        question.suits(mode),
        question.drawn(),
{
    match mode {
        Mode::Angle => angle_question(source),
        Mode::Drop => drop_question(source),
        Mode::Random => {
            let modes: [Mode; 2] = [Mode::Angle, Mode::Drop];
            match get_random_element(&modes, source) {
                Mode::Drop => drop_question(source),
                _ => angle_question(source),
            }
        },
        Mode::Target => target_question(source),
    }
}

/// How far a quiz has come: of `number_of_questions` questions, `asked` have
/// been answered, `score` of them correctly.
pub struct Progress {
    pub number_of_questions: nat,
    pub asked: nat,
    pub score: nat,
}

impl Progress {
    /// No more answers were counted than questions are to be asked, and no
    /// more correct ones than answers.
    pub open spec fn consistent(self) -> bool {
        self.score <= self.asked <= self.number_of_questions
    }

    /// Every question has been answered.
    pub open spec fn finished(self) -> bool {
        self.asked >= self.number_of_questions
    }

    /// The progress after one more answer. A finished quiz counts none.
    pub open spec fn after(self, correct: bool) -> Progress {
        if self.finished() {
            self
        } else {
            Progress {
                number_of_questions: self.number_of_questions,
                asked: self.asked + 1,
                score: if correct {
                    self.score + 1
                } else {
                    self.score
                },
            }
        }
    }

    /// The progress after a run of answers, the first of them counted first.
    pub open spec fn after_all(self, answers: Seq<bool>) -> Progress
        decreases answers.len(),
    {
        if answers.len() == 0 {
            self
        } else {
            self.after_all(answers.drop_last()).after(answers.last())
        }
    }
}

/// How many of the answers are correct.
pub open spec fn count_correct(answers: Seq<bool>) -> nat
    decreases answers.len(),
{
    if answers.len() == 0 {
        0
    } else {
        count_correct(answers.drop_last()) + if answers.last() {
            1nat
        } else {
            0nat
        }
    }
}

/// What the caller of a quiz does next.
#[derive(Clone, Copy, Debug, PartialEq, Eq)]
pub enum Action {
    /// Put the question under the heading `number` and hand back, with
    /// [`Quizz::record`], whether the answer was correct.
    Ask { number: u32, question: Question },
    /// The quiz is over: report the score.
    Report { score: u32, number_of_questions: u32 },
}

/// A quiz in progress.
#[derive(Clone, Copy, Debug, PartialEq, Eq)]
pub struct Quizz {
    options: QuizzOptions,
    number_of_questions: u32,
    asked: u32,
    score: u32,
}

impl Quizz {
    #[verifier::type_invariant]
    spec fn well_formed(self) -> bool {
        self.score <= self.asked <= self.number_of_questions
    }

    /// How far the quiz has come.
    pub closed spec fn view(&self) -> Progress {
        Progress {
            number_of_questions: self.number_of_questions as nat,
            asked: self.asked as nat,
            score: self.score as nat,
        }
    }

    /// How the quiz was set up.
    pub closed spec fn setup(&self) -> QuizzOptions {
        self.options
    }

    /// A quiz of `number_of_questions` questions, none of them asked yet.
    pub fn new(options: QuizzOptions, number_of_questions: u32) -> (quizz: Quizz)
        ensures
            quizz.setup() == options,
            quizz@ == (Progress {
                number_of_questions: number_of_questions as nat,
                asked: 0,
                score: 0,
            }),
    {
        Quizz { options, number_of_questions, asked: 0, score: 0 }
    }

    /// How the quiz was set up.
    pub fn options(&self) -> (options: QuizzOptions)
        ensures
            options == self.setup(),
    {
        self.options
    }

    /// The number of questions of the whole quiz.
    pub fn number_of_questions(&self) -> (number: u32)
        ensures
            number == self@.number_of_questions,
    {
        self.number_of_questions
    }

    /// The number of questions answered so far.
    pub fn asked(&self) -> (asked: u32)
        ensures
            asked == self@.asked,
            self@.consistent(),
    {
        proof {
            use_type_invariant(self);
        }
        self.asked
    }

    /// The number of questions answered correctly so far.
    pub fn score(&self) -> (score: u32)
        ensures
            score == self@.score,
            self@.consistent(),
    {
        proof {
            use_type_invariant(self);
        }
        self.score
    }

    /// Whether every question has been answered.
    pub fn is_finished(&self) -> (finished: bool)
        ensures
            finished == self@.finished(),
    {
        self.asked >= self.number_of_questions
    }

    /// What to do next: report the score once every question has been
    /// answered, and until then ask a question of a kind that the mode of
    /// the quiz asks, under a heading that is one more than the score.
    pub fn next_action(&self, source: &mut RandomSource) -> (action: Action)
        ensures
            self@.finished() ==> action == (Action::Report {
                score: self@.score as u32,
                number_of_questions: self@.number_of_questions as u32,
            }),
            !self@.finished() ==> (action matches Action::Ask { number, question } && number
                == self@.score + 1 && question.suits(self.setup().mode) && question.drawn()),
    {
        proof {
            use_type_invariant(self);
        }
        if self.asked >= self.number_of_questions {
            Action::Report { score: self.score, number_of_questions: self.number_of_questions }
        } else {
            let question = draw_question(self.options.mode, source);
            Action::Ask { number: self.score + 1, question }
        }
    }

    /// Counts the answer to the question that was asked last. After the
    /// last question nothing is counted any more.
    pub fn record(&mut self, correct: bool)
        ensures
            final(self)@ == old(self)@.after(correct),
            final(self).setup() == old(self).setup(),
    {
        proof {
            use_type_invariant(&*self);
        }
        if self.asked < self.number_of_questions {
            self.asked = self.asked + 1;
            if correct {
                self.score = self.score + 1;
            }
        }
    }
}

/// Counting answers keeps the progress consistent: whatever the answers, the
/// score is at most the number of answers counted, and that is at most the
/// number of questions.
pub proof fn lemma_progress_stays_consistent(progress: Progress, answers: Seq<bool>)
    requires
        progress.consistent(),
    ensures
        progress.after_all(answers).consistent(),
        progress.after_all(answers).number_of_questions == progress.number_of_questions,
    decreases answers.len(),
{
    if answers.len() > 0 {
        lemma_progress_stays_consistent(progress, answers.drop_last());
    }
}

/// A quiz that is given no more answers than it has questions left counts
/// each of them, and adds to the score the number of correct ones.
pub proof fn lemma_score_counts_correct_answers(progress: Progress, answers: Seq<bool>)
    requires
        progress.consistent(),
        progress.asked + answers.len() <= progress.number_of_questions,
    ensures
        progress.after_all(answers).asked == progress.asked + answers.len(),
        progress.after_all(answers).score == progress.score + count_correct(answers),
    decreases answers.len(),
{
    if answers.len() > 0 {
        lemma_score_counts_correct_answers(progress, answers.drop_last());
        lemma_progress_stays_consistent(progress, answers.drop_last());
    }
}

} // verus!
