//! A cup of dice: the group rolled together in one request. Holds an
//! ordered collection of dice, rerolls them all, composes the combined
//! five-line text block, and records the outcomes it currently shows.

use vstd::prelude::*;
use vstd::string::StringExecFns;
use crate::dice::Dice;
use crate::face::{Pips, face_of_value, spec_glyph};

verus! {

/// Row `i` (one of the five glyph rows) of the combined block for the
/// given faces: for each face in order, a two-space separator followed
/// by row `i` of that face's glyph. With no faces the row is empty.
pub open spec fn spec_row(faces: Seq<Pips>, i: int) -> Seq<char>
    decreases faces.len(),
{
    if faces.len() == 0 {
        Seq::empty()
    } else {
        spec_row(faces.drop_last(), i) + "  "@ + spec_glyph(faces.last())[i]
    }
}

/// The faces behind a recorded roll: each outcome value mapped back to
/// the face that shows it.
pub open spec fn faces_of_record(record: Seq<i32>) -> Seq<Pips> {
    record.map_values(|x: i32| face_of_value(x as int))
}

/// The group of dice rolled together in one request.
pub struct DiceCup {
    /// The dice, in the fixed order they were added.
    pub dice: Vec<Dice>,
}

impl DiceCup {
    /// The sequence of faces the dice currently show, in order.
    pub open spec fn spec_faces(self) -> Seq<Pips> {
        self.dice@.map(|_i: int, d: Dice| d.current_face)
    }

    /// The sequence of numeric outcomes the dice currently show, in order.
    pub open spec fn spec_outcomes(self) -> Seq<int> {
        self.dice@.map(|_i: int, d: Dice| d.current_face.spec_value())
    }

    /// An empty cup, to be filled before rolling.
    pub fn new() -> (c: DiceCup)
        ensures
            c.dice@.len() == 0,
    {
        DiceCup { dice: Vec::new() }
    }

    /// Add `number_of_dice` fresh dice, each showing the default face of
    /// one pip; dice already in the cup keep their faces and order.
    pub fn fill_cup(&mut self, number_of_dice: usize)
        requires
            old(self).dice@.len() + number_of_dice <= usize::MAX,
        ensures
            final(self).dice@.len() == old(self).dice@.len() + number_of_dice,
            forall|k: int|
                0 <= k < old(self).dice@.len() ==> final(self).dice@[k] == old(self).dice@[k],
            forall|k: int|
                old(self).dice@.len() <= k < final(self).dice@.len()
                    ==> (#[trigger] final(self).dice@[k]).current_face == Pips::One,
    {
        let mut added: usize = 0;
        while added < number_of_dice
            invariant
                added <= number_of_dice,
                old(self).dice@.len() + number_of_dice <= usize::MAX,
                self.dice@.len() == old(self).dice@.len() + added,
                forall|k: int|
                    0 <= k < old(self).dice@.len() ==> self.dice@[k] == old(self).dice@[k],
                forall|k: int|
                    old(self).dice@.len() <= k < self.dice@.len()
                        ==> (#[trigger] self.dice@[k]).current_face == Pips::One,
            decreases number_of_dice - added,
        {
            let d6 = Dice { current_face: Pips::One };
            self.dice.push(d6);
            added += 1;
        }
    }

    /// Reroll every die in the cup, in sequence order, each with its own
    /// independent random draw. The cup keeps its size, and afterwards
    /// every die shows an outcome in 1..=6.
    pub fn roll_cup(&mut self)
        ensures
            final(self).dice@.len() == old(self).dice@.len(),
            forall|k: int|
                0 <= k < final(self).spec_outcomes().len()
                    ==> 1 <= #[trigger] final(self).spec_outcomes()[k] <= 6,
    {
        let n = self.dice.len();
        let mut idx: usize = 0;
        while idx < n
            invariant
                idx <= n,
                self.dice@.len() == n,
            decreases n - idx,
        {
            self.dice[idx].roll_dice();
            idx += 1;
        }
        proof {
            lemma_outcomes_in_range(*self);
        }
    }

    /// Compose the render buffer: exactly five rows, row `i` being the
    /// horizontal concatenation of row `i` of every die's glyph, each
    /// preceded by a separator. With no dice, all five rows are blank.
    pub fn render(&self) -> (rows: Vec<String>)
        ensures
            rows@.len() == 5,
            forall|i: int| 0 <= i < 5 ==> (#[trigger] rows@[i])@ == spec_row(self.spec_faces(), i),
    {
        let mut rows: Vec<String> = Vec::new();
        let mut i: usize = 0;
        while i < 5
            invariant
                i <= 5,
                rows@.len() == i,
                forall|k: int| 0 <= k < i ==> (#[trigger] rows@[k])@ == spec_row(self.spec_faces(), k),
            decreases 5 - i,
        {
            let n = self.dice.len();
            let mut line = String::new();
            let mut j: usize = 0;
            while j < n
                invariant
                    j <= n,
                    i < 5,
                    n == self.dice@.len(),
                    line@ == spec_row(self.spec_faces().take(j as int), i as int),
                decreases n - j,
            {
                line.append("  ");
                let glyph = self.dice[j].current_face.as_array();
                line.append(glyph[i]);
                proof {
                    let faces = self.spec_faces();
                    assert(faces.take(j + 1).drop_last() =~= faces.take(j as int));
                    assert(faces.take(j + 1).last() == faces[j as int]);
                }
                j += 1;
            }
            proof {
                assert(self.spec_faces().take(self.dice@.len() as int) =~= self.spec_faces());
            }
            rows.push(line);
            i += 1;
        }
        rows
    }

    /// Append one record to the history: the outcomes the dice currently
    /// show, in order. Earlier records are untouched.
    pub fn save_current_faces(&self, vector: &mut Vec<Vec<i32>>)
        ensures
            final(vector)@.len() == old(vector)@.len() + 1,
            forall|k: int| 0 <= k < old(vector)@.len() ==> final(vector)@[k] == old(vector)@[k],
            final(vector)@[old(vector)@.len() as int]@.len() == self.spec_outcomes().len(),
            forall|k: int|
                0 <= k < self.spec_outcomes().len()
                    ==> #[trigger] final(vector)@[old(vector)@.len() as int]@[k]
                        == self.spec_outcomes()[k],
    {
        let mut faces: Vec<i32> = Vec::new();
        let n = self.dice.len();
        let mut j: usize = 0;
        while j < n
            invariant
                j <= n,
                n == self.dice@.len(),
                faces@.len() == j,
                forall|k: int| 0 <= k < j ==> #[trigger] faces@[k] == self.spec_outcomes()[k],
            decreases n - j,
        {
            faces.push(self.dice[j].current_face.value());
            j += 1;
        }
        vector.push(faces);
    }
}

/// With no dice at all, every one of the five rows of the render
/// buffer is blank.
pub proof fn lemma_render_empty(faces: Seq<Pips>, i: int)
    requires
        faces.len() == 0,
    ensures
        spec_row(faces, i) == Seq::<char>::empty(),
{
}

/// Every outcome a cup can show lies in 1..=6, whatever the dice and
/// however they were rolled: each of the six faces stands for a value in
/// that range.
pub proof fn lemma_outcomes_in_range(c: DiceCup)
    ensures
        forall|k: int|
            0 <= k < c.spec_outcomes().len() ==> 1 <= #[trigger] c.spec_outcomes()[k] <= 6,
{
}

} // verus!
