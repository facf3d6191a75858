//! The session: interpreting one line of prompt input, performing one
//! roll and appending its outcomes to the history, and producing the
//! final report without ever failing.

use vstd::prelude::*;
use crate::cup::{DiceCup, faces_of_record, spec_row};
use crate::face::lemma_face_of_value_inverse;
use crate::stats::{flat, Report, compute_report};

verus! {

/// Whether a byte is an ASCII decimal digit.
pub open spec fn is_digit(b: u8) -> bool {
    48 <= b <= 57
}

/// Whether every byte of the input is an ASCII decimal digit.
pub open spec fn all_digits(s: Seq<u8>) -> bool {
    forall|i: int| 0 <= i < s.len() ==> is_digit(#[trigger] s[i])
}

/// The number the digit string denotes, read most significant first.
pub open spec fn digits_value(s: Seq<u8>) -> int
    decreases s.len(),
{
    if s.len() == 0 {
        0
    } else {
        digits_value(s.drop_last()) * 10 + (s.last() - 48)
    }
}

/// A digit string denotes a non-negative number.
pub proof fn lemma_digits_value_nonneg(s: Seq<u8>)
    requires
        all_digits(s),
    ensures
        digits_value(s) >= 0,
    decreases s.len(),
{
    if s.len() > 0 {
        assert(all_digits(s.drop_last())) by {
            assert(forall|k: int|
                0 <= k < s.drop_last().len() ==> s.drop_last()[k] == s[k]);
        }
        lemma_digits_value_nonneg(s.drop_last());
    }
}

/// Reading more digits never makes the denoted number smaller: the
/// whole string denotes at least what any prefix of it denotes.
pub proof fn lemma_digits_value_prefix(s: Seq<u8>, i: int)
    requires
        all_digits(s),
        0 <= i <= s.len(),
    ensures
        digits_value(s) >= digits_value(s.take(i)),
    decreases s.len() - i,
{
    if i < s.len() {
        lemma_digits_value_prefix(s, i + 1);
        assert(s.take(i + 1).drop_last() =~= s.take(i));
        assert(all_digits(s.take(i))) by {
            assert(forall|k: int| 0 <= k < s.take(i).len() ==> s.take(i)[k] == s[k]);
        }
        lemma_digits_value_nonneg(s.take(i));
    } else {
        assert(s.take(i) =~= s);
    }
}

/// Interpret one line of prompt input, handed over as its bytes.
///
/// Returns the requested dice count when the input is non-empty,
/// consists entirely of decimal digits, and denotes a number a `usize`
/// can hold. Returns `None` otherwise — an empty line, any non-digit
/// byte, or a number too large to represent — which ends the session.
pub fn parse_dice_count(input: &[u8]) -> (r: Option<usize>)
    ensures
        match r {
            Some(v) => input@.len() > 0 && all_digits(input@) && v == digits_value(input@),
            None => input@.len() == 0 || !all_digits(input@) || digits_value(input@)
                > usize::MAX,
        },
{
    let n = input.len();
    if n == 0 {
        return None;
    }
    let mut acc: usize = 0;
    let mut j: usize = 0;
    while j < n
        invariant
            j <= n,
            n == input@.len(),
            all_digits(input@.take(j as int)),
            acc == digits_value(input@.take(j as int)),
        decreases n - j,
    {
        let b = input[j];
        if b < 48 || b > 57 {
            proof {
                assert(!is_digit(input@[j as int]));
            }
            return None;
        }
        let d = (b - 48) as usize;
        proof {
            assert(input@.take(j + 1).drop_last() =~= input@.take(j as int));
            assert(input@.take(j + 1).last() == input@[j as int]);
        }
        acc = match acc.checked_mul(10) {
            Some(m) => match m.checked_add(d) {
                Some(v) => v,
                None => {
                    proof {
                        if all_digits(input@) {
                            lemma_digits_value_prefix(input@, j + 1);
                        }
                    }
                    return None;
                },
            },
            None => {
                proof {
                    if all_digits(input@) {
                        lemma_digits_value_nonneg(input@.take(j as int));
                        lemma_digits_value_prefix(input@, j + 1);
                    }
                }
                return None;
            },
        };
        j += 1;
    }
    proof {
        assert(input@.take(n as int) =~= input@);
    }
    Some(acc)
}

/// One session: the append-only history of the rolls completed so far.
pub struct Session {
    /// One record per completed roll, each the outcomes of that roll in
    /// die order.
    pub history: Vec<Vec<i32>>,
}

impl Session {
    /// A fresh session with no rolls recorded.
    pub fn new() -> (s: Session)
        ensures
            s.history@.len() == 0,
    {
        Session { history: Vec::new() }
    }

    /// Perform one roll of `count` dice: fill a fresh cup, roll every
    /// die, record the outcomes as the next history entry, and hand
    /// back the five-line render of the cup for display. Earlier
    /// records are untouched; the new record holds exactly `count`
    /// outcomes, each in 1..=6; and the frame is exactly the render of
    /// the faces that the new record holds.
    pub fn do_roll(&mut self, count: usize) -> (frame: Vec<String>)
        ensures
            final(self).history@.len() == old(self).history@.len() + 1,
            forall|k: int|
                0 <= k < old(self).history@.len()
                    ==> final(self).history@[k] == old(self).history@[k],
            final(self).history@[old(self).history@.len() as int]@.len() == count,
            forall|k: int|
                0 <= k < count
                    ==> 1 <= #[trigger] final(self).history@[old(self).history@.len() as int]@[k]
                        <= 6,
            frame@.len() == 5,
            forall|i: int|
                0 <= i < 5 ==> (#[trigger] frame@[i])@ == spec_row(
                    faces_of_record(final(self).history@[old(self).history@.len() as int]@),
                    i,
                ),
    {
        let mut cup = DiceCup::new();
        cup.fill_cup(count);
        cup.roll_cup();
        let frame = cup.render();
        cup.save_current_faces(&mut self.history);
        proof {
            let record = self.history@[old(self).history@.len() as int]@;
            assert forall|k: int| 0 <= k < count implies faces_of_record(record)[k]
                == cup.spec_faces()[k] by {
                assert(record[k] == cup.spec_outcomes()[k]);
                assert(cup.spec_outcomes()[k] == cup.spec_faces()[k].spec_value());
                lemma_face_of_value_inverse(cup.spec_faces()[k]);
            }
            assert(faces_of_record(record) =~= cup.spec_faces());
        }
        frame
    }
}

/// Compute the final report of a history, first checking that the total
/// dice count fits the machine. Returns `None` only when the flattened
/// history holds more outcomes than a `usize` can count; otherwise the
/// report of `compute_report`.
pub fn try_report(history: &Vec<Vec<i32>>) -> (r: Option<Report>)
    ensures
        match r {
            Some(rep) => {
                &&& flat(history.deep_view()).len() <= usize::MAX
                &&& rep.per_roll@.len() == history@.len()
                &&& forall|i: int|
                    0 <= i < history@.len() ==> {
                        &&& (#[trigger] rep.per_roll@[i]).count == history.deep_view()[i].len()
                        &&& rep.per_roll@[i].total == crate::stats::sum_of(
                            history.deep_view()[i],
                        )
                        &&& rep.per_roll@[i].highest == crate::stats::max_of(
                            history.deep_view()[i],
                        )
                        &&& rep.per_roll@[i].lowest == crate::stats::min_of(
                            history.deep_view()[i],
                        )
                    }
                &&& rep.total_dice == flat(history.deep_view()).len()
                &&& rep.total_sum == crate::stats::sum_of(flat(history.deep_view()))
                &&& rep.highest == crate::stats::max_of(flat(history.deep_view()))
                &&& rep.lowest == crate::stats::min_of(flat(history.deep_view()))
            },
            None => flat(history.deep_view()).len() > usize::MAX,
        },
{
    let ghost dv = history.deep_view();
    let n = history.len();
    let mut total: usize = 0;
    let mut i: usize = 0;
    while i < n
        invariant
            i <= n,
            n == history@.len(),
            dv == history.deep_view(),
            dv.len() == n,
            forall|k: int| 0 <= k < n ==> #[trigger] dv[k] == history@[k]@,
            total == flat(dv.take(i as int)).len(),
        decreases n - i,
    {
        proof {
            assert(dv.take(i + 1).drop_last() =~= dv.take(i as int));
            assert(dv.take(i + 1).last() == dv[i as int]);
        }
        let len_i = history[i].len();
        total = match total.checked_add(len_i) {
            Some(v) => v,
            None => {
                proof {
                    crate::stats::lemma_flat_take_len(dv, i + 1);
                }
                return None;
            },
        };
        i += 1;
    }
    proof {
        assert(dv.take(n as int) =~= dv);
    }
    Some(compute_report(history))
}

} // verus!
