//! The decision half of the scoring engine.
//!
//! The engine decodes the input as an image, runs it through the
//! model graph, and selects the winning class from the score vector.
//! The decoder's verdict is judged here, as is the output vector; the
//! graph itself is an opaque scoring function. Scores arrive as whole
//! numbers of hundredths of a percent, and class indices are 1-based,
//! so that the winning index names a line of the label table.

use crate::cache::ClassifyError;
use vstd::prelude::*;

verus! {

/// Relies on image::load_from_memory only to attempt the decode; the
/// decoder's verdict also depends on its process-global format hooks,
/// so nothing is stated of the result, which `interpret_decode`
/// judges.
#[verifier::external_body]
fn decode_image(bytes: &Vec<u8>) -> bool {
    image::load_from_memory(bytes.as_slice()).is_ok()
}

/// What a decode outcome means for the request: a successful decode
/// lets the input through, and a failed one rejects it as not being
/// a decodable image — the only possible failure here.
pub fn interpret_decode(decoded: bool) -> (r: Result<(), ClassifyError>)
    ensures
        decoded ==> r == Ok::<(), ClassifyError>(()),
        !decoded ==> r == Err::<(), ClassifyError>(ClassifyError::DecodeError),
{
    if decoded {
        Ok(())
    } else {
        Err(ClassifyError::DecodeError)
    }
}

/// Hands the input to the image decoder and interprets the outcome:
/// whatever the decoder did, the input either goes through or the
/// request fails with exactly a decode error.
pub fn check_decode(bytes: &Vec<u8>) -> (r: Result<(), ClassifyError>)
    ensures
        r is Err ==> r->Err_0 == ClassifyError::DecodeError,
{
    interpret_decode(decode_image(bytes))
}

/// The position of the first maximum of a non-empty score vector.
pub open spec fn spec_argmax(s: Seq<u32>) -> int
    recommends
        s.len() > 0,
    decreases s.len(),
{
    if s.len() <= 1 {
        0
    } else {
        let r = spec_argmax(s.drop_last());
        if s.last() > s[r] {
            s.len() - 1
        } else {
            r
        }
    }
}

/// The first maximum is a maximum, and everything before it is
/// strictly below it.
pub proof fn lemma_argmax_first_max(s: Seq<u32>)
    requires
        s.len() > 0,
    ensures
        0 <= spec_argmax(s) < s.len(),
        forall|j: int| 0 <= j < s.len() ==> #[trigger] s[j] <= s[spec_argmax(s)],
        forall|j: int| 0 <= j < spec_argmax(s) ==> #[trigger] s[j] < s[spec_argmax(s)],
    decreases s.len(),
{
    if s.len() > 1 {
        lemma_argmax_first_max(s.drop_last());
        assert forall|j: int| 0 <= j < s.len() implies #[trigger] s[j] <= s[spec_argmax(s)] by {
            if j < s.len() - 1 {
                assert(s[j] == s.drop_last()[j]);
            }
        }
        assert forall|j: int| 0 <= j < spec_argmax(s) implies #[trigger] s[j] < s[spec_argmax(s)] by {
            if j < s.len() - 1 {
                assert(s[j] == s.drop_last()[j]);
            }
        }
    }
}

/// Selects the winning class from the model's score vector: the class
/// with the maximum score, a tie resolved to the lowest class index.
/// Class indices are 1-based. An empty score vector is a fault of the
/// model graph.
pub fn select_class(scores: &Vec<u32>) -> (r: Result<(usize, u32), ClassifyError>)
    ensures
        scores@.len() == 0 ==> r == Err::<(usize, u32), ClassifyError>(ClassifyError::ModelError),
        scores@.len() > 0 ==> (r matches Ok((i, c)) && {
            &&& i - 1 == spec_argmax(scores@)
            &&& 1 <= i <= scores@.len()
            &&& c == scores@[i - 1]
            &&& forall|j: int| 0 <= j < scores@.len() ==> #[trigger] scores@[j] <= c
            &&& forall|j: int| 0 <= j < i - 1 ==> #[trigger] scores@[j] < c
        }),
{
    if scores.len() == 0 {
        return Err(ClassifyError::ModelError);
    }
    let mut best_i: usize = 0;
    let mut best: u32 = scores[0];
    let mut j: usize = 1;
    while j < scores.len()
        invariant
            1 <= j <= scores@.len(),
            best_i < j,
            best_i == spec_argmax(scores@.take(j as int)),
            best == scores@[best_i as int],
        decreases scores@.len() - j,
    {
        proof {
            assert(scores@.take(j + 1 as int).drop_last() =~= scores@.take(j as int));
            assert(scores@.take(j + 1 as int).last() == scores@[j as int]);
        }
        if scores[j] > best {
            best_i = j;
            best = scores[j];
        }
        j = j + 1;
    }
    proof {
        assert(scores@.take(scores@.len() as int) =~= scores@);
        lemma_argmax_first_max(scores@);
    }
    Ok((best_i + 1, best))
}

} // verus!
