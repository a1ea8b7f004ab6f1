//! The two-phase driver around the permutation argument. Each stage of a
//! synthesis pass is a type of its own, and a stage can only be reached from
//! the one before it:
//!
//! inputs --`PermutationChip::phase0`--> `PermutationCircuitWitness`
//! --`finalize`--> `SealedWitness` --`sample`--> `ChallengedWitness`
//! --`PermutationChip::phase1`--> outcome.
//!
//! The fields of these types are private, so a challenge cannot be bound
//! before both sequences are committed and sealed, and the claim cannot be
//! evaluated before a challenge is bound.
use vstd::prelude::*;
use crate::argument::{
    cell_values, claim_holds, evaluate, is_cells, lemma_permutation_claim_holds,
    lemma_swap_keeps_claim, swap,
};
use crate::field::{fe_from_u64, fe_is_canonical, is_repr, le_value, modulus};

verus! {

/// What can go wrong in a synthesis pass.
#[derive(Clone, Copy, Debug, PartialEq, Eq, Structural)]
pub enum CircuitError {
    /// The sequences differ in length, or are longer than the chip allows.
    Configuration,
    /// A supplied value is not the canonical representation of a field
    /// element.
    Assignment,
    /// The products over the two sequences differ at the challenge.
    ConstraintUnsatisfied,
}

/// The two sequences whose multiset equality is claimed, and their common
/// length.
#[derive(Debug)]
pub struct PermutationCircuitInputs {
    arr1: Vec<u64>,
    arr2: Vec<u64>,
    len: usize,
}

/// The values of a sequence of machine integers, as mathematical integers.
pub open spec fn ints(s: Seq<u64>) -> Seq<int> {
    s.map_values(|x: u64| x as int)
}

impl View for PermutationCircuitInputs {
    type V = (Seq<int>, Seq<int>);

    closed spec fn view(&self) -> (Seq<int>, Seq<int>) {
        (ints(self.arr1@), ints(self.arr2@))
    }
}

impl PermutationCircuitInputs {
    #[verifier::type_invariant]
    closed spec fn inv(self) -> bool {
        self.arr1@.len() == self.len && self.arr2@.len() == self.len
    }

    /// Takes two sequences and the length declared for both. Sequences whose
    /// length is not the declared one are refused.
    pub fn new(arr1: Vec<u64>, arr2: Vec<u64>, len: usize) -> (r: Result<
        PermutationCircuitInputs,
        CircuitError,
    >)
        ensures
            r is Ok <==> (arr1@.len() == len && arr2@.len() == len),
            r matches Ok(inputs) ==> inputs@ == (ints(arr1@), ints(arr2@)),
            r matches Err(e) ==> e == CircuitError::Configuration,
    {
        if arr1.len() == len && arr2.len() == len {
            Ok(PermutationCircuitInputs { arr1, arr2, len })
        } else {
            Err(CircuitError::Configuration)
        }
    }

    /// Two empty sequences.
    pub fn empty() -> (r: PermutationCircuitInputs)
        ensures
            r@ == (Seq::<int>::empty(), Seq::<int>::empty()),
    {
        PermutationCircuitInputs { arr1: Vec::new(), arr2: Vec::new(), len: 0 }
    }

    /// The declared length of both sequences.
    pub fn len(&self) -> (r: usize)
        ensures
            r == self@.0.len(),
            r == self@.1.len(),
    {
        proof {
            use_type_invariant(self);
        }
        self.len
    }
}

impl Default for PermutationCircuitInputs {
    fn default() -> (r: PermutationCircuitInputs)
        ensures
            r@ == (Seq::<int>::empty(), Seq::<int>::empty()),
    {
        PermutationCircuitInputs::empty()
    }
}

/// Both sequences, committed in the first phase: every value is a field
/// element and the two have the same length.
#[derive(Debug)]
pub struct PermutationCircuitWitness {
    arr1: Vec<[u8; 32]>,
    arr2: Vec<[u8; 32]>,
}

impl View for PermutationCircuitWitness {
    type V = (Seq<int>, Seq<int>);

    closed spec fn view(&self) -> (Seq<int>, Seq<int>) {
        (cell_values(self.arr1@), cell_values(self.arr2@))
    }
}

impl PermutationCircuitWitness {
    #[verifier::type_invariant]
    closed spec fn inv(self) -> bool {
        &&& self.arr1@.len() == self.arr2@.len()
        &&& is_cells(self.arr1@)
        &&& is_cells(self.arr2@)
    }

    /// Closes the first phase: no value can be committed to this witness
    /// afterwards, and a challenge can now be drawn.
    pub fn finalize(self) -> (r: SealedWitness)
        ensures
            r@ == self@,
    {
        proof {
            use_type_invariant(&self);
        }
        SealedWitness { arr1: self.arr1, arr2: self.arr2 }
    }
}

/// The committed sequences after the phase boundary, waiting for their
/// challenge.
#[derive(Debug)]
pub struct SealedWitness {
    arr1: Vec<[u8; 32]>,
    arr2: Vec<[u8; 32]>,
}

impl View for SealedWitness {
    type V = (Seq<int>, Seq<int>);

    closed spec fn view(&self) -> (Seq<int>, Seq<int>) {
        (cell_values(self.arr1@), cell_values(self.arr2@))
    }
}

impl SealedWitness {
    #[verifier::type_invariant]
    closed spec fn inv(self) -> bool {
        &&& self.arr1@.len() == self.arr2@.len()
        &&& is_cells(self.arr1@)
        &&& is_cells(self.arr2@)
    }

    /// Binds the challenge drawn after the phase boundary, given as the
    /// little-endian bytes of a field element; other bytes are refused.
    pub fn sample(self, challenge: &[u8; 32]) -> (r: Result<ChallengedWitness, CircuitError>)
        ensures
            r is Ok <==> le_value(challenge@) < modulus(),
            r matches Ok(w) ==> w@ == (self@.0, self@.1, le_value(challenge@)),
            r matches Err(e) ==> e == CircuitError::Assignment,
    {
        proof {
            use_type_invariant(&self);
        }
        if fe_is_canonical(challenge) {
            Ok(ChallengedWitness { arr1: self.arr1, arr2: self.arr2, challenge: *challenge })
        } else {
            Err(CircuitError::Assignment)
        }
    }
}

/// The committed sequences together with the one challenge of the pass.
#[derive(Debug)]
pub struct ChallengedWitness {
    arr1: Vec<[u8; 32]>,
    arr2: Vec<[u8; 32]>,
    challenge: [u8; 32],
}

impl View for ChallengedWitness {
    type V = (Seq<int>, Seq<int>, int);

    closed spec fn view(&self) -> (Seq<int>, Seq<int>, int) {
        (cell_values(self.arr1@), cell_values(self.arr2@), le_value(self.challenge@))
    }
}

impl ChallengedWitness {
    #[verifier::type_invariant]
    closed spec fn inv(self) -> bool {
        &&& self.arr1@.len() == self.arr2@.len()
        &&& is_cells(self.arr1@)
        &&& is_cells(self.arr2@)
        &&& is_repr(self.challenge@)
    }
}

/// The error, if any, of the first phase on two sequences.
pub open spec fn phase0_error(v: (Seq<int>, Seq<int>), max_len: int) -> Option<CircuitError> {
    if v.0.len() != v.1.len() || v.0.len() > max_len {
        Some(CircuitError::Configuration)
    } else {
        None
    }
}

/// The outcome of a whole synthesis pass at the challenge whose bytes have
/// the value `c`.
pub open spec fn synthesis_outcome(
    v: (Seq<int>, Seq<int>),
    max_len: int,
    c: int,
) -> Result<(), CircuitError> {
    match phase0_error(v, max_len) {
        Some(e) => Err(e),
        None => if c >= modulus() {
            Err(CircuitError::Assignment)
        } else if claim_holds(v.0, v.1, c) {
            Ok(())
        } else {
            Err(CircuitError::ConstraintUnsatisfied)
        },
    }
}

/// The chip that commits sequences and evaluates the permutation claim;
/// `max_len` is the longest sequence it has room for.
#[derive(Clone, Copy, Debug)]
pub struct PermutationChip {
    pub max_len: usize,
}

impl PermutationChip {
    pub fn new(max_len: usize) -> (r: PermutationChip)
        ensures
            r.max_len == max_len,
    {
        PermutationChip { max_len }
    }

    /// Commits one sequence: one cell per value, in input order.
    pub fn commit(&self, values: &Vec<u64>) -> (r: Result<Vec<[u8; 32]>, CircuitError>)
        ensures
            r is Ok <==> values@.len() <= self.max_len,
            r matches Ok(cells) ==> is_cells(cells@) && cell_values(cells@) == ints(values@),
            r matches Err(e) ==> e == CircuitError::Configuration,
    {
        if values.len() > self.max_len {
            return Err(CircuitError::Configuration);
        }
        let mut cells: Vec<[u8; 32]> = Vec::new();
        let mut i: usize = 0;
        while i < values.len()
            invariant
                0 <= i <= values@.len(),
                cells@.len() == i,
                is_cells(cells@),
                cell_values(cells@) == ints(values@.take(i as int)),
            decreases values@.len() - i,
        {
            let cell = fe_from_u64(values[i]);
            let ghost prev = cells@;
            cells.push(cell);
            i = i + 1;
            assert(cells@ == prev.push(cell));
            assert forall|k: int| 0 <= k < i implies cell_values(cells@)[k] == ints(
                values@.take(i as int),
            )[k] by {
                if k < i - 1 {
                    assert(cells@[k] == prev[k]);
                    assert(cell_values(prev)[k] == ints(values@.take(i - 1))[k]);
                }
            };
            assert(cell_values(cells@) =~= ints(values@.take(i as int)));
        }
        assert(values@.take(i as int) =~= values@);
        Ok(cells)
    }

    /// The first phase: commits both sequences.
    pub fn phase0(&self, inputs: &PermutationCircuitInputs) -> (r: Result<
        PermutationCircuitWitness,
        CircuitError,
    >)
        ensures
            r matches Ok(w) ==> phase0_error(inputs@, self.max_len as int) is None && w@
                == inputs@,
            r matches Err(e) ==> phase0_error(inputs@, self.max_len as int) == Some(e),
    {
        proof {
            use_type_invariant(inputs);
        }
        let arr1 = match self.commit(&inputs.arr1) {
            Ok(cells) => cells,
            Err(e) => {
                return Err(e);
            },
        };
        let arr2 = match self.commit(&inputs.arr2) {
            Ok(cells) => cells,
            Err(e) => {
                return Err(e);
            },
        };
        Ok(PermutationCircuitWitness { arr1, arr2 })
    }

    /// The second phase: evaluates the permutation claim at the bound
    /// challenge.
    pub fn phase1(&self, witness: ChallengedWitness) -> (r: Result<(), CircuitError>)
        ensures
            r == (if claim_holds(witness@.0, witness@.1, witness@.2) {
                Ok(())
            } else {
                Err(CircuitError::ConstraintUnsatisfied)
            }),
    {
        proof {
            use_type_invariant(&witness);
        }
        if evaluate(&witness.arr1, &witness.arr2, &witness.challenge) {
            Ok(())
        } else {
            Err(CircuitError::ConstraintUnsatisfied)
        }
    }
}

/// A permutation circuit: the two sequences it claims to be rearrangements
/// of each other.
#[derive(Debug)]
pub struct PermutationCircuit {
    pub inputs: PermutationCircuitInputs,
}

impl Default for PermutationCircuit {
    fn default() -> (r: PermutationCircuit)
        ensures
            r.inputs@ == (Seq::<int>::empty(), Seq::<int>::empty()),
    {
        PermutationCircuit { inputs: PermutationCircuitInputs::empty() }
    }
}

impl PermutationCircuit {
    /// The same circuit with no values, for deriving its shape.
    pub fn without_witnesses(&self) -> (r: PermutationCircuit)
        ensures
            r.inputs@ == (Seq::<int>::empty(), Seq::<int>::empty()),
    {
        PermutationCircuit { inputs: PermutationCircuitInputs::empty() }
    }

    /// Runs a whole synthesis pass on `chip`: commits both sequences, closes
    /// the first phase, binds `challenge` and evaluates the claim.
    pub fn synthesize(&self, chip: &PermutationChip, challenge: &[u8; 32]) -> (r: Result<
        (),
        CircuitError,
    >)
        ensures
            r == synthesis_outcome(self.inputs@, chip.max_len as int, le_value(challenge@)),
    {
        proof {
            use_type_invariant(&self.inputs);
        }
        let witness = match chip.phase0(&self.inputs) {
            Ok(w) => w,
            Err(e) => {
                return Err(e);
            },
        };
        let sealed = witness.finalize();
        let challenged = match sealed.sample(challenge) {
            Ok(w) => w,
            Err(e) => {
                return Err(e);
            },
        };
        chip.phase1(challenged)
    }
}

/// A synthesis pass over a sequence and a rearrangement of it succeeds at
/// every challenge, provided the chip has room for them.
pub proof fn lemma_permutation_synthesis_succeeds(
    a: Seq<int>,
    b: Seq<int>,
    max_len: int,
    c: int,
)
    requires
        a.to_multiset() == b.to_multiset(),
        a.len() <= max_len,
        0 <= c < modulus(),
    ensures
        synthesis_outcome((a, b), max_len, c) == Ok::<(), CircuitError>(()),
{
    a.to_multiset_ensures();
    b.to_multiset_ensures();
    lemma_permutation_claim_holds(a, b, c);
}

/// Exchanging two entries of one sequence before it is committed does not
/// change the outcome of a synthesis pass.
pub proof fn lemma_swap_keeps_outcome(
    a: Seq<int>,
    b: Seq<int>,
    i: int,
    j: int,
    max_len: int,
    c: int,
)
    requires
        0 <= i < a.len(),
        0 <= j < a.len(),
    ensures
        synthesis_outcome((swap(a, i, j), b), max_len, c) == synthesis_outcome((a, b), max_len, c),
        synthesis_outcome((b, swap(a, i, j)), max_len, c) == synthesis_outcome((b, a), max_len, c),
{
    lemma_swap_keeps_claim(a, b, i, j, c);
}

} // verus!
