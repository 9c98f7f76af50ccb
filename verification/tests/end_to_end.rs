use air_traces::arithmetic::{
    generate_arithmetic_trace, generate_arithmetic_trace_for, ArithmeticAir, ArithmeticRow,
};
use air_traces::fibonacci::{generate_fibonacci_trace, FibonacciAir, FibonacciRow};
use air_traces::pipeline::{Action, AirKind, Event, RunError, Stage};
use air_traces::rng::SimpleRng;
use air_traces::schema::SchemaError;
use p3_air::{Air, AirBuilder, BaseAir};
use p3_baby_bear::{BabyBear, Poseidon2BabyBear};
use p3_challenger::DuplexChallenger;
use p3_commit::ExtensionMmcs;
use p3_dft::Radix2DitParallel;
use p3_field::extension::BinomialExtensionField;
use p3_field::{Field, PrimeCharacteristicRing};
use p3_fri::{create_test_fri_params, TwoAdicFriPcs};
use p3_matrix::dense::RowMajorMatrix;
use p3_matrix::Matrix;
use p3_merkle_tree::MerkleTreeMmcs;
use p3_symmetric::{PaddingFreeSponge, TruncatedPermutation};
use p3_uni_stark::{
    prove, verify, DebugConstraintBuilder, ProverConstraintFolder, StarkConfig,
    SymbolicAirBuilder, VerifierConstraintFolder,
};

type Val = BabyBear;
type Perm = Poseidon2BabyBear<16>;
type MyHash = PaddingFreeSponge<Perm, 16, 8, 8>;
type MyCompress = TruncatedPermutation<Perm, 2, 8, 16>;
type ValMmcs =
    MerkleTreeMmcs<<Val as Field>::Packing, <Val as Field>::Packing, MyHash, MyCompress, 8>;
type Challenge = BinomialExtensionField<Val, 4>;
type ChallengeMmcs = ExtensionMmcs<Val, Challenge, ValMmcs>;
type Challenger = DuplexChallenger<Val, Perm, 16, 8>;
type Dft = Radix2DitParallel<Val>;
type Pcs = TwoAdicFriPcs<Val, Dft, ValMmcs, ChallengeMmcs>;
type MyConfig = StarkConfig<Pcs, Challenge, Challenger>;

struct SeededRng(SimpleRng);

impl rand::RngCore for SeededRng {
    fn next_u32(&mut self) -> u32 {
        self.0.next_u32()
    }

    fn next_u64(&mut self) -> u64 {
        self.0.next_u64()
    }

    fn fill_bytes(&mut self, dest: &mut [u8]) {
        self.0.fill_bytes(dest)
    }
}

struct Recurrence(FibonacciAir);

struct Identity(ArithmeticAir);

struct OffByOne(ArithmeticAir);

impl<F> BaseAir<F> for Recurrence {
    fn width(&self) -> usize {
        self.0.width()
    }
}

impl<AB: AirBuilder> Air<AB> for Recurrence {
    fn eval(&self, builder: &mut AB) {
        let main = builder.main();
        let local = FibonacciRow::from_slice(&main.row_slice(0).unwrap()).unwrap();
        let next = FibonacciRow::from_slice(&main.row_slice(1).unwrap()).unwrap();
        let local: FibonacciRow<AB::Expr> = FibonacciRow::new(local.a.into(), local.b.into());
        let next: FibonacciRow<AB::Expr> = FibonacciRow::new(next.a.into(), next.b.into());
        let c = self.0.constraints(&local, &next, |x: &AB::Expr, y: &AB::Expr| {
            x.clone() - y.clone()
        });
        let mut transition = builder.when_transition();
        transition.assert_zero(c.transition);
        transition.assert_zero(c.propagation);
    }
}

impl<F> BaseAir<F> for Identity {
    fn width(&self) -> usize {
        self.0.width()
    }
}

impl<AB: AirBuilder> Air<AB> for Identity {
    fn eval(&self, builder: &mut AB) {
        let main = builder.main();
        let local = ArithmeticRow::from_slice(&main.row_slice(0).unwrap()).unwrap();
        let local: ArithmeticRow<AB::Expr> =
            ArithmeticRow::new(local.a.into(), local.c.into(), local.d.into(), local.e.into());
        let c = self.0.constraint(
            &local,
            |x: &AB::Expr, y: &AB::Expr| x.clone() + y.clone(),
            |x: &AB::Expr, y: &AB::Expr| x.clone() * y.clone(),
            |x: &AB::Expr, y: &AB::Expr| x.clone() - y.clone(),
        );
        builder.assert_zero(c);
    }
}

impl<F> BaseAir<F> for OffByOne {
    fn width(&self) -> usize {
        self.0.width()
    }
}

impl<AB: AirBuilder> Air<AB> for OffByOne {
    fn eval(&self, builder: &mut AB) {
        let main = builder.main();
        let local = ArithmeticRow::from_slice(&main.row_slice(0).unwrap()).unwrap();
        let local: ArithmeticRow<AB::Expr> =
            ArithmeticRow::new(local.a.into(), local.c.into(), local.d.into(), local.e.into());
        let c = self.0.constraint(
            &local,
            |x: &AB::Expr, y: &AB::Expr| x.clone() + y.clone(),
            |x: &AB::Expr, y: &AB::Expr| x.clone() * y.clone(),
            |x: &AB::Expr, y: &AB::Expr| x.clone() - y.clone(),
        );
        builder.assert_zero(c - AB::Expr::ONE);
    }
}

fn config(seed: u64, log_final_poly_len: usize) -> MyConfig {
    let mut rng = SeededRng(SimpleRng::new(seed));
    let perm = Perm::new_from_rng_128(&mut rng);
    let hash = MyHash::new(perm.clone());
    let compress = MyCompress::new(perm.clone());
    let val_mmcs = ValMmcs::new(hash, compress);
    let challenge_mmcs = ChallengeMmcs::new(val_mmcs.clone());
    let dft = Dft::default();
    let fri_params = create_test_fri_params(challenge_mmcs, log_final_poly_len);
    let pcs = Pcs::new(dft, val_mmcs, fri_params);
    let challenger = Challenger::new(perm);
    MyConfig::new(pcs, challenger)
}

fn in_field(trace: RowMajorMatrix<u32>) -> RowMajorMatrix<Val> {
    let width = trace.width();
    RowMajorMatrix::new(trace.values.into_iter().map(Val::new).collect(), width)
}

fn run<A>(kind: AirKind, air: &A, config: &MyConfig, trace: RowMajorMatrix<u32>) -> Result<(), RunError>
where
    A: Air<SymbolicAirBuilder<Val>>
        + for<'a> Air<ProverConstraintFolder<'a, MyConfig>>
        + for<'a> Air<VerifierConstraintFolder<'a, MyConfig>>
        + for<'a> Air<DebugConstraintBuilder<'a, Val>>,
{
    let mut stage = Stage::start();
    let mut proof = None;
    loop {
        let event = match stage.action() {
            Action::Check => kind.check(&trace),
            Action::Prove => {
                proof = Some(prove(config, air, in_field(trace.clone()), &vec![]));
                Event::Proved
            }
            Action::Verify => match verify(config, air, proof.as_ref().unwrap(), &vec![]) {
                Ok(()) => Event::Accepted,
                Err(_) => Event::Rejected,
            },
            Action::Stop(result) => return result,
        };
        stage = stage.advance(event);
    }
}

#[test]
fn recurrence_trace_without_padding_proves_and_verifies() {
    let trace = generate_fibonacci_trace(256);
    assert_eq!(run(AirKind::Recurrence, &Recurrence(FibonacciAir), &config(42, 4), trace), Ok(()));
}

#[test]
fn longer_recurrence_trace_proves_and_verifies() {
    let trace = generate_fibonacci_trace(1024);
    assert_eq!(run(AirKind::Recurrence, &Recurrence(FibonacciAir), &config(42, 4), trace), Ok(()));
}

#[test]
fn identity_trace_proves_and_verifies() {
    let trace = generate_arithmetic_trace();
    assert_eq!(run(AirKind::Identity, &Identity(ArithmeticAir), &config(1, 0), trace), Ok(()));
}

#[test]
fn true_identity_of_other_operands_proves_and_verifies() {
    let trace = generate_arithmetic_trace_for(7, 6, 5, 37);
    assert_eq!(run(AirKind::Identity, &Identity(ArithmeticAir), &config(1, 0), trace), Ok(()));
}

#[test]
fn corrupted_recurrence_trace_fails_at_proving() {
    let mut trace = generate_fibonacci_trace(256);
    trace.values[2 * 5 + 1] ^= 1;
    assert_eq!(
        run(AirKind::Recurrence, &Recurrence(FibonacciAir), &config(42, 4), trace),
        Err(RunError::Proving { violated_row: Some(4) })
    );
}

#[test]
fn padded_recurrence_trace_fails_at_proving() {
    let trace = generate_fibonacci_trace(100);
    assert_eq!(
        run(AirKind::Recurrence, &Recurrence(FibonacciAir), &config(42, 4), trace),
        Err(RunError::Proving { violated_row: Some(99) })
    );
}

#[test]
fn false_identity_fails_at_proving() {
    let trace = generate_arithmetic_trace_for(3, 4, 5, 24);
    assert_eq!(
        run(AirKind::Identity, &Identity(ArithmeticAir), &config(1, 0), trace),
        Err(RunError::Proving { violated_row: Some(0) })
    );
}

#[test]
fn trace_of_the_wrong_air_fails_on_its_schema() {
    let trace = generate_arithmetic_trace();
    assert_eq!(
        run(AirKind::Recurrence, &Recurrence(FibonacciAir), &config(42, 4), trace),
        Err(RunError::Schema(SchemaError::WidthMismatch { expected: 2, found: 4 }))
    );
}

#[test]
fn proof_checked_against_another_air_is_rejected() {
    let config = config(1, 0);
    let proof = prove(&config, &Identity(ArithmeticAir), in_field(generate_arithmetic_trace()), &vec![]);
    assert!(verify(&config, &Identity(ArithmeticAir), &proof, &vec![]).is_ok());
    let stage = Stage::Verifying;
    let event = match verify(&config, &OffByOne(ArithmeticAir), &proof, &vec![]) {
        Ok(()) => Event::Accepted,
        Err(_) => Event::Rejected,
    };
    assert_eq!(stage.advance(event), Stage::Finished(Err(RunError::Verification)));
}
