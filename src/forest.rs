//! The ensemble: a configuration that builds a forest of independently
//! seeded learners, and the forest's training and prediction.
use vstd::prelude::*;

use rand::rngs::StdRng;

use crate::random::{
    bootstrap_indices, copy_rng, draw_seed, is_bootstrap_sample, is_learner_seed, rng_from_seed, std_rng,
    stream_from_seed, stream_of_seed,
};

verus! {

/// Seed of the master stream of a configuration whose stream was not set.
pub const DEFAULT_SEED: u64 = 0;

/// A matrix, dense or sparse, as the ensemble sees it: a number of rows, and
/// the matrix made of chosen rows.
pub trait Matrix: Sized {
    /// The number of rows.
    closed spec fn num_rows(&self) -> nat {
        arbitrary()
    }

    /// The matrix whose `k`-th row is row `indices[k]` of this one.
    closed spec fn select_rows(&self, indices: Seq<usize>) -> Self {
        arbitrary()
    }

    /// The number of rows.
    fn rows(&self) -> (r: usize)
        ensures
            r as nat == self.num_rows(),
    ;

    /// The matrix whose `k`-th row is row `indices[k]` of this one.
    fn get_rows(&self, indices: &Vec<usize>) -> (r: Self)
        ensures
            r == self.select_rows(indices@),
    ;
}

/// A buffer of decision scores, one per row, that predictions are summed into.
pub trait ScoreBuffer: Sized {
    /// The number of scores.
    closed spec fn num_scores(&self) -> nat {
        arbitrary()
    }

    /// A buffer of `rows` zero scores.
    fn zeros(rows: usize) -> (r: Self)
        ensures
            r.num_scores() == rows,
    ;

    /// Adds `other` to this buffer, row by row.
    fn add_inplace(&mut self, other: &Self)
        ensures
            final(self).num_scores() == old(self).num_scores(),
    ;

    /// Divides every score by `count`.
    fn div_inplace(&mut self, count: usize)
        ensures
            final(self).num_scores() == old(self).num_scores(),
    ;
}

/// A base learner trained on matrices of type `X`.
pub trait Learner<X: Matrix>: Sized {
    /// The targets it is trained on.
    type Target: Matrix;

    /// The scores it predicts.
    type Scores: ScoreBuffer;

    /// Whether training on `x` with targets `y` succeeds, or its error.
    closed spec fn fit_outcome(&self, x: X, y: Self::Target) -> Result<(), &'static str> {
        arbitrary()
    }

    /// The learner after it has trained on `x` with targets `y`.
    closed spec fn trained(&self, x: X, y: Self::Target) -> Self {
        arbitrary()
    }

    /// The learner's decision scores on `x`, or its error.
    closed spec fn prediction(&self, x: X) -> Result<Self::Scores, &'static str> {
        arbitrary()
    }

    /// Trains the learner on `x` with targets `y`.
    fn fit(&mut self, x: &X, y: &Self::Target) -> (r: Result<(), &'static str>)
        ensures
            r == old(self).fit_outcome(*x, *y),
            r is Ok ==> *final(self) == old(self).trained(*x, *y),
    ;

    /// The learner's decision scores on `x`.
    fn decision_function(&self, x: &X) -> (r: Result<Self::Scores, &'static str>)
        ensures
            r == self.prediction(*x),
    ;
}

/// Hyperparameters of a base learner: they can be reseeded with a stream of
/// their own, and build an untrained learner.
pub trait TreeParameters: Sized {
    /// The learner that these hyperparameters build.
    type Tree;

    /// These hyperparameters, with `rng` as their learner's stream.
    closed spec fn reseeded(&self, rng: StdRng) -> Self {
        arbitrary()
    }

    /// The untrained learner that these hyperparameters build.
    closed spec fn built(&self) -> Self::Tree {
        arbitrary()
    }

    /// A copy of these hyperparameters whose learner draws from `rng`.
    fn with_rng(&self, rng: StdRng) -> (r: Self)
        ensures
            r == self.reseeded(rng),
    ;

    /// An untrained learner.
    fn build(&self) -> (r: Self::Tree)
        ensures
            r == self.built(),
    ;
}

/// `tree` is the learner that `params` build once reseeded with a stream made
/// from some learner seed.
pub open spec fn built_from_seed<P: TreeParameters>(params: P, tree: P::Tree) -> bool {
    exists|seed: Seq<u8>| is_learner_seed(seed) && tree == params.reseeded(stream_from_seed(seed)).built()
}

/// Why a forest could not be fit.
#[derive(Debug, PartialEq, Eq)]
pub enum FitError {
    /// The training matrix has no rows: there is nothing to sample from.
    EmptyTrainingSet,
    /// A learner failed to train, with its own message.
    Learner(&'static str),
}

/// Draws one bootstrap sample of `rows` rows for each of `num_learners`
/// learners, in learner order, from the one stream `rng`. The samples are all
/// drawn before any learner is trained, so the sample of each learner does not
/// depend on the order in which the learners are then trained. `None` comes
/// exactly when `rows` is zero.
pub fn bootstrap_plan(rows: usize, num_learners: usize, rng: &mut StdRng) -> (r: Option<Vec<Vec<usize>>>)
    ensures
        r is None <==> rows == 0,
        rows == 0 || num_learners == 0 ==> *final(rng) == *old(rng),
        r matches Some(plan) ==> plan@.len() == num_learners
            && forall|i: int| 0 <= i < plan@.len() ==> is_bootstrap_sample(#[trigger] plan@[i]@, rows as nat),
{
    if rows == 0 {
        return None;
    }
    let mut plan: Vec<Vec<usize>> = Vec::with_capacity(num_learners);
    let mut i: usize = 0;
    while i < num_learners
        invariant
            rows > 0,
            i <= num_learners,
            plan@.len() == i,
            forall|j: int| 0 <= j < plan@.len() ==> is_bootstrap_sample(#[trigger] plan@[j]@, rows as nat),
            num_learners == 0 ==> *rng == *old(rng),
        decreases num_learners - i,
    {
        let sample = bootstrap_indices(rows, rng);
        match sample {
            Some(indices) => plan.push(indices),
            None => return None,
        }
        i += 1;
    }
    Some(plan)
}

/// Configuration of a random forest: the hyperparameters of its learners,
/// how many learners it has, and the master stream that seeds them.
pub struct Hyperparameters<P> {
    tree_hyperparameters: P,
    num_trees: usize,
    rng: StdRng,
}

impl<P> Hyperparameters<P> {
    /// The number of learners that `build` makes.
    pub closed spec fn size(&self) -> nat {
        self.num_trees as nat
    }

    /// The hyperparameters that every learner is built from.
    pub closed spec fn params(&self) -> P {
        self.tree_hyperparameters
    }

    /// The master stream.
    pub closed spec fn master(&self) -> StdRng {
        self.rng
    }

    /// Configuration for a forest of `num_trees` learners built from
    /// `tree_hyperparameters`, with a master stream of the default seed.
    pub fn new(tree_hyperparameters: P, num_trees: usize) -> (r: Hyperparameters<P>)
        ensures
            r.size() == num_trees,
            r.params() == tree_hyperparameters,
            r.master() == stream_of_seed(DEFAULT_SEED),
    {
        Hyperparameters { tree_hyperparameters, num_trees, rng: std_rng(DEFAULT_SEED) }
    }

    /// The same configuration with `rng` as its master stream.
    pub fn rng(self, rng: StdRng) -> (r: Hyperparameters<P>)
        ensures
            r.size() == self.size(),
            r.params() == self.params(),
            r.master() == rng,
    {
        Hyperparameters { tree_hyperparameters: self.tree_hyperparameters, num_trees: self.num_trees, rng }
    }

    /// The number of learners that `build` makes.
    pub fn num_trees(&self) -> (r: usize)
        ensures
            r == self.size(),
    {
        self.num_trees
    }
}

impl<P: TreeParameters> Hyperparameters<P> {
    /// Builds an untrained forest of `num_trees` learners. Each learner is
    /// reseeded with 32 bytes drawn from a copy of the master stream; the
    /// forest samples rows from another copy of the master stream, which those
    /// draws do not advance. The configuration itself is left as it was.
    pub fn build(&self) -> (r: RandomForest<P::Tree>)
        ensures
            r.num_learners() == self.size(),
            r.stream() == self.master(),
            forall|k: int| 0 <= k < r.num_learners() ==> built_from_seed(self.params(), #[trigger] r.learners()[k]),
    {
        let mut trees: Vec<P::Tree> = Vec::with_capacity(self.num_trees);
        let mut rng = copy_rng(&self.rng);
        let mut i: usize = 0;
        while i < self.num_trees
            invariant
                i <= self.num_trees,
                trees@.len() == i,
                forall|k: int| 0 <= k < i ==> built_from_seed(self.tree_hyperparameters, #[trigger] trees@[k]),
            decreases self.num_trees - i,
        {
            let seed = draw_seed(&mut rng);
            let params = self.tree_hyperparameters.with_rng(rng_from_seed(&seed));
            let tree = params.build();
            assert(is_learner_seed(seed@));
            assert(built_from_seed(self.tree_hyperparameters, tree));
            trees.push(tree);
            i += 1;
        }
        RandomForest { trees, rng: copy_rng(&self.rng) }
    }
}

/// A forest of learners and the stream that it samples training rows from.
pub struct RandomForest<T> {
    trees: Vec<T>,
    rng: StdRng,
}

impl<T> RandomForest<T> {
    /// The learners, in order.
    pub closed spec fn learners(&self) -> Seq<T> {
        self.trees@
    }

    /// The stream that bootstrap samples are drawn from.
    pub closed spec fn stream(&self) -> StdRng {
        self.rng
    }

    /// The number of learners.
    pub open spec fn num_learners(&self) -> nat {
        self.learners().len()
    }

    /// The learners, in order.
    pub fn trees(&self) -> (r: &Vec<T>)
        ensures
            r@ == self.learners(),
    {
        &self.trees
    }

    /// The stream that bootstrap samples are drawn from.
    pub fn sampling_rng(&self) -> (r: &StdRng)
        ensures
            *r == self.stream(),
    {
        &self.rng
    }

    /// A forest made of `trees` that samples rows from `rng`: with `trees`
    /// and `sampling_rng`, it takes a forest apart and puts it back together.
    pub fn from_parts(trees: Vec<T>, rng: StdRng) -> (r: RandomForest<T>)
        ensures
            r.learners() == trees@,
            r.stream() == rng,
    {
        RandomForest { trees, rng }
    }

    /// The learners and the sampling stream of this forest.
    pub fn into_parts(self) -> (r: (Vec<T>, StdRng))
        ensures
            r.0@ == self.learners(),
            r.1 == self.stream(),
    {
        (self.trees, self.rng)
    }
}

/// `after` is a clone of `before` trained, with success, on the rows of `x`
/// and `y` that some bootstrap sample of `rows` rows picks.
pub open spec fn trains_to<X: Matrix, T: Learner<X> + Clone>(before: T, x: X, y: T::Target, rows: nat, after: T) -> bool {
    exists|idx: Seq<usize>, c: T|
        #![trigger c.fit_outcome(x.select_rows(idx), y.select_rows(idx)), cloned(before, c)]
        is_bootstrap_sample(idx, rows) && cloned(before, c)
            && c.fit_outcome(x.select_rows(idx), y.select_rows(idx)) is Ok
            && after == c.trained(x.select_rows(idx), y.select_rows(idx))
}

/// A clone of `before` fails with error `e` when trained on the rows of `x`
/// and `y` that some bootstrap sample of `rows` rows picks.
pub open spec fn fails_with<X: Matrix, T: Learner<X> + Clone>(before: T, x: X, y: T::Target, rows: nat, e: &'static str) -> bool {
    exists|idx: Seq<usize>, c: T|
        #![trigger c.fit_outcome(x.select_rows(idx), y.select_rows(idx)), cloned(before, c)]
        is_bootstrap_sample(idx, rows) && cloned(before, c)
            && c.fit_outcome(x.select_rows(idx), y.select_rows(idx)) == Err::<(), &'static str>(e)
}

/// Some clone of `before` trains with success on some bootstrap sample of
/// `rows` rows of `x` and `y`.
pub open spec fn trains_some<X: Matrix, T: Learner<X> + Clone>(before: T, x: X, y: T::Target, rows: nat) -> bool {
    exists|a: T| trains_to(before, x, y, rows, a)
}

/// Each of the first `k` learners trains with success on some bootstrap
/// sample of `rows` rows of `x` and `y`.
pub open spec fn first_train<X: Matrix, T: Learner<X> + Clone>(learners: Seq<T>, x: X, y: T::Target, rows: nat, k: int) -> bool {
    forall|j: int| 0 <= j < k ==> #[trigger] trains_some(learners[j], x, y, rows)
}

impl<T: Clone> RandomForest<T> {
    /// Fits every learner on its own bootstrap sample of the rows of `x` and
    /// `y`. All samples are drawn, in learner order, from a copy of the
    /// forest's stream before any learner is trained; learner `k` is then a
    /// clone of the old one, trained once on the rows its sample picks. Only
    /// when every learner has trained are the trained learners and the
    /// advanced stream kept, so a later fit continues the stream; the first
    /// learner that fails ends the call with its error, and the forest is left
    /// exactly as it was. A training matrix without rows is refused, also for
    /// a forest without learners, since there is nothing to sample from.
    pub fn fit<X: Matrix>(&mut self, x: &X, y: &T::Target) -> (r: Result<(), FitError>)
        where
            T: Learner<X>,
        ensures
            final(self).num_learners() == old(self).num_learners(),
            r is Err ==> *final(self) == *old(self),
            r matches Err(FitError::EmptyTrainingSet) <==> x.num_rows() == 0,
            old(self).num_learners() == 0 && x.num_rows() > 0 ==> r is Ok
                && final(self).learners() == old(self).learners()
                && final(self).stream() == old(self).stream(),
            r is Ok ==> forall|k: int| 0 <= k < old(self).num_learners()
                ==> trains_to(#[trigger] old(self).learners()[k], *x, *y, x.num_rows(), final(self).learners()[k]),
            r matches Err(FitError::Learner(e)) ==> exists|k: int| 0 <= k < old(self).num_learners()
                && fails_with(#[trigger] old(self).learners()[k], *x, *y, x.num_rows(), e)
                && first_train(old(self).learners(), *x, *y, x.num_rows(), k),
    {
        let rows = x.rows();
        let mut rng = copy_rng(&self.rng);
        let plan = match bootstrap_plan(rows, self.trees.len(), &mut rng) {
            Some(plan) => plan,
            None => return Err(FitError::EmptyTrainingSet),
        };
        let mut trained: Vec<T> = Vec::with_capacity(self.trees.len());
        let mut i: usize = 0;
        while i < self.trees.len()
            invariant
                rows > 0,
                rows as nat == x.num_rows(),
                plan@.len() == self.trees@.len(),
                forall|j: int| 0 <= j < plan@.len() ==> is_bootstrap_sample(#[trigger] plan@[j]@, rows as nat),
                i <= self.trees@.len(),
                trained@.len() == i,
                forall|j: int| 0 <= j < i ==> trains_to(#[trigger] self.trees@[j], *x, *y, rows as nat, trained@[j]),
                first_train(self.trees@, *x, *y, rows as nat, i as int),
            decreases self.trees@.len() - i,
        {
            let mut tree = self.trees[i].clone();
            let ghost c = tree;
            assert(cloned(self.trees@[i as int], c));
            let xs = x.get_rows(&plan[i]);
            let ys = y.get_rows(&plan[i]);
            match tree.fit(&xs, &ys) {
                Ok(()) => {},
                Err(e) => {
                    proof {
                        assert(c.fit_outcome(x.select_rows(plan@[i as int]@), y.select_rows(plan@[i as int]@)) == Err::<(), &'static str>(e));
                        assert(fails_with(self.trees@[i as int], *x, *y, rows as nat, e));
                        assert(old(self).learners() == self.trees@);
                        assert(fails_with(old(self).learners()[i as int], *x, *y, x.num_rows(), e));
                        assert(first_train(old(self).learners(), *x, *y, x.num_rows(), i as int));
                    }
                    return Err(FitError::Learner(e));
                },
            }
            proof {
                assert(c.fit_outcome(x.select_rows(plan@[i as int]@), y.select_rows(plan@[i as int]@)) is Ok);
                assert(trains_to(self.trees@[i as int], *x, *y, rows as nat, tree));
                assert forall|j: int| 0 <= j < i + 1 implies #[trigger] trains_some(self.trees@[j], *x, *y, rows as nat) by {
                    if j < i {
                        assert(trains_to(self.trees@[j], *x, *y, rows as nat, trained@[j]));
                    } else {
                        assert(trains_to(self.trees@[j], *x, *y, rows as nat, tree));
                    }
                }
            }
            trained.push(tree);
            i += 1;
        }
        if self.trees.len() > 0 {
            self.trees = trained;
        }
        self.rng = rng;
        Ok(())
    }
}

impl<T> RandomForest<T> {
    /// The ensemble's decision scores on `x`, one per row: the sum of every
    /// learner's scores, divided by the number of learners. It succeeds
    /// exactly when every learner's prediction does; otherwise it returns the
    /// error of the first learner that fails. The forest is not changed, and
    /// its stream is not read.
    pub fn decision_function<X>(&self, x: &X) -> (r: Result<T::Scores, &'static str>)
        where
            X: Matrix,
            T: Learner<X>,
        ensures
            self.num_learners() == 0 ==> r is Ok,
            r is Ok <==> forall|k: int| 0 <= k < self.num_learners() ==> (#[trigger] self.learners()[k].prediction(*x)) is Ok,
            r matches Err(e) ==> exists|k: int| 0 <= k < self.num_learners()
                && (#[trigger] self.learners()[k].prediction(*x)) == Err::<T::Scores, &'static str>(e)
                && forall|j: int| 0 <= j < k ==> (#[trigger] self.learners()[j].prediction(*x)) is Ok,
            r matches Ok(s) ==> s.num_scores() == x.num_rows(),
    {
        let mut df = T::Scores::zeros(x.rows());
        let mut i: usize = 0;
        while i < self.trees.len()
            invariant
                i <= self.trees@.len(),
                df.num_scores() == x.num_rows(),
                forall|j: int| 0 <= j < i ==> (#[trigger] self.trees@[j].prediction(*x)) is Ok,
            decreases self.trees@.len() - i,
        {
            let scores = match self.trees[i].decision_function(x) {
                Ok(s) => s,
                Err(e) => {
                    assert(self.trees@[i as int].prediction(*x) == Err::<T::Scores, &'static str>(e));
                    return Err(e);
                },
            };
            df.add_inplace(&scores);
            i += 1;
        }
        df.div_inplace(self.trees.len());
        Ok(df)
    }
}

} // verus!
