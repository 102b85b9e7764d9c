//! Expert-parallel placement metadata for sparse MoE models.
//!
//! Contiguous global expert ownership, global-to-local expert remapping, and
//! the TileKernels-compatible TP/EP masking formula for fused expert dispatch.

use std::ops::Range;
use vstd::prelude::*;

use crate::arith::{lemma_div_block, lemma_div_mod_of_parts, lemma_mul_le};
use crate::text::str_chars;

verus! {

/// The two environment settings an expert group is read from.
#[derive(Clone, Copy, Debug, PartialEq, Eq)]
pub enum ParallelEnvVar {
    /// `INFER_EP_SIZE` (alias `ARLE_EP_SIZE`).
    EpSize,
    /// `INFER_EP_RANK` (alias `ARLE_EP_RANK`).
    EpRank,
}

/// Why an expert layout, an expert index or a routing table was refused.
#[derive(Clone, Debug, PartialEq, Eq)]
pub enum ExpertStateError {
    ZeroWorldSize,
    RankOutOfRange { rank: usize, world_size: usize },
    ZeroExperts,
    ExpertsNotDivisible { num_experts: usize, world_size: usize },
    IndexDoesNotFitUsize { expert_idx: i64 },
    ExpertIndexOutOfRange { expert_idx: usize, num_experts: usize },
    RoutingExpertsMismatch { routing_num_experts: usize, group_num_experts: usize },
    RouteExpertOutOfRange { expert_idx: usize, num_experts: usize },
    ZeroEpRanks,
    ZeroTpRanks,
    TpRankOutOfRange { tp_rank: usize, num_tp_ranks: usize },
    ExpertsNotDivisibleByEpRanks { num_experts: usize, num_ep_ranks: usize },
    InvalidEnvValue { variable: ParallelEnvVar, value: String },
}

/// Expert ownership of one rank in an expert-parallel group of `world_size`
/// ranks sharing `num_experts` experts in contiguous blocks.
#[derive(Clone, Debug, PartialEq, Eq)]
pub struct ExpertGroup {
    pub rank: usize,
    pub world_size: usize,
    pub num_experts: usize,
    pub experts_per_rank: usize,
    pub expert_to_rank: Vec<usize>,
}

/// The rank that owns each of `num_experts` experts when every rank owns
/// `per_rank` consecutive experts.
pub open spec fn expert_rank_map(num_experts: nat, per_rank: nat) -> Seq<usize> {
    Seq::new(num_experts, |e: int| (e / (per_rank as int)) as usize)
}

/// The first check that a `(rank, world_size, num_experts)` layout fails.
pub open spec fn layout_error(rank: usize, world_size: usize, num_experts: usize) -> Option<
    ExpertStateError,
> {
    if world_size == 0 {
        Some(ExpertStateError::ZeroWorldSize)
    } else if rank >= world_size {
        Some(ExpertStateError::RankOutOfRange { rank, world_size })
    } else if num_experts == 0 {
        Some(ExpertStateError::ZeroExperts)
    } else if num_experts % world_size != 0 {
        Some(ExpertStateError::ExpertsNotDivisible { num_experts, world_size })
    } else {
        None
    }
}

/// The decimal value of a sequence of ASCII digits.
pub open spec fn digits_value(s: Seq<char>) -> nat
    decreases s.len(),
{
    if s.len() == 0 {
        0
    } else {
        digits_value(s.drop_last()) * 10 + ((s.last() as nat) - ('0' as nat)) as nat
    }
}

pub open spec fn is_ascii_digit(c: char) -> bool {
    '0' <= c && c <= '9'
}

pub open spec fn all_digits(s: Seq<char>) -> bool {
    forall|i: int| 0 <= i < s.len() ==> is_ascii_digit(#[trigger] s[i])
}

/// The text after an optional leading `+`.
pub open spec fn unsigned_digits(s: Seq<char>) -> Seq<char> {
    if s.len() > 0 && s[0] == '+' {
        s.drop_first()
    } else {
        s
    }
}

/// What `usize::from_str` accepts: an optional `+`, then one or more ASCII
/// digits whose value fits in `usize`.
pub open spec fn parse_usize_spec(s: Seq<char>) -> Option<usize> {
    let d = unsigned_digits(s);
    if d.len() > 0 && all_digits(d) && digits_value(d) <= usize::MAX {
        Some(digits_value(d) as usize)
    } else {
        None
    }
}

proof fn lemma_digits_value_grows(s: Seq<char>, i: int)
    requires
        0 <= i <= s.len(),
        all_digits(s),
    ensures
        digits_value(s.subrange(0, i)) <= digits_value(s),
    decreases s.len() - i,
{
    if i < s.len() {
        lemma_digits_value_grows(s, i + 1);
        let t = s.subrange(0, i + 1);
        assert(t.drop_last() =~= s.subrange(0, i));
        assert(is_ascii_digit(s[i]));
    } else {
        assert(s.subrange(0, i) =~= s);
    }
}

/// Parses a decimal `usize` exactly as `usize::from_str` does.
pub fn parse_usize(s: &str) -> (r: Option<usize>)
    ensures
        r == parse_usize_spec(s@),
{
    let chars = str_chars(s);
    let start: usize = if chars.len() > 0 && chars[0] == '+' {
        1
    } else {
        0
    };
    let ghost d = unsigned_digits(s@);
    assert(d =~= chars@.subrange(start as int, chars@.len() as int));
    if start >= chars.len() {
        return None;
    }
    let mut value: usize = 0;
    let mut i = start;
    while i < chars.len()
        invariant
            start <= i <= chars.len(),
            d == unsigned_digits(s@),
            d == chars@.subrange(start as int, chars@.len() as int),
            all_digits(chars@.subrange(start as int, i as int)),
            value as nat == digits_value(chars@.subrange(start as int, i as int)),
        decreases chars.len() - i,
    {
        let c = chars[i];
        let ghost prefix = chars@.subrange(start as int, i as int);
        let ghost next = chars@.subrange(start as int, i + 1);
        assert(next.drop_last() =~= prefix);
        assert(next.last() == c);
        if c < '0' || c > '9' {
            assert(d[i - start] == c);
            assert(!is_ascii_digit(d[i - start]));
            assert(!all_digits(d));
            assert(parse_usize_spec(s@) is None);
            return None;
        }
        assert(all_digits(next)) by {
            assert forall|j: int| 0 <= j < next.len() implies is_ascii_digit(#[trigger] next[j]) by {
                if j < prefix.len() {
                    assert(next[j] == prefix[j]);
                }
            }
        }
        let digit = ((c as u32) - ('0' as u32)) as usize;
        assert(d.subrange(0, (i - start) as int + 1) =~= next);
        match value.checked_mul(10) {
            None => {
                proof {
                    reject_overflow(d, next, (i - start) as int + 1);
                }
                return None;
            },
            Some(m) => match m.checked_add(digit) {
                None => {
                    proof {
                        reject_overflow(d, next, (i - start) as int + 1);
                    }
                    return None;
                },
                Some(v) => {
                    value = v;
                },
            },
        }
        i = i + 1;
    }
    assert(chars@.subrange(start as int, i as int) =~= d);
    Some(value)
}

/// A digit prefix whose value exceeds `usize::MAX` makes the whole parse fail.
proof fn reject_overflow(d: Seq<char>, next: Seq<char>, k: int)
    requires
        0 < k <= d.len(),
        next == d.subrange(0, k),
        all_digits(next),
        digits_value(next) > usize::MAX,
    ensures
        !(d.len() > 0 && all_digits(d) && digits_value(d) <= usize::MAX),
{
    if all_digits(d) {
        lemma_digits_value_grows(d, k);
    }
}

/// Environment values an expert group is configured from; each setting has a
/// primary variable and an alias consulted when the primary is unset.
#[derive(Clone, Debug, PartialEq, Eq)]
pub struct ExpertParallelEnv {
    pub ep_size: Option<String>,
    pub ep_size_alias: Option<String>,
    pub ep_rank: Option<String>,
    pub ep_rank_alias: Option<String>,
}

/// The value of a setting: the primary variable, else the alias.
pub open spec fn env_value(primary: Option<String>, alias: Option<String>) -> Option<String> {
    match primary {
        Some(v) => Some(v),
        None => alias,
    }
}

/// The outcome of reading a `usize` setting with a default.
pub open spec fn env_usize_spec(
    variable: ParallelEnvVar,
    primary: Option<String>,
    alias: Option<String>,
    default: usize,
) -> Result<usize, ExpertStateError> {
    match env_value(primary, alias) {
        None => Ok(default),
        Some(v) => match parse_usize_spec(v@) {
            Some(n) => Ok(n),
            None => Err(ExpertStateError::InvalidEnvValue { variable, value: v }),
        },
    }
}

/// Reads a `usize` setting: the primary value if set, else the alias, else
/// `default`; a set value that is not a decimal `usize` is an error.
pub fn parse_parallel_env_usize(
    variable: ParallelEnvVar,
    primary: &Option<String>,
    alias: &Option<String>,
    default: usize,
) -> (r: Result<usize, ExpertStateError>)
    ensures
        r == env_usize_spec(variable, *primary, *alias, default),
{
    let value: &String = match primary {
        Some(v) => v,
        None => match alias {
            Some(v) => v,
            None => {
                return Ok(default);
            },
        },
    };
    match parse_usize(value.as_str()) {
        Some(n) => Ok(n),
        None => Err(ExpertStateError::InvalidEnvValue { variable, value: value.clone() }),
    }
}

/// The mask of one global expert index for a rank: owned experts become
/// their local index, everything else `-1`.
pub open spec fn mask_one_spec(
    idx: i64,
    num_experts: usize,
    per_rank: usize,
    rank: usize,
) -> i64 {
    let e = idx as int;
    if e < 0 {
        -1i64
    } else if e < num_experts && e / (per_rank as int) == rank {
        (e - rank * per_rank) as i64
    } else {
        -1i64
    }
}

/// Expert `e` lies in the block of `rank` when every rank owns `per_rank`
/// consecutive experts out of `num_experts`.
pub open spec fn expert_owned(e: int, num_experts: usize, per_rank: usize, rank: usize) -> bool {
    0 <= e < num_experts && e / (per_rank as int) == rank
}

/// The error a single expert index raises, if any.
pub open spec fn index_error(idx: i64, num_experts: usize) -> Option<ExpertStateError> {
    if idx < 0 {
        None
    } else if idx > usize::MAX {
        Some(ExpertStateError::IndexDoesNotFitUsize { expert_idx: idx })
    } else if idx >= num_experts {
        Some(ExpertStateError::ExpertIndexOutOfRange { expert_idx: idx as usize, num_experts })
    } else {
        None
    }
}

/// One expert assignment of a token with its routing weight.
#[derive(Clone, Debug, PartialEq)]
pub struct ExpertRoute<W> {
    pub token_idx: usize,
    pub expert_idx: usize,
    pub weight: W,
}

/// Routing of a batch over `num_experts` global experts.
#[derive(Clone, Debug, PartialEq)]
pub struct ExpertRoutingWeights<W> {
    pub num_experts: usize,
    pub routes: Vec<ExpertRoute<W>>,
}

impl<W> ExpertRoutingWeights<W> {
    pub fn new(num_experts: usize, routes: Vec<ExpertRoute<W>>) -> (r: Self)
        ensures
            r.num_experts == num_experts,
            r.routes@ == routes@,
    {
        ExpertRoutingWeights { num_experts, routes }
    }
}

/// A route kept by the rank that owns its expert.
#[derive(Clone, Debug, PartialEq)]
pub struct LocalExpertRoute<W> {
    pub token_idx: usize,
    pub global_expert_idx: usize,
    pub local_expert_idx: usize,
    pub weight: W,
}

/// The routes of a batch that land on one rank.
#[derive(Clone, Debug, PartialEq)]
pub struct LocalExpertRouting<W> {
    pub num_global_experts: usize,
    pub experts_per_rank: usize,
    pub routes: Vec<LocalExpertRoute<W>>,
}

/// Output of one expert on one rank.
#[derive(Clone, Debug, PartialEq)]
pub struct ExpertOutput<H> {
    pub rank: usize,
    pub expert_idx: usize,
    pub token_indices: Vec<usize>,
    pub hidden_states: Vec<Vec<H>>,
}

impl ExpertGroup {
    /// The rank of every expert, as stored.
    pub open spec fn rank_map(&self) -> Seq<usize> {
        self.expert_to_rank@
    }

    /// A consistent layout: contiguous blocks of `experts_per_rank` experts.
    pub open spec fn wf(&self) -> bool {
        &&& self.world_size > 0
        &&& self.rank < self.world_size
        &&& self.num_experts > 0
        &&& self.num_experts % self.world_size == 0
        &&& self.experts_per_rank == self.num_experts / self.world_size
        &&& self.rank_map() == expert_rank_map(self.num_experts as nat, self.experts_per_rank as nat)
    }

    /// What a consistent layout guarantees of the public fields.
    pub proof fn lemma_layout(&self)
        requires
            self.wf(),
        ensures
            self.world_size > 0,
            self.rank < self.world_size,
            self.num_experts > 0,
            self.experts_per_rank == self.num_experts / self.world_size,
            self.experts_per_rank > 0,
            self.rank_map() == expert_rank_map(self.num_experts as nat, self.experts_per_rank as nat),
            self.experts_per_rank * self.world_size == self.num_experts,
            (self.rank * self.experts_per_rank) + self.experts_per_rank <= self.num_experts,
            (self.rank * self.experts_per_rank) >= 0,
    {
        let n = self.num_experts as int;
        let w = self.world_size as int;
        let p = self.experts_per_rank as int;
        let r = self.rank as int;
        vstd::arithmetic::div_mod::lemma_fundamental_div_mod(n, w);
        assert(n == p * w) by (nonlinear_arith)
            requires
                n == w * (n / w) + n % w,
                n % w == 0,
                p == n / w,
        ;
        assert(p > 0) by (nonlinear_arith)
            requires
                n == p * w,
                n > 0,
                w > 0,
        ;
        assert(r * p + p <= n) by (nonlinear_arith)
            requires
                n == p * w,
                0 <= r < w,
                p > 0,
        {
            assert((r + 1) * p <= w * p);
        }
        assert(r * p >= 0) by (nonlinear_arith)
            requires
                r >= 0,
                p > 0,
        ;
    }

    /// Owning expert `e` means lying in `[range_start, range_start + experts_per_rank)`.
    pub proof fn lemma_owns_iff_in_range(&self, e: int)
        requires
            self.wf(),
        ensures
            expert_owned(e, self.num_experts, self.experts_per_rank, self.rank) <==> ((self.rank * self.experts_per_rank) <= e < (self.rank * self.experts_per_rank)
                + self.experts_per_rank),
    {
        self.lemma_layout();
        if e >= 0 {
            lemma_div_block(e, self.experts_per_rank as int, self.rank as int);
        }
    }

    /// Builds the layout of `rank` in a group of `world_size` ranks sharing
    /// `num_experts` experts.
    pub fn new(rank: usize, world_size: usize, num_experts: usize) -> (r: Result<
        Self,
        ExpertStateError,
    >)
        ensures
            match layout_error(rank, world_size, num_experts) {
                Some(e) => r == Err::<Self, ExpertStateError>(e),
                None => r matches Ok(g) && g.wf() && g.rank == rank && g.world_size == world_size
                    && g.num_experts == num_experts && g.experts_per_rank == num_experts
                    / world_size,
            },
    {
        if world_size == 0 {
            return Err(ExpertStateError::ZeroWorldSize);
        }
        if rank >= world_size {
            return Err(ExpertStateError::RankOutOfRange { rank, world_size });
        }
        if num_experts == 0 {
            return Err(ExpertStateError::ZeroExperts);
        }
        if !num_experts.is_multiple_of(world_size) {
            return Err(ExpertStateError::ExpertsNotDivisible { num_experts, world_size });
        }
        let experts_per_rank = num_experts / world_size;
        proof {
            let n = num_experts as int;
            let w = world_size as int;
            vstd::arithmetic::div_mod::lemma_fundamental_div_mod(n, w);
            assert(experts_per_rank > 0) by (nonlinear_arith)
                requires
                    n == w * (n / w) + n % w,
                    n % w == 0,
                    experts_per_rank == n / w,
                    n > 0,
                    w > 0,
            ;
        }
        let mut expert_to_rank: Vec<usize> = Vec::with_capacity(num_experts);
        let mut expert_idx: usize = 0;
        while expert_idx < num_experts
            invariant
                expert_idx <= num_experts,
                experts_per_rank > 0,
                expert_to_rank@ == expert_rank_map(expert_idx as nat, experts_per_rank as nat),
            decreases num_experts - expert_idx,
        {
            expert_to_rank.push(expert_idx / experts_per_rank);
            expert_idx = expert_idx + 1;
            assert(expert_to_rank@ =~= expert_rank_map(
                expert_idx as nat,
                experts_per_rank as nat,
            ));
        }
        Ok(ExpertGroup { rank, world_size, num_experts, experts_per_rank, expert_to_rank })
    }

    /// Reads the group size and rank from the environment values in `env`
    /// (defaults: one rank, rank 0) and builds the layout.
    pub fn from_env(num_experts: usize, env: &ExpertParallelEnv) -> (r: Result<
        Self,
        ExpertStateError,
    >)
        ensures
            match env_usize_spec(ParallelEnvVar::EpSize, env.ep_size, env.ep_size_alias, 1) {
                Err(e) => r == Err::<Self, ExpertStateError>(e),
                Ok(world_size) => match env_usize_spec(
                    ParallelEnvVar::EpRank,
                    env.ep_rank,
                    env.ep_rank_alias,
                    0,
                ) {
                    Err(e) => r == Err::<Self, ExpertStateError>(e),
                    Ok(rank) => match layout_error(rank, world_size, num_experts) {
                        Some(e) => r == Err::<Self, ExpertStateError>(e),
                        None => r matches Ok(g) && g.wf() && g.rank == rank && g.world_size
                            == world_size && g.num_experts == num_experts,
                    },
                },
            },
    {
        let world_size = parse_parallel_env_usize(
            ParallelEnvVar::EpSize,
            &env.ep_size,
            &env.ep_size_alias,
            1,
        )?;
        let rank = parse_parallel_env_usize(
            ParallelEnvVar::EpRank,
            &env.ep_rank,
            &env.ep_rank_alias,
            0,
        )?;
        Self::new(rank, world_size, num_experts)
    }

    /// The rank owning global expert `expert_idx`, if the index is in range.
    pub fn rank_for_expert(&self, expert_idx: usize) -> (r: Option<usize>)
        requires
            self.wf(),
        ensures
            r == (if expert_idx < self.num_experts {
                Some((expert_idx / self.experts_per_rank) as usize)
            } else {
                None::<usize>
            }),
    {
        if expert_idx < self.expert_to_rank.len() {
            Some(self.expert_to_rank[expert_idx])
        } else {
            None
        }
    }

    /// Whether this rank owns global expert `expert_idx`.
    pub fn owns_expert(&self, expert_idx: usize) -> (r: bool)
        requires
            self.wf(),
        ensures
            r == expert_owned(expert_idx as int, self.num_experts, self.experts_per_rank, self.rank),
    {
        proof {
            self.lemma_layout();
            let e = expert_idx as int;
            let p = self.experts_per_rank as int;
            assert(e / p <= e) by (nonlinear_arith)
                requires
                    e >= 0,
                    p > 0,
            ;
        }
        match self.rank_for_expert(expert_idx) {
            Some(owner) => owner == self.rank,
            None => false,
        }
    }

    /// The global experts owned by this rank.
    pub fn local_expert_range(&self) -> (r: Range<usize>)
        requires
            self.wf(),
        ensures
            r.start == (self.rank * self.experts_per_rank),
            r.end == (self.rank * self.experts_per_rank) + self.experts_per_rank,
    {
        proof {
            self.lemma_layout();
        }
        let start = self.rank * self.experts_per_rank;
        start..start + self.experts_per_rank
    }

    /// The local index of a global expert owned by this rank.
    pub fn local_expert_idx(&self, expert_idx: usize) -> (r: Option<usize>)
        requires
            self.wf(),
        ensures
            r == (if expert_owned(expert_idx as int, self.num_experts, self.experts_per_rank, self.rank) {
                Some((expert_idx - (self.rank * self.experts_per_rank)) as usize)
            } else {
                None::<usize>
            }),
    {
        if !self.owns_expert(expert_idx) {
            return None;
        }
        proof {
            self.lemma_owns_iff_in_range(expert_idx as int);
        }
        Some(expert_idx - self.local_expert_range().start)
    }

    /// The global index of local expert `local_expert_idx` of this rank.
    pub fn global_expert_idx(&self, local_expert_idx: usize) -> (r: Option<usize>)
        requires
            self.wf(),
        ensures
            r == (if local_expert_idx < self.experts_per_rank {
                Some(((self.rank * self.experts_per_rank) + local_expert_idx) as usize)
            } else {
                None::<usize>
            }),
    {
        if local_expert_idx >= self.experts_per_rank {
            return None;
        }
        proof {
            self.lemma_layout();
        }
        Some(self.local_expert_range().start + local_expert_idx)
    }

    /// The rank of every global expert.
    pub fn expert_to_rank_map(&self) -> (r: &[usize])
        requires
            self.wf(),
        ensures
            r@ == expert_rank_map(self.num_experts as nat, self.experts_per_rank as nat),
    {
        self.expert_to_rank.as_slice()
    }

    /// Masks global expert ids to this rank: negative entries stay masked
    /// (`-1`), owned experts become their local index, other experts `-1`.
    /// A non-negative id at or beyond `num_experts` is refused.
    pub fn mask_indices_to_local(&self, indices: &[i64]) -> (r: Result<
        Vec<i64>,
        ExpertStateError,
    >)
        requires
            self.wf(),
        ensures
            match r {
                Ok(v) => (forall|i: int|
                    0 <= i < indices@.len() ==> index_error(#[trigger] indices@[i], self.num_experts)
                        is None) && v@ == indices@.map_values(
                    |x: i64| mask_one_spec(x, self.num_experts, self.experts_per_rank, self.rank),
                ),
                Err(e) => exists|j: int|
                    0 <= j < indices@.len() && index_error(#[trigger] indices@[j], self.num_experts)
                        == Some(e) && forall|k: int|
                        0 <= k < j ==> index_error(#[trigger] indices@[k], self.num_experts) is None,
            },
    {
        let mut out: Vec<i64> = Vec::with_capacity(indices.len());
        let mut i: usize = 0;
        while i < indices.len()
            invariant
                self.wf(),
                i <= indices.len(),
                forall|k: int| 0 <= k < i ==> index_error(#[trigger] indices@[k], self.num_experts) is None,
                out@ == indices@.subrange(0, i as int).map_values(
                    |x: i64| mask_one_spec(x, self.num_experts, self.experts_per_rank, self.rank),
                ),
            decreases indices.len() - i,
        {
            let expert_idx = indices[i];
            let masked: i64;
            if expert_idx < 0 {
                masked = -1;
            } else {
                if expert_idx as u64 > usize::MAX as u64 {
                    assert(index_error(indices@[i as int], self.num_experts) == Some(
                        ExpertStateError::IndexDoesNotFitUsize { expert_idx },
                    ));
                    return Err(ExpertStateError::IndexDoesNotFitUsize { expert_idx });
                }
                let e = expert_idx as usize;
                if e >= self.num_experts {
                    assert(index_error(indices@[i as int], self.num_experts) == Some(
                        ExpertStateError::ExpertIndexOutOfRange {
                            expert_idx: e,
                            num_experts: self.num_experts,
                        },
                    ));
                    return Err(
                        ExpertStateError::ExpertIndexOutOfRange {
                            expert_idx: e,
                            num_experts: self.num_experts,
                        },
                    );
                }
                proof {
                    self.lemma_layout();
                }
                let lo = self.local_expert_idx(e);
                assert(e as int == expert_idx as int);
                masked = match lo {
                    Some(local) => {
                        proof {
                            self.lemma_owns_iff_in_range(e as int);
                        }
                        assert(local as int == expert_idx as int - self.rank * self.experts_per_rank);
                        assert(local as int <= expert_idx as int);
                        local as i64
                    },
                    None => -1,
                };
                assert(masked == mask_one_spec(
                    expert_idx,
                    self.num_experts,
                    self.experts_per_rank,
                    self.rank,
                ));
            }
            out.push(masked);
            i = i + 1;
            assert(out@ =~= indices@.subrange(0, i as int).map_values(
                |x: i64| mask_one_spec(x, self.num_experts, self.experts_per_rank, self.rank),
            ));
        }
        assert(indices@.subrange(0, indices@.len() as int) =~= indices@);
        Ok(out)
    }

    /// The routes of `routing` that land on this rank, with their local
    /// expert index. The routing must span the same experts as the group and
    /// name only experts in range.
    pub fn localize_routing<W: Copy>(&self, routing: &ExpertRoutingWeights<W>) -> (r: Result<
        LocalExpertRouting<W>,
        ExpertStateError,
    >)
        requires
            self.wf(),
        ensures
            routing.num_experts != self.num_experts ==> r == Err::<
                LocalExpertRouting<W>,
                ExpertStateError,
            >(
                ExpertStateError::RoutingExpertsMismatch {
                    routing_num_experts: routing.num_experts,
                    group_num_experts: self.num_experts,
                },
            ),
            routing.num_experts == self.num_experts ==> match r {
                Ok(l) => (forall|i: int|
                    0 <= i < routing.routes@.len() ==> (#[trigger] routing.routes@[i]).expert_idx
                        < self.num_experts) && l.num_global_experts == self.num_experts
                    && l.experts_per_rank == self.experts_per_rank && l.routes@ == local_routes(
                    routing.routes@, self.num_experts, self.experts_per_rank, self.rank,
                ),
                Err(e) => exists|j: int|
                    0 <= j < routing.routes@.len() && (#[trigger] routing.routes@[j]).expert_idx
                        >= self.num_experts && e == (ExpertStateError::RouteExpertOutOfRange {
                        expert_idx: routing.routes@[j].expert_idx,
                        num_experts: self.num_experts,
                    }) && forall|k: int|
                        0 <= k < j ==> (#[trigger] routing.routes@[k]).expert_idx
                            < self.num_experts,
            },
    {
        if routing.num_experts != self.num_experts {
            return Err(
                ExpertStateError::RoutingExpertsMismatch {
                    routing_num_experts: routing.num_experts,
                    group_num_experts: self.num_experts,
                },
            );
        }
        let mut routes: Vec<LocalExpertRoute<W>> = Vec::new();
        let mut i: usize = 0;
        while i < routing.routes.len()
            invariant
                self.wf(),
                routing.num_experts == self.num_experts,
                i <= routing.routes.len(),
                forall|k: int|
                    0 <= k < i ==> (#[trigger] routing.routes@[k]).expert_idx < self.num_experts,
                routes@ == local_routes(routing.routes@.subrange(0, i as int), self.num_experts, self.experts_per_rank, self.rank),
            decreases routing.routes.len() - i,
        {
            let route = &routing.routes[i];
            if route.expert_idx >= self.num_experts {
                return Err(
                    ExpertStateError::RouteExpertOutOfRange {
                        expert_idx: route.expert_idx,
                        num_experts: self.num_experts,
                    },
                );
            }
            let ghost prefix = routing.routes@.subrange(0, i as int);
            let ghost next = routing.routes@.subrange(0, i + 1);
            assert(next.drop_last() =~= prefix);
            match self.local_expert_idx(route.expert_idx) {
                Some(local_expert_idx) => {
                    routes.push(
                        LocalExpertRoute {
                            token_idx: route.token_idx,
                            global_expert_idx: route.expert_idx,
                            local_expert_idx,
                            weight: route.weight,
                        },
                    );
                },
                None => {},
            }
            i = i + 1;
        }
        assert(routing.routes@.subrange(0, routing.routes@.len() as int) =~= routing.routes@);
        Ok(
            LocalExpertRouting {
                num_global_experts: self.num_experts,
                experts_per_rank: self.experts_per_rank,
                routes,
            },
        )
    }

}

/// The local form of each route whose expert `rank` owns, in order.
pub open spec fn local_routes<W>(
    routes: Seq<ExpertRoute<W>>,
    num_experts: usize,
    per_rank: usize,
    rank: usize,
) -> Seq<LocalExpertRoute<W>>
    decreases routes.len(),
{
    if routes.len() == 0 {
        Seq::empty()
    } else {
        let rest = local_routes(routes.drop_last(), num_experts, per_rank, rank);
        let last = routes.last();
        if expert_owned(last.expert_idx as int, num_experts, per_rank, rank) {
            rest.push(
                LocalExpertRoute {
                    token_idx: last.token_idx,
                    global_expert_idx: last.expert_idx,
                    local_expert_idx: (last.expert_idx - rank * per_rank) as usize,
                    weight: last.weight,
                },
            )
        } else {
            rest
        }
    }
}

/// The layout check of the TileKernels TP mask, in order of the checks.
pub open spec fn tp_layout_error(
    num_experts: usize,
    num_ep_ranks: usize,
    tp_rank: usize,
    num_tp_ranks: usize,
) -> Option<ExpertStateError> {
    if num_experts == 0 {
        Some(ExpertStateError::ZeroExperts)
    } else if num_ep_ranks == 0 {
        Some(ExpertStateError::ZeroEpRanks)
    } else if num_tp_ranks == 0 {
        Some(ExpertStateError::ZeroTpRanks)
    } else if tp_rank >= num_tp_ranks {
        Some(ExpertStateError::TpRankOutOfRange { tp_rank, num_tp_ranks })
    } else if num_experts % num_ep_ranks != 0 {
        Some(ExpertStateError::ExpertsNotDivisibleByEpRanks { num_experts, num_ep_ranks })
    } else {
        None
    }
}

/// The TP mask of one expert id: experts are grouped by GPU in blocks of
/// `per_gpu`; a TP rank keeps the GPUs `g` with `g % num_tp == tp_rank` and
/// numbers their experts consecutively, block `g / num_tp` after block.
pub open spec fn tp_mask_one_spec(idx: i64, per_gpu: int, num_tp: int, tp_rank: int) -> i64 {
    let e = idx as int;
    if e < 0 {
        -1i64
    } else if (e / per_gpu) % num_tp != tp_rank {
        -1i64
    } else {
        ((e / per_gpu) / num_tp * per_gpu + e % per_gpu) as i64
    }
}

/// The formula of the kept branch equals the closed form, without saturation.
proof fn lemma_tp_compaction(e: int, p: int, t: int, tr: int)
    requires
        e >= 0,
        p > 0,
        t > 0,
        0 <= tr < t,
        (e / p) % t == tr,
    ensures
        e - tr * p >= 0,
        t * p >= p,
        ({
            let value = e - tr * p;
            let per_dp = t * p;
            let dp = value / per_dp;
            &&& dp * (per_dp - p) <= value
            &&& value - dp * (per_dp - p) == (e / p) / t * p + e % p
            &&& (e / p) / t * p + e % p <= e
        }),
{
    let g = e / p;
    let r = e % p;
    vstd::arithmetic::div_mod::lemma_fundamental_div_mod(e, p);
    vstd::arithmetic::div_mod::lemma_div_pos_is_pos(e, p);
    let k = g / t;
    vstd::arithmetic::div_mod::lemma_fundamental_div_mod(g, t);
    vstd::arithmetic::div_mod::lemma_div_pos_is_pos(g, t);
    assert(0 <= r < p);
    assert(e == g * p + r) by (nonlinear_arith)
        requires
            e == p * g + r,
    ;
    assert(g == k * t + tr) by (nonlinear_arith)
        requires
            g == t * k + g % t,
            g % t == tr,
    ;
    let value = e - tr * p;
    assert(value == k * (t * p) + r) by (nonlinear_arith)
        requires
            e == g * p + r,
            g == k * t + tr,
            value == e - tr * p,
    ;
    assert(t * p > 0) by (nonlinear_arith)
        requires
            t > 0,
            p > 0,
    ;
    assert(t * p >= p) by (nonlinear_arith)
        requires
            t >= 1,
            p > 0,
    ;
    assert(r < t * p) by (nonlinear_arith)
        requires
            r < p,
            t >= 1,
            p > 0,
    ;
    lemma_div_mod_of_parts(k, t * p, r);
    assert(k >= 0);
    assert(k * (t * p - p) <= value) by (nonlinear_arith)
        requires
            value == k * (t * p) + r,
            k >= 0,
            p > 0,
            r >= 0,
    ;
    assert(value - k * (t * p - p) == k * p + r) by (nonlinear_arith)
        requires
            value == k * (t * p) + r,
    ;
    assert(k * p + r <= e) by (nonlinear_arith)
        requires
            e == g * p + r,
            g == k * t + tr,
            k >= 0,
            t >= 1,
            tr >= 0,
            p > 0,
    ;
    assert(e - tr * p >= 0) by (nonlinear_arith)
        requires
            value == k * (t * p) + r,
            value == e - tr * p,
            k >= 0,
            t > 0,
            p > 0,
            r >= 0,
    ;
}

/// Host reference of DeepSeek TileKernels' `mask_indices_by_tp` formula: keep
/// only experts assigned to `tp_rank`, compacting global expert ids by
/// removing the gaps left by other TP ranks.
pub fn tilekernels_mask_indices_by_tp_layout(
    indices: &[i64],
    num_experts: usize,
    num_ep_ranks: usize,
    tp_rank: usize,
    num_tp_ranks: usize,
) -> (r: Result<Vec<i64>, ExpertStateError>)
    requires
        tp_layout_error(num_experts, num_ep_ranks, tp_rank, num_tp_ranks) is None ==> num_tp_ranks
            * (num_experts / num_ep_ranks) <= usize::MAX,
    ensures
        match tp_layout_error(num_experts, num_ep_ranks, tp_rank, num_tp_ranks) {
            Some(e) => r == Err::<Vec<i64>, ExpertStateError>(e),
            None => match r {
                Ok(v) => (forall|i: int|
                    0 <= i < indices@.len() ==> index_error(#[trigger] indices@[i], num_experts)
                        is None) && v@ == indices@.map_values(
                    |x: i64|
                        tp_mask_one_spec(
                            x,
                            (num_experts / num_ep_ranks) as int,
                            num_tp_ranks as int,
                            tp_rank as int,
                        ),
                ),
                Err(e) => exists|j: int|
                    0 <= j < indices@.len() && index_error(#[trigger] indices@[j], num_experts)
                        == Some(e) && forall|k: int|
                        0 <= k < j ==> index_error(#[trigger] indices@[k], num_experts) is None,
            },
        },
{
    if num_experts == 0 {
        return Err(ExpertStateError::ZeroExperts);
    }
    if num_ep_ranks == 0 {
        return Err(ExpertStateError::ZeroEpRanks);
    }
    if num_tp_ranks == 0 {
        return Err(ExpertStateError::ZeroTpRanks);
    }
    if tp_rank >= num_tp_ranks {
        return Err(ExpertStateError::TpRankOutOfRange { tp_rank, num_tp_ranks });
    }
    if !num_experts.is_multiple_of(num_ep_ranks) {
        return Err(ExpertStateError::ExpertsNotDivisibleByEpRanks { num_experts, num_ep_ranks });
    }
    let per_gpu = num_experts / num_ep_ranks;
    proof {
        let n = num_experts as int;
        let w = num_ep_ranks as int;
        vstd::arithmetic::div_mod::lemma_fundamental_div_mod(n, w);
        assert(per_gpu > 0) by (nonlinear_arith)
            requires
                n == w * (n / w) + n % w,
                n % w == 0,
                per_gpu == n / w,
                n > 0,
                w > 0,
        ;
    }
    let per_dp = num_tp_ranks * per_gpu;
    let ghost spec_fn = |x: i64|
        tp_mask_one_spec(x, per_gpu as int, num_tp_ranks as int, tp_rank as int);
    let mut out: Vec<i64> = Vec::with_capacity(indices.len());
    let mut i: usize = 0;
    while i < indices.len()
        invariant
            i <= indices.len(),
            per_gpu > 0,
            per_gpu == num_experts / num_ep_ranks,
            per_dp == num_tp_ranks * per_gpu,
            0 <= tp_rank < num_tp_ranks,
            spec_fn == (|x: i64|
                tp_mask_one_spec(x, per_gpu as int, num_tp_ranks as int, tp_rank as int)),
            tp_layout_error(num_experts, num_ep_ranks, tp_rank, num_tp_ranks) is None,
            forall|k: int| 0 <= k < i ==> index_error(#[trigger] indices@[k], num_experts) is None,
            out@ == indices@.subrange(0, i as int).map_values(spec_fn),
        decreases indices.len() - i,
    {
        let expert_idx = indices[i];
        let masked: i64;
        if expert_idx < 0 {
            masked = -1;
        } else {
            if expert_idx as u64 > usize::MAX as u64 {
                assert(index_error(indices@[i as int], num_experts) == Some(
                    ExpertStateError::IndexDoesNotFitUsize { expert_idx },
                ));
                assert(tp_layout_error(num_experts, num_ep_ranks, tp_rank, num_tp_ranks) is None);
                return Err(ExpertStateError::IndexDoesNotFitUsize { expert_idx });
            }
            let e = expert_idx as usize;
            if e >= num_experts {
                assert(index_error(indices@[i as int], num_experts) == Some(
                    ExpertStateError::ExpertIndexOutOfRange { expert_idx: e, num_experts },
                ));
                assert(tp_layout_error(num_experts, num_ep_ranks, tp_rank, num_tp_ranks) is None);
                return Err(ExpertStateError::ExpertIndexOutOfRange { expert_idx: e, num_experts });
            }
            if (e / per_gpu) % num_tp_ranks != tp_rank {
                masked = -1;
            } else {
                proof {
                    lemma_tp_compaction(e as int, per_gpu as int, num_tp_ranks as int, tp_rank as int);
                }
                let value = e - tp_rank * per_gpu;
                let dp_rank = value / per_dp;
                let local = value.saturating_sub(dp_rank * (per_dp - per_gpu));
                masked = local as i64;
            }
        }
        out.push(masked);
        i = i + 1;
        assert(out@ =~= indices@.subrange(0, i as int).map_values(spec_fn));
    }
    assert(indices@.subrange(0, indices@.len() as int) =~= indices@);
    Ok(out)
}

/// Every expert of a valid layout has exactly one owner: the rank
/// `e / experts_per_rank`, which is a rank of the group.
pub proof fn lemma_each_expert_has_one_owner(world_size: usize, num_experts: usize, e: int, r: usize)
    requires
        layout_error(0, world_size, num_experts) is None,
        0 <= e < num_experts,
    ensures
        e / ((num_experts / world_size) as int) < world_size,
        expert_owned(e, num_experts, num_experts / world_size, r) <==> r == e / ((num_experts
            / world_size) as int),
{
    let n = num_experts as int;
    let w = world_size as int;
    let p = n / w;
    vstd::arithmetic::div_mod::lemma_fundamental_div_mod(n, w);
    assert(n == p * w) by (nonlinear_arith)
        requires
            n == w * (n / w) + n % w,
            n % w == 0,
            p == n / w,
    ;
    assert(p > 0) by (nonlinear_arith)
        requires
            n == p * w,
            n > 0,
            w > 0,
    ;
    assert(e / p < w) by {
        if e / p >= w {
            lemma_div_block(e, p, e / p);
            lemma_mul_le(w, e / p, p);
        }
    }
}

/// The local index of an owned expert maps back to it, and every local
/// index names an owned expert: `global_expert_idx` and `local_expert_idx`
/// are inverse bijections between `[0, experts_per_rank)` and the rank's
/// experts.
pub proof fn lemma_local_global_inverse(g: &ExpertGroup, e: int, l: int)
    requires
        g.wf(),
    ensures
        expert_owned(e, g.num_experts, g.experts_per_rank, g.rank) ==> 0 <= e - g.rank
            * g.experts_per_rank < g.experts_per_rank,
        0 <= l < g.experts_per_rank ==> expert_owned(
            g.rank * g.experts_per_rank + l,
            g.num_experts,
            g.experts_per_rank,
            g.rank,
        ),
{
    g.lemma_owns_iff_in_range(e);
    g.lemma_owns_iff_in_range(g.rank * g.experts_per_rank + l);
}

/// The ranks of a valid group own disjoint blocks: no expert is owned by two
/// different ranks.
pub proof fn lemma_ranks_own_disjoint_experts(
    num_experts: usize,
    per_rank: usize,
    r1: usize,
    r2: usize,
    e: int,
)
    requires
        r1 != r2,
    ensures
        !(expert_owned(e, num_experts, per_rank, r1) && expert_owned(e, num_experts, per_rank, r2)),
{
}

/// With a single TP rank the TileKernels mask keeps every in-range expert id
/// unchanged and masks only negative ids.
pub proof fn lemma_tp_mask_single_rank_is_identity(idx: i64, per_gpu: int)
    requires
        per_gpu > 0,
    ensures
        tp_mask_one_spec(idx, per_gpu, 1, 0) == (if idx < 0 {
            -1i64
        } else {
            idx
        }),
{
    let e = idx as int;
    if e >= 0 {
        vstd::arithmetic::div_mod::lemma_fundamental_div_mod(e, per_gpu);
        assert((e / per_gpu) % 1 == 0);
        assert((e / per_gpu) / 1 == e / per_gpu);
        assert((e / per_gpu) * per_gpu + e % per_gpu == e) by (nonlinear_arith)
            requires
                e == per_gpu * (e / per_gpu) + e % per_gpu,
        ;
    }
}

/// The TileKernels mask sends distinct experts kept by a TP rank to distinct
/// compact ids, each no larger than the global id.
pub proof fn lemma_tp_mask_injective(a: i64, b: i64, per_gpu: int, num_tp: int, tp_rank: int)
    requires
        per_gpu > 0,
        num_tp > 0,
        0 <= tp_rank < num_tp,
        a >= 0,
        b >= 0,
        a != b,
        tp_mask_one_spec(a, per_gpu, num_tp, tp_rank) != -1,
        tp_mask_one_spec(b, per_gpu, num_tp, tp_rank) != -1,
    ensures
        tp_mask_one_spec(a, per_gpu, num_tp, tp_rank) != tp_mask_one_spec(
            b,
            per_gpu,
            num_tp,
            tp_rank,
        ),
        0 <= tp_mask_one_spec(a, per_gpu, num_tp, tp_rank) <= a,
{
    let (x, y) = (a as int, b as int);
    let p = per_gpu;
    let t = num_tp;
    vstd::arithmetic::div_mod::lemma_fundamental_div_mod(x, p);
    vstd::arithmetic::div_mod::lemma_fundamental_div_mod(y, p);
    vstd::arithmetic::div_mod::lemma_div_pos_is_pos(x, p);
    vstd::arithmetic::div_mod::lemma_div_pos_is_pos(y, p);
    let gx = x / p;
    let gy = y / p;
    vstd::arithmetic::div_mod::lemma_fundamental_div_mod(gx, t);
    vstd::arithmetic::div_mod::lemma_fundamental_div_mod(gy, t);
    vstd::arithmetic::div_mod::lemma_div_pos_is_pos(gx, t);
    vstd::arithmetic::div_mod::lemma_div_pos_is_pos(gy, t);
    assert((x / p) % t == tp_rank);
    assert((y / p) % t == tp_rank);
    lemma_tp_compaction(x, p, t, tp_rank);
    lemma_tp_compaction(y, p, t, tp_rank);
    let lx = (gx / t) * p + x % p;
    let ly = (gy / t) * p + y % p;
    if lx == ly {
        lemma_div_mod_of_parts(gx / t, p, x % p);
        lemma_div_mod_of_parts(gy / t, p, y % p);
        assert(gx / t == gy / t);
        assert(x % p == y % p);
        assert(gx == gy) by (nonlinear_arith)
            requires
                gx == t * (gx / t) + gx % t,
                gy == t * (gy / t) + gy % t,
                gx % t == gy % t,
                gx / t == gy / t,
        ;
        assert(x == y) by (nonlinear_arith)
            requires
                x == p * gx + x % p,
                y == p * gy + y % p,
                gx == gy,
                x % p == y % p,
        ;
    }
    assert(lx >= 0 && ly >= 0) by (nonlinear_arith)
        requires
            gx / t >= 0,
            gy / t >= 0,
            p > 0,
            x % p >= 0,
            y % p >= 0,
            lx == (gx / t) * p + x % p,
            ly == (gy / t) * p + y % p,
    ;
    assert(lx <= x && ly <= y);
}

/// The TileKernels mask keeps the order of the experts a TP rank keeps: a
/// smaller global id gets a smaller compact id.
pub proof fn lemma_tp_mask_monotone(a: i64, b: i64, per_gpu: int, num_tp: int, tp_rank: int)
    requires
        per_gpu > 0,
        num_tp > 0,
        0 <= tp_rank < num_tp,
        0 <= a < b,
        tp_mask_one_spec(a, per_gpu, num_tp, tp_rank) != -1,
        tp_mask_one_spec(b, per_gpu, num_tp, tp_rank) != -1,
    ensures
        tp_mask_one_spec(a, per_gpu, num_tp, tp_rank) < tp_mask_one_spec(b, per_gpu, num_tp, tp_rank),
{
    let (x, y) = (a as int, b as int);
    let p = per_gpu;
    let t = num_tp;
    lemma_tp_mask_injective(a, b, p, t, tp_rank);
    lemma_tp_mask_injective(b, a, p, t, tp_rank);
    vstd::arithmetic::div_mod::lemma_fundamental_div_mod(x, p);
    vstd::arithmetic::div_mod::lemma_fundamental_div_mod(y, p);
    vstd::arithmetic::div_mod::lemma_div_is_ordered(x, y, p);
    let gx = x / p;
    let gy = y / p;
    vstd::arithmetic::div_mod::lemma_div_pos_is_pos(x, p);
    vstd::arithmetic::div_mod::lemma_fundamental_div_mod(gx, t);
    vstd::arithmetic::div_mod::lemma_fundamental_div_mod(gy, t);
    vstd::arithmetic::div_mod::lemma_div_is_ordered(gx, gy, t);
    let qx = gx / t;
    let qy = gy / t;
    let mx = x % p;
    let my = y % p;
    assert(gx % t == tp_rank && gy % t == tp_rank);
    if gx == gy {
        assert(mx < my) by (nonlinear_arith)
            requires
                x == p * gx + mx,
                y == p * gy + my,
                gx == gy,
                x < y,
        ;
        assert(qx * p + mx < qy * p + my);
    } else {
        assert(qx < qy) by (nonlinear_arith)
            requires
                gx == t * qx + tp_rank,
                gy == t * qy + tp_rank,
                gx < gy,
                t > 0,
        ;
        assert(qx * p + mx < qy * p + my) by (nonlinear_arith)
            requires
                qx < qy,
                0 <= mx < p,
                0 <= my,
                p > 0,
        ;
    }
    lemma_tp_compaction(x, p, t, tp_rank);
    lemma_tp_compaction(y, p, t, tp_rank);
}

} // verus!
