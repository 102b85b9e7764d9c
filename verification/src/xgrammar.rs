//! Grammar-constrained decoding handles over the `mlc-ai/xgrammar` matcher.
//!
//! This is the scaffold build: the native C++ backend is not compiled in, so
//! every operation that would reach it reports [`XGrammarError::Unavailable`]
//! after the argument checks that precede the native call.

use std::sync::Arc;
use vstd::prelude::*;

verus! {

/// Why a grammar operation failed.
#[derive(Clone, Debug, PartialEq, Eq)]
pub enum XGrammarError {
    /// The native backend is not compiled into this build.
    Unavailable,
    /// An input string holds a NUL byte at `position`.
    InteriorNul { position: usize },
    /// The native library reported an error.
    Ffi(String),
    /// The native library returned a null handle for the named object.
    NullHandle(String),
    /// A token bitmask buffer shorter than the vocabulary needs.
    BitmaskTooSmall { got: usize, need: usize },
    /// A vocabulary larger than `i32::MAX` tokens.
    VocabTooLarge(usize),
}

/// How the tokenizer encodes raw bytes in its vocabulary.
#[derive(Clone, Copy, Debug, PartialEq, Eq)]
pub enum VocabType {
    Raw,
    ByteFallback,
    ByteLevel,
}

impl VocabType {
    /// The code the native matcher uses for this vocabulary type.
    pub fn code(self) -> (r: i32)
        ensures
            r == match self {
                VocabType::Raw => 0i32,
                VocabType::ByteFallback => 1i32,
                VocabType::ByteLevel => 2i32,
            },
    {
        match self {
            VocabType::Raw => 0,
            VocabType::ByteFallback => 1,
            VocabType::ByteLevel => 2,
        }
    }
}

/// Settings of a grammar compiler.
#[derive(Clone, Debug)]
pub struct CompilerConfig {
    pub vocab_type: VocabType,
    pub vocab_size: Option<usize>,
    pub stop_token_ids: Vec<i32>,
    pub add_prefix_space: bool,
    pub max_threads: i32,
    pub cache_enabled: bool,
    pub max_memory_bytes: i64,
}

impl Default for CompilerConfig {
    fn default() -> (r: Self)
        ensures
            r.vocab_type == VocabType::Raw,
            r.vocab_size is None,
            r.stop_token_ids@.len() == 0,
            !r.add_prefix_space,
            r.max_threads == 8,
            r.cache_enabled,
            r.max_memory_bytes == -1,
    {
        CompilerConfig {
            vocab_type: VocabType::Raw,
            vocab_size: None,
            stop_token_ids: Vec::new(),
            add_prefix_space: false,
            max_threads: 8,
            cache_enabled: true,
            max_memory_bytes: -1,
        }
    }
}

/// Settings of a grammar matcher.
#[derive(Clone, Debug)]
pub struct MatcherConfig {
    pub override_stop_tokens: Vec<i32>,
    pub terminate_without_stop_token: bool,
    pub max_rollback_tokens: i32,
}

impl Default for MatcherConfig {
    fn default() -> (r: Self)
        ensures
            r.override_stop_tokens@.len() == 0,
            !r.terminate_without_stop_token,
            r.max_rollback_tokens == -1,
    {
        MatcherConfig {
            override_stop_tokens: Vec::new(),
            terminate_without_stop_token: false,
            max_rollback_tokens: -1,
        }
    }
}

/// Name of the compiled-in backend.
pub fn compiled_backend_version() -> (r: &'static str)
    ensures
        r@ == "stub"@,
{
    "stub"
}

/// Number of 32-bit words of a token bitmask for `vocab_size` tokens.
pub open spec fn bitmask_words(vocab_size: nat) -> nat {
    (vocab_size + 31) / 32
}

/// Size in `u32` words of the next-token bitmask for a vocabulary: one bit
/// per token, rounded up to whole words. Vocabularies beyond `i32::MAX`
/// tokens are refused.
pub fn bitmask_size(vocab_size: usize) -> (r: Result<usize, XGrammarError>)
    ensures
        vocab_size > i32::MAX ==> r == Err::<usize, XGrammarError>(
            XGrammarError::VocabTooLarge(vocab_size),
        ),
        vocab_size <= i32::MAX ==> r == Ok::<usize, XGrammarError>(
            bitmask_words(vocab_size as nat) as usize,
        ),
{
    if vocab_size > 2147483647 {
        return Err(XGrammarError::VocabTooLarge(vocab_size));
    }
    Ok((vocab_size + 31) / 32)
}

/// One bit per token: `32 * words` covers the vocabulary and one word less
/// would not.
pub proof fn lemma_bitmask_words_tight(vocab_size: nat)
    ensures
        bitmask_words(vocab_size) * 32 >= vocab_size,
        bitmask_words(vocab_size) > 0 ==> (bitmask_words(vocab_size) - 1) * 32 < vocab_size,
{
    let w = bitmask_words(vocab_size) as int;
    let v = vocab_size as int;
    vstd::arithmetic::div_mod::lemma_fundamental_div_mod(v + 31, 32);
    assert(w * 32 >= v) by (nonlinear_arith)
        requires
            v + 31 == 32 * w + (v + 31) % 32,
            0 <= (v + 31) % 32 < 32,
    ;
    if w > 0 {
        assert((w - 1) * 32 < v) by (nonlinear_arith)
            requires
                v + 31 == 32 * w + (v + 31) % 32,
                0 <= (v + 31) % 32 < 32,
        ;
    }
}

/// Compiles grammars for one tokenizer vocabulary.
#[derive(Debug)]
pub struct GrammarCompiler {
    vocab_size: usize,
}

impl GrammarCompiler {
    /// The vocabulary size grammars are compiled for.
    pub closed spec fn vocab(&self) -> usize {
        self.vocab_size
    }

    /// A compiler for `encoded_vocab`; needs the native backend.
    pub fn new<S>(encoded_vocab: &[S], config: CompilerConfig) -> (r: Result<Self, XGrammarError>)
        ensures
            r == Err::<Self, XGrammarError>(XGrammarError::Unavailable),
    {
        Err(XGrammarError::Unavailable)
    }

    pub fn vocab_size(&self) -> (r: usize)
        ensures
            r == self.vocab(),
    {
        self.vocab_size
    }

    /// Compiles a JSON schema into a grammar; needs the native backend.
    pub fn compile_json_schema(&mut self, schema: &str, strict_mode: bool) -> (r: Result<
        CompiledGrammar,
        XGrammarError,
    >)
        ensures
            r == Err::<CompiledGrammar, XGrammarError>(XGrammarError::Unavailable),
            final(self).vocab() == old(self).vocab(),
    {
        Err(XGrammarError::Unavailable)
    }

    /// Compiles an EBNF grammar rooted at `root_rule_name`; needs the native
    /// backend.
    pub fn compile_ebnf(&mut self, grammar: &str, root_rule_name: &str) -> (r: Result<
        CompiledGrammar,
        XGrammarError,
    >)
        ensures
            r == Err::<CompiledGrammar, XGrammarError>(XGrammarError::Unavailable),
            final(self).vocab() == old(self).vocab(),
    {
        Err(XGrammarError::Unavailable)
    }
}

/// A grammar compiled for a vocabulary.
#[derive(Debug)]
pub struct CompiledGrammar {
    vocab_size: usize,
}

impl CompiledGrammar {
    /// The vocabulary size the grammar was compiled for.
    pub closed spec fn vocab(&self) -> usize {
        self.vocab_size
    }

    pub fn vocab_size(&self) -> (r: usize)
        ensures
            r == self.vocab(),
    {
        self.vocab_size
    }
}

/// Token-by-token matcher of a compiled grammar.
#[derive(Debug)]
pub struct GrammarMatcher {
    grammar: Arc<CompiledGrammar>,
    vocab_size: usize,
}

impl GrammarMatcher {
    /// The vocabulary size of the matched grammar.
    pub closed spec fn vocab(&self) -> usize {
        self.vocab_size
    }

    /// The grammar being matched.
    pub closed spec fn grammar_spec(&self) -> Arc<CompiledGrammar> {
        self.grammar
    }

    /// A matcher over `grammar`; needs the native backend.
    pub fn new(grammar: Arc<CompiledGrammar>, config: MatcherConfig) -> (r: Result<
        Self,
        XGrammarError,
    >)
        ensures
            r == Err::<Self, XGrammarError>(XGrammarError::Unavailable),
    {
        Err(XGrammarError::Unavailable)
    }

    /// Fills the next-token bitmask. A buffer shorter than the vocabulary's
    /// bitmask is refused before the backend is reached.
    pub fn fill_next_token_bitmask(&mut self, bitmask: &mut [u32]) -> (r: Result<
        bool,
        XGrammarError,
    >)
        ensures
            final(self).vocab() == old(self).vocab(),
            final(self).grammar_spec() == old(self).grammar_spec(),
            final(bitmask)@ == old(bitmask)@,
            old(self).vocab() > i32::MAX ==> r == Err::<bool, XGrammarError>(
                XGrammarError::VocabTooLarge(old(self).vocab()),
            ),
            old(self).vocab() <= i32::MAX && old(bitmask)@.len() < bitmask_words(
                old(self).vocab() as nat,
            ) ==> r == Err::<bool, XGrammarError>(
                XGrammarError::BitmaskTooSmall {
                    got: old(bitmask)@.len() as usize,
                    need: bitmask_words(old(self).vocab() as nat) as usize,
                },
            ),
            old(self).vocab() <= i32::MAX && old(bitmask)@.len() >= bitmask_words(
                old(self).vocab() as nat,
            ) ==> r == Err::<bool, XGrammarError>(XGrammarError::Unavailable),
    {
        let need = bitmask_size(self.vocab_size)?;
        if bitmask.len() < need {
            return Err(XGrammarError::BitmaskTooSmall { got: bitmask.len(), need });
        }
        Err(XGrammarError::Unavailable)
    }

    /// Advances the matcher by one token; needs the native backend.
    pub fn accept_token(&mut self, token_id: u32) -> (r: Result<bool, XGrammarError>)
        ensures
            r == Err::<bool, XGrammarError>(XGrammarError::Unavailable),
            final(self).vocab() == old(self).vocab(),
            final(self).grammar_spec() == old(self).grammar_spec(),
    {
        Err(XGrammarError::Unavailable)
    }

    /// Whether the matcher has terminated; never without the backend.
    pub fn is_terminated(&self) -> (r: bool)
        ensures
            !r,
    {
        false
    }

    /// Whether the matched text is a complete sentence of the grammar; never
    /// without the backend.
    pub fn is_completed(&self) -> (r: bool)
        ensures
            !r,
    {
        false
    }

    pub fn grammar(&self) -> (r: &Arc<CompiledGrammar>)
        ensures
            *r == self.grammar_spec(),
    {
        &self.grammar
    }
}

} // verus!
