//! Feature negotiation: from a requested list such as
//! `module-linking,multi-memory` to the set of capabilities that the engine
//! is configured with.
//!
//! A request is a list of tokens separated by commas. Whitespace around a
//! token does not count. Each token must be a name of the feature table,
//! letter for letter; any other token, the empty one included, has the
//! whole request refused. Negotiation starts from what the validator
//! enables by itself and only ever switches capabilities on.

use crate::error::{ParseError, ParseErrorView};
use crate::text::{
    chars_of, find, first_index, lemma_first_index, lemma_first_index_is, same_text, split,
    trim_bounds, trimmed,
};
use vstd::prelude::*;
use vstd::string::StrSliceExecFns;

verus! {

/// A row of the feature table: a name that a request may hold.
#[derive(Clone, Copy, Debug, PartialEq, Eq, Structural)]
pub enum Feature {
    /// Every capability that the table names.
    All,
    /// The module-linking proposal, which brings multi-memory with it.
    ModuleLinking,
    /// The multi-memory proposal.
    MultiMemory,
}

impl Feature {
    /// The name by which a request asks for the feature.
    pub open spec fn spec_name(self) -> Seq<char> {
        match self {
            Feature::All => "all"@,
            Feature::ModuleLinking => "module-linking"@,
            Feature::MultiMemory => "multi-memory"@,
        }
    }

    /// The feature that `token` names, if it names one. The match is exact:
    /// case counts and nothing is trimmed.
    pub open spec fn named(token: Seq<char>) -> Option<Feature> {
        if token == Feature::All.spec_name() {
            Some(Feature::All)
        } else if token == Feature::ModuleLinking.spec_name() {
            Some(Feature::ModuleLinking)
        } else if token == Feature::MultiMemory.spec_name() {
            Some(Feature::MultiMemory)
        } else {
            None
        }
    }

    /// The three names differ, so each names its own feature.
    pub proof fn lemma_named_by_own_name(self)
        ensures
            Feature::named(self.spec_name()) == Some(self),
            self.spec_name().len() > 0,
    {
        reveal_strlit("all");
        reveal_strlit("module-linking");
        reveal_strlit("multi-memory");
    }

    /// The name by which a request asks for the feature.
    pub fn name(self) -> (text: &'static str)
        ensures
            text@ == self.spec_name(),
    {
        match self {
            Feature::All => "all",
            Feature::ModuleLinking => "module-linking",
            Feature::MultiMemory => "multi-memory",
        }
    }

    /// What the feature table says of the feature.
    pub fn description(self) -> (text: &'static str)
        ensures
            text@ == match self {
                Feature::All => "enable all supported WebAssembly features"@,
                Feature::ModuleLinking =>
                    "enable support for the module-linking proposal (experimental; implies multi-memory)"@,
                Feature::MultiMemory =>
                    "enable support for the multi-memory proposal (experimental)"@,
            },
    {
        match self {
            Feature::All => "enable all supported WebAssembly features",
            Feature::ModuleLinking =>
                "enable support for the module-linking proposal (experimental; implies multi-memory)",
            Feature::MultiMemory => "enable support for the multi-memory proposal (experimental)",
        }
    }

    /// Looks `token` up in the feature table.
    pub fn from_name(token: &str) -> (feature: Option<Feature>)
        ensures
            feature == Feature::named(token@),
    {
        if same_text(token, "all") {
            Some(Feature::All)
        } else if same_text(token, "module-linking") {
            Some(Feature::ModuleLinking)
        } else if same_text(token, "multi-memory") {
            Some(Feature::MultiMemory)
        } else {
            None
        }
    }
}

/// The validator's switches, one for each capability that it knows.
#[derive(Clone, Copy, Debug, PartialEq, Eq, Structural)]
pub struct Flags {
    /// The reference types proposal.
    pub reference_types: bool,
    /// The multi-value proposal.
    pub multi_value: bool,
    /// The bulk memory operations proposal.
    pub bulk_memory: bool,
    /// The module linking proposal.
    pub module_linking: bool,
    /// The SIMD proposal.
    pub simd: bool,
    /// The threads proposal.
    pub threads: bool,
    /// The tail-call proposal.
    pub tail_call: bool,
    /// Whether only deterministic instructions are allowed.
    pub deterministic_only: bool,
    /// The multi memory proposal.
    pub multi_memory: bool,
    /// The exception handling proposal.
    pub exceptions: bool,
    /// The memory64 proposal.
    pub memory64: bool,
}

impl Flags {
    /// Whether all that `feature` stands for is switched on.
    pub open spec fn has(self, feature: Feature) -> bool {
        match feature {
            Feature::All => self.module_linking && self.multi_memory,
            Feature::ModuleLinking => self.module_linking,
            Feature::MultiMemory => self.multi_memory,
        }
    }

    /// Module linking is on only together with multi-memory.
    pub open spec fn consistent(self) -> bool {
        self.module_linking ==> self.multi_memory
    }

    /// The switches after `feature` is asked for. Module linking switches
    /// multi-memory on with it; `All` switches both on.
    pub open spec fn with(self, feature: Feature) -> Flags {
        match feature {
            Feature::All | Feature::ModuleLinking => Flags {
                module_linking: true,
                multi_memory: true,
                ..self
            },
            Feature::MultiMemory => Flags { multi_memory: true, ..self },
        }
    }
}

/// What the validator enables when nothing is asked for: reference types,
/// multi-value and bulk memory, and nothing else.
pub open spec fn baseline() -> Flags {
    Flags {
        reference_types: true,
        multi_value: true,
        bulk_memory: true,
        module_linking: false,
        simd: false,
        threads: false,
        tail_call: false,
        deterministic_only: false,
        multi_memory: false,
        exceptions: false,
        memory64: false,
    }
}

/// `wasmparser::WasmFeatures::default()`, switch by switch. Its source sets
/// reference types, multi-value and bulk memory and clears the rest;
/// `deterministic_only` follows the crate's `deterministic` feature, which
/// is off as this crate builds it.
#[verifier::external_body]
fn validator_defaults() -> (flags: Flags)
    ensures
        flags == baseline(),
{
    let w = wasmparser::WasmFeatures::default();
    Flags {
        reference_types: w.reference_types,
        multi_value: w.multi_value,
        bulk_memory: w.bulk_memory,
        module_linking: w.module_linking,
        simd: w.simd,
        threads: w.threads,
        tail_call: w.tail_call,
        deterministic_only: w.deterministic_only,
        multi_memory: w.multi_memory,
        exceptions: w.exceptions,
        memory64: w.memory64,
    }
}

/// The tokens of a request: its pieces between commas, each trimmed.
pub open spec fn tokens(s: Seq<char>) -> Seq<Seq<char>> {
    let pieces = split(s, ',');
    Seq::new(pieces.len(), |i: int| trimmed(pieces[i]))
}

/// Whether one of `tokens` names `feature`.
pub open spec fn asks(tokens: Seq<Seq<char>>, feature: Feature) -> bool {
    exists|i: int| 0 <= i < tokens.len() && Feature::named(#[trigger] tokens[i]) == Some(feature)
}

/// The position of the first of `tokens` that names no feature, or their
/// number where each names one.
pub open spec fn first_unknown(tokens: Seq<Seq<char>>) -> int {
    first_index(Seq::new(tokens.len(), |i: int| Feature::named(tokens[i]) is None), true)
}

/// `base` with what `tokens` ask for switched on: module linking where
/// `all` or `module-linking` is asked for, multi-memory where any of the
/// three names is. Every other switch is as in `base`.
pub open spec fn negotiated(base: Flags, tokens: Seq<Seq<char>>) -> Flags {
    Flags {
        module_linking: base.module_linking || asks(tokens, Feature::All) || asks(
            tokens,
            Feature::ModuleLinking,
        ),
        multi_memory: base.multi_memory || asks(tokens, Feature::All) || asks(
            tokens,
            Feature::ModuleLinking,
        ) || asks(tokens, Feature::MultiMemory),
        ..base
    }
}

/// What a list of tokens is granted: the baseline with all that they ask
/// for switched on, where each of them names a feature; else the first of
/// them that names none.
pub open spec fn granted(tokens: Seq<Seq<char>>) -> Result<Flags, Seq<char>> {
    let k = first_unknown(tokens);
    if 0 <= k < tokens.len() {
        Err(tokens[k])
    } else {
        Ok(negotiated(baseline(), tokens))
    }
}

/// What a request comes to: what its tokens are granted.
pub open spec fn negotiation(s: Seq<char>) -> Result<Flags, Seq<char>> {
    granted(tokens(s))
}

/// Negotiation switches on whatever is asked for, and with module linking
/// always multi-memory.
pub proof fn lemma_negotiated(base: Flags, tokens: Seq<Seq<char>>, feature: Feature)
    ensures
        asks(tokens, feature) ==> negotiated(base, tokens).has(feature),
        asks(tokens, Feature::All) ==> negotiated(base, tokens).has(Feature::ModuleLinking)
            && negotiated(base, tokens).has(Feature::MultiMemory),
        asks(tokens, Feature::ModuleLinking) ==> negotiated(base, tokens).has(Feature::MultiMemory),
        base.consistent() ==> negotiated(base, tokens).consistent(),
{
}

/// Tokens are refused exactly when one of them names no feature, and then
/// with the first such token. What is granted is consistent.
pub proof fn lemma_granted(tokens: Seq<Seq<char>>)
    ensures
        granted(tokens) is Err <==> exists|i: int|
            0 <= i < tokens.len() && Feature::named(#[trigger] tokens[i]) is None,
        granted(tokens) matches Err(t) ==> Feature::named(t) is None && t == tokens[first_unknown(
            tokens,
        )],
        granted(tokens) matches Ok(flags) ==> flags.consistent(),
{
    let unknown = Seq::new(tokens.len(), |i: int| Feature::named(tokens[i]) is None);
    lemma_first_index(unknown, true);
    let k = first_unknown(tokens);
    if k < tokens.len() {
        assert(unknown[k]);
        assert(Feature::named(tokens[k]) is None);
    } else {
        assert forall|i: int| 0 <= i < tokens.len() implies Feature::named(
            #[trigger] tokens[i],
        ) is Some by {
            assert(unknown[i] == (Feature::named(tokens[i]) is None));
            assert(unknown.contains(unknown[i]));
        }
    }
}

/// One more token that names a feature switches that feature on and leaves
/// the rest of the negotiation as it was.
proof fn lemma_negotiated_push(base: Flags, ts: Seq<Seq<char>>, t: Seq<char>, feature: Feature)
    requires
        Feature::named(t) == Some(feature),
    ensures
        negotiated(base, ts.push(t)) == negotiated(base, ts).with(feature),
{
    let more = ts.push(t);
    assert(more[ts.len() as int] == t);
    assert(asks(more, feature));
    assert forall|g: Feature| asks(ts, g) implies asks(more, g) by {
        let i = choose|i: int| 0 <= i < ts.len() && Feature::named(#[trigger] ts[i]) == Some(g);
        assert(more[i] == ts[i]);
    }
    assert forall|g: Feature| asks(more, g) && g != feature implies asks(ts, g) by {
        let i = choose|i: int| 0 <= i < more.len() && Feature::named(#[trigger] more[i]) == Some(g);
        assert(i < ts.len());
        assert(more[i] == ts[i]);
    }
}

/// The capabilities that the engine is configured with. A set is made by
/// negotiation only, so in every set module linking has multi-memory with
/// it.
#[derive(Clone, Copy, Debug, PartialEq, Eq)]
pub struct FeatureSet {
    flags: Flags,
}

impl View for FeatureSet {
    type V = Flags;

    closed spec fn view(&self) -> Flags {
        self.flags
    }
}

impl FeatureSet {
    #[verifier::type_invariant]
    spec fn valid(&self) -> bool {
        self.flags.consistent()
    }

    /// The switches, to configure the engine with.
    pub fn flags(&self) -> (flags: Flags)
        ensures
            flags == self@,
            flags.consistent(),
    {
        proof {
            use_type_invariant(self);
        }
        self.flags
    }

    /// Whether all that `feature` stands for is switched on.
    pub fn has(&self, feature: Feature) -> (on: bool)
        ensures
            on == self@.has(feature),
    {
        match feature {
            Feature::All => self.flags.module_linking && self.flags.multi_memory,
            Feature::ModuleLinking => self.flags.module_linking,
            Feature::MultiMemory => self.flags.multi_memory,
        }
    }

    /// The set with `feature` switched on, and with it what it implies.
    pub fn enable(self, feature: Feature) -> (set: FeatureSet)
        ensures
            set@ == self@.with(feature),
    {
        proof {
            use_type_invariant(&self);
        }
        let mut flags = self.flags;
        match feature {
            Feature::All | Feature::ModuleLinking => {
                flags.module_linking = true;
                flags.multi_memory = true;
            },
            Feature::MultiMemory => {
                flags.multi_memory = true;
            },
        }
        FeatureSet { flags }
    }
}

impl Default for FeatureSet {
    /// The set that stands where nothing is asked for: the validator's own
    /// defaults.
    fn default() -> (set: FeatureSet)
        ensures
            set@ == baseline(),
    {
        FeatureSet { flags: validator_defaults() }
    }
}

/// Cuts a request at its commas and trims each piece.
pub fn tokenize(s: &str) -> (ts: Vec<String>)
    ensures
        ts.deep_view() == tokens(s@),
{
    let cs = chars_of(s);
    let n: usize = cs.len();
    let mut ts: Vec<String> = Vec::new();
    let mut start: usize = 0;
    let ghost mut done: Seq<Seq<char>> = Seq::empty();
    proof {
        assert(s@.skip(0) =~= s@);
        assert(done + split(s@, ',') =~= split(s@, ','));
        assert(ts.deep_view() =~= Seq::new(done.len(), |i: int| trimmed(done[i])));
    }
    loop
        invariant
            start <= n == cs.len(),
            cs@ == s@,
            split(s@, ',') == done + split(s@.skip(start as int), ','),
            ts.deep_view() == Seq::new(done.len(), |i: int| trimmed(done[i])),
        decreases n - start,
    {
        let end: usize = find(&cs, start, n, ',');
        let (a, b) = trim_bounds(&cs, start, end);
        let token = s.substring_char(a, b).to_owned();
        let ghost rest = s@.skip(start as int);
        let ghost piece = s@.subrange(start as int, end as int);
        let ghost before = ts.deep_view();
        ts.push(token);
        proof {
            assert(cs@.subrange(start as int, n as int) =~= rest);
            assert(rest.take(end - start) =~= piece);
            assert(ts.deep_view() =~= before.push(trimmed(piece)));
            assert(ts.deep_view() =~= Seq::new(
                done.len() + 1,
                |i: int| trimmed(done.push(piece)[i]),
            ));
            if end < n {
                assert(rest.skip(end - start + 1) =~= s@.skip(end + 1));
                assert(split(s@, ',') =~= done.push(piece) + split(s@.skip(end + 1), ','));
            } else {
                assert(piece =~= rest);
                assert(split(s@, ',') =~= done.push(piece));
            }
            done = done.push(piece);
        }
        if end == n {
            return ts;
        }
        start = end + 1;
    }
}

/// Grants a list of tokens, first to last, on top of the validator's
/// defaults. The first token that names no feature has the list refused.
pub fn negotiate(tokens: &Vec<String>) -> (r: Result<FeatureSet, ParseError>)
    ensures
        match r {
            Ok(set) => granted(tokens.deep_view()) == Ok::<Flags, Seq<char>>(set@),
            Err(e) => granted(tokens.deep_view()) matches Err(t) && e@
                == ParseErrorView::UnknownFeature(t),
        },
{
    let ghost ts = tokens.deep_view();
    let ghost unknown = Seq::new(ts.len(), |i: int| Feature::named(ts[i]) is None);
    let mut set = FeatureSet::default();
    let mut k: usize = 0;
    proof {
        assert(ts.take(0) =~= Seq::<Seq<char>>::empty());
    }
    while k < tokens.len()
        invariant
            k <= tokens.len(),
            ts == tokens.deep_view(),
            unknown == Seq::new(ts.len(), |i: int| Feature::named(ts[i]) is None),
            forall|j: int| 0 <= j < k ==> unknown[j] != true,
            set@ == negotiated(baseline(), ts.take(k as int)),
        decreases tokens.len() - k,
    {
        proof {
            assert(ts[k as int] == tokens[k as int]@);
            assert(ts.take(k + 1) =~= ts.take(k as int).push(ts[k as int]));
        }
        match Feature::from_name(tokens[k].as_str()) {
            Some(feature) => {
                proof {
                    lemma_negotiated_push(baseline(), ts.take(k as int), ts[k as int], feature);
                }
                set = set.enable(feature);
            },
            None => {
                proof {
                    lemma_first_index_is(unknown, true, k as int);
                }
                return Err(ParseError::UnknownFeature(tokens[k].clone()));
            },
        }
        k += 1;
    }
    proof {
        assert(ts.take(k as int) =~= ts);
        lemma_first_index_is(unknown, true, k as int);
    }
    Ok(set)
}

/// Negotiates a feature request. Every token must name a feature; the
/// request is then granted on top of the validator's defaults. Otherwise
/// the first token that names none is handed back in the error, trimmed.
pub fn parse_wasm_features(s: &str) -> (r: Result<FeatureSet, ParseError>)
    ensures
        match r {
            Ok(set) => negotiation(s@) == Ok::<Flags, Seq<char>>(set@),
            Err(e) => negotiation(s@) matches Err(t) && e@ == ParseErrorView::UnknownFeature(t),
        },
{
    let tokens = tokenize(s);
    negotiate(&tokens)
}

} // verus!
