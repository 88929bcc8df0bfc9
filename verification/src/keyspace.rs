//! Keyspaces: how keys, inner keys and values are shaped, validated and
//! drawn.

use crate::sampling::{
    alphanumeric_byte, check_exponent, positive_number, range_between,
    table_new, table_sample, table_weights, uniform_between, weight_error, zipf_elements,
    zipf_exponent, zipf_new, zipf_rank, WeightError, WeightTable, ZipfTable,
};
use crate::text::{
    all_alphanumeric, all_digits, decimal_value, lemma_pow10_ten, lemma_zero_padded_shape, pow10,
    zero_padded,
    zero_padded_decimal,
};
use vstd::prelude::*;

verus! {

/// How the bytes of a key, inner key or value are produced.
#[derive(Clone, Copy, Debug, PartialEq, Eq, Structural)]
pub enum FieldType {
    /// Random bytes from `A`-`Z`, `a`-`z`, `0`-`9`.
    Alphanumeric,
    /// A decimal number, left-padded with zeros to the field's length.
    U32,
}

/// The operations a workload can issue.
#[derive(Clone, Copy, Debug, PartialEq, Eq, Structural)]
pub enum Verb {
    Get,
    /// Store a value under a key.
    Put,
    Delete,
    HashGet,
    HashSet,
    HashDelete,
    HashExists,
    HashIncrement,
    HashMultiGet,
    ListPushFront,
    ListPushBack,
    ListPopFront,
    ListPopBack,
    ListRange,
    ListFetch,
    ListLength,
    ListRemove,
    ListStore,
    MultiGet,
    SetAdd,
    SetMembers,
    SetRemove,
    SortedSetAdd,
    SortedSetMembers,
    SortedSetIncrement,
    SortedSetRank,
    SortedSetRemove,
    SortedSetScore,
    Ping,
    Publish,
    Reconnect,
}

impl Verb {
    /// True for the operations that send a value to the service.
    pub open spec fn writes(self) -> bool {
        self is Put || self is HashSet || self is Publish
    }

    /// True for the operations that address a field, element or member inside
    /// the keyed object.
    pub open spec fn addresses_inner_keys(self) -> bool {
        self is HashGet || self is HashSet || self is HashDelete || self is HashExists
            || self is HashIncrement || self is HashMultiGet || self is ListPushFront
            || self is ListPushBack || self is ListRemove || self is ListStore || self is SetAdd
            || self is SetRemove || self is SortedSetAdd || self is SortedSetIncrement
            || self is SortedSetRank || self is SortedSetRemove || self is SortedSetScore
    }

    /// Whether this operation sends a value to the service.
    pub fn is_write(self) -> (out: bool)
        ensures
            out == self.writes(),
    {
        match self {
            Verb::Put | Verb::HashSet | Verb::Publish => true,
            _ => false,
        }
    }

    /// Whether this operation addresses a field, element or member.
    pub fn needs_inner_key(self) -> (out: bool)
        ensures
            out == self.addresses_inner_keys(),
    {
        match self {
            Verb::HashGet
            | Verb::HashSet
            | Verb::HashDelete
            | Verb::HashExists
            | Verb::HashIncrement
            | Verb::HashMultiGet
            | Verb::ListPushFront
            | Verb::ListPushBack
            | Verb::ListRemove
            | Verb::ListStore
            | Verb::SetAdd
            | Verb::SetRemove
            | Verb::SortedSetAdd
            | Verb::SortedSetIncrement
            | Verb::SortedSetRank
            | Verb::SortedSetRemove
            | Verb::SortedSetScore => true,
            _ => false,
        }
    }
}

/// One operation of a keyspace and its relative weight.
#[derive(Clone, Copy, Debug, PartialEq, Eq, Structural)]
pub struct Command {
    pub verb: Verb,
    pub weight: usize,
}

impl Command {
    pub fn new(verb: Verb, weight: usize) -> (out: Self)
        ensures
            out == (Command { verb, weight }),
    {
        Command { verb, weight }
    }

    pub fn verb(&self) -> (out: Verb)
        ensures
            out == self.verb,
    {
        self.verb
    }

    pub fn weight(&self) -> (out: usize)
        ensures
            out == self.weight,
    {
        self.weight
    }
}

/// The shape of an inner key or a value, and its relative weight.
#[derive(Clone, Copy, Debug, PartialEq, Eq, Structural)]
pub struct Field {
    pub length: usize,
    pub cardinality: u32,
    pub field_type: FieldType,
    pub weight: usize,
}

/// An inner key descriptor: a field, element or member name.
pub type InnerKey = Field;

/// A value descriptor.
pub type Value = Field;

impl Field {
    /// A numeric field needs at least one digit, at least one number to draw
    /// from, and room for the largest of them. An alphanumeric field has no
    /// constraint.
    pub open spec fn shape_ok(self) -> bool {
        self.field_type is U32 ==> number_fits(self.cardinality, self.length)
    }

    /// What every rendering of this field satisfies: it has the field's
    /// length; an alphanumeric field is alphanumeric throughout; a numeric
    /// field is a zero-padded decimal below the cardinality.
    pub open spec fn admits(self, bytes: Seq<u8>) -> bool {
        &&& bytes.len() == self.length
        &&& self.field_type is Alphanumeric ==> all_alphanumeric(bytes)
        &&& self.field_type is U32 ==> {
            &&& all_digits(bytes)
            &&& decimal_value(bytes) < self.cardinality
            &&& bytes == zero_padded(decimal_value(bytes), self.length as nat)
        }
    }

    pub fn new(length: usize, cardinality: u32, field_type: FieldType, weight: usize) -> (out:
        Self)
        ensures
            out == (Field { length, cardinality, field_type, weight }),
    {
        Field { length, cardinality, field_type, weight }
    }

    pub fn length(&self) -> (out: usize)
        ensures
            out == self.length,
    {
        self.length
    }

    pub fn cardinality(&self) -> (out: u32)
        ensures
            out == self.cardinality,
    {
        self.cardinality
    }

    pub fn field_type(&self) -> (out: FieldType)
        ensures
            out == self.field_type,
    {
        self.field_type
    }

    pub fn weight(&self) -> (out: usize)
        ensures
            out == self.weight,
    {
        self.weight
    }

    /// Whether the descriptor can be rendered at all.
    pub fn is_shape_ok(&self) -> (out: bool)
        ensures
            out == self.shape_ok(),
    {
        match self.field_type {
            FieldType::Alphanumeric => true,
            FieldType::U32 => fits_width(self.cardinality, self.length),
        }
    }

    /// Draws one rendering of this field.
    pub fn generate(&self, rng: &mut rand_xoshiro::Xoshiro256Plus) -> (out: Vec<u8>)
        requires
            self.shape_ok(),
        ensures
            self.admits(out@),
    {
        match self.field_type {
            FieldType::Alphanumeric => random_alphanumeric(rng, self.length),
            FieldType::U32 => {
                let n = range_between(rng, 0, self.cardinality);
                number_bytes(n, self.cardinality, self.length)
            },
        }
    }
}

/// True when `cardinality` numbers, counted from zero, exist and each fits
/// in `length` decimal digits.
pub open spec fn number_fits(cardinality: u32, length: usize) -> bool {
    length >= 1 && 1 <= cardinality <= pow10(length as nat)
}

/// Decides whether `bound` numbers, counted from zero, each fit in `length`
/// decimal digits.
pub fn within_width(bound: u64, length: usize) -> (out: bool)
    requires
        bound <= 0x1_0000_0000,
    ensures
        out == (length >= 1 && bound <= pow10(length as nat)),
{
    if length == 0 {
        return false;
    }
    let mut power: u64 = 1;
    let mut e: usize = 0;
    while e < length && e < 10
        invariant
            e <= length,
            e <= 10,
            power == pow10(e as nat),
            power <= 10_000_000_000,
        decreases length - e,
    {
        proof {
            assert(pow10((e + 1) as nat) == 10 * pow10(e as nat));
            lemma_pow10_monotonic((e + 1) as nat, 10);
            lemma_pow10_ten();
        }
        power = power * 10;
        e = e + 1;
    }
    proof {
        if e < length {
            lemma_pow10_ten();
            lemma_pow10_monotonic(e as nat, length as nat);
        }
    }
    bound <= power
}

/// Decides [`number_fits`].
pub fn fits_width(cardinality: u32, length: usize) -> (out: bool)
    ensures
        out == number_fits(cardinality, length),
{
    cardinality != 0 && within_width(cardinality as u64, length)
}

/// Ten to a larger power is no smaller.
pub proof fn lemma_pow10_monotonic(a: nat, b: nat)
    requires
        a <= b,
    ensures
        pow10(a) <= pow10(b),
    decreases b,
{
    if a < b {
        lemma_pow10_monotonic(a, (b - 1) as nat);
    }
}

/// Renders the number `n`, drawn from below `cardinality`, as a field of
/// `length` digits.
pub fn number_bytes(n: u32, cardinality: u32, length: usize) -> (out: Vec<u8>)
    requires
        n < cardinality,
        number_fits(cardinality, length),
    ensures
        out@ == zero_padded(n as nat, length as nat),
        out.len() == length,
        all_digits(out@),
        decimal_value(out@) == n,
{
    proof {
        lemma_zero_padded_shape(n as nat, length as nat);
    }
    zero_padded_decimal(n, length)
}

/// Draws `length` alphanumeric bytes.
pub fn random_alphanumeric(rng: &mut rand_xoshiro::Xoshiro256Plus, length: usize) -> (out: Vec<
    u8,
>)
    ensures
        out.len() == length,
        all_alphanumeric(out@),
{
    let mut out: Vec<u8> = Vec::new();
    let mut i: usize = 0;
    while i < length
        invariant
            i <= length,
            out.len() == i,
            all_alphanumeric(out@),
        decreases length - i,
    {
        let b = alphanumeric_byte(rng);
        out.push(b);
        i = i + 1;
    }
    out
}


/// The weights of a list of commands, in order.
pub open spec fn command_weights(commands: Seq<Command>) -> Seq<usize> {
    commands.map_values(|c: Command| c.weight)
}

/// The weights of a list of fields, in order.
pub open spec fn field_weights(fields: Seq<Field>) -> Seq<usize> {
    fields.map_values(|f: Field| f.weight)
}

/// True when some command in the list sends a value.
pub open spec fn any_writes(commands: Seq<Command>) -> bool {
    exists|i: int| 0 <= i < commands.len() && (#[trigger] commands[i]).verb.writes()
}

/// True when some command in the list addresses an inner key.
pub open spec fn any_addresses_inner_keys(commands: Seq<Command>) -> bool {
    exists|i: int|
        0 <= i < commands.len() && (#[trigger] commands[i]).verb.addresses_inner_keys()
}

/// True when `index` is the first field of the list that cannot be rendered.
pub open spec fn is_first_bad(fields: Seq<Field>, index: int) -> bool {
    &&& 0 <= index < fields.len()
    &&& !fields[index].shape_ok()
    &&& forall|j: int| 0 <= j < index ==> (#[trigger] fields[j]).shape_ok()
}

/// True when every field of the list can be rendered.
pub open spec fn all_shapes_ok(fields: Seq<Field>) -> bool {
    forall|j: int| 0 <= j < fields.len() ==> (#[trigger] fields[j]).shape_ok()
}

/// The first field of the list that cannot be rendered, if there is one.
pub open spec fn first_bad(fields: Seq<Field>) -> Option<usize> {
    if exists|i: int| is_first_bad(fields, i) {
        Some((choose|i: int| is_first_bad(fields, i)) as usize)
    } else {
        None
    }
}

/// At most one index is the first bad one, so finding it settles
/// [`first_bad`].
pub proof fn lemma_first_bad_unique(fields: Seq<Field>, index: int)
    requires
        is_first_bad(fields, index),
    ensures
        (choose|i: int| is_first_bad(fields, i)) == index,
{
    let other = choose|i: int| is_first_bad(fields, i);
    assert(is_first_bad(fields, other));
    if other < index {
        assert(fields[other].shape_ok());
    } else if index < other {
        assert(fields[index].shape_ok());
    }
}

/// Finds the first field that cannot be rendered.
pub fn find_bad_field(fields: &Vec<Field>) -> (out: Option<usize>)
    ensures
        out == first_bad(fields@),
        out is None ==> all_shapes_ok(fields@),
        out matches Some(i) ==> is_first_bad(fields@, i as int),
{
    let mut i: usize = 0;
    while i < fields.len()
        invariant
            i <= fields.len(),
            forall|j: int| 0 <= j < i ==> (#[trigger] fields@[j]).shape_ok(),
        decreases fields.len() - i,
    {
        if !fields[i].is_shape_ok() {
            proof {
                assert(is_first_bad(fields@, i as int));
                lemma_first_bad_unique(fields@, i as int);
            }
            return Some(i);
        }
        i = i + 1;
    }
    assert(first_bad(fields@) is None) by {
        if exists|k: int| is_first_bad(fields@, k) {
            let k = choose|k: int| is_first_bad(fields@, k);
            assert(fields@[k].shape_ok());
        }
    }
    None
}

/// Collects the weights of a list of commands.
pub fn command_weight_list(commands: &Vec<Command>) -> (out: Vec<usize>)
    ensures
        out@ == command_weights(commands@),
{
    let mut out: Vec<usize> = Vec::new();
    let mut i: usize = 0;
    while i < commands.len()
        invariant
            i <= commands.len(),
            out.len() == i,
            forall|j: int| 0 <= j < i ==> out@[j] == (#[trigger] commands@[j]).weight,
        decreases commands.len() - i,
    {
        out.push(commands[i].weight);
        i = i + 1;
    }
    assert(out@ =~= command_weights(commands@));
    out
}

/// Collects the weights of a list of fields.
pub fn field_weight_list(fields: &Vec<Field>) -> (out: Vec<usize>)
    ensures
        out@ == field_weights(fields@),
{
    let mut out: Vec<usize> = Vec::new();
    let mut i: usize = 0;
    while i < fields.len()
        invariant
            i <= fields.len(),
            out.len() == i,
            forall|j: int| 0 <= j < i ==> out@[j] == (#[trigger] fields@[j]).weight,
        decreases fields.len() - i,
    {
        out.push(fields[i].weight);
        i = i + 1;
    }
    assert(out@ =~= field_weights(fields@));
    out
}

/// Whether some command in the list sends a value.
pub fn has_write(commands: &Vec<Command>) -> (out: bool)
    ensures
        out == any_writes(commands@),
{
    let mut i: usize = 0;
    while i < commands.len()
        invariant
            i <= commands.len(),
            forall|j: int| 0 <= j < i ==> !(#[trigger] commands@[j]).verb.writes(),
        decreases commands.len() - i,
    {
        if commands[i].verb.is_write() {
            return true;
        }
        i = i + 1;
    }
    false
}

/// Whether some command in the list addresses an inner key.
pub fn has_inner_key_use(commands: &Vec<Command>) -> (out: bool)
    ensures
        out == any_addresses_inner_keys(commands@),
{
    let mut i: usize = 0;
    while i < commands.len()
        invariant
            i <= commands.len(),
            forall|j: int|
                0 <= j < i ==> !(#[trigger] commands@[j]).verb.addresses_inner_keys(),
        decreases commands.len() - i,
    {
        if commands[i].verb.needs_inner_key() {
            return true;
        }
        i = i + 1;
    }
    false
}


/// How the numbers behind numeric keys are spread, as configured.
pub enum KeyDistributionModel {
    /// Every number below the cardinality is equally likely.
    Uniform,
    /// Ranks from one to the cardinality follow a power law with this
    /// exponent, given as a decimal number above zero, with or without a
    /// leading `+` and a scale such as `e-3`; `1.0` when none is given.
    Zipf { exponent: Option<String> },
}

/// How the numbers behind numeric keys are drawn.
pub enum KeyDistribution {
    /// Uniform over `0..cardinality`.
    Uniform { cardinality: usize },
    /// Zipf ranks, counted from one.
    Zipf(ZipfTable),
}

/// The exponent of a configured Zipf distribution, as text.
pub open spec fn exponent_text(model: KeyDistributionModel) -> Seq<char> {
    match model {
        KeyDistributionModel::Zipf { exponent: Some(e) } => e@,
        _ => "1.0"@,
    }
}

/// True when the exponent of a configured Zipf distribution is a decimal
/// number above zero. A uniform distribution has none to check.
pub open spec fn exponent_ok(model: KeyDistributionModel) -> bool {
    model is Zipf ==> positive_number(exponent_text(model))
}

/// One more than the largest number that a distribution over `cardinality`
/// keys draws: a uniform one draws below the cardinality, a Zipf one draws
/// ranks up to it.
pub open spec fn number_bound(cardinality: u32, model: KeyDistributionModel) -> nat {
    if model is Zipf {
        cardinality as nat + 1
    } else {
        cardinality as nat
    }
}

/// True when every number that the distribution draws fits in `length`
/// decimal digits.
pub open spec fn numbers_fit(cardinality: u32, model: KeyDistributionModel, length: usize) -> bool {
    length >= 1 && number_bound(cardinality, model) <= pow10(length as nat)
}

impl KeyDistribution {
    /// A uniform distribution needs a number to draw.
    pub open spec fn wf(self) -> bool {
        self matches KeyDistribution::Uniform { cardinality } ==> cardinality > 0
    }

    /// What every draw satisfies: a uniform draw is below the cardinality,
    /// a Zipf rank lies between one and the number of elements.
    pub open spec fn admits(self, n: usize) -> bool {
        match self {
            KeyDistribution::Uniform { cardinality } => n < cardinality,
            KeyDistribution::Zipf(table) => 1 <= n <= zipf_elements(table),
        }
    }

    /// Draws one number.
    pub fn sample(&self, rng: &mut rand_xoshiro::Xoshiro256Plus) -> (n: usize)
        requires
            self.wf(),
        ensures
            self.admits(n),
    {
        match self {
            KeyDistribution::Uniform { cardinality } => uniform_between(rng, 0, *cardinality),
            KeyDistribution::Zipf(table) => zipf_rank(table, rng),
        }
    }
}

/// A keyspace as configured, before its samplers are built.
pub struct KeyspaceSettings {
    pub length: usize,
    pub weight: usize,
    pub cardinality: u32,
    pub ttl: usize,
    pub batch_size: usize,
    pub key_type: FieldType,
    pub key_distribution: KeyDistributionModel,
    pub commands: Vec<Command>,
    pub inner_keys: Vec<InnerKey>,
    pub values: Vec<Value>,
}

/// Why a keyspace is rejected.
#[derive(Clone, Copy, Debug, PartialEq, Eq, Structural)]
pub enum KeyspaceError {
    /// Keys have no bytes.
    ZeroLength,
    /// The keyspace can never be selected.
    ZeroWeight,
    /// The keyspace has no keys.
    ZeroCardinality,
    /// Numeric keys are configured and the largest does not fit the key length.
    KeyTooNarrow,
    /// The exponent of the Zipf distribution is not a decimal number above
    /// zero.
    BadExponent,
    /// The command weights do not make a sampler.
    Commands(WeightError),
    /// The inner key at this position cannot be rendered.
    InnerKeyShape(usize),
    /// The inner key weights do not make a sampler.
    InnerKeys(WeightError),
    /// A command addresses inner keys and none is configured.
    MissingInnerKeys,
    /// The value at this position cannot be rendered.
    ValueShape(usize),
    /// The value weights do not make a sampler.
    Values(WeightError),
    /// A command writes and no value is configured.
    MissingValues,
}

/// The first reason to reject a keyspace, or none. The checks run in the
/// order of the variants of [`KeyspaceError`].
pub open spec fn keyspace_error(s: KeyspaceSettings) -> Option<KeyspaceError> {
    if s.length == 0 {
        Some(KeyspaceError::ZeroLength)
    } else if s.weight == 0 {
        Some(KeyspaceError::ZeroWeight)
    } else if s.cardinality == 0 {
        Some(KeyspaceError::ZeroCardinality)
    } else if s.key_type is U32 && !numbers_fit(s.cardinality, s.key_distribution, s.length) {
        Some(KeyspaceError::KeyTooNarrow)
    } else if !exponent_ok(s.key_distribution) {
        Some(KeyspaceError::BadExponent)
    } else if weight_error(command_weights(s.commands@)) is Some {
        Some(KeyspaceError::Commands(weight_error(command_weights(s.commands@))->0))
    } else if first_bad(s.inner_keys@) is Some {
        Some(KeyspaceError::InnerKeyShape(first_bad(s.inner_keys@)->0))
    } else if s.inner_keys.len() > 0 && weight_error(field_weights(s.inner_keys@)) is Some {
        Some(KeyspaceError::InnerKeys(weight_error(field_weights(s.inner_keys@))->0))
    } else if s.inner_keys.len() == 0 && any_addresses_inner_keys(s.commands@) {
        Some(KeyspaceError::MissingInnerKeys)
    } else if first_bad(s.values@) is Some {
        Some(KeyspaceError::ValueShape(first_bad(s.values@)->0))
    } else if s.values.len() > 0 && weight_error(field_weights(s.values@)) is Some {
        Some(KeyspaceError::Values(weight_error(field_weights(s.values@))->0))
    } else if s.values.len() == 0 && any_writes(s.commands@) {
        Some(KeyspaceError::MissingValues)
    } else {
        None
    }
}

/// A keyspace with its samplers: a class of keys and the commands issued
/// against them.
pub struct Keyspace {
    pub length: usize,
    pub weight: usize,
    pub cardinality: u32,
    pub commands: Vec<Command>,
    pub command_dist: WeightTable,
    pub inner_keys: Vec<InnerKey>,
    pub inner_key_dist: Option<WeightTable>,
    pub values: Vec<Value>,
    pub value_dist: Option<WeightTable>,
    pub ttl: usize,
    pub key_type: FieldType,
    pub batch_size: usize,
    pub key_distribution: KeyDistribution,
}

/// The 32-bit number that a draw from the key distribution is rendered as.
pub open spec fn key_number(sample: usize) -> nat {
    (sample as nat) % 0x1_0000_0000
}

impl Keyspace {
    /// The invariant that construction establishes: the parameters are
    /// positive, numeric fields fit their lengths, and each sampler was built
    /// from the weights of the list it indexes.
    pub open spec fn wf(&self) -> bool {
        &&& self.length >= 1
        &&& self.weight >= 1
        &&& self.cardinality >= 1
        &&& self.key_type is U32 ==> self.length >= 1 && self.largest_number() < pow10(
            self.length as nat,
        )
        &&& self.key_distribution matches KeyDistribution::Uniform { cardinality }
            ==> cardinality == self.cardinality
        &&& self.key_distribution matches KeyDistribution::Zipf(table) ==> zipf_elements(table)
            == self.cardinality
        &&& table_weights(self.command_dist) == command_weights(self.commands@)
        &&& all_shapes_ok(self.inner_keys@)
        &&& all_shapes_ok(self.values@)
        &&& self.inner_key_dist is None <==> self.inner_keys.len() == 0
        &&& self.inner_key_dist matches Some(t) ==> table_weights(t) == field_weights(
            self.inner_keys@,
        )
        &&& self.value_dist is None <==> self.values.len() == 0
        &&& self.value_dist matches Some(t) ==> table_weights(t) == field_weights(self.values@)
        &&& any_addresses_inner_keys(self.commands@) ==> self.inner_keys.len() > 0
        &&& any_writes(self.commands@) ==> self.values.len() > 0
    }

    /// True when this keyspace holds exactly what `s` configures.
    pub open spec fn built_from(&self, s: KeyspaceSettings) -> bool {
        &&& self.length == s.length
        &&& self.weight == s.weight
        &&& self.cardinality == s.cardinality
        &&& self.ttl == s.ttl
        &&& self.batch_size == s.batch_size
        &&& self.key_type == s.key_type
        &&& self.commands@ == s.commands@
        &&& self.inner_keys@ == s.inner_keys@
        &&& self.values@ == s.values@
        &&& match s.key_distribution {
            KeyDistributionModel::Uniform => self.key_distribution == (KeyDistribution::Uniform {
                cardinality: s.cardinality as usize,
            }),
            KeyDistributionModel::Zipf { .. } => {
                &&& self.key_distribution matches KeyDistribution::Zipf(table)
                &&& zipf_elements(table) == s.cardinality
                &&& zipf_exponent(table) == exponent_text(s.key_distribution)
            },
        }
    }

    /// The largest number that the key distribution draws: one below the
    /// cardinality for a uniform distribution, the cardinality for Zipf
    /// ranks.
    pub open spec fn largest_number(&self) -> nat {
        if self.key_distribution is Zipf {
            self.cardinality as nat
        } else {
            (self.cardinality - 1) as nat
        }
    }

    /// The smallest number that the key distribution draws: zero for a
    /// uniform distribution, one for Zipf ranks.
    pub open spec fn smallest_number(&self) -> nat {
        if self.key_distribution is Zipf {
            1
        } else {
            0
        }
    }

    /// The key that a draw `sample` from the key distribution is rendered as,
    /// for numeric keys.
    pub open spec fn key_for_sample(&self, sample: usize) -> Seq<u8> {
        zero_padded(key_number(sample), self.length as nat)
    }

    /// What every generated key satisfies. It has the keyspace's length. An
    /// alphanumeric key is alphanumeric throughout. A numeric key is made of
    /// digits, is the zero-padded rendering of the number it reads as, and
    /// that number is one the key distribution draws: below the cardinality
    /// for a uniform distribution, from one to the cardinality for Zipf
    /// ranks.
    pub open spec fn admits_key(&self, key: Seq<u8>) -> bool {
        &&& key.len() == self.length
        &&& self.key_type is Alphanumeric ==> all_alphanumeric(key)
        &&& self.key_type is U32 ==> {
            &&& all_digits(key)
            &&& key == zero_padded(decimal_value(key), self.length as nat)
            &&& self.smallest_number() <= decimal_value(key) <= self.largest_number()
        }
    }

    /// Validates a configured keyspace and builds its samplers.
    pub fn new(s: KeyspaceSettings) -> (out: Result<Keyspace, KeyspaceError>)
        ensures
            match out {
                Ok(k) => keyspace_error(s) is None && k.wf() && k.built_from(s),
                Err(e) => keyspace_error(s) == Some(e),
            },
    {
        if s.length == 0 {
            return Err(KeyspaceError::ZeroLength);
        }
        if s.weight == 0 {
            return Err(KeyspaceError::ZeroWeight);
        }
        if s.cardinality == 0 {
            return Err(KeyspaceError::ZeroCardinality);
        }
        let zipf = match &s.key_distribution {
            KeyDistributionModel::Uniform => false,
            KeyDistributionModel::Zipf { .. } => true,
        };
        if let FieldType::U32 = s.key_type {
            let bound: u64 = if zipf {
                s.cardinality as u64 + 1
            } else {
                s.cardinality as u64
            };
            if !within_width(bound, s.length) {
                return Err(KeyspaceError::KeyTooNarrow);
            }
        }
        let table = match &s.key_distribution {
            KeyDistributionModel::Uniform => None,
            KeyDistributionModel::Zipf { exponent } => {
                let text: &str = match exponent {
                    Some(e) => e.as_str(),
                    None => "1.0",
                };
                let (number, positive) = check_exponent(text);
                if !number || !positive {
                    return Err(KeyspaceError::BadExponent);
                }
                match zipf_new(s.cardinality as usize, text) {
                    Some(t) => Some(t),
                    None => {
                        return Err(KeyspaceError::BadExponent);
                    },
                }
            },
        };
        let command_dist = match table_new(command_weight_list(&s.commands)) {
            Ok(t) => t,
            Err(e) => {
                return Err(KeyspaceError::Commands(e));
            },
        };
        if let Some(i) = find_bad_field(&s.inner_keys) {
            return Err(KeyspaceError::InnerKeyShape(i));
        }
        let inner_key_dist = if s.inner_keys.len() == 0 {
            if has_inner_key_use(&s.commands) {
                return Err(KeyspaceError::MissingInnerKeys);
            }
            None
        } else {
            match table_new(field_weight_list(&s.inner_keys)) {
                Ok(t) => Some(t),
                Err(e) => {
                    return Err(KeyspaceError::InnerKeys(e));
                },
            }
        };
        if let Some(i) = find_bad_field(&s.values) {
            return Err(KeyspaceError::ValueShape(i));
        }
        let value_dist = if s.values.len() == 0 {
            if has_write(&s.commands) {
                return Err(KeyspaceError::MissingValues);
            }
            None
        } else {
            match table_new(field_weight_list(&s.values)) {
                Ok(t) => Some(t),
                Err(e) => {
                    return Err(KeyspaceError::Values(e));
                },
            }
        };
        let key_distribution = match table {
            Some(t) => KeyDistribution::Zipf(t),
            None => KeyDistribution::Uniform { cardinality: s.cardinality as usize },
        };
        Ok(
            Keyspace {
                length: s.length,
                weight: s.weight,
                cardinality: s.cardinality,
                commands: s.commands,
                command_dist,
                inner_keys: s.inner_keys,
                inner_key_dist,
                values: s.values,
                value_dist,
                ttl: s.ttl,
                key_type: s.key_type,
                batch_size: s.batch_size,
                key_distribution,
            },
        )
    }

    /// The length of every key, in bytes.
    pub fn length(&self) -> (out: usize)
        ensures
            out == self.length,
    {
        self.length
    }

    /// The number of distinct keys.
    pub fn cardinality(&self) -> (out: u32)
        ensures
            out == self.cardinality,
    {
        self.cardinality
    }

    /// The selection weight among keyspaces.
    pub fn weight(&self) -> (out: usize)
        ensures
            out == self.weight,
    {
        self.weight
    }

    /// The time-to-live attached to stored items.
    pub fn ttl(&self) -> (out: usize)
        ensures
            out == self.ttl,
    {
        self.ttl
    }

    /// The number of keys per batched request.
    pub fn batch_size(&self) -> (out: usize)
        ensures
            out == self.batch_size,
    {
        self.batch_size
    }

    /// Renders the draw `sample` as a numeric key.
    pub fn key_from_sample(&self, sample: usize) -> (key: Vec<u8>)
        ensures
            key@ == self.key_for_sample(sample),
    {
        let n: u32 = (sample as u64 % 0x1_0000_0000u64) as u32;
        zero_padded_decimal(n, self.length)
    }

    /// Draws one key.
    pub fn generate_key(&self, rng: &mut rand_xoshiro::Xoshiro256Plus) -> (key: Vec<u8>)
        requires
            self.wf(),
        ensures
            self.admits_key(key@),
    {
        match self.key_type {
            FieldType::Alphanumeric => random_alphanumeric(rng, self.length),
            FieldType::U32 => {
                let sample = self.key_distribution.sample(rng);
                let key = self.key_from_sample(sample);
                proof {
                    assert(sample <= self.largest_number());
                    assert(key_number(sample) == sample);
                    lemma_zero_padded_shape(sample as nat, self.length as nat);
                }
                key
            },
        }
    }

    /// Draws one inner key, or `None` when the keyspace has none; then no
    /// draw is made and the generator is left as it was.
    pub fn generate_inner_key(&self, rng: &mut rand_xoshiro::Xoshiro256Plus) -> (out: Option<
        Vec<u8>,
    >)
        requires
            self.wf(),
        ensures
            out is None <==> self.inner_keys.len() == 0,
            out is None ==> *final(rng) == *old(rng),
            out matches Some(bytes) ==> drawn_from(self.inner_keys@, bytes@),
    {
        match &self.inner_key_dist {
            Some(dist) => {
                let idx = table_sample(dist, rng);
                let conf = &self.inner_keys[idx];
                Some(conf.generate(rng))
            },
            None => None,
        }
    }

    /// Draws one value, or `None` when the keyspace has none; then no draw
    /// is made and the generator is left as it was.
    pub fn generate_value(&self, rng: &mut rand_xoshiro::Xoshiro256Plus) -> (out: Option<
        Vec<u8>,
    >)
        requires
            self.wf(),
        ensures
            out is None <==> self.values.len() == 0,
            out is None ==> *final(rng) == *old(rng),
            out matches Some(bytes) ==> drawn_from(self.values@, bytes@),
    {
        match &self.value_dist {
            Some(dist) => {
                let idx = table_sample(dist, rng);
                let conf = &self.values[idx];
                Some(conf.generate(rng))
            },
            None => None,
        }
    }

    /// Draws one command, by weight.
    pub fn choose_command(&self, rng: &mut rand_xoshiro::Xoshiro256Plus) -> (out: &Command)
        requires
            self.wf(),
        ensures
            exists|i: int|
                0 <= i < self.commands.len() && *out == #[trigger] self.commands@[i]
                    && self.commands@[i].weight > 0,
    {
        let idx = table_sample(&self.command_dist, rng);
        &self.commands[idx]
    }

    /// Draws one value descriptor, by weight, or `None` when the keyspace has
    /// none; then no draw is made and the generator is left as it was.
    pub fn choose_value(&self, rng: &mut rand_xoshiro::Xoshiro256Plus) -> (out: Option<&Value>)
        requires
            self.wf(),
        ensures
            out is None <==> self.values.len() == 0,
            out is None ==> *final(rng) == *old(rng),
            out matches Some(v) ==> exists|i: int|
                0 <= i < self.values.len() && *v == #[trigger] self.values@[i]
                    && self.values@[i].weight > 0,
    {
        match &self.value_dist {
            Some(dist) => {
                let idx = table_sample(dist, rng);
                Some(&self.values[idx])
            },
            None => None,
        }
    }
}

/// True when `bytes` renders one of the `fields` that has a positive weight.
pub open spec fn drawn_from(fields: Seq<Field>, bytes: Seq<u8>) -> bool {
    exists|i: int|
        0 <= i < fields.len() && (#[trigger] fields[i]).weight > 0 && fields[i].admits(bytes)
}


/// Key shape: every key that a keyspace admits has exactly the keyspace's
/// length; a numeric key is made of digits and is left-padded with zeros;
/// with uniformly drawn numbers it reads as a number below the cardinality,
/// with Zipf ranks as a rank from one to the cardinality.
pub proof fn lemma_key_shape(k: Keyspace, key: Seq<u8>)
    requires
        k.wf(),
        k.admits_key(key),
    ensures
        key.len() == k.length,
        k.key_type is Alphanumeric ==> all_alphanumeric(key),
        k.key_type is U32 ==> all_digits(key) && key == zero_padded(
            decimal_value(key),
            k.length as nat,
        ),
        k.key_type is U32 && k.key_distribution is Uniform ==> decimal_value(key) < k.cardinality,
        k.key_type is U32 && k.key_distribution is Zipf ==> 1 <= decimal_value(key)
            <= k.cardinality,
{
}

/// Key length for any draw: a numeric key has the keyspace's length
/// whenever the number drawn has no more digits than that, and is longer
/// otherwise; it always reads back as the number drawn.
pub proof fn lemma_key_length(k: Keyspace, sample: usize)
    requires
        k.wf(),
    ensures
        key_number(sample) < pow10(k.length as nat) ==> k.key_for_sample(sample).len() == k.length,
        key_number(sample) >= pow10(k.length as nat) ==> k.key_for_sample(sample).len()
            > k.length,
        decimal_value(k.key_for_sample(sample)) == key_number(sample),
{
    lemma_zero_padded_shape(key_number(sample), k.length as nat);
}

} // verus!
